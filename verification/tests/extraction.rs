use terrain_mesh::density::{is_below_cutoff, is_equal, is_less, is_positive};
use terrain_mesh::marching_cubes::{
    configuration_id, get_cube_tris, get_mesh_data, names_crossed_edges, split_between, Crossing,
    MeshData, Split,
};
use terrain_mesh::table::{TableError, Triangulation};
use terrain_mesh::volume::Volume;

fn corners() -> Vec<(usize, usize, usize)> {
    vec![
        (0, 0, 0),
        (1, 0, 0),
        (1, 1, 0),
        (0, 1, 0),
        (0, 0, 1),
        (1, 0, 1),
        (1, 1, 1),
        (0, 1, 1),
    ]
}

fn edges() -> Vec<(usize, usize)> {
    vec![
        (0, 1),
        (1, 2),
        (2, 3),
        (3, 0),
        (4, 5),
        (5, 6),
        (6, 7),
        (7, 4),
        (0, 4),
        (1, 5),
        (2, 6),
        (3, 7),
    ]
}

fn rows_with(entries: Vec<(usize, Vec<u8>)>) -> Vec<Vec<u8>> {
    let mut rows: Vec<Vec<u8>> = vec![Vec::new(); 256];
    for (id, row) in entries {
        rows[id] = row;
    }
    rows
}

fn table_with(entries: Vec<(usize, Vec<u8>)>) -> Triangulation {
    Triangulation::new(rows_with(entries), corners(), edges()).unwrap()
}

fn volume_of(dim: usize, densities: &[f32]) -> Volume {
    let samples: Vec<u32> = densities.iter().map(|d| d.to_bits()).collect();
    Volume::from_samples(dim, dim, dim, samples).unwrap()
}

fn interpolate(crossing: &Crossing) -> [f32; 3] {
    let start_density = f32::from_bits(crossing.start_density);
    let end_density = f32::from_bits(crossing.end_density);
    let (start_weight, end_weight) = match crossing.split {
        Split::Even => (0.5, 0.5),
        Split::EndLower => {
            let w = (0.0 - end_density) / (start_density - end_density);
            (w, 1.0 - w)
        }
        Split::StartLower => {
            let w = (0.0 - start_density) / (end_density - start_density);
            (1.0 - w, w)
        }
    };
    [
        crossing.start.0 as f32 * start_weight + crossing.end.0 as f32 * end_weight,
        crossing.start.1 as f32 * start_weight + crossing.end.1 as f32 * end_weight,
        crossing.start.2 as f32 * start_weight + crossing.end.2 as f32 * end_weight,
    ]
}

#[test]
fn negative_numbers_are_below_the_cutoff() {
    assert!(is_below_cutoff((-1.0f32).to_bits()));
    assert!(is_below_cutoff((-1.0e-30f32).to_bits()));
    assert!(is_below_cutoff(f32::NEG_INFINITY.to_bits()));
    assert!(is_below_cutoff(0x8000_0001));
    assert!(is_below_cutoff(f32::MIN.to_bits()));
}

#[test]
fn zero_positive_and_nan_are_not_below_the_cutoff() {
    assert!(!is_below_cutoff(0.0f32.to_bits()));
    assert!(!is_below_cutoff((-0.0f32).to_bits()));
    assert!(!is_below_cutoff(1.0f32.to_bits()));
    assert!(!is_below_cutoff(f32::INFINITY.to_bits()));
    assert!(!is_below_cutoff(f32::NAN.to_bits()));
    assert!(!is_below_cutoff(0xFFC0_0000));
    assert!(!is_below_cutoff(0xFF80_0001));
}

#[test]
fn below_cutoff_agrees_with_float_comparison() {
    let values = [
        -2.5f32, -1.0, -0.0, 0.0, 1.0e-40, -1.0e-40, 3.0, f32::MAX, f32::MIN, f32::EPSILON,
        -f32::EPSILON, f32::INFINITY, f32::NEG_INFINITY, f32::NAN,
    ];
    for v in values.iter() {
        assert_eq!(is_below_cutoff(v.to_bits()), *v < 0.0);
        assert_eq!(is_positive(v.to_bits()), *v > 0.0);
    }
}

#[test]
fn table_accepts_a_well_formed_input() {
    let table = Triangulation::new(rows_with(vec![(1, vec![0, 8, 3])]), corners(), edges());
    let table = table.unwrap();
    assert_eq!(table.triangulation_table.len(), 256);
    assert_eq!(table.triangulation_table[1], vec![0u8, 8, 3]);
    assert_eq!(table.cube_points, corners());
    assert_eq!(table.cube_edges, edges());
}

#[test]
fn table_rejects_wrong_corner_count() {
    let mut points = corners();
    points.pop();
    let made = Triangulation::new(rows_with(vec![]), points, edges());
    assert_eq!(made.err(), Some(TableError::CornerCount));
}

#[test]
fn table_rejects_corner_offset_beyond_unit_cube() {
    let mut points = corners();
    points[6] = (1, 2, 1);
    let made = Triangulation::new(rows_with(vec![]), points, edges());
    assert_eq!(made.err(), Some(TableError::CornerOffset));
}

#[test]
fn table_rejects_wrong_edge_count() {
    let mut e = edges();
    e.push((0, 1));
    let made = Triangulation::new(rows_with(vec![]), corners(), e);
    assert_eq!(made.err(), Some(TableError::EdgeCount));
}

#[test]
fn table_rejects_edge_to_missing_corner() {
    let mut e = edges();
    e[11] = (3, 8);
    let made = Triangulation::new(rows_with(vec![]), corners(), e);
    assert_eq!(made.err(), Some(TableError::CornerIndex));
}

#[test]
fn table_rejects_wrong_row_count() {
    let mut rows = rows_with(vec![]);
    rows.pop();
    let made = Triangulation::new(rows, corners(), edges());
    assert_eq!(made.err(), Some(TableError::RowCount));
}

#[test]
fn table_rejects_partial_triangle() {
    let made = Triangulation::new(rows_with(vec![(7, vec![0, 1])]), corners(), edges());
    assert_eq!(made.err(), Some(TableError::RowLength));
}

#[test]
fn table_rejects_missing_edge_in_row() {
    let made = Triangulation::new(rows_with(vec![(200, vec![0, 1, 12])]), corners(), edges());
    assert_eq!(made.err(), Some(TableError::EdgeIndex));
}

#[test]
fn table_reports_corner_defect_before_row_defect() {
    let mut points = corners();
    points[0] = (0, 0, 9);
    let made = Triangulation::new(rows_with(vec![(3, vec![0])]), points, edges());
    assert_eq!(made.err(), Some(TableError::CornerOffset));
}

#[test]
fn volume_needs_two_samples_per_axis() {
    assert!(Volume::new(1, 2, 2).is_none());
    assert!(Volume::new(2, 1, 2).is_none());
    assert!(Volume::new(2, 2, 0).is_none());
    assert!(Volume::new(2, 2, 2).is_some());
}

#[test]
fn volume_too_large_to_store_is_refused() {
    assert!(Volume::new(usize::MAX, usize::MAX, 2).is_none());
    assert!(Volume::new(2, usize::MAX, usize::MAX).is_none());
}

#[test]
fn new_volume_is_all_positive_zero() {
    let volume = Volume::new(2, 3, 4).unwrap();
    assert_eq!(volume.x(), 2);
    assert_eq!(volume.y(), 3);
    assert_eq!(volume.z(), 4);
    assert_eq!(volume.samples, vec![0u32; 24]);
}

#[test]
fn volume_from_samples_checks_the_count() {
    assert!(Volume::from_samples(2, 2, 2, vec![0; 7]).is_none());
    assert!(Volume::from_samples(2, 2, 2, vec![0; 9]).is_none());
    assert!(Volume::from_samples(2, 2, 1, vec![0; 4]).is_none());
    assert!(Volume::from_samples(2, 2, 2, vec![0; 8]).is_some());
}

#[test]
fn volume_runs_x_fastest() {
    let samples: Vec<u32> = (0..24).collect();
    let volume = Volume::from_samples(2, 3, 4, samples).unwrap();
    assert_eq!(volume.get(0, 0, 0), 0);
    assert_eq!(volume.get(1, 0, 0), 1);
    assert_eq!(volume.get(0, 1, 0), 2);
    assert_eq!(volume.get(0, 0, 1), 6);
    assert_eq!(volume.get(1, 2, 3), 23);
}

#[test]
fn volume_set_changes_one_sample() {
    let mut volume = Volume::new(3, 3, 3).unwrap();
    volume.set(1, 2, 0, 77);
    for z in 0..3 {
        for y in 0..3 {
            for x in 0..3 {
                let expected = if (x, y, z) == (1, 2, 0) { 77 } else { 0 };
                assert_eq!(volume.get(x, y, z), expected);
            }
        }
    }
    assert_eq!(volume.samples[7], 77);
}

#[test]
fn configuration_sets_one_bit_per_corner_below() {
    let above = 1.0f32.to_bits();
    let below = (-1.0f32).to_bits();
    assert_eq!(configuration_id(&[above; 8]), 0);
    assert_eq!(configuration_id(&[below; 8]), 255);
    for i in 0..8 {
        let mut densities = [above; 8];
        densities[i] = below;
        assert_eq!(configuration_id(&densities), 1usize << i);
    }
    let mixed = [below, above, below, below, above, above, above, below];
    assert_eq!(configuration_id(&mixed), 1 + 4 + 8 + 128);
}

#[test]
fn configuration_counts_cutoff_itself_as_not_below() {
    let zero = 0.0f32.to_bits();
    let negative_zero = (-0.0f32).to_bits();
    assert_eq!(configuration_id(&[zero; 8]), 0);
    assert_eq!(configuration_id(&[negative_zero; 8]), 0);
}

#[test]
fn single_corner_below_gives_one_triangle_at_midpoints() {
    let table = table_with(vec![(1, vec![0, 8, 3])]);
    let mut densities = [1.0f32; 8];
    densities[0] = -1.0;
    let volume = volume_of(2, &densities);
    let tris = get_cube_tris(&table, &volume, (0, 0, 0));
    assert_eq!(tris.len(), 3);
    for crossing in tris.iter() {
        assert_eq!(crossing.cube, (0, 0, 0));
        assert!(crossing.start == (0, 0, 0) || crossing.end == (0, 0, 0));
        let (near, far) = if crossing.start == (0, 0, 0) {
            (crossing.start_density, crossing.end_density)
        } else {
            (crossing.end_density, crossing.start_density)
        };
        assert_eq!(near, (-1.0f32).to_bits());
        assert_eq!(far, 1.0f32.to_bits());
    }
    assert_eq!(interpolate(&tris[0]), [0.5, 0.0, 0.0]);
    assert_eq!(interpolate(&tris[1]), [0.0, 0.0, 0.5]);
    assert_eq!(interpolate(&tris[2]), [0.0, 0.5, 0.0]);
    let mesh = get_mesh_data(&table, &volume);
    assert_eq!(mesh.triangle_count(), 1);
    assert_eq!(mesh.vertices, tris);
}

#[test]
fn crossing_names_the_edge_and_its_densities() {
    let table = table_with(vec![(1, vec![0, 8, 3])]);
    let mut densities = [2.0f32; 8];
    densities[0] = -1.0;
    densities[4] = 3.0;
    let volume = volume_of(2, &densities);
    let tris = get_cube_tris(&table, &volume, (0, 0, 0));
    assert_eq!(
        tris,
        vec![
            Crossing {
                cube: (0, 0, 0),
                start: (0, 0, 0),
                end: (1, 0, 0),
                start_density: (-1.0f32).to_bits(),
                end_density: 2.0f32.to_bits(),
                split: Split::StartLower,
            },
            Crossing {
                cube: (0, 0, 0),
                start: (0, 0, 0),
                end: (0, 0, 1),
                start_density: (-1.0f32).to_bits(),
                end_density: 3.0f32.to_bits(),
                split: Split::StartLower,
            },
            Crossing {
                cube: (0, 0, 0),
                start: (0, 1, 0),
                end: (0, 0, 0),
                start_density: 2.0f32.to_bits(),
                end_density: (-1.0f32).to_bits(),
                split: Split::EndLower,
            },
        ]
    );
}

#[test]
fn volume_without_sign_change_has_no_triangles() {
    let table = table_with(vec![(1, vec![0, 8, 3]), (254, vec![0, 3, 8])]);
    let above = volume_of(3, &[0.25f32; 27]);
    let below = volume_of(3, &[-0.25f32; 27]);
    let at_cutoff = volume_of(3, &[0.0f32; 27]);
    assert_eq!(get_mesh_data(&table, &above).vertices.len(), 0);
    assert_eq!(get_mesh_data(&table, &below).vertices.len(), 0);
    assert_eq!(get_mesh_data(&table, &at_cutoff).vertices.len(), 0);
}

#[test]
fn remapped_flat_noise_sits_on_the_cutoff() {
    let raw = 0.0f32;
    let lower = -0.1f32;
    let upper = 0.1f32;
    let diff = upper - lower;
    let adjusted = (raw - (-1.0)) * 0.5 * diff + lower;
    assert_eq!(adjusted, 0.0);
    assert!(!is_below_cutoff(adjusted.to_bits()));
    let table = table_with(vec![(1, vec![0, 8, 3])]);
    let volume = volume_of(2, &[adjusted; 8]);
    assert_eq!(get_mesh_data(&table, &volume).triangle_count(), 0);
}

#[test]
fn every_cube_is_swept_once_x_fastest() {
    let table = table_with(vec![(255, vec![0, 1, 2])]);
    let n = 3usize;
    let volume = volume_of(n + 1, &vec![-1.0f32; (n + 1) * (n + 1) * (n + 1)]);
    let mesh = get_mesh_data(&table, &volume);
    assert_eq!(mesh.triangle_count(), n * n * n);
    let mut expected = Vec::new();
    for z in 0..n {
        for y in 0..n {
            for x in 0..n {
                expected.push((x, y, z));
            }
        }
    }
    let visited: Vec<(usize, usize, usize)> =
        mesh.vertices.iter().step_by(3).map(|c| c.cube).collect();
    assert_eq!(visited, expected);
}

#[test]
fn sweep_of_uneven_volume_covers_all_cubes() {
    let table = table_with(vec![(255, vec![4, 5, 6])]);
    let samples = vec![(-1.0f32).to_bits(); 2 * 3 * 5];
    let volume = Volume::from_samples(2, 3, 5, samples).unwrap();
    let mesh = get_mesh_data(&table, &volume);
    let visited: Vec<(usize, usize, usize)> =
        mesh.vertices.iter().step_by(3).map(|c| c.cube).collect();
    assert_eq!(
        visited,
        vec![
            (0, 0, 0),
            (0, 1, 0),
            (0, 0, 1),
            (0, 1, 1),
            (0, 0, 2),
            (0, 1, 2),
            (0, 0, 3),
            (0, 1, 3)
        ]
    );
}

#[test]
fn mesh_samples_corners_relative_to_the_cube() {
    let table = table_with(vec![(1, vec![0, 8, 3])]);
    let mut densities = vec![1.0f32; 27];
    densities[1 + 3 + 9] = -4.0;
    let volume = volume_of(3, &densities);
    let mesh = get_mesh_data(&table, &volume);
    assert_eq!(mesh.triangle_count(), 1);
    for crossing in mesh.vertices.iter() {
        assert_eq!(crossing.cube, (1, 1, 1));
    }
    assert_eq!(mesh.vertices[0].start_density, (-4.0f32).to_bits());
    assert_eq!(mesh.vertices[0].end, (1, 0, 0));
}

#[test]
fn indices_count_up_and_vertices_come_in_threes() {
    let table = table_with(vec![(255, vec![0, 1, 2, 3, 4, 5])]);
    let volume = volume_of(3, &[-1.0f32; 27]);
    let mesh = get_mesh_data(&table, &volume);
    let expected = mesh.vertices.clone();
    let (indices, vertices) = mesh.get_mesh_data();
    assert_eq!(vertices.len(), 48);
    assert_eq!(vertices.len() % 3, 0);
    assert_eq!(indices, (0..48).collect::<Vec<usize>>());
    assert_eq!(vertices, expected);
}

#[test]
fn empty_mesh_has_no_indices() {
    let mesh = MeshData { vertices: Vec::new() };
    assert_eq!(mesh.triangle_count(), 0);
    let (indices, vertices) = mesh.get_mesh_data();
    assert!(indices.is_empty());
    assert!(vertices.is_empty());
}

#[test]
fn extraction_is_repeatable() {
    let table = table_with(vec![(1, vec![0, 8, 3]), (255, vec![9, 10, 11])]);
    let mut densities = vec![1.0f32; 64];
    densities[0] = -1.0;
    densities[21] = -0.5;
    let volume = volume_of(4, &densities);
    let first = get_mesh_data(&table, &volume);
    let second = get_mesh_data(&table, &volume);
    assert_eq!(first.vertices, second.vertices);
}

#[test]
fn volume_coords_invert_the_layout() {
    let volume = Volume::new(2, 3, 4).unwrap();
    assert_eq!(volume.coords(0), (0, 0, 0));
    assert_eq!(volume.coords(1), (1, 0, 0));
    assert_eq!(volume.coords(2), (0, 1, 0));
    assert_eq!(volume.coords(6), (0, 0, 1));
    assert_eq!(volume.coords(23), (1, 2, 3));
}

#[test]
fn rows_that_name_crossed_edges_are_recognised() {
    assert!(names_crossed_edges(&table_with(vec![])));
    assert!(names_crossed_edges(&table_with(vec![(1, vec![0, 8, 3])])));
    assert!(names_crossed_edges(&table_with(vec![(254, vec![0, 3, 8])])));
    assert!(names_crossed_edges(&table_with(vec![(3, vec![1, 8, 3, 9, 8, 1])])));
    assert!(names_crossed_edges(&table_with(vec![(128, vec![6, 11, 7])])));
}

#[test]
fn rows_that_name_uncrossed_edges_are_refused() {
    assert!(!names_crossed_edges(&table_with(vec![(1, vec![0, 8, 5])])));
    assert!(!names_crossed_edges(&table_with(vec![(0, vec![0, 8, 3])])));
    assert!(!names_crossed_edges(&table_with(vec![(255, vec![0, 1, 2])])));
    assert!(!names_crossed_edges(&table_with(vec![(3, vec![0, 8, 3])])));
}

#[test]
fn crossings_of_a_crossed_table_change_sign() {
    let table = table_with(vec![(1, vec![0, 8, 3]), (3, vec![1, 8, 3, 9, 8, 1])]);
    assert!(names_crossed_edges(&table));
    let mut densities = vec![0.5f32; 27];
    densities[0] = -0.25;
    densities[1] = -2.0;
    densities[13] = -1.0;
    let volume = volume_of(3, &densities);
    let mesh = get_mesh_data(&table, &volume);
    assert!(mesh.triangle_count() > 0);
    for crossing in mesh.vertices.iter() {
        assert_ne!(
            is_below_cutoff(crossing.start_density),
            is_below_cutoff(crossing.end_density)
        );
        let at = interpolate(crossing);
        for axis in at.iter() {
            assert!(0.0 <= *axis && *axis <= 1.0);
        }
    }
}

fn sample_numbers() -> Vec<f32> {
    vec![
        f32::NEG_INFINITY,
        f32::MIN,
        -2.5,
        -1.0,
        -f32::MIN_POSITIVE,
        -1.0e-45,
        -0.0,
        0.0,
        1.0e-45,
        f32::MIN_POSITIVE,
        0.1,
        1.0,
        1.0000001,
        f32::MAX,
        f32::INFINITY,
        f32::NAN,
        -f32::NAN,
    ]
}

#[test]
fn ordering_of_patterns_agrees_with_float_ordering() {
    for a in sample_numbers() {
        for b in sample_numbers() {
            assert_eq!(is_less(a.to_bits(), b.to_bits()), a < b, "{} < {}", a, b);
            assert_eq!(is_equal(a.to_bits(), b.to_bits()), a == b, "{} == {}", a, b);
        }
    }
}

#[test]
fn split_follows_the_lower_corner() {
    let bits = |v: f32| v.to_bits();
    assert_eq!(split_between(bits(1.0), bits(-1.0)), Split::EndLower);
    assert_eq!(split_between(bits(-1.0), bits(1.0)), Split::StartLower);
    assert_eq!(split_between(bits(0.0), bits(0.0)), Split::Even);
    assert_eq!(split_between(bits(0.0), bits(-0.0)), Split::Even);
    assert_eq!(split_between(bits(2.5), bits(2.5)), Split::Even);
    assert_eq!(split_between(bits(f32::NAN), bits(f32::NAN)), Split::StartLower);
    assert_eq!(split_between(bits(f32::NAN), bits(-1.0)), Split::StartLower);
    assert_eq!(split_between(bits(0.0), bits(-1.0e-45)), Split::EndLower);
}

#[test]
fn corners_at_the_cutoff_share_the_weight_evenly() {
    let table = table_with(vec![(0, vec![0, 8, 3])]);
    let volume = volume_of(2, &[0.0f32; 8]);
    let tris = get_cube_tris(&table, &volume, (0, 0, 0));
    assert_eq!(tris.len(), 3);
    for crossing in tris.iter() {
        assert_eq!(crossing.split, Split::Even);
    }
    assert_eq!(interpolate(&tris[0]), [0.5, 0.0, 0.0]);
    assert_eq!(interpolate(&tris[1]), [0.0, 0.0, 0.5]);
    assert_eq!(interpolate(&tris[2]), [0.0, 0.5, 0.0]);
}

#[test]
fn crossing_point_divides_the_edge_by_the_densities() {
    let table = table_with(vec![(1, vec![0, 8, 3])]);
    let mut densities = [3.0f32; 8];
    densities[0] = -1.0;
    let volume = volume_of(2, &densities);
    let tris = get_cube_tris(&table, &volume, (0, 0, 0));
    assert_eq!(interpolate(&tris[0]), [0.25, 0.0, 0.0]);
    assert_eq!(interpolate(&tris[1]), [0.0, 0.0, 0.25]);
    assert_eq!(interpolate(&tris[2]), [0.0, 0.25, 0.0]);
}

#[test]
fn every_triangle_lies_in_one_cube() {
    let table = table_with(vec![(255, vec![0, 1, 2, 4, 5, 6]), (0, vec![9, 10, 11])]);
    let mut densities = vec![-0.5f32; 27];
    for d in densities.iter_mut().skip(18) {
        *d = 0.5;
    }
    let volume = volume_of(3, &densities);
    let mesh = get_mesh_data(&table, &volume);
    assert_eq!(mesh.triangle_count(), 8);
    let cubes: Vec<(usize, usize, usize)> =
        mesh.vertices.chunks(3).map(|triangle| triangle[0].cube).collect();
    assert_eq!(
        cubes,
        vec![
            (0, 0, 0),
            (0, 0, 0),
            (1, 0, 0),
            (1, 0, 0),
            (0, 1, 0),
            (0, 1, 0),
            (1, 1, 0),
            (1, 1, 0)
        ]
    );
    for triangle in mesh.vertices.chunks(3) {
        assert_eq!(triangle.len(), 3);
        assert_eq!(triangle[0].cube, triangle[1].cube);
        assert_eq!(triangle[0].cube, triangle[2].cube);
    }
}
