//! Surface extraction: which edges of which cubes the iso-surface crosses,
//! and in what order the crossings form the triangles of the mesh.

use crate::density::{
    below_cutoff, equal, is_below_cutoff, is_equal, is_less, less, not_a_number,
};
use crate::table::{row_indexed, Triangulation, CORNER_COUNT, EDGE_COUNT, ROW_COUNT};
use crate::volume::{
    flat_index, grid_coords, lemma_coords_of_flat_index, lemma_flat_index_in_range,
    lemma_flat_index_of_coords, Volume,
};
use vstd::arithmetic::div_mod::lemma_fundamental_div_mod_converse;
use vstd::prelude::*;

verus! {

/// How the weights of an edge's two corners are found from their densities.
/// The weights sum to one, and the vertex is the weighted mean of the two
/// corners.
#[derive(Clone, Copy, Debug, PartialEq, Eq)]
pub enum Split {
    /// The densities are equal: each corner weighs one half.
    Even,
    /// The end's density is less than the start's: the start weighs
    /// `(cutoff - end) / (start - end)`.
    EndLower,
    /// Otherwise: the end weighs `(cutoff - start) / (end - start)`.
    StartLower,
}

/// One vertex of the mesh: the point at which the surface crosses an edge
/// of a cube. The vertex lies on the segment from `cube + start` to
/// `cube + end`, where the densities are `start_density` and `end_density`.
#[derive(Clone, Copy, Debug, PartialEq, Eq)]
pub struct Crossing {
    /// The origin of the cube, in whole cubes.
    pub cube: (usize, usize, usize),
    /// The offset of the edge's first corner from the cube's origin.
    pub start: (usize, usize, usize),
    /// The offset of the edge's second corner from the cube's origin.
    pub end: (usize, usize, usize),
    /// The density sampled at the first corner.
    pub start_density: u32,
    /// The density sampled at the second corner.
    pub end_density: u32,
    /// How the two corners' weights follow from the densities.
    pub split: Split,
}

/// The split of an edge with the given densities at its start and its end.
pub open spec fn split_of(start_density: u32, end_density: u32) -> Split {
    if equal(start_density, end_density) {
        Split::Even
    } else if less(end_density, start_density) {
        Split::EndLower
    } else {
        Split::StartLower
    }
}

/// Chooses the split of an edge from the densities at its start and its
/// end.
pub fn split_between(start_density: u32, end_density: u32) -> (split: Split)
    ensures
        split == split_of(start_density, end_density),
{
    if is_equal(start_density, end_density) {
        Split::Even
    } else if is_less(end_density, start_density) {
        Split::EndLower
    } else {
        Split::StartLower
    }
}

/// The value of bit `i`: two to the power `i`.
pub open spec fn bit_weight(i: nat) -> nat
    decreases i,
{
    if i == 0 {
        1
    } else {
        2 * bit_weight((i - 1) as nat)
    }
}

/// The sum of the bit values of those of the first `n` corners whose density
/// is below the cutoff.
pub open spec fn configuration_upto(densities: Seq<u32>, n: nat) -> nat
    decreases n,
{
    if n == 0 {
        0
    } else {
        configuration_upto(densities, (n - 1) as nat) + if below_cutoff(densities[n - 1]) {
            bit_weight((n - 1) as nat)
        } else {
            0
        }
    }
}

/// The configuration id of a cube: bit `i` is set exactly when corner `i` is
/// below the cutoff.
pub open spec fn configuration(densities: Seq<u32>) -> nat {
    configuration_upto(densities, CORNER_COUNT as nat)
}

/// A partial configuration stays under the value of the next bit.
pub proof fn lemma_configuration_bound(densities: Seq<u32>, n: nat)
    ensures
        configuration_upto(densities, n) < bit_weight(n),
    decreases n,
{
    if n > 0 {
        lemma_configuration_bound(densities, (n - 1) as nat);
    }
}

/// With no corner below the cutoff the configuration is 0; with every corner
/// below it, the configuration is 255.
pub proof fn lemma_uniform_configuration(densities: Seq<u32>)
    ensures
        (forall|i: int| 0 <= i < CORNER_COUNT ==> !below_cutoff(#[trigger] densities[i]))
            ==> configuration(densities) == 0,
        (forall|i: int| 0 <= i < CORNER_COUNT ==> below_cutoff(#[trigger] densities[i]))
            ==> configuration(densities) == 255,
{
    reveal_with_fuel(configuration_upto, 9);
    reveal_with_fuel(bit_weight, 9);
    if forall|i: int| 0 <= i < CORNER_COUNT ==> !below_cutoff(#[trigger] densities[i]) {
        assert(!below_cutoff(densities[0]) && !below_cutoff(densities[1]) && !below_cutoff(
            densities[2],
        ) && !below_cutoff(densities[3]) && !below_cutoff(densities[4]) && !below_cutoff(
            densities[5],
        ) && !below_cutoff(densities[6]) && !below_cutoff(densities[7]));
    }
    if forall|i: int| 0 <= i < CORNER_COUNT ==> below_cutoff(#[trigger] densities[i]) {
        assert(below_cutoff(densities[0]) && below_cutoff(densities[1]) && below_cutoff(
            densities[2],
        ) && below_cutoff(densities[3]) && below_cutoff(densities[4]) && below_cutoff(
            densities[5],
        ) && below_cutoff(densities[6]) && below_cutoff(densities[7]));
    }
}

/// Whether bit `i` of a configuration id is set.
pub open spec fn corner_bit(id: nat, i: nat) -> bool {
    (id / bit_weight(i)) % 2 == 1
}

/// Bit `i` of a cube's configuration is set exactly when the density at
/// corner `i` is below the cutoff.
pub proof fn lemma_configuration_bits(densities: Seq<u32>, i: nat)
    requires
        densities.len() == CORNER_COUNT,
        i < CORNER_COUNT,
    ensures
        corner_bit(configuration(densities), i) == below_cutoff(densities[i as int]),
{
    reveal_with_fuel(configuration_upto, 9);
    reveal_with_fuel(bit_weight, 9);
    let bit = |j: int|
        if below_cutoff(densities[j]) {
            1int
        } else {
            0int
        };
    let id = configuration(densities) as int;
    assert(id == bit(0) + 2 * bit(1) + 4 * bit(2) + 8 * bit(3) + 16 * bit(4) + 32 * bit(5) + 64
        * bit(6) + 128 * bit(7));
    let low = configuration_upto(densities, i) as int;
    lemma_configuration_bound(densities, i);
    let weight = bit_weight(i) as int;
    let high = if i == 0 {
        bit(1) + 2 * bit(2) + 4 * bit(3) + 8 * bit(4) + 16 * bit(5) + 32 * bit(6) + 64 * bit(7)
    } else if i == 1 {
        bit(2) + 2 * bit(3) + 4 * bit(4) + 8 * bit(5) + 16 * bit(6) + 32 * bit(7)
    } else if i == 2 {
        bit(3) + 2 * bit(4) + 4 * bit(5) + 8 * bit(6) + 16 * bit(7)
    } else if i == 3 {
        bit(4) + 2 * bit(5) + 4 * bit(6) + 8 * bit(7)
    } else if i == 4 {
        bit(5) + 2 * bit(6) + 4 * bit(7)
    } else if i == 5 {
        bit(6) + 2 * bit(7)
    } else if i == 6 {
        bit(7)
    } else {
        0
    };
    let upper = 2 * high + bit(i as int);
    if i == 0 {
        assert(weight == 1);
        assert(low == 0);
        assert(id == upper * 1 + low);
    } else if i == 1 {
        assert(weight == 2);
        assert(low == bit(0));
        assert(id == upper * 2 + low);
    } else if i == 2 {
        assert(weight == 4);
        assert(low == bit(0) + 2 * bit(1));
        assert(id == upper * 4 + low);
    } else if i == 3 {
        assert(weight == 8);
        assert(low == bit(0) + 2 * bit(1) + 4 * bit(2));
        assert(id == upper * 8 + low);
    } else if i == 4 {
        assert(weight == 16);
        assert(low == bit(0) + 2 * bit(1) + 4 * bit(2) + 8 * bit(3));
        assert(id == upper * 16 + low);
    } else if i == 5 {
        assert(weight == 32);
        assert(low == bit(0) + 2 * bit(1) + 4 * bit(2) + 8 * bit(3) + 16 * bit(4));
        assert(id == upper * 32 + low);
    } else if i == 6 {
        assert(weight == 64);
        assert(low == bit(0) + 2 * bit(1) + 4 * bit(2) + 8 * bit(3) + 16 * bit(4) + 32 * bit(5));
        assert(id == upper * 64 + low);
    } else if i == 7 {
        assert(weight == 128);
        assert(low == bit(0) + 2 * bit(1) + 4 * bit(2) + 8 * bit(3) + 16 * bit(4) + 32 * bit(5)
            + 64 * bit(6));
        assert(id == upper * 128 + low);
    }
    assert(id == upper * weight + low);
    lemma_fundamental_div_mod_converse(id, weight, upper, low);
    lemma_fundamental_div_mod_converse(upper, 2, high, bit(i as int));
}

/// Computes the configuration id of a cube from the densities at its eight
/// corners.
pub fn configuration_id(densities: &[u32; 8]) -> (id: usize)
    ensures
        id == configuration(densities@),
        id < ROW_COUNT,
{
    let mut id: usize = 0;
    let mut weight: usize = 1;
    let mut i: usize = 0;
    proof {
        reveal_with_fuel(bit_weight, 9);
    }
    while i < 8
        invariant
            i <= 8,
            densities@.len() == 8,
            weight == bit_weight(i as nat),
            id == configuration_upto(densities@, i as nat),
            id < weight,
            weight <= 256,
            i < 8 ==> weight <= 128,
        decreases 8 - i,
    {
        proof {
            reveal_with_fuel(bit_weight, 9);
            lemma_configuration_bound(densities@, (i + 1) as nat);
        }
        if is_below_cutoff(densities[i]) {
            id = id + weight;
        }
        weight = weight * 2;
        i = i + 1;
    }
    id
}

/// Whether the cube with the given origin lies inside the volume.
pub open spec fn cube_fits(volume: Volume, origin: (usize, usize, usize)) -> bool {
    origin.0 + 1 < volume.dim_x && origin.1 + 1 < volume.dim_y && origin.2 + 1 < volume.dim_z
}

/// The densities at the eight corners of a cube, in the table's order.
pub open spec fn corner_densities(
    table: Triangulation,
    volume: Volume,
    origin: (usize, usize, usize),
) -> Seq<u32> {
    Seq::new(
        CORNER_COUNT as nat,
        |i: int|
            volume.at(
                origin.0 + table.cube_points@[i].0,
                origin.1 + table.cube_points@[i].1,
                origin.2 + table.cube_points@[i].2,
            ),
    )
}

/// The row of the table that a cube selects.
pub open spec fn cube_row(table: Triangulation, volume: Volume, origin: (usize, usize, usize))
    -> Seq<u8> {
    table.row(configuration(corner_densities(table, volume, origin)) as int)
}

/// The `k`-th vertex that a cube contributes: the crossing on the edge that
/// its row names at position `k`.
pub open spec fn crossing_at(
    table: Triangulation,
    volume: Volume,
    origin: (usize, usize, usize),
    k: int,
) -> Crossing {
    let densities = corner_densities(table, volume, origin);
    let edge = table.cube_edges@[cube_row(table, volume, origin)[k] as int];
    Crossing {
        cube: origin,
        start: table.cube_points@[edge.0 as int],
        end: table.cube_points@[edge.1 as int],
        start_density: densities[edge.0 as int],
        end_density: densities[edge.1 as int],
        split: split_of(densities[edge.0 as int], densities[edge.1 as int]),
    }
}

/// The vertices that a cube contributes, three for each of its triangles.
pub open spec fn cube_crossings(
    table: Triangulation,
    volume: Volume,
    origin: (usize, usize, usize),
) -> Seq<Crossing> {
    Seq::new(
        cube_row(table, volume, origin).len(),
        |k: int| crossing_at(table, volume, origin, k),
    )
}

/// Extracts the surface inside one cube: samples its eight corners, finds
/// its configuration, and lists the crossings that the configuration's row
/// names, in the row's order.
pub fn get_cube_tris(
    table: &Triangulation,
    volume: &Volume,
    origin: (usize, usize, usize),
) -> (tris: Vec<Crossing>)
    requires
        table.wf(),
        volume.wf(),
        cube_fits(*volume, origin),
    ensures
        tris@ == cube_crossings(*table, *volume, origin),
        tris@.len() % 3 == 0,
{
    let mut vals: [u32; 8] = [0;8];
    let mut i: usize = 0;
    while i < 8
        invariant
            i <= 8,
            table.wf(),
            volume.wf(),
            cube_fits(*volume, origin),
            vals@.len() == 8,
            forall|j: int| 0 <= j < i ==> vals@[j] == corner_densities(*table, *volume, origin)[j],
        decreases 8 - i,
    {
        let p = table.cube_points[i];
        let val = volume.get(origin.0 + p.0, origin.1 + p.1, origin.2 + p.2);
        vals[i] = val;
        i = i + 1;
    }
    assert(vals@ =~= corner_densities(*table, *volume, origin));
    let id = configuration_id(&vals);
    let row = &table.triangulation_table[id];
    assert(row_indexed(table.triangulation_table@[id as int]@));
    assert(table.triangulation_table@[id as int]@.len() % 3 == 0);
    let mut tris: Vec<Crossing> = Vec::new();
    let mut k: usize = 0;
    while k < row.len()
        invariant
            k <= row@.len(),
            table.wf(),
            row_indexed(row@),
            vals@ == corner_densities(*table, *volume, origin),
            row@ == cube_row(*table, *volume, origin),
            tris@.len() == k,
            forall|j: int| 0 <= j < k ==> tris@[j] == crossing_at(*table, *volume, origin, j),
        decreases row@.len() - k,
    {
        assert(row@[k as int] < EDGE_COUNT);
        let edge = table.cube_edges[row[k] as usize];
        tris.push(
            Crossing {
                cube: origin,
                start: table.cube_points[edge.0],
                end: table.cube_points[edge.1],
                start_density: vals[edge.0],
                end_density: vals[edge.1],
                split: split_between(vals[edge.0], vals[edge.1]),
            },
        );
        k = k + 1;
    }
    assert(tris@ =~= cube_crossings(*table, *volume, origin));
    tris
}

/// Whether the edge that row `id` names at position `k` joins two corners on
/// different sides of the cutoff in the configuration `id`.
pub open spec fn entry_crosses(table: Triangulation, id: int, k: int) -> bool {
    let edge = table.cube_edges@[table.row(id)[k] as int];
    corner_bit(id as nat, edge.0 as nat) != corner_bit(id as nat, edge.1 as nat)
}

/// Whether every edge that a row of the table names joins two corners on
/// different sides of the cutoff in that row's configuration.
pub open spec fn rows_cross(table: Triangulation) -> bool {
    forall|id: int, k: int|
        0 <= id < ROW_COUNT && 0 <= k < table.row(id).len() ==> #[trigger] entry_crosses(
            table,
            id,
            k,
        )
}

/// Tests whether bit `i` of a configuration id is set.
fn is_corner_bit(id: usize, i: usize) -> (set: bool)
    requires
        i < CORNER_COUNT,
    ensures
        set == corner_bit(id as nat, i as nat),
{
    proof {
        reveal_with_fuel(bit_weight, 9);
    }
    let weight: usize = match i {
        0 => 1,
        1 => 2,
        2 => 4,
        3 => 8,
        4 => 16,
        5 => 32,
        6 => 64,
        _ => 128,
    };
    (id / weight) % 2 == 1
}

/// Tests whether the rows of a table name crossed edges only.
pub fn names_crossed_edges(table: &Triangulation) -> (ok: bool)
    requires
        table.wf(),
    ensures
        ok == rows_cross(*table),
{
    let mut id: usize = 0;
    while id < ROW_COUNT
        invariant
            id <= ROW_COUNT,
            table.wf(),
            forall|i: int, k: int|
                0 <= i < id && 0 <= k < table.row(i).len() ==> #[trigger] entry_crosses(
                    *table,
                    i,
                    k,
                ),
        decreases ROW_COUNT - id,
    {
        let row = &table.triangulation_table[id];
        assert(row_indexed(table.triangulation_table@[id as int]@));
        let mut k: usize = 0;
        while k < row.len()
            invariant
                k <= row@.len(),
                id < ROW_COUNT,
                table.wf(),
                row@ == table.row(id as int),
                row_indexed(row@),
                forall|j: int| 0 <= j < k ==> #[trigger] entry_crosses(*table, id as int, j),
            decreases row@.len() - k,
        {
            assert(row@[k as int] < EDGE_COUNT);
            let edge = table.cube_edges[row[k] as usize];
            if is_corner_bit(id, edge.0) == is_corner_bit(id, edge.1) {
                assert(!entry_crosses(*table, id as int, k as int));
                return false;
            }
            k = k + 1;
        }
        id = id + 1;
    }
    true
}

/// In the configuration 255 the bit of every corner is set.
proof fn lemma_full_configuration(i: nat)
    requires
        i < CORNER_COUNT,
    ensures
        corner_bit(255, i),
{
    reveal_with_fuel(bit_weight, 9);
    if i == 0 {
        assert(bit_weight(0) == 1);
        lemma_fundamental_div_mod_converse(255, 1, 255, 0);
        lemma_fundamental_div_mod_converse(255, 2, 127, 1);
    } else if i == 1 {
        assert(bit_weight(1) == 2);
        lemma_fundamental_div_mod_converse(255, 2, 127, 1);
        lemma_fundamental_div_mod_converse(127, 2, 63, 1);
    } else if i == 2 {
        assert(bit_weight(2) == 4);
        lemma_fundamental_div_mod_converse(255, 4, 63, 3);
        lemma_fundamental_div_mod_converse(63, 2, 31, 1);
    } else if i == 3 {
        assert(bit_weight(3) == 8);
        lemma_fundamental_div_mod_converse(255, 8, 31, 7);
        lemma_fundamental_div_mod_converse(31, 2, 15, 1);
    } else if i == 4 {
        assert(bit_weight(4) == 16);
        lemma_fundamental_div_mod_converse(255, 16, 15, 15);
        lemma_fundamental_div_mod_converse(15, 2, 7, 1);
    } else if i == 5 {
        assert(bit_weight(5) == 32);
        lemma_fundamental_div_mod_converse(255, 32, 7, 31);
        lemma_fundamental_div_mod_converse(7, 2, 3, 1);
    } else if i == 6 {
        assert(bit_weight(6) == 64);
        lemma_fundamental_div_mod_converse(255, 64, 3, 63);
        lemma_fundamental_div_mod_converse(3, 2, 1, 1);
    } else if i == 7 {
        assert(bit_weight(7) == 128);
        lemma_fundamental_div_mod_converse(255, 128, 1, 127);
        lemma_fundamental_div_mod_converse(1, 2, 0, 1);
    }
}

/// A table whose rows name crossed edges only has nothing in the rows of
/// the two uniform configurations, in which no edge is crossed.
pub proof fn lemma_uniform_rows_empty(table: Triangulation)
    requires
        table.wf(),
        rows_cross(table),
    ensures
        table.row(0).len() == 0,
        table.row(255).len() == 0,
{
    reveal_with_fuel(bit_weight, 9);
    if table.row(0).len() > 0 {
        assert(entry_crosses(table, 0, 0));
    }
    if table.row(255).len() > 0 {
        assert(entry_crosses(table, 255, 0));
        assert(row_indexed(table.triangulation_table@[255]@));
        let edge = table.cube_edges@[table.row(255)[0] as int];
        assert(edge.0 < CORNER_COUNT && edge.1 < CORNER_COUNT);
        lemma_full_configuration(edge.0 as nat);
        lemma_full_configuration(edge.1 as nat);
    }
}

/// With a table whose rows name crossed edges only, the two corners of
/// every crossing lie on different sides of the cutoff: exactly one of the
/// two densities is below it. The densities are then not equal, and the
/// weight is measured from the corner below the cutoff: the quotient's
/// numerator is that corner's distance to the cutoff, its denominator the
/// distance between the two densities.
pub proof fn lemma_crossing_changes_sign(
    table: Triangulation,
    volume: Volume,
    origin: (usize, usize, usize),
    k: int,
)
    requires
        table.wf(),
        rows_cross(table),
        0 <= k < cube_row(table, volume, origin).len(),
    ensures
        ({
            let crossing = crossing_at(table, volume, origin, k);
            &&& below_cutoff(crossing.start_density) != below_cutoff(crossing.end_density)
            &&& crossing.split != Split::Even
            &&& below_cutoff(crossing.start_density) ==> crossing.split == Split::StartLower
            &&& below_cutoff(crossing.end_density) && !not_a_number(crossing.start_density)
                ==> crossing.split == Split::EndLower
        }),
{
    let densities = corner_densities(table, volume, origin);
    let id = configuration(densities);
    lemma_configuration_bound(densities, 8);
    reveal_with_fuel(bit_weight, 9);
    let entry = table.row(id as int)[k];
    assert(row_indexed(table.triangulation_table@[id as int]@));
    assert(entry < EDGE_COUNT);
    let edge = table.cube_edges@[entry as int];
    lemma_configuration_bits(densities, edge.0 as nat);
    lemma_configuration_bits(densities, edge.1 as nat);
    assert(entry_crosses(table, id as int, k));
}

/// The number of cubes of a volume: one fewer than the samples along each
/// axis.
pub open spec fn cube_count(volume: Volume) -> int {
    (volume.dim_x - 1) * (volume.dim_y - 1) * (volume.dim_z - 1)
}

/// The origin of the `k`-th cube in the order of the sweep: `x` runs
/// fastest, then `y`, then `z`.
pub open spec fn cube_origin(volume: Volume, k: int) -> (usize, usize, usize) {
    let at = grid_coords(volume.dim_x - 1, volume.dim_y - 1, k);
    (at.0 as usize, at.1 as usize, at.2 as usize)
}

/// The position of a cube in the order of the sweep.
pub open spec fn cube_index(volume: Volume, origin: (usize, usize, usize)) -> int {
    flat_index(
        volume.dim_x - 1,
        volume.dim_y - 1,
        origin.0 as int,
        origin.1 as int,
        origin.2 as int,
    )
}

/// The vertices that the first `n` cubes of the sweep contribute, cube
/// after cube.
pub open spec fn mesh_upto(table: Triangulation, volume: Volume, n: nat) -> Seq<Crossing>
    decreases n,
{
    if n == 0 {
        Seq::empty()
    } else {
        mesh_upto(table, volume, (n - 1) as nat) + cube_crossings(
            table,
            volume,
            cube_origin(volume, n - 1),
        )
    }
}

/// The vertices of the whole mesh of a volume.
pub open spec fn mesh_of(table: Triangulation, volume: Volume) -> Seq<Crossing> {
    mesh_upto(table, volume, cube_count(volume) as nat)
}

/// A cube inside the volume has a position in the sweep, and the cube at
/// that position is the same cube.
pub proof fn lemma_cube_origin_of_index(volume: Volume, origin: (usize, usize, usize))
    requires
        volume.wf(),
        cube_fits(volume, origin),
    ensures
        0 <= cube_index(volume, origin) < cube_count(volume),
        cube_origin(volume, cube_index(volume, origin)) == origin,
{
    let nx = volume.dim_x - 1;
    let ny = volume.dim_y - 1;
    let nz = volume.dim_z - 1;
    let (x, y, z) = (origin.0 as int, origin.1 as int, origin.2 as int);
    lemma_flat_index_in_range(nx, ny, nz, x, y, z);
    lemma_coords_of_flat_index(nx, ny, x, y, z);
}

/// A position of the sweep names a cube inside the volume, and that cube
/// stands at no other position.
pub proof fn lemma_cube_index_of_origin(volume: Volume, k: int)
    requires
        volume.wf(),
        0 <= k < cube_count(volume),
    ensures
        cube_fits(volume, cube_origin(volume, k)),
        cube_index(volume, cube_origin(volume, k)) == k,
{
    lemma_flat_index_of_coords(volume.dim_x - 1, volume.dim_y - 1, volume.dim_z - 1, k);
}

/// A volume with `n + 1` samples along each axis has exactly `n * n * n`
/// cubes. The sweep visits each of them, and each of them once: its
/// positions and the cubes inside the volume correspond one to one.
pub proof fn lemma_cubes_visited_once(volume: Volume, n: int)
    requires
        volume.wf(),
        volume.dim_x == n + 1,
        volume.dim_y == n + 1,
        volume.dim_z == n + 1,
    ensures
        cube_count(volume) == n * n * n,
        forall|k: int|
            0 <= k < cube_count(volume) ==> cube_fits(volume, #[trigger] cube_origin(volume, k)),
        forall|origin: (usize, usize, usize)|
            cube_fits(volume, origin) ==> 0 <= #[trigger] cube_index(volume, origin) < cube_count(
                volume,
            ) && cube_origin(volume, cube_index(volume, origin)) == origin,
        forall|j: int, k: int|
            0 <= j < cube_count(volume) && 0 <= k < cube_count(volume) && j != k ==> cube_origin(
                volume,
                j,
            ) != cube_origin(volume, k),
{
    assert forall|k: int| 0 <= k < cube_count(volume) implies cube_fits(
        volume,
        #[trigger] cube_origin(volume, k),
    ) by {
        lemma_cube_index_of_origin(volume, k);
    }
    assert forall|origin: (usize, usize, usize)| cube_fits(volume, origin) implies 0
        <= #[trigger] cube_index(volume, origin) < cube_count(volume) && cube_origin(
        volume,
        cube_index(volume, origin),
    ) == origin by {
        lemma_cube_origin_of_index(volume, origin);
    }
    assert forall|j: int, k: int|
        0 <= j < cube_count(volume) && 0 <= k < cube_count(volume) && j != k implies cube_origin(
        volume,
        j,
    ) != cube_origin(volume, k) by {
        lemma_cube_index_of_origin(volume, j);
        lemma_cube_index_of_origin(volume, k);
    }
}

/// Every prefix of the sweep contributes whole triangles.
pub proof fn lemma_mesh_whole_triangles(table: Triangulation, volume: Volume, n: nat)
    requires
        table.wf(),
        volume.wf(),
        n <= cube_count(volume),
    ensures
        mesh_upto(table, volume, n).len() % 3 == 0,
    decreases n,
{
    if n > 0 {
        lemma_mesh_whole_triangles(table, volume, (n - 1) as nat);
        let origin = cube_origin(volume, n - 1);
        lemma_configuration_bound(corner_densities(table, volume, origin), 8);
        reveal_with_fuel(bit_weight, 9);
        let id = configuration(corner_densities(table, volume, origin)) as int;
        assert(table.triangulation_table@[id]@.len() % 3 == 0);
    }
}

/// Every three consecutive vertices of the mesh, counted from its start,
/// are the crossings of one cube: no triangle spans two cubes.
pub proof fn lemma_triangle_in_one_cube(table: Triangulation, volume: Volume, t: int)
    requires
        table.wf(),
        volume.wf(),
        0 <= t,
        3 * t + 2 < mesh_of(table, volume).len(),
    ensures
        mesh_of(table, volume)[3 * t].cube == mesh_of(table, volume)[3 * t + 1].cube,
        mesh_of(table, volume)[3 * t].cube == mesh_of(table, volume)[3 * t + 2].cube,
{
    lemma_prefix_triangle_in_one_cube(table, volume, cube_count(volume) as nat, t);
}

proof fn lemma_prefix_triangle_in_one_cube(table: Triangulation, volume: Volume, n: nat, t: int)
    requires
        table.wf(),
        volume.wf(),
        n <= cube_count(volume),
        0 <= t,
        3 * t + 2 < mesh_upto(table, volume, n).len(),
    ensures
        mesh_upto(table, volume, n)[3 * t].cube == mesh_upto(table, volume, n)[3 * t + 1].cube,
        mesh_upto(table, volume, n)[3 * t].cube == mesh_upto(table, volume, n)[3 * t + 2].cube,
    decreases n,
{
    if n > 0 {
        let prefix = mesh_upto(table, volume, (n - 1) as nat);
        lemma_mesh_whole_triangles(table, volume, (n - 1) as nat);
        if 3 * t + 2 < prefix.len() {
            lemma_prefix_triangle_in_one_cube(table, volume, (n - 1) as nat, t);
        } else {
            assert(3 * t >= prefix.len());
        }
    }
}

/// Where no cube of a volume has corners on both sides of the cutoff, and
/// the table's rows for "no corner below" and "every corner below" are
/// empty, the mesh has no vertex.
pub proof fn lemma_no_crossing_no_mesh(table: Triangulation, volume: Volume)
    requires
        table.wf(),
        volume.wf(),
        table.row(0).len() == 0,
        table.row(255).len() == 0,
        forall|k: int|
            0 <= k < cube_count(volume) ==> {
                let densities = #[trigger] corner_densities(table, volume, cube_origin(volume, k));
                ||| forall|i: int| 0 <= i < CORNER_COUNT ==> below_cutoff(#[trigger] densities[i])
                ||| forall|i: int| 0 <= i < CORNER_COUNT ==> !below_cutoff(#[trigger] densities[i])
            },
    ensures
        mesh_of(table, volume).len() == 0,
{
    lemma_uniform_prefix_empty(table, volume, cube_count(volume) as nat);
}

proof fn lemma_uniform_prefix_empty(table: Triangulation, volume: Volume, n: nat)
    requires
        table.row(0).len() == 0,
        table.row(255).len() == 0,
        n <= cube_count(volume),
        forall|k: int|
            0 <= k < cube_count(volume) ==> {
                let densities = #[trigger] corner_densities(table, volume, cube_origin(volume, k));
                ||| forall|i: int| 0 <= i < CORNER_COUNT ==> below_cutoff(#[trigger] densities[i])
                ||| forall|i: int| 0 <= i < CORNER_COUNT ==> !below_cutoff(#[trigger] densities[i])
            },
    ensures
        mesh_upto(table, volume, n).len() == 0,
    decreases n,
{
    if n > 0 {
        lemma_uniform_prefix_empty(table, volume, (n - 1) as nat);
        let densities = corner_densities(table, volume, cube_origin(volume, n - 1));
        lemma_uniform_configuration(densities);
    }
}

/// The mesh is fixed by the table, the dimensions and the densities: two
/// volumes of equal dimensions that hold the same densities have the same
/// mesh, vertex for vertex.
pub proof fn lemma_mesh_determined(table: Triangulation, first: Volume, second: Volume)
    requires
        first.dim_x == second.dim_x,
        first.dim_y == second.dim_y,
        first.dim_z == second.dim_z,
        first.samples@ == second.samples@,
    ensures
        mesh_of(table, first) == mesh_of(table, second),
{
    lemma_prefix_determined(table, first, second, cube_count(first) as nat);
}

proof fn lemma_prefix_determined(table: Triangulation, first: Volume, second: Volume, n: nat)
    requires
        first.dim_x == second.dim_x,
        first.dim_y == second.dim_y,
        first.dim_z == second.dim_z,
        first.samples@ == second.samples@,
    ensures
        mesh_upto(table, first, n) == mesh_upto(table, second, n),
    decreases n,
{
    if n > 0 {
        lemma_prefix_determined(table, first, second, (n - 1) as nat);
        let origin = cube_origin(first, n - 1);
        assert(corner_densities(table, first, origin) =~= corner_densities(table, second, origin));
        assert(cube_crossings(table, first, origin) =~= cube_crossings(table, second, origin));
    }
}

/// The mesh of a volume: its vertices in the order of the sweep, every
/// three consecutive ones a triangle that shares no vertex with another.
pub struct MeshData {
    /// The vertices, three for each triangle.
    pub vertices: Vec<Crossing>,
}

impl View for MeshData {
    type V = Seq<Crossing>;

    open spec fn view(&self) -> Seq<Crossing> {
        self.vertices@
    }
}

impl MeshData {
    /// The number of triangles of the mesh.
    pub fn triangle_count(&self) -> (count: usize)
        ensures
            count == self@.len() / 3,
    {
        self.vertices.len() / 3
    }

    /// Takes the mesh apart into its index sequence and its vertices. No
    /// vertex is shared, so the indices count up from zero.
    pub fn get_mesh_data(self) -> (parts: (Vec<usize>, Vec<Crossing>))
        ensures
            parts.1@ == self@,
            parts.0@.len() == self@.len(),
            forall|i: int| 0 <= i < parts.0@.len() ==> parts.0@[i] == i,
    {
        let count = self.vertices.len();
        let mut indices: Vec<usize> = Vec::new();
        let mut i: usize = 0;
        while i < count
            invariant
                i <= count,
                indices@.len() == i,
                forall|j: int| 0 <= j < i ==> indices@[j] == j,
            decreases count - i,
        {
            indices.push(i);
            i = i + 1;
        }
        (indices, self.vertices)
    }
}

/// Appends the vertices of one cube to those of the mesh.
fn append_crossings(vertices: &mut Vec<Crossing>, tris: &Vec<Crossing>)
    ensures
        final(vertices)@ == old(vertices)@ + tris@,
{
    let mut i: usize = 0;
    while i < tris.len()
        invariant
            i <= tris@.len(),
            vertices@ == old(vertices)@ + tris@.take(i as int),
        decreases tris@.len() - i,
    {
        vertices.push(tris[i]);
        assert(tris@.take(i + 1) =~= tris@.take(i as int).push(tris@[i as int]));
        assert(vertices@ =~= old(vertices)@ + tris@.take(i + 1));
        i = i + 1;
    }
    assert(tris@.take(i as int) =~= tris@);
}

/// Extracts the surface of a whole volume: sweeps its cubes, `x` fastest,
/// then `y`, then `z`, and collects the vertices of each.
pub fn get_mesh_data(table: &Triangulation, volume: &Volume) -> (mesh: MeshData)
    requires
        table.wf(),
        volume.wf(),
    ensures
        mesh@ == mesh_of(*table, *volume),
        mesh@.len() % 3 == 0,
{
    let nx = volume.x() - 1;
    let ny = volume.y() - 1;
    let nz = volume.z() - 1;
    let mut vertices: Vec<Crossing> = Vec::new();
    let ghost mut done: int = 0;
    let mut z: usize = 0;
    while z < nz
        invariant
            table.wf(),
            volume.wf(),
            nx == volume.dim_x - 1,
            ny == volume.dim_y - 1,
            nz == volume.dim_z - 1,
            z <= nz,
            done == z * (nx * ny),
            vertices@ == mesh_upto(*table, *volume, done as nat),
        decreases nz - z,
    {
        let mut y: usize = 0;
        while y < ny
            invariant
                table.wf(),
                volume.wf(),
                nx == volume.dim_x - 1,
                ny == volume.dim_y - 1,
                nz == volume.dim_z - 1,
                z < nz,
                y <= ny,
                done == y * nx + z * (nx * ny),
                vertices@ == mesh_upto(*table, *volume, done as nat),
            decreases ny - y,
        {
            let mut x: usize = 0;
            while x < nx
                invariant
                    table.wf(),
                    volume.wf(),
                    nx == volume.dim_x - 1,
                    ny == volume.dim_y - 1,
                    nz == volume.dim_z - 1,
                    z < nz,
                    y < ny,
                    x <= nx,
                    done == x + y * nx + z * (nx * ny),
                    vertices@ == mesh_upto(*table, *volume, done as nat),
                decreases nx - x,
            {
                let origin = (x, y, z);
                proof {
                    lemma_cube_origin_of_index(*volume, origin);
                }
                let tris = get_cube_tris(table, volume, origin);
                append_crossings(&mut vertices, &tris);
                proof {
                    done = done + 1;
                }
                x = x + 1;
            }
            proof {
                assert(nx + y * nx == (y + 1) * nx) by (nonlinear_arith);
            }
            y = y + 1;
        }
        proof {
            assert(ny * nx + z * (nx * ny) == (z + 1) * (nx * ny)) by (nonlinear_arith);
        }
        z = z + 1;
    }
    proof {
        assert(nz * (nx * ny) == nx * ny * nz) by (nonlinear_arith);
        lemma_mesh_whole_triangles(*table, *volume, done as nat);
    }
    MeshData { vertices }
}

} // verus!
