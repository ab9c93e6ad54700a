//! The triangulation table: for each of the 256 sign configurations of a
//! cube's corners, the edges on which the surface's triangles have their
//! vertices, together with the geometry of the unit cube.

use vstd::prelude::*;

verus! {

/// Number of sign configurations of eight corners.
pub const ROW_COUNT: usize = 256;

/// Number of corners of a cube.
pub const CORNER_COUNT: usize = 8;

/// Number of edges of a cube.
pub const EDGE_COUNT: usize = 12;

/// Why a triple of sequences is not a triangulation table.
#[derive(Clone, Copy, Debug, PartialEq, Eq, Structural)]
pub enum TableError {
    /// There are not exactly eight corner offsets.
    CornerCount,
    /// A corner offset has a component other than 0 or 1.
    CornerOffset,
    /// There are not exactly twelve edges.
    EdgeCount,
    /// An edge names a corner that does not exist.
    CornerIndex,
    /// There are not exactly 256 rows.
    RowCount,
    /// A row's length is not a multiple of three.
    RowLength,
    /// A row names an edge that does not exist.
    EdgeIndex,
}

/// Every corner offset has components 0 or 1.
pub open spec fn offsets_unit(points: Seq<(usize, usize, usize)>) -> bool {
    forall|i: int|
        0 <= i < points.len() ==> (#[trigger] points[i]).0 <= 1 && points[i].1 <= 1 && points[i].2
            <= 1
}

/// Every edge joins two existing corners.
pub open spec fn edges_joined(edges: Seq<(usize, usize)>) -> bool {
    forall|i: int|
        0 <= i < edges.len() ==> (#[trigger] edges[i]).0 < CORNER_COUNT && edges[i].1
            < CORNER_COUNT
}

/// Every row holds whole triangles: its length is a multiple of three.
pub open spec fn rows_tripled(rows: Seq<Vec<u8>>) -> bool {
    forall|i: int| 0 <= i < rows.len() ==> (#[trigger] rows[i])@.len() % 3 == 0
}

/// Every entry of one row names an existing edge.
pub open spec fn row_indexed(row: Seq<u8>) -> bool {
    forall|j: int| 0 <= j < row.len() ==> (#[trigger] row[j]) < EDGE_COUNT
}

/// Every entry of every row names an existing edge.
pub open spec fn rows_indexed(rows: Seq<Vec<u8>>) -> bool {
    forall|i: int| 0 <= i < rows.len() ==> row_indexed((#[trigger] rows[i])@)
}

/// The first defect of a candidate table, in the order in which its parts
/// are examined: corners, then edges, then rows. `None` for a valid table.
pub open spec fn table_defect(
    rows: Seq<Vec<u8>>,
    points: Seq<(usize, usize, usize)>,
    edges: Seq<(usize, usize)>,
) -> Option<TableError> {
    if points.len() != CORNER_COUNT {
        Some(TableError::CornerCount)
    } else if !offsets_unit(points) {
        Some(TableError::CornerOffset)
    } else if edges.len() != EDGE_COUNT {
        Some(TableError::EdgeCount)
    } else if !edges_joined(edges) {
        Some(TableError::CornerIndex)
    } else if rows.len() != ROW_COUNT {
        Some(TableError::RowCount)
    } else if !rows_tripled(rows) {
        Some(TableError::RowLength)
    } else if !rows_indexed(rows) {
        Some(TableError::EdgeIndex)
    } else {
        None
    }
}

/// An immutable triangulation table. Build one with [`Triangulation::new`],
/// which admits only well-formed tables.
pub struct Triangulation {
    /// For each configuration id, the edges of its triangles, three by three.
    pub triangulation_table: Vec<Vec<u8>>,
    /// The offsets of the eight corners from the cube's origin.
    pub cube_points: Vec<(usize, usize, usize)>,
    /// The twelve edges, each as a pair of corner indices.
    pub cube_edges: Vec<(usize, usize)>,
}

fn check_offsets(points: &Vec<(usize, usize, usize)>) -> (ok: bool)
    ensures
        ok == offsets_unit(points@),
{
    let mut i: usize = 0;
    while i < points.len()
        invariant
            i <= points.len(),
            offsets_unit(points@.take(i as int)),
        decreases points.len() - i,
    {
        let p = points[i];
        if p.0 > 1 || p.1 > 1 || p.2 > 1 {
            return false;
        }
        assert forall|k: int| 0 <= k < i + 1 implies (#[trigger] points@.take(i + 1)[k]).0 <= 1
            && points@.take(i + 1)[k].1 <= 1 && points@.take(i + 1)[k].2 <= 1 by {
            if k < i {
                assert(points@.take(i as int)[k] == points@[k]);
            }
        }
        i = i + 1;
    }
    assert(points@.take(i as int) =~= points@);
    true
}

fn check_edges(edges: &Vec<(usize, usize)>) -> (ok: bool)
    ensures
        ok == edges_joined(edges@),
{
    let mut i: usize = 0;
    while i < edges.len()
        invariant
            i <= edges.len(),
            edges_joined(edges@.take(i as int)),
        decreases edges.len() - i,
    {
        let e = edges[i];
        if e.0 >= CORNER_COUNT || e.1 >= CORNER_COUNT {
            return false;
        }
        assert forall|k: int| 0 <= k < i + 1 implies (#[trigger] edges@.take(i + 1)[k]).0
            < CORNER_COUNT && edges@.take(i + 1)[k].1 < CORNER_COUNT by {
            if k < i {
                assert(edges@.take(i as int)[k] == edges@[k]);
            }
        }
        i = i + 1;
    }
    assert(edges@.take(i as int) =~= edges@);
    true
}

fn check_row_lengths(rows: &Vec<Vec<u8>>) -> (ok: bool)
    ensures
        ok == rows_tripled(rows@),
{
    let mut i: usize = 0;
    while i < rows.len()
        invariant
            i <= rows.len(),
            rows_tripled(rows@.take(i as int)),
        decreases rows.len() - i,
    {
        if rows[i].len() % 3 != 0 {
            return false;
        }
        assert forall|k: int| 0 <= k < i + 1 implies (#[trigger] rows@.take(i + 1)[k])@.len() % 3
            == 0 by {
            if k < i {
                assert(rows@.take(i as int)[k] == rows@[k]);
            }
        }
        i = i + 1;
    }
    assert(rows@.take(i as int) =~= rows@);
    true
}

fn check_row(row: &Vec<u8>) -> (ok: bool)
    ensures
        ok == row_indexed(row@),
{
    let mut j: usize = 0;
    while j < row.len()
        invariant
            j <= row.len(),
            row_indexed(row@.take(j as int)),
        decreases row.len() - j,
    {
        if row[j] as usize >= EDGE_COUNT {
            return false;
        }
        assert forall|k: int| 0 <= k < j + 1 implies (#[trigger] row@.take(j + 1)[k])
            < EDGE_COUNT by {
            if k < j {
                assert(row@.take(j as int)[k] == row@[k]);
            }
        }
        j = j + 1;
    }
    assert(row@.take(j as int) =~= row@);
    true
}

fn check_row_entries(rows: &Vec<Vec<u8>>) -> (ok: bool)
    ensures
        ok == rows_indexed(rows@),
{
    let mut i: usize = 0;
    while i < rows.len()
        invariant
            i <= rows.len(),
            rows_indexed(rows@.take(i as int)),
        decreases rows.len() - i,
    {
        if !check_row(&rows[i]) {
            return false;
        }
        assert forall|k: int| 0 <= k < i + 1 implies row_indexed(
            (#[trigger] rows@.take(i + 1)[k])@,
        ) by {
            if k < i {
                assert(rows@.take(i as int)[k] == rows@[k]);
            }
        }
        i = i + 1;
    }
    assert(rows@.take(i as int) =~= rows@);
    true
}

impl Triangulation {
    /// The table's invariant: 256 rows of whole triangles over twelve edges,
    /// which join eight corners at unit offsets.
    pub open spec fn wf(&self) -> bool {
        table_defect(self.triangulation_table@, self.cube_points@, self.cube_edges@) is None
    }

    /// The row of a configuration, as a sequence of edge indices.
    pub open spec fn row(&self, id: int) -> Seq<u8> {
        self.triangulation_table@[id]@
    }

    /// Builds a table from its three parts, or names the first defect.
    pub fn new(
        triangulation_table: Vec<Vec<u8>>,
        cube_points: Vec<(usize, usize, usize)>,
        cube_edges: Vec<(usize, usize)>,
    ) -> (made: Result<Triangulation, TableError>)
        ensures
            match made {
                Ok(table) => table.wf() && table.triangulation_table == triangulation_table
                    && table.cube_points == cube_points && table.cube_edges == cube_edges,
                Err(error) => table_defect(triangulation_table@, cube_points@, cube_edges@)
                    == Some(error),
            },
    {
        if cube_points.len() != CORNER_COUNT {
            return Err(TableError::CornerCount);
        }
        if !check_offsets(&cube_points) {
            return Err(TableError::CornerOffset);
        }
        if cube_edges.len() != EDGE_COUNT {
            return Err(TableError::EdgeCount);
        }
        if !check_edges(&cube_edges) {
            return Err(TableError::CornerIndex);
        }
        if triangulation_table.len() != ROW_COUNT {
            return Err(TableError::RowCount);
        }
        if !check_row_lengths(&triangulation_table) {
            return Err(TableError::RowLength);
        }
        if !check_row_entries(&triangulation_table) {
            return Err(TableError::EdgeIndex);
        }
        Ok(Triangulation { triangulation_table, cube_points, cube_edges })
    }
}

} // verus!
