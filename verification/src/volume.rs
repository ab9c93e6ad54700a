//! A dense three-dimensional grid of density samples.

use vstd::arithmetic::div_mod::{
    lemma_div_denominator, lemma_div_pos_is_pos, lemma_fundamental_div_mod,
    lemma_fundamental_div_mod_converse, lemma_mod_pos_bound, lemma_multiply_divide_lt,
};
use vstd::prelude::*;

verus! {

/// Position of sample `(x, y, z)` in the flat storage of a grid that is
/// `dim_x` samples wide and `dim_y` samples high: `x` runs fastest.
pub open spec fn flat_index(dim_x: int, dim_y: int, x: int, y: int, z: int) -> int {
    x + y * dim_x + z * (dim_x * dim_y)
}

/// A flat index of a sample inside the grid lies inside the storage.
pub proof fn lemma_flat_index_in_range(
    dim_x: int,
    dim_y: int,
    dim_z: int,
    x: int,
    y: int,
    z: int,
)
    requires
        0 <= x < dim_x,
        0 <= y < dim_y,
        0 <= z < dim_z,
    ensures
        0 <= flat_index(dim_x, dim_y, x, y, z) < dim_x * dim_y * dim_z,
        0 <= y * dim_x,
        0 <= z * (dim_x * dim_y),
        x + y * dim_x < dim_x * dim_y,
        dim_x * dim_y <= dim_x * dim_y * dim_z,
{
    assert(0 <= y * dim_x && x + y * dim_x < dim_x * dim_y) by (nonlinear_arith)
        requires
            0 <= x < dim_x,
            0 <= y < dim_y,
    ;
    let plane = dim_x * dim_y;
    let inner = x + y * dim_x;
    assert(0 <= z * plane && inner + z * plane < plane * dim_z && plane <= plane * dim_z)
        by (nonlinear_arith)
        requires
            0 <= inner < plane,
            0 <= z < dim_z,
    ;
}

/// Two samples of one grid share a flat index only if they are the same
/// sample.
pub proof fn lemma_flat_index_injective(
    dim_x: int,
    dim_y: int,
    a: (int, int, int),
    b: (int, int, int),
)
    requires
        0 <= a.0 < dim_x,
        0 <= a.1 < dim_y,
        0 <= a.2,
        0 <= b.0 < dim_x,
        0 <= b.1 < dim_y,
        0 <= b.2,
        flat_index(dim_x, dim_y, a.0, a.1, a.2) == flat_index(dim_x, dim_y, b.0, b.1, b.2),
    ensures
        a == b,
{
    let plane = dim_x * dim_y;
    let ia = a.0 + a.1 * dim_x;
    let ib = b.0 + b.1 * dim_x;
    assert(0 <= ia < plane && 0 <= ib < plane) by (nonlinear_arith)
        requires
            0 <= a.0 < dim_x,
            0 <= a.1 < dim_y,
            0 <= b.0 < dim_x,
            0 <= b.1 < dim_y,
            ia == a.0 + a.1 * dim_x,
            ib == b.0 + b.1 * dim_x,
            plane == dim_x * dim_y,
    ;
    assert(a.2 == b.2) by (nonlinear_arith)
        requires
            0 <= ia < plane,
            0 <= ib < plane,
            ia + a.2 * plane == ib + b.2 * plane,
    ;
    assert(a.1 == b.1) by (nonlinear_arith)
        requires
            0 <= a.0 < dim_x,
            0 <= b.0 < dim_x,
            a.0 + a.1 * dim_x == b.0 + b.1 * dim_x,
    ;
}

/// The sample that stands at position `k` of the flat storage.
pub open spec fn grid_coords(dim_x: int, dim_y: int, k: int) -> (int, int, int) {
    (k % dim_x, (k / dim_x) % dim_y, k / (dim_x * dim_y))
}

/// The sample at the flat index of a sample is that sample.
pub proof fn lemma_coords_of_flat_index(dim_x: int, dim_y: int, x: int, y: int, z: int)
    requires
        0 <= x < dim_x,
        0 <= y < dim_y,
        0 <= z,
    ensures
        grid_coords(dim_x, dim_y, flat_index(dim_x, dim_y, x, y, z)) == (x, y, z),
{
    let k = flat_index(dim_x, dim_y, x, y, z);
    let plane = dim_x * dim_y;
    let inner = x + y * dim_x;
    assert(k == (y + z * dim_y) * dim_x + x) by (nonlinear_arith)
        requires
            k == x + y * dim_x + z * (dim_x * dim_y),
    ;
    lemma_fundamental_div_mod_converse(k, dim_x, y + z * dim_y, x);
    lemma_fundamental_div_mod_converse(y + z * dim_y, dim_y, z, y);
    assert(0 <= inner < plane) by (nonlinear_arith)
        requires
            plane == dim_x * dim_y,
            inner == x + y * dim_x,
            0 <= x < dim_x,
            0 <= y < dim_y,
    ;
    assert(k == z * plane + inner);
    lemma_fundamental_div_mod_converse(k, plane, z, inner);
}

/// Every position of the flat storage holds a sample of the grid, whose
/// flat index is that position.
pub proof fn lemma_flat_index_of_coords(dim_x: int, dim_y: int, dim_z: int, k: int)
    requires
        0 < dim_x,
        0 < dim_y,
        0 <= k < dim_x * dim_y * dim_z,
    ensures
        ({
            let (x, y, z) = grid_coords(dim_x, dim_y, k);
            &&& 0 <= x < dim_x
            &&& 0 <= y < dim_y
            &&& 0 <= z < dim_z
            &&& flat_index(dim_x, dim_y, x, y, z) == k
        }),
{
    let plane = dim_x * dim_y;
    assert(0 < plane) by (nonlinear_arith)
        requires
            plane == dim_x * dim_y,
            0 < dim_x,
            0 < dim_y,
    ;
    lemma_mod_pos_bound(k, dim_x);
    lemma_div_pos_is_pos(k, dim_x);
    lemma_mod_pos_bound(k / dim_x, dim_y);
    lemma_div_pos_is_pos(k / dim_x, dim_y);
    lemma_div_pos_is_pos(k, plane);
    lemma_div_denominator(k, dim_x, dim_y);
    lemma_multiply_divide_lt(k, plane, dim_z);
    lemma_fundamental_div_mod(k, dim_x);
    lemma_fundamental_div_mod(k / dim_x, dim_y);
    let x = k % dim_x;
    let y = (k / dim_x) % dim_y;
    let z = k / plane;
    assert(k == x + y * dim_x + z * (dim_x * dim_y)) by (nonlinear_arith)
        requires
            k == dim_x * (k / dim_x) + x,
            k / dim_x == dim_y * z + y,
    ;
}

/// A grid of densities, each held as the bit pattern of a single-precision
/// number. Every axis has at least two samples, so that the grid holds at
/// least one cube.
pub struct Volume {
    /// Samples along the x axis.
    pub dim_x: usize,
    /// Samples along the y axis.
    pub dim_y: usize,
    /// Samples along the z axis.
    pub dim_z: usize,
    /// The samples, `x` running fastest, then `y`, then `z`.
    pub samples: Vec<u32>,
}

/// Whether three dimensions make a grid that can be stored.
pub open spec fn dims_storable(dim_x: usize, dim_y: usize, dim_z: usize) -> bool {
    dim_x >= 2 && dim_y >= 2 && dim_z >= 2 && dim_x * dim_y * dim_z <= usize::MAX
}

/// The number of samples of a grid, if it can be stored.
fn sample_count(dim_x: usize, dim_y: usize, dim_z: usize) -> (count: Option<usize>)
    ensures
        count is Some <==> dims_storable(dim_x, dim_y, dim_z),
        count is Some ==> count->0 == dim_x * dim_y * dim_z,
{
    if dim_x < 2 || dim_y < 2 || dim_z < 2 {
        return None;
    }
    match dim_x.checked_mul(dim_y) {
        None => {
            assert(dim_x * dim_y * dim_z > usize::MAX) by (nonlinear_arith)
                requires
                    dim_x * dim_y > usize::MAX,
                    dim_z >= 2,
            ;
            None
        },
        Some(plane) => plane.checked_mul(dim_z),
    }
}

impl Volume {
    /// The grid's invariant: at least two samples along each axis, and one
    /// stored value for each sample.
    pub open spec fn wf(&self) -> bool {
        self.dim_x >= 2 && self.dim_y >= 2 && self.dim_z >= 2 && self.samples@.len() == self.dim_x
            * self.dim_y * self.dim_z
    }

    /// Whether `(x, y, z)` is a sample of the grid.
    pub open spec fn contains(&self, x: int, y: int, z: int) -> bool {
        0 <= x < self.dim_x && 0 <= y < self.dim_y && 0 <= z < self.dim_z
    }

    /// The density at sample `(x, y, z)`.
    pub open spec fn at(&self, x: int, y: int, z: int) -> u32 {
        self.samples@[flat_index(self.dim_x as int, self.dim_y as int, x, y, z)]
    }

    /// A grid of the given dimensions with every density positive zero, or
    /// `None` where a dimension is under two or the grid is too large to
    /// store.
    pub fn new(dim_x: usize, dim_y: usize, dim_z: usize) -> (made: Option<Volume>)
        ensures
            made is Some <==> dims_storable(dim_x, dim_y, dim_z),
            made is Some ==> {
                let volume = made->0;
                &&& volume.wf()
                &&& volume.dim_x == dim_x
                &&& volume.dim_y == dim_y
                &&& volume.dim_z == dim_z
                &&& forall|i: int| 0 <= i < volume.samples@.len() ==> volume.samples@[i] == 0
            },
    {
        match sample_count(dim_x, dim_y, dim_z) {
            None => None,
            Some(count) => {
                let mut samples: Vec<u32> = Vec::new();
                let mut i: usize = 0;
                while i < count
                    invariant
                        i <= count,
                        samples@.len() == i,
                        forall|k: int| 0 <= k < i ==> samples@[k] == 0,
                    decreases count - i,
                {
                    samples.push(0);
                    i = i + 1;
                }
                Some(Volume { dim_x, dim_y, dim_z, samples })
            },
        }
    }

    /// A grid of the given dimensions over samples that are already laid
    /// out, or `None` where a dimension is under two or the number of
    /// samples is not the product of the dimensions.
    pub fn from_samples(dim_x: usize, dim_y: usize, dim_z: usize, samples: Vec<u32>) -> (made:
        Option<Volume>)
        ensures
            made is Some <==> dim_x >= 2 && dim_y >= 2 && dim_z >= 2 && samples@.len() == dim_x
                * dim_y * dim_z,
            made is Some ==> made->0 == (Volume { dim_x, dim_y, dim_z, samples }),
            made is Some ==> made->0.wf(),
    {
        let given = samples.len();
        match sample_count(dim_x, dim_y, dim_z) {
            None => None,
            Some(count) => {
                if given == count {
                    Some(Volume { dim_x, dim_y, dim_z, samples })
                } else {
                    None
                }
            },
        }
    }

    /// Samples along the x axis.
    pub fn x(&self) -> (dim: usize)
        ensures
            dim == self.dim_x,
    {
        self.dim_x
    }

    /// Samples along the y axis.
    pub fn y(&self) -> (dim: usize)
        ensures
            dim == self.dim_y,
    {
        self.dim_y
    }

    /// Samples along the z axis.
    pub fn z(&self) -> (dim: usize)
        ensures
            dim == self.dim_z,
    {
        self.dim_z
    }

    /// Where sample `(x, y, z)` stands in the storage.
    fn index_of(&self, x: usize, y: usize, z: usize) -> (index: usize)
        requires
            self.wf(),
            self.contains(x as int, y as int, z as int),
        ensures
            index == flat_index(self.dim_x as int, self.dim_y as int, x as int, y as int, z as int),
            index < self.samples@.len(),
    {
        let stored = self.samples.len();
        proof {
            lemma_flat_index_in_range(
                self.dim_x as int,
                self.dim_y as int,
                self.dim_z as int,
                x as int,
                y as int,
                z as int,
            );
        }
        x + y * self.dim_x + z * (self.dim_x * self.dim_y)
    }

    /// The sample that stands at position `index` of the storage.
    pub fn coords(&self, index: usize) -> (at: (usize, usize, usize))
        requires
            self.wf(),
            index < self.samples@.len(),
        ensures
            (at.0 as int, at.1 as int, at.2 as int) == grid_coords(
                self.dim_x as int,
                self.dim_y as int,
                index as int,
            ),
            self.contains(at.0 as int, at.1 as int, at.2 as int),
            flat_index(
                self.dim_x as int,
                self.dim_y as int,
                at.0 as int,
                at.1 as int,
                at.2 as int,
            ) == index,
    {
        let stored = self.samples.len();
        proof {
            lemma_flat_index_of_coords(
                self.dim_x as int,
                self.dim_y as int,
                self.dim_z as int,
                index as int,
            );
            lemma_flat_index_in_range(
                self.dim_x as int,
                self.dim_y as int,
                self.dim_z as int,
                0,
                0,
                0,
            );
        }
        (index % self.dim_x, (index / self.dim_x) % self.dim_y, index / (self.dim_x * self.dim_y))
    }

    /// Reads the density at sample `(x, y, z)`.
    pub fn get(&self, x: usize, y: usize, z: usize) -> (density: u32)
        requires
            self.wf(),
            self.contains(x as int, y as int, z as int),
        ensures
            density == self.at(x as int, y as int, z as int),
    {
        self.samples[self.index_of(x, y, z)]
    }

    /// Writes the density at sample `(x, y, z)` and leaves every other
    /// sample as it was.
    pub fn set(&mut self, x: usize, y: usize, z: usize, density: u32)
        requires
            old(self).wf(),
            old(self).contains(x as int, y as int, z as int),
        ensures
            final(self).wf(),
            final(self).dim_x == old(self).dim_x,
            final(self).dim_y == old(self).dim_y,
            final(self).dim_z == old(self).dim_z,
            final(self).at(x as int, y as int, z as int) == density,
            forall|a: int, b: int, c: int|
                old(self).contains(a, b, c) && (a, b, c) != (x as int, y as int, z as int)
                    ==> #[trigger] final(self).at(a, b, c) == old(self).at(a, b, c),
    {
        let index = self.index_of(x, y, z);
        self.samples.set(index, density);
        proof {
            let dx = self.dim_x as int;
            let dy = self.dim_y as int;
            assert forall|a: int, b: int, c: int|
                old(self).contains(a, b, c) && (a, b, c) != (
                    x as int,
                    y as int,
                    z as int,
                ) implies #[trigger] self.at(a, b, c) == old(self).at(a, b, c) by {
                lemma_flat_index_in_range(dx, dy, self.dim_z as int, a, b, c);
                if flat_index(dx, dy, a, b, c) == flat_index(dx, dy, x as int, y as int, z as int) {
                    lemma_flat_index_injective(
                        dx,
                        dy,
                        (a, b, c),
                        (x as int, y as int, z as int),
                    );
                }
            }
        }
    }
}

} // verus!
