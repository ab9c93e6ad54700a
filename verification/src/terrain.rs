//! The terrain's configuration and the discrete part of chunk generation:
//! what is checked at construction, how the master seed is spread over the
//! noise octaves, where a chunk lies, and how a filled chunk becomes a mesh.

use crate::density::{is_positive, positive};
use crate::marching_cubes::{get_mesh_data, lemma_mesh_determined, mesh_of, MeshData};
use crate::table::Triangulation;
use crate::volume::{flat_index, grid_coords, lemma_flat_index_of_coords, Volume};
use rand::rngs::StdRng;
use vstd::arithmetic::div_mod::lemma_div_denominator;
use vstd::prelude::*;

verus! {

/// Why a terrain cannot be built from a configuration.
#[derive(Clone, Copy, Debug, PartialEq, Eq, Structural)]
pub enum ConfigError {
    /// A chunk has no points along an axis.
    NoPoints,
    /// The world scale is not a positive number.
    NonPositiveScale,
    /// There is no noise octave.
    NoOctaves,
    /// The octaves' weights and spatial scales differ in number.
    OctaveMismatch,
}

/// The first defect of a configuration, or `None` for a valid one.
pub open spec fn config_defect(points_per_chunk: u8, scale: u32, weights: nat, scales: nat)
    -> Option<ConfigError> {
    if points_per_chunk == 0 {
        Some(ConfigError::NoPoints)
    } else if !positive(scale) {
        Some(ConfigError::NonPositiveScale)
    } else if weights == 0 {
        Some(ConfigError::NoOctaves)
    } else if weights != scales {
        Some(ConfigError::OctaveMismatch)
    } else {
        None
    }
}

/// 256 to the power `k`.
pub open spec fn byte_weight(k: nat) -> int
    decreases k,
{
    if k == 0 {
        1
    } else {
        byte_weight((k - 1) as nat) * 256
    }
}

/// Byte `j` of the master seed, the most significant byte first.
pub open spec fn seed_byte(seed: u128, j: int) -> int {
    (seed as int / byte_weight((15 - j) as nat)) % 256
}

/// The seed of the generator: the sixteen bytes of the master seed, most
/// significant first, written twice.
pub open spec fn expanded_seed(seed: u128) -> Seq<u8> {
    Seq::new(32, |i: int| seed_byte(seed, i % 16) as u8)
}

proof fn lemma_byte_weight_positive(k: nat)
    ensures
        byte_weight(k) > 0,
    decreases k,
{
    if k > 0 {
        lemma_byte_weight_positive((k - 1) as nat);
    }
}

/// Spreads the master seed over the 32 bytes that seed the generator.
pub fn expand_seed(seed: u128) -> (bytes: [u8; 32])
    ensures
        bytes@ == expanded_seed(seed),
{
    let mut bytes: [u8; 32] = [0;32];
    let mut rest: u128 = seed;
    let mut taken: usize = 0;
    while taken < 16
        invariant
            taken <= 16,
            bytes@.len() == 32,
            rest == seed as int / byte_weight(taken as nat),
            forall|j: int|
                16 - taken <= j < 16 ==> bytes@[j] == seed_byte(seed, j) && bytes@[j + 16]
                    == seed_byte(seed, j),
        decreases 16 - taken,
    {
        let byte: u8 = (rest % 256) as u8;
        proof {
            lemma_byte_weight_positive(taken as nat);
            lemma_div_denominator(seed as int, byte_weight(taken as nat), 256);
        }
        bytes[15 - taken] = byte;
        bytes[31 - taken] = byte;
        rest = rest / 256;
        taken = taken + 1;
    }
    assert(bytes@ =~= expanded_seed(seed));
    bytes
}

/// The standard generator of `rand`, carried through as an opaque value.
#[verifier::external_type_specification]
#[verifier::external_body]
pub struct ExStdRng(StdRng);

/// The `i`-th 32-bit value that a generator seeded with the given bytes
/// yields. The generator's algorithm is fixed for a build target: `rand`
/// selects it when it is compiled.
pub uninterp spec fn seeded_draw(seed: Seq<u8>, i: nat) -> u32;

/// Where a generator stands: the bytes that it was seeded with, and the
/// number of 32-bit values that it has yielded.
pub uninterp spec fn generator_state(generator: StdRng) -> (Seq<u8>, nat);

/// `rand::SeedableRng::from_seed` for `StdRng`: a fresh generator over the
/// 32 bytes of its seed, which has yielded nothing yet.
#[verifier::external_body]
fn seeded_generator(seed: [u8; 32]) -> (generator: StdRng)
    ensures
        generator_state(generator) == (seed@, 0nat),
{
    let generator: StdRng = rand::SeedableRng::from_seed(seed);
    generator
}

/// `rand::Rng::gen` at `u32`: the next value of the generator's stream,
/// which its seed and the number of values before it determine. The
/// generator keeps its seed and has yielded one value more.
#[verifier::external_body]
fn next_seed(generator: &mut StdRng) -> (drawn: u32)
    ensures
        drawn == seeded_draw(
            generator_state(*old(generator)).0,
            generator_state(*old(generator)).1,
        ),
        generator_state(*final(generator)) == (
            generator_state(*old(generator)).0,
            (generator_state(*old(generator)).1 + 1) as nat,
        ),
{
    rand::Rng::gen(generator)
}

/// The seeds of the first `octaves` noise octaves under a master seed: the
/// values that a generator seeded with the expanded master seed yields.
pub open spec fn octave_stream(seed: u128, octaves: nat) -> Seq<u32> {
    Seq::new(octaves, |i: int| seeded_draw(expanded_seed(seed), i as nat))
}

/// Draws one seed for each noise octave from a generator seeded with the
/// expanded master seed, in the order of the octaves.
pub fn octave_seeds(seed: u128, octaves: usize) -> (seeds: Vec<u32>)
    ensures
        seeds@ == octave_stream(seed, octaves as nat),
{
    let mut generator = seeded_generator(expand_seed(seed));
    let mut seeds: Vec<u32> = Vec::new();
    let mut i: usize = 0;
    while i < octaves
        invariant
            i <= octaves,
            generator_state(generator) == (expanded_seed(seed), i as nat),
            seeds@ == octave_stream(seed, i as nat),
        decreases octaves - i,
    {
        let drawn = next_seed(&mut generator);
        seeds.push(drawn);
        i = i + 1;
        assert(seeds@ =~= octave_stream(seed, i as nat));
    }
    seeds
}

/// A terrain's configuration, fixed at construction. Numbers that are not
/// integers are held as single-precision bit patterns.
pub struct Terrain {
    /// The seed of each octave's noise function.
    pub noise_seeds: Vec<u32>,
    /// The weight of each octave.
    pub noise_weights: Vec<u32>,
    /// The spatial scale of each octave.
    pub noise_scales: Vec<u32>,
    /// The number of cubes of a chunk along each axis.
    pub points_per_chunk: u8,
    /// The world size of a cube.
    pub scale: u32,
}

impl Terrain {
    /// The configuration's invariant: it has no defect, and every octave has
    /// its seed.
    pub open spec fn wf(&self) -> bool {
        config_defect(
            self.points_per_chunk,
            self.scale,
            self.noise_weights@.len(),
            self.noise_scales@.len(),
        ) is None && self.noise_seeds@.len() == self.noise_weights@.len()
    }

    /// The number of samples of a chunk's volume along each axis: one more
    /// than its cubes.
    pub open spec fn spec_points(&self) -> int {
        self.points_per_chunk + 1
    }

    /// The volume of a chunk over the given samples.
    pub open spec fn chunk_volume(&self, samples: Vec<u32>) -> Volume {
        Volume {
            dim_x: self.spec_points() as usize,
            dim_y: self.spec_points() as usize,
            dim_z: self.spec_points() as usize,
            samples,
        }
    }

    /// Builds a terrain, or names the first defect of the configuration.
    pub fn new(
        seed: u128,
        points_per_chunk: u8,
        scale: u32,
        noise_weights: Vec<u32>,
        noise_scales: Vec<u32>,
    ) -> (made: Result<Terrain, ConfigError>)
        ensures
            match made {
                Ok(terrain) => terrain.wf() && terrain.points_per_chunk == points_per_chunk
                    && terrain.scale == scale && terrain.noise_weights == noise_weights
                    && terrain.noise_scales == noise_scales && terrain.noise_seeds@
                    == octave_stream(seed, noise_weights@.len()),
                Err(error) => config_defect(
                    points_per_chunk,
                    scale,
                    noise_weights@.len(),
                    noise_scales@.len(),
                ) == Some(error),
            },
    {
        if points_per_chunk == 0 {
            return Err(ConfigError::NoPoints);
        }
        if !is_positive(scale) {
            return Err(ConfigError::NonPositiveScale);
        }
        if noise_weights.len() == 0 {
            return Err(ConfigError::NoOctaves);
        }
        if noise_weights.len() != noise_scales.len() {
            return Err(ConfigError::OctaveMismatch);
        }
        let noise_seeds = octave_seeds(seed, noise_weights.len());
        Ok(Terrain { noise_seeds, noise_weights, noise_scales, points_per_chunk, scale })
    }

    /// The number of samples of a chunk's volume along each axis.
    pub fn points(&self) -> (points: usize)
        ensures
            points == self.spec_points(),
    {
        self.points_per_chunk as usize + 1
    }

    /// The number of samples of a chunk's volume.
    pub fn sample_count(&self) -> (count: usize)
        ensures
            count == self.spec_points() * self.spec_points() * self.spec_points(),
    {
        let points = self.points();
        assert(points * points <= 65536 && points * points * points <= 16777216)
            by (nonlinear_arith)
            requires
                0 <= points <= 256,
        ;
        points * points * points
    }

    /// The sample that stands at position `index` of a chunk's densities:
    /// `x` runs fastest, then `y`, then `z`.
    pub fn sample_coords(&self, index: usize) -> (at: (usize, usize, usize))
        requires
            index < self.spec_points() * self.spec_points() * self.spec_points(),
        ensures
            at.0 < self.spec_points() && at.1 < self.spec_points() && at.2 < self.spec_points(),
            (at.0 as int, at.1 as int, at.2 as int) == grid_coords(
                self.spec_points(),
                self.spec_points(),
                index as int,
            ),
            flat_index(
                self.spec_points(),
                self.spec_points(),
                at.0 as int,
                at.1 as int,
                at.2 as int,
            ) == index,
    {
        let points = self.points();
        proof {
            lemma_flat_index_of_coords(
                points as int,
                points as int,
                points as int,
                index as int,
            );
            assert(0 < points * points <= 65536) by (nonlinear_arith)
                requires
                    0 < points <= 256,
            ;
        }
        (index % points, (index / points) % points, index / (points * points))
    }

    /// One coordinate of a chunk's origin, in samples.
    pub fn scaled_chunk(&self, val: i16) -> (origin: i32)
        ensures
            origin == val * self.points_per_chunk,
    {
        assert(-32768 * 255 <= val * self.points_per_chunk <= 32767 * 255) by (nonlinear_arith)
            requires
                -32768 <= val <= 32767,
                0 <= self.points_per_chunk <= 255,
        ;
        val as i32 * self.points_per_chunk as i32
    }

    /// A chunk's origin, in samples: the chunk coordinate times the points
    /// of a chunk, axis by axis.
    pub fn true_chunk(&self, chunk: (i16, i16, i16)) -> (origin: (i32, i32, i32))
        ensures
            origin.0 == chunk.0 * self.points_per_chunk,
            origin.1 == chunk.1 * self.points_per_chunk,
            origin.2 == chunk.2 * self.points_per_chunk,
    {
        (self.scaled_chunk(chunk.0), self.scaled_chunk(chunk.1), self.scaled_chunk(chunk.2))
    }

    /// Turns the densities of a chunk into its mesh. The samples are those
    /// of a volume with one more sample than cubes along each axis, `x`
    /// running fastest; with any other number of samples there is no mesh.
    pub fn get_chunk(&self, table: &Triangulation, samples: Vec<u32>) -> (made: Option<MeshData>)
        requires
            self.wf(),
            table.wf(),
        ensures
            made is Some <==> samples@.len() == self.spec_points() * self.spec_points()
                * self.spec_points(),
            made is Some ==> made->0@ == mesh_of(*table, self.chunk_volume(samples)),
            made is Some ==> made->0@.len() % 3 == 0,
    {
        let points = self.points();
        match Volume::from_samples(points, points, points, samples) {
            None => None,
            Some(volume) => Some(get_mesh_data(table, &volume)),
        }
    }
}

/// Generation is repeatable. Two terrains built from the same seed and the
/// same number of octaves give their octaves the same seeds; and two
/// terrains with the same points per chunk turn the same densities into the
/// same mesh.
pub proof fn lemma_generation_repeatable(
    seed: u128,
    first: Terrain,
    second: Terrain,
    table: Triangulation,
    densities: Vec<u32>,
    again: Vec<u32>,
)
    requires
        first.noise_seeds@ == octave_stream(seed, first.noise_weights@.len()),
        second.noise_seeds@ == octave_stream(seed, second.noise_weights@.len()),
        first.noise_weights@.len() == second.noise_weights@.len(),
        first.points_per_chunk == second.points_per_chunk,
        densities@ == again@,
    ensures
        first.noise_seeds@ == second.noise_seeds@,
        mesh_of(table, first.chunk_volume(densities)) == mesh_of(
            table,
            second.chunk_volume(again),
        ),
{
    lemma_mesh_determined(table, first.chunk_volume(densities), second.chunk_volume(again));
}

} // verus!
