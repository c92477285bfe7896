//! Run configuration: the tuning parameters of the evolutionary search and
//! their validity rules. Invalid configurations are rejected before any run
//! starts.

use vstd::prelude::*;

verus! {

/// Largest accepted canvas side length. Keeps every pixel index, squared
/// edge length and fitness sum comfortably inside the machine integer types
/// used by the scoring arithmetic.
pub const MAX_IMAGE_SIZE: u32 = 4096;

/// Denominator of the mutation rate: a rate of `RATE_SCALE` means
/// "mutate every offspring", a rate of 0 means "never mutate".
pub const RATE_SCALE: u32 = 1000000;

/// Denominator of a triangle's fill opacity: `OPACITY_SCALE` is fully
/// opaque, 0 fully transparent.
pub const OPACITY_SCALE: u16 = 10000;

/// Largest accepted degeneracy threshold: a straight angle, in thousandths
/// of a degree.
pub const MAX_DEGENERACY_THRESHOLD: u32 = 180000;

/// Which pixel-difference metric scores a candidate triangle.
///
/// `Mse` fitness is the negated sum of squared per-channel differences
/// (higher is better, 0 is a perfect match). `SimplifiedPerPixelSsim`
/// fitness is the sum over pixels of a fixed-point per-pixel structural
/// similarity (each pixel's own channel mean, variance and covariance
/// against the matching reference pixel), again higher is better.
#[derive(Clone, Copy, Debug, PartialEq, Eq)]
pub enum FitnessAlgorithm {
    Mse,
    SimplifiedPerPixelSsim,
}

/// The tuning parameters of one run, immutable for the run's duration.
#[derive(Clone, Copy, Debug, PartialEq, Eq)]
pub struct AlgorithmParams {
    /// How many triangles the run commits at most.
    pub num_triangles: usize,
    /// Side length of the square canvas and reference image, in pixels.
    pub image_size: u32,
    /// How many selection-and-reproduction cycles search for each triangle.
    pub num_generations: usize,
    /// How many candidate triangles each generation holds.
    pub population_size: usize,
    /// How many survivors selection keeps as parents of the next generation.
    pub num_selected: usize,
    /// Probability that an offspring is mutated, in units of `1/RATE_SCALE`.
    pub mutation_rate: u32,
    /// Angle threshold of the degeneracy filter, in thousandths of a degree:
    /// a candidate with an interior angle at or below it is rejected.
    /// `None` (or a zero threshold) disables the filter.
    pub degeneracy_threshold: Option<u32>,
    /// Seed of the run's random stream; `None` derives one from the clock.
    pub seed: Option<u64>,
    /// Which metric scores candidates.
    pub fitness_algorithm: FitnessAlgorithm,
    /// Whether triangles carry a sampled fill opacity and are alpha-blended
    /// onto the canvas; without it they are drawn solid.
    pub use_opacity: bool,
}

/// A configuration is accepted exactly when the canvas side is positive and
/// within machine limits, selection keeps at least one and at most all
/// individuals, the mutation rate is a probability, and the degeneracy
/// threshold (when present) is at most a straight angle.
pub open spec fn params_valid(p: AlgorithmParams) -> bool {
    &&& 1 <= p.image_size <= MAX_IMAGE_SIZE
    &&& 0 < p.num_selected <= p.population_size
    &&& p.mutation_rate <= RATE_SCALE
    &&& match p.degeneracy_threshold {
        Some(t) => t <= MAX_DEGENERACY_THRESHOLD,
        None => true,
    }
}

/// Why a run could not start.
#[derive(Clone, Copy, Debug, PartialEq, Eq)]
pub enum StartError {
    /// The `AlgorithmParams` break `params_valid`.
    Configuration,
    /// The reference image's dimensions differ from the configured canvas.
    InputMismatch,
}

impl StartError {
    /// A short human-readable account of the error.
    pub fn describe(&self) -> (r: &'static str)
        ensures
            (*self == StartError::Configuration) == (r == "invalid algorithm parameters"),
            (*self == StartError::InputMismatch) == (r
                == "reference image does not match the configured canvas size"),
    {
        match self {
            StartError::Configuration => "invalid algorithm parameters",
            StartError::InputMismatch => "reference image does not match the configured canvas size",
        }
    }
}

impl AlgorithmParams {
    /// Accepts the configuration or reports why it is invalid.
    pub fn validate(&self) -> (r: Result<(), StartError>)
        ensures
            r is Ok <==> params_valid(*self),
            r is Err ==> r == Result::<(), StartError>::Err(StartError::Configuration),
    {
        if self.image_size < 1 || self.image_size > MAX_IMAGE_SIZE {
            return Err(StartError::Configuration);
        }
        if self.num_selected < 1 || self.num_selected > self.population_size {
            return Err(StartError::Configuration);
        }
        if self.mutation_rate > RATE_SCALE {
            return Err(StartError::Configuration);
        }
        match self.degeneracy_threshold {
            Some(t) => {
                if t > MAX_DEGENERACY_THRESHOLD {
                    return Err(StartError::Configuration);
                }
            },
            None => {},
        }
        Ok(())
    }
}

impl Default for AlgorithmParams {
    /// The fully populated stock configuration: 512 triangles of 256
    /// generations each over a 256-pixel canvas, populations of 128 with 64
    /// survivors, a 10% mutation rate, no degeneracy filter, a clock-derived
    /// seed, solid mean-squared-error scoring.
    fn default() -> (r: Self)
        ensures
            r.num_triangles == 512,
            r.image_size == 256,
            r.num_generations == 256,
            r.population_size == 128,
            r.num_selected == 64,
            r.mutation_rate == RATE_SCALE / 10,
            r.degeneracy_threshold is None,
            r.seed is None,
            r.fitness_algorithm == FitnessAlgorithm::Mse,
            !r.use_opacity,
            params_valid(r),
    {
        AlgorithmParams {
            num_triangles: 512,
            image_size: 256,
            num_generations: 256,
            population_size: 128,
            num_selected: 64,
            mutation_rate: RATE_SCALE / 10,
            degeneracy_threshold: None,
            seed: None,
            fitness_algorithm: FitnessAlgorithm::Mse,
            use_opacity: false,
        }
    }
}

} // verus!
