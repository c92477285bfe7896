//! Candidate scoring: renders a candidate onto a private copy of the canvas
//! and measures it against the reference image. Fitness is a machine
//! integer, higher is better. The mean-squared-error metric is the exact
//! negated sum of squared per-channel differences; the simplified per-pixel
//! structural-similarity metric is an exact fixed-point computation per
//! pixel. Degenerate candidates (an interior angle at or below the
//! configured threshold, or an undefined angle) take the minimum
//! representable fitness, a hard-reject sentinel.

use vstd::prelude::*;
use crate::canvas::{Canvas, draw_spec, draw_triangle_onto_canvas};
use crate::geometry::{degenerate_spec, is_degenerate};
use crate::params::{FitnessAlgorithm, MAX_DEGENERACY_THRESHOLD, MAX_IMAGE_SIZE, OPACITY_SCALE};
use crate::triangle::{Triangle, vertex_in_canvas};
use rayon::iter::{IntoParallelRefIterator, ParallelIterator};

verus! {

/// Largest squared per-channel difference.
pub const MAX_SQ_DIFF: u64 = 65025;

/// A well-formed canvas holds at most three bytes per pixel of the largest
/// accepted square.
pub proof fn lemma_canvas_len_bound(c: &Canvas)
    requires
        c.wf(),
    ensures
        c.spec_bytes().len() <= 3 * (MAX_IMAGE_SIZE as int) * (MAX_IMAGE_SIZE as int),
        (c.spec_size() as int) * (c.spec_size() as int) <= (MAX_IMAGE_SIZE as int) * (
        MAX_IMAGE_SIZE as int),
{
    let s = c.spec_size() as int;
    let m = MAX_IMAGE_SIZE as int;
    assert(s * s <= m * m && 3 * s * s <= 3 * m * m) by (nonlinear_arith)
        requires
            1 <= s <= m,
    ;
}

/// The squared difference of two channel bytes.
pub open spec fn sq_diff(a: u8, b: u8) -> int {
    (a - b) * (a - b)
}

/// Sum of squared differences over the first `n` bytes of two buffers.
pub open spec fn mse_sum(c: Seq<u8>, r: Seq<u8>, n: nat) -> int
    decreases n,
{
    if n == 0 {
        0
    } else {
        mse_sum(c, r, (n - 1) as nat) + sq_diff(c[n - 1], r[n - 1])
    }
}

pub proof fn lemma_mse_sum_bounds(c: Seq<u8>, r: Seq<u8>, n: nat)
    ensures
        0 <= mse_sum(c, r, n) <= MAX_SQ_DIFF * n,
    decreases n,
{
    if n > 0 {
        lemma_mse_sum_bounds(c, r, (n - 1) as nat);
        let a = c[n - 1];
        let b = r[n - 1];
        assert(0 <= (a - b) * (a - b) <= MAX_SQ_DIFF) by (nonlinear_arith)
            requires
                0 <= a <= 255,
                0 <= b <= 255,
        ;
    }
}

/// Sum of squared per-channel differences of two same-sized rasters.
pub fn compute_mse(image1: &Canvas, image2: &Canvas) -> (r: u64)
    requires
        image1.wf(),
        image2.wf(),
        image1.spec_size() == image2.spec_size(),
    ensures
        r == mse_sum(image1.spec_bytes(), image2.spec_bytes(), image1.spec_bytes().len()),
        r <= MAX_SQ_DIFF * image1.spec_bytes().len(),
{
    let n: usize = image1.byte_len();
    let mut acc: u64 = 0;
    let mut i: usize = 0;
    proof {
        lemma_mse_sum_bounds(image1.spec_bytes(), image2.spec_bytes(), n as nat);
        lemma_canvas_len_bound(image1);
    }
    while i < n
        invariant
            i <= n,
            n == image1.spec_bytes().len(),
            n == image2.spec_bytes().len(),
            n <= 3 * (MAX_IMAGE_SIZE as nat) * (MAX_IMAGE_SIZE as nat),
            acc == mse_sum(image1.spec_bytes(), image2.spec_bytes(), i as nat),
            acc <= MAX_SQ_DIFF * i,
        decreases n - i,
    {
        let a = image1.byte_at(i);
        let b = image2.byte_at(i);
        let d: i64 = (a as i64) - (b as i64);
        proof {
            assert(0 <= d * d <= MAX_SQ_DIFF) by (nonlinear_arith)
                requires
                    -255 <= d <= 255,
            ;
        }
        let dd: u64 = (d * d) as u64;
        proof {
            assert(MAX_SQ_DIFF * i + MAX_SQ_DIFF <= MAX_SQ_DIFF * n <= MAX_SQ_DIFF * 3 * (
            MAX_IMAGE_SIZE as int) * (MAX_IMAGE_SIZE as int)) by (nonlinear_arith)
                requires
                    i < n <= 3 * (MAX_IMAGE_SIZE as nat) * (MAX_IMAGE_SIZE as nat),
            ;
        }
        acc = acc + dd;
        i += 1;
    }
    acc
}

/// Fixed-point scale of a per-pixel similarity of exactly one.
pub const SSIM_ONE: i64 = 1048576;

/// Numerator of the small luminance stabilizer, over a denominator of
/// ninety thousand.
pub const SSIM_C1_NUM: i64 = 585225;

/// Numerator of the small contrast stabilizer, over a denominator of ninety
/// thousand.
pub const SSIM_C2_NUM: i64 = 5267025;

/// The simplified per-pixel structural similarity of one pixel, in units of
/// `1/SSIM_ONE`: the conventional similarity formula evaluated on the
/// pixel's own three channels (their mean, variance and covariance against
/// the matching reference pixel), cleared of fractions and rounded toward
/// zero. Clamped into `[-SSIM_ONE, SSIM_ONE]`, where the exact value always
/// lies.
pub open spec fn ssim_pixel(x0: u8, x1: u8, x2: u8, y0: u8, y1: u8, y2: u8) -> int {
    let sx = x0 + x1 + x2;
    let sy = y0 + y1 + y2;
    let qx = x0 * x0 + x1 * x1 + x2 * x2;
    let qy = y0 * y0 + y1 * y1 + y2 * y2;
    let qxy = x0 * y0 + x1 * y1 + x2 * y2;
    let a1 = 20000 * (sx * sy) + SSIM_C1_NUM;
    let a2 = 20000 * (3 * qxy - sx * sy) + SSIM_C2_NUM;
    let b1 = 10000 * (sx * sx + sy * sy) + SSIM_C1_NUM;
    let b2 = 10000 * ((3 * qx - sx * sx) + (3 * qy - sy * sy)) + SSIM_C2_NUM;
    let den = b1 * b2;
    if den <= 0 {
        0
    } else {
        let q = if a2 >= 0 {
            (a1 * a2) * SSIM_ONE / den
        } else {
            -((a1 * -a2) * SSIM_ONE / den)
        };
        if q > SSIM_ONE {
            SSIM_ONE as int
        } else if q < -SSIM_ONE {
            -SSIM_ONE as int
        } else {
            q
        }
    }
}

/// Executable form of `ssim_pixel`.
fn ssim_pixel_exec(x0: u8, x1: u8, x2: u8, y0: u8, y1: u8, y2: u8) -> (r: i64)
    ensures
        r == ssim_pixel(x0, x1, x2, y0, y1, y2),
        -SSIM_ONE <= r <= SSIM_ONE,
{
    proof {
        assert((x0 as int) * (x0 as int) <= 65025 && (x1 as int) * (x1 as int) <= 65025 && (
        x2 as int) * (x2 as int) <= 65025 && (y0 as int) * (y0 as int) <= 65025 && (y1 as int) * (
        y1 as int) <= 65025 && (y2 as int) * (y2 as int) <= 65025 && (x0 as int) * (y0 as int)
            <= 65025 && (x1 as int) * (y1 as int) <= 65025 && (x2 as int) * (y2 as int) <= 65025)
            by (nonlinear_arith)
            requires
                x0 <= 255 && x1 <= 255 && x2 <= 255 && y0 <= 255 && y1 <= 255 && y2 <= 255,
        ;
    }
    let sx: i64 = x0 as i64 + x1 as i64 + x2 as i64;
    let sy: i64 = y0 as i64 + y1 as i64 + y2 as i64;
    let qx: i64 = (x0 as i64) * (x0 as i64) + (x1 as i64) * (x1 as i64) + (x2 as i64) * (x2 as i64);
    let qy: i64 = (y0 as i64) * (y0 as i64) + (y1 as i64) * (y1 as i64) + (y2 as i64) * (y2 as i64);
    let qxy: i64 = (x0 as i64) * (y0 as i64) + (x1 as i64) * (y1 as i64) + (x2 as i64) * (y2
        as i64);
    proof {
        assert(0 <= sx * sy <= 585225 && sx * sx <= 585225 && sy * sy <= 585225)
            by (nonlinear_arith)
            requires
                0 <= sx <= 765,
                0 <= sy <= 765,
        ;
    }
    let a1: i64 = 20000 * (sx * sy) + SSIM_C1_NUM;
    let a2: i64 = 20000 * (3 * qxy - sx * sy) + SSIM_C2_NUM;
    let b1: i64 = 10000 * (sx * sx + sy * sy) + SSIM_C1_NUM;
    let b2: i64 = 10000 * ((3 * qx - sx * sx) + (3 * qy - sy * sy)) + SSIM_C2_NUM;
    proof {
        assert((b1 as int) * (b2 as int) < 0x1_0000_0000_0000_0000_0000 && -(
        0x1_0000_0000_0000_0000_0000) < (b1 as int) * (b2 as int)) by (nonlinear_arith)
            requires
                -0x10_0000_0000 < b1 < 0x10_0000_0000,
                -0x10_0000_0000 < b2 < 0x10_0000_0000,
        ;
    }
    let den: i128 = (b1 as i128) * (b2 as i128);
    if den <= 0 {
        return 0;
    }
    let a2_abs: i64 = if a2 >= 0 {
        a2
    } else {
        -a2
    };
    proof {
        assert(0 <= (a1 as int) * (a2_abs as int) < 0x1_0000_0000_0000_0000_0000)
            by (nonlinear_arith)
            requires
                0 <= a1 < 0x10_0000_0000,
                0 <= a2_abs < 0x10_0000_0000,
        ;
    }
    let num: i128 = (a1 as i128) * (a2_abs as i128) * (SSIM_ONE as i128);
    let q_abs_u: u128 = (num as u128) / (den as u128);
    proof {
        assert((num as u128) / (den as u128) <= (num as u128)) by (nonlinear_arith)
            requires
                den as u128 >= 1,
        ;
    }
    let q_abs: i128 = q_abs_u as i128;
    let q: i128 = if a2 >= 0 {
        q_abs
    } else {
        -q_abs
    };
    proof {
        assert(num == (a1 as int) * (a2_abs as int) * (SSIM_ONE as int));
        assert(den == (b1 as int) * (b2 as int));
        assert(q_abs == (num as int) / (den as int));
        assert(q == (if a2 >= 0 {
            ((a1 as int) * (a2 as int)) * (SSIM_ONE as int) / ((b1 as int) * (b2 as int))
        } else {
            -(((a1 as int) * (-(a2 as int))) * (SSIM_ONE as int) / ((b1 as int) * (b2 as int)))
        }));
    }
    if q > SSIM_ONE as i128 {
        SSIM_ONE
    } else if q < -(SSIM_ONE as i128) {
        -SSIM_ONE
    } else {
        q as i64
    }
}

/// Sum of the per-pixel similarities of the first `p` pixels.
pub open spec fn ssim_sum(c: Seq<u8>, r: Seq<u8>, p: nat) -> int
    decreases p,
{
    if p == 0 {
        0
    } else {
        let q = p - 1;
        ssim_sum(c, r, (p - 1) as nat) + ssim_pixel(
            c[3 * q],
            c[3 * q + 1],
            c[3 * q + 2],
            r[3 * q],
            r[3 * q + 1],
            r[3 * q + 2],
        )
    }
}

pub proof fn lemma_ssim_sum_bounds(c: Seq<u8>, r: Seq<u8>, p: nat)
    ensures
        -(SSIM_ONE as int) * p <= ssim_sum(c, r, p) <= (SSIM_ONE as int) * p,
    decreases p,
{
    if p > 0 {
        lemma_ssim_sum_bounds(c, r, (p - 1) as nat);
        assert((SSIM_ONE as int) * p == (SSIM_ONE as int) * (p - 1) + SSIM_ONE) by (nonlinear_arith);
    }
}

proof fn lemma_ssim_step(acc: int, s: int, p: int, pc: int)
    requires
        -1048576 * p <= acc <= 1048576 * p,
        -1048576 <= s <= 1048576,
        0 <= p < pc,
        pc <= 16777216,
    ensures
        -1048576 * (p + 1) <= acc + s <= 1048576 * (p + 1),
        -17592186044416 <= acc + s <= 17592186044416,
{
    assert(1048576 * (p + 1) == 1048576 * p + 1048576 && 1048576 * (p + 1) <= 1048576 * pc
        && 1048576 * pc <= 17592186044416) by (nonlinear_arith)
        requires
            0 <= p < pc <= 16777216,
    ;
}

/// Sum of per-pixel similarities of two same-sized rasters.
#[verifier::rlimit(60)]
pub fn compute_ssim(image1: &Canvas, image2: &Canvas) -> (r: i64)
    requires
        image1.wf(),
        image2.wf(),
        image1.spec_size() == image2.spec_size(),
    ensures
        r == ssim_sum(
            image1.spec_bytes(),
            image2.spec_bytes(),
            (image1.spec_size() as nat) * (image1.spec_size() as nat),
        ),
        -17592186044416 <= r <= 17592186044416,
{
    let size: u32 = image1.size();
    proof {
        assert((size as int) * (size as int) <= (MAX_IMAGE_SIZE as int) * (MAX_IMAGE_SIZE as int))
            by (nonlinear_arith)
            requires
                1 <= size <= MAX_IMAGE_SIZE,
        ;
        assert(3 * ((size as int) * (size as int)) == 3 * (size as int) * (size as int))
            by (nonlinear_arith);
    }
    let pixel_count: usize = (size as usize) * (size as usize);
    let mut acc: i64 = 0;
    let mut p: usize = 0;
    while p < pixel_count
        invariant
            p <= pixel_count,
            pixel_count == (image1.spec_size() as nat) * (image1.spec_size() as nat),
            pixel_count <= 16777216,
            image1.spec_bytes().len() == 3 * pixel_count,
            image2.spec_bytes().len() == 3 * pixel_count,
            acc == ssim_sum(image1.spec_bytes(), image2.spec_bytes(), p as nat),
            -1048576 * (p as int) <= acc <= 1048576 * (p as int),
            -17592186044416 <= acc <= 17592186044416,
        decreases pixel_count - p,
    {
        let base: usize = 3 * p;
        let s = ssim_pixel_exec(
            image1.byte_at(base),
            image1.byte_at(base + 1),
            image1.byte_at(base + 2),
            image2.byte_at(base),
            image2.byte_at(base + 1),
            image2.byte_at(base + 2),
        );
        proof {
            lemma_ssim_step(acc as int, s as int, p as int, pixel_count as int);
        }
        acc = acc + s;
        p += 1;
    }
    acc
}

/// The fitness of a rendered canvas against the reference: negated error sum
/// under `Mse`, similarity sum under `SimplifiedPerPixelSsim`.
pub open spec fn fitness_spec(c: Seq<u8>, refb: Seq<u8>, size: u32, alg: FitnessAlgorithm) -> int {
    match alg {
        FitnessAlgorithm::Mse => -mse_sum(c, refb, c.len()),
        FitnessAlgorithm::SimplifiedPerPixelSsim => ssim_sum(
            c,
            refb,
            (size as nat) * (size as nat),
        ),
    }
}

/// Measures a rendered canvas against the reference.
pub fn fitness_of(rendered: &Canvas, reference: &Canvas, alg: FitnessAlgorithm) -> (r: i64)
    requires
        rendered.wf(),
        reference.wf(),
        rendered.spec_size() == reference.spec_size(),
    ensures
        r == fitness_spec(
            rendered.spec_bytes(),
            reference.spec_bytes(),
            rendered.spec_size(),
            alg,
        ),
        r > i64::MIN,
{
    match alg {
        FitnessAlgorithm::Mse => {
            let s = compute_mse(rendered, reference);
            proof {
                lemma_canvas_len_bound(rendered);
                assert(s <= MAX_SQ_DIFF * (3 * (MAX_IMAGE_SIZE as int) * (MAX_IMAGE_SIZE as int)))
                    by (nonlinear_arith)
                    requires
                        s <= MAX_SQ_DIFF * rendered.spec_bytes().len(),
                        rendered.spec_bytes().len() <= 3 * (MAX_IMAGE_SIZE as int) * (
                        MAX_IMAGE_SIZE as int),
                ;
            }
            -(s as i64)
        },
        FitnessAlgorithm::SimplifiedPerPixelSsim => compute_ssim(rendered, reference),
    }
}

/// Requirements shared by every scoring call: two well-formed same-sized
/// rasters, a triangle on the canvas with an opacity in range, and a
/// threshold within a half turn.
pub open spec fn score_pre(
    t: Triangle,
    base: &Canvas,
    reference: &Canvas,
    threshold: u32,
) -> bool {
    &&& base.wf()
    &&& reference.wf()
    &&& base.spec_size() == reference.spec_size()
    &&& vertex_in_canvas(t.v0, base.spec_size())
    &&& vertex_in_canvas(t.v1, base.spec_size())
    &&& vertex_in_canvas(t.v2, base.spec_size())
    &&& match t.opacity {
        Some(a) => a <= OPACITY_SCALE,
        None => true,
    }
    &&& threshold <= MAX_DEGENERACY_THRESHOLD
}

/// The score of one candidate: the minimum representable fitness — a
/// hard-reject sentinel — when the degeneracy filter is enabled and rejects
/// it, else the fitness of the candidate rendered onto a private copy of the
/// base canvas.
pub open spec fn score_spec(
    t: Triangle,
    base: Seq<u8>,
    refb: Seq<u8>,
    size: u32,
    alg: FitnessAlgorithm,
    threshold: u32,
) -> int {
    if threshold > 0 && degenerate_spec(t, threshold) {
        i64::MIN as int
    } else {
        fitness_spec(draw_spec(base, size, t), refb, size, alg)
    }
}

/// Scores one candidate against the reference on top of the base canvas.
pub fn score_one(
    t: &Triangle,
    base: &Canvas,
    reference: &Canvas,
    alg: FitnessAlgorithm,
    threshold: u32,
) -> (r: i64)
    requires
        score_pre(*t, base, reference, threshold),
    ensures
        r as int == score_spec(
            *t,
            base.spec_bytes(),
            reference.spec_bytes(),
            base.spec_size(),
            alg,
            threshold,
        ),
        !(threshold > 0 && degenerate_spec(*t, threshold)) ==> r > i64::MIN,
{
    if threshold > 0 && is_degenerate(t, threshold) {
        i64::MIN
    } else {
        let mut working = base.duplicate();
        draw_triangle_onto_canvas(&mut working, t);
        fitness_of(&working, reference, alg)
    }
}

/// The scores of a whole population, in population order.
pub open spec fn scores_spec(
    pop: Seq<Triangle>,
    base: Seq<u8>,
    refb: Seq<u8>,
    size: u32,
    alg: FitnessAlgorithm,
    threshold: u32,
) -> Seq<i64> {
    Seq::new(pop.len(), |i: int| score_spec(pop[i], base, refb, size, alg, threshold) as i64)
}

/// Relies on rayon's parallel iterator `map` and `collect` on a vector: the
/// result holds one element per input element, at the input's index, each
/// the value of the mapped function on that element; only the schedule is
/// parallel. Every worker scores its candidate on a private copy of the
/// canvas.
#[verifier::external_body]
fn par_scores(
    population: &Vec<Triangle>,
    base: &Canvas,
    reference: &Canvas,
    alg: FitnessAlgorithm,
    threshold: u32,
) -> (r: Vec<i64>)
    requires
        forall|i: int|
            0 <= i < population@.len() ==> score_pre(population@[i], base, reference, threshold),
    ensures
        r@.len() == population@.len(),
        forall|i: int|
            0 <= i < population@.len() ==> r@[i] as int == score_spec(
                population@[i],
                base.spec_bytes(),
                reference.spec_bytes(),
                base.spec_size(),
                alg,
                threshold,
            ),
{
    population.par_iter().map(|t| score_one(t, base, reference, alg, threshold)).collect()
}

/// Scores every candidate of the population in parallel; the output order
/// matches the population order regardless of completion order.
pub fn evaluate_fitness_batch(
    population: &Vec<Triangle>,
    canvas_image: &Canvas,
    reference_image: &Canvas,
    alg: FitnessAlgorithm,
    threshold: u32,
) -> (r: Vec<i64>)
    requires
        forall|i: int|
            0 <= i < population@.len() ==> score_pre(
                population@[i],
                canvas_image,
                reference_image,
                threshold,
            ),
    ensures
        r@.len() == population@.len(),
        r@ == scores_spec(
            population@,
            canvas_image.spec_bytes(),
            reference_image.spec_bytes(),
            canvas_image.spec_size(),
            alg,
            threshold,
        ),
{
    let r = par_scores(population, canvas_image, reference_image, alg, threshold);
    proof {
        assert(r@ =~= scores_spec(
            population@,
            canvas_image.spec_bytes(),
            reference_image.spec_bytes(),
            canvas_image.spec_size(),
            alg,
            threshold,
        ));
    }
    r
}

} // verus!
