//! The degeneracy filter. A candidate triangle is degenerate when one of its
//! interior angles, derived from the squared edge lengths by the law of
//! cosines, is at or below the configured threshold — or when an angle is
//! undefined because two vertices coincide, which is deliberately classified
//! degenerate rather than left to an unstable numeric comparison.
//!
//! All arithmetic is exact: the angle comparison `angle <= t` is decided as
//! `cos(angle) >= cos(t)` on squared integer quantities, with `cos(t)` a
//! fixed-point truncated series evaluated in integers.

use vstd::prelude::*;
use crate::params::MAX_IMAGE_SIZE;
use crate::triangle::{Triangle, Vertex};

verus! {

/// Fixed-point scale of a cosine of exactly one.
pub const COS_ONE: i64 = 1073741824;

/// Fixed-point radians per thousandth of a degree: `COS_ONE * pi / 180000`,
/// rounded.
pub const RAD_FP_PER_MILLIDEG: u64 = 18740;

/// The `k`-th term of the cosine series `x^(2k) / (2k)!` in fixed point,
/// computed by the recurrence `t_k = t_(k-1) * q^2 / ((2k-1) * 2k * S^2)`
/// with integer division at each step, and a defensive cap at twice the
/// scale (which the true terms never reach for a quarter turn).
pub open spec fn cos_term(q: int, k: nat) -> int
    decreases k,
{
    if k == 0 {
        COS_ONE as int
    } else {
        let prev = cos_term(q, (k - 1) as nat);
        let raw = prev * q * q / (((2 * k - 1) * (2 * k)) * (1073741824 * 1073741824));
        if raw > 2147483648 {
            2147483648
        } else {
            raw
        }
    }
}

/// The alternating sum of the first `n` series terms.
pub open spec fn cos_partial(q: int, n: nat) -> int
    decreases n,
{
    if n == 0 {
        0
    } else {
        let t = cos_term(q, (n - 1) as nat);
        cos_partial(q, (n - 1) as nat) + (if (n - 1) % 2 == 0 {
            t
        } else {
            -t
        })
    }
}

/// Fixed-point cosine of an angle in `[0, 90]` degrees, given in thousandths
/// of a degree: eight series terms, clamped into `[-COS_ONE, COS_ONE]`.
pub open spec fn cos_fp_half(m: int) -> int {
    let q = m * (RAD_FP_PER_MILLIDEG as int);
    let s = cos_partial(q, 8);
    if s > COS_ONE {
        COS_ONE as int
    } else if s < -(COS_ONE as int) {
        -(COS_ONE as int)
    } else {
        s
    }
}

/// Fixed-point cosine of an angle in `[0, 180]` degrees, given in
/// thousandths of a degree, by the half-turn symmetry of the cosine.
pub open spec fn cos_fp(m: int) -> int {
    if m <= 90000 {
        cos_fp_half(m)
    } else {
        -cos_fp_half(180000 - m)
    }
}

pub proof fn lemma_cos_fp_bounds(m: int)
    ensures
        -(COS_ONE as int) <= cos_fp(m) <= COS_ONE as int,
{
}

/// The squared distance of two vertices.
pub open spec fn edge_sq(a: Vertex, b: Vertex) -> int {
    (a.x - b.x) * (a.x - b.x) + (a.y - b.y) * (a.y - b.y)
}

/// Whether the interior angle with cosine `u / sqrt(dd)` is at most the
/// angle whose fixed-point cosine is `c`: the comparison `cos(angle) >=
/// cos(t)`, squared to stay in integers, with the signs handled apart.
/// `u` is the law-of-cosines numerator, `dd = 4 * e1 * e2` the square of its
/// denominator, assumed non-zero.
pub open spec fn angle_at_most(u: int, dd: int, c: int) -> bool {
    if u >= 0 {
        c <= 0 || (u * u) * (1073741824 * 1073741824) >= (c * c) * dd
    } else {
        c < 0 && (u * u) * (1073741824 * 1073741824) <= (c * c) * dd
    }
}

/// One angle of the filter: an undefined angle (a zero denominator, from two
/// coincident vertices) counts as degenerate.
pub open spec fn angle_check(u: int, dd: int, c: int) -> bool {
    dd == 0 || angle_at_most(u, dd, c)
}

/// Whether a triangle is degenerate for the given threshold in thousandths
/// of a degree: some interior angle at most the threshold, or undefined.
pub open spec fn degenerate_spec(t: Triangle, threshold: u32) -> bool {
    let ab = edge_sq(t.v0, t.v1);
    let bc = edge_sq(t.v1, t.v2);
    let ca = edge_sq(t.v2, t.v0);
    let c = cos_fp(threshold as int);
    ||| angle_check(bc + ca - ab, 4 * (bc * ca), c)
    ||| angle_check(ca + ab - bc, 4 * (ca * ab), c)
    ||| angle_check(ab + bc - ca, 4 * (ab * bc), c)
}

/// Executable fixed-point cosine over a quarter turn.
fn cos_half_exec(m: u32) -> (r: i64)
    requires
        m <= 90000,
    ensures
        r == cos_fp_half(m as int),
        -(COS_ONE as int) <= r <= COS_ONE as int,
{
    let q: u64 = (m as u64) * RAD_FP_PER_MILLIDEG;
    let mut acc: i64 = COS_ONE;
    let mut cur: u64 = COS_ONE as u64;
    let mut k: u64 = 1;
    proof {
        assert(cos_partial(q as int, 0) == 0);
        assert(cos_term(q as int, 0) == COS_ONE as int);
        assert(cos_partial(q as int, 1) == COS_ONE as int);
    }
    while k < 8
        invariant
            1 <= k <= 8,
            q == (m as int) * (RAD_FP_PER_MILLIDEG as int),
            q <= 1686600000,
            cur == cos_term(q as int, (k - 1) as nat),
            0 <= cur <= 2147483648,
            acc == cos_partial(q as int, k as nat),
            -(1073741824 + 2147483648 * ((k - 1) as int)) <= acc <= 1073741824 + 2147483648 * ((k
                - 1) as int),
        decreases 8 - k,
    {
        proof {
            assert((cur as int) * (q as int) <= 2147483648 * 1686600000 && 0 <= (cur as int) * (
            q as int)) by (nonlinear_arith)
                requires
                    0 <= cur <= 2147483648,
                    0 <= q <= 1686600000,
            ;
            assert(((cur as int) * (q as int)) * (q as int) <= (2147483648 * 1686600000)
                * 1686600000 && 0 <= ((cur as int) * (q as int)) * (q as int))
                by (nonlinear_arith)
                requires
                    0 <= (cur as int) * (q as int) <= 2147483648 * 1686600000,
                    0 <= q <= 1686600000,
            ;
        }
        let num: u128 = ((cur as u128) * (q as u128)) * (q as u128);
        proof {
            assert(2 <= (2 * (k as int) - 1) * (2 * (k as int)) <= 240) by (nonlinear_arith)
                requires
                    1 <= k <= 8,
            ;
        }
        let kk: u64 = (2 * k - 1) * (2 * k);
        proof {
            assert(2 * (1073741824 * 1073741824) <= (kk as int) * (1073741824 * 1073741824) && (
            kk as int) * (1073741824 * 1073741824) <= 240 * (1073741824 * 1073741824))
                by (nonlinear_arith)
                requires
                    2 <= kk <= 240,
            ;
        }
        let den: u128 = (kk as u128) * (1073741824u128 * 1073741824u128);
        let raw: u128 = num / den;
        let capped: u64 = if raw > 2147483648 {
            2147483648
        } else {
            raw as u64
        };
        proof {
            assert(capped == cos_term(q as int, k as nat));
        }
        cur = capped;
        let signed: i64 = cur as i64;
        if k % 2 == 0 {
            acc = acc + signed;
        } else {
            acc = acc - signed;
        }
        k += 1;
        proof {
            assert(acc == cos_partial(q as int, k as nat));
        }
    }
    if acc > COS_ONE {
        COS_ONE
    } else if acc < -COS_ONE {
        -COS_ONE
    } else {
        acc
    }
}

/// Executable fixed-point cosine over a half turn.
pub fn cos_fp_exec(m: u32) -> (r: i64)
    requires
        m <= 180000,
    ensures
        r == cos_fp(m as int),
        -(COS_ONE as int) <= r <= COS_ONE as int,
{
    if m <= 90000 {
        cos_half_exec(m)
    } else {
        -cos_half_exec(180000 - m)
    }
}

/// One executable angle check of the filter.
fn angle_check_exec(u: i64, dd: i64, c: i64) -> (r: bool)
    requires
        -1073741824 <= u <= 1073741824,
        0 <= dd <= 0x100_0000_0000_0000,
        -(COS_ONE as int) <= c <= COS_ONE as int,
    ensures
        r == angle_check(u as int, dd as int, c as int),
{
    if dd == 0 {
        return true;
    }
    let ua: u64 = if u >= 0 {
        u as u64
    } else {
        (-u) as u64
    };
    proof {
        assert((ua as int) * (ua as int) <= 1073741824 * 1073741824) by (nonlinear_arith)
            requires
                0 <= ua <= 1073741824,
        ;
        assert((u as int) * (u as int) == (ua as int) * (ua as int)) by (nonlinear_arith)
            requires
                ua == (if u >= 0 {
                    u as int
                } else {
                    -(u as int)
                }),
        ;
        assert((c as int) * (c as int) <= 1073741824 * 1073741824 && 0 <= (c as int) * (c as int))
            by (nonlinear_arith)
            requires
                -1073741824 <= c <= 1073741824,
        ;
    }
    let uu: u128 = (ua as u128) * (ua as u128);
    let lhs: u128 = uu * (1073741824u128 * 1073741824u128);
    proof {
        assert(uu * (1073741824 * 1073741824) <= (1073741824 * 1073741824) * (1073741824
            * 1073741824)) by (nonlinear_arith)
            requires
                0 <= uu <= 1073741824 * 1073741824,
        ;
    }
    let cc: u128 = ((c as i128) * (c as i128)) as u128;
    proof {
        assert(cc * (dd as int) <= (1073741824 * 1073741824) * 0x100_0000_0000_0000)
            by (nonlinear_arith)
            requires
                0 <= cc <= 1073741824 * 1073741824,
                0 <= dd <= 0x100_0000_0000_0000,
        ;
    }
    let rhs: u128 = cc * (dd as u128);
    proof {
        assert(lhs == ((u as int) * (u as int)) * (1073741824 * 1073741824));
        assert(rhs == ((c as int) * (c as int)) * (dd as int));
    }
    if u >= 0 {
        c <= 0 || lhs >= rhs
    } else {
        c < 0 && lhs <= rhs
    }
}

/// Whether the triangle is degenerate for the given threshold in thousandths
/// of a degree. Callers disable the filter for a zero threshold themselves;
/// this classification is total and deterministic for any threshold.
pub fn is_degenerate(triangle: &Triangle, threshold: u32) -> (r: bool)
    requires
        threshold <= 180000,
        -(MAX_IMAGE_SIZE as int) <= triangle.v0.x <= MAX_IMAGE_SIZE,
        -(MAX_IMAGE_SIZE as int) <= triangle.v0.y <= MAX_IMAGE_SIZE,
        -(MAX_IMAGE_SIZE as int) <= triangle.v1.x <= MAX_IMAGE_SIZE,
        -(MAX_IMAGE_SIZE as int) <= triangle.v1.y <= MAX_IMAGE_SIZE,
        -(MAX_IMAGE_SIZE as int) <= triangle.v2.x <= MAX_IMAGE_SIZE,
        -(MAX_IMAGE_SIZE as int) <= triangle.v2.y <= MAX_IMAGE_SIZE,
    ensures
        r == degenerate_spec(*triangle, threshold),
{
    let ab: i64 = edge_sq_exec(&triangle.v0, &triangle.v1);
    let bc: i64 = edge_sq_exec(&triangle.v1, &triangle.v2);
    let ca: i64 = edge_sq_exec(&triangle.v2, &triangle.v0);
    let c: i64 = cos_fp_exec(threshold);
    proof {
        assert(4 * ((bc as int) * (ca as int)) <= 0x100_0000_0000_0000 && 0 <= 4 * ((bc as int) * (
        ca as int)) && 4 * ((ca as int) * (ab as int)) <= 0x100_0000_0000_0000 && 0 <= 4 * ((
        ca as int) * (ab as int)) && 4 * ((ab as int) * (bc as int)) <= 0x100_0000_0000_0000 && 0
            <= 4 * ((ab as int) * (bc as int))) by (nonlinear_arith)
            requires
                0 <= ab <= 134217728,
                0 <= bc <= 134217728,
                0 <= ca <= 134217728,
        ;
    }
    let d0: i64 = 4 * (bc * ca);
    let d1: i64 = 4 * (ca * ab);
    let d2: i64 = 4 * (ab * bc);
    angle_check_exec(bc + ca - ab, d0, c) || angle_check_exec(ca + ab - bc, d1, c)
        || angle_check_exec(ab + bc - ca, d2, c)
}

/// The squared distance of two vertices with coordinates within the largest
/// canvas.
fn edge_sq_exec(a: &Vertex, b: &Vertex) -> (r: i64)
    requires
        -(MAX_IMAGE_SIZE as int) <= a.x <= MAX_IMAGE_SIZE,
        -(MAX_IMAGE_SIZE as int) <= a.y <= MAX_IMAGE_SIZE,
        -(MAX_IMAGE_SIZE as int) <= b.x <= MAX_IMAGE_SIZE,
        -(MAX_IMAGE_SIZE as int) <= b.y <= MAX_IMAGE_SIZE,
    ensures
        r == edge_sq(*a, *b),
        0 <= r <= 134217728,
{
    let dx: i64 = (a.x as i64) - (b.x as i64);
    let dy: i64 = (a.y as i64) - (b.y as i64);
    proof {
        assert(0 <= dx * dx <= 67108864 && 0 <= dy * dy <= 67108864) by (nonlinear_arith)
            requires
                -8192 <= dx <= 8192,
                -8192 <= dy <= 8192,
        ;
    }
    dx * dx + dy * dy
}

} // verus!
