//! The library's stated laws: determinism of the whole run, the selection
//! invariant, degeneracy filtering, reproducibility of the genetic
//! operators, and prefix determinism across different run lengths. Each is
//! proved against the same specification functions that the executable
//! functions' contracts are stated over.

use vstd::prelude::*;
use crate::engine::{RunSt, run_at, run_gens, search_at, search_init, search_step, threshold_of};
use crate::fitness::{
    MAX_SQ_DIFF, SSIM_ONE, lemma_mse_sum_bounds, lemma_ssim_sum_bounds, score_spec,
    scores_spec,
};
use crate::genetic::{
    argmax_upto, lemma_argmax_props, lemma_ranked_indices_props, ranked_indices, rank_before,
    reproduce_spec, select_spec,
};
use crate::geometry::{degenerate_spec, edge_sq};
use crate::params::{AlgorithmParams, FitnessAlgorithm, MAX_IMAGE_SIZE};
use crate::triangle::Triangle;

verus! {

/// Determinism: the committed state of a run is a function of the reference
/// image, the parameters and the seed alone. Two runs over the same inputs,
/// cut at the same point, hold byte-identical canvases and identical
/// committed triangle sequences. (The executable run returns exactly
/// `run_gens(run_at(..))` at its cut, so this covers whole uncancelled runs
/// cut at the configured triangle count.)
pub proof fn lemma_run_deterministic(
    refb: Seq<u8>,
    p: AlgorithmParams,
    seed: u64,
    k: nat,
    g: nat,
    out1: RunSt,
    out2: RunSt,
)
    requires
        out1 == run_gens(run_at(refb, p, seed, k), refb, p, seed, g),
        out2 == run_gens(run_at(refb, p, seed, k), refb, p, seed, g),
    ensures
        out1.canvas == out2.canvas,
        out1.doc == out2.doc,
{
}

/// Reproducibility of the genetic operators: identical parent populations
/// and an identical sub-seed yield the identical crossover-then-mutate
/// offspring, in any two reproduction events.
pub proof fn lemma_reproduce_deterministic(
    parents1: Seq<Triangle>,
    parents2: Seq<Triangle>,
    size: u32,
    rate: u32,
    wseed1: u64,
    wseed2: u64,
)
    requires
        parents1 == parents2,
        wseed1 == wseed2,
    ensures
        reproduce_spec(parents1, size, rate, wseed1) == reproduce_spec(parents2, size, rate, wseed2),
{
}

/// The selection invariant: selection returns exactly `min(k, n)`
/// individuals — the front of the unique ranked order — and every kept
/// fitness is at least every discarded fitness.
pub proof fn lemma_selection_invariant(pop: Seq<Triangle>, scores: Seq<i64>, k: nat)
    requires
        pop.len() == scores.len(),
    ensures
        select_spec(pop, scores, k).len() == (if k <= pop.len() {
            k
        } else {
            pop.len()
        }),
        forall|p: int|
            0 <= p < select_spec(pop, scores, k).len() ==> #[trigger] select_spec(pop, scores, k)[p]
                == pop[ranked_indices(scores, scores.len())[p]],
        forall|p: int, q: int|
            0 <= p < select_spec(pop, scores, k).len() <= q < scores.len() ==> scores[ranked_indices(
                scores,
                scores.len(),
            )[p]] >= scores[ranked_indices(scores, scores.len())[q]],
        forall|j: int| 0 <= j < scores.len() ==> ranked_indices(scores, scores.len()).contains(j),
{
    let n = scores.len();
    let order = ranked_indices(scores, n);
    lemma_ranked_indices_props(scores, n);
    assert forall|p: int, q: int|
        0 <= p < select_spec(pop, scores, k).len() <= q < n implies scores[order[p]]
        >= scores[order[q]] by {
        assert(rank_before(scores, order[p], order[q]));
    }
}

/// A triangle with two coincident vertices has a zero squared edge, so one
/// of its angles is undefined and it is classified degenerate for any
/// threshold.
pub proof fn lemma_coincident_degenerate(t: Triangle, threshold: u32)
    requires
        t.v0 == t.v1 || t.v1 == t.v2 || t.v2 == t.v0,
    ensures
        degenerate_spec(t, threshold),
{
    if t.v0 == t.v1 {
        assert(edge_sq(t.v0, t.v1) == 0);
        assert(4 * (edge_sq(t.v2, t.v0) * edge_sq(t.v0, t.v1)) == 0) by (nonlinear_arith)
            requires
                edge_sq(t.v0, t.v1) == 0,
        ;
    } else if t.v1 == t.v2 {
        assert(edge_sq(t.v1, t.v2) == 0);
        assert(4 * (edge_sq(t.v1, t.v2) * edge_sq(t.v2, t.v0)) == 0) by (nonlinear_arith)
            requires
                edge_sq(t.v1, t.v2) == 0,
        ;
    } else {
        assert(edge_sq(t.v2, t.v0) == 0);
        assert(4 * (edge_sq(t.v1, t.v2) * edge_sq(t.v2, t.v0)) == 0) by (nonlinear_arith)
            requires
                edge_sq(t.v2, t.v0) == 0,
        ;
    }
}

/// Every candidate's score is representable, and the hard-reject sentinel is
/// reserved: a candidate the filter does not reject scores strictly above
/// the minimum representable fitness.
pub proof fn lemma_score_spec_bounds(
    t: Triangle,
    base: Seq<u8>,
    refb: Seq<u8>,
    size: u32,
    alg: FitnessAlgorithm,
    threshold: u32,
)
    requires
        1 <= size <= MAX_IMAGE_SIZE,
        base.len() == 3 * (size as nat) * (size as nat),
    ensures
        i64::MIN <= score_spec(t, base, refb, size, alg, threshold) <= i64::MAX,
        !(threshold > 0 && degenerate_spec(t, threshold)) ==> score_spec(
            t,
            base,
            refb,
            size,
            alg,
            threshold,
        ) > i64::MIN,
{
    if threshold > 0 && degenerate_spec(t, threshold) {
    } else {
        let c = crate::canvas::draw_spec(base, size, t);
        assert(c.len() == base.len());
        assert(3 * (size as int) * (size as int) <= 3 * (MAX_IMAGE_SIZE as int) * (
        MAX_IMAGE_SIZE as int) && (size as int) * (size as int) <= (MAX_IMAGE_SIZE as int) * (
        MAX_IMAGE_SIZE as int)) by (nonlinear_arith)
            requires
                1 <= size <= MAX_IMAGE_SIZE,
        ;
        match alg {
            FitnessAlgorithm::Mse => {
                lemma_mse_sum_bounds(c, refb, c.len());
                assert((MAX_SQ_DIFF as int) * c.len() <= (MAX_SQ_DIFF as int) * (3 * (
                MAX_IMAGE_SIZE as int) * (MAX_IMAGE_SIZE as int))) by (nonlinear_arith)
                    requires
                        0 <= c.len() <= 3 * (MAX_IMAGE_SIZE as int) * (MAX_IMAGE_SIZE as int),
                ;
            },
            FitnessAlgorithm::SimplifiedPerPixelSsim => {
                let pc = (size as nat) * (size as nat);
                lemma_ssim_sum_bounds(c, refb, pc);
                assert((SSIM_ONE as int) * pc <= (SSIM_ONE as int) * ((MAX_IMAGE_SIZE as int) * (
                MAX_IMAGE_SIZE as int)) && -((SSIM_ONE as int) * pc) >= -((SSIM_ONE as int) * ((
                MAX_IMAGE_SIZE as int) * (MAX_IMAGE_SIZE as int)))) by (nonlinear_arith)
                    requires
                        0 <= pc <= (MAX_IMAGE_SIZE as int) * (MAX_IMAGE_SIZE as int),
                ;
            },
        }
    }
}

/// Degeneracy filtering at work: with the filter on, the generation's best
/// — the stable argmax of the scores — is never a degenerate candidate as
/// long as at least one candidate of the population is not degenerate.
pub proof fn lemma_degenerate_never_best(
    pop: Seq<Triangle>,
    canvas: Seq<u8>,
    refb: Seq<u8>,
    p: AlgorithmParams,
    w: int,
)
    requires
        1 <= p.image_size <= MAX_IMAGE_SIZE,
        canvas.len() == 3 * (p.image_size as nat) * (p.image_size as nat),
        threshold_of(p) > 0,
        pop.len() >= 1,
        0 <= w < pop.len(),
        !degenerate_spec(pop[w], threshold_of(p)),
    ensures
        !degenerate_spec(
            pop[argmax_upto(
                scores_spec(pop, canvas, refb, p.image_size, p.fitness_algorithm, threshold_of(p)),
                pop.len(),
            )],
            threshold_of(p),
        ),
{
    let thr = threshold_of(p);
    let scores = scores_spec(pop, canvas, refb, p.image_size, p.fitness_algorithm, thr);
    let bi = argmax_upto(scores, pop.len());
    lemma_argmax_props(scores, pop.len());
    lemma_score_spec_bounds(pop[w], canvas, refb, p.image_size, p.fitness_algorithm, thr);
    assert(scores[w] as int == score_spec(pop[w], canvas, refb, p.image_size, p.fitness_algorithm, thr));
    assert(scores[w] > i64::MIN);
    assert(scores[bi] >= scores[w]);
    if degenerate_spec(pop[bi], thr) {
        assert(scores[bi] as int == score_spec(
            pop[bi],
            canvas,
            refb,
            p.image_size,
            p.fitness_algorithm,
            thr,
        ));
        assert(scores[bi] == i64::MIN);
    }
}

/// Two configurations that differ at most in how many triangles the run
/// commits; everything the per-triangle search reads is equal.
pub open spec fn same_search_params(p1: AlgorithmParams, p2: AlgorithmParams) -> bool {
    &&& p1.image_size == p2.image_size
    &&& p1.num_generations == p2.num_generations
    &&& p1.population_size == p2.population_size
    &&& p1.num_selected == p2.num_selected
    &&& p1.mutation_rate == p2.mutation_rate
    &&& p1.degeneracy_threshold == p2.degeneracy_threshold
    &&& p1.fitness_algorithm == p2.fitness_algorithm
    &&& p1.use_opacity == p2.use_opacity
}

/// The search never reads the configured triangle count: configurations that
/// agree on everything else produce the same search states.
pub proof fn lemma_search_at_congruent(
    canvas: Seq<u8>,
    refb: Seq<u8>,
    p1: AlgorithmParams,
    p2: AlgorithmParams,
    seed: u64,
    idx0: nat,
    g: nat,
)
    requires
        same_search_params(p1, p2),
    ensures
        search_at(canvas, refb, p1, seed, idx0, g) == search_at(canvas, refb, p2, seed, idx0, g),
    decreases g,
{
    if g == 0 {
        assert(search_init(p1, seed, idx0) == search_init(p2, seed, idx0));
    } else {
        lemma_search_at_congruent(canvas, refb, p1, p2, seed, idx0, (g - 1) as nat);
        let st = search_at(canvas, refb, p1, seed, idx0, (g - 1) as nat);
        assert(threshold_of(p1) == threshold_of(p2));
        assert(search_step(st, canvas, refb, p1, seed) == search_step(st, canvas, refb, p2, seed));
    }
}

/// Neither does the committed run state up to a common cut: the first `t`
/// committed triangles agree.
pub proof fn lemma_run_at_congruent(
    refb: Seq<u8>,
    p1: AlgorithmParams,
    p2: AlgorithmParams,
    seed: u64,
    t: nat,
)
    requires
        same_search_params(p1, p2),
    ensures
        run_at(refb, p1, seed, t) == run_at(refb, p2, seed, t),
    decreases t,
{
    if t > 0 {
        lemma_run_at_congruent(refb, p1, p2, seed, (t - 1) as nat);
        let st = run_at(refb, p1, seed, (t - 1) as nat);
        lemma_search_at_congruent(
            st.canvas,
            refb,
            p1,
            p2,
            seed,
            st.idx,
            p1.num_generations as nat,
        );
    }
}

/// Each committed triangle extends the document: the polygons after `t`
/// triangles are a prefix of the polygons after any later cut.
pub proof fn lemma_doc_monotone(refb: Seq<u8>, p: AlgorithmParams, seed: u64, t1: nat, t2: nat)
    requires
        t1 <= t2,
    ensures
        run_at(refb, p, seed, t1).doc.is_prefix_of(run_at(refb, p, seed, t2).doc),
    decreases t2 - t1,
{
    if t1 < t2 {
        lemma_doc_monotone(refb, p, seed, t1, (t2 - 1) as nat);
        let prev = run_at(refb, p, seed, (t2 - 1) as nat);
        let s = search_at(prev.canvas, refb, p, seed, prev.idx, p.num_generations as nat);
        match s.best {
            None => {
                assert(run_at(refb, p, seed, t2).doc == prev.doc);
            },
            Some(b) => {
                assert(run_at(refb, p, seed, t2).doc == prev.doc.push(b.0));
                assert(prev.doc.is_prefix_of(prev.doc.push(b.0)));
            },
        }
    }
}

/// Prefix determinism: two runs with an identical seed and identical
/// parameters except that the second commits one more triangle produce
/// identical first-`N` committed triangles — the shorter run's document is a
/// prefix of the longer one's.
pub proof fn lemma_prefix_determinism(
    refb: Seq<u8>,
    p1: AlgorithmParams,
    p2: AlgorithmParams,
    seed: u64,
)
    requires
        same_search_params(p1, p2),
        p2.num_triangles == p1.num_triangles + 1,
    ensures
        run_at(refb, p1, seed, p1.num_triangles as nat).doc.is_prefix_of(
            run_at(refb, p2, seed, p2.num_triangles as nat).doc,
        ),
        run_at(refb, p1, seed, p1.num_triangles as nat).doc == run_at(
            refb,
            p2,
            seed,
            p1.num_triangles as nat,
        ).doc,
{
    lemma_run_at_congruent(refb, p1, p2, seed, p1.num_triangles as nat);
    lemma_doc_monotone(refb, p2, seed, p1.num_triangles as nat, p2.num_triangles as nat);
}

} // verus!
