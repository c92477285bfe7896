//! The optimizer: the outer control loop. For each triangle it builds a
//! fresh population, runs the generational search — parallel scoring,
//! selection, reproduction — tracks the per-triangle best, and commits the
//! winner to the canvas and the vector document. It publishes progress for
//! external observers and honors cooperative cancellation, polled before
//! each triangle and before each generation; once a cancellation is
//! observed, no further generation starts and no further triangle is
//! committed.
//!
//! The whole run is specified as a function of the seed, the parameters and
//! the reference image: `run_at` folds `run_gens` over the committed
//! triangles, and the control loop is proved to return exactly that state
//! (cut short by at most one partially searched triangle when cancelled).

use vstd::prelude::*;
use crate::canvas::{Canvas, blank_bytes, draw_spec, draw_triangle_onto_canvas};
use crate::fitness::{evaluate_fitness_batch, scores_spec};
use crate::genetic::{
    argmax_upto, best_index, generate_initial_population, generate_new_population,
    initial_pop_spec, offspring_spec, select_population, select_spec,
};
use crate::params::{AlgorithmParams, StartError, params_valid};
use crate::rng::WordStream;
use crate::triangle::{Triangle, tri_sane};

verus! {

/// The observable state of a run, published by the optimizer and polled by
/// an external observer.
#[derive(Clone, Debug)]
pub struct Progress {
    /// Index of the triangle currently searched for.
    pub triangle_index: usize,
    /// Index of the generation currently searched within that triangle.
    pub generation_index: usize,
    /// Whether a run is underway.
    pub is_running: bool,
    /// Whether the run has reached its terminal state.
    pub is_complete: bool,
    /// The best fitness seen within the current triangle's search.
    pub current_fitness: i64,
    /// Whether cancellation was requested of this run.
    pub should_stop: bool,
    /// The current generation's population, for a live preview.
    pub current_generation: Vec<Triangle>,
}

impl Default for Progress {
    /// The idle state: nothing running, nothing complete, the minimum
    /// fitness, an empty generation.
    fn default() -> (r: Self)
        ensures
            r.triangle_index == 0,
            r.generation_index == 0,
            !r.is_running,
            !r.is_complete,
            r.current_fitness == i64::MIN,
            !r.should_stop,
            r.current_generation@.len() == 0,
    {
        Progress {
            triangle_index: 0,
            generation_index: 0,
            is_running: false,
            is_complete: false,
            current_fitness: i64::MIN,
            should_stop: false,
            current_generation: Vec::new(),
        }
    }
}

/// The vector document: one background rectangle covering the canvas,
/// followed by one polygon record per committed triangle, in commit order.
#[derive(Clone, Debug, PartialEq, Eq)]
pub struct VectorDocument {
    width: u32,
    height: u32,
    polygons: Vec<Triangle>,
}

impl VectorDocument {
    /// The document's width.
    pub closed spec fn spec_width(&self) -> u32 {
        self.width
    }

    /// The document's height.
    pub closed spec fn spec_height(&self) -> u32 {
        self.height
    }

    /// The committed polygons, in commit order.
    pub closed spec fn spec_polygons(&self) -> Seq<Triangle> {
        self.polygons@
    }

    /// A fresh document: the background rectangle and no polygons yet.
    pub fn new(width: u32, height: u32) -> (r: VectorDocument)
        ensures
            r.spec_width() == width,
            r.spec_height() == height,
            r.spec_polygons() == Seq::<Triangle>::empty(),
    {
        let r = VectorDocument { width, height, polygons: Vec::new() };
        proof {
            assert(r.spec_polygons() =~= Seq::<Triangle>::empty());
        }
        r
    }

    /// Appends one committed triangle's polygon record.
    pub fn add_triangle(&mut self, t: &Triangle)
        ensures
            final(self).spec_width() == old(self).spec_width(),
            final(self).spec_height() == old(self).spec_height(),
            final(self).spec_polygons() == old(self).spec_polygons().push(*t),
    {
        self.polygons.push(*t);
    }

    /// The document's width.
    pub fn width(&self) -> (r: u32)
        ensures
            r == self.spec_width(),
    {
        self.width
    }

    /// The document's height.
    pub fn height(&self) -> (r: u32)
        ensures
            r == self.spec_height(),
    {
        self.height
    }

    /// How many polygons have been committed.
    pub fn polygon_count(&self) -> (r: usize)
        ensures
            r == self.spec_polygons().len(),
    {
        self.polygons.len()
    }

    /// One committed polygon.
    pub fn polygon_at(&self, i: usize) -> (r: Triangle)
        requires
            i < self.spec_polygons().len(),
        ensures
            r == self.spec_polygons()[i as int],
    {
        self.polygons[i]
    }

    /// The total record count: the background rectangle plus one record per
    /// committed polygon.
    pub fn record_count(&self) -> (r: usize)
        requires
            self.spec_polygons().len() < usize::MAX,
        ensures
            r == self.spec_polygons().len() + 1,
    {
        self.polygons.len() + 1
    }
}

/// The cancellation signal: a boolean an external controller may set at any
/// time, shared with the running optimizer.
pub struct CancelFlag {
    inner: std::sync::Arc<std::sync::atomic::AtomicBool>,
}

impl CancelFlag {
    /// Relies on std's `Arc::new` and `AtomicBool::new`: a fresh, unset
    /// shared flag.
    #[verifier::external_body]
    pub fn new() -> CancelFlag {
        CancelFlag {
            inner: std::sync::Arc::new(std::sync::atomic::AtomicBool::new(false)),
        }
    }

    /// Relies on std's `Arc::clone`: another handle to the same flag.
    #[verifier::external_body]
    pub fn clone_handle(&self) -> CancelFlag {
        CancelFlag { inner: std::sync::Arc::clone(&self.inner) }
    }

    /// Relies on std's `AtomicBool::store`: requests cancellation.
    #[verifier::external_body]
    pub fn request_stop(&self) {
        self.inner.store(true, std::sync::atomic::Ordering::SeqCst);
    }

    /// Relies on std's `AtomicBool::load`: polls the flag. Another thread
    /// may change it at any time, so nothing is promised of the value.
    #[verifier::external_body]
    pub fn is_set(&self) -> bool {
        self.inner.load(std::sync::atomic::Ordering::SeqCst)
    }

    /// Relies on std's `AtomicBool::store`: clears the flag. The optimizer
    /// clears it when a run ends, so a request does not outlive its run.
    #[verifier::external_body]
    pub fn reset(&self) {
        self.inner.store(false, std::sync::atomic::Ordering::SeqCst);
    }
}

#[verifier::external_type_specification]
#[verifier::external_body]
#[verifier::reject_recursive_types(T)]
pub struct ExMutex<T: ?Sized>(std::sync::Mutex<T>);

/// The optimizer's observable shared state: a progress record and the latest
/// canvas and document snapshots, each behind its own short-held lock,
/// written only by the optimizer and copied out by observers.
pub struct ProgressMonitor {
    progress: std::sync::Arc<std::sync::Mutex<Progress>>,
    canvas: std::sync::Arc<std::sync::Mutex<Option<Canvas>>>,
    document: std::sync::Arc<std::sync::Mutex<Option<VectorDocument>>>,
}

impl ProgressMonitor {
    /// Relies on std's `Arc::new` and `Mutex::new`: fresh shared cells, the
    /// progress idle, no snapshots yet.
    #[verifier::external_body]
    pub fn new() -> ProgressMonitor {
        ProgressMonitor {
            progress: std::sync::Arc::new(std::sync::Mutex::new(Progress::default())),
            canvas: std::sync::Arc::new(std::sync::Mutex::new(None)),
            document: std::sync::Arc::new(std::sync::Mutex::new(None)),
        }
    }

    /// Relies on std's `Arc::clone`: another handle to the same cells.
    #[verifier::external_body]
    pub fn clone_handle(&self) -> ProgressMonitor {
        ProgressMonitor {
            progress: std::sync::Arc::clone(&self.progress),
            canvas: std::sync::Arc::clone(&self.canvas),
            document: std::sync::Arc::clone(&self.document),
        }
    }

    /// Relies on std's `Mutex::lock`: stores a copy of the progress record
    /// under a short-held lock; a poisoned lock is skipped.
    #[verifier::external_body]
    pub fn publish(&self, p: &Progress) {
        if let Ok(mut guard) = self.progress.lock() {
            *guard = p.clone();
        }
    }

    /// Relies on std's `Mutex::lock`: copies the progress record out; the
    /// idle default when poisoned. Another thread may write between calls,
    /// so nothing is promised of the value.
    #[verifier::external_body]
    pub fn snapshot(&self) -> Progress {
        match self.progress.lock() {
            Ok(guard) => guard.clone(),
            Err(_) => Progress::default(),
        }
    }

    /// Relies on std's `Mutex::lock`: stores a copy of the canvas.
    #[verifier::external_body]
    pub fn publish_canvas(&self, c: &Canvas) {
        if let Ok(mut guard) = self.canvas.lock() {
            *guard = Some(c.clone());
        }
    }

    /// Relies on std's `Mutex::lock`: copies the latest canvas snapshot out;
    /// `None` before the first commit or when poisoned.
    #[verifier::external_body]
    pub fn snapshot_canvas(&self) -> Option<Canvas> {
        match self.canvas.lock() {
            Ok(guard) => guard.clone(),
            Err(_) => None,
        }
    }

    /// Relies on std's `Mutex::lock`: stores a copy of the document.
    #[verifier::external_body]
    pub fn publish_document(&self, d: &VectorDocument) {
        if let Ok(mut guard) = self.document.lock() {
            *guard = Some(d.clone());
        }
    }

    /// Relies on std's `Mutex::lock`: copies the latest document snapshot
    /// out; `None` before the first commit or when poisoned.
    #[verifier::external_body]
    pub fn snapshot_document(&self) -> Option<VectorDocument> {
        match self.document.lock() {
            Ok(guard) => guard.clone(),
            Err(_) => None,
        }
    }
}

/// Relies on std's `SystemTime::now` and `duration_since`: the wall clock as
/// whole seconds since the epoch, or zero when the clock reads earlier than
/// the epoch. Used only when no explicit seed is configured.
#[verifier::external_body]
fn now_unix_seconds() -> u64 {
    match std::time::SystemTime::now().duration_since(std::time::UNIX_EPOCH) {
        Ok(d) => d.as_secs(),
        Err(_) => 0,
    }
}

/// The degeneracy threshold actually applied: a missing threshold disables
/// the filter, exactly as a zero one does.
pub open spec fn threshold_of(p: AlgorithmParams) -> u32 {
    match p.degeneracy_threshold {
        Some(t) => t,
        None => 0,
    }
}

/// Whether a candidate fitness beats the best seen so far within one
/// triangle's search; with nothing recorded yet it must beat the minimum
/// representable fitness, so an all-rejected generation records nothing.
pub open spec fn better(cand: i64, best: Option<(Triangle, i64)>) -> bool {
    match best {
        None => cand > i64::MIN,
        Some((_, f)) => cand > f,
    }
}

/// The state of one triangle's generational search: the current population,
/// the best candidate recorded so far, and the master stream position.
pub ghost struct SearchSt {
    pub pop: Seq<Triangle>,
    pub best: Option<(Triangle, i64)>,
    pub idx: nat,
}

/// The search state before any generation: a fresh initial population (one
/// sub-seed per individual), nothing recorded.
pub open spec fn search_init(p: AlgorithmParams, seed: u64, idx0: nat) -> SearchSt {
    SearchSt {
        pop: initial_pop_spec(seed, idx0, p.population_size as nat, p.image_size, p.use_opacity),
        best: None,
        idx: (idx0 + p.population_size) as nat,
    }
}

/// One generation: score the population against the reference on top of the
/// canvas, record the stable-argmax champion if it strictly beats the best
/// so far, select survivors, reproduce.
pub open spec fn search_step(
    st: SearchSt,
    canvas: Seq<u8>,
    refb: Seq<u8>,
    p: AlgorithmParams,
    seed: u64,
) -> SearchSt {
    let scores = scores_spec(
        st.pop,
        canvas,
        refb,
        p.image_size,
        p.fitness_algorithm,
        threshold_of(p),
    );
    let bi = argmax_upto(scores, scores.len());
    let bf = scores[bi];
    let nbest = if better(bf, st.best) {
        Some((st.pop[bi], bf))
    } else {
        st.best
    };
    let survivors = select_spec(st.pop, scores, p.num_selected as nat);
    let npop = offspring_spec(
        survivors,
        p.image_size,
        p.mutation_rate,
        seed,
        st.idx,
        p.population_size as nat,
    );
    SearchSt { pop: npop, best: nbest, idx: (st.idx + p.population_size) as nat }
}

/// The search state after `g` generations.
pub open spec fn search_at(
    canvas: Seq<u8>,
    refb: Seq<u8>,
    p: AlgorithmParams,
    seed: u64,
    idx0: nat,
    g: nat,
) -> SearchSt
    decreases g,
{
    if g == 0 {
        search_init(p, seed, idx0)
    } else {
        search_step(search_at(canvas, refb, p, seed, idx0, (g - 1) as nat), canvas, refb, p, seed)
    }
}

/// The state of a whole run: the committed canvas, the committed polygons in
/// commit order, and the master stream position.
pub ghost struct RunSt {
    pub canvas: Seq<u8>,
    pub doc: Seq<Triangle>,
    pub idx: nat,
}

/// Committing a search's outcome: a recorded best is rendered onto the
/// canvas and appended to the document; a search that recorded nothing
/// commits nothing. Commits are append-only and never rolled back.
pub open spec fn commit_best(
    st: RunSt,
    best: Option<(Triangle, i64)>,
    p: AlgorithmParams,
    idx_after: nat,
) -> RunSt {
    match best {
        None => RunSt { canvas: st.canvas, doc: st.doc, idx: idx_after },
        Some((t, _)) => RunSt {
            canvas: draw_spec(st.canvas, p.image_size, t),
            doc: st.doc.push(t),
            idx: idx_after,
        },
    }
}

/// One triangle's search run for `g` generations from a run state, and its
/// outcome committed.
pub open spec fn run_gens(st: RunSt, refb: Seq<u8>, p: AlgorithmParams, seed: u64, g: nat) -> RunSt {
    let s = search_at(st.canvas, refb, p, seed, st.idx, g);
    commit_best(st, s.best, p, s.idx)
}

/// The run state after `t` full triangle searches: starting from the blank
/// canvas and the empty document, each triangle searched for the configured
/// number of generations and committed.
pub open spec fn run_at(refb: Seq<u8>, p: AlgorithmParams, seed: u64, t: nat) -> RunSt
    decreases t,
{
    if t == 0 {
        RunSt { canvas: blank_bytes(p.image_size), doc: Seq::empty(), idx: 0 }
    } else {
        run_gens(
            run_at(refb, p, seed, (t - 1) as nat),
            refb,
            p,
            seed,
            p.num_generations as nat,
        )
    }
}

/// What a finished run hands back.
pub struct RunOutput {
    /// The committed canvas.
    pub canvas: Canvas,
    /// The committed vector document.
    pub document: VectorDocument,
    /// Whether the run was cut short by cancellation.
    pub cancelled: bool,
    /// The seed the run used (the configured one, or the clock-derived one).
    pub seed_used: u64,
    /// How many triangles were searched to full depth and committed before
    /// the run ended.
    pub full_triangles: Ghost<nat>,
    /// How many generations the final, cut-short search completed; zero when
    /// the run ended at a triangle boundary.
    pub tail_generations: Ghost<nat>,
}

/// The recorded best of one triangle's search, as the executable loop
/// carries it: the candidate and its fitness, present only once some
/// candidate beat the minimum representable fitness.
pub open spec fn pair_of(bt: Option<Triangle>, bf: i64) -> Option<(Triangle, i64)> {
    match bt {
        None => None,
        Some(t) => Some((t, bf)),
    }
}

/// What one triangle's search hands back.
struct SearchOutcome {
    best: Option<(Triangle, i64)>,
    cancelled: bool,
    gens: Ghost<nat>,
}

/// Searches for one triangle: the generational loop, polling cancellation
/// before each generation. An in-flight generation always runs to
/// completion; a cancellation observed at the boundary ends the search with
/// whatever fully completed generations recorded.
fn search_triangle(
    canvas: &Canvas,
    reference: &Canvas,
    params: AlgorithmParams,
    rng: &mut WordStream,
    cancel: &CancelFlag,
    progress: &ProgressMonitor,
    prog: &mut Progress,
) -> (r: SearchOutcome)
    requires
        params_valid(params),
        canvas.wf(),
        reference.wf(),
        canvas.spec_size() == params.image_size,
        reference.spec_size() == params.image_size,
    ensures
        final(rng).spec_seed() == old(rng).spec_seed(),
        r.gens@ <= params.num_generations,
        !r.cancelled ==> r.gens@ == params.num_generations,
        final(rng).spec_drawn() == search_at(
            canvas.spec_bytes(),
            reference.spec_bytes(),
            params,
            old(rng).spec_seed(),
            old(rng).spec_drawn(),
            r.gens@,
        ).idx,
        r.best == search_at(
            canvas.spec_bytes(),
            reference.spec_bytes(),
            params,
            old(rng).spec_seed(),
            old(rng).spec_drawn(),
            r.gens@,
        ).best,
        (match r.best {
            Some(p) => tri_sane(p.0, params.image_size),
            None => true,
        }),
        final(prog).triangle_index == old(prog).triangle_index,
        final(prog).is_running == old(prog).is_running,
        final(prog).is_complete == old(prog).is_complete,
        final(prog).should_stop == old(prog).should_stop,
{
    let ghost seed = rng.spec_seed();
    let ghost idx0 = rng.spec_drawn();
    let ghost refb = reference.spec_bytes();
    let mut pop = generate_initial_population(
        params.population_size,
        params.image_size,
        rng,
        params.use_opacity,
    );
    let mut best_t: Option<Triangle> = None;
    let mut best_f: i64 = i64::MIN;
    let mut g: usize = 0;
    let mut cancelled = false;
    let threshold: u32 = match params.degeneracy_threshold {
        Some(t) => t,
        None => 0,
    };
    proof {
        assert(pop@ == search_at(canvas.spec_bytes(), refb, params, seed, idx0, 0).pop);
    }
    while g < params.num_generations
        invariant_except_break
            !cancelled,
        invariant
            params_valid(params),
            canvas.wf(),
            reference.wf(),
            canvas.spec_size() == params.image_size,
            reference.spec_size() == params.image_size,
            refb == reference.spec_bytes(),
            threshold == threshold_of(params),
            g <= params.num_generations,
            rng.spec_seed() == seed,
            seed == old(rng).spec_seed(),
            idx0 == old(rng).spec_drawn(),
            pop@ == search_at(canvas.spec_bytes(), refb, params, seed, idx0, g as nat).pop,
            pair_of(best_t, best_f) == search_at(
                canvas.spec_bytes(),
                refb,
                params,
                seed,
                idx0,
                g as nat,
            ).best,
            rng.spec_drawn() == search_at(canvas.spec_bytes(), refb, params, seed, idx0, g as nat).idx,
            pop@.len() == params.population_size,
            forall|i: int| 0 <= i < pop@.len() ==> tri_sane(#[trigger] pop@[i], params.image_size),
            best_t is None ==> best_f == i64::MIN,
            best_t is Some ==> best_f > i64::MIN,
            (match best_t {
                Some(t) => tri_sane(t, params.image_size),
                None => true,
            }),
            prog.triangle_index == old(prog).triangle_index,
            prog.is_running == old(prog).is_running,
            prog.is_complete == old(prog).is_complete,
            prog.should_stop == old(prog).should_stop,
        ensures
            g <= params.num_generations,
            cancelled || g == params.num_generations,
            pair_of(best_t, best_f) == search_at(
                canvas.spec_bytes(),
                refb,
                params,
                seed,
                idx0,
                g as nat,
            ).best,
            rng.spec_drawn() == search_at(canvas.spec_bytes(), refb, params, seed, idx0, g as nat).idx,
            rng.spec_seed() == seed,
            (match best_t {
                Some(t) => tri_sane(t, params.image_size),
                None => true,
            }),
            best_t is None ==> best_f == i64::MIN,
            best_t is Some ==> best_f > i64::MIN,
        decreases params.num_generations - g,
    {
        if cancel.is_set() {
            cancelled = true;
            break ;
        }
        prog.generation_index = g;
        progress.publish(prog);
        let ghost st = search_at(canvas.spec_bytes(), refb, params, seed, idx0, g as nat);
        let scores = evaluate_fitness_batch(
            &pop,
            canvas,
            reference,
            params.fitness_algorithm,
            threshold,
        );
        let bi = best_index(&scores);
        let bf = scores[bi];
        if bf > best_f {
            best_f = bf;
            best_t = Some(pop[bi]);
            prog.current_fitness = bf;
            progress.publish(prog);
        }
        let survivors = select_population(&pop, &scores, params.num_selected);
        proof {
            assert forall|i: int| 0 <= i < survivors@.len() implies tri_sane(
                #[trigger] survivors@[i],
                params.image_size,
            ) by {
                assert(pop@.contains(survivors@[i]));
                let w = choose|w: int| 0 <= w < pop@.len() && pop@[w] == survivors@[i];
            }
        }
        pop = generate_new_population(
            &survivors,
            params.population_size,
            params.image_size,
            params.mutation_rate,
            rng,
        );
        prog.current_generation = pop.clone();
        progress.publish(prog);
        g += 1;
        proof {
            let stn = search_at(canvas.spec_bytes(), refb, params, seed, idx0, g as nat);
            assert(stn == search_step(st, canvas.spec_bytes(), refb, params, seed));
        }
    }
    let best: Option<(Triangle, i64)> = match best_t {
        None => None,
        Some(t) => Some((t, best_f)),
    };
    SearchOutcome { best, cancelled, gens: Ghost(g as nat) }
}

/// Runs the whole optimization: per triangle, a fresh initial population and
/// a generational search; the winner — when one was recorded — is rendered
/// onto the canvas and appended to the vector document, and the updated
/// snapshots are published. Cancellation is polled before each triangle and
/// before each generation; once observed, the current triangle's best (from
/// its fully completed generations) is still committed, and nothing further
/// runs. The run always ends in the completed state with the cancellation
/// flag of the progress record cleared.
///
/// The returned canvas and document are exactly the run specification
/// `run_gens(run_at(..))` at the returned cut: full determinism from the
/// seed, the parameters and the reference image.
pub fn run_algorithm(
    params: AlgorithmParams,
    reference_image: &Canvas,
    progress: &ProgressMonitor,
    cancel: &CancelFlag,
) -> (r: Result<RunOutput, StartError>)
    requires
        reference_image.wf(),
    ensures
        r is Err <==> (!params_valid(params) || reference_image.spec_size() != params.image_size),
        (r == Result::<RunOutput, StartError>::Err(StartError::Configuration)) <==> !params_valid(
            params,
        ),
        (r == Result::<RunOutput, StartError>::Err(StartError::InputMismatch)) <==> (params_valid(
            params,
        ) && reference_image.spec_size() != params.image_size),
        (match r {
            Ok(out) => {
                let k = out.full_triangles@;
                let g = out.tail_generations@;
                let fin = run_gens(
                    run_at(reference_image.spec_bytes(), params, out.seed_used, k),
                    reference_image.spec_bytes(),
                    params,
                    out.seed_used,
                    g,
                );
                &&& k <= params.num_triangles
                &&& g <= params.num_generations
                &&& out.canvas.wf()
                &&& out.canvas.spec_size() == params.image_size
                &&& out.canvas.spec_bytes() == fin.canvas
                &&& out.document.spec_width() == params.image_size
                &&& out.document.spec_height() == params.image_size
                &&& out.document.spec_polygons() == fin.doc
                &&& (!out.cancelled ==> (if params.num_triangles == 0 {
                    k == 0 && g == 0
                } else {
                    k == params.num_triangles - 1 && g == params.num_generations
                }))
                &&& (match params.seed {
                    Some(s) => out.seed_used == s,
                    None => true,
                })
            },
            Err(_) => true,
        }),
{
    match params.validate() {
        Err(e) => {
            return Err(e);
        },
        Ok(()) => {},
    }
    if reference_image.size() != params.image_size {
        return Err(StartError::InputMismatch);
    }
    let seed: u64 = match params.seed {
        Some(s) => s,
        None => now_unix_seconds(),
    };
    let ghost refb = reference_image.spec_bytes();
    let mut rng = WordStream::from_seed(seed);
    let mut canvas = Canvas::new(params.image_size);
    let mut document = VectorDocument::new(params.image_size, params.image_size);
    let mut prog = Progress::default();
    prog.is_running = true;
    progress.publish(&prog);
    let mut cancelled = false;
    let ghost mut full_k: nat = 0nat;
    let ghost mut tail_g: nat = 0nat;
    let mut ti: usize = 0;
    while ti < params.num_triangles
        invariant_except_break
            !cancelled,
        invariant
            params_valid(params),
            reference_image.wf(),
            reference_image.spec_size() == params.image_size,
            refb == reference_image.spec_bytes(),
            ti <= params.num_triangles,
            canvas.wf(),
            canvas.spec_size() == params.image_size,
            document.spec_width() == params.image_size,
            document.spec_height() == params.image_size,
            rng.spec_seed() == seed,
            !cancelled ==> {
                &&& canvas.spec_bytes() == run_at(refb, params, seed, ti as nat).canvas
                &&& document.spec_polygons() == run_at(refb, params, seed, ti as nat).doc
                &&& rng.spec_drawn() == run_at(refb, params, seed, ti as nat).idx
            },
            cancelled ==> {
                let fin = run_gens(run_at(refb, params, seed, full_k), refb, params, seed, tail_g);
                &&& full_k <= params.num_triangles
                &&& tail_g <= params.num_generations
                &&& canvas.spec_bytes() == fin.canvas
                &&& document.spec_polygons() == fin.doc
            },
        ensures
            cancelled || ti == params.num_triangles,
            (triangle_loop_post(
                params,
                refb,
                seed,
                cancelled,
                full_k,
                tail_g,
                ti as nat,
                canvas.spec_bytes(),
                document.spec_polygons(),
            )),
        decreases params.num_triangles - ti,
    {
        if cancel.is_set() {
            cancelled = true;
            prog.should_stop = true;
            progress.publish(&prog);
            proof {
                full_k = ti as nat;
                tail_g = 0nat;
                let st = run_at(refb, params, seed, ti as nat);
                let s = search_at(st.canvas, refb, params, seed, st.idx, 0);
                assert(s.best is None);
                assert(run_gens(st, refb, params, seed, 0).canvas == st.canvas);
                assert(run_gens(st, refb, params, seed, 0).doc == st.doc);
            }
            break ;
        }
        prog.triangle_index = ti;
        prog.generation_index = 0;
        progress.publish(&prog);
        let ghost st = run_at(refb, params, seed, ti as nat);
        let outcome = search_triangle(
            &canvas,
            reference_image,
            params,
            &mut rng,
            cancel,
            progress,
            &mut prog,
        );
        match outcome.best {
            Some(pair) => {
                let t = pair.0;
                draw_triangle_onto_canvas(&mut canvas, &t);
                document.add_triangle(&t);
                progress.publish_canvas(&canvas);
                progress.publish_document(&document);
            },
            None => {},
        }
        proof {
            let s = search_at(st.canvas, refb, params, seed, st.idx, outcome.gens@);
            assert(canvas.spec_bytes() == commit_best(st, s.best, params, s.idx).canvas);
            assert(document.spec_polygons() == commit_best(st, s.best, params, s.idx).doc);
        }
        if outcome.cancelled {
            cancelled = true;
            prog.should_stop = true;
            progress.publish(&prog);
            proof {
                full_k = ti as nat;
                tail_g = outcome.gens@;
            }
            break ;
        }
        proof {
            assert(run_at(refb, params, seed, (ti + 1) as nat) == run_gens(
                st,
                refb,
                params,
                seed,
                params.num_generations as nat,
            ));
        }
        ti += 1;
    }
    proof {
        if !cancelled {
            if params.num_triangles == 0 {
                full_k = 0nat;
                tail_g = 0nat;
            } else {
                full_k = (params.num_triangles - 1) as nat;
                tail_g = params.num_generations as nat;
            }
        }
    }
    // the run is over: mark it completed and consume any cancellation request
    prog.is_running = false;
    prog.is_complete = true;
    prog.should_stop = false;
    progress.publish(&prog);
    cancel.reset();
    Ok(
        RunOutput {
            canvas,
            document,
            cancelled,
            seed_used: seed,
            full_triangles: Ghost(full_k),
            tail_generations: Ghost(tail_g),
        },
    )
}

/// What holds of the committed state when the triangle loop ends, cancelled
/// or exhausted.
pub open spec fn triangle_loop_post(
    params: AlgorithmParams,
    refb: Seq<u8>,
    seed: u64,
    cancelled: bool,
    full_k: nat,
    tail_g: nat,
    ti: nat,
    canvas_bytes: Seq<u8>,
    doc_polys: Seq<Triangle>,
) -> bool {
    if cancelled {
        let fin = run_gens(run_at(refb, params, seed, full_k), refb, params, seed, tail_g);
        &&& full_k <= params.num_triangles
        &&& tail_g <= params.num_generations
        &&& canvas_bytes == fin.canvas
        &&& doc_polys == fin.doc
    } else {
        &&& ti == params.num_triangles
        &&& canvas_bytes == run_at(refb, params, seed, ti).canvas
        &&& doc_polys == run_at(refb, params, seed, ti).doc
    }
}

} // verus!
