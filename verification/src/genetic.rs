//! The genetic operators of the search: sampling a fresh individual,
//! gene-wise uniform crossover, jitter mutation, reproduction, and
//! truncation selection. Every operator is a pure function of its inputs and
//! of the words of a seeded stream, so identical inputs and sub-seed
//! reproduce identical output.

use vstd::prelude::*;
use crate::params::{MAX_IMAGE_SIZE, OPACITY_SCALE, RATE_SCALE};
use crate::rng::{WordStream, stream_word, word_below, word_coin, word_hits, word_jitter, jitter_of_word};
use crate::triangle::{Color, Triangle, Vertex, tri_sane, tri_wf, vertex_in_canvas};
use rayon::iter::{IntoParallelRefIterator, ParallelIterator};

verus! {

/// A coordinate sampled uniformly over `[0, size)`.
pub open spec fn coord_from_word(w: u64, size: u32) -> i32 {
    word_below(w, size as u64) as i32
}

/// A color channel sampled uniformly over `[0, 255]`.
pub open spec fn channel_from_word(w: u64) -> u8 {
    word_below(w, 256) as u8
}

/// An opacity sampled uniformly over `[0, OPACITY_SCALE]`.
pub open spec fn opacity_from_word(w: u64) -> u16 {
    word_below(w, (OPACITY_SCALE + 1) as u64) as u16
}

/// A coordinate clamped onto the canvas.
pub open spec fn clamp_coord(x: int, size: u32) -> i32 {
    if x < 0 {
        0
    } else if x >= size {
        (size - 1) as i32
    } else {
        x as i32
    }
}

/// A channel value clamped into `[0, 255]`.
pub open spec fn clamp_channel(x: int) -> u8 {
    if x < 0 {
        0
    } else if x > 255 {
        255
    } else {
        x as u8
    }
}

/// An opacity clamped into `[0, OPACITY_SCALE]`.
pub open spec fn clamp_opacity(x: int) -> u16 {
    if x < 0 {
        0
    } else if x > OPACITY_SCALE {
        OPACITY_SCALE
    } else {
        x as u16
    }
}

/// The individual sampled from the first ten words of the stream seeded with
/// `wseed`: three vertices uniform over the canvas, a color uniform per
/// channel, and — in the opacity-bearing variant — a uniform fill opacity.
pub open spec fn individual_spec(size: u32, use_opacity: bool, wseed: u64) -> Triangle {
    Triangle {
        v0: Vertex {
            x: coord_from_word(stream_word(wseed, 0), size),
            y: coord_from_word(stream_word(wseed, 1), size),
        },
        v1: Vertex {
            x: coord_from_word(stream_word(wseed, 2), size),
            y: coord_from_word(stream_word(wseed, 3), size),
        },
        v2: Vertex {
            x: coord_from_word(stream_word(wseed, 4), size),
            y: coord_from_word(stream_word(wseed, 5), size),
        },
        color: Color {
            r: channel_from_word(stream_word(wseed, 6)),
            g: channel_from_word(stream_word(wseed, 7)),
            b: channel_from_word(stream_word(wseed, 8)),
        },
        opacity: if use_opacity {
            Some(opacity_from_word(stream_word(wseed, 9)))
        } else {
            None
        },
    }
}

/// Samples one fresh individual from its own sub-seeded stream.
pub fn make_individual(image_size: u32, use_opacity: bool, wseed: u64) -> (r: Triangle)
    requires
        1 <= image_size <= crate::params::MAX_IMAGE_SIZE,
    ensures
        r == individual_spec(image_size, use_opacity, wseed),
        tri_wf(r, image_size, use_opacity),
{
    let mut rng = WordStream::from_seed(wseed);
    let size64 = image_size as u64;
    let x0 = (rng.next_word() % size64) as i32;
    let y0 = (rng.next_word() % size64) as i32;
    let x1 = (rng.next_word() % size64) as i32;
    let y1 = (rng.next_word() % size64) as i32;
    let x2 = (rng.next_word() % size64) as i32;
    let y2 = (rng.next_word() % size64) as i32;
    let cr = (rng.next_word() % 256) as u8;
    let cg = (rng.next_word() % 256) as u8;
    let cb = (rng.next_word() % 256) as u8;
    let ow = rng.next_word();
    let opacity: Option<u16> = if use_opacity {
        Some((ow % ((OPACITY_SCALE + 1) as u64)) as u16)
    } else {
        None
    };
    Triangle {
        v0: Vertex { x: x0, y: y0 },
        v1: Vertex { x: x1, y: y1 },
        v2: Vertex { x: x2, y: y2 },
        color: Color { r: cr, g: cg, b: cb },
        opacity,
    }
}

/// The child of gene-wise uniform crossover read off the seven words at
/// `i0..i0+7` of the stream: each vertex, each color channel and the
/// opacity taken whole from one parent or the other, an even word picking
/// the first parent — no interpolation.
pub open spec fn crossover_spec(p1: Triangle, p2: Triangle, seed: u64, i0: nat) -> Triangle {
    Triangle {
        v0: if word_coin(stream_word(seed, i0)) {
            p1.v0
        } else {
            p2.v0
        },
        v1: if word_coin(stream_word(seed, i0 + 1)) {
            p1.v1
        } else {
            p2.v1
        },
        v2: if word_coin(stream_word(seed, i0 + 2)) {
            p1.v2
        } else {
            p2.v2
        },
        color: Color {
            r: if word_coin(stream_word(seed, i0 + 3)) {
                p1.color.r
            } else {
                p2.color.r
            },
            g: if word_coin(stream_word(seed, i0 + 4)) {
                p1.color.g
            } else {
                p2.color.g
            },
            b: if word_coin(stream_word(seed, i0 + 5)) {
                p1.color.b
            } else {
                p2.color.b
            },
        },
        opacity: if word_coin(stream_word(seed, i0 + 6)) {
            p1.opacity
        } else {
            p2.opacity
        },
    }
}

/// Crosses two parents gene-wise; consumes seven words of the stream.
pub fn crossover(parent1: &Triangle, parent2: &Triangle, rng: &mut WordStream) -> (r: Triangle)
    ensures
        final(rng).spec_seed() == old(rng).spec_seed(),
        final(rng).spec_drawn() == old(rng).spec_drawn() + 7,
        r == crossover_spec(*parent1, *parent2, old(rng).spec_seed(), old(rng).spec_drawn()),
{
    let v0 = if rng.next_word() % 2 == 0 {
        parent1.v0
    } else {
        parent2.v0
    };
    let v1 = if rng.next_word() % 2 == 0 {
        parent1.v1
    } else {
        parent2.v1
    };
    let v2 = if rng.next_word() % 2 == 0 {
        parent1.v2
    } else {
        parent2.v2
    };
    let cr = if rng.next_word() % 2 == 0 {
        parent1.color.r
    } else {
        parent2.color.r
    };
    let cg = if rng.next_word() % 2 == 0 {
        parent1.color.g
    } else {
        parent2.color.g
    };
    let cb = if rng.next_word() % 2 == 0 {
        parent1.color.b
    } else {
        parent2.color.b
    };
    let opacity = if rng.next_word() % 2 == 0 {
        parent1.opacity
    } else {
        parent2.opacity
    };
    Triangle { v0, v1, v2, color: Color { r: cr, g: cg, b: cb }, opacity }
}

/// One vertex of the mutation: an even choice word jitters both axes
/// uniformly within a tenth of the canvas side and clamps them back onto the
/// canvas; an odd word leaves the vertex unchanged.
pub open spec fn mutate_vertex_spec(
    v: Vertex,
    size: u32,
    seed: u64,
    ic: nat,  // choice word
) -> Vertex {
    if word_coin(stream_word(seed, ic)) {
        Vertex {
            x: clamp_coord(v.x + word_jitter(stream_word(seed, ic + 1), size / 10), size),
            y: clamp_coord(v.y + word_jitter(stream_word(seed, ic + 2), size / 10), size),
        }
    } else {
        v
    }
}

/// One color channel of the mutation: an even choice word adds a jitter
/// uniform in `[-10, 10]`, clamped to `[0, 255]`.
pub open spec fn mutate_channel_spec(c: u8, seed: u64, ic: nat) -> u8 {
    if word_coin(stream_word(seed, ic)) {
        clamp_channel(c + word_jitter(stream_word(seed, ic + 1), 10))
    } else {
        c
    }
}

/// The mutated triangle read off the eighteen words at `i0..i0+18`: the
/// first word decides by `rate` whether anything changes at all; then each
/// vertex, each channel and the opacity is independently jittered with even
/// chance. The opacity jitter is uniform within a tenth of full opacity.
pub open spec fn mutate_spec(t: Triangle, size: u32, rate: u32, seed: u64, i0: nat) -> Triangle {
    if !word_hits(stream_word(seed, i0), rate) {
        t
    } else {
        Triangle {
            v0: mutate_vertex_spec(t.v0, size, seed, i0 + 1),
            v1: mutate_vertex_spec(t.v1, size, seed, i0 + 4),
            v2: mutate_vertex_spec(t.v2, size, seed, i0 + 7),
            color: Color {
                r: mutate_channel_spec(t.color.r, seed, i0 + 10),
                g: mutate_channel_spec(t.color.g, seed, i0 + 12),
                b: mutate_channel_spec(t.color.b, seed, i0 + 14),
            },
            opacity: match t.opacity {
                None => None,
                Some(o) => if word_coin(stream_word(seed, i0 + 16)) {
                    Some(clamp_opacity(o + word_jitter(stream_word(seed, i0 + 17), 1000)))
                } else {
                    Some(o)
                },
            },
        }
    }
}

/// Clamps a jittered coordinate back onto the canvas.
fn clamp_coord_exec(x: i64, size: u32) -> (r: i32)
    requires
        1 <= size <= 0x7fff_ffff,
        -0x4000_0000 <= x <= 0x1_0000_0000,
    ensures
        r == clamp_coord(x as int, size),
{
    if x < 0 {
        0
    } else if x >= size as i64 {
        (size - 1) as i32
    } else {
        x as i32
    }
}

/// Clamps a jittered channel into `[0, 255]`.
fn clamp_channel_exec(x: i64) -> (r: u8)
    requires
        -0x8000 <= x <= 0x8000,
    ensures
        r == clamp_channel(x as int),
{
    if x < 0 {
        0
    } else if x > 255 {
        255
    } else {
        x as u8
    }
}

/// Mutates one vertex; consumes three words of the stream.
fn mutate_vertex(v: &Vertex, size: u32, rng: &mut WordStream) -> (r: Vertex)
    requires
        1 <= size <= 0x7fff_ffff,
        vertex_in_canvas(*v, size),
    ensures
        final(rng).spec_seed() == old(rng).spec_seed(),
        final(rng).spec_drawn() == old(rng).spec_drawn() + 3,
        r == mutate_vertex_spec(*v, size, old(rng).spec_seed(), old(rng).spec_drawn()),
        vertex_in_canvas(r, size),
{
    let choice = rng.next_word();
    let wx = rng.next_word();
    let wy = rng.next_word();
    if choice % 2 == 0 {
        let ext: u32 = size / 10;
        let jx = jitter_of_word(wx, ext);
        let jy = jitter_of_word(wy, ext);
        Vertex {
            x: clamp_coord_exec((v.x as i64) + jx, size),
            y: clamp_coord_exec((v.y as i64) + jy, size),
        }
    } else {
        *v
    }
}

/// Mutates one color channel; consumes two words of the stream.
fn mutate_channel(c: u8, rng: &mut WordStream) -> (r: u8)
    ensures
        final(rng).spec_seed() == old(rng).spec_seed(),
        final(rng).spec_drawn() == old(rng).spec_drawn() + 2,
        r == mutate_channel_spec(c, old(rng).spec_seed(), old(rng).spec_drawn()),
{
    let choice = rng.next_word();
    let w = rng.next_word();
    if choice % 2 == 0 {
        let j = jitter_of_word(w, 10);
        clamp_channel_exec((c as i64) + j)
    } else {
        c
    }
}

/// Mutates a triangle with probability `rate` (in units of `1/RATE_SCALE`),
/// else returns it unchanged; consumes eighteen words of the stream either
/// way, so the word layout does not depend on the outcome.
pub fn mutate(triangle: &Triangle, image_size: u32, mutation_rate: u32, rng: &mut WordStream) -> (r:
    Triangle)
    requires
        1 <= image_size <= 0x7fff_ffff,
        vertex_in_canvas(triangle.v0, image_size),
        vertex_in_canvas(triangle.v1, image_size),
        vertex_in_canvas(triangle.v2, image_size),
        (match triangle.opacity {
            Some(o) => o <= OPACITY_SCALE,
            None => true,
        }),
    ensures
        final(rng).spec_seed() == old(rng).spec_seed(),
        final(rng).spec_drawn() == old(rng).spec_drawn() + 18,
        r == mutate_spec(
            *triangle,
            image_size,
            mutation_rate,
            old(rng).spec_seed(),
            old(rng).spec_drawn(),
        ),
        vertex_in_canvas(r.v0, image_size),
        vertex_in_canvas(r.v1, image_size),
        vertex_in_canvas(r.v2, image_size),
        (match r.opacity {
            Some(o) => triangle.opacity is Some && o <= OPACITY_SCALE,
            None => triangle.opacity is None,
        }),
{
    let hit_word = rng.next_word();
    let hit = hit_word % (RATE_SCALE as u64) < mutation_rate as u64;
    if hit {
        let v0 = mutate_vertex(&triangle.v0, image_size, rng);
        let v1 = mutate_vertex(&triangle.v1, image_size, rng);
        let v2 = mutate_vertex(&triangle.v2, image_size, rng);
        let cr = mutate_channel(triangle.color.r, rng);
        let cg = mutate_channel(triangle.color.g, rng);
        let cb = mutate_channel(triangle.color.b, rng);
        let ochoice = rng.next_word();
        let ow = rng.next_word();
        let opacity: Option<u16> = match triangle.opacity {
            None => None,
            Some(o) => {
                if ochoice % 2 == 0 {
                    let j = jitter_of_word(ow, 1000);
                    let x: i64 = (o as i64) + j;
                    if x < 0 {
                        Some(0)
                    } else if x > OPACITY_SCALE as i64 {
                        Some(OPACITY_SCALE)
                    } else {
                        Some(x as u16)
                    }
                } else {
                    Some(o)
                }
            },
        };
        Triangle { v0, v1, v2, color: Color { r: cr, g: cg, b: cb }, opacity }
    } else {
        // the unconsumed words of this reproduction's fixed budget
        let mut i: u64 = 0;
        while i < 17
            invariant
                i <= 17,
                rng.spec_seed() == old(rng).spec_seed(),
                rng.spec_drawn() == old(rng).spec_drawn() + 1 + i,
            decreases 17 - i,
        {
            let _ = rng.next_word();
            i += 1;
        }
        *triangle
    }
}

/// One reproduction event read off the stream seeded with `wseed`: two
/// parents drawn uniformly with replacement (words 0 and 1), crossover
/// (words 2..9), then mutation (words 9..27).
pub open spec fn reproduce_spec(
    parents: Seq<Triangle>,
    size: u32,
    rate: u32,
    wseed: u64,
) -> Triangle
    recommends
        parents.len() >= 1,
{
    let pa = parents[word_below(stream_word(wseed, 0), parents.len() as u64) as int];
    let pb = parents[word_below(stream_word(wseed, 1), parents.len() as u64) as int];
    mutate_spec(crossover_spec(pa, pb, wseed, 2), size, rate, wseed, 9)
}

/// Performs one reproduction event on its own sub-seeded stream.
pub fn reproduce_one(
    parents: &Vec<Triangle>,
    image_size: u32,
    mutation_rate: u32,
    wseed: u64,
) -> (r: Triangle)
    requires
        1 <= image_size <= MAX_IMAGE_SIZE,
        parents@.len() >= 1,
        forall|i: int| 0 <= i < parents@.len() ==> tri_sane(#[trigger] parents@[i], image_size),
    ensures
        r == reproduce_spec(parents@, image_size, mutation_rate, wseed),
        tri_sane(r, image_size),
{
    let mut rng = WordStream::from_seed(wseed);
    let n: u64 = parents.len() as u64;
    let ia: usize = (rng.next_word() % n) as usize;
    let ib: usize = (rng.next_word() % n) as usize;
    let child = crossover(&parents[ia], &parents[ib], &mut rng);
    mutate(&child, image_size, mutation_rate, &mut rng)
}

/// The initial population: `n` individuals, the `i`-th sampled from the
/// sub-seed at position `idx + i` of the master stream.
pub open spec fn initial_pop_spec(seed: u64, idx: nat, n: nat, size: u32, use_opacity: bool) -> Seq<
    Triangle,
> {
    Seq::new(n, |i: int| individual_spec(size, use_opacity, stream_word(seed, (idx + i) as nat)))
}

/// The next generation: `n` reproduction events over the parents, the
/// `i`-th on the sub-seed at position `idx + i` of the master stream.
pub open spec fn offspring_spec(
    parents: Seq<Triangle>,
    size: u32,
    rate: u32,
    seed: u64,
    idx: nat,
    n: nat,
) -> Seq<Triangle> {
    Seq::new(n, |i: int| reproduce_spec(parents, size, rate, stream_word(seed, (idx + i) as nat)))
}

/// Relies on rayon's parallel iterator `map` and `collect` on a vector: one
/// output element per input element, at the input's index, each the value of
/// the mapped function; only the schedule is parallel. Every worker seeds
/// its own stream from its own sub-seed.
#[verifier::external_body]
fn par_individuals(seeds: &Vec<u64>, image_size: u32, use_opacity: bool) -> (r: Vec<Triangle>)
    requires
        1 <= image_size <= MAX_IMAGE_SIZE,
    ensures
        r@.len() == seeds@.len(),
        forall|i: int|
            0 <= i < seeds@.len() ==> r@[i] == individual_spec(image_size, use_opacity, seeds@[i]),
{
    seeds.par_iter().map(|s| make_individual(image_size, use_opacity, *s)).collect()
}

/// Relies on rayon's parallel iterator `map` and `collect` on a vector, as
/// `par_individuals` does.
#[verifier::external_body]
fn par_offspring(
    seeds: &Vec<u64>,
    parents: &Vec<Triangle>,
    image_size: u32,
    mutation_rate: u32,
) -> (r: Vec<Triangle>)
    requires
        1 <= image_size <= MAX_IMAGE_SIZE,
        parents@.len() >= 1,
        forall|i: int| 0 <= i < parents@.len() ==> tri_sane(#[trigger] parents@[i], image_size),
    ensures
        r@.len() == seeds@.len(),
        forall|i: int|
            0 <= i < seeds@.len() ==> r@[i] == reproduce_spec(
                parents@,
                image_size,
                mutation_rate,
                seeds@[i],
            ),
{
    seeds.par_iter().map(|s| reproduce_one(parents, image_size, mutation_rate, *s)).collect()
}

/// Draws `n` sub-seeds from the master stream, in order.
fn draw_subseeds(n: usize, rng: &mut WordStream) -> (r: Vec<u64>)
    ensures
        final(rng).spec_seed() == old(rng).spec_seed(),
        final(rng).spec_drawn() == old(rng).spec_drawn() + n,
        r@.len() == n,
        forall|j: int|
            0 <= j < n ==> r@[j] == stream_word(
                old(rng).spec_seed(),
                (old(rng).spec_drawn() + j) as nat,
            ),
{
    let mut seeds: Vec<u64> = Vec::new();
    let mut i: usize = 0;
    while i < n
        invariant
            i <= n,
            rng.spec_seed() == old(rng).spec_seed(),
            rng.spec_drawn() == old(rng).spec_drawn() + i,
            seeds@.len() == i,
            forall|j: int|
                0 <= j < i ==> seeds@[j] == stream_word(
                    old(rng).spec_seed(),
                    (old(rng).spec_drawn() + j) as nat,
                ),
        decreases n - i,
    {
        let w = rng.next_word();
        seeds.push(w);
        i += 1;
    }
    seeds
}

/// Builds the initial population: `pop_size` independent individuals, each
/// from its own sub-seed, sampled in parallel.
pub fn generate_initial_population(
    pop_size: usize,
    image_size: u32,
    rng: &mut WordStream,
    use_opacity: bool,
) -> (r: Vec<Triangle>)
    requires
        1 <= image_size <= MAX_IMAGE_SIZE,
    ensures
        final(rng).spec_seed() == old(rng).spec_seed(),
        final(rng).spec_drawn() == old(rng).spec_drawn() + pop_size,
        r@ == initial_pop_spec(
            old(rng).spec_seed(),
            old(rng).spec_drawn(),
            pop_size as nat,
            image_size,
            use_opacity,
        ),
        forall|i: int| 0 <= i < r@.len() ==> tri_wf(#[trigger] r@[i], image_size, use_opacity),
{
    let seeds = draw_subseeds(pop_size, rng);
    let r = par_individuals(&seeds, image_size, use_opacity);
    proof {
        let target = initial_pop_spec(
            old(rng).spec_seed(),
            old(rng).spec_drawn(),
            pop_size as nat,
            image_size,
            use_opacity,
        );
        assert(r@ =~= target);
    }
    r
}

/// Builds the next generation: `population_size` independent reproduction
/// events over the parents, each on its own sub-seed, run in parallel.
pub fn generate_new_population(
    parents: &Vec<Triangle>,
    population_size: usize,
    image_size: u32,
    mutation_rate: u32,
    rng: &mut WordStream,
) -> (r: Vec<Triangle>)
    requires
        1 <= image_size <= MAX_IMAGE_SIZE,
        parents@.len() >= 1,
        forall|i: int| 0 <= i < parents@.len() ==> tri_sane(#[trigger] parents@[i], image_size),
    ensures
        final(rng).spec_seed() == old(rng).spec_seed(),
        final(rng).spec_drawn() == old(rng).spec_drawn() + population_size,
        r@ == offspring_spec(
            parents@,
            image_size,
            mutation_rate,
            old(rng).spec_seed(),
            old(rng).spec_drawn(),
            population_size as nat,
        ),
        forall|i: int| 0 <= i < r@.len() ==> tri_sane(#[trigger] r@[i], image_size),
{
    let seeds = draw_subseeds(population_size, rng);
    let r = par_offspring(&seeds, parents, image_size, mutation_rate);
    proof {
        let target = offspring_spec(
            parents@,
            image_size,
            mutation_rate,
            old(rng).spec_seed(),
            old(rng).spec_drawn(),
            population_size as nat,
        );
        assert(r@ =~= target);
        assert forall|i: int| 0 <= i < r@.len() implies tri_sane(#[trigger] r@[i], image_size) by {
            lemma_reproduce_sane(parents@, image_size, mutation_rate, seeds@[i]);
        }
    }
    r
}

/// A reproduction event over sane parents yields a sane child.
pub proof fn lemma_reproduce_sane(parents: Seq<Triangle>, size: u32, rate: u32, wseed: u64)
    requires
        1 <= size <= MAX_IMAGE_SIZE,
        parents.len() >= 1,
        forall|i: int| 0 <= i < parents.len() ==> tri_sane(#[trigger] parents[i], size),
    ensures
        tri_sane(reproduce_spec(parents, size, rate, wseed), size),
{
    let pa = parents[word_below(stream_word(wseed, 0), parents.len() as u64) as int];
    let pb = parents[word_below(stream_word(wseed, 1), parents.len() as u64) as int];
    assert(tri_sane(pa, size) && tri_sane(pb, size));
}

/// Whether index `i` ranks strictly before index `j` in selection order:
/// higher score first, earlier index first on exact ties. A strict total
/// order on distinct indices, so the ranked order is unique and selection is
/// a stable sort by descending fitness.
pub open spec fn rank_before(scores: Seq<i64>, i: int, j: int) -> bool {
    scores[i] > scores[j] || (scores[i] == scores[j] && i < j)
}

/// Index `j` inserted into a ranked index sequence, before the first entry
/// it outranks.
pub open spec fn insert_ranked(s: Seq<int>, j: int, scores: Seq<i64>) -> Seq<int>
    decreases s.len(),
{
    if s.len() == 0 {
        seq![j]
    } else if rank_before(scores, j, s[0]) {
        seq![j] + s
    } else {
        seq![s[0]] + insert_ranked(s.drop_first(), j, scores)
    }
}

/// The indices `0..n` in selection order.
pub open spec fn ranked_indices(scores: Seq<i64>, n: nat) -> Seq<int>
    decreases n,
{
    if n == 0 {
        Seq::empty()
    } else {
        insert_ranked(ranked_indices(scores, (n - 1) as nat), n - 1, scores)
    }
}

/// Inserting before the first outranked entry equals splicing at that
/// position.
pub proof fn lemma_insert_ranked_at(s: Seq<int>, j: int, scores: Seq<i64>, p: int)
    requires
        0 <= p <= s.len(),
        forall|q: int| 0 <= q < p ==> !rank_before(scores, j, #[trigger] s[q]),
        p < s.len() ==> rank_before(scores, j, s[p]),
    ensures
        insert_ranked(s, j, scores) == s.subrange(0, p) + seq![j] + s.subrange(p, s.len() as int),
    decreases s.len(),
{
    if s.len() == 0 {
        assert(insert_ranked(s, j, scores) =~= s.subrange(0, p) + seq![j] + s.subrange(
            p,
            s.len() as int,
        ));
    } else if rank_before(scores, j, s[0]) {
        assert(p == 0);
        assert(insert_ranked(s, j, scores) =~= s.subrange(0, 0) + seq![j] + s.subrange(
            0,
            s.len() as int,
        ));
    } else {
        assert(p >= 1);
        let tail = s.drop_first();
        assert(forall|q: int| 0 <= q < p - 1 ==> !rank_before(scores, j, #[trigger] tail[q]));
        lemma_insert_ranked_at(tail, j, scores, p - 1);
        assert(seq![s[0]] + (tail.subrange(0, p - 1) + seq![j] + tail.subrange(
            p - 1,
            tail.len() as int,
        )) =~= s.subrange(0, p) + seq![j] + s.subrange(p, s.len() as int));
    }
}

/// Insertion keeps the length, the ranking and the contents, adding `j`.
pub proof fn lemma_insert_ranked_props(s: Seq<int>, j: int, scores: Seq<i64>)
    requires
        forall|p: int, q: int| 0 <= p < q < s.len() ==> rank_before(scores, s[p], s[q]),
        forall|p: int| 0 <= p < s.len() ==> s[p] != j,
    ensures
        insert_ranked(s, j, scores).len() == s.len() + 1,
        forall|p: int, q: int|
            0 <= p < q < insert_ranked(s, j, scores).len() ==> rank_before(
                scores,
                insert_ranked(s, j, scores)[p],
                insert_ranked(s, j, scores)[q],
            ),
        forall|x: int|
            #[trigger] insert_ranked(s, j, scores).contains(x) ==> s.contains(x) || x == j,
        forall|x: int| #[trigger] s.contains(x) ==> insert_ranked(s, j, scores).contains(x),
        insert_ranked(s, j, scores).contains(j),
    decreases s.len(),
{
    let res = insert_ranked(s, j, scores);
    if s.len() == 0 {
        assert(res[0] == j);
        assert(res.contains(j));
        assert forall|x: int| #[trigger] res.contains(x) implies s.contains(x) || x == j by {
            let w = choose|w: int| 0 <= w < res.len() && res[w] == x;
        }
    } else if rank_before(scores, j, s[0]) {
        assert(res =~= seq![j] + s);
        assert(res[0] == j);
        assert(res.contains(j));
        assert forall|p: int, q: int| 0 <= p < q < res.len() implies rank_before(
            scores,
            res[p],
            res[q],
        ) by {
            if p == 0 {
                // j outranks the head, which outranks every later entry
                if q > 1 {
                    assert(rank_before(scores, s[0], s[q - 1]));
                }
            }
        }
        assert forall|x: int| #[trigger] res.contains(x) implies s.contains(x) || x == j by {
            let w = choose|w: int| 0 <= w < res.len() && res[w] == x;
            if w >= 1 {
                assert(s[w - 1] == x);
            }
        }
        assert forall|x: int| #[trigger] s.contains(x) implies res.contains(x) by {
            let w = choose|w: int| 0 <= w < s.len() && s[w] == x;
            assert(res[w + 1] == x);
        }
    } else {
        let tail = s.drop_first();
        let tres = insert_ranked(tail, j, scores);
        lemma_insert_ranked_props(tail, j, scores);
        assert(res =~= seq![s[0]] + tres);
        // the head does not outrank itself, and it differs from j, so it
        // ranks before j by totality
        assert(rank_before(scores, s[0], j));
        assert forall|x: int| #[trigger] res.contains(x) implies s.contains(x) || x == j by {
            let w = choose|w: int| 0 <= w < res.len() && res[w] == x;
            if w == 0 {
                assert(s[0] == x);
            } else {
                assert(tres[w - 1] == x);
                assert(tres.contains(x));
                if x != j {
                    assert(tail.contains(x));
                    let u = choose|u: int| 0 <= u < tail.len() && tail[u] == x;
                    assert(s[u + 1] == x);
                }
            }
        }
        assert forall|x: int| #[trigger] s.contains(x) implies res.contains(x) by {
            let w = choose|w: int| 0 <= w < s.len() && s[w] == x;
            if w == 0 {
                assert(res[0] == x);
            } else {
                assert(tail[w - 1] == x);
                assert(tail.contains(x));
                assert(tres.contains(x));
                let u = choose|u: int| 0 <= u < tres.len() && tres[u] == x;
                assert(res[u + 1] == x);
            }
        }
        assert(res.contains(j)) by {
            assert(tres.contains(j));
            let u = choose|u: int| 0 <= u < tres.len() && tres[u] == j;
            assert(res[u + 1] == j);
        }
        assert forall|p: int, q: int| 0 <= p < q < res.len() implies rank_before(
            scores,
            res[p],
            res[q],
        ) by {
            if p == 0 {
                assert(tres[q - 1] == res[q]);
                assert(tres.contains(res[q]));
                if res[q] == j {
                } else {
                    assert(tail.contains(res[q]));
                    let w = choose|w: int| 0 <= w < tail.len() && tail[w] == res[q];
                    assert(rank_before(scores, s[0], s[w + 1]));
                }
            } else {
                assert(rank_before(scores, tres[p - 1], tres[q - 1]));
            }
        }
    }
}

/// The ranked index sequence is a ranked permutation of `0..n`.
pub proof fn lemma_ranked_indices_props(scores: Seq<i64>, n: nat)
    ensures
        ranked_indices(scores, n).len() == n,
        forall|p: int|
            0 <= p < n ==> 0 <= #[trigger] ranked_indices(scores, n)[p] < n,
        forall|p: int, q: int|
            0 <= p < q < n ==> rank_before(
                scores,
                ranked_indices(scores, n)[p],
                ranked_indices(scores, n)[q],
            ),
        forall|j: int| 0 <= j < n ==> ranked_indices(scores, n).contains(j),
    decreases n,
{
    if n > 0 {
        let s = ranked_indices(scores, (n - 1) as nat);
        let res = ranked_indices(scores, n);
        lemma_ranked_indices_props(scores, (n - 1) as nat);
        assert forall|p: int| 0 <= p < s.len() implies s[p] != n - 1 by {}
        lemma_insert_ranked_props(s, n - 1, scores);
        assert forall|p: int| 0 <= p < n implies 0 <= #[trigger] res[p] < n by {
            assert(res.contains(res[p]));
            if res[p] == n - 1 {
            } else {
                assert(s.contains(res[p]));
                let w = choose|w: int| 0 <= w < s.len() && s[w] == res[p];
            }
        }
        assert forall|j: int| 0 <= j < n implies res.contains(j) by {
            if j == n - 1 {
                assert(res.contains(n - 1));
            } else {
                assert(s.contains(j));
                assert(res.contains(j));
            }
        }
    }
}

/// The selection outcome: the population reordered by descending fitness —
/// stable on exact ties — truncated to the first `k` (at most all) entries.
pub open spec fn select_spec(pop: Seq<Triangle>, scores: Seq<i64>, k: nat) -> Seq<Triangle>
    recommends
        pop.len() == scores.len(),
{
    let order = ranked_indices(scores, scores.len());
    let kept: nat = if k <= scores.len() {
        k
    } else {
        scores.len()
    };
    Seq::new(kept, |p: int| pop[order[p]])
}

/// Keeps the fittest `num_selected` individuals (never more than the whole
/// population): a stable sort by descending fitness, truncated.
pub fn select_population(
    population: &Vec<Triangle>,
    fitness_scores: &Vec<i64>,
    num_selected: usize,
) -> (r: Vec<Triangle>)
    requires
        population@.len() == fitness_scores@.len(),
    ensures
        r@ == select_spec(population@, fitness_scores@, num_selected as nat),
        r@.len() == (if num_selected <= population@.len() {
            num_selected as int
        } else {
            population@.len() as int
        }),
        forall|p: int| 0 <= p < r@.len() ==> population@.contains(#[trigger] r@[p]),
{
    let n: usize = population.len();
    let ghost scores = fitness_scores@;
    let mut order: Vec<usize> = Vec::new();
    let mut j: usize = 0;
    while j < n
        invariant
            j <= n,
            n == population@.len(),
            n == fitness_scores@.len(),
            scores == fitness_scores@,
            order@.len() == j,
            ranked_indices(scores, j as nat).len() == j,
            forall|p: int| 0 <= p < j ==> 0 <= #[trigger] order@[p] < j,
            forall|p: int|
                0 <= p < j ==> order@[p] as int == #[trigger] ranked_indices(scores, j as nat)[p],
        decreases n - j,
    {
        let ghost s = ranked_indices(scores, j as nat);
        let olen: usize = order.len();
        let mut p: usize = 0;
        while p < olen
            invariant
                p <= olen,
                olen == order@.len(),
                olen == j <= n,
                n == fitness_scores@.len(),
                scores == fitness_scores@,
                j < n,
                forall|q: int| 0 <= q < j ==> 0 <= #[trigger] order@[q] < j,
                forall|q: int| 0 <= q < p ==> !rank_before(scores, j as int, order@[q] as int),
            ensures
                p <= olen,
                forall|q: int| 0 <= q < p ==> !rank_before(scores, j as int, order@[q] as int),
                p < olen ==> rank_before(scores, j as int, order@[p as int] as int),
            decreases olen - p,
        {
            let oi: usize = order[p];
            let sj: i64 = fitness_scores[j];
            let so: i64 = fitness_scores[oi];
            if sj > so || (sj == so && j < oi) {
                break ;
            }
            p += 1;
        }
        proof {
            assert forall|q: int| 0 <= q < p implies !rank_before(scores, j as int, #[trigger] s[q])
                by {
                assert(order@[q] as int == s[q]);
            }
            if p < olen {
                assert(rank_before(scores, j as int, s[p as int]));
            }
            lemma_insert_ranked_at(s, j as int, scores, p as int);
        }
        order.insert(p, j);
        proof {
            let snew = ranked_indices(scores, (j + 1) as nat);
            assert(snew == s.subrange(0, p as int) + seq![j as int] + s.subrange(
                p as int,
                s.len() as int,
            ));
            assert(order@.len() == j + 1);
            assert forall|q: int| 0 <= q < j + 1 implies order@[q] as int == #[trigger] snew[q] by {
                if q < p {
                } else if q == p {
                } else {
                }
            }
            assert forall|q: int| 0 <= q < j + 1 implies 0 <= #[trigger] order@[q] < j + 1 by {}
        }
        j += 1;
    }
    let kept: usize = if num_selected <= n {
        num_selected
    } else {
        n
    };
    let mut r: Vec<Triangle> = Vec::new();
    let mut p: usize = 0;
    while p < kept
        invariant
            p <= kept <= n,
            n == population@.len(),
            n == fitness_scores@.len(),
            scores == fitness_scores@,
            order@.len() == n,
            forall|q: int| 0 <= q < n ==> 0 <= #[trigger] order@[q] < n,
            forall|q: int|
                0 <= q < n ==> order@[q] as int == #[trigger] ranked_indices(scores, n as nat)[q],
            r@.len() == p,
            forall|q: int|
                0 <= q < p ==> #[trigger] r@[q] == population@[ranked_indices(scores, n as nat)[q]],
        decreases kept - p,
    {
        let idx: usize = order[p];
        r.push(population[idx]);
        p += 1;
    }
    proof {
        assert(r@ =~= select_spec(population@, fitness_scores@, num_selected as nat));
        assert forall|p0: int| 0 <= p0 < r@.len() implies population@.contains(
            #[trigger] r@[p0],
        ) by {
            let w = ranked_indices(scores, n as nat)[p0];
            assert(order@[p0] as int == w);
            assert(0 <= order@[p0] < n);
            assert(0 <= w < population@.len() && r@[p0] == population@[w]);
        }
    }
    r
}

/// The first index of the maximum among the first `n` scores: a later entry
/// replaces the champion only when strictly better.
pub open spec fn argmax_upto(scores: Seq<i64>, n: nat) -> int
    decreases n,
{
    if n <= 1 {
        0
    } else {
        let prev = argmax_upto(scores, (n - 1) as nat);
        if scores[n - 1] > scores[prev] {
            n - 1
        } else {
            prev
        }
    }
}

/// The stable argmax is in range, maximal, and first among equals.
pub proof fn lemma_argmax_props(scores: Seq<i64>, n: nat)
    requires
        1 <= n <= scores.len(),
    ensures
        0 <= argmax_upto(scores, n) < n,
        forall|i: int| 0 <= i < n ==> scores[argmax_upto(scores, n)] >= #[trigger] scores[i],
        forall|i: int|
            0 <= i < argmax_upto(scores, n) ==> #[trigger] scores[i] < scores[argmax_upto(
                scores,
                n,
            )],
    decreases n,
{
    if n > 1 {
        lemma_argmax_props(scores, (n - 1) as nat);
    }
}

/// Finds the generation's best candidate: the first index of the maximum
/// score.
pub fn best_index(scores: &Vec<i64>) -> (r: usize)
    requires
        scores@.len() >= 1,
    ensures
        r as int == argmax_upto(scores@, scores@.len()),
        r < scores@.len(),
{
    let n: usize = scores.len();
    let mut best: usize = 0;
    let mut i: usize = 1;
    while i < n
        invariant
            1 <= i <= n,
            n == scores@.len(),
            best < i,
            best as int == argmax_upto(scores@, i as nat),
        decreases n - i,
    {
        if scores[i] > scores[best] {
            best = i;
        }
        i += 1;
    }
    best
}

} // verus!
