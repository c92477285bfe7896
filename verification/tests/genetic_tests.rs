use tri_klops::canvas::Canvas;
use tri_klops::fitness::{compute_mse, evaluate_fitness_batch, fitness_of};
use tri_klops::genetic::{
    best_index, crossover, generate_initial_population, generate_new_population, make_individual,
    mutate, reproduce_one, select_population,
};
use tri_klops::geometry::{cos_fp_exec, is_degenerate, COS_ONE};
use tri_klops::params::FitnessAlgorithm;
use tri_klops::rng::WordStream;
use tri_klops::triangle::{Color, Triangle, Vertex};

fn tri(v0: (i32, i32), v1: (i32, i32), v2: (i32, i32), color: (u8, u8, u8)) -> Triangle {
    Triangle {
        v0: Vertex { x: v0.0, y: v0.1 },
        v1: Vertex { x: v1.0, y: v1.1 },
        v2: Vertex { x: v2.0, y: v2.1 },
        color: Color { r: color.0, g: color.1, b: color.2 },
        opacity: None,
    }
}

fn red_canvas(size: u32) -> Canvas {
    let n = (size as usize) * (size as usize);
    let mut bytes = Vec::new();
    for _ in 0..n {
        bytes.push(255u8);
        bytes.push(0u8);
        bytes.push(0u8);
    }
    Canvas::from_bytes(size, bytes)
}

#[test]
fn word_streams_reproduce_and_differ_by_seed() {
    let mut a = WordStream::from_seed(1);
    let mut b = WordStream::from_seed(1);
    let mut c = WordStream::from_seed(2);
    let wa = a.next_word();
    let wb = b.next_word();
    let wc = c.next_word();
    assert_eq!(wa, wb);
    assert_ne!(wa, wc);
}

#[test]
fn individuals_are_reproducible_and_on_canvas() {
    let a = make_individual(64, false, 99);
    let b = make_individual(64, false, 99);
    let c = make_individual(64, false, 100);
    assert_eq!(a, b);
    assert_ne!(a, c);
    for v in [a.v0, a.v1, a.v2] {
        assert!((0..64).contains(&v.x));
        assert!((0..64).contains(&v.y));
    }
    assert_eq!(a.opacity, None);
    let d = make_individual(64, true, 99);
    let o = d.opacity.expect("opacity variant samples an opacity");
    assert!(o <= 10_000);
}

#[test]
fn crossover_is_reproducible_and_gene_wise() {
    let p1 = tri((0, 0), (1, 1), (2, 2), (10, 20, 30));
    let p2 = tri((5, 5), (6, 6), (7, 7), (110, 120, 130));
    let mut r1 = WordStream::from_seed(7);
    let mut r2 = WordStream::from_seed(7);
    let c1 = crossover(&p1, &p2, &mut r1);
    let c2 = crossover(&p1, &p2, &mut r2);
    assert_eq!(c1, c2);
    for v in [c1.v0, c1.v1, c1.v2] {
        assert!(v == p1.v0 || v == p1.v1 || v == p1.v2 || v == p2.v0 || v == p2.v1 || v == p2.v2);
    }
    assert!(c1.color.r == p1.color.r || c1.color.r == p2.color.r);
    assert!(c1.color.g == p1.color.g || c1.color.g == p2.color.g);
    assert!(c1.color.b == p1.color.b || c1.color.b == p2.color.b);
}

#[test]
fn mutation_with_zero_rate_is_identity() {
    let t = tri((3, 4), (10, 11), (20, 21), (1, 2, 3));
    let mut rng = WordStream::from_seed(5);
    let m = mutate(&t, 64, 0, &mut rng);
    assert_eq!(m, t);
}

#[test]
fn mutation_is_reproducible_and_stays_on_canvas() {
    let t = tri((3, 4), (10, 11), (62, 63), (1, 2, 250));
    let mut r1 = WordStream::from_seed(12);
    let mut r2 = WordStream::from_seed(12);
    let m1 = mutate(&t, 64, 1_000_000, &mut r1);
    let m2 = mutate(&t, 64, 1_000_000, &mut r2);
    assert_eq!(m1, m2);
    for v in [m1.v0, m1.v1, m1.v2] {
        assert!((0..64).contains(&v.x));
        assert!((0..64).contains(&v.y));
    }
}

#[test]
fn reproduction_is_reproducible_for_identical_parents_and_sub_seed() {
    let parents1 = vec![
        tri((0, 0), (5, 0), (0, 5), (200, 0, 0)),
        tri((1, 1), (6, 1), (1, 6), (0, 200, 0)),
    ];
    let parents2 = parents1.clone();
    let a = reproduce_one(&parents1, 64, 500_000, 4242);
    let b = reproduce_one(&parents2, 64, 500_000, 4242);
    assert_eq!(a, b);
}

#[test]
fn populations_are_reproducible_from_the_master_seed() {
    let mut r1 = WordStream::from_seed(77);
    let mut r2 = WordStream::from_seed(77);
    let p1 = generate_initial_population(6, 32, &mut r1, false);
    let p2 = generate_initial_population(6, 32, &mut r2, false);
    assert_eq!(p1.len(), 6);
    assert_eq!(p1, p2);
    let n1 = generate_new_population(&p1, 6, 32, 250_000, &mut r1);
    let n2 = generate_new_population(&p2, 6, 32, 250_000, &mut r2);
    assert_eq!(n1.len(), 6);
    assert_eq!(n1, n2);
}

#[test]
fn selection_keeps_the_fittest_and_is_stable_on_ties() {
    let pop = vec![
        tri((0, 0), (1, 0), (0, 1), (1, 1, 1)),
        tri((0, 0), (2, 0), (0, 2), (2, 2, 2)),
        tri((0, 0), (3, 0), (0, 3), (3, 3, 3)),
        tri((0, 0), (4, 0), (0, 4), (4, 4, 4)),
    ];
    let scores: Vec<i64> = vec![5, 9, 9, 1];
    let kept = select_population(&pop, &scores, 2);
    assert_eq!(kept.len(), 2);
    assert_eq!(kept[0], pop[1]);
    assert_eq!(kept[1], pop[2]);
    let all = select_population(&pop, &scores, 10);
    assert_eq!(all.len(), 4);
    assert_eq!(all[0], pop[1]);
    assert_eq!(all[1], pop[2]);
    assert_eq!(all[2], pop[0]);
    assert_eq!(all[3], pop[3]);
}

#[test]
fn best_index_keeps_the_first_on_ties() {
    let scores: Vec<i64> = vec![3, 8, 8, 2];
    assert_eq!(best_index(&scores), 1);
    let single: Vec<i64> = vec![-4];
    assert_eq!(best_index(&single), 0);
}

#[test]
fn mse_of_blank_against_red_is_exact() {
    let blank = Canvas::new(8);
    let red = red_canvas(8);
    assert_eq!(compute_mse(&blank, &red), 64 * 65025);
    assert_eq!(compute_mse(&red, &red), 0);
}

#[test]
fn ssim_of_identical_rasters_is_full_similarity() {
    let red = red_canvas(8);
    let s = fitness_of(&red, &red, FitnessAlgorithm::SimplifiedPerPixelSsim);
    assert_eq!(s, 64 * 1_048_576);
}

#[test]
fn batch_scores_follow_population_order() {
    let blank = Canvas::new(8);
    let red = red_canvas(8);
    // a red triangle matches the red reference better than a blue one
    let pop = vec![
        tri((0, 0), (7, 0), (0, 7), (255, 0, 0)),
        tri((0, 0), (7, 0), (0, 7), (0, 0, 255)),
    ];
    let scores = evaluate_fitness_batch(&pop, &blank, &red, FitnessAlgorithm::Mse, 0);
    assert_eq!(scores.len(), 2);
    assert!(scores[0] > scores[1]);
}

#[test]
fn coincident_vertices_are_degenerate_for_any_positive_threshold() {
    let shapes = [
        tri((3, 3), (3, 3), (9, 1), (0, 0, 0)),
        tri((1, 2), (8, 4), (8, 4), (0, 0, 0)),
        tri((5, 6), (8, 4), (5, 6), (0, 0, 0)),
    ];
    for t in shapes {
        assert!(is_degenerate(&t, 1));
        assert!(is_degenerate(&t, 1_000));
        assert!(is_degenerate(&t, 179_999));
    }
}

#[test]
fn thin_triangles_are_degenerate_and_fat_ones_are_not() {
    let thin = tri((0, 0), (2000, 1), (4000, 2), (0, 0, 0));
    assert!(is_degenerate(&thin, 1_000));
    let fat = tri((0, 0), (4000, 0), (2000, 3000), (0, 0, 0));
    assert!(!is_degenerate(&fat, 1_000));
}

#[test]
fn fixed_point_cosine_hits_the_landmarks() {
    assert_eq!(cos_fp_exec(0), COS_ONE);
    assert_eq!(cos_fp_exec(180_000), -COS_ONE);
    let at_sixty = cos_fp_exec(60_000);
    assert!((at_sixty - COS_ONE / 2).abs() < 100_000);
    let at_ninety = cos_fp_exec(90_000);
    assert!(at_ninety.abs() < 100_000);
}

#[test]
fn hard_rejected_candidates_never_beat_a_live_one() {
    let blank = Canvas::new(8);
    let red = red_canvas(8);
    let degenerate = tri((2, 2), (2, 2), (6, 6), (255, 0, 0));
    let live = tri((0, 0), (7, 0), (0, 7), (0, 255, 255));
    let pop = vec![degenerate, live];
    let scores = evaluate_fitness_batch(&pop, &blank, &red, FitnessAlgorithm::Mse, 1_000);
    assert_eq!(scores[0], i64::MIN);
    assert!(scores[1] > i64::MIN);
    assert_eq!(best_index(&scores), 1);
}

#[test]
fn zero_threshold_disables_the_filter() {
    let blank = Canvas::new(8);
    let red = red_canvas(8);
    let degenerate = tri((2, 2), (2, 2), (6, 6), (255, 0, 0));
    let pop = vec![degenerate];
    let scores = evaluate_fitness_batch(&pop, &blank, &red, FitnessAlgorithm::Mse, 0);
    assert!(scores[0] > i64::MIN);
}
