use tri_klops::canvas::{draw_triangle_onto_canvas, Canvas};
use tri_klops::engine::{run_algorithm, CancelFlag, ProgressMonitor, VectorDocument};
use tri_klops::fitness::compute_mse;
use tri_klops::params::{AlgorithmParams, FitnessAlgorithm, StartError};
use tri_klops::triangle::{Color, Triangle, Vertex};

fn tri(v0: (i32, i32), v1: (i32, i32), v2: (i32, i32), color: (u8, u8, u8)) -> Triangle {
    Triangle {
        v0: Vertex { x: v0.0, y: v0.1 },
        v1: Vertex { x: v1.0, y: v1.1 },
        v2: Vertex { x: v2.0, y: v2.1 },
        color: Color { r: color.0, g: color.1, b: color.2 },
        opacity: None,
    }
}

fn red_canvas(size: u32) -> Canvas {
    let n = (size as usize) * (size as usize);
    let mut bytes = Vec::new();
    for _ in 0..n {
        bytes.push(255u8);
        bytes.push(0u8);
        bytes.push(0u8);
    }
    Canvas::from_bytes(size, bytes)
}

fn tiny_params() -> AlgorithmParams {
    AlgorithmParams {
        num_triangles: 1,
        image_size: 8,
        num_generations: 1,
        population_size: 4,
        num_selected: 2,
        mutation_rate: 0,
        degeneracy_threshold: None,
        seed: Some(42),
        fitness_algorithm: FitnessAlgorithm::Mse,
        use_opacity: false,
    }
}

#[test]
fn drawing_covers_pixels_and_blends_with_opacity() {
    let mut canvas = Canvas::new(8);
    let solid = tri((0, 0), (7, 0), (0, 7), (255, 255, 255));
    draw_triangle_onto_canvas(&mut canvas, &solid);
    // the pixel one step inside the corner is covered and fully white
    let idx = (1 * 8 + 1) * 3;
    assert_eq!(canvas.byte_at(idx), 255);

    let mut blended = Canvas::new(8);
    let translucent = Triangle { opacity: Some(5_000), ..solid };
    draw_triangle_onto_canvas(&mut blended, &translucent);
    // half opacity of white over black rounds down to 127
    assert_eq!(blended.byte_at(idx), 127);

    // a closed two-point path is not drawn at all
    let mut untouched = Canvas::new(8);
    let collapsed = tri((2, 2), (5, 5), (2, 2), (255, 255, 255));
    draw_triangle_onto_canvas(&mut untouched, &collapsed);
    assert_eq!(untouched, Canvas::new(8));
}

#[test]
fn run_rejects_invalid_configuration() {
    let mut p = tiny_params();
    p.num_selected = 0;
    let reference = red_canvas(8);
    let r = run_algorithm(p, &reference, &ProgressMonitor::new(), &CancelFlag::new());
    assert_eq!(r.err(), Some(StartError::Configuration));
}

#[test]
fn run_rejects_mismatched_reference() {
    let p = tiny_params();
    let reference = red_canvas(16);
    let r = run_algorithm(p, &reference, &ProgressMonitor::new(), &CancelFlag::new());
    assert_eq!(r.err(), Some(StartError::InputMismatch));
}

#[test]
fn one_triangle_run_improves_on_the_blank_canvas() {
    let p = tiny_params();
    let reference = red_canvas(8);
    let out = run_algorithm(p, &reference, &ProgressMonitor::new(), &CancelFlag::new())
        .expect("the run starts");
    assert!(!out.cancelled);
    assert_eq!(out.seed_used, 42);
    assert_eq!(out.document.record_count(), 2);
    let blank = Canvas::new(8);
    let mse_before = compute_mse(&blank, &reference);
    let mse_after = compute_mse(&out.canvas, &reference);
    assert!(
        mse_after < mse_before,
        "committed canvas must score better than blank: {} vs {}",
        mse_after,
        mse_before
    );
}

#[test]
fn runs_with_the_same_seed_are_byte_identical() {
    let mut p = tiny_params();
    p.num_triangles = 3;
    p.num_generations = 2;
    p.mutation_rate = 300_000;
    let reference = red_canvas(8);
    let a = run_algorithm(p, &reference, &ProgressMonitor::new(), &CancelFlag::new()).unwrap();
    let b = run_algorithm(p, &reference, &ProgressMonitor::new(), &CancelFlag::new()).unwrap();
    assert_eq!(a.canvas, b.canvas);
    assert_eq!(a.document, b.document);
}

#[test]
fn longer_runs_keep_the_shorter_runs_prefix() {
    let mut p1 = tiny_params();
    p1.num_triangles = 2;
    p1.num_generations = 2;
    p1.mutation_rate = 300_000;
    let mut p2 = p1;
    p2.num_triangles = 3;
    let reference = red_canvas(8);
    let a = run_algorithm(p1, &reference, &ProgressMonitor::new(), &CancelFlag::new()).unwrap();
    let b = run_algorithm(p2, &reference, &ProgressMonitor::new(), &CancelFlag::new()).unwrap();
    let shorter = a.document.polygon_count();
    assert!(b.document.polygon_count() >= shorter);
    for i in 0..shorter {
        assert_eq!(a.document.polygon_at(i), b.document.polygon_at(i));
    }
}

#[test]
fn a_preset_cancellation_commits_nothing() {
    let mut p = tiny_params();
    p.num_triangles = 5;
    let reference = red_canvas(8);
    let monitor = ProgressMonitor::new();
    let flag = CancelFlag::new();
    flag.request_stop();
    let out = run_algorithm(p, &reference, &monitor, &flag).unwrap();
    assert!(out.cancelled);
    assert_eq!(out.document.record_count(), 1);
    assert_eq!(out.canvas, Canvas::new(8));
    let snap = monitor.snapshot();
    assert!(snap.is_complete);
    assert!(!snap.is_running);
    assert!(!snap.should_stop);
}

#[test]
fn an_uncancelled_run_completes_and_publishes_snapshots() {
    let p = tiny_params();
    let reference = red_canvas(8);
    let monitor = ProgressMonitor::new();
    let out = run_algorithm(p, &reference, &monitor, &CancelFlag::new()).unwrap();
    assert!(!out.cancelled);
    let snap = monitor.snapshot();
    assert!(snap.is_complete);
    if out.document.polygon_count() > 0 {
        let canvas_snap = monitor.snapshot_canvas().expect("a commit publishes the canvas");
        assert_eq!(canvas_snap, out.canvas);
        let doc_snap = monitor.snapshot_document().expect("a commit publishes the document");
        assert_eq!(doc_snap, out.document);
    }
}

#[test]
fn document_records_commits_in_order() {
    let mut d = VectorDocument::new(8, 8);
    assert_eq!(d.record_count(), 1);
    assert_eq!(d.width(), 8);
    assert_eq!(d.height(), 8);
    let t1 = tri((0, 0), (1, 0), (0, 1), (9, 9, 9));
    let t2 = tri((2, 2), (3, 2), (2, 3), (4, 4, 4));
    d.add_triangle(&t1);
    d.add_triangle(&t2);
    assert_eq!(d.record_count(), 3);
    assert_eq!(d.polygon_count(), 2);
    assert_eq!(d.polygon_at(0), t1);
    assert_eq!(d.polygon_at(1), t2);
}

#[test]
fn opacity_variant_commits_translucent_polygons() {
    let mut p = tiny_params();
    p.use_opacity = true;
    let reference = red_canvas(8);
    let out = run_algorithm(p, &reference, &ProgressMonitor::new(), &CancelFlag::new()).unwrap();
    for i in 0..out.document.polygon_count() {
        let t = out.document.polygon_at(i);
        let o = t.opacity.expect("the opacity variant carries an opacity");
        assert!(o <= 10_000);
    }
}

#[test]
fn ssim_runs_complete_deterministically() {
    let mut p = tiny_params();
    p.fitness_algorithm = FitnessAlgorithm::SimplifiedPerPixelSsim;
    p.num_generations = 2;
    let reference = red_canvas(8);
    let a = run_algorithm(p, &reference, &ProgressMonitor::new(), &CancelFlag::new()).unwrap();
    let b = run_algorithm(p, &reference, &ProgressMonitor::new(), &CancelFlag::new()).unwrap();
    assert_eq!(a.canvas, b.canvas);
    assert_eq!(a.document, b.document);
}

#[test]
fn filtered_runs_complete_deterministically() {
    let mut p = tiny_params();
    p.degeneracy_threshold = Some(1_000);
    p.num_generations = 2;
    let reference = red_canvas(8);
    let a = run_algorithm(p, &reference, &ProgressMonitor::new(), &CancelFlag::new()).unwrap();
    let b = run_algorithm(p, &reference, &ProgressMonitor::new(), &CancelFlag::new()).unwrap();
    assert_eq!(a.canvas, b.canvas);
    assert_eq!(a.document, b.document);
    for i in 0..a.document.polygon_count() {
        let t = a.document.polygon_at(i);
        assert!(!tri_klops::geometry::is_degenerate(&t, 1_000));
    }
}

#[test]
fn a_finished_run_consumes_the_cancellation_request() {
    let mut p = tiny_params();
    p.num_triangles = 4;
    let reference = red_canvas(8);
    let flag = CancelFlag::new();
    flag.request_stop();
    assert!(flag.is_set());
    let out = run_algorithm(p, &reference, &ProgressMonitor::new(), &flag).unwrap();
    assert!(out.cancelled);
    assert!(!flag.is_set());
    // with the request consumed, a second run goes to completion
    let again = run_algorithm(p, &reference, &ProgressMonitor::new(), &flag).unwrap();
    assert!(!again.cancelled);
}
