use tri_klops::params::{AlgorithmParams, FitnessAlgorithm, StartError, RATE_SCALE};

fn base() -> AlgorithmParams {
    AlgorithmParams::default()
}

#[test]
fn default_params_are_the_stock_configuration() {
    let p = base();
    assert_eq!(p.num_triangles, 512);
    assert_eq!(p.image_size, 256);
    assert_eq!(p.num_generations, 256);
    assert_eq!(p.population_size, 128);
    assert_eq!(p.num_selected, 64);
    assert_eq!(p.mutation_rate, RATE_SCALE / 10);
    assert_eq!(p.degeneracy_threshold, None);
    assert_eq!(p.seed, None);
    assert_eq!(p.fitness_algorithm, FitnessAlgorithm::Mse);
    assert!(!p.use_opacity);
    assert!(p.validate().is_ok());
}

#[test]
fn rejects_zero_image_size() {
    let mut p = base();
    p.image_size = 0;
    assert_eq!(p.validate(), Err(StartError::Configuration));
}

#[test]
fn rejects_oversized_canvas() {
    let mut p = base();
    p.image_size = 4097;
    assert_eq!(p.validate(), Err(StartError::Configuration));
}

#[test]
fn rejects_zero_selection() {
    let mut p = base();
    p.num_selected = 0;
    assert_eq!(p.validate(), Err(StartError::Configuration));
}

#[test]
fn rejects_selection_beyond_population() {
    let mut p = base();
    p.num_selected = p.population_size + 1;
    assert_eq!(p.validate(), Err(StartError::Configuration));
}

#[test]
fn rejects_mutation_rate_above_one() {
    let mut p = base();
    p.mutation_rate = RATE_SCALE + 1;
    assert_eq!(p.validate(), Err(StartError::Configuration));
}

#[test]
fn rejects_threshold_beyond_half_turn() {
    let mut p = base();
    p.degeneracy_threshold = Some(180_001);
    assert_eq!(p.validate(), Err(StartError::Configuration));
}

#[test]
fn accepts_boundary_values() {
    let mut p = base();
    p.image_size = 1;
    p.num_selected = p.population_size;
    p.mutation_rate = RATE_SCALE;
    p.degeneracy_threshold = Some(180_000);
    assert!(p.validate().is_ok());
}

#[test]
fn error_descriptions_name_the_failure() {
    assert_eq!(StartError::Configuration.describe(), "invalid algorithm parameters");
    assert_eq!(
        StartError::InputMismatch.describe(),
        "reference image does not match the configured canvas size"
    );
}
