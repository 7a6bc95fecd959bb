use imads::config::{
    IntegerConfig, CALIBRATOR_K_MIN_PAIRS, CALIBRATOR_K_WINDOW, CALIBRATOR_MIN_AUDITS, EXECUTOR_CHUNK_BASE_RANGE,
    MESH_MUL_INIT, MESH_MUL_MIN, MESH_REFINE_DIV, OBJECTIVE_PRUNE_MIN_LEVEL, OBJECTIVE_PRUNE_MIN_SMC_RANK,
    POLL_STEP_MULT, SEARCH_DIM,
};

fn base() -> IntegerConfig {
    IntegerConfig {
        mesh_mul_init: 4,
        mesh_mul_min: 1,
        mesh_refine_div: 2,
        poll_step_mult: 1,
        search_dim: Some(4),
        calibrator_min_audits: 20,
        calibrator_k_window: 64,
        calibrator_k_min_pairs: 20,
        objective_prune_min_smc_rank: 2,
        objective_prune_min_level: 2,
        executor_chunk_base: 32,
        executor_chunk_min: 1,
        executor_chunk_max: 256,
    }
}

#[test]
fn engine_config_validates_k_params_regression() {
    let err = IntegerConfig { calibrator_k_window: 0, calibrator_k_min_pairs: 25, ..base() }.errors();
    assert!(err & CALIBRATOR_K_WINDOW != 0);

    let err = IntegerConfig { calibrator_k_window: 16, calibrator_k_min_pairs: 32, ..base() }.errors();
    assert!(err & CALIBRATOR_K_MIN_PAIRS != 0);
    assert!(err & CALIBRATOR_K_WINDOW == 0);
}

#[test]
fn engine_config_validates_objective_pruning_params() {
    let err = IntegerConfig {
        calibrator_k_window: 4096,
        calibrator_k_min_pairs: 25,
        objective_prune_min_smc_rank: 0,
        objective_prune_min_level: 0,
        ..base()
    }
    .errors();
    assert!(err & OBJECTIVE_PRUNE_MIN_SMC_RANK != 0);
    assert!(err & OBJECTIVE_PRUNE_MIN_LEVEL != 0);
}

#[test]
fn valid_integer_config_has_no_errors() {
    assert_eq!(base().errors(), 0);
}

#[test]
fn each_integer_rule_sets_its_own_bit() {
    assert_eq!(IntegerConfig { calibrator_min_audits: 0, ..base() }.errors(), CALIBRATOR_MIN_AUDITS);
    assert_eq!(IntegerConfig { mesh_mul_min: 0, mesh_mul_init: 1, ..base() }.errors(), MESH_MUL_MIN);
    assert_eq!(IntegerConfig { mesh_mul_min: 8, ..base() }.errors(), MESH_MUL_INIT);
    assert_eq!(IntegerConfig { mesh_refine_div: 1, ..base() }.errors(), MESH_REFINE_DIV);
    assert_eq!(IntegerConfig { poll_step_mult: 0, ..base() }.errors(), POLL_STEP_MULT);
    assert_eq!(IntegerConfig { search_dim: Some(0), ..base() }.errors(), SEARCH_DIM);
    assert_eq!(IntegerConfig { search_dim: None, ..base() }.errors(), 0);
    assert_eq!(IntegerConfig { executor_chunk_base: 512, ..base() }.errors(), EXECUTOR_CHUNK_BASE_RANGE);
    assert_eq!(IntegerConfig { calibrator_k_min_pairs: 0, ..base() }.errors(), CALIBRATOR_K_MIN_PAIRS);
}
