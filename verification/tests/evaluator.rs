use imads::evaluator::ToyEvaluator;

#[test]
fn toy_evaluator_reports_its_shape() {
    let e = ToyEvaluator { m: 3, dim: 0 };
    assert_eq!(e.num_constraints(), 3);
    assert_eq!(e.search_dim(), None);
    let e = ToyEvaluator { m: 0, dim: 5 };
    assert_eq!(e.num_constraints(), 0);
    assert_eq!(e.search_dim(), Some(5));
}

#[test]
fn toy_constraint_seeds_differ_per_constraint() {
    let a = ToyEvaluator::constraint_seed(1, 0);
    let b = ToyEvaluator::constraint_seed(1, 1);
    assert_ne!(a, b);
    assert_eq!(a, ToyEvaluator::constraint_seed(1, 0));
}
