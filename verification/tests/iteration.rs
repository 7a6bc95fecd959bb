use imads::iteration::{batch_boundary, poll_candidate_id, resolve_search_dim, IterationControl};
use imads::mesh::MeshLattice;
use imads::types::CandidateId;

#[test]
fn search_dimension_prefers_config_then_evaluator() {
    assert_eq!(resolve_search_dim(Some(3), Some(7)), 3);
    assert_eq!(resolve_search_dim(None, Some(7)), 7);
    assert_eq!(resolve_search_dim(None, None), 1);
}

#[test]
fn batch_boundary_defaults_to_batch_size_and_is_positive() {
    assert_eq!(batch_boundary(Some(4), 8), 4);
    assert_eq!(batch_boundary(None, 8), 8);
    assert_eq!(batch_boundary(Some(0), 8), 1);
    assert_eq!(batch_boundary(None, 0), 1);
}

#[test]
fn poll_ids_live_in_their_own_namespace() {
    assert_eq!(poll_candidate_id(2, 5), CandidateId(0x8000_0000_0000_0000 | (2 << 32) | 5));
}

#[test]
fn iteration_steps_and_poll_schedule() {
    let mut it = IterationControl::start(Some(5));
    assert!(it.has_steps());
    assert_eq!(it.batch_take(8, 4), 4);
    it.note_completed(4);
    assert_eq!(it.steps_left, 1);
    assert_eq!(it.batch_take(8, 4), 1);
    it.note_completed(3);
    assert_eq!(it.steps_left, 0);
    assert!(!it.has_steps());

    let mut it = IterationControl::start(None);
    assert_eq!(it.steps_left, usize::MAX);
    assert!(!it.should_inject_poll(false));
    assert!(it.should_inject_poll(true));
    it.mark_poll_generated();
    assert!(!it.should_inject_poll(true));
}

#[test]
fn mesh_refines_only_after_a_failed_poll() {
    let mut mesh = MeshLattice { mesh_mul: 8, mesh_mul_min: 1, refine_div: 2, poll_step_mult: 1 };
    let it = IterationControl::start(None);
    it.finish(&mut mesh);
    assert_eq!(mesh.mesh_mul, 8);
    let mut it = IterationControl::start(None);
    it.mark_poll_generated();
    it.finish(&mut mesh);
    assert_eq!(mesh.mesh_mul, 4);
    it.note_improvement();
    it.finish(&mut mesh);
    assert_eq!(mesh.mesh_mul, 4);
}
