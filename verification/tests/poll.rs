use imads::poll::DefaultPoll;
use imads::types::XMesh;

#[test]
fn poll_generates_axis_points_with_step() {
    let center = XMesh(vec![10, -5, 0]);
    let pts = DefaultPoll::generate_points(&center, 3);
    assert_eq!(pts.len(), 6);
    // Each point differs from center in exactly one coordinate by ±step.
    for p in pts {
        let mut diffs = 0;
        for (a, b) in p.0.iter().zip(center.0.iter()) {
            let d = a - b;
            if d != 0 {
                diffs += 1;
                assert!(d == 3 || d == -3);
            }
        }
        assert_eq!(diffs, 1);
    }
}

#[test]
fn poll_points_come_in_plus_minus_pairs_per_axis() {
    let center = XMesh(vec![1, 2]);
    let pts = DefaultPoll::generate_points(&center, 4);
    assert_eq!(pts[0].0, vec![5, 2]);
    assert_eq!(pts[1].0, vec![-3, 2]);
    assert_eq!(pts[2].0, vec![1, 6]);
    assert_eq!(pts[3].0, vec![1, -2]);
}

#[test]
fn poll_step_below_one_uses_one() {
    let center = XMesh(vec![0]);
    let pts = DefaultPoll::generate_points(&center, 0);
    assert_eq!(pts[0].0, vec![1]);
    assert_eq!(pts[1].0, vec![-1]);
    let pts = DefaultPoll::generate_points(&center, -7);
    assert_eq!(pts[0].0, vec![1]);
    assert_eq!(pts[1].0, vec![-1]);
}

#[test]
fn poll_saturates_at_i64_bounds() {
    let center = XMesh(vec![i64::MAX, i64::MIN]);
    let pts = DefaultPoll::generate_points(&center, 5);
    assert_eq!(pts[0].0, vec![i64::MAX, i64::MIN]);
    assert_eq!(pts[1].0, vec![i64::MAX - 5, i64::MIN]);
    assert_eq!(pts[2].0, vec![i64::MAX, i64::MIN + 5]);
    assert_eq!(pts[3].0, vec![i64::MAX, i64::MIN]);
}

#[test]
fn poll_empty_center_gives_no_points() {
    let pts = DefaultPoll::generate_points(&XMesh(vec![]), 3);
    assert!(pts.is_empty());
}

#[test]
fn poll_aniso_uses_per_axis_steps_with_default_one() {
    let center = XMesh(vec![0, 0, 0]);
    let pts = DefaultPoll::generate_points_aniso(&center, &[2, 0]);
    assert_eq!(pts.len(), 6);
    assert_eq!(pts[0].0, vec![2, 0, 0]);
    assert_eq!(pts[1].0, vec![-2, 0, 0]);
    assert_eq!(pts[2].0, vec![0, 1, 0]);
    assert_eq!(pts[3].0, vec![0, -1, 0]);
    assert_eq!(pts[4].0, vec![0, 0, 1]);
    assert_eq!(pts[5].0, vec![0, 0, -1]);
}

#[test]
fn poll_aniso_with_uniform_steps_matches_isotropic() {
    let center = XMesh(vec![3, -7, 12]);
    for s in [4i64, 1, 0, -2] {
        let iso = DefaultPoll::generate_points(&center, s);
        let aniso = DefaultPoll::generate_points_aniso(&center, &vec![s; 3]);
        assert_eq!(aniso, iso);
    }
}

#[test]
fn poll_aniso_ignores_steps_beyond_dimension() {
    let center = XMesh(vec![0, 5]);
    let a = DefaultPoll::generate_points_aniso(&center, &[3, 2]);
    let b = DefaultPoll::generate_points_aniso(&center, &[3, 2, 99, -4]);
    assert_eq!(a, b);
    assert_eq!(a[0].0, vec![3, 5]);
    assert_eq!(a[3].0, vec![0, 3]);
}
