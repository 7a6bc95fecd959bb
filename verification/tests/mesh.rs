use imads::mesh::MeshLattice;

#[test]
fn mesh_refine_is_integer_only_and_monotone() {
    let mut geo = MeshLattice {
        mesh_mul: 8,
        mesh_mul_min: 2,
        refine_div: 2,
        poll_step_mult: 1,
    };

    geo.refine();
    assert_eq!(geo.mesh_mul, 4);

    geo.refine();
    assert_eq!(geo.mesh_mul, 2);

    // Should clamp at mesh_mul_min.
    geo.refine();
    assert_eq!(geo.mesh_mul, 2);
}

#[test]
fn mesh_refine_clamps_to_floor_and_effective_divisor() {
    // Divisor below 2 acts as 2; a quotient below the floor stops at the floor.
    let mut geo = MeshLattice { mesh_mul: 9, mesh_mul_min: 3, refine_div: 1, poll_step_mult: 1 };
    geo.refine();
    assert_eq!(geo.mesh_mul, 4);
    geo.refine();
    assert_eq!(geo.mesh_mul, 3);
    let mut geo = MeshLattice { mesh_mul: 100, mesh_mul_min: 0, refine_div: 10, poll_step_mult: 1 };
    geo.refine();
    assert_eq!(geo.mesh_mul, 10);
    geo.refine();
    assert_eq!(geo.mesh_mul, 1);
    geo.refine();
    assert_eq!(geo.mesh_mul, 1);
}

// Quantising a real point onto the mesh is floating-point work done in app/; the
// property checked here is the nesting itself: a point on the coarse mesh stays on
// the refined one.
#[test]
fn nested_mesh_property_holds_for_refinement() {
    let mut geo = MeshLattice { mesh_mul: 4, mesh_mul_min: 1, refine_div: 2, poll_step_mult: 1 };
    let x = [8i64, -4, 0];
    for &u in &x {
        assert_eq!(u % geo.mesh_mul, 0);
    }
    geo.refine();
    assert_eq!(geo.mesh_mul, 2);
    for &u in &x {
        assert_eq!(u % geo.mesh_mul, 0);
    }
}

#[test]
fn mesh_from_config_applies_lower_bounds() {
    let geo = MeshLattice::from_config(0, -3, 1, 0);
    assert_eq!(geo, MeshLattice { mesh_mul: 1, mesh_mul_min: 1, refine_div: 2, poll_step_mult: 1 });
    let geo = MeshLattice::from_config(16, 2, 4, 3);
    assert_eq!(geo, MeshLattice { mesh_mul: 16, mesh_mul_min: 2, refine_div: 4, poll_step_mult: 3 });
}

#[test]
fn mesh_poll_step_units_is_mul_times_multiplier() {
    let geo = MeshLattice { mesh_mul: 4, mesh_mul_min: 1, refine_div: 2, poll_step_mult: 3 };
    assert_eq!(geo.poll_step_units(), 12);
    let geo = MeshLattice { mesh_mul: 4, mesh_mul_min: 1, refine_div: 2, poll_step_mult: 0 };
    assert_eq!(geo.poll_step_units(), 4);
}

#[test]
fn mesh_anisotropic_refines_every_dimension() {
    let geo = MeshLattice { mesh_mul: 8, mesh_mul_min: 2, refine_div: 2, poll_step_mult: 2 };
    let mut an = geo.to_anisotropic(3);
    assert_eq!(an.dim(), 3);
    assert_eq!(an.mesh_muls, vec![8, 8, 8]);
    assert_eq!(an.poll_step_units(), vec![16, 16, 16]);
    an.refine();
    assert_eq!(an.mesh_muls, vec![4, 4, 4]);
    an.refine();
    an.refine();
    assert_eq!(an.mesh_muls, vec![2, 2, 2]);
}
