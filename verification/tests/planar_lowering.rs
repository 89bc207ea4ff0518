use geosolve_linkage::ids::{PlanarBodyId, PlanarFeatureId};
use geosolve_linkage::linkage::{JointKind, Linkage, PlanarBits, PlaneFrameBits, PoseBits, SpatialBits};
use geosolve_linkage::model::{BranchMonitor, BranchSign, DriverKind, LinkageError};
use geosolve_linkage::planar::{
    capture_source, lower_source, PlanarLinkageError, PlanarLinkageRuntimeMap, PlanarReferenceKind, PlanarRuntimeFeature,
    PlanarRuntimeSource, PlanarSourceTopology,
};
use geosolve_linkage::ids::PlanarSourceId;
use geosolve_linkage::planar::PlanarField;
use geosolve_linkage::planar_lowering::{lower_source_into, project_runtime_state, PlanarSourceValues};
use geosolve_linkage::runtime_ids::{AxisFeatureId, BodyId, PointFeatureId};

struct Fixture {
    linkage: Linkage,
    map: PlanarLinkageRuntimeMap,
    ground: BodyId,
    arm: BodyId,
    g: PointFeatureId,
    a: PointFeatureId,
    x: AxisFeatureId,
}

fn fixture() -> Fixture {
    let v = |x: f64, y: f64, z: f64| SpatialBits { x: x.to_bits(), y: y.to_bits(), z: z.to_bits() };
    let frame = PlaneFrameBits { origin: v(0.0, 0.0, 0.0), u: v(1.0, 0.0, 0.0), v: v(0.0, 1.0, 0.0) };
    let mut linkage = Linkage::new(1.0f64.to_bits(), frame, None).unwrap();
    let zero = PoseBits { x: 0, y: 0, angle: 0 };
    let origin = PlanarBits { x: 0, y: 0 };
    let ground = linkage.add_body("ground", zero, true).unwrap();
    let arm = linkage.add_body("arm", zero, false).unwrap();
    let g = linkage.add_point_feature("g", ground, origin).unwrap();
    let a = linkage.add_point_feature("a", arm, origin).unwrap();
    let x = linkage.add_axis_feature("x", ground, Some(PlanarBits { x: 1.0f64.to_bits(), y: 0 })).unwrap();
    let mut map = PlanarLinkageRuntimeMap::new();
    map.push_body(PlanarBodyId::from_u128(1), ground);
    map.push_body(PlanarBodyId::from_u128(2), arm);
    map.push_feature(PlanarFeatureId::from_u128(3), PlanarRuntimeFeature::Point(g));
    map.push_feature(PlanarFeatureId::from_u128(4), PlanarRuntimeFeature::Point(a));
    map.push_feature(PlanarFeatureId::from_u128(5), PlanarRuntimeFeature::Axis(x));
    Fixture { linkage, map, ground, arm, g, a, x }
}

fn values() -> PlanarSourceValues {
    PlanarSourceValues { relative_angle: 0.5f64.to_bits(), max_continuation_step: 0.1f64.to_bits() }
}

#[test]
fn a_revolute_source_adds_its_joint() {
    let mut f = fixture();
    let definition = PlanarSourceTopology::Revolute { first: PlanarFeatureId::from_u128(3), second: PlanarFeatureId::from_u128(4) };
    let runtime = lower_source_into(&mut f.linkage, &f.map, "pin", definition, values(), None).unwrap();
    let PlanarRuntimeSource::Joint(joint) = runtime else { panic!("expected a joint") };
    assert_eq!(f.linkage.joint(joint).unwrap().kind(), JointKind::Revolute { first: f.g, second: f.a });
    assert_eq!(f.linkage.joint(joint).unwrap().label(), "pin");
}

#[test]
fn a_weld_source_keeps_its_angle() {
    let mut f = fixture();
    let definition = PlanarSourceTopology::Weld { first: PlanarFeatureId::from_u128(3), second: PlanarFeatureId::from_u128(4) };
    let runtime = lower_source_into(&mut f.linkage, &f.map, "weld", definition, values(), None).unwrap();
    let PlanarRuntimeSource::Joint(joint) = runtime else { panic!("expected a joint") };
    assert_eq!(
        f.linkage.joint(joint).unwrap().kind(),
        JointKind::Weld { first: f.g, second: f.a, relative_angle: 0.5f64.to_bits() }
    );
}

#[test]
fn a_driver_source_needs_its_accepted_target_after_its_references() {
    let mut f = fixture();
    let definition = PlanarSourceTopology::AngularDriver { reference: PlanarBodyId::from_u128(1), driven: PlanarBodyId::from_u128(2) };
    assert_eq!(
        lower_source_into(&mut f.linkage, &f.map, "spin", definition, values(), None),
        Err(PlanarLinkageError::IncompleteAcceptedState)
    );
    let unknown = PlanarSourceTopology::AngularDriver { reference: PlanarBodyId::from_u128(9), driven: PlanarBodyId::from_u128(2) };
    assert_eq!(
        lower_source_into(&mut f.linkage, &f.map, "spin", unknown, values(), None),
        Err(PlanarLinkageError::UnknownReference { kind: PlanarReferenceKind::Body, id: 9 })
    );
    assert!(f.linkage.drivers().is_empty());
    let runtime = lower_source_into(&mut f.linkage, &f.map, "spin", definition, values(), Some(0.25f64.to_bits())).unwrap();
    let PlanarRuntimeSource::Driver(driver) = runtime else { panic!("expected a driver") };
    let driver = f.linkage.driver(driver).unwrap();
    assert_eq!(driver.kind(), DriverKind::Angular { reference: f.ground, driven: f.arm });
    assert_eq!(driver.target(), 0.25f64.to_bits());
    assert_eq!(driver.max_continuation_step(), 0.1f64.to_bits());
}

#[test]
fn linkage_refusals_are_reported_as_linkage_errors() {
    let mut f = fixture();
    let same_body = PlanarSourceTopology::Revolute { first: PlanarFeatureId::from_u128(3), second: PlanarFeatureId::from_u128(3) };
    assert_eq!(
        lower_source_into(&mut f.linkage, &f.map, "pin", same_body, values(), None),
        Err(PlanarLinkageError::Linkage(LinkageError::RepeatedBody))
    );
    let linear = PlanarSourceTopology::LinearDriver {
        origin: PlanarFeatureId::from_u128(4),
        measured: PlanarFeatureId::from_u128(3),
        guide_axis: PlanarFeatureId::from_u128(5),
    };
    assert_eq!(
        lower_source_into(&mut f.linkage, &f.map, "push", linear, values(), Some(0)),
        Err(PlanarLinkageError::Linkage(LinkageError::LinearDriverFeatureBodyMismatch))
    );
    let kind_mismatch = PlanarSourceTopology::LinearDriver {
        origin: PlanarFeatureId::from_u128(3),
        measured: PlanarFeatureId::from_u128(4),
        guide_axis: PlanarFeatureId::from_u128(4),
    };
    assert_eq!(
        lower_source_into(&mut f.linkage, &f.map, "push", kind_mismatch, values(), Some(0)),
        Err(PlanarLinkageError::FeatureKindMismatch(PlanarFeatureId::from_u128(4)))
    );
    assert!(f.linkage.joints().is_empty());
    assert!(f.linkage.drivers().is_empty());
}

#[test]
fn ground_and_monitor_sources() {
    let mut f = fixture();
    let ground = PlanarSourceTopology::PhysicalGround { body: PlanarBodyId::from_u128(1) };
    assert_eq!(
        lower_source_into(&mut f.linkage, &f.map, "ground", ground, values(), None),
        Ok(PlanarRuntimeSource::Ground(f.ground))
    );
    let monitor = PlanarSourceTopology::DirectedDisplacementBranch {
        origin: PlanarFeatureId::from_u128(3),
        measured: PlanarFeatureId::from_u128(4),
        axis: PlanarFeatureId::from_u128(5),
        sign: BranchSign::Positive,
    };
    let runtime = lower_source_into(&mut f.linkage, &f.map, "side", monitor, values(), None).unwrap();
    let PlanarRuntimeSource::BranchMonitor(id) = runtime else { panic!("expected a monitor") };
    assert_eq!(
        f.linkage.branch_monitor(id).copied(),
        Some(BranchMonitor::DirectedDisplacement { origin: f.g, measured: f.a, axis: f.x, sign: BranchSign::Positive })
    );
}

#[test]
fn capturing_a_lowered_source_gives_it_back() {
    let f = fixture();
    let bodies = vec![(f.ground, PlanarBodyId::from_u128(1)), (f.arm, PlanarBodyId::from_u128(2))];
    let points = vec![(f.g, PlanarFeatureId::from_u128(3)), (f.a, PlanarFeatureId::from_u128(4))];
    let axes = vec![(f.x, PlanarFeatureId::from_u128(5))];
    let definitions = [
        PlanarSourceTopology::PhysicalGround { body: PlanarBodyId::from_u128(1) },
        PlanarSourceTopology::Weld { first: PlanarFeatureId::from_u128(4), second: PlanarFeatureId::from_u128(3) },
        PlanarSourceTopology::LinearDriver {
            origin: PlanarFeatureId::from_u128(3),
            measured: PlanarFeatureId::from_u128(4),
            guide_axis: PlanarFeatureId::from_u128(5),
        },
        PlanarSourceTopology::AngularDriver { reference: PlanarBodyId::from_u128(2), driven: PlanarBodyId::from_u128(1) },
    ];
    for definition in definitions {
        let runtime = lower_source(&f.map, definition, true).unwrap();
        assert_eq!(capture_source(&bodies, &points, &axes, runtime), Ok(definition));
    }
}

#[test]
fn accepted_state_is_read_back_through_the_map() {
    let mut f = fixture();
    f.linkage.set_body_pose(f.arm, PoseBits { x: 1.0f64.to_bits(), y: 2.0f64.to_bits(), angle: 0.5f64.to_bits() }).unwrap();
    let driver_def = PlanarSourceTopology::AngularDriver { reference: PlanarBodyId::from_u128(1), driven: PlanarBodyId::from_u128(2) };
    let runtime = lower_source_into(&mut f.linkage, &f.map, "spin", driver_def, values(), Some(0.75f64.to_bits())).unwrap();
    f.map.push_source(PlanarSourceId::from_u128(6), runtime);
    f.map.push_source(PlanarSourceId::from_u128(7), PlanarRuntimeSource::Ground(f.ground));
    let bodies = vec![PlanarBodyId::from_u128(2), PlanarBodyId::from_u128(1)];
    let drivers = vec![PlanarSourceId::from_u128(6)];
    let (poses, targets) = project_runtime_state(&f.linkage, &f.map, &bodies, &drivers).unwrap();
    assert_eq!(poses[0], PoseBits { x: 1.0f64.to_bits(), y: 2.0f64.to_bits(), angle: 0.5f64.to_bits() });
    assert_eq!(poses[1], PoseBits { x: 0, y: 0, angle: 0 });
    assert_eq!(targets, vec![0.75f64.to_bits()]);

    assert_eq!(
        project_runtime_state(&f.linkage, &f.map, &vec![PlanarBodyId::from_u128(9)], &vec![PlanarSourceId::from_u128(8)]).err(),
        Some(PlanarLinkageError::UnknownReference { kind: PlanarReferenceKind::Body, id: 9 })
    );
    assert_eq!(
        project_runtime_state(&f.linkage, &f.map, &bodies, &vec![PlanarSourceId::from_u128(7)]).err(),
        Some(PlanarLinkageError::InvalidField(PlanarField::DriverStateSource))
    );
    assert_eq!(
        project_runtime_state(&f.linkage, &f.map, &bodies, &vec![PlanarSourceId::from_u128(8)]).err(),
        Some(PlanarLinkageError::UnknownReference { kind: PlanarReferenceKind::Source, id: 8 })
    );
}
