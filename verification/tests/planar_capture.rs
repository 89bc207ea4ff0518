use geosolve_linkage::ids::{PlanarBodyId, PlanarDocumentId, PlanarFeatureId, PlanarSourceId};
use geosolve_linkage::model::{BranchMonitor, BranchSign, DriverKind, LinkageSource};
use geosolve_linkage::planar::{
    validate_topology, PlanarField, PlanarLinkageError, PlanarRuntimeFeature, PlanarRuntimeSource,
    PlanarSourceTopology, PLANAR_LINKAGE_DOCUMENT_VERSION,
};
use geosolve_linkage::linkage::{JointKind, Linkage, PlanarBits, PlaneFrameBits, PoseBits, SpatialBits};
use geosolve_linkage::planar_capture::{
    capture_linkage, capture_structure, linkage_inventory, CapturedBody, CapturedDriver, CapturedFeature, CapturedJoint, CapturedMonitor,
    JointTopology, PlanarLinkageDocument, PlanarLinkageInventory,
};
use geosolve_linkage::planar::{certified_components, PlanarGaugePolicy, PlanarGaugeViolation};
use geosolve_linkage::runtime_ids::{AxisFeatureId, BodyId, BranchMonitorId, DriverId, JointId, PointFeatureId};

fn inventory() -> PlanarLinkageInventory {
    let base = BodyId::from_key_data(501);
    let arm = BodyId::from_key_data(502);
    let pin = PointFeatureId::from_key_data(601);
    let socket = PointFeatureId::from_key_data(602);
    PlanarLinkageInventory {
        bodies: vec![
            CapturedBody { runtime: base, label: "base".to_string(), pose: PoseBits { x: 0, y: 0, angle: 0 }, grounded: true, ground_label: None },
            CapturedBody { runtime: arm, label: "arm".to_string(), pose: PoseBits { x: 0, y: 0, angle: 0 }, grounded: false, ground_label: None },
        ],
        point_features: vec![
            CapturedFeature { runtime: pin, label: "pin".to_string(), body: base, local: PlanarBits { x: 0, y: 0 } },
            CapturedFeature { runtime: socket, label: "socket".to_string(), body: arm, local: PlanarBits { x: 0, y: 0 } },
        ],
        axis_features: vec![CapturedFeature {
            runtime: AxisFeatureId::from_key_data(701),
            label: "guide".to_string(),
            body: arm,
            local: PlanarBits { x: 1.0f64.to_bits(), y: 0 },
        }],
        joints: vec![CapturedJoint {
            runtime: JointId::from_key_data(801),
            label: "hinge".to_string(),
            kind: JointTopology::Revolute { first: pin, second: socket },
            weld_angle: None,
        }],
        drivers: vec![CapturedDriver {
            runtime: DriverId::from_key_data(901),
            label: "crank".to_string(),
            kind: DriverKind::Angular { reference: base, driven: arm },
            target: 0.5f64.to_bits(),
            max_continuation_step: 0.1f64.to_bits(),
        }],
        monitors: vec![CapturedMonitor {
            runtime: BranchMonitorId::from_key_data(1001),
            monitor: BranchMonitor::Orientation { line_start: pin, line_end: socket, observed: pin, sign: BranchSign::Positive },
        }],
    }
}

#[test]
fn identities_follow_the_allocation_order() {
    let (s, map) = capture_structure(PlanarDocumentId::from_u128(10), &inventory()).unwrap();
    assert_eq!(s.version, PLANAR_LINKAGE_DOCUMENT_VERSION);
    assert_eq!(s.next_id, 20);
    assert_eq!(s.bodies.iter().map(|b| b.id).collect::<Vec<_>>(), vec![PlanarBodyId::from_u128(11), PlanarBodyId::from_u128(12)]);
    assert_eq!(s.point_features[1].id, PlanarFeatureId::from_u128(14));
    assert_eq!(s.point_features[1].body, PlanarBodyId::from_u128(12));
    assert_eq!(s.axis_features[0].id, PlanarFeatureId::from_u128(15));
    let ids: Vec<u128> = s.sources.iter().map(|r| r.id.as_u128()).collect();
    assert_eq!(ids, vec![16, 17, 18, 19]);
    assert_eq!(s.source_order, s.sources.iter().map(|r| r.id).collect::<Vec<_>>());
    assert_eq!(s.body_states, vec![PlanarBodyId::from_u128(11), PlanarBodyId::from_u128(12)]);
    assert_eq!(s.driver_states, vec![PlanarSourceId::from_u128(18)]);
    assert_eq!(
        s.sources[0].definition,
        PlanarSourceTopology::PhysicalGround { body: PlanarBodyId::from_u128(11) }
    );
    assert_eq!(
        s.sources[1].definition,
        PlanarSourceTopology::Revolute { first: PlanarFeatureId::from_u128(13), second: PlanarFeatureId::from_u128(14) }
    );
    assert_eq!(
        s.sources[2].definition,
        PlanarSourceTopology::AngularDriver { reference: PlanarBodyId::from_u128(11), driven: PlanarBodyId::from_u128(12) }
    );
    assert_eq!(map.bodies[1], (PlanarBodyId::from_u128(12), BodyId::from_key_data(502)));
    assert_eq!(map.features[2], (PlanarFeatureId::from_u128(15), PlanarRuntimeFeature::Axis(AxisFeatureId::from_key_data(701))));
    assert_eq!(map.sources[3], (PlanarSourceId::from_u128(19), PlanarRuntimeSource::BranchMonitor(BranchMonitorId::from_key_data(1001))));
    assert_eq!(validate_topology(&s), Ok(()));
}

#[test]
fn ground_and_monitor_labels_are_generated() {
    let (s, _) = capture_structure(PlanarDocumentId::from_u128(10), &inventory()).unwrap();
    assert_eq!(s.sources[0].label, "grounded body base");
    assert_eq!(s.sources[1].label, "hinge");
    assert_eq!(s.sources[2].label, "crank");
    assert_eq!(s.sources[3].label, "orientation branch monitor 1");
    let mut inv = inventory();
    inv.bodies[0].ground_label = Some("floor".to_string());
    let pin = PointFeatureId::from_key_data(601);
    let guide = AxisFeatureId::from_key_data(701);
    for _ in 0..11 {
        inv.monitors.push(CapturedMonitor {
            runtime: BranchMonitorId::from_key_data(1002),
            monitor: BranchMonitor::DirectedDisplacement { origin: pin, measured: pin, axis: guide, sign: BranchSign::Negative },
        });
    }
    let (s, _) = capture_structure(PlanarDocumentId::from_u128(10), &inv).unwrap();
    assert_eq!(s.sources[0].label, "floor");
    assert_eq!(s.sources[14].label, "directed displacement branch monitor 12");
}

#[test]
fn document_identity_must_leave_room() {
    assert_eq!(capture_structure(PlanarDocumentId::from_u128(0), &inventory()), Err(PlanarLinkageError::InvalidId(0)));
    assert_eq!(capture_structure(PlanarDocumentId::from_u128(u128::MAX), &inventory()), Err(PlanarLinkageError::IdExhausted));
    assert_eq!(capture_structure(PlanarDocumentId::from_u128(u128::MAX - 3), &inventory()), Err(PlanarLinkageError::IdExhausted));
    let (s, _) = capture_structure(PlanarDocumentId::from_u128(u128::MAX - 10), &inventory()).unwrap();
    assert_eq!(s.next_id, u128::MAX);
}

#[test]
fn references_without_a_counterpart_are_rejected_in_order() {
    let mut inv = inventory();
    inv.axis_features[0].body = BodyId::from_key_data(999);
    inv.joints[0].kind = JointTopology::Weld { first: PointFeatureId::from_key_data(999), second: PointFeatureId::from_key_data(601) };
    assert_eq!(
        capture_structure(PlanarDocumentId::from_u128(10), &inv),
        Err(PlanarLinkageError::InvalidField(PlanarField::RuntimeBodyMapping))
    );
    inv.axis_features[0].body = BodyId::from_key_data(501);
    assert_eq!(
        capture_structure(PlanarDocumentId::from_u128(10), &inv),
        Err(PlanarLinkageError::InvalidField(PlanarField::RuntimePointMapping))
    );
    inv.joints[0].kind = JointTopology::Weld { first: PointFeatureId::from_key_data(602), second: PointFeatureId::from_key_data(601) };
    inv.drivers[0].kind = DriverKind::Linear {
        origin: PointFeatureId::from_key_data(601),
        measured: PointFeatureId::from_key_data(602),
        guide_axis: AxisFeatureId::from_key_data(777),
    };
    assert_eq!(
        capture_structure(PlanarDocumentId::from_u128(10), &inv),
        Err(PlanarLinkageError::InvalidField(PlanarField::RuntimeAxisMapping))
    );
}

fn runtime_linkage() -> Linkage {
    let v = |x: f64, y: f64, z: f64| SpatialBits { x: x.to_bits(), y: y.to_bits(), z: z.to_bits() };
    let frame = PlaneFrameBits { origin: v(0.0, 0.0, 0.0), u: v(1.0, 0.0, 0.0), v: v(0.0, 1.0, 0.0) };
    let mut linkage = Linkage::new(1.0f64.to_bits(), frame, None).unwrap();
    let zero = PoseBits { x: 0, y: 0, angle: 0 };
    let origin = PlanarBits { x: 0, y: 0 };
    let base = linkage.add_body("base", zero, true).unwrap();
    let arm = linkage.add_body("arm", zero, false).unwrap();
    let spare = linkage.add_body("spare", zero, false).unwrap();
    let pin = linkage.add_point_feature("pin", base, origin).unwrap();
    let socket = linkage.add_point_feature("socket", arm, origin).unwrap();
    linkage.add_axis_feature("guide", arm, Some(PlanarBits { x: 1.0f64.to_bits(), y: 0 })).unwrap();
    linkage.add_weld_joint_with_angle("hinge", pin, socket, 0.5f64.to_bits()).unwrap();
    linkage.add_angular_driver("crank", base, arm, 0, 0.1f64.to_bits()).unwrap();
    linkage.add_orientation_branch_monitor(pin, socket, pin, BranchSign::Positive).unwrap();
    linkage.remove_body(spare).unwrap();
    linkage
}

#[test]
fn the_inventory_follows_the_held_objects_in_insertion_order() {
    let linkage = runtime_linkage();
    let inv = linkage_inventory(&linkage);
    let labels: Vec<&str> = inv.bodies.iter().map(|b| b.label.as_str()).collect();
    assert_eq!(labels, vec!["base", "arm"]);
    assert!(inv.bodies[0].grounded && !inv.bodies[1].grounded);
    assert_eq!(inv.point_features.len(), 2);
    assert_eq!(inv.point_features[1].body, inv.bodies[1].runtime);
    assert_eq!(inv.axis_features[0].label, "guide");
    assert_eq!(
        inv.joints[0].kind,
        JointTopology::Weld { first: inv.point_features[0].runtime, second: inv.point_features[1].runtime }
    );
    assert_eq!(inv.drivers[0].kind, DriverKind::Angular { reference: inv.bodies[0].runtime, driven: inv.bodies[1].runtime });
    assert_eq!(inv.monitors.len(), 1);
}

#[test]
fn a_runtime_linkage_is_captured_like_its_inventory() {
    let linkage = runtime_linkage();
    let id = PlanarDocumentId::from_u128(40);
    let direct = capture_linkage(id, &linkage).unwrap();
    let through_inventory = capture_structure(id, &linkage_inventory(&linkage)).unwrap();
    assert_eq!(direct, through_inventory);
    let (structure, map) = direct;
    assert_eq!(structure.bodies.len(), 2);
    assert_eq!(structure.sources.len(), 4);
    assert_eq!(map.bodies[0].0, PlanarBodyId::from_u128(41));
    assert_eq!(validate_topology(&structure), Ok(()));
    assert_eq!(
        capture_linkage(PlanarDocumentId::from_u128(0), &linkage).err(),
        Some(PlanarLinkageError::InvalidId(0))
    );
}

#[test]
fn a_linkage_becomes_a_fresh_document() {
    let v = |x: f64, y: f64, z: f64| SpatialBits { x: x.to_bits(), y: y.to_bits(), z: z.to_bits() };
    let frame = PlaneFrameBits { origin: v(0.0, 0.0, 0.0), u: v(1.0, 0.0, 0.0), v: v(0.0, 1.0, 0.0) };
    let mut linkage = Linkage::new(1.0f64.to_bits(), frame, None).unwrap();
    let zero = PoseBits { x: 0, y: 0, angle: 0 };
    let a = linkage.add_body("A", zero, true).unwrap();
    let b = linkage.add_body("B", zero, false).unwrap();
    let (document, map) = PlanarLinkageDocument::from_linkage(PlanarDocumentId::from_u128(1), &linkage).unwrap();
    let structure = &document.structure;
    assert_eq!(structure.bodies.iter().map(|body| body.id).collect::<Vec<_>>(), vec![PlanarBodyId::from_u128(2), PlanarBodyId::from_u128(3)]);
    assert_eq!(structure.sources.len(), 1);
    assert_eq!(structure.sources[0].id, PlanarSourceId::from_u128(4));
    assert_eq!(structure.sources[0].definition, PlanarSourceTopology::PhysicalGround { body: PlanarBodyId::from_u128(2) });
    assert_eq!(structure.source_order, vec![PlanarSourceId::from_u128(4)]);
    assert_eq!(structure.next_id, 5);
    assert_eq!(structure.body_states, vec![PlanarBodyId::from_u128(2), PlanarBodyId::from_u128(3)]);
    assert!(structure.driver_states.is_empty());
    assert_eq!(document.revision, 0);
    assert_eq!(document.gauge_policy, PlanarGaugePolicy::LowestPersistentBody);
    assert_eq!(document.values.model_scale, 1.0f64.to_bits());
    assert_eq!(document.values.plane_frame, frame);
    assert_eq!(document.values.frame_rejection, None);
    assert_eq!(document.values.body_poses, vec![zero, zero]);
    assert_eq!(document.values.source_targets, vec![None]);
    assert_eq!(map.runtime_body(PlanarBodyId::from_u128(2)), Some(a));
    assert_eq!(map.runtime_body(PlanarBodyId::from_u128(3)), Some(b));
    assert_eq!(map.runtime_source(PlanarSourceId::from_u128(4)), Some(PlanarRuntimeSource::Ground(a)));
    assert_eq!(map.persistent_body(a), Some(PlanarBodyId::from_u128(2)));
    assert_eq!(map.persistent_body(b), Some(PlanarBodyId::from_u128(3)));
    assert_eq!(map.runtime_body(PlanarBodyId::from_u128(1)), None);
}

#[test]
fn the_gauge_policy_is_replaced_only_when_it_certifies() {
    let v = |x: f64, y: f64, z: f64| SpatialBits { x: x.to_bits(), y: y.to_bits(), z: z.to_bits() };
    let frame = PlaneFrameBits { origin: v(0.0, 0.0, 0.0), u: v(1.0, 0.0, 0.0), v: v(0.0, 1.0, 0.0) };
    let mut linkage = Linkage::new(1.0f64.to_bits(), frame, None).unwrap();
    let zero = PoseBits { x: 0, y: 0, angle: 0 };
    linkage.add_body("A", zero, true).unwrap();
    linkage.add_body("B", zero, false).unwrap();
    linkage.add_body("C", zero, false).unwrap();
    let (mut document, _) = PlanarLinkageDocument::from_linkage(PlanarDocumentId::from_u128(1), &linkage).unwrap();
    let before = document.clone();
    assert_eq!(
        document.set_gauge_policy(PlanarGaugePolicy::ExplicitReferences { bodies: vec![PlanarBodyId::from_u128(2)] }),
        Err(PlanarLinkageError::InvalidGaugePolicy(PlanarGaugeViolation::GroundedComponentReference(PlanarBodyId::from_u128(2))))
    );
    assert_eq!(document, before);
    assert_eq!(
        document.set_gauge_policy(PlanarGaugePolicy::ExplicitReferences { bodies: vec![PlanarBodyId::from_u128(4), PlanarBodyId::from_u128(3)] }),
        Ok(())
    );
    assert_eq!(
        document.gauge_policy,
        PlanarGaugePolicy::ExplicitReferences { bodies: vec![PlanarBodyId::from_u128(3), PlanarBodyId::from_u128(4)] }
    );
    assert_eq!(document.structure, before.structure);

    // Components are certified from the topology alone, accepted state or not.
    let mut bare = before.structure.clone();
    bare.body_states.clear();
    let components = certified_components(&bare);
    assert_eq!(components.len(), 3);
}

#[test]
fn a_captured_document_keeps_the_accepted_state_and_lowers_back() {
    let v = |x: f64, y: f64, z: f64| SpatialBits { x: x.to_bits(), y: y.to_bits(), z: z.to_bits() };
    let frame = PlaneFrameBits { origin: v(0.0, 0.0, 0.0), u: v(1.0, 0.0, 0.0), v: v(0.0, 1.0, 0.0) };
    let pose = |x: f64, y: f64, a: f64| PoseBits { x: x.to_bits(), y: y.to_bits(), angle: a.to_bits() };
    let point = |x: f64, y: f64| PlanarBits { x: x.to_bits(), y: y.to_bits() };
    let mut linkage = Linkage::new(2.0f64.to_bits(), frame, None).unwrap();
    let base = linkage.add_body("base", pose(0.0, 0.0, 0.0), true).unwrap();
    let arm = linkage.add_body("arm", pose(1.0, 0.0, 0.25), false).unwrap();
    let pin = linkage.add_point_feature("pin", base, point(0.0, 0.0)).unwrap();
    let socket = linkage.add_point_feature("socket", arm, point(0.5, 0.0)).unwrap();
    linkage.add_axis_feature("guide", base, Some(point(1.0, 0.0))).unwrap();
    linkage.add_weld_joint_with_angle("weld", pin, socket, 0.25f64.to_bits()).unwrap();
    linkage.add_angular_driver("crank", base, arm, 0.5f64.to_bits(), 0.1f64.to_bits()).unwrap();
    linkage.add_orientation_branch_monitor(pin, socket, pin, BranchSign::Positive).unwrap();
    let (document, _) = PlanarLinkageDocument::from_linkage(PlanarDocumentId::from_u128(100), &linkage).unwrap();
    let values = &document.values;
    assert_eq!(values.model_scale, 2.0f64.to_bits());
    assert_eq!(values.body_poses, vec![pose(0.0, 0.0, 0.0), pose(1.0, 0.0, 0.25)]);
    assert_eq!(values.point_locals, vec![point(0.0, 0.0), point(0.5, 0.0)]);
    assert_eq!(values.axis_locals, vec![Some(point(1.0, 0.0))]);
    // Sources: the ground, the weld, the driver, the monitor.
    assert_eq!(values.source_values[1].relative_angle, 0.25f64.to_bits());
    assert_eq!(values.source_values[2].max_continuation_step, 0.1f64.to_bits());
    assert_eq!(values.source_targets, vec![None, None, Some(0.5f64.to_bits()), None]);

    let (lowered, map) = document.lower().unwrap();
    assert_eq!(lowered.model_scale(), 2.0f64.to_bits());
    assert_eq!(lowered.plane_frame(), frame);
    let bodies = lowered.bodies();
    assert_eq!(bodies.len(), 2);
    assert_eq!(bodies[1].1.label(), "arm");
    assert_eq!(bodies[1].1.pose(), pose(1.0, 0.0, 0.25));
    assert!(bodies[0].1.grounded());
    assert!(!bodies[1].1.grounded());
    assert_eq!(lowered.point_features()[1].1.local_point(), point(0.5, 0.0));
    assert_eq!(lowered.axis_features()[0].1.local_axis(), point(1.0, 0.0));
    let JointKind::Weld { relative_angle, .. } = lowered.joints()[0].1.kind() else { panic!("expected a weld") };
    assert_eq!(relative_angle, 0.25f64.to_bits());
    let drivers = lowered.drivers();
    assert_eq!(drivers[0].1.target(), 0.5f64.to_bits());
    assert_eq!(drivers[0].1.max_continuation_step(), 0.1f64.to_bits());
    assert_eq!(lowered.branch_monitors().len(), 1);
    assert_eq!(map.bodies.len(), 2);
    for (persistent, runtime) in &map.features {
        assert_eq!(map.runtime_feature(*persistent), Some(*runtime));
        let back = match runtime {
            PlanarRuntimeFeature::Point(p) => map.persistent_point_feature(*p),
            PlanarRuntimeFeature::Axis(a) => map.persistent_axis_feature(*a),
        };
        assert_eq!(back, Some(*persistent));
    }
    for (persistent, runtime) in &map.bodies {
        assert_eq!(map.persistent_body(*runtime), Some(*persistent));
    }
    assert_eq!(map.sources.len(), 4);
    for (persistent, runtime) in &map.sources {
        assert_eq!(map.runtime_source(*persistent), Some(*runtime));
        let back = match runtime {
            PlanarRuntimeSource::Ground(b) => map.persistent_source(LinkageSource::Ground(*b)),
            PlanarRuntimeSource::Joint(j) => map.persistent_source(LinkageSource::Joint(*j)),
            PlanarRuntimeSource::Driver(d) => map.persistent_source(LinkageSource::Driver(*d)),
            PlanarRuntimeSource::BranchMonitor(m) => map.persistent_branch_monitor(*m),
        };
        assert_eq!(back, Some(*persistent));
    }
}

#[test]
fn a_document_whose_values_do_not_fit_does_not_lower() {
    let v = |x: f64, y: f64, z: f64| SpatialBits { x: x.to_bits(), y: y.to_bits(), z: z.to_bits() };
    let frame = PlaneFrameBits { origin: v(0.0, 0.0, 0.0), u: v(1.0, 0.0, 0.0), v: v(0.0, 1.0, 0.0) };
    let mut linkage = Linkage::new(1.0f64.to_bits(), frame, None).unwrap();
    linkage.add_body("A", PoseBits { x: 0, y: 0, angle: 0 }, true).unwrap();
    let (mut document, _) = PlanarLinkageDocument::from_linkage(PlanarDocumentId::from_u128(1), &linkage).unwrap();
    assert!(document.lower().is_ok());
    document.values.body_poses.clear();
    assert_eq!(document.lower().err(), Some(PlanarLinkageError::IncompleteAcceptedState));
    document.values.body_poses.push(PoseBits { x: f64::NAN.to_bits(), y: 0, angle: 0 });
    assert_eq!(
        document.lower().err(),
        Some(PlanarLinkageError::Linkage(geosolve_linkage::model::LinkageError::NonFinitePose { context: "rigid body" }))
    );
}
