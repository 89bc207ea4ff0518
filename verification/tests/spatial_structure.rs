use geosolve_linkage::runtime_ids::{
    SpatialAxisFeatureId, SpatialBodyId, SpatialCoordinateId, SpatialFrameFeatureId,
    SpatialModeMonitorId, SpatialPointFeatureId, SpatialSourceId,
};
use geosolve_linkage::spatial::{
    SpatialAssemblyError, SpatialAxisParity, SpatialCoordinate, SpatialCoordinateKind,
    SpatialFieldReason, SpatialGaugePolicy, SpatialGaugeViolation, SpatialModeMonitor,
    SpatialModeMonitorKind, SpatialModeSign,
};
use geosolve_linkage::spatial_structure::{SpatialLocalGeometry, SpatialSourceNumbers};
use geosolve_linkage::spatial_structure::{
    check_driver_targets, incidences_of_monitors, incidences_of_sources, resolve_hinge_bodies,
    resolve_translation_bodies, validate_spatial_structure, SpatialBodyRecord,
    SpatialFeatureRecord, SpatialSourceRecord, SpatialSourceShape, SpatialStructure,
    SpatialValueRejection,
};

const NS: u64 = 9;

fn body(ordinal: u64) -> SpatialBodyId {
    SpatialBodyId::new(NS, ordinal)
}

fn frame(ordinal: u64) -> SpatialFrameFeatureId {
    SpatialFrameFeatureId::new(NS, ordinal)
}

fn point(ordinal: u64) -> SpatialPointFeatureId {
    SpatialPointFeatureId::new(NS, ordinal)
}

fn source(ordinal: u64) -> SpatialSourceId {
    SpatialSourceId::new(NS, ordinal)
}

fn coordinate(ordinal: u64) -> SpatialCoordinateId {
    SpatialCoordinateId::new(NS, ordinal)
}

fn source_record(ordinal: u64, shape: SpatialSourceShape) -> SpatialSourceRecord {
    SpatialSourceRecord { id: source(ordinal), label: format!("source {ordinal}"), shape, numbers: SpatialSourceNumbers::Empty, values: None }
}

/// Ground body 1, hinge body 2 to it with a revolute joint, drive the hinge,
/// and watch its winding and a point on each body.
fn hinge_pair() -> SpatialStructure {
    SpatialStructure {
        namespace: NS,
        next_id: 20,
        bodies: vec![
            SpatialBodyRecord { id: body(1), label: "base".to_string(), pose_guess: [0; 7], pose: None },
            SpatialBodyRecord { id: body(2), label: "arm".to_string(), pose_guess: [0; 7], pose: None },
        ],
        point_features: vec![
            SpatialFeatureRecord { id: point(3), label: "p".to_string(), body: body(1), local: SpatialLocalGeometry::Point([0; 3]), geometry: None },
            SpatialFeatureRecord { id: point(4), label: "q".to_string(), body: body(2), local: SpatialLocalGeometry::Point([0; 3]), geometry: None },
        ],
        frame_features: vec![
            SpatialFeatureRecord { id: frame(5), label: "base frame".to_string(), body: body(1), local: SpatialLocalGeometry::Frame([0; 12]), geometry: None },
            SpatialFeatureRecord { id: frame(6), label: "arm frame".to_string(), body: body(2), local: SpatialLocalGeometry::Frame([0; 12]), geometry: None },
        ],
        axis_features: vec![],
        plane_features: vec![],
        coordinates: vec![SpatialCoordinate {
            id: coordinate(7),
            label: "hinge".to_string(),
            kind: SpatialCoordinateKind::Hinge { parent: source(11), winding: 0 },
        }],
        mode_monitors: vec![SpatialModeMonitor {
            id: SpatialModeMonitorId::new(NS, 8),
            label: "winding".to_string(),
            kind: SpatialModeMonitorKind::HingeWinding { coordinate: coordinate(7), winding: 0 },
        }],
        sources: vec![
            source_record(10, SpatialSourceShape::PhysicalGround { body: body(1) }),
            source_record(11, SpatialSourceShape::RevoluteJoint { first: frame(5), second: frame(6), parity: SpatialAxisParity::Aligned }),
            source_record(12, SpatialSourceShape::HingePositionDriver { coordinate: coordinate(7), winding: 0, phase_bits: 0 }),
        ],
        gauge_policy: SpatialGaugePolicy::LowestPersistentBody,
    }
}

#[test]
fn a_grounded_hinge_pair_validates() {
    assert_eq!(validate_spatial_structure(&hinge_pair()), Ok(()));
}

#[test]
fn zero_namespace_is_rejected_first() {
    let mut s = hinge_pair();
    s.namespace = 0;
    s.bodies[0].label = " ".to_string();
    assert_eq!(
        validate_spatial_structure(&s),
        Err(SpatialAssemblyError::InvalidField { field: "namespace", reason: SpatialFieldReason::ZeroNamespace })
    );
}

#[test]
fn body_label_comes_before_pose_and_identity() {
    let mut s = hinge_pair();
    s.bodies[1].label = "\t".to_string();
    s.bodies[1].pose = Some(SpatialValueRejection { field: "body.pose_guess", message: "pose must be finite" });
    s.bodies[1].id = body(1);
    assert_eq!(validate_spatial_structure(&s), Err(SpatialAssemblyError::InvalidLabel { field: "body" }));
    s.bodies[1].label = "arm".to_string();
    assert_eq!(
        validate_spatial_structure(&s),
        Err(SpatialAssemblyError::InvalidField { field: "body.pose_guess", reason: SpatialFieldReason::Rejected("pose must be finite") })
    );
    s.bodies[1].pose = None;
    assert_eq!(
        validate_spatial_structure(&s),
        Err(SpatialAssemblyError::InvalidField { field: "id", reason: SpatialFieldReason::ZeroOrDuplicateId(1) })
    );
}

#[test]
fn foreign_and_reused_identities_are_rejected() {
    let mut s = hinge_pair();
    s.point_features[0].id = SpatialPointFeatureId::new(NS + 1, 3);
    assert_eq!(
        validate_spatial_structure(&s),
        Err(SpatialAssemblyError::InvalidField { field: "id", reason: SpatialFieldReason::ForeignId(3) })
    );
    let mut s = hinge_pair();
    s.sources[2].id = source(5);
    assert_eq!(
        validate_spatial_structure(&s),
        Err(SpatialAssemblyError::InvalidField { field: "id", reason: SpatialFieldReason::ZeroOrDuplicateId(5) })
    );
}

#[test]
fn features_need_a_listed_owner() {
    let mut s = hinge_pair();
    s.frame_features[1].body = body(30);
    assert_eq!(validate_spatial_structure(&s), Err(SpatialAssemblyError::UnknownBody(body(30))));
}

#[test]
fn coordinate_parent_must_be_a_hinge_source() {
    let mut s = hinge_pair();
    s.coordinates[0].kind = SpatialCoordinateKind::Hinge { parent: source(10), winding: 0 };
    assert_eq!(
        validate_spatial_structure(&s),
        Err(SpatialAssemblyError::WrongCoordinateParent { source_id: source(10), expected: "hinge" })
    );
    s.coordinates[0].kind = SpatialCoordinateKind::Hinge { parent: source(40), winding: 0 };
    assert_eq!(validate_spatial_structure(&s), Err(SpatialAssemblyError::UnknownSource(source(40))));
    s.coordinates[0].kind = SpatialCoordinateKind::AxialTranslation { parent: source(11) };
    assert_eq!(
        validate_spatial_structure(&s),
        Err(SpatialAssemblyError::WrongCoordinateParent { source_id: source(11), expected: "axial translation" })
    );
}

#[test]
fn winding_monitor_must_match_its_coordinate() {
    let mut s = hinge_pair();
    s.mode_monitors[0].kind = SpatialModeMonitorKind::HingeWinding { coordinate: coordinate(7), winding: 2 };
    assert_eq!(
        validate_spatial_structure(&s),
        Err(SpatialAssemblyError::WindingMismatch { coordinate: coordinate(7), coordinate_winding: 0, target_winding: 2 })
    );
    s.mode_monitors[0].kind = SpatialModeMonitorKind::HingeWinding { coordinate: coordinate(13), winding: 0 };
    assert_eq!(validate_spatial_structure(&s), Err(SpatialAssemblyError::UnknownCoordinate(coordinate(13))));
}

#[test]
fn signed_volume_points_must_differ_and_exist() {
    let mut s = hinge_pair();
    s.mode_monitors[0].kind = SpatialModeMonitorKind::SignedVolume {
        points: [point(3), point(4), point(3), point(4)],
        orientation: SpatialModeSign::Positive,
    };
    assert_eq!(
        validate_spatial_structure(&s),
        Err(SpatialAssemblyError::InvalidField { field: "signed_volume_monitor.points", reason: SpatialFieldReason::RepeatedVolumePoints })
    );
    s.mode_monitors[0].kind = SpatialModeMonitorKind::SignedVolume {
        points: [point(3), point(4), point(14), point(15)],
        orientation: SpatialModeSign::Positive,
    };
    assert_eq!(validate_spatial_structure(&s), Err(SpatialAssemblyError::UnknownPointFeature(point(14))));
}

#[test]
fn joint_endpoints_must_be_on_two_bodies() {
    let mut s = hinge_pair();
    s.sources[1].shape = SpatialSourceShape::RevoluteJoint { first: frame(5), second: frame(5), parity: SpatialAxisParity::Opposed };
    assert_eq!(validate_spatial_structure(&s), Err(SpatialAssemblyError::SameBodyJointEndpoints(body(1))));
    let mut s = hinge_pair();
    s.sources.push(source_record(17, SpatialSourceShape::BallJoint { first: point(3), second: point(16) }));
    assert_eq!(validate_spatial_structure(&s), Err(SpatialAssemblyError::UnknownPointFeature(point(16))));
    // A ball joint cannot carry the hinge coordinate.
    let mut s = hinge_pair();
    s.sources[1].shape = SpatialSourceShape::BallJoint { first: point(3), second: point(4) };
    assert_eq!(
        validate_spatial_structure(&s),
        Err(SpatialAssemblyError::WrongCoordinateParent { source_id: source(11), expected: "hinge" })
    );
}

#[test]
fn numerical_verdicts_follow_the_reference_checks() {
    let mut s = hinge_pair();
    let mut mate = source_record(17, SpatialSourceShape::PointDistanceMate { first: point(3), second: point(4) });
    mate.values = Some(SpatialValueRejection { field: "point_distance_mate.distance", message: "distance must be positive" });
    s.sources.push(mate);
    assert_eq!(
        validate_spatial_structure(&s),
        Err(SpatialAssemblyError::InvalidField { field: "point_distance_mate.distance", reason: SpatialFieldReason::Rejected("distance must be positive") })
    );
    s.sources[3].shape = SpatialSourceShape::PointDistanceMate { first: point(3), second: point(3) };
    assert_eq!(validate_spatial_structure(&s), Err(SpatialAssemblyError::SameBodyJointEndpoints(body(1))));
    s.sources[3].shape = SpatialSourceShape::BallJoint { first: point(3), second: point(4) };
    assert_eq!(validate_spatial_structure(&s), Ok(()));
}

#[test]
fn a_driver_target_verdict_comes_before_its_coordinate() {
    let mut s = hinge_pair();
    s.sources[2].shape = SpatialSourceShape::HingePositionDriver { coordinate: coordinate(13), winding: 0, phase_bits: 0 };
    s.sources[2].values = Some(SpatialValueRejection { field: "hinge_position_driver.target", message: "phase out of range" });
    assert_eq!(
        validate_spatial_structure(&s),
        Err(SpatialAssemblyError::InvalidField { field: "hinge_position_driver.target", reason: SpatialFieldReason::Rejected("phase out of range") })
    );
    s.sources[2].values = None;
    assert_eq!(validate_spatial_structure(&s), Err(SpatialAssemblyError::UnknownCoordinate(coordinate(13))));
    s.sources[2].shape = SpatialSourceShape::TranslationPositionDriver { coordinate: coordinate(7), target_bits: 0 };
    assert_eq!(
        validate_spatial_structure(&s),
        Err(SpatialAssemblyError::WrongCoordinateKind { coordinate: coordinate(7), expected: "translation" })
    );
}

#[test]
fn a_body_is_grounded_once() {
    let mut s = hinge_pair();
    s.sources.push(source_record(17, SpatialSourceShape::PhysicalGround { body: body(1) }));
    assert_eq!(validate_spatial_structure(&s), Err(SpatialAssemblyError::DuplicateGround(body(1))));
}

#[test]
fn drivers_of_one_coordinate_must_agree() {
    let mut s = hinge_pair();
    s.sources.push(source_record(17, SpatialSourceShape::HingePositionDriver { coordinate: coordinate(7), winding: 0, phase_bits: 0 }));
    assert_eq!(validate_spatial_structure(&s), Ok(()));
    s.sources.push(source_record(18, SpatialSourceShape::HingePositionDriver { coordinate: coordinate(7), winding: 0, phase_bits: 1 }));
    assert_eq!(
        validate_spatial_structure(&s),
        Err(SpatialAssemblyError::IncompatibleDriverTargets { coordinate: coordinate(7) })
    );
    assert_eq!(
        check_driver_targets(&s.sources),
        Err(SpatialAssemblyError::IncompatibleDriverTargets { coordinate: coordinate(7) })
    );
}

#[test]
fn next_identity_must_exceed_every_identity() {
    let mut s = hinge_pair();
    s.next_id = 12;
    assert_eq!(
        validate_spatial_structure(&s),
        Err(SpatialAssemblyError::InvalidField { field: "next_id", reason: SpatialFieldReason::NextIdNotAbove })
    );
    s.next_id = 13;
    assert_eq!(validate_spatial_structure(&s), Ok(()));
}

#[test]
fn gauge_policy_is_checked_on_the_certified_components() {
    let mut s = hinge_pair();
    s.gauge_policy = SpatialGaugePolicy::ExplicitReferences { bodies: vec![body(2)] };
    assert_eq!(
        validate_spatial_structure(&s),
        Err(SpatialAssemblyError::InvalidGaugePolicy(SpatialGaugeViolation::GroundedComponentReference(body(1))))
    );
    // Without the ground, the pair floats and needs exactly one reference.
    s.sources.remove(0);
    assert_eq!(validate_spatial_structure(&s), Ok(()));
    s.gauge_policy = SpatialGaugePolicy::ExplicitReferences { bodies: vec![] };
    assert_eq!(
        validate_spatial_structure(&s),
        Err(SpatialAssemblyError::InvalidGaugePolicy(SpatialGaugeViolation::FloatingComponentReferences(body(1))))
    );
}

#[test]
fn incidences_list_touched_bodies_ascending() {
    let mut s = hinge_pair();
    s.sources[1].shape = SpatialSourceShape::RevoluteJoint { first: frame(6), second: frame(5), parity: SpatialAxisParity::Aligned };
    let sources = incidences_of_sources(&s);
    assert_eq!(sources.len(), 3);
    assert_eq!(sources[0].bodies, vec![body(1)]);
    assert!(sources[0].ground);
    assert_eq!(sources[1].bodies, vec![body(1), body(2)]);
    assert!(!sources[1].ground);
    assert_eq!(sources[2].bodies, vec![body(1), body(2)]);
    let monitors = incidences_of_monitors(&s);
    assert_eq!(monitors.len(), 1);
    assert_eq!(monitors[0].bodies, vec![body(1), body(2)]);
    s.mode_monitors[0].kind = SpatialModeMonitorKind::SignedVolume {
        points: [point(4), point(3), point(4), point(3)],
        orientation: SpatialModeSign::Negative,
    };
    assert_eq!(incidences_of_monitors(&s)[0].bodies, vec![body(1), body(2)]);
}

#[test]
fn coordinates_resolve_to_the_bodies_of_their_parent() {
    let s = hinge_pair();
    let hinge = SpatialCoordinateKind::Hinge { parent: source(11), winding: 0 };
    assert_eq!(resolve_hinge_bodies(&s, coordinate(7), hinge), Ok((body(1), body(2))));
    assert_eq!(
        resolve_translation_bodies(&s, coordinate(7), hinge),
        Err(SpatialAssemblyError::WrongCoordinateKind { coordinate: coordinate(7), expected: "translation" })
    );
    let axial = SpatialCoordinateKind::AxialTranslation { parent: source(11) };
    assert_eq!(
        resolve_translation_bodies(&s, coordinate(7), axial),
        Err(SpatialAssemblyError::WrongCoordinateParent { source_id: source(11), expected: "axial translation" })
    );
    let mut s = hinge_pair();
    s.axis_features = vec![
        SpatialFeatureRecord { id: SpatialAxisFeatureId::new(NS, 21), label: "a".to_string(), body: body(2), local: SpatialLocalGeometry::Frame([0; 12]), geometry: None },
        SpatialFeatureRecord { id: SpatialAxisFeatureId::new(NS, 22), label: "b".to_string(), body: body(1), local: SpatialLocalGeometry::Frame([0; 12]), geometry: None },
    ];
    s.sources[1].shape = SpatialSourceShape::PrismaticJoint {
        first: SpatialAxisFeatureId::new(NS, 21),
        second: SpatialAxisFeatureId::new(NS, 22),
        parity: SpatialAxisParity::Aligned,
    };
    assert_eq!(resolve_translation_bodies(&s, coordinate(7), axial), Ok((body(2), body(1))));
    assert_eq!(
        resolve_hinge_bodies(&s, coordinate(7), hinge),
        Err(SpatialAssemblyError::WrongCoordinateParent { source_id: source(11), expected: "hinge" })
    );
}
