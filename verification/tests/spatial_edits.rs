use geosolve_linkage::spatial::SpatialFieldReason;
use geosolve_linkage::runtime_ids::{SpatialBodyId, SpatialCoordinateId, SpatialFrameFeatureId, SpatialModeMonitorId, SpatialSourceId};
use geosolve_linkage::spatial::{
    SpatialAssemblyError, SpatialAxisParity, SpatialCoordinateKind, SpatialEditKey, SpatialModeMonitorKind,
};
use geosolve_linkage::spatial_edits::{
    apply_edit, apply_transaction_edits, validate_transaction_edit_uniqueness, SpatialAssemblyEdit,
};
use geosolve_linkage::spatial_structure::{SpatialLocalGeometry, SpatialSourceShape, SpatialStructure, SpatialValueRejection};

const NS: u64 = 8;

/// A hinge between two bodies: bodies 1, 2; frames 3, 4; hinge 5; angle 6;
/// driver 7; winding monitor 8.
fn hinge() -> SpatialStructure {
    let mut s = SpatialStructure::new(NS);
    let base = s.add_body("base".to_string(), [0; 7], Some(SpatialValueRejection { field: "pose", message: "not finite" })).unwrap_err();
    let _ = base;
    let base = s.add_body("base".to_string(), [0; 7], None).unwrap();
    let arm = s.add_body("arm".to_string(), [0; 7], None).unwrap();
    let f = s.add_frame_feature("f".to_string(), base, [0; 12], None).unwrap();
    let g = s.add_frame_feature("g".to_string(), arm, [0; 12], None).unwrap();
    let hinge = s.add_revolute_joint("hinge".to_string(), f, g, SpatialAxisParity::Aligned).unwrap();
    let angle = s.add_hinge_coordinate("angle".to_string(), hinge, 0).unwrap();
    s.add_hinge_position_driver("drive".to_string(), angle, 0, 42, None).unwrap();
    s.add_hinge_winding_monitor("winding".to_string(), angle, 0).unwrap();
    s
}

#[test]
fn an_edit_replaces_one_value() {
    let mut s = hinge();
    let before = s.clone();
    apply_edit(&mut s, SpatialAssemblyEdit::SourceAxisParity { source: SpatialSourceId::new(NS, 5), parity: SpatialAxisParity::Opposed }).unwrap();
    assert_eq!(s.sources[0].shape, SpatialSourceShape::RevoluteJoint {
        first: before.frame_features[0].id,
        second: before.frame_features[1].id,
        parity: SpatialAxisParity::Opposed,
    });
    assert_eq!(s.bodies, before.bodies);
    apply_edit(&mut s, SpatialAssemblyEdit::HingeDriverTarget { source: SpatialSourceId::new(NS, 7), winding: 1, phase_bits: 9, target: None }).unwrap();
    assert_eq!(s.sources[1].shape, SpatialSourceShape::HingePositionDriver { coordinate: SpatialCoordinateId::new(NS, 6), winding: 1, phase_bits: 9 });
    apply_edit(&mut s, SpatialAssemblyEdit::HingeWinding { coordinate: SpatialCoordinateId::new(NS, 6), winding: 1 }).unwrap();
    assert_eq!(s.coordinates[0].kind, SpatialCoordinateKind::Hinge { parent: SpatialSourceId::new(NS, 5), winding: 1 });
    apply_edit(&mut s, SpatialAssemblyEdit::MonitorHingeWinding { monitor: SpatialModeMonitorId::new(NS, 8), winding: 1 }).unwrap();
    assert_eq!(s.mode_monitors[0].kind, SpatialModeMonitorKind::HingeWinding { coordinate: SpatialCoordinateId::new(NS, 6), winding: 1 });
}

#[test]
fn a_rejected_edit_changes_nothing() {
    let mut s = hinge();
    let before = s.clone();
    let rejection = SpatialValueRejection { field: "transaction.body_pose", message: "not finite" };
    assert_eq!(
        apply_edit(&mut s, SpatialAssemblyEdit::BodyPoseGuess { body: SpatialBodyId::new(NS, 99), pose_guess: [0; 7], pose: Some(rejection) }),
        Err(SpatialAssemblyError::InvalidField { field: "transaction.body_pose", reason: SpatialFieldReason::Rejected("not finite") })
    );
    assert_eq!(
        apply_edit(&mut s, SpatialAssemblyEdit::BodyPoseGuess { body: SpatialBodyId::new(NS, 99), pose_guess: [0; 7], pose: None }),
        Err(SpatialAssemblyError::UnknownBody(SpatialBodyId::new(NS, 99)))
    );
    assert_eq!(
        apply_edit(&mut s, SpatialAssemblyEdit::SourceAxisParity { source: SpatialSourceId::new(NS, 7), parity: SpatialAxisParity::Opposed }),
        Err(SpatialAssemblyError::WrongSourceKind { source_id: SpatialSourceId::new(NS, 7), expected: "an axis-parity edit" })
    );
    assert_eq!(
        apply_edit(&mut s, SpatialAssemblyEdit::MonitorAxisParity { monitor: SpatialModeMonitorId::new(NS, 8), parity: SpatialAxisParity::Opposed }),
        Err(SpatialAssemblyError::WrongModeMonitorKind { monitor_id: SpatialModeMonitorId::new(NS, 8), expected: "an axis-parity monitor edit" })
    );
    assert_eq!(
        apply_edit(&mut s, SpatialAssemblyEdit::MonitorPlaneSide { monitor: SpatialModeMonitorId::new(NS, 9), side: geosolve_linkage::spatial::SpatialModeSign::Positive }),
        Err(SpatialAssemblyError::UnknownModeMonitor(SpatialModeMonitorId::new(NS, 9)))
    );
    assert_eq!(s, before);
}

#[test]
fn a_transaction_edits_each_value_once() {
    let edits = vec![
        SpatialAssemblyEdit::HingeWinding { coordinate: SpatialCoordinateId::new(NS, 6), winding: 2 },
        SpatialAssemblyEdit::MonitorHingeWinding { monitor: SpatialModeMonitorId::new(NS, 8), winding: 2 },
        SpatialAssemblyEdit::HingeWinding { coordinate: SpatialCoordinateId::new(NS, 6), winding: 3 },
    ];
    assert_eq!(
        validate_transaction_edit_uniqueness(&edits),
        Err(SpatialAssemblyError::DuplicateEdit { role: "hinge winding", key: SpatialEditKey::HingeWinding(SpatialCoordinateId::new(NS, 6)) })
    );
    let mut s = hinge();
    let before = s.clone();
    assert!(apply_transaction_edits(&mut s, &edits).is_err());
    assert_eq!(s, before);

    let edits = vec![
        SpatialAssemblyEdit::HingeWinding { coordinate: SpatialCoordinateId::new(NS, 6), winding: 2 },
        SpatialAssemblyEdit::HingeDriverTarget { source: SpatialSourceId::new(NS, 7), winding: 2, phase_bits: 1, target: None },
        SpatialAssemblyEdit::MonitorHingeWinding { monitor: SpatialModeMonitorId::new(NS, 8), winding: 2 },
    ];
    assert_eq!(validate_transaction_edit_uniqueness(&edits), Ok(()));
    assert_eq!(apply_transaction_edits(&mut s, &edits), Ok(()));
    assert_eq!(s.coordinates[0].kind, SpatialCoordinateKind::Hinge { parent: SpatialSourceId::new(NS, 5), winding: 2 });
    assert_eq!(s.next_id, before.next_id);

    let failing = vec![
        SpatialAssemblyEdit::HingeWinding { coordinate: SpatialCoordinateId::new(NS, 6), winding: 4 },
        SpatialAssemblyEdit::HingeWinding { coordinate: SpatialCoordinateId::new(NS, 60), winding: 4 },
    ];
    assert_eq!(
        apply_transaction_edits(&mut s, &failing),
        Err(SpatialAssemblyError::UnknownCoordinate(SpatialCoordinateId::new(NS, 60)))
    );
}

#[test]
fn a_pose_guess_edit_keeps_the_new_pose() {
    let mut s = hinge();
    let pose = [0.5f64, 0.0, 0.0, 1.0, 0.0, 0.0, 0.0].map(f64::to_bits);
    let arm = SpatialBodyId::new(NS, 2);
    assert_eq!(apply_edit(&mut s, SpatialAssemblyEdit::BodyPoseGuess { body: arm, pose_guess: pose, pose: None }), Ok(()));
    assert_eq!(s.bodies[1].pose_guess, pose);
    assert_eq!(s.bodies[0].pose_guess, [0; 7]);
    assert_eq!(s.bodies[1].label, "arm");
}

#[test]
fn a_local_frame_edit_keeps_the_new_frame() {
    let mut s = hinge();
    let frame = [1.0f64, 0.0, 0.0, 1.0, 0.0, 0.0, 0.0, 1.0, 0.0, 0.0, 0.0, 1.0].map(f64::to_bits);
    let g = SpatialFrameFeatureId::new(NS, 4);
    assert_eq!(apply_edit(&mut s, SpatialAssemblyEdit::FrameLocal { feature: g, local_frame: frame, geometry: None }), Ok(()));
    assert_eq!(s.frame_features[1].local, SpatialLocalGeometry::Frame(frame));
    assert_eq!(s.frame_features[0].local, SpatialLocalGeometry::Frame([0; 12]));
}
