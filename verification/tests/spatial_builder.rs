use geosolve_linkage::runtime_ids::{SpatialBodyId, SpatialCoordinateId, SpatialPointFeatureId, SpatialSourceId};
use geosolve_linkage::spatial::{
    SpatialAssemblyError, SpatialAxisParity, SpatialFieldReason, SpatialModeSign, SpatialPlanarTranslationAxis,
};
use geosolve_linkage::spatial_structure::{validate_spatial_structure, SpatialSourceNumbers, SpatialStructure, SpatialValueRejection};

const NS: u64 = 4;

/// A grounded base and an arm on a driven, watched revolute hinge.
fn hinge_pair() -> SpatialStructure {
    let mut s = SpatialStructure::new(NS);
    let base = s.add_body("base".to_string(), [0; 7], None).unwrap();
    let arm = s.add_body("arm".to_string(), [0; 7], None).unwrap();
    let p = s.add_point_feature("p".to_string(), base, [0; 3], None).unwrap();
    let q = s.add_point_feature("q".to_string(), arm, [0; 3], None).unwrap();
    let f = s.add_frame_feature("base frame".to_string(), base, [0; 12], None).unwrap();
    let g = s.add_frame_feature("arm frame".to_string(), arm, [0; 12], None).unwrap();
    s.add_physical_ground("floor".to_string(), base).unwrap();
    let hinge = s.add_revolute_joint("hinge".to_string(), f, g, SpatialAxisParity::Aligned).unwrap();
    let angle = s.add_hinge_coordinate("angle".to_string(), hinge, 0).unwrap();
    s.add_hinge_position_driver("drive".to_string(), angle, 0, 0, None).unwrap();
    s.add_hinge_winding_monitor("winding".to_string(), angle, 0).unwrap();
    s.add_signed_volume_monitor("volume".to_string(), [p, q, p, q], SpatialModeSign::Positive).unwrap_err();
    s
}

#[test]
fn builders_allocate_identities_in_order() {
    let s = hinge_pair();
    assert_eq!(s.bodies[1].id, SpatialBodyId::new(NS, 2));
    assert_eq!(s.point_features[0].id, SpatialPointFeatureId::new(NS, 3));
    assert_eq!(s.sources.iter().map(|r| r.id).collect::<Vec<_>>(), vec![
        SpatialSourceId::new(NS, 7),
        SpatialSourceId::new(NS, 8),
        SpatialSourceId::new(NS, 10),
    ]);
    assert_eq!(s.coordinates[0].id, SpatialCoordinateId::new(NS, 9));
    assert_eq!(s.next_id, 12);
    assert_eq!(validate_spatial_structure(&s), Ok(()));
}

#[test]
fn a_rejected_edit_leaves_the_structure_unchanged() {
    let mut s = hinge_pair();
    let before = s.clone();
    assert_eq!(s.add_body(" ".to_string(), [0; 7], None), Err(SpatialAssemblyError::InvalidLabel { field: "body" }));
    assert_eq!(
        s.add_body("x".to_string(), [0; 7], Some(SpatialValueRejection { field: "body.pose_guess", message: "pose must be finite" })),
        Err(SpatialAssemblyError::InvalidField { field: "body.pose_guess", reason: SpatialFieldReason::Rejected("pose must be finite") })
    );
    assert_eq!(
        s.add_point_feature("x".to_string(), SpatialBodyId::new(NS, 40), [0; 3], None),
        Err(SpatialAssemblyError::UnknownBody(SpatialBodyId::new(NS, 40)))
    );
    assert_eq!(s, before);
}

#[test]
fn sources_check_their_references() {
    let mut s = hinge_pair();
    let base = SpatialBodyId::new(NS, 1);
    assert_eq!(s.add_physical_ground("again".to_string(), base), Err(SpatialAssemblyError::DuplicateGround(base)));
    assert_eq!(
        s.add_ball_joint("same".to_string(), SpatialPointFeatureId::new(NS, 3), SpatialPointFeatureId::new(NS, 3)),
        Err(SpatialAssemblyError::SameBodyJointEndpoints(base))
    );
    assert_eq!(
        s.add_ball_joint("".to_string(), SpatialPointFeatureId::new(NS, 3), SpatialPointFeatureId::new(NS, 50)),
        Err(SpatialAssemblyError::InvalidLabel { field: "ball joint" })
    );
    assert_eq!(
        s.add_ball_joint("ball".to_string(), SpatialPointFeatureId::new(NS, 3), SpatialPointFeatureId::new(NS, 50)),
        Err(SpatialAssemblyError::UnknownPointFeature(SpatialPointFeatureId::new(NS, 50)))
    );
    let distance = Some(SpatialValueRejection { field: "point_distance_mate.distance", message: "must be positive" });
    assert_eq!(
        s.add_point_distance_mate("d".to_string(), SpatialPointFeatureId::new(NS, 3), SpatialPointFeatureId::new(NS, 4), 2.0f64.to_bits(), distance),
        Err(SpatialAssemblyError::InvalidField { field: "point_distance_mate.distance", reason: SpatialFieldReason::Rejected("must be positive") })
    );
    assert_eq!(
        s.add_ball_joint("ball".to_string(), SpatialPointFeatureId::new(NS, 3), SpatialPointFeatureId::new(NS, 4)),
        Ok(SpatialSourceId::new(NS, 12))
    );
}

#[test]
fn coordinates_need_a_fitting_parent() {
    let mut s = hinge_pair();
    assert_eq!(
        s.add_axial_translation_coordinate("slide".to_string(), SpatialSourceId::new(NS, 8)),
        Err(SpatialAssemblyError::WrongCoordinateParent { source_id: SpatialSourceId::new(NS, 8), expected: "axial translation" })
    );
    assert_eq!(
        s.add_planar_translation_coordinate("slide".to_string(), SpatialSourceId::new(NS, 30), SpatialPlanarTranslationAxis::X),
        Err(SpatialAssemblyError::UnknownSource(SpatialSourceId::new(NS, 30)))
    );
    assert_eq!(s.add_hinge_coordinate("second".to_string(), SpatialSourceId::new(NS, 8), 3), Ok(SpatialCoordinateId::new(NS, 12)));
}

#[test]
fn drivers_agree_with_their_coordinate_and_each_other() {
    let mut s = hinge_pair();
    let angle = SpatialCoordinateId::new(NS, 9);
    assert_eq!(
        s.add_hinge_position_driver("wrong".to_string(), angle, 1, 0, None),
        Err(SpatialAssemblyError::WindingMismatch { coordinate: angle, coordinate_winding: 0, target_winding: 1 })
    );
    assert_eq!(
        s.add_hinge_position_driver("other".to_string(), angle, 0, 5, None),
        Err(SpatialAssemblyError::IncompatibleDriverTargets { coordinate: angle })
    );
    assert_eq!(
        s.add_translation_position_driver("slide".to_string(), angle, 0, None),
        Err(SpatialAssemblyError::WrongCoordinateKind { coordinate: angle, expected: "translation" })
    );
    assert_eq!(s.add_hinge_position_driver("same".to_string(), angle, 0, 0, None), Ok(SpatialSourceId::new(NS, 12)));
    assert_eq!(validate_spatial_structure(&s), Ok(()));
}

#[test]
fn monitors_check_their_features() {
    let mut s = hinge_pair();
    let p = SpatialPointFeatureId::new(NS, 3);
    let q = SpatialPointFeatureId::new(NS, 4);
    assert_eq!(
        s.add_signed_volume_monitor("volume".to_string(), [p, q, p, q], SpatialModeSign::Positive),
        Err(SpatialAssemblyError::InvalidField { field: "signed_volume_monitor.points", reason: SpatialFieldReason::RepeatedVolumePoints })
    );
    assert_eq!(
        s.add_hinge_winding_monitor("w".to_string(), SpatialCoordinateId::new(NS, 9), 2),
        Err(SpatialAssemblyError::WindingMismatch { coordinate: SpatialCoordinateId::new(NS, 9), coordinate_winding: 0, target_winding: 2 })
    );
}

#[test]
fn the_identity_space_runs_out() {
    let mut s = SpatialStructure::new(NS);
    s.next_id = u64::MAX - 1;
    assert_eq!(s.add_body("a".to_string(), [0; 7], None), Ok(SpatialBodyId::new(NS, u64::MAX - 1)));
    assert_eq!(s.add_body("b".to_string(), [0; 7], None), Err(SpatialAssemblyError::IdExhausted));
    assert_eq!(s.bodies.len(), 1);
}

#[test]
fn bodies_and_sources_keep_their_numbers() {
    let pose = [1.0f64, 2.0, 3.0, 1.0, 0.0, 0.0, 0.0].map(f64::to_bits);
    let later = [5.0f64, 0.0, 0.0, 1.0, 0.0, 0.0, 0.0].map(f64::to_bits);
    let mut s = SpatialStructure::new(NS);
    let base = s.add_body("base".to_string(), pose, None).unwrap();
    let arm = s.add_body("arm".to_string(), later, None).unwrap();
    assert_eq!(s.bodies[0].pose_guess, pose);
    let ground = s.add_physical_ground("floor".to_string(), base).unwrap();
    assert_eq!(s.sources[0].id, ground);
    assert_eq!(s.sources[0].numbers, SpatialSourceNumbers::Pose(pose));
    let p = s.add_point_feature("p".to_string(), base, [0; 3], None).unwrap();
    let q = s.add_point_feature("q".to_string(), arm, [0; 3], None).unwrap();
    s.add_point_distance_mate("gap".to_string(), p, q, 2.5f64.to_bits(), None).unwrap();
    assert_eq!(s.sources[1].numbers, SpatialSourceNumbers::Scalar(2.5f64.to_bits()));
    let a = s.add_axis_feature("a".to_string(), base, [0; 12], None).unwrap();
    let b = s.add_axis_feature("b".to_string(), arm, [0; 12], None).unwrap();
    s.add_axis_angle_mate("tilt".to_string(), a, b, 0.75f64.to_bits(), None).unwrap();
    assert_eq!(s.sources[2].numbers, SpatialSourceNumbers::Scalar(0.75f64.to_bits()));
    let f = s.add_frame_feature("f".to_string(), base, [0; 12], None).unwrap();
    let g = s.add_frame_feature("g".to_string(), arm, [0; 12], None).unwrap();
    let offset = [0.0f64, 0.0, 1.0, 1.0, 0.0, 0.0, 0.0, 1.0, 0.0, 0.0, 0.0, 1.0].map(f64::to_bits);
    s.add_frame_offset_mate("offset".to_string(), f, g, offset, None).unwrap();
    assert_eq!(s.sources[3].numbers, SpatialSourceNumbers::Frame(offset));
    let hinge = s.add_revolute_joint("hinge".to_string(), f, g, SpatialAxisParity::Aligned).unwrap();
    assert_eq!(s.sources.last().map(|r| (r.id, r.numbers)), Some((hinge, SpatialSourceNumbers::Empty)));
    assert_eq!(validate_spatial_structure(&s), Ok(()));
}
