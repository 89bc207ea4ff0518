use geosolve_linkage::spatial::SpatialFieldReason;
use geosolve_linkage::ids::{SpatialDocumentId, SpatialPersistentId};
use geosolve_linkage::runtime_ids::{
    SpatialBodyId, SpatialCoordinateId, SpatialFrameFeatureId, SpatialModeMonitorId, SpatialPointFeatureId,
    SpatialSourceId,
};
use geosolve_linkage::spatial::{
    SpatialAssemblyError, SpatialAxisParity, SpatialCoordinateKind, SpatialModeMonitorKind,
};
use geosolve_linkage::spatial_capture::{
    capture_coordinates, capture_monitors, capture_runtime_map, capture_sources, capture_structure, FeatureRecord,
};
use geosolve_linkage::spatial_document_structure::SpatialDocumentRecord;
use geosolve_linkage::spatial_document::{
    CoordinateDefinition, MonitorDefinition, ParityRecord, SignRecord, SpatialAssemblyRuntimeMap,
    SpatialDocumentError, SpatialDocumentField, SpatialFeatureKind, SpatialReferenceKind, SpatialRuntimeFeature,
};
use geosolve_linkage::spatial::{SpatialBoundaryHysteresisState, SpatialBranchBoundary, SpatialFrameAxis, SpatialModeSign};
use geosolve_linkage::spatial_boundaries::spatial_branch_boundaries;
use geosolve_linkage::spatial_document::{BoundaryRecord, FrameAxisRecord};
use geosolve_linkage::spatial_lowering::{restore_boundary_states, BoundaryStateRecord, 
    capture_source, ensure_coordinate, lower_monitor, lower_source, CoordinateRecord, DriverTargetRecord,
    GroundVerdict, MonitorRecord, SourceDefinition, SourceRecord, SourceVerdicts,
};
use geosolve_linkage::spatial_structure::{SpatialLocalGeometry, SpatialSourceNumbers, SpatialSourceShape, SpatialStructure, SpatialValueRejection};

const NS: u64 = 6;

fn pid(value: u128) -> SpatialPersistentId {
    SpatialPersistentId(value)
}

fn accept() -> SourceVerdicts {
    SourceVerdicts { ground: Some(GroundVerdict::Matches), offset_record: None, values: None }
}

/// Two bodies with a point and a frame each, already lowered, and the map that
/// names them: bodies 10, 11; points 20, 21; frames 30, 31.
fn lowered_bodies() -> (SpatialStructure, SpatialAssemblyRuntimeMap) {
    let mut s = SpatialStructure::new(NS);
    let mut map = SpatialAssemblyRuntimeMap::new(SpatialDocumentId(1));
    let base = s.add_body("base".to_string(), [0; 7], None).unwrap();
    let arm = s.add_body("arm".to_string(), [0; 7], None).unwrap();
    map.push_body(pid(10), base);
    map.push_body(pid(11), arm);
    let p = s.add_point_feature("p".to_string(), base, [0; 3], None).unwrap();
    let q = s.add_point_feature("q".to_string(), arm, [0; 3], None).unwrap();
    map.push_feature(pid(20), SpatialRuntimeFeature::Point(p));
    map.push_feature(pid(21), SpatialRuntimeFeature::Point(q));
    let f = s.add_frame_feature("f".to_string(), base, [0; 12], None).unwrap();
    let g = s.add_frame_feature("g".to_string(), arm, [0; 12], None).unwrap();
    map.push_feature(pid(30), SpatialRuntimeFeature::Frame(f));
    map.push_feature(pid(31), SpatialRuntimeFeature::Frame(g));
    (s, map)
}

fn source(id: u128, label: &str, definition: SourceDefinition) -> SourceRecord {
    SourceRecord { id: pid(id), label: label.to_string(), definition, numbers: SpatialSourceNumbers::Empty }
}

#[test]
fn a_ground_needs_an_accepted_pose_that_matches_its_target() {
    let (mut s, map) = lowered_bodies();
    let ground = source(40, "floor", SourceDefinition::PhysicalGround { body: pid(10) });
    let missing = SourceVerdicts { ground: None, ..accept() };
    assert_eq!(
        lower_source(&mut s, &map, &ground, None, missing),
        Err(SpatialDocumentError::UnknownReference { kind: SpatialReferenceKind::BodyState, id: pid(10) })
    );
    let moved = SourceVerdicts { ground: Some(GroundVerdict::Rejected(SpatialDocumentField::SourceTarget)), ..accept() };
    assert_eq!(
        lower_source(&mut s, &map, &ground, None, moved),
        Err(SpatialDocumentError::InvalidField(SpatialDocumentField::SourceTarget))
    );
    assert_eq!(s.sources.len(), 0);
    assert_eq!(lower_source(&mut s, &map, &ground, None, accept()), Ok(SpatialSourceId::new(NS, 7)));
    assert_eq!(s.sources[0].shape, SpatialSourceShape::PhysicalGround { body: SpatialBodyId::new(NS, 1) });
    assert_eq!(s.sources[0].label, "floor");
    assert_eq!(
        lower_source(&mut s, &map, &ground, None, accept()),
        Err(SpatialDocumentError::Spatial(SpatialAssemblyError::DuplicateGround(SpatialBodyId::new(NS, 1))))
    );
}

#[test]
fn joint_references_resolve_in_order_and_by_kind() {
    let (mut s, map) = lowered_bodies();
    let hinge = source(41, "hinge", SourceDefinition::RevoluteJoint { first: pid(30), second: pid(31), parity: ParityRecord::Opposed });
    assert_eq!(lower_source(&mut s, &map, &hinge, None, accept()), Ok(SpatialSourceId::new(NS, 7)));
    assert_eq!(
        s.sources[0].shape,
        SpatialSourceShape::RevoluteJoint {
            first: SpatialFrameFeatureId::new(NS, 5),
            second: SpatialFrameFeatureId::new(NS, 6),
            parity: SpatialAxisParity::Opposed,
        }
    );
    let wrong = source(42, "ball", SourceDefinition::BallJoint { first: pid(20), second: pid(30) });
    assert_eq!(
        lower_source(&mut s, &map, &wrong, None, accept()),
        Err(SpatialDocumentError::WrongReferenceKind { id: pid(30), expected: SpatialFeatureKind::Point })
    );
    let unknown = source(43, "ball", SourceDefinition::BallJoint { first: pid(99), second: pid(98) });
    assert_eq!(
        lower_source(&mut s, &map, &unknown, None, accept()),
        Err(SpatialDocumentError::UnknownReference { kind: SpatialReferenceKind::Feature, id: pid(99) })
    );
    let same_body = source(44, "weld", SourceDefinition::FixedFrame { first: pid(30), second: pid(30) });
    assert_eq!(
        lower_source(&mut s, &map, &same_body, None, accept()),
        Err(SpatialDocumentError::Spatial(SpatialAssemblyError::SameBodyJointEndpoints(SpatialBodyId::new(NS, 1))))
    );
    assert_eq!(s.sources.len(), 1);
}

#[test]
fn source_values_are_judged_after_the_references() {
    let (mut s, map) = lowered_bodies();
    let offset = source(45, "offset", SourceDefinition::FrameOffsetMate { first: pid(30), second: pid(31) });
    let bad_record = SourceVerdicts { offset_record: Some(SpatialDocumentField::FeatureLocalFrame), ..accept() };
    assert_eq!(
        lower_source(&mut s, &map, &offset, None, bad_record),
        Err(SpatialDocumentError::InvalidField(SpatialDocumentField::FeatureLocalFrame))
    );
    let rejection = SpatialValueRejection { field: "frame offset mate", message: "not finite" };
    let bad_value = SourceVerdicts { values: Some(rejection), ..accept() };
    let distance = source(46, "gap", SourceDefinition::PointDistanceMate { first: pid(20), second: pid(21) });
    assert_eq!(
        lower_source(&mut s, &map, &distance, None, bad_value),
        Err(SpatialDocumentError::Spatial(SpatialAssemblyError::InvalidField { field: "frame offset mate", reason: SpatialFieldReason::Rejected("not finite") }))
    );
    let hinge = source(47, "hinge", SourceDefinition::RevoluteJoint { first: pid(30), second: pid(31), parity: ParityRecord::Aligned });
    assert_eq!(lower_source(&mut s, &map, &hinge, None, bad_value), Ok(SpatialSourceId::new(NS, 7)));
}

#[test]
fn coordinates_are_lowered_once_and_drivers_need_a_fitting_target() {
    let (mut s, mut map) = lowered_bodies();
    let hinge = source(41, "hinge", SourceDefinition::RevoluteJoint { first: pid(30), second: pid(31), parity: ParityRecord::Aligned });
    let hinge_id = lower_source(&mut s, &map, &hinge, None, accept()).unwrap();
    map.push_source(pid(41), hinge_id);
    let records = vec![
        CoordinateRecord { id: pid(50), label: "angle".to_string(), definition: CoordinateDefinition::Hinge { parent: pid(41), winding: 2 } },
        CoordinateRecord { id: pid(51), label: "slide".to_string(), definition: CoordinateDefinition::AxialTranslation { parent: pid(99) } },
    ];
    assert_eq!(
        ensure_coordinate(&mut s, &mut map, &records, pid(52)),
        Err(SpatialDocumentError::UnknownReference { kind: SpatialReferenceKind::Coordinate, id: pid(52) })
    );
    assert_eq!(
        ensure_coordinate(&mut s, &mut map, &records, pid(51)),
        Err(SpatialDocumentError::UnknownReference { kind: SpatialReferenceKind::Source, id: pid(99) })
    );
    let angle = SpatialCoordinateId::new(NS, 8);
    assert_eq!(ensure_coordinate(&mut s, &mut map, &records, pid(50)), Ok(angle));
    assert_eq!(map.runtime_coordinate(pid(50)), Some(angle));
    assert_eq!(s.coordinates[0].kind, SpatialCoordinateKind::Hinge { parent: hinge_id, winding: 2 });
    assert_eq!(ensure_coordinate(&mut s, &mut map, &records, pid(50)), Ok(angle));
    assert_eq!(s.coordinates.len(), 1);
    assert_eq!(s.next_id, 9);

    let drive = source(60, "drive", SourceDefinition::HingePositionDriver { coordinate: pid(50) });
    assert_eq!(
        lower_source(&mut s, &map, &drive, None, accept()),
        Err(SpatialDocumentError::UnknownReference { kind: SpatialReferenceKind::DriverState, id: pid(60) })
    );
    assert_eq!(
        lower_source(&mut s, &map, &drive, Some(DriverTargetRecord::Translation { target_bits: 0 }), accept()),
        Err(SpatialDocumentError::InvalidField(SpatialDocumentField::DriverTarget))
    );
    assert_eq!(
        lower_source(&mut s, &map, &drive, Some(DriverTargetRecord::Hinge { phase_bits: 7, winding: 1 }), accept()),
        Err(SpatialDocumentError::Spatial(SpatialAssemblyError::WindingMismatch {
            coordinate: angle,
            coordinate_winding: 2,
            target_winding: 1,
        }))
    );
    assert_eq!(
        lower_source(&mut s, &map, &drive, Some(DriverTargetRecord::Hinge { phase_bits: 7, winding: 2 }), accept()),
        Ok(SpatialSourceId::new(NS, 9))
    );
    assert_eq!(
        s.sources[1].shape,
        SpatialSourceShape::HingePositionDriver { coordinate: angle, winding: 2, phase_bits: 7 }
    );

    let winding = MonitorRecord {
        id: pid(73),
        label: "winding".to_string(),
        definition: MonitorDefinition::HingeWinding { coordinate: pid(50), winding: 2 },
    };
    assert_eq!(lower_monitor(&mut s, &map, &winding), Ok(SpatialModeMonitorId::new(NS, 10)));
    assert_eq!(s.mode_monitors[0].kind, SpatialModeMonitorKind::HingeWinding { coordinate: angle, winding: 2 });
    assert_eq!(s.mode_monitors[0].label, "winding");
}

#[test]
fn monitors_resolve_their_references() {
    let (mut s, map) = lowered_bodies();
    let volume = MonitorRecord {
        id: pid(70),
        label: "volume".to_string(),
        definition: MonitorDefinition::SignedVolume { points: [pid(20), pid(21), pid(20), pid(30)], orientation: SignRecord::Negative },
    };
    assert_eq!(
        lower_monitor(&mut s, &map, &volume),
        Err(SpatialDocumentError::WrongReferenceKind { id: pid(30), expected: SpatialFeatureKind::Point })
    );
    let parity = MonitorRecord {
        id: pid(71),
        label: " ".to_string(),
        definition: MonitorDefinition::HingeWinding { coordinate: pid(50), winding: 0 },
    };
    assert_eq!(
        lower_monitor(&mut s, &map, &parity),
        Err(SpatialDocumentError::UnknownReference { kind: SpatialReferenceKind::Coordinate, id: pid(50) })
    );
    let blank = MonitorRecord {
        id: pid(72),
        label: " ".to_string(),
        definition: MonitorDefinition::SignedVolume { points: [pid(20), pid(21), pid(20), pid(21)], orientation: SignRecord::Positive },
    };
    assert_eq!(
        lower_monitor(&mut s, &map, &blank),
        Err(SpatialDocumentError::Spatial(SpatialAssemblyError::InvalidLabel { field: "signed volume monitor" }))
    );
    assert_eq!(s.mode_monitors.len(), 0);
    assert_eq!(s.next_id, 7);
}

#[test]
fn capturing_a_lowered_source_gives_its_definition_back() {
    let (mut s, map) = lowered_bodies();
    let definition = SourceDefinition::BallJoint { first: pid(20), second: pid(21) };
    let ball = source(80, "ball", definition);
    lower_source(&mut s, &map, &ball, None, accept()).unwrap();
    assert_eq!(
        s.sources[0].shape,
        SpatialSourceShape::BallJoint { first: SpatialPointFeatureId::new(NS, 3), second: SpatialPointFeatureId::new(NS, 4) }
    );
    assert_eq!(capture_source(s.sources[0].shape, &map), Ok(definition));
    assert_eq!(
        capture_source(SpatialSourceShape::PhysicalGround { body: SpatialBodyId::new(NS, 40) }, &map),
        Err(SpatialDocumentError::UnknownRuntimeReference(
            geosolve_linkage::spatial_document::SpatialRuntimeReference::Body(SpatialBodyId::new(NS, 40))
        ))
    );
}

#[test]
fn capture_gives_consecutive_identities_in_object_order() {
    let mut s = SpatialStructure::new(NS);
    let base = s.add_body("base".to_string(), [0; 7], None).unwrap();
    let arm = s.add_body("arm".to_string(), [0; 7], None).unwrap();
    let f = s.add_frame_feature("f".to_string(), base, [0; 12], None).unwrap();
    let g = s.add_frame_feature("g".to_string(), arm, [0; 12], None).unwrap();
    let p = s.add_point_feature("p".to_string(), arm, [0; 3], None).unwrap();
    let hinge = s.add_revolute_joint("hinge".to_string(), f, g, SpatialAxisParity::Aligned).unwrap();
    let angle = s.add_hinge_coordinate("angle".to_string(), hinge, 0).unwrap();
    s.add_hinge_winding_monitor("winding".to_string(), angle, 0).unwrap();

    assert_eq!(capture_runtime_map(SpatialDocumentId(0), &s).err(), Some(SpatialDocumentError::InvalidId(0)));
    assert_eq!(
        capture_runtime_map(SpatialDocumentId(u128::MAX - 8), &s).err(),
        Some(SpatialDocumentError::IdExhausted)
    );
    let (map, next) = capture_runtime_map(SpatialDocumentId(u128::MAX - 9), &s).unwrap();
    assert_eq!(next, pid(u128::MAX));
    let (map, next) = capture_runtime_map(SpatialDocumentId(100), &s).unwrap();
    assert_eq!(next, pid(109));
    assert_eq!(map.bodies, vec![(pid(101), base), (pid(102), arm)]);
    assert_eq!(map.features, vec![
        (pid(103), SpatialRuntimeFeature::Point(p)),
        (pid(104), SpatialRuntimeFeature::Frame(f)),
        (pid(105), SpatialRuntimeFeature::Frame(g)),
    ]);
    assert_eq!(map.sources, vec![(pid(106), hinge)]);
    assert_eq!(map.coordinates, vec![(pid(107), angle)]);
    assert_eq!(map.monitors.len(), 1);
    assert_eq!(map.monitors[0].0, pid(108));

    let sources = capture_sources(&map, &s.sources).unwrap();
    assert_eq!(sources, vec![SourceRecord {
        id: pid(106),
        label: "hinge".to_string(),
        definition: SourceDefinition::RevoluteJoint { first: pid(104), second: pid(105), parity: ParityRecord::Aligned },
        numbers: SpatialSourceNumbers::Empty,
    }]);
    let coordinates = capture_coordinates(&map, &s.coordinates).unwrap();
    assert_eq!(coordinates, vec![CoordinateRecord {
        id: pid(107),
        label: "angle".to_string(),
        definition: CoordinateDefinition::Hinge { parent: pid(106), winding: 0 },
    }]);
    let monitors = capture_monitors(&map, &s.mode_monitors).unwrap();
    assert_eq!(monitors[0].definition, MonitorDefinition::HingeWinding { coordinate: pid(107), winding: 0 });

    // Lowering the captured records into a fresh structure rebuilds the same definitions.
    let mut fresh = SpatialStructure::new(NS + 1);
    let mut lowered = SpatialAssemblyRuntimeMap::new(SpatialDocumentId(100));
    let base2 = fresh.add_body("base".to_string(), [0; 7], None).unwrap();
    let arm2 = fresh.add_body("arm".to_string(), [0; 7], None).unwrap();
    lowered.push_body(pid(101), base2);
    lowered.push_body(pid(102), arm2);
    let p2 = fresh.add_point_feature("p".to_string(), arm2, [0; 3], None).unwrap();
    let f2 = fresh.add_frame_feature("f".to_string(), base2, [0; 12], None).unwrap();
    let g2 = fresh.add_frame_feature("g".to_string(), arm2, [0; 12], None).unwrap();
    lowered.push_feature(pid(103), SpatialRuntimeFeature::Point(p2));
    lowered.push_feature(pid(104), SpatialRuntimeFeature::Frame(f2));
    lowered.push_feature(pid(105), SpatialRuntimeFeature::Frame(g2));
    let hinge2 = lower_source(&mut fresh, &lowered, &sources[0], None, accept()).unwrap();
    lowered.push_source(pid(106), hinge2);
    let angle2 = ensure_coordinate(&mut fresh, &mut lowered, &coordinates, pid(107)).unwrap();
    let winding2 = lower_monitor(&mut fresh, &lowered, &monitors[0]).unwrap();
    assert_eq!(
        fresh.sources[0].shape,
        SpatialSourceShape::RevoluteJoint { first: f2, second: g2, parity: SpatialAxisParity::Aligned }
    );
    assert_eq!(fresh.coordinates[0].kind, SpatialCoordinateKind::Hinge { parent: hinge2, winding: 0 });
    assert_eq!(fresh.mode_monitors[0].id, winding2);
    assert_eq!(fresh.mode_monitors[0].kind, SpatialModeMonitorKind::HingeWinding { coordinate: angle2, winding: 0 });
}

#[test]
fn a_whole_structure_is_captured_in_object_order() {
    let mut s = SpatialStructure::new(NS);
    let base = s.add_body("base".to_string(), [0; 7], None).unwrap();
    let arm = s.add_body("arm".to_string(), [0; 7], None).unwrap();
    s.add_point_feature("p".to_string(), arm, [0; 3], None).unwrap();
    let f = s.add_frame_feature("f".to_string(), base, [0; 12], None).unwrap();
    let g = s.add_frame_feature("g".to_string(), arm, [0; 12], None).unwrap();
    s.add_physical_ground("floor".to_string(), base).unwrap();
    s.add_revolute_joint("hinge".to_string(), f, g, SpatialAxisParity::Opposed).unwrap();

    let captured = capture_structure(SpatialDocumentId(7), &s).unwrap();
    assert_eq!(captured.next_id, pid(15));
    assert_eq!(captured.bodies, vec![
        SpatialDocumentRecord { id: pid(8), label: "base".to_string() },
        SpatialDocumentRecord { id: pid(9), label: "arm".to_string() },
    ]);
    assert_eq!(captured.point_features, vec![FeatureRecord { id: pid(10), label: "p".to_string(), body: pid(9), local: SpatialLocalGeometry::Point([0; 3]) }]);
    assert_eq!(captured.frame_features[1], FeatureRecord { id: pid(12), label: "g".to_string(), body: pid(9), local: SpatialLocalGeometry::Frame([0; 12]) });
    assert!(captured.axis_features.is_empty());
    assert_eq!(captured.sources[0].definition, SourceDefinition::PhysicalGround { body: pid(8) });
    assert_eq!(
        captured.sources[1].definition,
        SourceDefinition::RevoluteJoint { first: pid(11), second: pid(12), parity: ParityRecord::Opposed }
    );
    assert_eq!(captured.sources[1].id, pid(14));
    assert_eq!(capture_structure(SpatialDocumentId(0), &s), Err(SpatialDocumentError::InvalidId(0)));

    // A feature whose body is not in the structure cannot be captured.
    let mut broken = s.clone();
    broken.point_features[0].body = SpatialBodyId::new(NS, 99);
    assert_eq!(
        capture_structure(SpatialDocumentId(7), &broken),
        Err(SpatialDocumentError::UnknownRuntimeReference(
            geosolve_linkage::spatial_document::SpatialRuntimeReference::Body(SpatialBodyId::new(NS, 99))
        ))
    );
}

#[test]
fn accepted_latches_are_restored_onto_the_implied_boundaries() {
    let mut map = SpatialAssemblyRuntimeMap::new(SpatialDocumentId(1));
    let slider = SpatialSourceId::new(NS, 5);
    let weld = SpatialSourceId::new(NS, 6);
    let angle = SpatialCoordinateId::new(NS, 7);
    map.push_source(pid(50), slider);
    map.push_source(pid(51), weld);
    map.push_coordinate(pid(60), angle);
    let clock = BoundaryStateRecord { boundary: BoundaryRecord::PrismaticClockRoot { source: pid(50) }, state: SpatialBoundaryHysteresisState::Near };
    let diagonal = BoundaryStateRecord {
        boundary: BoundaryRecord::FixedFrameDiagonal { source: pid(51), axis: FrameAxisRecord::Y },
        state: SpatialBoundaryHysteresisState::Clear,
    };
    let cut = BoundaryStateRecord { boundary: BoundaryRecord::HingePrincipalCut { coordinate: pid(60), winding: -1 }, state: SpatialBoundaryHysteresisState::Near };
    let evaluated = vec![
        SpatialBranchBoundary::HingePrincipalCut { coordinate: angle, winding: -1 },
        SpatialBranchBoundary::PrismaticClockRoot { source: slider },
        SpatialBranchBoundary::FixedFrameDiagonal { source: weld, axis: SpatialFrameAxis::Y },
    ];
    assert_eq!(
        restore_boundary_states(&map, &vec![clock, diagonal, cut], &evaluated),
        Ok(vec![SpatialBoundaryHysteresisState::Near, SpatialBoundaryHysteresisState::Near, SpatialBoundaryHysteresisState::Clear])
    );
    assert_eq!(
        restore_boundary_states(&map, &vec![clock, clock], &evaluated),
        Err(SpatialDocumentError::InvalidField(SpatialDocumentField::RepeatedBoundary))
    );
    assert_eq!(
        restore_boundary_states(&map, &vec![clock, diagonal], &evaluated),
        Err(SpatialDocumentError::InvalidField(SpatialDocumentField::AcceptedBoundaries))
    );
    let other_cut = BoundaryStateRecord { boundary: BoundaryRecord::HingePrincipalCut { coordinate: pid(60), winding: 0 }, state: SpatialBoundaryHysteresisState::Near };
    assert_eq!(
        restore_boundary_states(&map, &vec![clock, diagonal, other_cut], &evaluated),
        Err(SpatialDocumentError::InvalidField(SpatialDocumentField::AcceptedBoundaries))
    );
    let stale = BoundaryStateRecord { boundary: BoundaryRecord::PrismaticClockRoot { source: pid(99) }, state: SpatialBoundaryHysteresisState::Clear };
    assert_eq!(
        restore_boundary_states(&map, &vec![clock, stale], &evaluated),
        Err(SpatialDocumentError::UnknownReference { kind: SpatialReferenceKind::Source, id: pid(99) })
    );
    assert_eq!(restore_boundary_states(&map, &vec![], &vec![]), Ok(vec![]));
}

#[test]
fn the_topology_implies_its_branch_boundaries_in_order() {
    let mut s = SpatialStructure::new(NS);
    let base = s.add_body("base".to_string(), [0; 7], None).unwrap();
    let arm = s.add_body("arm".to_string(), [0; 7], None).unwrap();
    let f = s.add_frame_feature("f".to_string(), base, [0; 12], None).unwrap();
    let g = s.add_frame_feature("g".to_string(), arm, [0; 12], None).unwrap();
    let weld = s.add_fixed_frame("weld".to_string(), f, g).unwrap();
    let hinge = s.add_revolute_joint("hinge".to_string(), f, g, SpatialAxisParity::Opposed).unwrap();
    let angle = s.add_hinge_coordinate("angle".to_string(), hinge, 3).unwrap();
    let drive = s.add_hinge_position_driver("drive".to_string(), angle, 3, 0, None).unwrap();
    s.add_hinge_winding_monitor("winding".to_string(), angle, 3).unwrap();
    let p = s.add_point_feature("p".to_string(), arm, [0; 3], None).unwrap();
    let q = s.add_point_feature("q".to_string(), arm, [0; 3], None).unwrap();
    let r = s.add_point_feature("r".to_string(), base, [0; 3], None).unwrap();
    let t = s.add_point_feature("t".to_string(), base, [0; 3], None).unwrap();
    let volume = s.add_signed_volume_monitor("volume".to_string(), [p, q, r, t], SpatialModeSign::Negative).unwrap();
    assert_eq!(spatial_branch_boundaries(&s), vec![
        SpatialBranchBoundary::FixedFrameDiagonal { source: weld, axis: SpatialFrameAxis::X },
        SpatialBranchBoundary::FixedFrameDiagonal { source: weld, axis: SpatialFrameAxis::Y },
        SpatialBranchBoundary::FixedFrameDiagonal { source: weld, axis: SpatialFrameAxis::Z },
        SpatialBranchBoundary::SourceAxisParity { source: hinge, parity: SpatialAxisParity::Opposed },
        SpatialBranchBoundary::HingeDriverPositiveRoot { source: drive, coordinate: angle },
        SpatialBranchBoundary::HingePrincipalCut { coordinate: angle, winding: 3 },
        SpatialBranchBoundary::MonitorSignedVolume { monitor: volume, orientation: SpatialModeSign::Negative },
    ]);
    assert!(spatial_branch_boundaries(&SpatialStructure::new(NS)).is_empty());
}

#[test]
fn mate_numbers_travel_through_capture_and_lowering() {
    let (mut s, map) = lowered_bodies();
    let mut distance = source(46, "gap", SourceDefinition::PointDistanceMate { first: pid(20), second: pid(21) });
    distance.numbers = SpatialSourceNumbers::Scalar(1.5f64.to_bits());
    let id = lower_source(&mut s, &map, &distance, None, accept()).unwrap();
    let record = s.sources.iter().find(|r| r.id == id).unwrap();
    assert_eq!(record.numbers, SpatialSourceNumbers::Scalar(1.5f64.to_bits()));
}
