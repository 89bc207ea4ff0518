use geosolve_linkage::ids::{SpatialDocumentId, SpatialPersistentId};
use geosolve_linkage::runtime_ids::{
    SpatialAxisFeatureId, SpatialBodyId, SpatialCoordinateId, SpatialModeMonitorId, SpatialPlaneFeatureId,
    SpatialPointFeatureId, SpatialSourceId,
};
use geosolve_linkage::spatial::{
    SpatialAxisParity, SpatialBranchBoundary, SpatialCoordinateKind, SpatialFrameAxis, SpatialModeMonitorKind,
    SpatialModeSign, SpatialPlanarTranslationAxis,
};
use geosolve_linkage::spatial_document::{
    capture_boundary, capture_coordinate, capture_monitor, frame_axis_record, lower_boundary, require_runtime_body,
    require_runtime_feature, runtime_frame_axis, runtime_plane, runtime_point, Allocator, AxisRecord, BoundaryRecord,
    CoordinateDefinition, FrameAxisRecord, MonitorDefinition, ParityRecord, SignRecord, SpatialAssemblyRuntimeMap,
    SpatialDocumentError, SpatialFeatureKind, SpatialReferenceKind, SpatialRuntimeFeature, SpatialRuntimeReference,
};

fn pid(value: u128) -> SpatialPersistentId {
    SpatialPersistentId(value)
}

fn sample_map() -> SpatialAssemblyRuntimeMap {
    let mut map = SpatialAssemblyRuntimeMap::new(SpatialDocumentId(1));
    map.push_body(pid(2), SpatialBodyId::new(9, 1));
    map.push_feature(pid(3), SpatialRuntimeFeature::Point(SpatialPointFeatureId::new(9, 2)));
    map.push_feature(pid(4), SpatialRuntimeFeature::Plane(SpatialPlaneFeatureId::new(9, 3)));
    map.push_feature(pid(5), SpatialRuntimeFeature::Axis(SpatialAxisFeatureId::new(9, 4)));
    map.push_source(pid(6), SpatialSourceId::new(9, 5));
    map.push_coordinate(pid(7), SpatialCoordinateId::new(9, 6));
    map.push_monitor(pid(8), SpatialModeMonitorId::new(9, 7));
    map
}

#[test]
fn runtime_map_lookups() {
    let map = sample_map();
    assert_eq!(map.document_id(), SpatialDocumentId(1));
    assert_eq!(map.runtime_body(pid(2)), Some(SpatialBodyId::new(9, 1)));
    assert_eq!(map.persistent_source(SpatialSourceId::new(9, 5)), Some(pid(6)));
    assert_eq!(map.runtime_feature(pid(4)), Some(SpatialRuntimeFeature::Plane(SpatialPlaneFeatureId::new(9, 3))));
    assert_eq!(map.persistent_feature(SpatialRuntimeFeature::Point(SpatialPointFeatureId::new(9, 2))), Some(pid(3)));
    assert_eq!(map.persistent_feature(SpatialRuntimeFeature::Point(SpatialPointFeatureId::new(9, 3))), None);
    assert_eq!(require_runtime_body(&map, pid(2)), Ok(SpatialBodyId::new(9, 1)));
    assert_eq!(
        require_runtime_body(&map, pid(3)),
        Err(SpatialDocumentError::UnknownReference { kind: SpatialReferenceKind::Body, id: pid(3) })
    );
}

#[test]
fn feature_references_must_have_the_expected_kind() {
    let map = sample_map();
    assert_eq!(runtime_point(&map, pid(3)), Ok(SpatialPointFeatureId::new(9, 2)));
    assert_eq!(runtime_plane(&map, pid(4)), Ok(SpatialPlaneFeatureId::new(9, 3)));
    assert_eq!(
        runtime_point(&map, pid(4)),
        Err(SpatialDocumentError::WrongReferenceKind { id: pid(4), expected: SpatialFeatureKind::Point })
    );
    assert_eq!(
        require_runtime_feature(&map, pid(40), SpatialFeatureKind::Axis),
        Err(SpatialDocumentError::UnknownReference { kind: SpatialReferenceKind::Feature, id: pid(40) })
    );
}

#[test]
fn allocator_starts_after_the_document() {
    let mut allocator = Allocator::new(SpatialDocumentId(5)).unwrap();
    assert_eq!(allocator.allocate(), Ok(pid(6)));
    assert_eq!(allocator.allocate(), Ok(pid(7)));
    assert_eq!(Allocator::new(SpatialDocumentId(0)).err(), Some(SpatialDocumentError::InvalidId(0)));
}

#[test]
fn coordinates_and_monitors_are_captured_by_persistent_identity() {
    let map = sample_map();
    let hinge = SpatialCoordinateKind::PlanarTranslation { parent: SpatialSourceId::new(9, 5), axis: SpatialPlanarTranslationAxis::Y };
    assert_eq!(capture_coordinate(hinge, &map), Ok(CoordinateDefinition::PlanarTranslation { parent: pid(6), axis: AxisRecord::Y }));
    let side = SpatialModeMonitorKind::PlaneSide {
        plane: SpatialPlaneFeatureId::new(9, 3),
        point: SpatialPointFeatureId::new(9, 2),
        side: SpatialModeSign::Negative,
    };
    assert_eq!(
        capture_monitor(side, &map),
        Ok(MonitorDefinition::PlaneSide { plane: pid(4), point: pid(3), side: SignRecord::Negative })
    );
    let missing = SpatialModeMonitorKind::PlaneSide {
        plane: SpatialPlaneFeatureId::new(9, 30),
        point: SpatialPointFeatureId::new(9, 20),
        side: SpatialModeSign::Positive,
    };
    assert_eq!(
        capture_monitor(missing, &map),
        Err(SpatialDocumentError::UnknownRuntimeReference(SpatialRuntimeReference::Feature(SpatialRuntimeFeature::Point(
            SpatialPointFeatureId::new(9, 20)
        ))))
    );
}

#[test]
fn boundaries_round_trip_through_their_records() {
    let map = sample_map();
    let boundaries = [
        SpatialBranchBoundary::FixedFrameDiagonal { source: SpatialSourceId::new(9, 5), axis: SpatialFrameAxis::Z },
        SpatialBranchBoundary::SourceAxisParity { source: SpatialSourceId::new(9, 5), parity: SpatialAxisParity::Opposed },
        SpatialBranchBoundary::HingeDriverPositiveRoot { source: SpatialSourceId::new(9, 5), coordinate: SpatialCoordinateId::new(9, 6) },
        SpatialBranchBoundary::HingePrincipalCut { coordinate: SpatialCoordinateId::new(9, 6), winding: -3 },
        SpatialBranchBoundary::MonitorSignedVolume { monitor: SpatialModeMonitorId::new(9, 7), orientation: SpatialModeSign::Positive },
    ];
    for boundary in boundaries {
        let record = capture_boundary(boundary, &map).unwrap();
        assert_eq!(lower_boundary(&record, &map), Ok(boundary));
    }
    assert_eq!(
        capture_boundary(boundaries[0], &map),
        Ok(BoundaryRecord::FixedFrameDiagonal { source: pid(6), axis: FrameAxisRecord::Z })
    );
    assert_eq!(
        capture_boundary(SpatialBranchBoundary::MonitorAxisParity { monitor: SpatialModeMonitorId::new(9, 70), parity: SpatialAxisParity::Aligned }, &map),
        Err(SpatialDocumentError::UnknownRuntimeReference(SpatialRuntimeReference::Monitor(SpatialModeMonitorId::new(9, 70))))
    );
    assert_eq!(
        lower_boundary(&BoundaryRecord::MonitorAxisParity { monitor: pid(99), parity: ParityRecord::Aligned }, &map),
        Err(SpatialDocumentError::UnknownReference { kind: SpatialReferenceKind::Monitor, id: pid(99) })
    );
    assert_eq!(runtime_frame_axis(frame_axis_record(SpatialFrameAxis::Y)), SpatialFrameAxis::Y);
}
