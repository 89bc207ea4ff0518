use geosolve_linkage::ids::{PlanarBodyId, PlanarDocumentId, PlanarFeatureId, PlanarSourceId};
use geosolve_linkage::model::LinkageSource;
use geosolve_linkage::planar::{
    axis_feature, body_id, point_feature, IdAllocator, PlanarField, PlanarLinkageError,
    PlanarLinkageRuntimeMap, PlanarReferenceKind, PlanarRuntimeFeature, PlanarRuntimeSource,
};
use geosolve_linkage::runtime_ids::{AxisFeatureId, BodyId, BranchMonitorId, DriverId, JointId, PointFeatureId};

fn sample_map() -> PlanarLinkageRuntimeMap {
    let mut map = PlanarLinkageRuntimeMap::new();
    map.push_body(PlanarBodyId(2), BodyId(100));
    map.push_body(PlanarBodyId(3), BodyId(101));
    map.push_body(PlanarBodyId(2), BodyId(102));
    map.push_feature(PlanarFeatureId(4), PlanarRuntimeFeature::Point(PointFeatureId(200)));
    map.push_feature(PlanarFeatureId(5), PlanarRuntimeFeature::Axis(AxisFeatureId(300)));
    map.push_source(PlanarSourceId(6), PlanarRuntimeSource::Ground(BodyId(100)));
    map.push_source(PlanarSourceId(7), PlanarRuntimeSource::Joint(JointId(400)));
    map.push_source(PlanarSourceId(8), PlanarRuntimeSource::Driver(DriverId(500)));
    map.push_source(PlanarSourceId(9), PlanarRuntimeSource::BranchMonitor(BranchMonitorId(600)));
    map
}

#[test]
fn lookups_answer_with_the_first_matching_entry() {
    let map = sample_map();
    assert_eq!(map.runtime_body(PlanarBodyId(2)), Some(BodyId(100)));
    assert_eq!(map.runtime_body(PlanarBodyId(9)), None);
    assert_eq!(map.persistent_body(BodyId(102)), Some(PlanarBodyId(2)));
    assert_eq!(map.runtime_feature(PlanarFeatureId(5)), Some(PlanarRuntimeFeature::Axis(AxisFeatureId(300))));
    assert_eq!(map.persistent_point_feature(PointFeatureId(200)), Some(PlanarFeatureId(4)));
    assert_eq!(map.persistent_point_feature(PointFeatureId(300)), None);
    assert_eq!(map.persistent_axis_feature(AxisFeatureId(300)), Some(PlanarFeatureId(5)));
    assert_eq!(map.runtime_source(PlanarSourceId(8)), Some(PlanarRuntimeSource::Driver(DriverId(500))));
    assert_eq!(map.persistent_source(LinkageSource::Ground(BodyId(100))), Some(PlanarSourceId(6)));
    assert_eq!(map.persistent_source(LinkageSource::Joint(JointId(400))), Some(PlanarSourceId(7)));
    assert_eq!(map.persistent_source(LinkageSource::Driver(DriverId(400))), None);
    assert_eq!(map.persistent_branch_monitor(BranchMonitorId(600)), Some(PlanarSourceId(9)));
}

#[test]
fn feature_lookups_check_the_feature_kind() {
    let map = sample_map();
    assert_eq!(point_feature(&map, PlanarFeatureId(4)), Ok(PointFeatureId(200)));
    assert_eq!(point_feature(&map, PlanarFeatureId(5)), Err(PlanarLinkageError::FeatureKindMismatch(PlanarFeatureId(5))));
    assert_eq!(axis_feature(&map, PlanarFeatureId(5)), Ok(AxisFeatureId(300)));
    assert_eq!(axis_feature(&map, PlanarFeatureId(4)), Err(PlanarLinkageError::FeatureKindMismatch(PlanarFeatureId(4))));
    assert_eq!(
        axis_feature(&map, PlanarFeatureId(8)),
        Err(PlanarLinkageError::UnknownReference { kind: PlanarReferenceKind::Feature, id: 8 })
    );
}

#[test]
fn captured_bodies_must_be_mapped() {
    let captured = vec![(BodyId(7), PlanarBodyId(70))];
    assert_eq!(body_id(&captured, BodyId(7)), Ok(PlanarBodyId(70)));
    assert_eq!(body_id(&captured, BodyId(8)), Err(PlanarLinkageError::InvalidField(PlanarField::RuntimeBodyMapping)));
}

#[test]
fn allocator_hands_out_consecutive_identities_after_the_document() {
    assert_eq!(IdAllocator::new(PlanarDocumentId(0)).err(), Some(PlanarLinkageError::InvalidId(0)));
    assert_eq!(IdAllocator::new(PlanarDocumentId(u128::MAX)).err(), Some(PlanarLinkageError::IdExhausted));
    let mut allocator = IdAllocator::new(PlanarDocumentId(41)).unwrap();
    assert_eq!(allocator.allocate(), Ok(42));
    assert_eq!(allocator.allocate(), Ok(43));
    assert_eq!(allocator.next, 44);
    let mut last = IdAllocator { next: u128::MAX };
    assert_eq!(last.allocate(), Err(PlanarLinkageError::IdExhausted));
    assert_eq!(last.next, u128::MAX);
}
