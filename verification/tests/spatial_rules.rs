use std::collections::BTreeSet;

use geosolve_linkage::runtime_ids::{
    SpatialBodyId, SpatialCoordinateId, SpatialModeMonitorId, SpatialPointFeatureId, SpatialSourceId,
};
use geosolve_linkage::spatial::{
    allocate_spatial_assembly_namespace, certified_components, checked_sum, require_distinct_bodies,
    require_distinct_volume_points, require_matching_winding, require_owned_unique_id,
    resolve_gauge_references, validate_label, SpatialAssemblyError, SpatialFieldReason,
    SpatialGaugePolicy, SpatialGaugeViolation, SpatialIncidence,
};

fn body(ordinal: u64) -> SpatialBodyId {
    SpatialBodyId::new(7, ordinal)
}

#[test]
fn hinge_winding_must_match() {
    let coordinate = SpatialCoordinateId::new(7, 3);
    assert_eq!(require_matching_winding(coordinate, 2, 2), Ok(()));
    assert_eq!(
        require_matching_winding(coordinate, 2, -1),
        Err(SpatialAssemblyError::WindingMismatch { coordinate, coordinate_winding: 2, target_winding: -1 })
    );
}

#[test]
fn spatial_labels_must_not_be_blank() {
    assert_eq!(validate_label("base", "body"), Ok(()));
    assert_eq!(validate_label("  ", "body"), Err(SpatialAssemblyError::InvalidLabel { field: "body" }));
}

#[test]
fn joint_endpoints_and_volume_points_must_differ() {
    assert_eq!(require_distinct_bodies(body(1), body(2)), Ok(()));
    assert_eq!(require_distinct_bodies(body(1), body(1)), Err(SpatialAssemblyError::SameBodyJointEndpoints(body(1))));
    let p = |o| SpatialPointFeatureId::new(7, o);
    assert_eq!(require_distinct_volume_points([p(1), p(2), p(3), p(4)]), Ok(()));
    assert_eq!(
        require_distinct_volume_points([p(1), p(2), p(3), p(1)]),
        Err(SpatialAssemblyError::InvalidField {
            field: "signed_volume_monitor.points",
            reason: SpatialFieldReason::RepeatedVolumePoints
        })
    );
}

#[test]
fn identities_must_belong_to_the_assembly_and_be_unique() {
    let mut ids = BTreeSet::new();
    assert_eq!(require_owned_unique_id(&mut ids, 7, body(1)), Ok(()));
    assert_eq!(
        require_owned_unique_id(&mut ids, 7, body(1)),
        Err(SpatialAssemblyError::InvalidField { field: "id", reason: SpatialFieldReason::ZeroOrDuplicateId(1) })
    );
    assert_eq!(
        require_owned_unique_id(&mut ids, 7, body(0)),
        Err(SpatialAssemblyError::InvalidField { field: "id", reason: SpatialFieldReason::ZeroOrDuplicateId(0) })
    );
    assert_eq!(
        require_owned_unique_id(&mut ids, 8, body(5)),
        Err(SpatialAssemblyError::InvalidField { field: "id", reason: SpatialFieldReason::ForeignId(5) })
    );
    assert_eq!(ids.into_iter().collect::<Vec<_>>(), vec![1]);
}

#[test]
fn namespaces_are_handed_out_in_order() {
    let mut counter = 1;
    assert_eq!(allocate_spatial_assembly_namespace(&mut counter), Ok(1));
    assert_eq!(allocate_spatial_assembly_namespace(&mut counter), Ok(2));
    let mut last = u64::MAX;
    assert_eq!(allocate_spatial_assembly_namespace(&mut last), Err(SpatialAssemblyError::IdExhausted));
    assert_eq!(last, u64::MAX);
}

#[test]
fn sums_report_overflow() {
    assert_eq!(checked_sum(&vec![1, 2, 3], "total"), Ok(6));
    assert_eq!(checked_sum(&vec![], "total"), Ok(0));
    assert_eq!(
        checked_sum(&vec![usize::MAX, 1], "total overflowed"),
        Err(SpatialAssemblyError::GaugeCertification("total overflowed".to_string()))
    );
}

fn incidence(id: u64, bodies: &[u64], ground: bool) -> SpatialIncidence<SpatialSourceId> {
    SpatialIncidence { id: SpatialSourceId::new(7, id), bodies: bodies.iter().map(|o| body(*o)).collect(), ground }
}

#[test]
fn spatial_components_join_bodies_through_sources_and_monitors() {
    let bodies = vec![body(5), body(1), body(3), body(2), body(4)];
    let sources = vec![incidence(10, &[1], true), incidence(11, &[1, 3], false), incidence(12, &[2, 5], false)];
    let monitors = vec![SpatialIncidence { id: SpatialModeMonitorId::new(7, 20), bodies: vec![body(4), body(5)], ground: false }];
    let components = certified_components(&bodies, &sources, &monitors).unwrap();
    assert_eq!(components.len(), 2);
    assert_eq!(components[0].bodies, vec![body(1), body(3)]);
    assert_eq!(components[0].sources, vec![SpatialSourceId::new(7, 10), SpatialSourceId::new(7, 11)]);
    assert_eq!(components[0].physical_ground_sources, vec![SpatialSourceId::new(7, 10)]);
    assert!(components[0].mode_monitors.is_empty());
    assert_eq!(components[1].bodies, vec![body(2), body(4), body(5)]);
    assert_eq!(components[1].sources, vec![SpatialSourceId::new(7, 12)]);
    assert_eq!(components[1].mode_monitors, vec![SpatialModeMonitorId::new(7, 20)]);
    let references = resolve_gauge_references(&SpatialGaugePolicy::LowestPersistentBody, &components).unwrap();
    assert_eq!(references, vec![None, Some(body(2))]);
    let explicit = SpatialGaugePolicy::ExplicitReferences { bodies: vec![body(4)] };
    assert_eq!(resolve_gauge_references(&explicit, &components), Ok(vec![None, Some(body(4))]));
    let unknown = SpatialGaugePolicy::ExplicitReferences { bodies: vec![body(9)] };
    assert_eq!(resolve_gauge_references(&unknown, &components), Err(SpatialAssemblyError::UnknownBody(body(9))));
    let grounded = SpatialGaugePolicy::ExplicitReferences { bodies: vec![body(3), body(5)] };
    assert_eq!(
        resolve_gauge_references(&grounded, &components),
        Err(SpatialAssemblyError::InvalidGaugePolicy(SpatialGaugeViolation::GroundedComponentReference(body(1))))
    );
}

#[test]
fn spatial_components_reject_unknown_incident_bodies() {
    let bodies = vec![body(1), body(2)];
    let sources = vec![incidence(10, &[1, 9, 8], false)];
    assert_eq!(certified_components(&bodies, &sources, &vec![]), Err(SpatialAssemblyError::UnknownBody(body(9))));
}
