use geosolve_linkage::gauge::GaugeRuleViolation;
use geosolve_linkage::ids::{PlanarBodyId, PlanarDocumentId, PlanarFeatureId, PlanarSourceId};
use geosolve_linkage::model::{AxisDirectionBranch, BranchSign};
use geosolve_linkage::planar::{
    certified_components, certify_gauge, persistent_source_bodies, resolve_gauge_references,
    validate_label, validate_topology, PlanarBody, PlanarField, PlanarFeatureRecord,
    PlanarGaugePolicy, PlanarGaugeViolation, PlanarLinkageError, PlanarReferenceKind,
    PlanarSourceRecord, PlanarSourceTopology, PlanarStructure,
};

fn body(id: u128, label: &str) -> PlanarBody {
    PlanarBody { id: PlanarBodyId(id), label: label.to_string() }
}

fn feature(id: u128, body: u128) -> PlanarFeatureRecord {
    PlanarFeatureRecord { id: PlanarFeatureId(id), label: format!("feature {id}"), body: PlanarBodyId(body) }
}

fn source(id: u128, definition: PlanarSourceTopology) -> PlanarSourceRecord {
    PlanarSourceRecord { id: PlanarSourceId(id), label: format!("source {id}"), definition }
}

fn point(id: u128) -> PlanarFeatureId {
    PlanarFeatureId(id)
}

/// Grounded four-bar (bodies 2..=5) plus a free body 22 with a point 23.
fn four_bar() -> PlanarStructure {
    PlanarStructure {
        version: 1,
        id: PlanarDocumentId(1),
        next_id: 24,
        bodies: vec![body(2, "ground"), body(3, "input"), body(4, "coupler"), body(5, "rocker"), body(22, "free")],
        point_features: vec![
            feature(6, 2),
            feature(7, 2),
            feature(8, 3),
            feature(9, 3),
            feature(10, 4),
            feature(11, 4),
            feature(12, 5),
            feature(13, 5),
            feature(23, 22),
        ],
        axis_features: vec![],
        sources: vec![
            source(14, PlanarSourceTopology::PhysicalGround { body: PlanarBodyId(2) }),
            source(15, PlanarSourceTopology::Revolute { first: point(6), second: point(8) }),
            source(16, PlanarSourceTopology::Revolute { first: point(9), second: point(10) }),
            source(17, PlanarSourceTopology::Revolute { first: point(11), second: point(12) }),
            source(18, PlanarSourceTopology::Revolute { first: point(13), second: point(7) }),
            source(19, PlanarSourceTopology::AngularDriver { reference: PlanarBodyId(2), driven: PlanarBodyId(3) }),
            source(
                20,
                PlanarSourceTopology::OrientationBranch {
                    line_start: point(8),
                    line_end: point(10),
                    observed: point(12),
                    sign: BranchSign::Positive,
                },
            ),
        ],
        source_order: (14..=20).map(PlanarSourceId).collect(),
        body_states: vec![PlanarBodyId(2), PlanarBodyId(3), PlanarBodyId(4), PlanarBodyId(5), PlanarBodyId(22)],
        driver_states: vec![PlanarSourceId(19)],
    }
}

#[test]
fn four_bar_structure_is_valid() {
    assert_eq!(validate_topology(&four_bar()), Ok(()));
}

#[test]
fn unsupported_version_is_rejected_first() {
    let mut s = four_bar();
    s.version = 2;
    s.id = PlanarDocumentId(0);
    assert_eq!(validate_topology(&s), Err(PlanarLinkageError::UnsupportedVersion(2)));
}

#[test]
fn zero_document_or_next_identity_is_rejected() {
    let mut s = four_bar();
    s.id = PlanarDocumentId(0);
    assert_eq!(validate_topology(&s), Err(PlanarLinkageError::InvalidId(0)));
    let mut s = four_bar();
    s.next_id = 0;
    assert_eq!(validate_topology(&s), Err(PlanarLinkageError::InvalidId(1)));
}

#[test]
fn repeated_or_zero_identity_is_rejected() {
    let mut s = four_bar();
    s.point_features[2].id = PlanarFeatureId(3);
    assert_eq!(validate_topology(&s), Err(PlanarLinkageError::DuplicateId(3)));
    let mut s = four_bar();
    s.bodies[1].id = PlanarBodyId(1);
    assert_eq!(validate_topology(&s), Err(PlanarLinkageError::DuplicateId(1)));
    let mut s = four_bar();
    s.sources[0].id = PlanarSourceId(0);
    assert_eq!(validate_topology(&s), Err(PlanarLinkageError::DuplicateId(0)));
}

#[test]
fn empty_or_long_label_is_rejected() {
    let mut s = four_bar();
    s.bodies[2].label = String::new();
    assert_eq!(validate_topology(&s), Err(PlanarLinkageError::InvalidField(PlanarField::Label)));
    assert_eq!(validate_label(&"x".repeat(1024)), Ok(()));
    assert_eq!(validate_label(&"x".repeat(1025)), Err(PlanarLinkageError::InvalidField(PlanarField::Label)));
    assert_eq!(validate_label("é"), Ok(()));
}

#[test]
fn stale_next_identity_is_rejected() {
    let mut s = four_bar();
    s.next_id = 23;
    assert_eq!(validate_topology(&s), Err(PlanarLinkageError::InvalidField(PlanarField::NextId)));
}

#[test]
fn feature_on_unknown_body_is_rejected() {
    let mut s = four_bar();
    s.point_features[4].body = PlanarBodyId(99);
    assert_eq!(
        validate_topology(&s),
        Err(PlanarLinkageError::UnknownReference { kind: PlanarReferenceKind::Body, id: 99 })
    );
}

#[test]
fn source_order_must_list_each_source_once() {
    let mut s = four_bar();
    s.source_order[1] = PlanarSourceId(14);
    assert_eq!(validate_topology(&s), Err(PlanarLinkageError::InvalidSourceOrder));
    let mut s = four_bar();
    s.source_order.pop();
    assert_eq!(validate_topology(&s), Err(PlanarLinkageError::InvalidSourceOrder));
}

#[test]
fn source_references_are_checked_in_order() {
    let mut s = four_bar();
    s.sources[1].definition = PlanarSourceTopology::Revolute { first: point(6), second: point(77) };
    assert_eq!(
        validate_topology(&s),
        Err(PlanarLinkageError::UnknownReference { kind: PlanarReferenceKind::PointFeature, id: 77 })
    );
    let mut s = four_bar();
    s.sources[1].definition = PlanarSourceTopology::Prismatic {
        first_anchor: point(6),
        first_axis: point(8),
        second_anchor: point(9),
        second_axis: point(10),
        axis_branch: AxisDirectionBranch::Same,
    };
    assert_eq!(
        validate_topology(&s),
        Err(PlanarLinkageError::UnknownReference { kind: PlanarReferenceKind::AxisFeature, id: 8 })
    );
}

#[test]
fn a_body_is_grounded_at_most_once() {
    let mut s = four_bar();
    s.sources[6].definition = PlanarSourceTopology::PhysicalGround { body: PlanarBodyId(2) };
    assert_eq!(
        validate_topology(&s),
        Err(PlanarLinkageError::InvalidField(PlanarField::SourcePhysicalGround))
    );
}

#[test]
fn accepted_state_must_cover_bodies_and_drivers() {
    let mut s = four_bar();
    s.body_states.pop();
    assert_eq!(validate_topology(&s), Err(PlanarLinkageError::IncompleteAcceptedState));
    let mut s = four_bar();
    s.driver_states.clear();
    assert_eq!(validate_topology(&s), Err(PlanarLinkageError::IncompleteAcceptedState));
    let mut s = four_bar();
    s.driver_states.push(PlanarSourceId(19));
    assert_eq!(validate_topology(&s), Err(PlanarLinkageError::IncompleteAcceptedState));
}

#[test]
fn components_follow_source_connectivity() {
    let s = four_bar();
    let components = certified_components(&s);
    assert_eq!(components.len(), 2);
    assert_eq!(
        components[0].bodies,
        vec![PlanarBodyId(2), PlanarBodyId(3), PlanarBodyId(4), PlanarBodyId(5)]
    );
    assert_eq!(components[0].sources, (14..=20).map(PlanarSourceId).collect::<Vec<_>>());
    assert_eq!(components[0].physical_ground_sources, vec![PlanarSourceId(14)]);
    assert_eq!(components[1].bodies, vec![PlanarBodyId(22)]);
    assert!(components[1].sources.is_empty());
}

#[test]
fn default_gauge_anchors_each_floating_component_at_its_lowest_body() {
    let s = four_bar();
    let (_, references) = certify_gauge(&s, &PlanarGaugePolicy::LowestPersistentBody).unwrap();
    assert_eq!(references, vec![None, Some(PlanarBodyId(22))]);
}

#[test]
fn explicit_gauge_needs_exactly_one_reference_per_floating_component() {
    let s = four_bar();
    let components = certified_components(&s);
    let explicit = |bodies: Vec<u128>| PlanarGaugePolicy::ExplicitReferences {
        bodies: bodies.into_iter().map(PlanarBodyId).collect(),
    };
    assert_eq!(resolve_gauge_references(&explicit(vec![22]), &components), Ok(vec![None, Some(PlanarBodyId(22))]));
    assert_eq!(
        resolve_gauge_references(&explicit(vec![22, 22]), &components),
        Err(PlanarLinkageError::InvalidGaugePolicy(PlanarGaugeViolation::DuplicateReferences))
    );
    assert_eq!(
        resolve_gauge_references(&explicit(vec![22, 40]), &components),
        Err(PlanarLinkageError::InvalidGaugePolicy(PlanarGaugeViolation::UnknownReference(PlanarBodyId(40))))
    );
    assert_eq!(
        resolve_gauge_references(&explicit(vec![]), &components),
        Err(PlanarLinkageError::InvalidGaugePolicy(PlanarGaugeViolation::FloatingComponentReferences(PlanarBodyId(22))))
    );
    assert_eq!(
        resolve_gauge_references(&explicit(vec![3, 22]), &components),
        Err(PlanarLinkageError::InvalidGaugePolicy(PlanarGaugeViolation::GroundedComponentReference(PlanarBodyId(2))))
    );
    let _ = GaugeRuleViolation::DuplicateReferences;
}

#[test]
fn source_bodies_are_sorted_and_distinct() {
    let s = four_bar();
    let bodies = persistent_source_bodies(
        &s,
        PlanarSourceTopology::OrientationBranch { line_start: point(12), line_end: point(8), observed: point(13), sign: BranchSign::Negative },
    );
    assert_eq!(bodies, vec![PlanarBodyId(3), PlanarBodyId(5)]);
}
