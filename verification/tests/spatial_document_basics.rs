use geosolve_linkage::ids::{SpatialDocumentId, SpatialPersistentId};
use geosolve_linkage::spatial_document::{SpatialDocumentError, SpatialDocumentField, SPATIAL_ASSEMBLY_DOCUMENT_VERSION};
use geosolve_linkage::spatial_document_structure::{
    validate_document_basics, SpatialDocumentRecord, SpatialDocumentSource, SpatialDocumentStructure,
};

fn pid(value: u128) -> SpatialPersistentId {
    SpatialPersistentId::from_u128(value)
}

fn record(id: u128, label: &str) -> SpatialDocumentRecord {
    SpatialDocumentRecord { id: pid(id), label: label.to_string() }
}

/// Two bodies, a frame on each, a ground, a revolute joint and its driver.
fn document() -> SpatialDocumentStructure {
    SpatialDocumentStructure {
        version: SPATIAL_ASSEMBLY_DOCUMENT_VERSION,
        id: SpatialDocumentId::from_u128(100),
        next_id: pid(110),
        model_scale_valid: true,
        bodies: vec![record(101, "base"), record(102, "arm")],
        point_features: vec![],
        frame_features: vec![record(103, "base frame"), record(104, "arm frame")],
        axis_features: vec![],
        plane_features: vec![],
        sources: vec![
            SpatialDocumentSource { id: pid(105), label: "ground".to_string(), driver: false },
            SpatialDocumentSource { id: pid(106), label: "hinge".to_string(), driver: false },
            SpatialDocumentSource { id: pid(108), label: "drive".to_string(), driver: true },
        ],
        coordinates: vec![record(107, "hinge angle")],
        monitors: vec![],
        source_order: vec![pid(108), pid(105), pid(106)],
        accepted_bodies: vec![pid(102), pid(101)],
        accepted_drivers: vec![pid(108)],
    }
}

#[test]
fn a_complete_document_passes() {
    assert_eq!(validate_document_basics(&document()), Ok(()));
}

#[test]
fn version_then_identity_then_scale() {
    let mut d = document();
    d.version = 7;
    d.id = SpatialDocumentId::from_u128(0);
    assert_eq!(validate_document_basics(&d), Err(SpatialDocumentError::UnsupportedVersion(7)));
    d.version = SPATIAL_ASSEMBLY_DOCUMENT_VERSION;
    d.model_scale_valid = false;
    assert_eq!(validate_document_basics(&d), Err(SpatialDocumentError::InvalidId(0)));
    d.id = SpatialDocumentId::from_u128(100);
    assert_eq!(
        validate_document_basics(&d),
        Err(SpatialDocumentError::InvalidField(SpatialDocumentField::ModelScale))
    );
}

#[test]
fn object_limit_is_enforced() {
    let mut d = document();
    d.monitors = (0..100_000u128).map(|k| record(1_000 + k, "m")).collect();
    assert_eq!(
        validate_document_basics(&d),
        Err(SpatialDocumentError::InvalidField(SpatialDocumentField::Topology))
    );
}

#[test]
fn identities_are_nonzero_and_unique() {
    let mut d = document();
    d.coordinates[0].id = pid(103);
    assert_eq!(validate_document_basics(&d), Err(SpatialDocumentError::DuplicateId(103)));
    d.coordinates[0].id = pid(100);
    assert_eq!(validate_document_basics(&d), Err(SpatialDocumentError::DuplicateId(100)));
    d.frame_features[1].id = pid(0);
    assert_eq!(validate_document_basics(&d), Err(SpatialDocumentError::InvalidId(0)));
}

#[test]
fn next_identity_exceeds_all() {
    let mut d = document();
    d.next_id = pid(108);
    assert_eq!(
        validate_document_basics(&d),
        Err(SpatialDocumentError::InvalidField(SpatialDocumentField::NextId))
    );
    d.next_id = pid(109);
    assert_eq!(validate_document_basics(&d), Ok(()));
}

#[test]
fn labels_are_nonempty_and_bounded() {
    let mut d = document();
    d.sources[1].label = String::new();
    assert_eq!(
        validate_document_basics(&d),
        Err(SpatialDocumentError::InvalidField(SpatialDocumentField::Label))
    );
    d.sources[1].label = "é".repeat(512);
    assert_eq!(validate_document_basics(&d), Ok(()));
    d.sources[1].label.push('x');
    assert_eq!(
        validate_document_basics(&d),
        Err(SpatialDocumentError::InvalidField(SpatialDocumentField::Label))
    );
}

#[test]
fn source_order_lists_every_source_once() {
    let mut d = document();
    d.source_order = vec![pid(105), pid(106)];
    assert_eq!(validate_document_basics(&d), Err(SpatialDocumentError::InvalidSourceOrder));
    d.source_order = vec![pid(105), pid(106), pid(106)];
    assert_eq!(validate_document_basics(&d), Err(SpatialDocumentError::InvalidSourceOrder));
    d.source_order = vec![pid(105), pid(106), pid(107)];
    assert_eq!(validate_document_basics(&d), Err(SpatialDocumentError::InvalidSourceOrder));
}

#[test]
fn accepted_state_covers_bodies_and_drivers() {
    let mut d = document();
    d.accepted_bodies = vec![pid(101)];
    assert_eq!(
        validate_document_basics(&d),
        Err(SpatialDocumentError::InvalidField(SpatialDocumentField::AcceptedBodies))
    );
    d.accepted_bodies = vec![pid(101), pid(102)];
    d.accepted_drivers = vec![pid(108), pid(108)];
    assert_eq!(
        validate_document_basics(&d),
        Err(SpatialDocumentError::InvalidField(SpatialDocumentField::AcceptedDrivers))
    );
    d.accepted_drivers = vec![];
    d.sources[2].driver = false;
    assert_eq!(validate_document_basics(&d), Ok(()));
}
