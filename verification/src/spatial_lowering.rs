//! Lowering persistent spatial records into an assembly: every persistent
//! reference is resolved through the runtime map in the order the record lists
//! it, then the matching builder checks and appends the runtime object.

use vstd::prelude::*;
use crate::idmap::{persistent_of, runtime_of};
use crate::ids::SpatialPersistentId;
use crate::runtime_ids::{
    SpatialAxisFeatureId, SpatialBodyId, SpatialCoordinateId, SpatialFrameFeatureId, SpatialModeMonitorId,
    SpatialPlaneFeatureId, SpatialPointFeatureId, SpatialSourceId,
};
use crate::spatial::{
    SpatialAxisParity, SpatialModeSign, SpatialAssemblyError, SpatialBoundaryHysteresisState, SpatialBranchBoundary, SpatialCoordinate,
    SpatialCoordinateKind, SpatialModeMonitor, SpatialModeMonitorKind, SpatialPlanarTranslationAxis,
};
use crate::spatial_builder::{coordinate_added, exhausted, ground_numbers, monitor_added, monitor_kind_error, shape_error, source_added};
use crate::spatial_structure::SpatialSourceNumbers;
use crate::spatial_document::{
    boundary_capture, boundary_lowering, captured_coordinate, captured_feature, coordinate_capture,
    feature_resolution, lemma_boundary_capture_round_trip, lemma_one_to_one_inverse, lower_boundary,
    monitor_capture, pairs_one_to_one, parity_of_record, parity_record, parity_record_of, persistent_body,
    persistent_coordinate, persistent_feature, require_runtime_body, runtime_axis, runtime_coordinate,
    runtime_frame, runtime_parity, runtime_plane, runtime_point, runtime_sign, runtime_source, sign_of_record,
    AxisRecord, BoundaryRecord, CoordinateDefinition, MonitorDefinition, ParityRecord, SignRecord, SpatialAssemblyRuntimeMap,
    SpatialDocumentError, SpatialDocumentField, SpatialFeatureKind, SpatialReferenceKind, SpatialRuntimeFeature,
    SpatialRuntimeReference,
};
use crate::spatial_structure::{
    coordinate_parent_error, first_of, label_error, SpatialSourceRecord, SpatialSourceShape, SpatialStructure,
    SpatialValueRejection,
};

verus! {

// ---------------------------------------------------------------------------
// Resolution of persistent references.

/// The runtime body of a persistent body reference, or its rejection.
pub open spec fn body_resolution(map: SpatialAssemblyRuntimeMap, id: SpatialPersistentId) -> Result<SpatialBodyId, SpatialDocumentError> {
    match runtime_of(map.bodies@, id) {
        Some(body) => Ok(body),
        None => Err(SpatialDocumentError::UnknownReference { kind: SpatialReferenceKind::Body, id }),
    }
}

/// The runtime point feature of a persistent reference, or its rejection.
pub open spec fn point_resolution(map: SpatialAssemblyRuntimeMap, id: SpatialPersistentId) -> Result<SpatialPointFeatureId, SpatialDocumentError> {
    match feature_resolution(map, id, SpatialFeatureKind::Point) {
        Ok(SpatialRuntimeFeature::Point(runtime)) => Ok(runtime),
        Ok(_) => Err(SpatialDocumentError::WrongReferenceKind { id, expected: SpatialFeatureKind::Point }),
        Err(e) => Err(e),
    }
}

/// The runtime frame feature of a persistent reference, or its rejection.
pub open spec fn frame_resolution(map: SpatialAssemblyRuntimeMap, id: SpatialPersistentId) -> Result<SpatialFrameFeatureId, SpatialDocumentError> {
    match feature_resolution(map, id, SpatialFeatureKind::Frame) {
        Ok(SpatialRuntimeFeature::Frame(runtime)) => Ok(runtime),
        Ok(_) => Err(SpatialDocumentError::WrongReferenceKind { id, expected: SpatialFeatureKind::Frame }),
        Err(e) => Err(e),
    }
}

/// The runtime axis feature of a persistent reference, or its rejection.
pub open spec fn axis_resolution(map: SpatialAssemblyRuntimeMap, id: SpatialPersistentId) -> Result<SpatialAxisFeatureId, SpatialDocumentError> {
    match feature_resolution(map, id, SpatialFeatureKind::Axis) {
        Ok(SpatialRuntimeFeature::Axis(runtime)) => Ok(runtime),
        Ok(_) => Err(SpatialDocumentError::WrongReferenceKind { id, expected: SpatialFeatureKind::Axis }),
        Err(e) => Err(e),
    }
}

/// The runtime plane feature of a persistent reference, or its rejection.
pub open spec fn plane_resolution(map: SpatialAssemblyRuntimeMap, id: SpatialPersistentId) -> Result<SpatialPlaneFeatureId, SpatialDocumentError> {
    match feature_resolution(map, id, SpatialFeatureKind::Plane) {
        Ok(SpatialRuntimeFeature::Plane(runtime)) => Ok(runtime),
        Ok(_) => Err(SpatialDocumentError::WrongReferenceKind { id, expected: SpatialFeatureKind::Plane }),
        Err(e) => Err(e),
    }
}

/// The runtime coordinate of a persistent reference, or its rejection.
pub open spec fn coordinate_resolution(map: SpatialAssemblyRuntimeMap, id: SpatialPersistentId) -> Result<SpatialCoordinateId, SpatialDocumentError> {
    match runtime_of(map.coordinates@, id) {
        Some(runtime) => Ok(runtime),
        None => Err(SpatialDocumentError::UnknownReference { kind: SpatialReferenceKind::Coordinate, id }),
    }
}

/// The runtime source of a persistent reference, or its rejection.
pub open spec fn source_resolution(map: SpatialAssemblyRuntimeMap, id: SpatialPersistentId) -> Result<SpatialSourceId, SpatialDocumentError> {
    match runtime_of(map.sources@, id) {
        Some(runtime) => Ok(runtime),
        None => Err(SpatialDocumentError::UnknownReference { kind: SpatialReferenceKind::Source, id }),
    }
}

/// What a lowering returned and left: the builder's first rejection and the
/// structure unchanged, or the new identity and the structure with the record
/// added.
pub open spec fn lowered<Id>(
    error: Option<SpatialAssemblyError>,
    result: Result<Id, SpatialDocumentError>,
    old: SpatialStructure,
    new: SpatialStructure,
    id: Id,
    added: bool,
) -> bool {
    match error {
        Some(e) => result == Err::<Id, _>(SpatialDocumentError::Spatial(e)) && new == old,
        None => result == Ok::<Id, SpatialDocumentError>(id) && added,
    }
}

// ---------------------------------------------------------------------------
// Mode monitors.

/// A persistent mode-monitor record.
#[derive(Clone, Debug, PartialEq, Eq)]
pub struct MonitorRecord {
    pub id: SpatialPersistentId,
    pub label: String,
    pub definition: MonitorDefinition,
}

/// The runtime kind a persistent monitor definition names, or the first of its
/// references, in the order the record lists them, that does not resolve.
pub open spec fn monitor_lowering(map: SpatialAssemblyRuntimeMap, definition: MonitorDefinition) -> Result<SpatialModeMonitorKind, SpatialDocumentError> {
    match definition {
        MonitorDefinition::AxisParity { first, second, parity } => match axis_resolution(map, first) {
            Err(e) => Err(e),
            Ok(a) => match axis_resolution(map, second) {
                Err(e) => Err(e),
                Ok(b) => Ok(SpatialModeMonitorKind::AxisParity { first: a, second: b, parity: parity_of_record(parity) }),
            },
        },
        MonitorDefinition::HingeWinding { coordinate, winding } => match coordinate_resolution(map, coordinate) {
            Err(e) => Err(e),
            Ok(c) => Ok(SpatialModeMonitorKind::HingeWinding { coordinate: c, winding }),
        },
        MonitorDefinition::PlaneSide { plane, point, side } => match plane_resolution(map, plane) {
            Err(e) => Err(e),
            Ok(pl) => match point_resolution(map, point) {
                Err(e) => Err(e),
                Ok(q) => Ok(SpatialModeMonitorKind::PlaneSide { plane: pl, point: q, side: sign_of_record(side) }),
            },
        },
        MonitorDefinition::SignedVolume { points, orientation } => match point_resolution(map, points[0]) {
            Err(e) => Err(e),
            Ok(a) => match point_resolution(map, points[1]) {
                Err(e) => Err(e),
                Ok(b) => match point_resolution(map, points[2]) {
                    Err(e) => Err(e),
                    Ok(c) => match point_resolution(map, points[3]) {
                        Err(e) => Err(e),
                        Ok(d) => Ok(SpatialModeMonitorKind::SignedVolume { points: [a, b, c, d], orientation: sign_of_record(orientation) }),
                    },
                },
            },
        },
    }
}

/// The label field the builder of a monitor kind reports.
pub open spec fn monitor_field(kind: SpatialModeMonitorKind) -> &'static str {
    match kind {
        SpatialModeMonitorKind::AxisParity { .. } => "axis parity monitor",
        SpatialModeMonitorKind::HingeWinding { .. } => "hinge winding monitor",
        SpatialModeMonitorKind::PlaneSide { .. } => "plane side monitor",
        SpatialModeMonitorKind::SignedVolume { .. } => "signed volume monitor",
    }
}

/// Lowers one persistent mode monitor into the assembly.
pub fn lower_monitor(s: &mut SpatialStructure, map: &SpatialAssemblyRuntimeMap, monitor: &MonitorRecord) -> (result: Result<SpatialModeMonitorId, SpatialDocumentError>)
    ensures
        match monitor_lowering(*map, monitor.definition) {
            Err(e) => result == Err::<SpatialModeMonitorId, _>(e) && *final(s) == *old(s),
            Ok(kind) => lowered(
                first_of(first_of(label_error(monitor.label@, monitor_field(kind)), monitor_kind_error(*old(s), kind)), exhausted(*old(s))),
                result, *old(s), *final(s),
                SpatialModeMonitorId { namespace: old(s).namespace, ordinal: old(s).next_id },
                monitor_added(*old(s), *final(s), SpatialModeMonitor {
                    id: SpatialModeMonitorId { namespace: old(s).namespace, ordinal: old(s).next_id },
                    label: monitor.label,
                    kind,
                }),
            ),
        },
{
    let label = monitor.label.clone();
    let built = match monitor.definition {
        MonitorDefinition::AxisParity { first, second, parity } => {
            let first = runtime_axis(map, first)?;
            let second = runtime_axis(map, second)?;
            s.add_axis_parity_monitor(label, first, second, runtime_parity(parity))
        },
        MonitorDefinition::HingeWinding { coordinate, winding } => {
            let coordinate = runtime_coordinate(map, coordinate)?;
            s.add_hinge_winding_monitor(label, coordinate, winding)
        },
        MonitorDefinition::PlaneSide { plane, point, side } => {
            let plane = runtime_plane(map, plane)?;
            let point = runtime_point(map, point)?;
            s.add_plane_side_monitor(label, plane, point, runtime_sign(side))
        },
        MonitorDefinition::SignedVolume { points, orientation } => {
            let a = runtime_point(map, points[0])?;
            let b = runtime_point(map, points[1])?;
            let c = runtime_point(map, points[2])?;
            let d = runtime_point(map, points[3])?;
            let resolved = [a, b, c, d];
            proof {
                assert(resolved == [a, b, c, d]);
            }
            s.add_signed_volume_monitor(label, resolved, runtime_sign(orientation))
        },
    };
    match built {
        Ok(id) => Ok(id),
        Err(e) => Err(SpatialDocumentError::Spatial(e)),
    }
}

// ---------------------------------------------------------------------------
// Coordinates.

/// A persistent coordinate record.
#[derive(Clone, Debug, PartialEq, Eq)]
pub struct CoordinateRecord {
    pub id: SpatialPersistentId,
    pub label: String,
    pub definition: CoordinateDefinition,
}

/// The first record of `records` with identity `id`.
pub open spec fn coordinate_record(records: Seq<CoordinateRecord>, id: SpatialPersistentId) -> Option<CoordinateRecord>
    decreases records.len(),
{
    if records.len() == 0 {
        None
    } else if records[0].id == id {
        Some(records[0])
    } else {
        coordinate_record(records.drop_first(), id)
    }
}

/// The planar translation axis of a record.
pub open spec fn planar_axis_of_record(axis: AxisRecord) -> SpatialPlanarTranslationAxis {
    match axis {
        AxisRecord::X => SpatialPlanarTranslationAxis::X,
        AxisRecord::Y => SpatialPlanarTranslationAxis::Y,
    }
}

/// The runtime kind a persistent coordinate definition names, or the rejection
/// of its parent reference.
pub open spec fn coordinate_lowering(map: SpatialAssemblyRuntimeMap, definition: CoordinateDefinition) -> Result<SpatialCoordinateKind, SpatialDocumentError> {
    match definition {
        CoordinateDefinition::Hinge { parent, winding } => match source_resolution(map, parent) {
            Err(e) => Err(e),
            Ok(p) => Ok(SpatialCoordinateKind::Hinge { parent: p, winding }),
        },
        CoordinateDefinition::AxialTranslation { parent } => match source_resolution(map, parent) {
            Err(e) => Err(e),
            Ok(p) => Ok(SpatialCoordinateKind::AxialTranslation { parent: p }),
        },
        CoordinateDefinition::PlanarTranslation { parent, axis } => match source_resolution(map, parent) {
            Err(e) => Err(e),
            Ok(p) => Ok(SpatialCoordinateKind::PlanarTranslation { parent: p, axis: planar_axis_of_record(axis) }),
        },
    }
}

/// The label field the builder of a coordinate kind reports.
pub open spec fn coordinate_field(kind: SpatialCoordinateKind) -> &'static str {
    match kind {
        SpatialCoordinateKind::Hinge { .. } => "hinge coordinate",
        SpatialCoordinateKind::AxialTranslation { .. } => "axial translation coordinate",
        SpatialCoordinateKind::PlanarTranslation { .. } => "planar translation coordinate",
    }
}

/// `new` is `old` with `pair` appended to its coordinates.
pub open spec fn coordinate_mapped(old: SpatialAssemblyRuntimeMap, new: SpatialAssemblyRuntimeMap, pair: (SpatialPersistentId, SpatialCoordinateId)) -> bool {
    &&& new.coordinates@ == old.coordinates@.push(pair)
    &&& new.document == old.document
    &&& new.bodies == old.bodies
    &&& new.features == old.features
    &&& new.sources == old.sources
    &&& new.monitors == old.monitors
}

fn find_coordinate_record(records: &Vec<CoordinateRecord>, id: SpatialPersistentId) -> (found: Option<usize>)
    ensures
        match coordinate_record(records@, id) {
            None => found is None,
            Some(record) => found matches Some(i) && i < records@.len() && records@[i as int] == record,
        },
{
    proof {
        assert(records@.skip(0) =~= records@);
    }
    let mut i: usize = 0;
    while i < records.len()
        invariant
            i <= records@.len(),
            coordinate_record(records@, id) == coordinate_record(records@.skip(i as int), id),
        decreases records@.len() - i,
    {
        proof {
            assert(records@.skip(i as int).drop_first() =~= records@.skip(i as int + 1));
        }
        if records[i].id == id {
            return Some(i);
        }
        i = i + 1;
    }
    None
}

/// The runtime coordinate of persistent coordinate `id`, lowering its record
/// into the assembly (and the map) where it has not been lowered yet.
pub fn ensure_coordinate(s: &mut SpatialStructure, map: &mut SpatialAssemblyRuntimeMap, records: &Vec<CoordinateRecord>, id: SpatialPersistentId) -> (result: Result<SpatialCoordinateId, SpatialDocumentError>)
    ensures
        match runtime_of(old(map).coordinates@, id) {
            Some(runtime) => result == Ok::<SpatialCoordinateId, SpatialDocumentError>(runtime) && *final(s) == *old(s) && *final(map) == *old(map),
            None => match coordinate_record(records@, id) {
                None => result == Err::<SpatialCoordinateId, _>(SpatialDocumentError::UnknownReference { kind: SpatialReferenceKind::Coordinate, id })
                    && *final(s) == *old(s) && *final(map) == *old(map),
                Some(record) => match coordinate_lowering(*old(map), record.definition) {
                    Err(e) => result == Err::<SpatialCoordinateId, _>(e) && *final(s) == *old(s) && *final(map) == *old(map),
                    Ok(kind) => {
                        let runtime = SpatialCoordinateId { namespace: old(s).namespace, ordinal: old(s).next_id };
                        &&& lowered(
                            first_of(first_of(label_error(record.label@, coordinate_field(kind)), coordinate_parent_error(*old(s), kind)), exhausted(*old(s))),
                            result, *old(s), *final(s), runtime,
                            coordinate_added(*old(s), *final(s), SpatialCoordinate { id: runtime, label: record.label, kind }),
                        )
                        &&& result is Ok ==> coordinate_mapped(*old(map), *final(map), (id, runtime))
                        &&& result is Err ==> *final(map) == *old(map)
                    },
                },
            },
        },
{
    if let Some(runtime) = map.runtime_coordinate(id) {
        return Ok(runtime);
    }
    let index = match find_coordinate_record(records, id) {
        Some(index) => index,
        None => {
            return Err(SpatialDocumentError::UnknownReference { kind: SpatialReferenceKind::Coordinate, id });
        },
    };
    let record = &records[index];
    let label = record.label.clone();
    let built = match record.definition {
        CoordinateDefinition::Hinge { parent, winding } => {
            let parent = runtime_source(map, parent)?;
            s.add_hinge_coordinate(label, parent, winding)
        },
        CoordinateDefinition::AxialTranslation { parent } => {
            let parent = runtime_source(map, parent)?;
            s.add_axial_translation_coordinate(label, parent)
        },
        CoordinateDefinition::PlanarTranslation { parent, axis } => {
            let parent = runtime_source(map, parent)?;
            let axis = match axis {
                AxisRecord::X => SpatialPlanarTranslationAxis::X,
                AxisRecord::Y => SpatialPlanarTranslationAxis::Y,
            };
            s.add_planar_translation_coordinate(label, parent, axis)
        },
    };
    match built {
        Ok(runtime) => {
            map.coordinates.push((id, runtime));
            Ok(runtime)
        },
        Err(e) => Err(SpatialDocumentError::Spatial(e)),
    }
}

// ---------------------------------------------------------------------------
// Sources.

/// A persistent source definition. Its floating-point values (a ground
/// target, a distance, an angle, a frame offset) are judged outside the
/// library and travel beside it as verdicts.
#[derive(Clone, Copy, Debug, PartialEq, Eq, Structural)]
pub enum SourceDefinition {
    PhysicalGround { body: SpatialPersistentId },
    BallJoint { first: SpatialPersistentId, second: SpatialPersistentId },
    FixedFrame { first: SpatialPersistentId, second: SpatialPersistentId },
    RevoluteJoint { first: SpatialPersistentId, second: SpatialPersistentId, parity: ParityRecord },
    PrismaticJoint { first: SpatialPersistentId, second: SpatialPersistentId, parity: ParityRecord },
    CylindricalJoint { first: SpatialPersistentId, second: SpatialPersistentId, parity: ParityRecord },
    PlanarJoint { first: SpatialPersistentId, second: SpatialPersistentId, parity: ParityRecord },
    UniversalJoint { first: SpatialPersistentId, second: SpatialPersistentId },
    PointDistanceMate { first: SpatialPersistentId, second: SpatialPersistentId },
    AxisAngleMate { first: SpatialPersistentId, second: SpatialPersistentId },
    AxisAlignmentMate { first: SpatialPersistentId, second: SpatialPersistentId, parity: ParityRecord },
    FrameOffsetMate { first: SpatialPersistentId, second: SpatialPersistentId },
    HingePositionDriver { coordinate: SpatialPersistentId },
    TranslationPositionDriver { coordinate: SpatialPersistentId },
}

/// A persistent source record, with its numbers as the bits of their doubles
/// (the target pose of a physical ground, the distance or angle of a mate,
/// the offset frame of a frame-offset mate).
#[derive(Clone, Debug, PartialEq, Eq)]
pub struct SourceRecord {
    pub id: SpatialPersistentId,
    pub label: String,
    pub definition: SourceDefinition,
    pub numbers: SpatialSourceNumbers,
}

/// An accepted driver target: a hinge phase (as bits) with its winding, or a
/// translation target (as bits).
#[derive(Clone, Copy, Debug, PartialEq, Eq, Structural)]
pub enum DriverTargetRecord {
    Hinge { phase_bits: u64, winding: i64 },
    Translation { target_bits: u64 },
}

/// The floating-point comparison of a ground target with the accepted pose of
/// its body: they agree, or the named field is rejected.
#[derive(Clone, Copy, Debug, PartialEq, Eq, Structural)]
pub enum GroundVerdict {
    Matches,
    Rejected(SpatialDocumentField),
}

/// Verdicts on the floating-point values of one source.
#[derive(Clone, Copy, Debug, PartialEq, Eq)]
pub struct SourceVerdicts {
    /// For a ground source: `None` where its body has no accepted pose.
    pub ground: Option<GroundVerdict>,
    /// The rejection of a frame offset mate's offset record.
    pub offset_record: Option<SpatialDocumentField>,
    /// The verdict the assembly gives the source's values.
    pub values: Option<SpatialValueRejection>,
}

/// Two point references resolved in order.
pub open spec fn point_pair_resolution(map: SpatialAssemblyRuntimeMap, first: SpatialPersistentId, second: SpatialPersistentId) -> Result<(SpatialPointFeatureId, SpatialPointFeatureId), SpatialDocumentError> {
    match point_resolution(map, first) {
        Err(e) => Err(e),
        Ok(a) => match point_resolution(map, second) {
            Err(e) => Err(e),
            Ok(b) => Ok((a, b)),
        },
    }
}

/// Two frame references resolved in order.
pub open spec fn frame_pair_resolution(map: SpatialAssemblyRuntimeMap, first: SpatialPersistentId, second: SpatialPersistentId) -> Result<(SpatialFrameFeatureId, SpatialFrameFeatureId), SpatialDocumentError> {
    match frame_resolution(map, first) {
        Err(e) => Err(e),
        Ok(a) => match frame_resolution(map, second) {
            Err(e) => Err(e),
            Ok(b) => Ok((a, b)),
        },
    }
}

/// Two axis references resolved in order.
pub open spec fn axis_pair_resolution(map: SpatialAssemblyRuntimeMap, first: SpatialPersistentId, second: SpatialPersistentId) -> Result<(SpatialAxisFeatureId, SpatialAxisFeatureId), SpatialDocumentError> {
    match axis_resolution(map, first) {
        Err(e) => Err(e),
        Ok(a) => match axis_resolution(map, second) {
            Err(e) => Err(e),
            Ok(b) => Ok((a, b)),
        },
    }
}

/// Two plane references resolved in order.
pub open spec fn plane_pair_resolution(map: SpatialAssemblyRuntimeMap, first: SpatialPersistentId, second: SpatialPersistentId) -> Result<(SpatialPlaneFeatureId, SpatialPlaneFeatureId), SpatialDocumentError> {
    match plane_resolution(map, first) {
        Err(e) => Err(e),
        Ok(a) => match plane_resolution(map, second) {
            Err(e) => Err(e),
            Ok(b) => Ok((a, b)),
        },
    }
}

/// The runtime shape a persistent source names, or its first rejection: for a
/// ground, the accepted pose of its body and its target, then the body; for a
/// driver, its accepted target, then the coordinate; otherwise its references
/// in order, then a frame offset's record.
pub open spec fn source_lowering(
    map: SpatialAssemblyRuntimeMap,
    id: SpatialPersistentId,
    definition: SourceDefinition,
    driver: Option<DriverTargetRecord>,
    verdicts: SourceVerdicts,
) -> Result<SpatialSourceShape, SpatialDocumentError> {
    match definition {
        SourceDefinition::PhysicalGround { body } => match verdicts.ground {
            None => Err(SpatialDocumentError::UnknownReference { kind: SpatialReferenceKind::BodyState, id: body }),
            Some(GroundVerdict::Rejected(field)) => Err(SpatialDocumentError::InvalidField(field)),
            Some(GroundVerdict::Matches) => match body_resolution(map, body) {
                Err(e) => Err(e),
                Ok(b) => Ok(SpatialSourceShape::PhysicalGround { body: b }),
            },
        },
        SourceDefinition::BallJoint { first, second } => match point_pair_resolution(map, first, second) {
            Err(e) => Err(e),
            Ok((a, b)) => Ok(SpatialSourceShape::BallJoint { first: a, second: b }),
        },
        SourceDefinition::FixedFrame { first, second } => match frame_pair_resolution(map, first, second) {
            Err(e) => Err(e),
            Ok((a, b)) => Ok(SpatialSourceShape::FixedFrame { first: a, second: b }),
        },
        SourceDefinition::RevoluteJoint { first, second, parity } => match frame_pair_resolution(map, first, second) {
            Err(e) => Err(e),
            Ok((a, b)) => Ok(SpatialSourceShape::RevoluteJoint { first: a, second: b, parity: parity_of_record(parity) }),
        },
        SourceDefinition::PrismaticJoint { first, second, parity } => match axis_pair_resolution(map, first, second) {
            Err(e) => Err(e),
            Ok((a, b)) => Ok(SpatialSourceShape::PrismaticJoint { first: a, second: b, parity: parity_of_record(parity) }),
        },
        SourceDefinition::CylindricalJoint { first, second, parity } => match axis_pair_resolution(map, first, second) {
            Err(e) => Err(e),
            Ok((a, b)) => Ok(SpatialSourceShape::CylindricalJoint { first: a, second: b, parity: parity_of_record(parity) }),
        },
        SourceDefinition::PlanarJoint { first, second, parity } => match plane_pair_resolution(map, first, second) {
            Err(e) => Err(e),
            Ok((a, b)) => Ok(SpatialSourceShape::PlanarJoint { first: a, second: b, parity: parity_of_record(parity) }),
        },
        SourceDefinition::UniversalJoint { first, second } => match axis_pair_resolution(map, first, second) {
            Err(e) => Err(e),
            Ok((a, b)) => Ok(SpatialSourceShape::UniversalJoint { first: a, second: b }),
        },
        SourceDefinition::PointDistanceMate { first, second } => match point_pair_resolution(map, first, second) {
            Err(e) => Err(e),
            Ok((a, b)) => Ok(SpatialSourceShape::PointDistanceMate { first: a, second: b }),
        },
        SourceDefinition::AxisAngleMate { first, second } => match axis_pair_resolution(map, first, second) {
            Err(e) => Err(e),
            Ok((a, b)) => Ok(SpatialSourceShape::AxisAngleMate { first: a, second: b }),
        },
        SourceDefinition::AxisAlignmentMate { first, second, parity } => match axis_pair_resolution(map, first, second) {
            Err(e) => Err(e),
            Ok((a, b)) => Ok(SpatialSourceShape::AxisAlignmentMate { first: a, second: b, parity: parity_of_record(parity) }),
        },
        SourceDefinition::FrameOffsetMate { first, second } => match frame_pair_resolution(map, first, second) {
            Err(e) => Err(e),
            Ok((a, b)) => match verdicts.offset_record {
                Some(field) => Err(SpatialDocumentError::InvalidField(field)),
                None => Ok(SpatialSourceShape::FrameOffsetMate { first: a, second: b }),
            },
        },
        SourceDefinition::HingePositionDriver { coordinate } => match driver {
            None => Err(SpatialDocumentError::UnknownReference { kind: SpatialReferenceKind::DriverState, id }),
            Some(DriverTargetRecord::Hinge { phase_bits, winding }) => match coordinate_resolution(map, coordinate) {
                Err(e) => Err(e),
                Ok(c) => Ok(SpatialSourceShape::HingePositionDriver { coordinate: c, winding, phase_bits }),
            },
            Some(DriverTargetRecord::Translation { .. }) => Err(SpatialDocumentError::InvalidField(SpatialDocumentField::DriverTarget)),
        },
        SourceDefinition::TranslationPositionDriver { coordinate } => match driver {
            None => Err(SpatialDocumentError::UnknownReference { kind: SpatialReferenceKind::DriverState, id }),
            Some(DriverTargetRecord::Translation { target_bits }) => match coordinate_resolution(map, coordinate) {
                Err(e) => Err(e),
                Ok(c) => Ok(SpatialSourceShape::TranslationPositionDriver { coordinate: c, target_bits }),
            },
            Some(DriverTargetRecord::Hinge { .. }) => Err(SpatialDocumentError::InvalidField(SpatialDocumentField::DriverTarget)),
        },
    }
}

/// The label field the builder of a source shape reports.
pub open spec fn source_field(shape: SpatialSourceShape) -> &'static str {
    match shape {
        SpatialSourceShape::PhysicalGround { .. } => "physical ground",
        SpatialSourceShape::BallJoint { .. } => "ball joint",
        SpatialSourceShape::FixedFrame { .. } => "fixed frame",
        SpatialSourceShape::RevoluteJoint { .. } => "revolute joint",
        SpatialSourceShape::PrismaticJoint { .. } => "prismatic joint",
        SpatialSourceShape::CylindricalJoint { .. } => "cylindrical joint",
        SpatialSourceShape::PlanarJoint { .. } => "planar joint",
        SpatialSourceShape::UniversalJoint { .. } => "universal joint",
        SpatialSourceShape::PointDistanceMate { .. } => "point distance mate",
        SpatialSourceShape::AxisAngleMate { .. } => "axis angle mate",
        SpatialSourceShape::AxisAlignmentMate { .. } => "axis alignment mate",
        SpatialSourceShape::FrameOffsetMate { .. } => "frame offset mate",
        SpatialSourceShape::HingePositionDriver { .. } => "hinge position driver",
        SpatialSourceShape::TranslationPositionDriver { .. } => "translation position driver",
    }
}

/// The value verdict the builder of a source shape receives: the given one for
/// a shape with values, none otherwise.
pub open spec fn source_values(shape: SpatialSourceShape, values: Option<SpatialValueRejection>) -> Option<SpatialValueRejection> {
    match shape {
        SpatialSourceShape::PointDistanceMate { .. } => values,
        SpatialSourceShape::AxisAngleMate { .. } => values,
        SpatialSourceShape::FrameOffsetMate { .. } => values,
        SpatialSourceShape::HingePositionDriver { .. } => values,
        SpatialSourceShape::TranslationPositionDriver { .. } => values,
        _ => None,
    }
}

/// The numbers a lowered source keeps: a physical ground the pose guess of its
/// body, a mate the numbers of its record, other sources none.
pub open spec fn lowered_numbers(s: SpatialStructure, shape: SpatialSourceShape, numbers: SpatialSourceNumbers) -> SpatialSourceNumbers {
    match shape {
        SpatialSourceShape::PhysicalGround { body } => ground_numbers(s, body),
        SpatialSourceShape::PointDistanceMate { .. } => numbers,
        SpatialSourceShape::AxisAngleMate { .. } => numbers,
        SpatialSourceShape::FrameOffsetMate { .. } => numbers,
        _ => SpatialSourceNumbers::Empty,
    }
}

/// Lowers one persistent source into the assembly, with the accepted target of
/// its driver (if any) and the verdicts on its floating-point values; a mate
/// keeps the numbers of its record, a physical ground its body's pose guess.
pub fn lower_source(
    s: &mut SpatialStructure,
    map: &SpatialAssemblyRuntimeMap,
    source: &SourceRecord,
    driver: Option<DriverTargetRecord>,
    verdicts: SourceVerdicts,
) -> (result: Result<SpatialSourceId, SpatialDocumentError>)
    ensures
        match source_lowering(*map, source.id, source.definition, driver, verdicts) {
            Err(e) => result == Err::<SpatialSourceId, _>(e) && *final(s) == *old(s),
            Ok(shape) => lowered(
                first_of(first_of(label_error(source.label@, source_field(shape)), shape_error(*old(s), shape, source_values(shape, verdicts.values))), exhausted(*old(s))),
                result, *old(s), *final(s),
                SpatialSourceId { namespace: old(s).namespace, ordinal: old(s).next_id },
                source_added(*old(s), *final(s), SpatialSourceRecord {
                    id: SpatialSourceId { namespace: old(s).namespace, ordinal: old(s).next_id },
                    label: source.label,
                    shape,
                    numbers: lowered_numbers(*old(s), shape, source.numbers),
                    values: None,
                }),
            ),
        },
{
    let label = source.label.clone();
    let built = match source.definition {
        SourceDefinition::PhysicalGround { body } => {
            match verdicts.ground {
                None => {
                    return Err(SpatialDocumentError::UnknownReference { kind: SpatialReferenceKind::BodyState, id: body });
                },
                Some(GroundVerdict::Rejected(field)) => {
                    return Err(SpatialDocumentError::InvalidField(field));
                },
                Some(GroundVerdict::Matches) => {},
            }
            let body = require_runtime_body(map, body)?;
            s.add_physical_ground(label, body)
        },
        SourceDefinition::BallJoint { first, second } => {
            let first = runtime_point(map, first)?;
            let second = runtime_point(map, second)?;
            s.add_ball_joint(label, first, second)
        },
        SourceDefinition::FixedFrame { first, second } => {
            let first = runtime_frame(map, first)?;
            let second = runtime_frame(map, second)?;
            s.add_fixed_frame(label, first, second)
        },
        SourceDefinition::RevoluteJoint { first, second, parity } => {
            let first = runtime_frame(map, first)?;
            let second = runtime_frame(map, second)?;
            s.add_revolute_joint(label, first, second, runtime_parity(parity))
        },
        SourceDefinition::PrismaticJoint { first, second, parity } => {
            let first = runtime_axis(map, first)?;
            let second = runtime_axis(map, second)?;
            s.add_prismatic_joint(label, first, second, runtime_parity(parity))
        },
        SourceDefinition::CylindricalJoint { first, second, parity } => {
            let first = runtime_axis(map, first)?;
            let second = runtime_axis(map, second)?;
            s.add_cylindrical_joint(label, first, second, runtime_parity(parity))
        },
        SourceDefinition::PlanarJoint { first, second, parity } => {
            let first = runtime_plane(map, first)?;
            let second = runtime_plane(map, second)?;
            s.add_planar_joint(label, first, second, runtime_parity(parity))
        },
        SourceDefinition::UniversalJoint { first, second } => {
            let first = runtime_axis(map, first)?;
            let second = runtime_axis(map, second)?;
            s.add_universal_joint(label, first, second)
        },
        SourceDefinition::PointDistanceMate { first, second } => {
            let first = runtime_point(map, first)?;
            let second = runtime_point(map, second)?;
            s.add_source(label, "point distance mate", SpatialSourceShape::PointDistanceMate { first, second }, verdicts.values, source.numbers)
        },
        SourceDefinition::AxisAngleMate { first, second } => {
            let first = runtime_axis(map, first)?;
            let second = runtime_axis(map, second)?;
            s.add_source(label, "axis angle mate", SpatialSourceShape::AxisAngleMate { first, second }, verdicts.values, source.numbers)
        },
        SourceDefinition::AxisAlignmentMate { first, second, parity } => {
            let first = runtime_axis(map, first)?;
            let second = runtime_axis(map, second)?;
            s.add_axis_alignment_mate(label, first, second, runtime_parity(parity))
        },
        SourceDefinition::FrameOffsetMate { first, second } => {
            let first = runtime_frame(map, first)?;
            let second = runtime_frame(map, second)?;
            if let Some(field) = verdicts.offset_record {
                return Err(SpatialDocumentError::InvalidField(field));
            }
            s.add_source(label, "frame offset mate", SpatialSourceShape::FrameOffsetMate { first, second }, verdicts.values, source.numbers)
        },
        SourceDefinition::HingePositionDriver { coordinate } => {
            let (phase_bits, winding) = match driver {
                None => {
                    return Err(SpatialDocumentError::UnknownReference { kind: SpatialReferenceKind::DriverState, id: source.id });
                },
                Some(DriverTargetRecord::Hinge { phase_bits, winding }) => (phase_bits, winding),
                Some(DriverTargetRecord::Translation { .. }) => {
                    return Err(SpatialDocumentError::InvalidField(SpatialDocumentField::DriverTarget));
                },
            };
            let coordinate = runtime_coordinate(map, coordinate)?;
            s.add_hinge_position_driver(label, coordinate, winding, phase_bits, verdicts.values)
        },
        SourceDefinition::TranslationPositionDriver { coordinate } => {
            let target_bits = match driver {
                None => {
                    return Err(SpatialDocumentError::UnknownReference { kind: SpatialReferenceKind::DriverState, id: source.id });
                },
                Some(DriverTargetRecord::Translation { target_bits }) => target_bits,
                Some(DriverTargetRecord::Hinge { .. }) => {
                    return Err(SpatialDocumentError::InvalidField(SpatialDocumentField::DriverTarget));
                },
            };
            let coordinate = runtime_coordinate(map, coordinate)?;
            s.add_translation_position_driver(label, coordinate, target_bits, verdicts.values)
        },
    };
    match built {
        Ok(id) => Ok(id),
        Err(e) => Err(SpatialDocumentError::Spatial(e)),
    }
}

// ---------------------------------------------------------------------------
// Capture of sources, and the round trips.

/// Persistent identity of a runtime body, or its rejection.
pub open spec fn captured_body(map: SpatialAssemblyRuntimeMap, body: SpatialBodyId) -> Result<SpatialPersistentId, SpatialDocumentError> {
    match persistent_of(map.bodies@, body) {
        Some(p) => Ok(p),
        None => Err(SpatialDocumentError::UnknownRuntimeReference(SpatialRuntimeReference::Body(body))),
    }
}

/// Two runtime features captured in order.
pub open spec fn feature_pair_capture(map: SpatialAssemblyRuntimeMap, first: SpatialRuntimeFeature, second: SpatialRuntimeFeature) -> Result<(SpatialPersistentId, SpatialPersistentId), SpatialDocumentError> {
    match captured_feature(map, first) {
        Err(e) => Err(e),
        Ok(a) => match captured_feature(map, second) {
            Err(e) => Err(e),
            Ok(b) => Ok((a, b)),
        },
    }
}

/// The persistent definition of a runtime source shape; references are
/// captured in the order the shape lists them.
pub open spec fn source_capture(map: SpatialAssemblyRuntimeMap, shape: SpatialSourceShape) -> Result<SourceDefinition, SpatialDocumentError> {
    match shape {
        SpatialSourceShape::PhysicalGround { body } => match captured_body(map, body) {
            Err(e) => Err(e),
            Ok(b) => Ok(SourceDefinition::PhysicalGround { body: b }),
        },
        SpatialSourceShape::BallJoint { first, second } => match feature_pair_capture(map, SpatialRuntimeFeature::Point(first), SpatialRuntimeFeature::Point(second)) {
            Err(e) => Err(e),
            Ok((a, b)) => Ok(SourceDefinition::BallJoint { first: a, second: b }),
        },
        SpatialSourceShape::FixedFrame { first, second } => match feature_pair_capture(map, SpatialRuntimeFeature::Frame(first), SpatialRuntimeFeature::Frame(second)) {
            Err(e) => Err(e),
            Ok((a, b)) => Ok(SourceDefinition::FixedFrame { first: a, second: b }),
        },
        SpatialSourceShape::RevoluteJoint { first, second, parity } => match feature_pair_capture(map, SpatialRuntimeFeature::Frame(first), SpatialRuntimeFeature::Frame(second)) {
            Err(e) => Err(e),
            Ok((a, b)) => Ok(SourceDefinition::RevoluteJoint { first: a, second: b, parity: parity_record_of(parity) }),
        },
        SpatialSourceShape::PrismaticJoint { first, second, parity } => match feature_pair_capture(map, SpatialRuntimeFeature::Axis(first), SpatialRuntimeFeature::Axis(second)) {
            Err(e) => Err(e),
            Ok((a, b)) => Ok(SourceDefinition::PrismaticJoint { first: a, second: b, parity: parity_record_of(parity) }),
        },
        SpatialSourceShape::CylindricalJoint { first, second, parity } => match feature_pair_capture(map, SpatialRuntimeFeature::Axis(first), SpatialRuntimeFeature::Axis(second)) {
            Err(e) => Err(e),
            Ok((a, b)) => Ok(SourceDefinition::CylindricalJoint { first: a, second: b, parity: parity_record_of(parity) }),
        },
        SpatialSourceShape::PlanarJoint { first, second, parity } => match feature_pair_capture(map, SpatialRuntimeFeature::Plane(first), SpatialRuntimeFeature::Plane(second)) {
            Err(e) => Err(e),
            Ok((a, b)) => Ok(SourceDefinition::PlanarJoint { first: a, second: b, parity: parity_record_of(parity) }),
        },
        SpatialSourceShape::UniversalJoint { first, second } => match feature_pair_capture(map, SpatialRuntimeFeature::Axis(first), SpatialRuntimeFeature::Axis(second)) {
            Err(e) => Err(e),
            Ok((a, b)) => Ok(SourceDefinition::UniversalJoint { first: a, second: b }),
        },
        SpatialSourceShape::PointDistanceMate { first, second } => match feature_pair_capture(map, SpatialRuntimeFeature::Point(first), SpatialRuntimeFeature::Point(second)) {
            Err(e) => Err(e),
            Ok((a, b)) => Ok(SourceDefinition::PointDistanceMate { first: a, second: b }),
        },
        SpatialSourceShape::AxisAngleMate { first, second } => match feature_pair_capture(map, SpatialRuntimeFeature::Axis(first), SpatialRuntimeFeature::Axis(second)) {
            Err(e) => Err(e),
            Ok((a, b)) => Ok(SourceDefinition::AxisAngleMate { first: a, second: b }),
        },
        SpatialSourceShape::AxisAlignmentMate { first, second, parity } => match feature_pair_capture(map, SpatialRuntimeFeature::Axis(first), SpatialRuntimeFeature::Axis(second)) {
            Err(e) => Err(e),
            Ok((a, b)) => Ok(SourceDefinition::AxisAlignmentMate { first: a, second: b, parity: parity_record_of(parity) }),
        },
        SpatialSourceShape::FrameOffsetMate { first, second } => match feature_pair_capture(map, SpatialRuntimeFeature::Frame(first), SpatialRuntimeFeature::Frame(second)) {
            Err(e) => Err(e),
            Ok((a, b)) => Ok(SourceDefinition::FrameOffsetMate { first: a, second: b }),
        },
        SpatialSourceShape::HingePositionDriver { coordinate, .. } => match captured_coordinate(map, coordinate) {
            Err(e) => Err(e),
            Ok(c) => Ok(SourceDefinition::HingePositionDriver { coordinate: c }),
        },
        SpatialSourceShape::TranslationPositionDriver { coordinate, .. } => match captured_coordinate(map, coordinate) {
            Err(e) => Err(e),
            Ok(c) => Ok(SourceDefinition::TranslationPositionDriver { coordinate: c }),
        },
    }
}

fn capture_feature_pair(map: &SpatialAssemblyRuntimeMap, first: SpatialRuntimeFeature, second: SpatialRuntimeFeature) -> (result: Result<(SpatialPersistentId, SpatialPersistentId), SpatialDocumentError>)
    ensures
        result == feature_pair_capture(*map, first, second),
{
    let a = persistent_feature(map, first)?;
    let b = persistent_feature(map, second)?;
    Ok((a, b))
}

/// Translates a runtime source shape into its persistent definition.
pub fn capture_source(shape: SpatialSourceShape, map: &SpatialAssemblyRuntimeMap) -> (result: Result<SourceDefinition, SpatialDocumentError>)
    ensures
        result == source_capture(*map, shape),
{
    match shape {
        SpatialSourceShape::PhysicalGround { body } => Ok(SourceDefinition::PhysicalGround { body: persistent_body(map, body)? }),
        SpatialSourceShape::BallJoint { first, second } => {
            let (a, b) = capture_feature_pair(map, SpatialRuntimeFeature::Point(first), SpatialRuntimeFeature::Point(second))?;
            Ok(SourceDefinition::BallJoint { first: a, second: b })
        },
        SpatialSourceShape::FixedFrame { first, second } => {
            let (a, b) = capture_feature_pair(map, SpatialRuntimeFeature::Frame(first), SpatialRuntimeFeature::Frame(second))?;
            Ok(SourceDefinition::FixedFrame { first: a, second: b })
        },
        SpatialSourceShape::RevoluteJoint { first, second, parity } => {
            let (a, b) = capture_feature_pair(map, SpatialRuntimeFeature::Frame(first), SpatialRuntimeFeature::Frame(second))?;
            Ok(SourceDefinition::RevoluteJoint { first: a, second: b, parity: parity_record(parity) })
        },
        SpatialSourceShape::PrismaticJoint { first, second, parity } => {
            let (a, b) = capture_feature_pair(map, SpatialRuntimeFeature::Axis(first), SpatialRuntimeFeature::Axis(second))?;
            Ok(SourceDefinition::PrismaticJoint { first: a, second: b, parity: parity_record(parity) })
        },
        SpatialSourceShape::CylindricalJoint { first, second, parity } => {
            let (a, b) = capture_feature_pair(map, SpatialRuntimeFeature::Axis(first), SpatialRuntimeFeature::Axis(second))?;
            Ok(SourceDefinition::CylindricalJoint { first: a, second: b, parity: parity_record(parity) })
        },
        SpatialSourceShape::PlanarJoint { first, second, parity } => {
            let (a, b) = capture_feature_pair(map, SpatialRuntimeFeature::Plane(first), SpatialRuntimeFeature::Plane(second))?;
            Ok(SourceDefinition::PlanarJoint { first: a, second: b, parity: parity_record(parity) })
        },
        SpatialSourceShape::UniversalJoint { first, second } => {
            let (a, b) = capture_feature_pair(map, SpatialRuntimeFeature::Axis(first), SpatialRuntimeFeature::Axis(second))?;
            Ok(SourceDefinition::UniversalJoint { first: a, second: b })
        },
        SpatialSourceShape::PointDistanceMate { first, second } => {
            let (a, b) = capture_feature_pair(map, SpatialRuntimeFeature::Point(first), SpatialRuntimeFeature::Point(second))?;
            Ok(SourceDefinition::PointDistanceMate { first: a, second: b })
        },
        SpatialSourceShape::AxisAngleMate { first, second } => {
            let (a, b) = capture_feature_pair(map, SpatialRuntimeFeature::Axis(first), SpatialRuntimeFeature::Axis(second))?;
            Ok(SourceDefinition::AxisAngleMate { first: a, second: b })
        },
        SpatialSourceShape::AxisAlignmentMate { first, second, parity } => {
            let (a, b) = capture_feature_pair(map, SpatialRuntimeFeature::Axis(first), SpatialRuntimeFeature::Axis(second))?;
            Ok(SourceDefinition::AxisAlignmentMate { first: a, second: b, parity: parity_record(parity) })
        },
        SpatialSourceShape::FrameOffsetMate { first, second } => {
            let (a, b) = capture_feature_pair(map, SpatialRuntimeFeature::Frame(first), SpatialRuntimeFeature::Frame(second))?;
            Ok(SourceDefinition::FrameOffsetMate { first: a, second: b })
        },
        SpatialSourceShape::HingePositionDriver { coordinate, .. } => Ok(SourceDefinition::HingePositionDriver { coordinate: persistent_coordinate(map, coordinate)? }),
        SpatialSourceShape::TranslationPositionDriver { coordinate, .. } => Ok(SourceDefinition::TranslationPositionDriver { coordinate: persistent_coordinate(map, coordinate)? }),
    }
}

/// The accepted target a driver shape carries; none for other shapes.
pub open spec fn driver_target_of(shape: SpatialSourceShape) -> Option<DriverTargetRecord> {
    match shape {
        SpatialSourceShape::HingePositionDriver { winding, phase_bits, .. } => Some(DriverTargetRecord::Hinge { phase_bits, winding }),
        SpatialSourceShape::TranslationPositionDriver { target_bits, .. } => Some(DriverTargetRecord::Translation { target_bits }),
        _ => None,
    }
}

/// Verdicts that accept every floating-point value of a source.
pub open spec fn accepting_verdicts() -> SourceVerdicts {
    SourceVerdicts { ground: Some(GroundVerdict::Matches), offset_record: None, values: None }
}

/// Capturing a runtime source shape and lowering the definition again, with
/// the shape's own driver target and values that pass, gives the shape back,
/// when the map pairs bodies, features and coordinates one-to-one.
pub proof fn lemma_source_capture_round_trip(map: SpatialAssemblyRuntimeMap, id: SpatialPersistentId, shape: SpatialSourceShape)
    requires
        pairs_one_to_one(map.bodies@),
        pairs_one_to_one(map.features@),
        pairs_one_to_one(map.coordinates@),
        source_capture(map, shape) is Ok,
    ensures
        source_lowering(map, id, source_capture(map, shape)->Ok_0, driver_target_of(shape), accepting_verdicts())
            == Ok::<SpatialSourceShape, SpatialDocumentError>(shape),
{
    match shape {
        SpatialSourceShape::PhysicalGround { body } => lemma_one_to_one_inverse(map.bodies@, body),
        SpatialSourceShape::BallJoint { first, second } => {
            lemma_one_to_one_inverse(map.features@, SpatialRuntimeFeature::Point(first));
            lemma_one_to_one_inverse(map.features@, SpatialRuntimeFeature::Point(second));
        },
        SpatialSourceShape::FixedFrame { first, second } => {
            lemma_one_to_one_inverse(map.features@, SpatialRuntimeFeature::Frame(first));
            lemma_one_to_one_inverse(map.features@, SpatialRuntimeFeature::Frame(second));
        },
        SpatialSourceShape::RevoluteJoint { first, second, parity } => {
            lemma_one_to_one_inverse(map.features@, SpatialRuntimeFeature::Frame(first));
            lemma_one_to_one_inverse(map.features@, SpatialRuntimeFeature::Frame(second));
        },
        SpatialSourceShape::PrismaticJoint { first, second, parity } => {
            lemma_one_to_one_inverse(map.features@, SpatialRuntimeFeature::Axis(first));
            lemma_one_to_one_inverse(map.features@, SpatialRuntimeFeature::Axis(second));
        },
        SpatialSourceShape::CylindricalJoint { first, second, parity } => {
            lemma_one_to_one_inverse(map.features@, SpatialRuntimeFeature::Axis(first));
            lemma_one_to_one_inverse(map.features@, SpatialRuntimeFeature::Axis(second));
        },
        SpatialSourceShape::PlanarJoint { first, second, parity } => {
            lemma_one_to_one_inverse(map.features@, SpatialRuntimeFeature::Plane(first));
            lemma_one_to_one_inverse(map.features@, SpatialRuntimeFeature::Plane(second));
        },
        SpatialSourceShape::UniversalJoint { first, second } => {
            lemma_one_to_one_inverse(map.features@, SpatialRuntimeFeature::Axis(first));
            lemma_one_to_one_inverse(map.features@, SpatialRuntimeFeature::Axis(second));
        },
        SpatialSourceShape::PointDistanceMate { first, second } => {
            lemma_one_to_one_inverse(map.features@, SpatialRuntimeFeature::Point(first));
            lemma_one_to_one_inverse(map.features@, SpatialRuntimeFeature::Point(second));
        },
        SpatialSourceShape::AxisAngleMate { first, second } => {
            lemma_one_to_one_inverse(map.features@, SpatialRuntimeFeature::Axis(first));
            lemma_one_to_one_inverse(map.features@, SpatialRuntimeFeature::Axis(second));
        },
        SpatialSourceShape::AxisAlignmentMate { first, second, parity } => {
            lemma_one_to_one_inverse(map.features@, SpatialRuntimeFeature::Axis(first));
            lemma_one_to_one_inverse(map.features@, SpatialRuntimeFeature::Axis(second));
        },
        SpatialSourceShape::FrameOffsetMate { first, second } => {
            lemma_one_to_one_inverse(map.features@, SpatialRuntimeFeature::Frame(first));
            lemma_one_to_one_inverse(map.features@, SpatialRuntimeFeature::Frame(second));
        },
        SpatialSourceShape::HingePositionDriver { coordinate, .. } => lemma_one_to_one_inverse(map.coordinates@, coordinate),
        SpatialSourceShape::TranslationPositionDriver { coordinate, .. } => lemma_one_to_one_inverse(map.coordinates@, coordinate),
    }
}

/// Capturing a runtime monitor kind and lowering the definition again gives the
/// kind back, when the map pairs features and coordinates one-to-one.
pub proof fn lemma_monitor_capture_round_trip(map: SpatialAssemblyRuntimeMap, kind: SpatialModeMonitorKind)
    requires
        pairs_one_to_one(map.features@),
        pairs_one_to_one(map.coordinates@),
        monitor_capture(map, kind) is Ok,
    ensures
        monitor_lowering(map, monitor_capture(map, kind)->Ok_0) == Ok::<SpatialModeMonitorKind, SpatialDocumentError>(kind),
{
    match kind {
        SpatialModeMonitorKind::AxisParity { first, second, parity } => {
            lemma_one_to_one_inverse(map.features@, SpatialRuntimeFeature::Axis(first));
            lemma_one_to_one_inverse(map.features@, SpatialRuntimeFeature::Axis(second));
        },
        SpatialModeMonitorKind::HingeWinding { coordinate, winding } => lemma_one_to_one_inverse(map.coordinates@, coordinate),
        SpatialModeMonitorKind::PlaneSide { plane, point, side } => {
            lemma_one_to_one_inverse(map.features@, SpatialRuntimeFeature::Plane(plane));
            lemma_one_to_one_inverse(map.features@, SpatialRuntimeFeature::Point(point));
        },
        SpatialModeMonitorKind::SignedVolume { points, orientation } => {
            lemma_one_to_one_inverse(map.features@, SpatialRuntimeFeature::Point(points[0]));
            lemma_one_to_one_inverse(map.features@, SpatialRuntimeFeature::Point(points[1]));
            lemma_one_to_one_inverse(map.features@, SpatialRuntimeFeature::Point(points[2]));
            lemma_one_to_one_inverse(map.features@, SpatialRuntimeFeature::Point(points[3]));
            let captured = monitor_capture(map, kind)->Ok_0;
            let lowered_kind = monitor_lowering(map, captured)->Ok_0;
            assert(lowered_kind->SignedVolume_points =~= points);
        },
    }
}

/// Capturing a runtime coordinate kind and lowering the definition again gives
/// the kind back, when the map pairs sources one-to-one.
pub proof fn lemma_coordinate_capture_round_trip(map: SpatialAssemblyRuntimeMap, kind: SpatialCoordinateKind)
    requires
        pairs_one_to_one(map.sources@),
        coordinate_capture(map, kind) is Ok,
    ensures
        coordinate_lowering(map, coordinate_capture(map, kind)->Ok_0) == Ok::<SpatialCoordinateKind, SpatialDocumentError>(kind),
{
    match kind {
        SpatialCoordinateKind::Hinge { parent, winding } => lemma_one_to_one_inverse(map.sources@, parent),
        SpatialCoordinateKind::AxialTranslation { parent } => lemma_one_to_one_inverse(map.sources@, parent),
        SpatialCoordinateKind::PlanarTranslation { parent, axis } => lemma_one_to_one_inverse(map.sources@, parent),
    }
}

/// The map pairs the persistent feature `id` with the runtime feature `feature`.
pub open spec fn feature_paired(map: SpatialAssemblyRuntimeMap, id: SpatialPersistentId, feature: SpatialRuntimeFeature) -> bool {
    runtime_of(map.features@, id) == Some(feature)
}

/// A persisted parity record and a runtime parity name the same alignment.
pub open spec fn same_parity(record: ParityRecord, parity: SpatialAxisParity) -> bool {
    (record == ParityRecord::Aligned) <==> (parity == SpatialAxisParity::Aligned)
}

/// A persisted sign record and a runtime sign name the same side.
pub open spec fn same_sign(record: SignRecord, sign: SpatialModeSign) -> bool {
    (record == SignRecord::Positive) <==> (sign == SpatialModeSign::Positive)
}

/// Lowering a persistent source gives the runtime shape of the same kind whose
/// every field is the runtime object the map pairs with that same persistent
/// field, with the same parity; a driver carries the accepted target it was
/// given, and a ground needs its body's accepted pose to agree.
pub proof fn lemma_source_lowering_follows_fields(
    map: SpatialAssemblyRuntimeMap,
    id: SpatialPersistentId,
    definition: SourceDefinition,
    driver: Option<DriverTargetRecord>,
    verdicts: SourceVerdicts,
)
    ensures
        source_lowering(map, id, definition, driver, verdicts) matches Ok(shape) ==> match definition {
            SourceDefinition::PhysicalGround { body } => shape matches SpatialSourceShape::PhysicalGround { body: b }
                && runtime_of(map.bodies@, body) == Some(b) && verdicts.ground == Some(GroundVerdict::Matches),
            SourceDefinition::BallJoint { first, second } => shape matches SpatialSourceShape::BallJoint { first: a, second: b }
                && feature_paired(map, first, SpatialRuntimeFeature::Point(a)) && feature_paired(map, second, SpatialRuntimeFeature::Point(b)),
            SourceDefinition::FixedFrame { first, second } => shape matches SpatialSourceShape::FixedFrame { first: a, second: b }
                && feature_paired(map, first, SpatialRuntimeFeature::Frame(a)) && feature_paired(map, second, SpatialRuntimeFeature::Frame(b)),
            SourceDefinition::RevoluteJoint { first, second, parity } => shape matches SpatialSourceShape::RevoluteJoint { first: a, second: b, parity: x }
                && feature_paired(map, first, SpatialRuntimeFeature::Frame(a)) && feature_paired(map, second, SpatialRuntimeFeature::Frame(b))
                && same_parity(parity, x),
            SourceDefinition::PrismaticJoint { first, second, parity } => shape matches SpatialSourceShape::PrismaticJoint { first: a, second: b, parity: x }
                && feature_paired(map, first, SpatialRuntimeFeature::Axis(a)) && feature_paired(map, second, SpatialRuntimeFeature::Axis(b))
                && same_parity(parity, x),
            SourceDefinition::CylindricalJoint { first, second, parity } => shape matches SpatialSourceShape::CylindricalJoint { first: a, second: b, parity: x }
                && feature_paired(map, first, SpatialRuntimeFeature::Axis(a)) && feature_paired(map, second, SpatialRuntimeFeature::Axis(b))
                && same_parity(parity, x),
            SourceDefinition::PlanarJoint { first, second, parity } => shape matches SpatialSourceShape::PlanarJoint { first: a, second: b, parity: x }
                && feature_paired(map, first, SpatialRuntimeFeature::Plane(a)) && feature_paired(map, second, SpatialRuntimeFeature::Plane(b))
                && same_parity(parity, x),
            SourceDefinition::UniversalJoint { first, second } => shape matches SpatialSourceShape::UniversalJoint { first: a, second: b }
                && feature_paired(map, first, SpatialRuntimeFeature::Axis(a)) && feature_paired(map, second, SpatialRuntimeFeature::Axis(b)),
            SourceDefinition::PointDistanceMate { first, second } => shape matches SpatialSourceShape::PointDistanceMate { first: a, second: b }
                && feature_paired(map, first, SpatialRuntimeFeature::Point(a)) && feature_paired(map, second, SpatialRuntimeFeature::Point(b)),
            SourceDefinition::AxisAngleMate { first, second } => shape matches SpatialSourceShape::AxisAngleMate { first: a, second: b }
                && feature_paired(map, first, SpatialRuntimeFeature::Axis(a)) && feature_paired(map, second, SpatialRuntimeFeature::Axis(b)),
            SourceDefinition::AxisAlignmentMate { first, second, parity } => shape matches SpatialSourceShape::AxisAlignmentMate { first: a, second: b, parity: x }
                && feature_paired(map, first, SpatialRuntimeFeature::Axis(a)) && feature_paired(map, second, SpatialRuntimeFeature::Axis(b))
                && same_parity(parity, x),
            SourceDefinition::FrameOffsetMate { first, second } => shape matches SpatialSourceShape::FrameOffsetMate { first: a, second: b }
                && feature_paired(map, first, SpatialRuntimeFeature::Frame(a)) && feature_paired(map, second, SpatialRuntimeFeature::Frame(b))
                && verdicts.offset_record is None,
            SourceDefinition::HingePositionDriver { coordinate } => shape matches SpatialSourceShape::HingePositionDriver { coordinate: c, winding: w, phase_bits: p }
                && runtime_of(map.coordinates@, coordinate) == Some(c)
                && driver == Some(DriverTargetRecord::Hinge { phase_bits: p, winding: w }),
            SourceDefinition::TranslationPositionDriver { coordinate } => shape matches SpatialSourceShape::TranslationPositionDriver { coordinate: c, target_bits: t }
                && runtime_of(map.coordinates@, coordinate) == Some(c)
                && driver == Some(DriverTargetRecord::Translation { target_bits: t }),
        },
        (source_lowering(map, id, definition, driver, verdicts) is Ok) <==> match definition {
            SourceDefinition::PhysicalGround { body } => verdicts.ground == Some(GroundVerdict::Matches) && runtime_of(map.bodies@, body) is Some,
            SourceDefinition::BallJoint { first, second } => (runtime_of(map.features@, first) matches Some(SpatialRuntimeFeature::Point(_)))
                && (runtime_of(map.features@, second) matches Some(SpatialRuntimeFeature::Point(_))),
            SourceDefinition::FixedFrame { first, second } => (runtime_of(map.features@, first) matches Some(SpatialRuntimeFeature::Frame(_)))
                && (runtime_of(map.features@, second) matches Some(SpatialRuntimeFeature::Frame(_))),
            SourceDefinition::RevoluteJoint { first, second, .. } => (runtime_of(map.features@, first) matches Some(SpatialRuntimeFeature::Frame(_)))
                && (runtime_of(map.features@, second) matches Some(SpatialRuntimeFeature::Frame(_))),
            SourceDefinition::PrismaticJoint { first, second, .. } => (runtime_of(map.features@, first) matches Some(SpatialRuntimeFeature::Axis(_)))
                && (runtime_of(map.features@, second) matches Some(SpatialRuntimeFeature::Axis(_))),
            SourceDefinition::CylindricalJoint { first, second, .. } => (runtime_of(map.features@, first) matches Some(SpatialRuntimeFeature::Axis(_)))
                && (runtime_of(map.features@, second) matches Some(SpatialRuntimeFeature::Axis(_))),
            SourceDefinition::PlanarJoint { first, second, .. } => (runtime_of(map.features@, first) matches Some(SpatialRuntimeFeature::Plane(_)))
                && (runtime_of(map.features@, second) matches Some(SpatialRuntimeFeature::Plane(_))),
            SourceDefinition::UniversalJoint { first, second } => (runtime_of(map.features@, first) matches Some(SpatialRuntimeFeature::Axis(_)))
                && (runtime_of(map.features@, second) matches Some(SpatialRuntimeFeature::Axis(_))),
            SourceDefinition::PointDistanceMate { first, second } => (runtime_of(map.features@, first) matches Some(SpatialRuntimeFeature::Point(_)))
                && (runtime_of(map.features@, second) matches Some(SpatialRuntimeFeature::Point(_))),
            SourceDefinition::AxisAngleMate { first, second } => (runtime_of(map.features@, first) matches Some(SpatialRuntimeFeature::Axis(_)))
                && (runtime_of(map.features@, second) matches Some(SpatialRuntimeFeature::Axis(_))),
            SourceDefinition::AxisAlignmentMate { first, second, .. } => (runtime_of(map.features@, first) matches Some(SpatialRuntimeFeature::Axis(_)))
                && (runtime_of(map.features@, second) matches Some(SpatialRuntimeFeature::Axis(_))),
            SourceDefinition::FrameOffsetMate { first, second } => (runtime_of(map.features@, first) matches Some(SpatialRuntimeFeature::Frame(_)))
                && (runtime_of(map.features@, second) matches Some(SpatialRuntimeFeature::Frame(_))) && verdicts.offset_record is None,
            SourceDefinition::HingePositionDriver { coordinate } => (driver matches Some(DriverTargetRecord::Hinge { .. }))
                && runtime_of(map.coordinates@, coordinate) is Some,
            SourceDefinition::TranslationPositionDriver { coordinate } => (driver matches Some(DriverTargetRecord::Translation { .. }))
                && runtime_of(map.coordinates@, coordinate) is Some,
        },
{
}

/// Lowering a persistent monitor gives the runtime monitor of the same kind
/// whose every field is the runtime object the map pairs with that same
/// persistent field (the four signed-volume points in their order), with the
/// same parity, sign or winding; it succeeds exactly when every field resolves.
pub proof fn lemma_monitor_lowering_follows_fields(map: SpatialAssemblyRuntimeMap, definition: MonitorDefinition)
    ensures
        monitor_lowering(map, definition) matches Ok(kind) ==> match definition {
            MonitorDefinition::AxisParity { first, second, parity } => kind matches SpatialModeMonitorKind::AxisParity { first: a, second: b, parity: x }
                && feature_paired(map, first, SpatialRuntimeFeature::Axis(a)) && feature_paired(map, second, SpatialRuntimeFeature::Axis(b))
                && same_parity(parity, x),
            MonitorDefinition::HingeWinding { coordinate, winding } => kind matches SpatialModeMonitorKind::HingeWinding { coordinate: c, winding: w }
                && runtime_of(map.coordinates@, coordinate) == Some(c) && w == winding,
            MonitorDefinition::PlaneSide { plane, point, side } => kind matches SpatialModeMonitorKind::PlaneSide { plane: pl, point: q, side: g }
                && feature_paired(map, plane, SpatialRuntimeFeature::Plane(pl)) && feature_paired(map, point, SpatialRuntimeFeature::Point(q))
                && same_sign(side, g),
            MonitorDefinition::SignedVolume { points, orientation } => kind matches SpatialModeMonitorKind::SignedVolume { points: r, orientation: g }
                && (forall|i: int| 0 <= i < 4 ==> feature_paired(map, #[trigger] points[i], SpatialRuntimeFeature::Point(r[i])))
                && same_sign(orientation, g),
        },
        (monitor_lowering(map, definition) is Ok) <==> match definition {
            MonitorDefinition::AxisParity { first, second, .. } => (runtime_of(map.features@, first) matches Some(SpatialRuntimeFeature::Axis(_)))
                && (runtime_of(map.features@, second) matches Some(SpatialRuntimeFeature::Axis(_))),
            MonitorDefinition::HingeWinding { coordinate, .. } => runtime_of(map.coordinates@, coordinate) is Some,
            MonitorDefinition::PlaneSide { plane, point, .. } => (runtime_of(map.features@, plane) matches Some(SpatialRuntimeFeature::Plane(_)))
                && (runtime_of(map.features@, point) matches Some(SpatialRuntimeFeature::Point(_))),
            MonitorDefinition::SignedVolume { points, .. } => forall|i: int| 0 <= i < 4
                ==> (runtime_of(map.features@, #[trigger] points[i]) matches Some(SpatialRuntimeFeature::Point(_))),
        },
{
    if let MonitorDefinition::SignedVolume { points, orientation } = definition {
        if let Ok(kind) = monitor_lowering(map, definition) {
            let r = kind->SignedVolume_points;
            assert forall|i: int| 0 <= i < 4 implies feature_paired(map, #[trigger] points[i], SpatialRuntimeFeature::Point(r[i])) by {
                if i == 0 {} else if i == 1 {} else if i == 2 {} else {}
            }
        }
        if forall|i: int| 0 <= i < 4 ==> (runtime_of(map.features@, #[trigger] points[i]) matches Some(SpatialRuntimeFeature::Point(_))) {
            assert(runtime_of(map.features@, points[0]) matches Some(SpatialRuntimeFeature::Point(_)));
            assert(runtime_of(map.features@, points[1]) matches Some(SpatialRuntimeFeature::Point(_)));
            assert(runtime_of(map.features@, points[2]) matches Some(SpatialRuntimeFeature::Point(_)));
            assert(runtime_of(map.features@, points[3]) matches Some(SpatialRuntimeFeature::Point(_)));
        }
    }
}

/// Lowering a persistent coordinate gives the runtime coordinate of the same
/// kind on the runtime source the map pairs with its parent, with the same
/// winding or in-plane axis; it succeeds exactly when the parent resolves.
pub proof fn lemma_coordinate_lowering_follows_fields(map: SpatialAssemblyRuntimeMap, definition: CoordinateDefinition)
    ensures
        coordinate_lowering(map, definition) matches Ok(kind) ==> match definition {
            CoordinateDefinition::Hinge { parent, winding } => kind matches SpatialCoordinateKind::Hinge { parent: p, winding: w }
                && runtime_of(map.sources@, parent) == Some(p) && w == winding,
            CoordinateDefinition::AxialTranslation { parent } => kind matches SpatialCoordinateKind::AxialTranslation { parent: p }
                && runtime_of(map.sources@, parent) == Some(p),
            CoordinateDefinition::PlanarTranslation { parent, axis } => kind matches SpatialCoordinateKind::PlanarTranslation { parent: p, axis: x }
                && runtime_of(map.sources@, parent) == Some(p)
                && ((axis == AxisRecord::X) <==> (x == SpatialPlanarTranslationAxis::X)),
        },
        (coordinate_lowering(map, definition) is Ok) <==> match definition {
            CoordinateDefinition::Hinge { parent, .. } => runtime_of(map.sources@, parent) is Some,
            CoordinateDefinition::AxialTranslation { parent } => runtime_of(map.sources@, parent) is Some,
            CoordinateDefinition::PlanarTranslation { parent, .. } => runtime_of(map.sources@, parent) is Some,
        },
{
}

/// The map pairs the runtime feature `feature` with the persistent identity `id`.
pub open spec fn feature_captured(map: SpatialAssemblyRuntimeMap, feature: SpatialRuntimeFeature, id: SpatialPersistentId) -> bool {
    persistent_of(map.features@, feature) == Some(id)
}

/// Capturing a runtime source shape gives the persistent definition of the same
/// kind whose every field is the persistent identity the map pairs with that
/// same runtime field, with the same parity; it succeeds exactly when every
/// runtime object has a persistent identity.
pub proof fn lemma_source_capture_follows_fields(map: SpatialAssemblyRuntimeMap, shape: SpatialSourceShape)
    ensures
        source_capture(map, shape) matches Ok(d) ==> match shape {
            SpatialSourceShape::PhysicalGround { body } => d matches SourceDefinition::PhysicalGround { body: b }
                && persistent_of(map.bodies@, body) == Some(b),
            SpatialSourceShape::BallJoint { first, second } => d matches SourceDefinition::BallJoint { first: a, second: b }
                && feature_captured(map, SpatialRuntimeFeature::Point(first), a) && feature_captured(map, SpatialRuntimeFeature::Point(second), b),
            SpatialSourceShape::FixedFrame { first, second } => d matches SourceDefinition::FixedFrame { first: a, second: b }
                && feature_captured(map, SpatialRuntimeFeature::Frame(first), a) && feature_captured(map, SpatialRuntimeFeature::Frame(second), b),
            SpatialSourceShape::RevoluteJoint { first, second, parity } => d matches SourceDefinition::RevoluteJoint { first: a, second: b, parity: x }
                && feature_captured(map, SpatialRuntimeFeature::Frame(first), a) && feature_captured(map, SpatialRuntimeFeature::Frame(second), b)
                && same_parity(x, parity),
            SpatialSourceShape::PrismaticJoint { first, second, parity } => d matches SourceDefinition::PrismaticJoint { first: a, second: b, parity: x }
                && feature_captured(map, SpatialRuntimeFeature::Axis(first), a) && feature_captured(map, SpatialRuntimeFeature::Axis(second), b)
                && same_parity(x, parity),
            SpatialSourceShape::CylindricalJoint { first, second, parity } => d matches SourceDefinition::CylindricalJoint { first: a, second: b, parity: x }
                && feature_captured(map, SpatialRuntimeFeature::Axis(first), a) && feature_captured(map, SpatialRuntimeFeature::Axis(second), b)
                && same_parity(x, parity),
            SpatialSourceShape::PlanarJoint { first, second, parity } => d matches SourceDefinition::PlanarJoint { first: a, second: b, parity: x }
                && feature_captured(map, SpatialRuntimeFeature::Plane(first), a) && feature_captured(map, SpatialRuntimeFeature::Plane(second), b)
                && same_parity(x, parity),
            SpatialSourceShape::UniversalJoint { first, second } => d matches SourceDefinition::UniversalJoint { first: a, second: b }
                && feature_captured(map, SpatialRuntimeFeature::Axis(first), a) && feature_captured(map, SpatialRuntimeFeature::Axis(second), b),
            SpatialSourceShape::PointDistanceMate { first, second } => d matches SourceDefinition::PointDistanceMate { first: a, second: b }
                && feature_captured(map, SpatialRuntimeFeature::Point(first), a) && feature_captured(map, SpatialRuntimeFeature::Point(second), b),
            SpatialSourceShape::AxisAngleMate { first, second } => d matches SourceDefinition::AxisAngleMate { first: a, second: b }
                && feature_captured(map, SpatialRuntimeFeature::Axis(first), a) && feature_captured(map, SpatialRuntimeFeature::Axis(second), b),
            SpatialSourceShape::AxisAlignmentMate { first, second, parity } => d matches SourceDefinition::AxisAlignmentMate { first: a, second: b, parity: x }
                && feature_captured(map, SpatialRuntimeFeature::Axis(first), a) && feature_captured(map, SpatialRuntimeFeature::Axis(second), b)
                && same_parity(x, parity),
            SpatialSourceShape::FrameOffsetMate { first, second } => d matches SourceDefinition::FrameOffsetMate { first: a, second: b }
                && feature_captured(map, SpatialRuntimeFeature::Frame(first), a) && feature_captured(map, SpatialRuntimeFeature::Frame(second), b),
            SpatialSourceShape::HingePositionDriver { coordinate, .. } => d matches SourceDefinition::HingePositionDriver { coordinate: c }
                && persistent_of(map.coordinates@, coordinate) == Some(c),
            SpatialSourceShape::TranslationPositionDriver { coordinate, .. } => d matches SourceDefinition::TranslationPositionDriver { coordinate: c }
                && persistent_of(map.coordinates@, coordinate) == Some(c),
        },
        (source_capture(map, shape) is Ok) <==> match shape {
            SpatialSourceShape::PhysicalGround { body } => persistent_of(map.bodies@, body) is Some,
            SpatialSourceShape::BallJoint { first, second } => persistent_of(map.features@, SpatialRuntimeFeature::Point(first)) is Some
                && persistent_of(map.features@, SpatialRuntimeFeature::Point(second)) is Some,
            SpatialSourceShape::FixedFrame { first, second } => persistent_of(map.features@, SpatialRuntimeFeature::Frame(first)) is Some
                && persistent_of(map.features@, SpatialRuntimeFeature::Frame(second)) is Some,
            SpatialSourceShape::RevoluteJoint { first, second, .. } => persistent_of(map.features@, SpatialRuntimeFeature::Frame(first)) is Some
                && persistent_of(map.features@, SpatialRuntimeFeature::Frame(second)) is Some,
            SpatialSourceShape::PrismaticJoint { first, second, .. } => persistent_of(map.features@, SpatialRuntimeFeature::Axis(first)) is Some
                && persistent_of(map.features@, SpatialRuntimeFeature::Axis(second)) is Some,
            SpatialSourceShape::CylindricalJoint { first, second, .. } => persistent_of(map.features@, SpatialRuntimeFeature::Axis(first)) is Some
                && persistent_of(map.features@, SpatialRuntimeFeature::Axis(second)) is Some,
            SpatialSourceShape::PlanarJoint { first, second, .. } => persistent_of(map.features@, SpatialRuntimeFeature::Plane(first)) is Some
                && persistent_of(map.features@, SpatialRuntimeFeature::Plane(second)) is Some,
            SpatialSourceShape::UniversalJoint { first, second } => persistent_of(map.features@, SpatialRuntimeFeature::Axis(first)) is Some
                && persistent_of(map.features@, SpatialRuntimeFeature::Axis(second)) is Some,
            SpatialSourceShape::PointDistanceMate { first, second } => persistent_of(map.features@, SpatialRuntimeFeature::Point(first)) is Some
                && persistent_of(map.features@, SpatialRuntimeFeature::Point(second)) is Some,
            SpatialSourceShape::AxisAngleMate { first, second } => persistent_of(map.features@, SpatialRuntimeFeature::Axis(first)) is Some
                && persistent_of(map.features@, SpatialRuntimeFeature::Axis(second)) is Some,
            SpatialSourceShape::AxisAlignmentMate { first, second, .. } => persistent_of(map.features@, SpatialRuntimeFeature::Axis(first)) is Some
                && persistent_of(map.features@, SpatialRuntimeFeature::Axis(second)) is Some,
            SpatialSourceShape::FrameOffsetMate { first, second } => persistent_of(map.features@, SpatialRuntimeFeature::Frame(first)) is Some
                && persistent_of(map.features@, SpatialRuntimeFeature::Frame(second)) is Some,
            SpatialSourceShape::HingePositionDriver { coordinate, .. } => persistent_of(map.coordinates@, coordinate) is Some,
            SpatialSourceShape::TranslationPositionDriver { coordinate, .. } => persistent_of(map.coordinates@, coordinate) is Some,
        },
{
}

/// Capturing a runtime monitor gives the persistent definition of the same
/// kind whose every field is the persistent identity the map pairs with that
/// same runtime field (the signed-volume points in their order), with the same
/// parity, sign or winding; it succeeds exactly when every field has one.
pub proof fn lemma_monitor_capture_follows_fields(map: SpatialAssemblyRuntimeMap, kind: SpatialModeMonitorKind)
    ensures
        monitor_capture(map, kind) matches Ok(d) ==> match kind {
            SpatialModeMonitorKind::AxisParity { first, second, parity } => d matches MonitorDefinition::AxisParity { first: a, second: b, parity: x }
                && feature_captured(map, SpatialRuntimeFeature::Axis(first), a) && feature_captured(map, SpatialRuntimeFeature::Axis(second), b)
                && same_parity(x, parity),
            SpatialModeMonitorKind::HingeWinding { coordinate, winding } => d matches MonitorDefinition::HingeWinding { coordinate: c, winding: w }
                && persistent_of(map.coordinates@, coordinate) == Some(c) && w == winding,
            SpatialModeMonitorKind::PlaneSide { plane, point, side } => d matches MonitorDefinition::PlaneSide { plane: pl, point: q, side: g }
                && feature_captured(map, SpatialRuntimeFeature::Plane(plane), pl) && feature_captured(map, SpatialRuntimeFeature::Point(point), q)
                && same_sign(g, side),
            SpatialModeMonitorKind::SignedVolume { points, orientation } => d matches MonitorDefinition::SignedVolume { points: r, orientation: g }
                && (forall|i: int| 0 <= i < 4 ==> feature_captured(map, SpatialRuntimeFeature::Point(#[trigger] points[i]), r[i]))
                && same_sign(g, orientation),
        },
        (monitor_capture(map, kind) is Ok) <==> match kind {
            SpatialModeMonitorKind::AxisParity { first, second, .. } => persistent_of(map.features@, SpatialRuntimeFeature::Axis(first)) is Some
                && persistent_of(map.features@, SpatialRuntimeFeature::Axis(second)) is Some,
            SpatialModeMonitorKind::HingeWinding { coordinate, .. } => persistent_of(map.coordinates@, coordinate) is Some,
            SpatialModeMonitorKind::PlaneSide { plane, point, .. } => persistent_of(map.features@, SpatialRuntimeFeature::Plane(plane)) is Some
                && persistent_of(map.features@, SpatialRuntimeFeature::Point(point)) is Some,
            SpatialModeMonitorKind::SignedVolume { points, .. } => forall|i: int| 0 <= i < 4
                ==> persistent_of(map.features@, SpatialRuntimeFeature::Point(#[trigger] points[i])) is Some,
        },
{
    if let SpatialModeMonitorKind::SignedVolume { points, orientation } = kind {
        if let Ok(d) = monitor_capture(map, kind) {
            let r = d->SignedVolume_points;
            assert forall|i: int| 0 <= i < 4 implies feature_captured(map, SpatialRuntimeFeature::Point(#[trigger] points[i]), r[i]) by {
                if i == 0 {} else if i == 1 {} else if i == 2 {} else {}
            }
        }
        if forall|i: int| 0 <= i < 4 ==> persistent_of(map.features@, SpatialRuntimeFeature::Point(#[trigger] points[i])) is Some {
            assert(persistent_of(map.features@, SpatialRuntimeFeature::Point(points[0])) is Some);
            assert(persistent_of(map.features@, SpatialRuntimeFeature::Point(points[1])) is Some);
            assert(persistent_of(map.features@, SpatialRuntimeFeature::Point(points[2])) is Some);
            assert(persistent_of(map.features@, SpatialRuntimeFeature::Point(points[3])) is Some);
        }
    }
}

/// Capturing a runtime coordinate gives the persistent definition of the same
/// kind on the persistent identity the map pairs with its parent source, with
/// the same winding or in-plane axis; it succeeds exactly when the parent has one.
pub proof fn lemma_coordinate_capture_follows_fields(map: SpatialAssemblyRuntimeMap, kind: SpatialCoordinateKind)
    ensures
        coordinate_capture(map, kind) matches Ok(d) ==> match kind {
            SpatialCoordinateKind::Hinge { parent, winding } => d matches CoordinateDefinition::Hinge { parent: p, winding: w }
                && persistent_of(map.sources@, parent) == Some(p) && w == winding,
            SpatialCoordinateKind::AxialTranslation { parent } => d matches CoordinateDefinition::AxialTranslation { parent: p }
                && persistent_of(map.sources@, parent) == Some(p),
            SpatialCoordinateKind::PlanarTranslation { parent, axis } => d matches CoordinateDefinition::PlanarTranslation { parent: p, axis: x }
                && persistent_of(map.sources@, parent) == Some(p)
                && ((x == AxisRecord::X) <==> (axis == SpatialPlanarTranslationAxis::X)),
        },
        (coordinate_capture(map, kind) is Ok) <==> match kind {
            SpatialCoordinateKind::Hinge { parent, .. } => persistent_of(map.sources@, parent) is Some,
            SpatialCoordinateKind::AxialTranslation { parent } => persistent_of(map.sources@, parent) is Some,
            SpatialCoordinateKind::PlanarTranslation { parent, .. } => persistent_of(map.sources@, parent) is Some,
        },
{
}

// ---------------------------------------------------------------------------
// Accepted boundary latches.

/// A persisted boundary latch: a boundary record and its accepted state.
#[derive(Clone, Copy, Debug, PartialEq, Eq, Structural)]
pub struct BoundaryStateRecord {
    pub boundary: BoundaryRecord,
    pub state: SpatialBoundaryHysteresisState,
}

/// Whether some latch of `latches` is for `boundary`.
pub open spec fn latched(latches: Seq<(SpatialBranchBoundary, SpatialBoundaryHysteresisState)>, boundary: SpatialBranchBoundary) -> bool {
    exists|j: int| 0 <= j < latches.len() && (#[trigger] latches[j]).0 == boundary
}

/// The persisted latches lowered in order, or the first rejection: an
/// unresolved reference, or a boundary latched twice.
pub open spec fn persisted_latches(map: SpatialAssemblyRuntimeMap, records: Seq<BoundaryStateRecord>) -> Result<Seq<(SpatialBranchBoundary, SpatialBoundaryHysteresisState)>, SpatialDocumentError>
    decreases records.len(),
{
    if records.len() == 0 {
        Ok(Seq::empty())
    } else {
        match persisted_latches(map, records.drop_last()) {
            Err(e) => Err(e),
            Ok(done) => match boundary_lowering(map, records.last().boundary) {
                Err(e) => Err(e),
                Ok(boundary) => if latched(done, boundary) {
                    Err(SpatialDocumentError::InvalidField(SpatialDocumentField::RepeatedBoundary))
                } else {
                    Ok(done.push((boundary, records.last().state)))
                },
            },
        }
    }
}

/// The latches cover exactly the evaluated boundaries: as many latches as
/// boundaries, and a latch for each boundary.
pub open spec fn latches_complete(latches: Seq<(SpatialBranchBoundary, SpatialBoundaryHysteresisState)>, evaluated: Seq<SpatialBranchBoundary>) -> bool {
    &&& latches.len() == evaluated.len()
    &&& forall|i: int| 0 <= i < evaluated.len() ==> latched(latches, #[trigger] evaluated[i])
}

/// The state of the first latch for `boundary`.
pub open spec fn latch_state(latches: Seq<(SpatialBranchBoundary, SpatialBoundaryHysteresisState)>, boundary: SpatialBranchBoundary) -> SpatialBoundaryHysteresisState
    decreases latches.len(),
{
    if latches.len() == 0 {
        SpatialBoundaryHysteresisState::Clear
    } else if latches[0].0 == boundary {
        latches[0].1
    } else {
        latch_state(latches.drop_first(), boundary)
    }
}

proof fn lemma_latches_prefix_error(map: SpatialAssemblyRuntimeMap, records: Seq<BoundaryStateRecord>, k: int)
    requires
        0 <= k <= records.len(),
        persisted_latches(map, records.take(k)) is Err,
    ensures
        persisted_latches(map, records) == persisted_latches(map, records.take(k)),
    decreases records.len() - k,
{
    if k == records.len() {
        assert(records.take(k) =~= records);
    } else {
        assert(records.take(k + 1).drop_last() =~= records.take(k));
        lemma_latches_prefix_error(map, records, k + 1);
    }
}

fn find_latch(latches: &Vec<(SpatialBranchBoundary, SpatialBoundaryHysteresisState)>, boundary: SpatialBranchBoundary) -> (found: Option<usize>)
    ensures
        found is None <==> !latched(latches@, boundary),
        found matches Some(j) ==> j < latches@.len() && latches@[j as int].0 == boundary
            && latch_state(latches@, boundary) == latches@[j as int].1,
{
    proof {
        assert(latches@.skip(0) =~= latches@);
    }
    let mut j: usize = 0;
    while j < latches.len()
        invariant
            j <= latches@.len(),
            forall|k: int| 0 <= k < j ==> (#[trigger] latches@[k]).0 != boundary,
            latch_state(latches@, boundary) == latch_state(latches@.skip(j as int), boundary),
        decreases latches@.len() - j,
    {
        proof {
            assert(latches@.skip(j as int).drop_first() =~= latches@.skip(j as int + 1));
        }
        if latches[j].0 == boundary {
            return Some(j);
        }
        j = j + 1;
    }
    None
}

/// Lowers the persisted boundary latches of a document and gives each boundary
/// the topology implies (in `evaluated`, in order) its persisted state.
pub fn restore_boundary_states(map: &SpatialAssemblyRuntimeMap, records: &Vec<BoundaryStateRecord>, evaluated: &Vec<SpatialBranchBoundary>) -> (result: Result<Vec<SpatialBoundaryHysteresisState>, SpatialDocumentError>)
    ensures
        match persisted_latches(*map, records@) {
            Err(e) => result == Err::<Vec<SpatialBoundaryHysteresisState>, _>(e),
            Ok(latches) => if !latches_complete(latches, evaluated@) {
                result == Err::<Vec<SpatialBoundaryHysteresisState>, _>(SpatialDocumentError::InvalidField(SpatialDocumentField::AcceptedBoundaries))
            } else {
                result matches Ok(states) && states@.len() == evaluated@.len()
                    && forall|i: int| 0 <= i < evaluated@.len() ==> #[trigger] states@[i] == latch_state(latches, evaluated@[i])
            },
        },
{
    let mut latches: Vec<(SpatialBranchBoundary, SpatialBoundaryHysteresisState)> = Vec::new();
    let mut i: usize = 0;
    while i < records.len()
        invariant
            i <= records@.len(),
            persisted_latches(*map, records@.take(i as int)) == Ok::<Seq<(SpatialBranchBoundary, SpatialBoundaryHysteresisState)>, SpatialDocumentError>(latches@),
        decreases records@.len() - i,
    {
        proof {
            assert(records@.take(i as int + 1).drop_last() =~= records@.take(i as int));
        }
        let record = records[i];
        let boundary = match lower_boundary(&record.boundary, map) {
            Ok(boundary) => boundary,
            Err(e) => {
                proof {
                    lemma_latches_prefix_error(*map, records@, i as int + 1);
                }
                return Err(e);
            },
        };
        if find_latch(&latches, boundary).is_some() {
            proof {
                lemma_latches_prefix_error(*map, records@, i as int + 1);
            }
            return Err(SpatialDocumentError::InvalidField(SpatialDocumentField::RepeatedBoundary));
        }
        latches.push((boundary, record.state));
        i = i + 1;
    }
    proof {
        assert(records@.take(i as int) =~= records@);
    }
    if latches.len() != evaluated.len() {
        return Err(SpatialDocumentError::InvalidField(SpatialDocumentField::AcceptedBoundaries));
    }
    let mut states: Vec<SpatialBoundaryHysteresisState> = Vec::new();
    let mut k: usize = 0;
    while k < evaluated.len()
        invariant
            k <= evaluated@.len(),
            latches@.len() == evaluated@.len(),
            persisted_latches(*map, records@) == Ok::<Seq<(SpatialBranchBoundary, SpatialBoundaryHysteresisState)>, SpatialDocumentError>(latches@),
            forall|q: int| 0 <= q < k ==> latched(latches@, #[trigger] evaluated@[q]),
            states@.len() == k,
            forall|q: int| 0 <= q < k ==> #[trigger] states@[q] == latch_state(latches@, evaluated@[q]),
        decreases evaluated@.len() - k,
    {
        match find_latch(&latches, evaluated[k]) {
            None => {
                return Err(SpatialDocumentError::InvalidField(SpatialDocumentField::AcceptedBoundaries));
            },
            Some(j) => {
                states.push(latches[j].1);
            },
        }
        k = k + 1;
    }
    Ok(states)
}

/// The latch records of accepted boundary evaluations, each boundary captured
/// through `map`.
pub open spec fn latch_records(map: SpatialAssemblyRuntimeMap, evaluations: Seq<(SpatialBranchBoundary, SpatialBoundaryHysteresisState)>) -> Seq<BoundaryStateRecord> {
    evaluations.map_values(|e: (SpatialBranchBoundary, SpatialBoundaryHysteresisState)| BoundaryStateRecord {
        boundary: boundary_capture(map, e.0)->Ok_0,
        state: e.1,
    })
}

proof fn lemma_latch_state_of(latches: Seq<(SpatialBranchBoundary, SpatialBoundaryHysteresisState)>, i: int)
    requires
        0 <= i < latches.len(),
        forall|a: int, b: int| 0 <= a < b < latches.len() ==> #[trigger] latches[a].0 != #[trigger] latches[b].0,
    ensures
        latch_state(latches, latches[i].0) == latches[i].1,
    decreases i,
{
    if i > 0 {
        let rest = latches.drop_first();
        assert(latches[0].0 != latches[i].0);
        assert forall|a: int, b: int| 0 <= a < b < rest.len() implies #[trigger] rest[a].0 != #[trigger] rest[b].0 by {
            assert(rest[a] == latches[a + 1] && rest[b] == latches[b + 1]);
        }
        assert(rest[i - 1] == latches[i]);
        lemma_latch_state_of(rest, i - 1);
    }
}

/// Persisting the latches of accepted boundary evaluations (each boundary
/// once) and restoring them through a map that pairs sources, coordinates and
/// monitors one-to-one gives every evaluated boundary its accepted state back.
pub proof fn lemma_latches_restore(map: SpatialAssemblyRuntimeMap, evaluations: Seq<(SpatialBranchBoundary, SpatialBoundaryHysteresisState)>)
    requires
        pairs_one_to_one(map.sources@),
        pairs_one_to_one(map.coordinates@),
        pairs_one_to_one(map.monitors@),
        forall|i: int| 0 <= i < evaluations.len() ==> boundary_capture(map, (#[trigger] evaluations[i]).0) is Ok,
        forall|a: int, b: int| 0 <= a < b < evaluations.len() ==> #[trigger] evaluations[a].0 != #[trigger] evaluations[b].0,
    ensures
        persisted_latches(map, latch_records(map, evaluations)) == Ok::<Seq<(SpatialBranchBoundary, SpatialBoundaryHysteresisState)>, SpatialDocumentError>(evaluations),
        latches_complete(evaluations, evaluations.map_values(|e: (SpatialBranchBoundary, SpatialBoundaryHysteresisState)| e.0)),
        forall|i: int| 0 <= i < evaluations.len() ==> latch_state(evaluations, (#[trigger] evaluations[i]).0) == evaluations[i].1,
    decreases evaluations.len(),
{
    let records = latch_records(map, evaluations);
    if evaluations.len() > 0 {
        let rest = evaluations.drop_last();
        assert forall|i: int| 0 <= i < rest.len() implies boundary_capture(map, (#[trigger] rest[i]).0) is Ok by {
            assert(rest[i] == evaluations[i]);
        }
        assert forall|a: int, b: int| 0 <= a < b < rest.len() implies #[trigger] rest[a].0 != #[trigger] rest[b].0 by {
            assert(rest[a] == evaluations[a] && rest[b] == evaluations[b]);
        }
        lemma_latches_restore(map, rest);
        assert(records.drop_last() =~= latch_records(map, rest));
        let last = evaluations[evaluations.len() - 1];
        lemma_boundary_capture_round_trip(map, last.0);
        if latched(rest, last.0) {
            let j = choose|j: int| 0 <= j < rest.len() && (#[trigger] rest[j]).0 == last.0;
            assert(rest[j] == evaluations[j]);
        }
        assert(records.last() == BoundaryStateRecord { boundary: boundary_capture(map, last.0)->Ok_0, state: last.1 });
        assert(boundary_lowering(map, records.last().boundary) == Ok::<SpatialBranchBoundary, SpatialDocumentError>(last.0));
        assert(!latched(rest, last.0));
        assert(rest.push(last) =~= evaluations);
    } else {
        assert(records =~= Seq::<BoundaryStateRecord>::empty());
        assert(evaluations =~= Seq::<(SpatialBranchBoundary, SpatialBoundaryHysteresisState)>::empty());
    }
    let boundaries = evaluations.map_values(|e: (SpatialBranchBoundary, SpatialBoundaryHysteresisState)| e.0);
    assert forall|i: int| 0 <= i < boundaries.len() implies latched(evaluations, #[trigger] boundaries[i]) by {
        assert(evaluations[i].0 == boundaries[i]);
    }
    assert forall|i: int| 0 <= i < evaluations.len() implies latch_state(evaluations, (#[trigger] evaluations[i]).0) == evaluations[i].1 by {
        lemma_latch_state_of(evaluations, i);
    }
}

} // verus!
