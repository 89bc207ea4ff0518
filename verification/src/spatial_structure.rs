//! The discrete structure of a spatial assembly and its structural validation:
//! labels, identity ownership, references, coordinate parents, mode-monitor
//! definitions, single grounding, driver-target agreement, the next identity,
//! and the certified components and gauge references that follow from them.
//!
//! Numerical values (poses, points, frames, distances, angles, targets) are held
//! as the bit patterns of their doubles; floating-point checks are made outside,
//! and each record carries the verdict of its numerical checks, which the
//! validation reports at the place where those checks stand in the order.

use vstd::prelude::*;
use crate::runtime_ids::{
    SpatialAxisFeatureId, SpatialBodyId, SpatialCoordinateId, SpatialFrameFeatureId,
    SpatialIdValue, SpatialModeMonitorId, SpatialPlaneFeatureId, SpatialPointFeatureId,
    SpatialSourceId,
};
use crate::spatial::{
    body_key, body_keys, certified_components, certifies_spatial_components, first_keys, first_missing, first_unknown_body,
    ground_flags, incidence_ids, incidence_links, lemma_certified_spatial_components_unique, position_of_body,
    is_spatial_gauge_error, lemma_body_key_injective, resolve_gauge_references, spatial_explicit, spatial_grounded, spatial_groups,
    CertifiedSpatialComponent, SpatialAssemblyError, SpatialIncidence, SpatialAxisParity, SpatialCoordinate, SpatialCoordinateKind,
    SpatialFieldReason, SpatialGaugePolicy, SpatialModeMonitor, SpatialModeMonitorKind,
};
use crate::text::{is_blank, trims_to_empty};
use crate::components::strictly_increasing;
use crate::gauge::reference_choices;

verus! {

/// The discrete part of a spatial source definition. Driver targets are carried
/// by the bit patterns that two targets are compared by.
#[derive(Clone, Copy, Debug, PartialEq, Eq, Structural)]
pub enum SpatialSourceShape {
    PhysicalGround { body: SpatialBodyId },
    BallJoint { first: SpatialPointFeatureId, second: SpatialPointFeatureId },
    FixedFrame { first: SpatialFrameFeatureId, second: SpatialFrameFeatureId },
    RevoluteJoint { first: SpatialFrameFeatureId, second: SpatialFrameFeatureId, parity: SpatialAxisParity },
    PrismaticJoint { first: SpatialAxisFeatureId, second: SpatialAxisFeatureId, parity: SpatialAxisParity },
    CylindricalJoint { first: SpatialAxisFeatureId, second: SpatialAxisFeatureId, parity: SpatialAxisParity },
    PlanarJoint { first: SpatialPlaneFeatureId, second: SpatialPlaneFeatureId, parity: SpatialAxisParity },
    UniversalJoint { first: SpatialAxisFeatureId, second: SpatialAxisFeatureId },
    PointDistanceMate { first: SpatialPointFeatureId, second: SpatialPointFeatureId },
    AxisAngleMate { first: SpatialAxisFeatureId, second: SpatialAxisFeatureId },
    AxisAlignmentMate { first: SpatialAxisFeatureId, second: SpatialAxisFeatureId, parity: SpatialAxisParity },
    FrameOffsetMate { first: SpatialFrameFeatureId, second: SpatialFrameFeatureId },
    HingePositionDriver { coordinate: SpatialCoordinateId, winding: i64, phase_bits: u64 },
    TranslationPositionDriver { coordinate: SpatialCoordinateId, target_bits: u64 },
}

/// A rejected numerical value: the field and why it was rejected.
#[derive(Clone, Copy, Debug, PartialEq, Eq)]
pub struct SpatialValueRejection {
    pub field: &'static str,
    pub message: &'static str,
}

/// One rigid body: its pose guess, as the bits of its seven ambient
/// coordinates, and the verdict of that pose guess.
#[derive(Clone, Debug, PartialEq, Eq)]
pub struct SpatialBodyRecord {
    pub id: SpatialBodyId,
    pub label: String,
    pub pose_guess: [u64; 7],
    pub pose: Option<SpatialValueRejection>,
}

/// The body-local geometry of a feature, as the bits of its doubles: a point
/// (three coordinates), or the frame of a frame, axis or plane feature (origin
/// and three axes, twelve coordinates).
#[derive(Clone, Copy, Debug, PartialEq, Eq)]
pub enum SpatialLocalGeometry {
    Point([u64; 3]),
    Frame([u64; 12]),
}

/// One body-local point, frame, axis or plane feature: its local geometry and
/// the verdict of that geometry.
#[derive(Clone, Debug, PartialEq, Eq)]
pub struct SpatialFeatureRecord<Id> {
    pub id: Id,
    pub label: String,
    pub body: SpatialBodyId,
    pub local: SpatialLocalGeometry,
    pub geometry: Option<SpatialValueRejection>,
}

/// The numbers a source carries besides its shape, as the bits of their
/// doubles: the target pose of a physical ground (seven ambient coordinates),
/// the distance of a point-distance mate or the angle of an axis-angle mate,
/// or the offset frame of a frame-offset mate (origin and three axes).
#[derive(Clone, Copy, Debug, PartialEq, Eq)]
pub enum SpatialSourceNumbers {
    Empty,
    Pose([u64; 7]),
    Scalar(u64),
    Frame([u64; 12]),
}

/// One source: its numbers, and the verdict of its numerical values (the
/// ground pose, the mate distance and candidate separation, the frame offset,
/// the mate angle or the driver target). Shapes without such values ignore it.
#[derive(Clone, Debug, PartialEq, Eq)]
pub struct SpatialSourceRecord {
    pub id: SpatialSourceId,
    pub label: String,
    pub shape: SpatialSourceShape,
    pub numbers: SpatialSourceNumbers,
    pub values: Option<SpatialValueRejection>,
}

/// The discrete structure of a spatial assembly, in insertion order.
#[derive(Clone, Debug, PartialEq, Eq)]
pub struct SpatialStructure {
    pub namespace: u64,
    pub next_id: u64,
    pub bodies: Vec<SpatialBodyRecord>,
    pub point_features: Vec<SpatialFeatureRecord<SpatialPointFeatureId>>,
    pub frame_features: Vec<SpatialFeatureRecord<SpatialFrameFeatureId>>,
    pub axis_features: Vec<SpatialFeatureRecord<SpatialAxisFeatureId>>,
    pub plane_features: Vec<SpatialFeatureRecord<SpatialPlaneFeatureId>>,
    pub coordinates: Vec<SpatialCoordinate>,
    pub mode_monitors: Vec<SpatialModeMonitor>,
    pub sources: Vec<SpatialSourceRecord>,
    pub gauge_policy: SpatialGaugePolicy,
}

// ---------------------------------------------------------------------------
// Lookups: the first record with the identity, as a linear search finds it.

/// Whether a body with this identity is listed.
pub open spec fn body_listed(bodies: Seq<SpatialBodyRecord>, id: SpatialBodyId) -> bool
    decreases bodies.len(),
{
    if bodies.len() == 0 {
        false
    } else if bodies[0].id == id {
        true
    } else {
        body_listed(bodies.drop_first(), id)
    }
}

/// The pose guess of the first body with this identity.
pub open spec fn body_pose_guess(bodies: Seq<SpatialBodyRecord>, id: SpatialBodyId) -> Option<[u64; 7]>
    decreases bodies.len(),
{
    if bodies.len() == 0 {
        None
    } else if bodies[0].id == id {
        Some(bodies[0].pose_guess)
    } else {
        body_pose_guess(bodies.drop_first(), id)
    }
}

/// The owning body of the first feature with this identity.
pub open spec fn feature_body<Id>(features: Seq<SpatialFeatureRecord<Id>>, id: Id) -> Option<SpatialBodyId>
    decreases features.len(),
{
    if features.len() == 0 {
        None
    } else if features[0].id == id {
        Some(features[0].body)
    } else {
        feature_body(features.drop_first(), id)
    }
}

/// The shape of the first source with this identity.
pub open spec fn source_shape(sources: Seq<SpatialSourceRecord>, id: SpatialSourceId) -> Option<SpatialSourceShape>
    decreases sources.len(),
{
    if sources.len() == 0 {
        None
    } else if sources[0].id == id {
        Some(sources[0].shape)
    } else {
        source_shape(sources.drop_first(), id)
    }
}

/// The kind of the first coordinate with this identity.
pub open spec fn coordinate_kind(coordinates: Seq<SpatialCoordinate>, id: SpatialCoordinateId) -> Option<SpatialCoordinateKind>
    decreases coordinates.len(),
{
    if coordinates.len() == 0 {
        None
    } else if coordinates[0].id == id {
        Some(coordinates[0].kind)
    } else {
        coordinate_kind(coordinates.drop_first(), id)
    }
}

/// The pose guess of the first body with this identity.
pub(crate) fn find_body_pose(bodies: &Vec<SpatialBodyRecord>, id: SpatialBodyId) -> (pose: Option<[u64; 7]>)
    ensures
        pose == body_pose_guess(bodies@, id),
{
    let mut i: usize = 0;
    proof {
        assert(bodies@.skip(0) =~= bodies@);
    }
    while i < bodies.len()
        invariant
            i <= bodies@.len(),
            body_pose_guess(bodies@, id) == body_pose_guess(bodies@.skip(i as int), id),
        decreases bodies@.len() - i,
    {
        proof {
            assert(bodies@.skip(i as int)[0] == bodies@[i as int]);
            assert(bodies@.skip(i as int).drop_first() =~= bodies@.skip(i + 1));
        }
        if bodies[i].id == id {
            return Some(bodies[i].pose_guess);
        }
        i = i + 1;
    }
    None
}

pub(crate) fn find_body(bodies: &Vec<SpatialBodyRecord>, id: SpatialBodyId) -> (listed: bool)
    ensures
        listed == body_listed(bodies@, id),
{
    let mut i: usize = 0;
    proof {
        assert(bodies@.skip(0) =~= bodies@);
    }
    while i < bodies.len()
        invariant
            i <= bodies@.len(),
            body_listed(bodies@, id) == body_listed(bodies@.skip(i as int), id),
        decreases bodies@.len() - i,
    {
        proof {
            assert(bodies@.skip(i as int)[0] == bodies@[i as int]);
            assert(bodies@.skip(i as int).drop_first() =~= bodies@.skip(i + 1));
        }
        if bodies[i].id == id {
            return true;
        }
        i = i + 1;
    }
    false
}

pub(crate) fn find_feature_body<Id: SpatialIdValue>(features: &Vec<SpatialFeatureRecord<Id>>, id: Id) -> (body: Option<SpatialBodyId>)
    ensures
        body == feature_body(features@, id),
{
    let mut i: usize = 0;
    proof {
        assert(features@.skip(0) =~= features@);
    }
    while i < features.len()
        invariant
            i <= features@.len(),
            feature_body(features@, id) == feature_body(features@.skip(i as int), id),
        decreases features@.len() - i,
    {
        proof {
            assert(features@.skip(i as int)[0] == features@[i as int]);
            assert(features@.skip(i as int).drop_first() =~= features@.skip(i + 1));
        }
        if features[i].id.same_as(id) {
            return Some(features[i].body);
        }
        i = i + 1;
    }
    None
}

pub(crate) fn find_source_shape(sources: &Vec<SpatialSourceRecord>, id: SpatialSourceId) -> (shape: Option<SpatialSourceShape>)
    ensures
        shape == source_shape(sources@, id),
{
    let mut i: usize = 0;
    proof {
        assert(sources@.skip(0) =~= sources@);
    }
    while i < sources.len()
        invariant
            i <= sources@.len(),
            source_shape(sources@, id) == source_shape(sources@.skip(i as int), id),
        decreases sources@.len() - i,
    {
        proof {
            assert(sources@.skip(i as int)[0] == sources@[i as int]);
            assert(sources@.skip(i as int).drop_first() =~= sources@.skip(i + 1));
        }
        if sources[i].id == id {
            return Some(sources[i].shape);
        }
        i = i + 1;
    }
    None
}

pub(crate) fn find_coordinate_kind(coordinates: &Vec<SpatialCoordinate>, id: SpatialCoordinateId) -> (kind: Option<SpatialCoordinateKind>)
    ensures
        kind == coordinate_kind(coordinates@, id),
{
    let mut i: usize = 0;
    proof {
        assert(coordinates@.skip(0) =~= coordinates@);
    }
    while i < coordinates.len()
        invariant
            i <= coordinates@.len(),
            coordinate_kind(coordinates@, id) == coordinate_kind(coordinates@.skip(i as int), id),
        decreases coordinates@.len() - i,
    {
        proof {
            assert(coordinates@.skip(i as int)[0] == coordinates@[i as int]);
            assert(coordinates@.skip(i as int).drop_first() =~= coordinates@.skip(i + 1));
        }
        if coordinates[i].id == id {
            return Some(coordinates[i].kind);
        }
        i = i + 1;
    }
    None
}

// ---------------------------------------------------------------------------
// Single checks.

/// The rejection of a blank label of `field`.
pub open spec fn label_error(label: Seq<char>, field: &'static str) -> Option<SpatialAssemblyError> {
    if is_blank(label) {
        Some(SpatialAssemblyError::InvalidLabel { field })
    } else {
        None
    }
}

/// The rejection carried by a numerical verdict.
pub open spec fn value_error(verdict: Option<SpatialValueRejection>) -> Option<SpatialAssemblyError> {
    match verdict {
        Some(rejection) => Some(SpatialAssemblyError::InvalidField { field: rejection.field, reason: SpatialFieldReason::Rejected(rejection.message) }),
        None => None,
    }
}

/// The first of two checks that fails.
pub open spec fn first_of(first: Option<SpatialAssemblyError>, second: Option<SpatialAssemblyError>) -> Option<SpatialAssemblyError> {
    if first is Some {
        first
    } else {
        second
    }
}

/// The failure of a check that yields a value.
pub open spec fn failure<T>(result: Result<T, SpatialAssemblyError>) -> Option<SpatialAssemblyError> {
    match result {
        Ok(_) => None,
        Err(error) => Some(error),
    }
}

/// The rejection of joint endpoints on one body.
pub open spec fn same_body_error(first: SpatialBodyId, second: SpatialBodyId) -> Option<SpatialAssemblyError> {
    if first == second {
        Some(SpatialAssemblyError::SameBodyJointEndpoints(first))
    } else {
        None
    }
}

/// The bodies of two point features, or the first unknown one.
pub open spec fn point_pair(s: SpatialStructure, first: SpatialPointFeatureId, second: SpatialPointFeatureId) -> Result<(SpatialBodyId, SpatialBodyId), SpatialAssemblyError> {
    match feature_body(s.point_features@, first) {
        None => Err(SpatialAssemblyError::UnknownPointFeature(first)),
        Some(a) => match feature_body(s.point_features@, second) {
            None => Err(SpatialAssemblyError::UnknownPointFeature(second)),
            Some(b) => Ok((a, b)),
        },
    }
}

/// The bodies of two frame features, or the first unknown one.
pub open spec fn frame_pair(s: SpatialStructure, first: SpatialFrameFeatureId, second: SpatialFrameFeatureId) -> Result<(SpatialBodyId, SpatialBodyId), SpatialAssemblyError> {
    match feature_body(s.frame_features@, first) {
        None => Err(SpatialAssemblyError::UnknownFrameFeature(first)),
        Some(a) => match feature_body(s.frame_features@, second) {
            None => Err(SpatialAssemblyError::UnknownFrameFeature(second)),
            Some(b) => Ok((a, b)),
        },
    }
}

/// The bodies of two axis features, or the first unknown one.
pub open spec fn axis_pair(s: SpatialStructure, first: SpatialAxisFeatureId, second: SpatialAxisFeatureId) -> Result<(SpatialBodyId, SpatialBodyId), SpatialAssemblyError> {
    match feature_body(s.axis_features@, first) {
        None => Err(SpatialAssemblyError::UnknownAxisFeature(first)),
        Some(a) => match feature_body(s.axis_features@, second) {
            None => Err(SpatialAssemblyError::UnknownAxisFeature(second)),
            Some(b) => Ok((a, b)),
        },
    }
}

/// The bodies of two plane features, or the first unknown one.
pub open spec fn plane_pair(s: SpatialStructure, first: SpatialPlaneFeatureId, second: SpatialPlaneFeatureId) -> Result<(SpatialBodyId, SpatialBodyId), SpatialAssemblyError> {
    match feature_body(s.plane_features@, first) {
        None => Err(SpatialAssemblyError::UnknownPlaneFeature(first)),
        Some(a) => match feature_body(s.plane_features@, second) {
            None => Err(SpatialAssemblyError::UnknownPlaneFeature(second)),
            Some(b) => Ok((a, b)),
        },
    }
}

/// Joint endpoints: both resolve, on two different bodies.
pub open spec fn endpoint_error(pair: Result<(SpatialBodyId, SpatialBodyId), SpatialAssemblyError>) -> Option<SpatialAssemblyError> {
    match pair {
        Err(error) => Some(error),
        Ok((a, b)) => same_body_error(a, b),
    }
}

/// The two bodies a hinge coordinate of `kind` measures between: those of the
/// frames, axes or planes of its revolute, cylindrical or planar parent.
pub open spec fn hinge_bodies(s: SpatialStructure, coordinate: SpatialCoordinateId, kind: SpatialCoordinateKind) -> Result<(SpatialBodyId, SpatialBodyId), SpatialAssemblyError> {
    match kind {
        SpatialCoordinateKind::Hinge { parent, .. } => match source_shape(s.sources@, parent) {
            None => Err(SpatialAssemblyError::UnknownSource(parent)),
            Some(shape) => match shape {
                SpatialSourceShape::RevoluteJoint { first, second, .. } => frame_pair(s, first, second),
                SpatialSourceShape::CylindricalJoint { first, second, .. } => axis_pair(s, first, second),
                SpatialSourceShape::PlanarJoint { first, second, .. } => plane_pair(s, first, second),
                _ => Err(SpatialAssemblyError::WrongCoordinateParent { source_id: parent, expected: "hinge" }),
            },
        },
        _ => Err(SpatialAssemblyError::WrongCoordinateKind { coordinate, expected: "hinge" }),
    }
}

/// The two bodies a translation coordinate of `kind` measures between: those of
/// the axes of its prismatic or cylindrical parent, or of the planes of its
/// planar parent.
pub open spec fn translation_bodies(s: SpatialStructure, coordinate: SpatialCoordinateId, kind: SpatialCoordinateKind) -> Result<(SpatialBodyId, SpatialBodyId), SpatialAssemblyError> {
    match kind {
        SpatialCoordinateKind::Hinge { .. } => Err(SpatialAssemblyError::WrongCoordinateKind { coordinate, expected: "translation" }),
        SpatialCoordinateKind::AxialTranslation { parent } => match source_shape(s.sources@, parent) {
            None => Err(SpatialAssemblyError::UnknownSource(parent)),
            Some(shape) => match shape {
                SpatialSourceShape::PrismaticJoint { first, second, .. } => axis_pair(s, first, second),
                SpatialSourceShape::CylindricalJoint { first, second, .. } => axis_pair(s, first, second),
                _ => Err(SpatialAssemblyError::WrongCoordinateParent { source_id: parent, expected: "axial translation" }),
            },
        },
        SpatialCoordinateKind::PlanarTranslation { parent, .. } => match source_shape(s.sources@, parent) {
            None => Err(SpatialAssemblyError::UnknownSource(parent)),
            Some(shape) => match shape {
                SpatialSourceShape::PlanarJoint { first, second, .. } => plane_pair(s, first, second),
                _ => Err(SpatialAssemblyError::WrongCoordinateParent { source_id: parent, expected: "planar translation" }),
            },
        },
    }
}

/// The parent check of a coordinate: its source exists and has a kind that
/// carries such a coordinate.
pub open spec fn coordinate_parent_error(s: SpatialStructure, kind: SpatialCoordinateKind) -> Option<SpatialAssemblyError> {
    match kind {
        SpatialCoordinateKind::Hinge { parent, .. } => match source_shape(s.sources@, parent) {
            None => Some(SpatialAssemblyError::UnknownSource(parent)),
            Some(shape) => if shape is RevoluteJoint || shape is CylindricalJoint || shape is PlanarJoint {
                None
            } else {
                Some(SpatialAssemblyError::WrongCoordinateParent { source_id: parent, expected: "hinge" })
            },
        },
        SpatialCoordinateKind::AxialTranslation { parent } => match source_shape(s.sources@, parent) {
            None => Some(SpatialAssemblyError::UnknownSource(parent)),
            Some(shape) => if shape is PrismaticJoint || shape is CylindricalJoint {
                None
            } else {
                Some(SpatialAssemblyError::WrongCoordinateParent { source_id: parent, expected: "axial translation" })
            },
        },
        SpatialCoordinateKind::PlanarTranslation { parent, .. } => match source_shape(s.sources@, parent) {
            None => Some(SpatialAssemblyError::UnknownSource(parent)),
            Some(shape) => if shape is PlanarJoint {
                None
            } else {
                Some(SpatialAssemblyError::WrongCoordinateParent { source_id: parent, expected: "planar translation" })
            },
        },
    }
}

/// A hinge reference with `winding`: the coordinate exists, is a hinge of the
/// same winding, and resolves to two bodies.
pub open spec fn hinge_reference_error(s: SpatialStructure, coordinate: SpatialCoordinateId, winding: i64) -> Option<SpatialAssemblyError> {
    match coordinate_kind(s.coordinates@, coordinate) {
        None => Some(SpatialAssemblyError::UnknownCoordinate(coordinate)),
        Some(kind) => match kind {
            SpatialCoordinateKind::Hinge { winding: coordinate_winding, .. } => if coordinate_winding != winding {
                Some(SpatialAssemblyError::WindingMismatch { coordinate, coordinate_winding, target_winding: winding })
            } else {
                failure(hinge_bodies(s, coordinate, kind))
            },
            _ => Some(SpatialAssemblyError::WrongCoordinateKind { coordinate, expected: "hinge" }),
        },
    }
}

/// A translation reference: the coordinate exists, is a translation, and
/// resolves to two bodies.
pub open spec fn translation_reference_error(s: SpatialStructure, coordinate: SpatialCoordinateId) -> Option<SpatialAssemblyError> {
    match coordinate_kind(s.coordinates@, coordinate) {
        None => Some(SpatialAssemblyError::UnknownCoordinate(coordinate)),
        Some(kind) => if kind is Hinge {
            Some(SpatialAssemblyError::WrongCoordinateKind { coordinate, expected: "translation" })
        } else {
            failure(translation_bodies(s, coordinate, kind))
        },
    }
}

/// The first of the points that is not a point feature.
pub open spec fn unknown_point_error(s: SpatialStructure, points: Seq<SpatialPointFeatureId>) -> Option<SpatialAssemblyError>
    decreases points.len(),
{
    if points.len() == 0 {
        None
    } else if feature_body(s.point_features@, points[0]) is None {
        Some(SpatialAssemblyError::UnknownPointFeature(points[0]))
    } else {
        unknown_point_error(s, points.drop_first())
    }
}

/// The definition check of a mode monitor.
pub open spec fn monitor_error(s: SpatialStructure, kind: SpatialModeMonitorKind) -> Option<SpatialAssemblyError> {
    match kind {
        SpatialModeMonitorKind::AxisParity { first, second, .. } => failure(axis_pair(s, first, second)),
        SpatialModeMonitorKind::HingeWinding { coordinate, winding } => hinge_reference_error(s, coordinate, winding),
        SpatialModeMonitorKind::PlaneSide { plane, point, .. } => if feature_body(s.plane_features@, plane) is None {
            Some(SpatialAssemblyError::UnknownPlaneFeature(plane))
        } else if feature_body(s.point_features@, point) is None {
            Some(SpatialAssemblyError::UnknownPointFeature(point))
        } else {
            None
        },
        SpatialModeMonitorKind::SignedVolume { points, .. } => if !points@.no_duplicates() {
            Some(SpatialAssemblyError::InvalidField { field: "signed_volume_monitor.points", reason: SpatialFieldReason::RepeatedVolumePoints })
        } else {
            unknown_point_error(s, points@)
        },
    }
}

/// The definition check of a source, before its single-grounding check.
pub open spec fn source_error(s: SpatialStructure, r: SpatialSourceRecord) -> Option<SpatialAssemblyError> {
    match r.shape {
        SpatialSourceShape::PhysicalGround { body } => if !body_listed(s.bodies@, body) {
            Some(SpatialAssemblyError::UnknownBody(body))
        } else {
            value_error(r.values)
        },
        SpatialSourceShape::BallJoint { first, second } => endpoint_error(point_pair(s, first, second)),
        SpatialSourceShape::PointDistanceMate { first, second } => first_of(endpoint_error(point_pair(s, first, second)), value_error(r.values)),
        SpatialSourceShape::FixedFrame { first, second } => endpoint_error(frame_pair(s, first, second)),
        SpatialSourceShape::RevoluteJoint { first, second, .. } => endpoint_error(frame_pair(s, first, second)),
        SpatialSourceShape::FrameOffsetMate { first, second } => first_of(endpoint_error(frame_pair(s, first, second)), value_error(r.values)),
        SpatialSourceShape::PrismaticJoint { first, second, .. } => endpoint_error(axis_pair(s, first, second)),
        SpatialSourceShape::CylindricalJoint { first, second, .. } => endpoint_error(axis_pair(s, first, second)),
        SpatialSourceShape::UniversalJoint { first, second } => endpoint_error(axis_pair(s, first, second)),
        SpatialSourceShape::AxisAlignmentMate { first, second, .. } => endpoint_error(axis_pair(s, first, second)),
        SpatialSourceShape::AxisAngleMate { first, second } => first_of(endpoint_error(axis_pair(s, first, second)), value_error(r.values)),
        SpatialSourceShape::PlanarJoint { first, second, .. } => endpoint_error(plane_pair(s, first, second)),
        SpatialSourceShape::HingePositionDriver { coordinate, winding, .. } => first_of(value_error(r.values), hinge_reference_error(s, coordinate, winding)),
        SpatialSourceShape::TranslationPositionDriver { coordinate, .. } => first_of(value_error(r.values), translation_reference_error(s, coordinate)),
    }
}

pub(crate) fn check_label(label: &str, field: &'static str) -> (error: Option<SpatialAssemblyError>)
    ensures
        error == label_error(label@, field),
{
    if trims_to_empty(label) {
        Some(SpatialAssemblyError::InvalidLabel { field })
    } else {
        None
    }
}

pub(crate) fn check_value(verdict: Option<SpatialValueRejection>) -> (error: Option<SpatialAssemblyError>)
    ensures
        error == value_error(verdict),
{
    match verdict {
        Some(rejection) => Some(SpatialAssemblyError::InvalidField { field: rejection.field, reason: SpatialFieldReason::Rejected(rejection.message) }),
        None => None,
    }
}

fn check_same_body(first: SpatialBodyId, second: SpatialBodyId) -> (error: Option<SpatialAssemblyError>)
    ensures
        error == same_body_error(first, second),
{
    if first == second {
        Some(SpatialAssemblyError::SameBodyJointEndpoints(first))
    } else {
        None
    }
}

pub(crate) fn resolve_point_pair(s: &SpatialStructure, first: SpatialPointFeatureId, second: SpatialPointFeatureId) -> (pair: Result<(SpatialBodyId, SpatialBodyId), SpatialAssemblyError>)
    ensures
        pair == point_pair(*s, first, second),
{
    match find_feature_body(&s.point_features, first) {
        None => Err(SpatialAssemblyError::UnknownPointFeature(first)),
        Some(a) => match find_feature_body(&s.point_features, second) {
            None => Err(SpatialAssemblyError::UnknownPointFeature(second)),
            Some(b) => Ok((a, b)),
        },
    }
}

pub(crate) fn resolve_frame_pair(s: &SpatialStructure, first: SpatialFrameFeatureId, second: SpatialFrameFeatureId) -> (pair: Result<(SpatialBodyId, SpatialBodyId), SpatialAssemblyError>)
    ensures
        pair == frame_pair(*s, first, second),
{
    match find_feature_body(&s.frame_features, first) {
        None => Err(SpatialAssemblyError::UnknownFrameFeature(first)),
        Some(a) => match find_feature_body(&s.frame_features, second) {
            None => Err(SpatialAssemblyError::UnknownFrameFeature(second)),
            Some(b) => Ok((a, b)),
        },
    }
}

pub(crate) fn resolve_axis_pair(s: &SpatialStructure, first: SpatialAxisFeatureId, second: SpatialAxisFeatureId) -> (pair: Result<(SpatialBodyId, SpatialBodyId), SpatialAssemblyError>)
    ensures
        pair == axis_pair(*s, first, second),
{
    match find_feature_body(&s.axis_features, first) {
        None => Err(SpatialAssemblyError::UnknownAxisFeature(first)),
        Some(a) => match find_feature_body(&s.axis_features, second) {
            None => Err(SpatialAssemblyError::UnknownAxisFeature(second)),
            Some(b) => Ok((a, b)),
        },
    }
}

pub(crate) fn resolve_plane_pair(s: &SpatialStructure, first: SpatialPlaneFeatureId, second: SpatialPlaneFeatureId) -> (pair: Result<(SpatialBodyId, SpatialBodyId), SpatialAssemblyError>)
    ensures
        pair == plane_pair(*s, first, second),
{
    match find_feature_body(&s.plane_features, first) {
        None => Err(SpatialAssemblyError::UnknownPlaneFeature(first)),
        Some(a) => match find_feature_body(&s.plane_features, second) {
            None => Err(SpatialAssemblyError::UnknownPlaneFeature(second)),
            Some(b) => Ok((a, b)),
        },
    }
}

pub(crate) fn check_endpoints(pair: Result<(SpatialBodyId, SpatialBodyId), SpatialAssemblyError>) -> (error: Option<SpatialAssemblyError>)
    ensures
        error == endpoint_error(pair),
{
    match pair {
        Err(error) => Some(error),
        Ok((a, b)) => check_same_body(a, b),
    }
}

/// The two bodies a hinge coordinate measures between, or why it does not resolve.
pub fn resolve_hinge_bodies(s: &SpatialStructure, coordinate: SpatialCoordinateId, kind: SpatialCoordinateKind) -> (pair: Result<(SpatialBodyId, SpatialBodyId), SpatialAssemblyError>)
    ensures
        pair == hinge_bodies(*s, coordinate, kind),
{
    match kind {
        SpatialCoordinateKind::Hinge { parent, .. } => match find_source_shape(&s.sources, parent) {
            None => Err(SpatialAssemblyError::UnknownSource(parent)),
            Some(shape) => match shape {
                SpatialSourceShape::RevoluteJoint { first, second, .. } => resolve_frame_pair(s, first, second),
                SpatialSourceShape::CylindricalJoint { first, second, .. } => resolve_axis_pair(s, first, second),
                SpatialSourceShape::PlanarJoint { first, second, .. } => resolve_plane_pair(s, first, second),
                _ => Err(SpatialAssemblyError::WrongCoordinateParent { source_id: parent, expected: "hinge" }),
            },
        },
        _ => Err(SpatialAssemblyError::WrongCoordinateKind { coordinate, expected: "hinge" }),
    }
}

/// The two bodies a translation coordinate measures between, or why it does not resolve.
pub fn resolve_translation_bodies(s: &SpatialStructure, coordinate: SpatialCoordinateId, kind: SpatialCoordinateKind) -> (pair: Result<(SpatialBodyId, SpatialBodyId), SpatialAssemblyError>)
    ensures
        pair == translation_bodies(*s, coordinate, kind),
{
    match kind {
        SpatialCoordinateKind::Hinge { .. } => Err(SpatialAssemblyError::WrongCoordinateKind { coordinate, expected: "translation" }),
        SpatialCoordinateKind::AxialTranslation { parent } => match find_source_shape(&s.sources, parent) {
            None => Err(SpatialAssemblyError::UnknownSource(parent)),
            Some(shape) => match shape {
                SpatialSourceShape::PrismaticJoint { first, second, .. } => resolve_axis_pair(s, first, second),
                SpatialSourceShape::CylindricalJoint { first, second, .. } => resolve_axis_pair(s, first, second),
                _ => Err(SpatialAssemblyError::WrongCoordinateParent { source_id: parent, expected: "axial translation" }),
            },
        },
        SpatialCoordinateKind::PlanarTranslation { parent, .. } => match find_source_shape(&s.sources, parent) {
            None => Err(SpatialAssemblyError::UnknownSource(parent)),
            Some(shape) => match shape {
                SpatialSourceShape::PlanarJoint { first, second, .. } => resolve_plane_pair(s, first, second),
                _ => Err(SpatialAssemblyError::WrongCoordinateParent { source_id: parent, expected: "planar translation" }),
            },
        },
    }
}

pub(crate) fn check_coordinate_parent(s: &SpatialStructure, kind: SpatialCoordinateKind) -> (error: Option<SpatialAssemblyError>)
    ensures
        error == coordinate_parent_error(*s, kind),
{
    match kind {
        SpatialCoordinateKind::Hinge { parent, .. } => match find_source_shape(&s.sources, parent) {
            None => Some(SpatialAssemblyError::UnknownSource(parent)),
            Some(shape) => match shape {
                SpatialSourceShape::RevoluteJoint { .. } | SpatialSourceShape::CylindricalJoint { .. } | SpatialSourceShape::PlanarJoint { .. } => None,
                _ => Some(SpatialAssemblyError::WrongCoordinateParent { source_id: parent, expected: "hinge" }),
            },
        },
        SpatialCoordinateKind::AxialTranslation { parent } => match find_source_shape(&s.sources, parent) {
            None => Some(SpatialAssemblyError::UnknownSource(parent)),
            Some(shape) => match shape {
                SpatialSourceShape::PrismaticJoint { .. } | SpatialSourceShape::CylindricalJoint { .. } => None,
                _ => Some(SpatialAssemblyError::WrongCoordinateParent { source_id: parent, expected: "axial translation" }),
            },
        },
        SpatialCoordinateKind::PlanarTranslation { parent, .. } => match find_source_shape(&s.sources, parent) {
            None => Some(SpatialAssemblyError::UnknownSource(parent)),
            Some(shape) => match shape {
                SpatialSourceShape::PlanarJoint { .. } => None,
                _ => Some(SpatialAssemblyError::WrongCoordinateParent { source_id: parent, expected: "planar translation" }),
            },
        },
    }
}

fn check_hinge_reference(s: &SpatialStructure, coordinate: SpatialCoordinateId, winding: i64) -> (error: Option<SpatialAssemblyError>)
    ensures
        error == hinge_reference_error(*s, coordinate, winding),
{
    match find_coordinate_kind(&s.coordinates, coordinate) {
        None => Some(SpatialAssemblyError::UnknownCoordinate(coordinate)),
        Some(kind) => match kind {
            SpatialCoordinateKind::Hinge { winding: coordinate_winding, .. } => if coordinate_winding != winding {
                Some(SpatialAssemblyError::WindingMismatch { coordinate, coordinate_winding, target_winding: winding })
            } else {
                match resolve_hinge_bodies(s, coordinate, kind) {
                    Ok(_) => None,
                    Err(error) => Some(error),
                }
            },
            _ => Some(SpatialAssemblyError::WrongCoordinateKind { coordinate, expected: "hinge" }),
        },
    }
}

fn check_translation_reference(s: &SpatialStructure, coordinate: SpatialCoordinateId) -> (error: Option<SpatialAssemblyError>)
    ensures
        error == translation_reference_error(*s, coordinate),
{
    match find_coordinate_kind(&s.coordinates, coordinate) {
        None => Some(SpatialAssemblyError::UnknownCoordinate(coordinate)),
        Some(kind) => match kind {
            SpatialCoordinateKind::Hinge { .. } => Some(SpatialAssemblyError::WrongCoordinateKind { coordinate, expected: "translation" }),
            _ => match resolve_translation_bodies(s, coordinate, kind) {
                Ok(_) => None,
                Err(error) => Some(error),
            },
        },
    }
}

pub(crate) fn check_monitor(s: &SpatialStructure, kind: SpatialModeMonitorKind) -> (error: Option<SpatialAssemblyError>)
    ensures
        error == monitor_error(*s, kind),
{
    match kind {
        SpatialModeMonitorKind::AxisParity { first, second, .. } => match resolve_axis_pair(s, first, second) {
            Ok(_) => None,
            Err(error) => Some(error),
        },
        SpatialModeMonitorKind::HingeWinding { coordinate, winding } => check_hinge_reference(s, coordinate, winding),
        SpatialModeMonitorKind::PlaneSide { plane, point, .. } => if find_feature_body(&s.plane_features, plane).is_none() {
            Some(SpatialAssemblyError::UnknownPlaneFeature(plane))
        } else if find_feature_body(&s.point_features, point).is_none() {
            Some(SpatialAssemblyError::UnknownPointFeature(point))
        } else {
            None
        },
        SpatialModeMonitorKind::SignedVolume { points, .. } => match crate::spatial::require_distinct_volume_points(points) {
            Err(error) => Some(error),
            Ok(()) => {
                let mut k: usize = 0;
                proof {
                    assert(points@.skip(0) =~= points@);
                }
                while k < 4
                    invariant
                        k <= 4,
                        points@.len() == 4,
                        unknown_point_error(*s, points@) == unknown_point_error(*s, points@.skip(k as int)),
                        monitor_error(*s, kind) == unknown_point_error(*s, points@),
                    decreases 4 - k,
                {
                    let point = points[k];
                    proof {
                        assert(point == points@[k as int]);
                        assert(points@.skip(k as int)[0] == point);
                        assert(points@.skip(k as int).drop_first() =~= points@.skip(k + 1));
                    }
                    let found = find_feature_body(&s.point_features, point);
                    if found.is_none() {
                        proof {
                            assert(points@.skip(k as int).len() > 0);
                            assert(unknown_point_error(*s, points@.skip(k as int)) == Some(SpatialAssemblyError::UnknownPointFeature(point)));
                        }
                        return Some(SpatialAssemblyError::UnknownPointFeature(point));
                    }
                    k = k + 1;
                }
                None
            },
        },
    }
}

fn check_source(s: &SpatialStructure, r: &SpatialSourceRecord) -> (error: Option<SpatialAssemblyError>)
    ensures
        error == source_error(*s, *r),
{
    match r.shape {
        SpatialSourceShape::PhysicalGround { body } => if !find_body(&s.bodies, body) {
            Some(SpatialAssemblyError::UnknownBody(body))
        } else {
            check_value(r.values)
        },
        SpatialSourceShape::BallJoint { first, second } => check_endpoints(resolve_point_pair(s, first, second)),
        SpatialSourceShape::PointDistanceMate { first, second } => match check_endpoints(resolve_point_pair(s, first, second)) {
            Some(error) => Some(error),
            None => check_value(r.values),
        },
        SpatialSourceShape::FixedFrame { first, second } => check_endpoints(resolve_frame_pair(s, first, second)),
        SpatialSourceShape::RevoluteJoint { first, second, .. } => check_endpoints(resolve_frame_pair(s, first, second)),
        SpatialSourceShape::FrameOffsetMate { first, second } => match check_endpoints(resolve_frame_pair(s, first, second)) {
            Some(error) => Some(error),
            None => check_value(r.values),
        },
        SpatialSourceShape::PrismaticJoint { first, second, .. } => check_endpoints(resolve_axis_pair(s, first, second)),
        SpatialSourceShape::CylindricalJoint { first, second, .. } => check_endpoints(resolve_axis_pair(s, first, second)),
        SpatialSourceShape::UniversalJoint { first, second } => check_endpoints(resolve_axis_pair(s, first, second)),
        SpatialSourceShape::AxisAlignmentMate { first, second, .. } => check_endpoints(resolve_axis_pair(s, first, second)),
        SpatialSourceShape::AxisAngleMate { first, second } => match check_endpoints(resolve_axis_pair(s, first, second)) {
            Some(error) => Some(error),
            None => check_value(r.values),
        },
        SpatialSourceShape::PlanarJoint { first, second, .. } => check_endpoints(resolve_plane_pair(s, first, second)),
        SpatialSourceShape::HingePositionDriver { coordinate, winding, .. } => match check_value(r.values) {
            Some(error) => Some(error),
            None => check_hinge_reference(s, coordinate, winding),
        },
        SpatialSourceShape::TranslationPositionDriver { coordinate, .. } => match check_value(r.values) {
            Some(error) => Some(error),
            None => check_translation_reference(s, coordinate),
        },
    }
}

// ---------------------------------------------------------------------------
// The walk over every identity-bearing record.

/// One identity-bearing record as the walk over all records checks it: a
/// rejection met before its identity is recorded, whether the identity belongs
/// to the assembly, its ordinal, a rejection met after, and the body it
/// physically grounds, if any.
pub struct IdentityCheck {
    pub before: Option<SpatialAssemblyError>,
    pub owned: bool,
    pub ordinal: u64,
    pub after: Option<SpatialAssemblyError>,
    pub ground: Option<SpatialBodyId>,
}

/// One step of the walk from the ordinals recorded so far and the keys of the
/// bodies grounded so far.
pub open spec fn identity_step(seen: Set<u64>, grounded: Set<u128>, check: IdentityCheck) -> Result<(Set<u64>, Set<u128>), SpatialAssemblyError> {
    if check.before is Some {
        Err(check.before->0)
    } else if !check.owned {
        Err(SpatialAssemblyError::InvalidField { field: "id", reason: SpatialFieldReason::ForeignId(check.ordinal) })
    } else if check.ordinal == 0 || seen.contains(check.ordinal) {
        Err(SpatialAssemblyError::InvalidField { field: "id", reason: SpatialFieldReason::ZeroOrDuplicateId(check.ordinal) })
    } else if check.after is Some {
        Err(check.after->0)
    } else {
        match check.ground {
            Some(body) => if grounded.contains(body_key(body)) {
                Err(SpatialAssemblyError::DuplicateGround(body))
            } else {
                Ok((seen.insert(check.ordinal), grounded.insert(body_key(body))))
            },
            None => Ok((seen.insert(check.ordinal), grounded)),
        }
    }
}

/// The walk over `checks` in order: the first rejection, or the recorded
/// ordinals and grounded body keys at the end.
pub open spec fn identity_walk(seen: Set<u64>, grounded: Set<u128>, checks: Seq<IdentityCheck>) -> Result<(Set<u64>, Set<u128>), SpatialAssemblyError>
    decreases checks.len(),
{
    if checks.len() == 0 {
        Ok((seen, grounded))
    } else {
        match identity_step(seen, grounded, checks[0]) {
            Err(error) => Err(error),
            Ok((next_seen, next_grounded)) => identity_walk(next_seen, next_grounded, checks.drop_first()),
        }
    }
}

pub(crate) proof fn lemma_walk_append(seen: Set<u64>, grounded: Set<u128>, first: Seq<IdentityCheck>, second: Seq<IdentityCheck>)
    ensures
        identity_walk(seen, grounded, first + second) == match identity_walk(seen, grounded, first) {
            Err(error) => Err(error),
            Ok((next_seen, next_grounded)) => identity_walk(next_seen, next_grounded, second),
        },
    decreases first.len(),
{
    if first.len() > 0 {
        assert((first + second)[0] == first[0]);
        assert((first + second).drop_first() =~= first.drop_first() + second);
        match identity_step(seen, grounded, first[0]) {
            Err(_) => {},
            Ok((next_seen, next_grounded)) => {
                lemma_walk_append(next_seen, next_grounded, first.drop_first(), second);
            },
        }
    } else {
        assert(first + second =~= second);
    }
}

/// The check of a body: label, then pose.
pub open spec fn body_check(s: SpatialStructure, r: SpatialBodyRecord) -> IdentityCheck {
    IdentityCheck {
        before: first_of(label_error(r.label@, "body"), value_error(r.pose)),
        owned: r.id.namespace == s.namespace,
        ordinal: r.id.ordinal,
        after: None,
        ground: None,
    }
}

/// The check of a feature: label, owning body, then local geometry.
pub open spec fn feature_check<Id: SpatialIdValue>(s: SpatialStructure, r: SpatialFeatureRecord<Id>, field: &'static str) -> IdentityCheck {
    IdentityCheck {
        before: first_of(
            label_error(r.label@, field),
            if body_listed(s.bodies@, r.body) {
                value_error(r.geometry)
            } else {
                Some(SpatialAssemblyError::UnknownBody(r.body))
            },
        ),
        owned: r.id.spec_namespace() == s.namespace,
        ordinal: r.id.spec_ordinal(),
        after: None,
        ground: None,
    }
}

/// The check of a coordinate: label, then after its identity, its parent.
pub open spec fn coordinate_check(s: SpatialStructure, c: SpatialCoordinate) -> IdentityCheck {
    IdentityCheck {
        before: label_error(c.label@, "coordinate"),
        owned: c.id.namespace == s.namespace,
        ordinal: c.id.ordinal,
        after: coordinate_parent_error(s, c.kind),
        ground: None,
    }
}

/// The check of a mode monitor: label, then after its identity, its definition.
pub open spec fn monitor_check(s: SpatialStructure, m: SpatialModeMonitor) -> IdentityCheck {
    IdentityCheck {
        before: label_error(m.label@, "mode monitor"),
        owned: m.id.namespace == s.namespace,
        ordinal: m.id.ordinal,
        after: monitor_error(s, m.kind),
        ground: None,
    }
}

/// The body a source grounds, if it is a physical ground.
pub open spec fn grounded_body(shape: SpatialSourceShape) -> Option<SpatialBodyId> {
    match shape {
        SpatialSourceShape::PhysicalGround { body } => Some(body),
        _ => None,
    }
}

/// The check of a source: label, then after its identity, its definition and
/// single grounding.
pub open spec fn source_check(s: SpatialStructure, r: SpatialSourceRecord) -> IdentityCheck {
    IdentityCheck {
        before: label_error(r.label@, "source"),
        owned: r.id.namespace == s.namespace,
        ordinal: r.id.ordinal,
        after: source_error(s, r),
        ground: grounded_body(r.shape),
    }
}

pub open spec fn body_checks(s: SpatialStructure) -> Seq<IdentityCheck> {
    s.bodies@.map_values(|r: SpatialBodyRecord| body_check(s, r))
}

pub open spec fn feature_checks<Id: SpatialIdValue>(s: SpatialStructure, features: Seq<SpatialFeatureRecord<Id>>, field: &'static str) -> Seq<IdentityCheck> {
    features.map_values(|r: SpatialFeatureRecord<Id>| feature_check(s, r, field))
}

pub open spec fn coordinate_checks(s: SpatialStructure) -> Seq<IdentityCheck> {
    s.coordinates@.map_values(|c: SpatialCoordinate| coordinate_check(s, c))
}

pub open spec fn monitor_checks(s: SpatialStructure) -> Seq<IdentityCheck> {
    s.mode_monitors@.map_values(|m: SpatialModeMonitor| monitor_check(s, m))
}

pub open spec fn source_checks(s: SpatialStructure) -> Seq<IdentityCheck> {
    s.sources@.map_values(|r: SpatialSourceRecord| source_check(s, r))
}

/// Every identity-bearing record in checking order: bodies, point, frame, axis
/// and plane features, coordinates, mode monitors, sources.
pub open spec fn structure_checks(s: SpatialStructure) -> Seq<IdentityCheck> {
    body_checks(s) + (feature_checks(s, s.point_features@, "point feature") + (feature_checks(s, s.frame_features@, "frame feature")
        + (feature_checks(s, s.axis_features@, "axis feature") + (feature_checks(s, s.plane_features@, "plane feature")
        + (coordinate_checks(s) + (monitor_checks(s) + source_checks(s)))))))
}

/// `maximum` is the largest recorded ordinal, or zero when none is recorded.
pub open spec fn bounds_ordinals(seen: Set<u64>, maximum: u64) -> bool {
    &&& !seen.contains(0)
    &&& forall|x: u64| #[trigger] seen.contains(x) ==> x <= maximum
    &&& maximum == 0 || seen.contains(maximum)
}

/// What a run of `checks` from `seen` and `grounded` returned, and left behind.
pub open spec fn walk_outcome(
    seen: Set<u64>,
    grounded: Set<u128>,
    checks: Seq<IdentityCheck>,
    result: Result<(), SpatialAssemblyError>,
    final_seen: Set<u64>,
    final_grounded: Set<u128>,
) -> bool {
    match identity_walk(seen, grounded, checks) {
        Ok((walked_seen, walked_grounded)) => result is Ok && final_seen == walked_seen && final_grounded == walked_grounded,
        Err(error) => result == Err::<(), _>(error),
    }
}

fn take_identity<T: SpatialIdValue>(
    seen: &mut std::collections::BTreeSet<u64>,
    grounded: &mut std::collections::BTreeSet<u128>,
    maximum: &mut u64,
    namespace: u64,
    before: Option<SpatialAssemblyError>,
    id: T,
    after: Option<SpatialAssemblyError>,
    ground: Option<SpatialBodyId>,
) -> (result: Result<(), SpatialAssemblyError>)
    requires
        bounds_ordinals(old(seen)@, *old(maximum)),
    ensures
        match identity_step(old(seen)@, old(grounded)@, IdentityCheck { before, owned: id.spec_namespace() == namespace, ordinal: id.spec_ordinal(), after, ground }) {
            Ok((next_seen, next_grounded)) => result is Ok && final(seen)@ == next_seen && final(grounded)@ == next_grounded,
            Err(error) => result == Err::<(), _>(error),
        },
        result is Ok ==> bounds_ordinals(final(seen)@, *final(maximum)),
{
    if let Some(error) = before {
        return Err(error);
    }
    let ordinal = id.ordinal();
    crate::spatial::require_owned_unique_id(seen, namespace, id)?;
    if let Some(error) = after {
        return Err(error);
    }
    if let Some(body) = ground {
        let key = crate::spatial::body_key_of(body);
        if grounded.contains(&key) {
            return Err(SpatialAssemblyError::DuplicateGround(body));
        }
        grounded.insert(key);
    }
    if ordinal > *maximum {
        *maximum = ordinal;
    }
    Ok(())
}


fn walk_bodies(s: &SpatialStructure,
    seen: &mut std::collections::BTreeSet<u64>,
    grounded: &mut std::collections::BTreeSet<u128>,
    maximum: &mut u64,
) -> (result: Result<(), SpatialAssemblyError>)
    requires
        bounds_ordinals(old(seen)@, *old(maximum)),
    ensures
        walk_outcome(old(seen)@, old(grounded)@, body_checks(*s), result, final(seen)@, final(grounded)@),
        result is Ok ==> bounds_ordinals(final(seen)@, *final(maximum)),
{
    let ghost checks = body_checks(*s);
    let mut i: usize = 0;
    proof {
        assert(checks.skip(0) =~= checks);
    }
    while i < s.bodies.len()
        invariant
            i <= s.bodies@.len(),
            checks == body_checks(*s),
            checks.len() == s.bodies@.len(),
            identity_walk(old(seen)@, old(grounded)@, checks) == identity_walk(seen@, grounded@, checks.skip(i as int)),
            bounds_ordinals(seen@, *maximum),
        decreases s.bodies@.len() - i,
    {
        let record = &s.bodies[i];
        proof {
            assert(checks.skip(i as int)[0] == checks[i as int]);
            assert(checks.skip(i as int).drop_first() =~= checks.skip(i + 1));
        }
        let before = match check_label(record.label.as_str(), "body") {
            Some(error) => Some(error),
            None => check_value(record.pose),
        };
        take_identity(seen, grounded, maximum, s.namespace, before, record.id, None, None)?;
        i = i + 1;
    }
    proof {
        assert(checks.skip(i as int).len() == 0);
    }
    Ok(())
}

fn walk_features<Id: SpatialIdValue>(s: &SpatialStructure, features: &Vec<SpatialFeatureRecord<Id>>, field: &'static str,
    seen: &mut std::collections::BTreeSet<u64>,
    grounded: &mut std::collections::BTreeSet<u128>,
    maximum: &mut u64,
) -> (result: Result<(), SpatialAssemblyError>)
    requires
        bounds_ordinals(old(seen)@, *old(maximum)),
    ensures
        walk_outcome(old(seen)@, old(grounded)@, feature_checks(*s, features@, field), result, final(seen)@, final(grounded)@),
        result is Ok ==> bounds_ordinals(final(seen)@, *final(maximum)),
{
    let ghost checks = feature_checks(*s, features@, field);
    let mut i: usize = 0;
    proof {
        assert(checks.skip(0) =~= checks);
    }
    while i < features.len()
        invariant
            i <= features@.len(),
            checks == feature_checks(*s, features@, field),
            checks.len() == features@.len(),
            identity_walk(old(seen)@, old(grounded)@, checks) == identity_walk(seen@, grounded@, checks.skip(i as int)),
            bounds_ordinals(seen@, *maximum),
        decreases features@.len() - i,
    {
        let record = &features[i];
        proof {
            assert(checks.skip(i as int)[0] == checks[i as int]);
            assert(checks.skip(i as int).drop_first() =~= checks.skip(i + 1));
        }
        let before = match check_label(record.label.as_str(), field) {
            Some(error) => Some(error),
            None => if find_body(&s.bodies, record.body) {
                check_value(record.geometry)
            } else {
                Some(SpatialAssemblyError::UnknownBody(record.body))
            },
        };
        take_identity(seen, grounded, maximum, s.namespace, before, record.id, None, None)?;
        i = i + 1;
    }
    proof {
        assert(checks.skip(i as int).len() == 0);
    }
    Ok(())
}

fn walk_coordinates(s: &SpatialStructure,
    seen: &mut std::collections::BTreeSet<u64>,
    grounded: &mut std::collections::BTreeSet<u128>,
    maximum: &mut u64,
) -> (result: Result<(), SpatialAssemblyError>)
    requires
        bounds_ordinals(old(seen)@, *old(maximum)),
    ensures
        walk_outcome(old(seen)@, old(grounded)@, coordinate_checks(*s), result, final(seen)@, final(grounded)@),
        result is Ok ==> bounds_ordinals(final(seen)@, *final(maximum)),
{
    let ghost checks = coordinate_checks(*s);
    let mut i: usize = 0;
    proof {
        assert(checks.skip(0) =~= checks);
    }
    while i < s.coordinates.len()
        invariant
            i <= s.coordinates@.len(),
            checks == coordinate_checks(*s),
            checks.len() == s.coordinates@.len(),
            identity_walk(old(seen)@, old(grounded)@, checks) == identity_walk(seen@, grounded@, checks.skip(i as int)),
            bounds_ordinals(seen@, *maximum),
        decreases s.coordinates@.len() - i,
    {
        let record = &s.coordinates[i];
        proof {
            assert(checks.skip(i as int)[0] == checks[i as int]);
            assert(checks.skip(i as int).drop_first() =~= checks.skip(i + 1));
        }
        let before = check_label(record.label.as_str(), "coordinate");
        let after = check_coordinate_parent(s, record.kind);
        take_identity(seen, grounded, maximum, s.namespace, before, record.id, after, None)?;
        i = i + 1;
    }
    proof {
        assert(checks.skip(i as int).len() == 0);
    }
    Ok(())
}

fn walk_monitors(s: &SpatialStructure,
    seen: &mut std::collections::BTreeSet<u64>,
    grounded: &mut std::collections::BTreeSet<u128>,
    maximum: &mut u64,
) -> (result: Result<(), SpatialAssemblyError>)
    requires
        bounds_ordinals(old(seen)@, *old(maximum)),
    ensures
        walk_outcome(old(seen)@, old(grounded)@, monitor_checks(*s), result, final(seen)@, final(grounded)@),
        result is Ok ==> bounds_ordinals(final(seen)@, *final(maximum)),
{
    let ghost checks = monitor_checks(*s);
    let mut i: usize = 0;
    proof {
        assert(checks.skip(0) =~= checks);
    }
    while i < s.mode_monitors.len()
        invariant
            i <= s.mode_monitors@.len(),
            checks == monitor_checks(*s),
            checks.len() == s.mode_monitors@.len(),
            identity_walk(old(seen)@, old(grounded)@, checks) == identity_walk(seen@, grounded@, checks.skip(i as int)),
            bounds_ordinals(seen@, *maximum),
        decreases s.mode_monitors@.len() - i,
    {
        let record = &s.mode_monitors[i];
        proof {
            assert(checks.skip(i as int)[0] == checks[i as int]);
            assert(checks.skip(i as int).drop_first() =~= checks.skip(i + 1));
        }
        let before = check_label(record.label.as_str(), "mode monitor");
        let after = check_monitor(s, record.kind);
        take_identity(seen, grounded, maximum, s.namespace, before, record.id, after, None)?;
        i = i + 1;
    }
    proof {
        assert(checks.skip(i as int).len() == 0);
    }
    Ok(())
}

fn walk_sources(s: &SpatialStructure,
    seen: &mut std::collections::BTreeSet<u64>,
    grounded: &mut std::collections::BTreeSet<u128>,
    maximum: &mut u64,
) -> (result: Result<(), SpatialAssemblyError>)
    requires
        bounds_ordinals(old(seen)@, *old(maximum)),
    ensures
        walk_outcome(old(seen)@, old(grounded)@, source_checks(*s), result, final(seen)@, final(grounded)@),
        result is Ok ==> bounds_ordinals(final(seen)@, *final(maximum)),
{
    let ghost checks = source_checks(*s);
    let mut i: usize = 0;
    proof {
        assert(checks.skip(0) =~= checks);
    }
    while i < s.sources.len()
        invariant
            i <= s.sources@.len(),
            checks == source_checks(*s),
            checks.len() == s.sources@.len(),
            identity_walk(old(seen)@, old(grounded)@, checks) == identity_walk(seen@, grounded@, checks.skip(i as int)),
            bounds_ordinals(seen@, *maximum),
        decreases s.sources@.len() - i,
    {
        let record = &s.sources[i];
        proof {
            assert(checks.skip(i as int)[0] == checks[i as int]);
            assert(checks.skip(i as int).drop_first() =~= checks.skip(i + 1));
        }
        let before = check_label(record.label.as_str(), "source");
        let after = check_source(s, record);
        let ground = match record.shape {
            SpatialSourceShape::PhysicalGround { body } => Some(body),
            _ => None,
        };
        take_identity(seen, grounded, maximum, s.namespace, before, record.id, after, ground)?;
        i = i + 1;
    }
    proof {
        assert(checks.skip(i as int).len() == 0);
    }
    Ok(())
}

// ---------------------------------------------------------------------------
// Driver targets and the whole discrete check.

/// Whether a later driver disagrees with an earlier one of the same kind on
/// the same coordinate: a hinge target by winding or principal phase, a
/// translation target by value.
pub open spec fn targets_conflict(earlier: SpatialSourceShape, later: SpatialSourceShape) -> bool {
    match earlier {
        SpatialSourceShape::HingePositionDriver { coordinate: a, winding: wa, phase_bits: pa } => match later {
            SpatialSourceShape::HingePositionDriver { coordinate: b, winding: wb, phase_bits: pb } => a == b && (wa != wb || pa != pb),
            _ => false,
        },
        SpatialSourceShape::TranslationPositionDriver { coordinate: a, target_bits: ta } => match later {
            SpatialSourceShape::TranslationPositionDriver { coordinate: b, target_bits: tb } => a == b && ta != tb,
            _ => false,
        },
        _ => false,
    }
}

/// The coordinate a driver drives.
pub open spec fn driven_coordinate(shape: SpatialSourceShape) -> SpatialCoordinateId {
    match shape {
        SpatialSourceShape::HingePositionDriver { coordinate, .. } => coordinate,
        SpatialSourceShape::TranslationPositionDriver { coordinate, .. } => coordinate,
        _ => SpatialCoordinateId { namespace: 0, ordinal: 0 },
    }
}

/// From position `j` on, the coordinate of the first driver whose target
/// disagrees with an earlier driver's.
pub open spec fn driver_conflict_from(sources: Seq<SpatialSourceRecord>, j: int) -> Option<SpatialCoordinateId>
    decreases sources.len() - j,
{
    if j < 0 || j >= sources.len() {
        None
    } else if exists|i: int| 0 <= i < j && #[trigger] targets_conflict(sources[i].shape, sources[j].shape) {
        Some(driven_coordinate(sources[j].shape))
    } else {
        driver_conflict_from(sources, j + 1)
    }
}

/// The coordinate of the first driver whose target disagrees with an earlier
/// driver's of the same kind and coordinate.
pub open spec fn driver_conflict(sources: Seq<SpatialSourceRecord>) -> Option<SpatialCoordinateId> {
    driver_conflict_from(sources, 0)
}

pub(crate) fn conflicting_targets(earlier: SpatialSourceShape, later: SpatialSourceShape) -> (conflict: bool)
    ensures
        conflict == targets_conflict(earlier, later),
{
    match earlier {
        SpatialSourceShape::HingePositionDriver { coordinate: a, winding: wa, phase_bits: pa } => match later {
            SpatialSourceShape::HingePositionDriver { coordinate: b, winding: wb, phase_bits: pb } => a == b && (wa != wb || pa != pb),
            _ => false,
        },
        SpatialSourceShape::TranslationPositionDriver { coordinate: a, target_bits: ta } => match later {
            SpatialSourceShape::TranslationPositionDriver { coordinate: b, target_bits: tb } => a == b && ta != tb,
            _ => false,
        },
        _ => false,
    }
}

/// Rejects the first driver whose target disagrees with an earlier driver of
/// the same kind on the same coordinate.
pub fn check_driver_targets(sources: &Vec<SpatialSourceRecord>) -> (result: Result<(), SpatialAssemblyError>)
    ensures
        match driver_conflict(sources@) {
            Some(coordinate) => result == Err::<(), _>(SpatialAssemblyError::IncompatibleDriverTargets { coordinate }),
            None => result is Ok,
        },
{
    let mut j: usize = 0;
    while j < sources.len()
        invariant
            j <= sources@.len(),
            driver_conflict(sources@) == driver_conflict_from(sources@, j as int),
        decreases sources@.len() - j,
    {
        let later = sources[j].shape;
        let mut i: usize = 0;
        while i < j
            invariant
                i <= j < sources@.len(),
                later == sources@[j as int].shape,
                driver_conflict(sources@) == driver_conflict_from(sources@, j as int),
                forall|k: int| 0 <= k < i ==> !targets_conflict(#[trigger] sources@[k].shape, later),
            decreases j - i,
        {
            if conflicting_targets(sources[i].shape, later) {
                let coordinate = match later {
                    SpatialSourceShape::HingePositionDriver { coordinate, .. } => coordinate,
                    SpatialSourceShape::TranslationPositionDriver { coordinate, .. } => coordinate,
                    _ => SpatialCoordinateId { namespace: 0, ordinal: 0 },
                };
                proof {
                    assert(targets_conflict(sources@[i as int].shape, sources@[j as int].shape));
                }
                return Err(SpatialAssemblyError::IncompatibleDriverTargets { coordinate });
            }
            i = i + 1;
        }
        proof {
            assert(!exists|k: int| 0 <= k < j && #[trigger] targets_conflict(sources@[k].shape, sources@[j as int].shape));
        }
        j = j + 1;
    }
    Ok(())
}

/// The first structural rejection of the discrete structure, in this order: a
/// zero namespace; over bodies, point, frame, axis and plane features,
/// coordinates, mode monitors and sources in turn, each record's checks and
/// identity; disagreeing driver targets; a next identity that does not exceed
/// every recorded one.
pub open spec fn structure_error(s: SpatialStructure) -> Option<SpatialAssemblyError> {
    if s.namespace == 0 {
        Some(SpatialAssemblyError::InvalidField { field: "namespace", reason: SpatialFieldReason::ZeroNamespace })
    } else {
        match identity_walk(Set::empty(), Set::empty(), structure_checks(s)) {
            Err(error) => Some(error),
            Ok((seen, _)) => match driver_conflict(s.sources@) {
                Some(coordinate) => Some(SpatialAssemblyError::IncompatibleDriverTargets { coordinate }),
                None => if exists|x: u64| seen.contains(x) && s.next_id <= x {
                    Some(SpatialAssemblyError::InvalidField { field: "next_id", reason: SpatialFieldReason::NextIdNotAbove })
                } else {
                    None
                },
            },
        }
    }
}

/// Runs the discrete structural checks of `s`.
pub fn check_structure(s: &SpatialStructure) -> (result: Result<(), SpatialAssemblyError>)
    ensures
        match structure_error(*s) {
            Some(error) => result == Err::<(), _>(error),
            None => result is Ok,
        },
{
    if s.namespace == 0 {
        return Err(SpatialAssemblyError::InvalidField { field: "namespace", reason: SpatialFieldReason::ZeroNamespace });
    }
    let mut seen: std::collections::BTreeSet<u64> = std::collections::BTreeSet::new();
    let mut grounded: std::collections::BTreeSet<u128> = std::collections::BTreeSet::new();
    let mut maximum: u64 = 0;
    let ghost sc = *s;
    let ghost r7 = monitor_checks(sc) + source_checks(sc);
    let ghost r6 = coordinate_checks(sc) + r7;
    let ghost r5 = feature_checks(sc, sc.plane_features@, "plane feature") + r6;
    let ghost r4 = feature_checks(sc, sc.axis_features@, "axis feature") + r5;
    let ghost r3 = feature_checks(sc, sc.frame_features@, "frame feature") + r4;
    let ghost r2 = feature_checks(sc, sc.point_features@, "point feature") + r3;
    proof {
        assert(seen@ =~= Set::<u64>::empty());
        assert(grounded@ =~= Set::<u128>::empty());
        assert(structure_checks(sc) == body_checks(sc) + r2);
        lemma_walk_append(seen@, grounded@, body_checks(sc), r2);
    }
    walk_bodies(s, &mut seen, &mut grounded, &mut maximum)?;
    proof {
        lemma_walk_append(seen@, grounded@, feature_checks(sc, sc.point_features@, "point feature"), r3);
    }
    walk_features(s, &s.point_features, "point feature", &mut seen, &mut grounded, &mut maximum)?;
    proof {
        lemma_walk_append(seen@, grounded@, feature_checks(sc, sc.frame_features@, "frame feature"), r4);
    }
    walk_features(s, &s.frame_features, "frame feature", &mut seen, &mut grounded, &mut maximum)?;
    proof {
        lemma_walk_append(seen@, grounded@, feature_checks(sc, sc.axis_features@, "axis feature"), r5);
    }
    walk_features(s, &s.axis_features, "axis feature", &mut seen, &mut grounded, &mut maximum)?;
    proof {
        lemma_walk_append(seen@, grounded@, feature_checks(sc, sc.plane_features@, "plane feature"), r6);
    }
    walk_features(s, &s.plane_features, "plane feature", &mut seen, &mut grounded, &mut maximum)?;
    proof {
        lemma_walk_append(seen@, grounded@, coordinate_checks(sc), r7);
    }
    walk_coordinates(s, &mut seen, &mut grounded, &mut maximum)?;
    proof {
        lemma_walk_append(seen@, grounded@, monitor_checks(sc), source_checks(sc));
    }
    walk_monitors(s, &mut seen, &mut grounded, &mut maximum)?;
    walk_sources(s, &mut seen, &mut grounded, &mut maximum)?;
    proof {
        assert(identity_walk(Set::empty(), Set::empty(), structure_checks(sc)) == Ok::<(Set<u64>, Set<u128>), SpatialAssemblyError>((seen@, grounded@)));
    }
    check_driver_targets(&s.sources)?;
    if maximum != 0 && s.next_id <= maximum {
        proof {
            assert(seen@.contains(maximum));
        }
        return Err(SpatialAssemblyError::InvalidField { field: "next_id", reason: SpatialFieldReason::NextIdNotAbove });
    }
    proof {
        assert(!exists|x: u64| seen@.contains(x) && s.next_id <= x) by {
            if exists|x: u64| seen@.contains(x) && s.next_id <= x {
                let x = choose|x: u64| seen@.contains(x) && s.next_id <= x;
                assert(x <= maximum);
            }
        }
    }
    Ok(())
}

// ---------------------------------------------------------------------------
// Incidence: the bodies each source and mode monitor touches.

/// `body` inserted into bodies ascending by identity, unless already there.
pub open spec fn insert_body(sorted: Seq<SpatialBodyId>, body: SpatialBodyId) -> Seq<SpatialBodyId>
    decreases sorted.len(),
{
    if sorted.len() == 0 {
        seq![body]
    } else if body_key(body) == body_key(sorted[0]) {
        sorted
    } else if body_key(body) < body_key(sorted[0]) {
        seq![body] + sorted
    } else {
        seq![sorted[0]] + insert_body(sorted.drop_first(), body)
    }
}

/// The bodies of `raw`, ascending by identity, each once.
pub open spec fn sorted_bodies(raw: Seq<SpatialBodyId>) -> Seq<SpatialBodyId>
    decreases raw.len(),
{
    if raw.len() == 0 {
        Seq::empty()
    } else {
        insert_body(sorted_bodies(raw.drop_last()), raw.last())
    }
}

proof fn lemma_insert_body(sorted: Seq<SpatialBodyId>, body: SpatialBodyId)
    requires
        strictly_increasing(body_keys(sorted)),
    ensures
        strictly_increasing(body_keys(insert_body(sorted, body))),
        forall|x: SpatialBodyId| #[trigger] insert_body(sorted, body).contains(x) <==> (sorted.contains(x) || x == body),
        insert_body(sorted, body).len() > 0,
    decreases sorted.len(),
{
    let result = insert_body(sorted, body);
    if sorted.len() == 0 {
        assert(body_keys(result) =~= seq![body_key(body)]);
        assert forall|x: SpatialBodyId| #[trigger] result.contains(x) <==> (sorted.contains(x) || x == body) by {
            if result.contains(x) {
                assert(result[0] == body);
            }
            if x == body {
                assert(result[0] == x);
            }
        }
    } else if body_key(body) == body_key(sorted[0]) {
        lemma_body_key_injective(body, sorted[0]);
        assert(sorted[0] == body);
    } else if body_key(body) < body_key(sorted[0]) {
        assert(body_keys(result) =~= seq![body_key(body)] + body_keys(sorted));
        assert forall|i: int, j: int| 0 <= i < j < body_keys(result).len() implies body_keys(result)[i] < body_keys(result)[j] by {
            if i > 0 {
                assert(body_keys(result)[i] == body_keys(sorted)[i - 1]);
            } else if j > 1 {
                assert(body_keys(sorted)[0] < body_keys(sorted)[j - 1]);
            }
        }
        assert forall|x: SpatialBodyId| #[trigger] result.contains(x) <==> (sorted.contains(x) || x == body) by {
            if result.contains(x) {
                let k = choose|k: int| 0 <= k < result.len() && result[k] == x;
                if k > 0 {
                    assert(sorted[k - 1] == x);
                }
            }
            if sorted.contains(x) {
                let k = choose|k: int| 0 <= k < sorted.len() && sorted[k] == x;
                assert(result[k + 1] == x);
            }
            if x == body {
                assert(result[0] == x);
            }
        }
    } else {
        let rest = sorted.drop_first();
        assert(body_keys(rest) =~= body_keys(sorted).drop_first());
        lemma_insert_body(rest, body);
        let inserted = insert_body(rest, body);
        assert(body_keys(result) =~= seq![body_key(sorted[0])] + body_keys(inserted));
        assert forall|m: int| 0 <= m < inserted.len() implies body_key(sorted[0]) < #[trigger] body_keys(inserted)[m] by {
            let x = inserted[m];
            assert(inserted.contains(x));
            if x != body {
                assert(rest.contains(x));
                let k = choose|k: int| 0 <= k < rest.len() && rest[k] == x;
                assert(body_keys(sorted)[0] < body_keys(sorted)[k + 1]);
            }
        }
        assert forall|i: int, j: int| 0 <= i < j < body_keys(result).len() implies body_keys(result)[i] < body_keys(result)[j] by {
            if i > 0 {
                assert(body_keys(result)[i] == body_keys(inserted)[i - 1]);
                assert(body_keys(result)[j] == body_keys(inserted)[j - 1]);
            } else {
                assert(body_keys(result)[j] == body_keys(inserted)[j - 1]);
            }
        }
        assert forall|x: SpatialBodyId| #[trigger] result.contains(x) <==> (sorted.contains(x) || x == body) by {
            if result.contains(x) {
                let k = choose|k: int| 0 <= k < result.len() && result[k] == x;
                if k > 0 {
                    assert(inserted[k - 1] == x);
                    assert(inserted.contains(x));
                    if x != body {
                        let q = choose|q: int| 0 <= q < rest.len() && rest[q] == x;
                        assert(sorted[q + 1] == x);
                    }
                } else {
                    assert(sorted[0] == x);
                }
            }
            if sorted.contains(x) {
                let k = choose|k: int| 0 <= k < sorted.len() && sorted[k] == x;
                if k == 0 {
                    assert(result[0] == x);
                } else {
                    assert(rest[k - 1] == x);
                    assert(rest.contains(x));
                    assert(inserted.contains(x));
                    let q = choose|q: int| 0 <= q < inserted.len() && inserted[q] == x;
                    assert(result[q + 1] == x);
                }
            }
            if x == body {
                assert(inserted.contains(x));
                let q = choose|q: int| 0 <= q < inserted.len() && inserted[q] == x;
                assert(result[q + 1] == x);
            }
        }
    }
}

proof fn lemma_sorted_bodies(raw: Seq<SpatialBodyId>)
    ensures
        strictly_increasing(body_keys(sorted_bodies(raw))),
        forall|x: SpatialBodyId| #[trigger] sorted_bodies(raw).contains(x) <==> raw.contains(x),
        raw.len() > 0 ==> sorted_bodies(raw).len() > 0,
    decreases raw.len(),
{
    if raw.len() > 0 {
        lemma_sorted_bodies(raw.drop_last());
        lemma_insert_body(sorted_bodies(raw.drop_last()), raw.last());
        assert forall|x: SpatialBodyId| #[trigger] sorted_bodies(raw).contains(x) <==> raw.contains(x) by {
            if raw.contains(x) && x != raw.last() {
                let k = choose|k: int| 0 <= k < raw.len() && raw[k] == x;
                assert(raw.drop_last()[k] == x);
            }
            if raw.drop_last().contains(x) {
                let k = choose|k: int| 0 <= k < raw.drop_last().len() && raw.drop_last()[k] == x;
                assert(raw[k] == x);
            }
        }
    } else {
        assert(body_keys(sorted_bodies(raw)) =~= Seq::<u128>::empty());
    }
}

fn insert_body_sorted(sorted: &mut Vec<SpatialBodyId>, body: SpatialBodyId)
    ensures
        final(sorted)@ == insert_body(old(sorted)@, body),
{
    let key = crate::spatial::body_key_of(body);
    let ghost original = sorted@;
    let mut i: usize = 0;
    proof {
        assert(original.skip(0) =~= original);
        assert(original.take(0) + insert_body(original.skip(0), body) =~= insert_body(original, body));
    }
    while i < sorted.len()
        invariant
            i <= sorted@.len(),
            sorted@ == original,
            original == old(sorted)@,
            key == body_key(body),
            insert_body(original, body) == original.take(i as int) + insert_body(original.skip(i as int), body),
        decreases sorted@.len() - i,
    {
        let here = crate::spatial::body_key_of(sorted[i]);
        proof {
            assert(original.skip(i as int)[0] == original[i as int]);
            assert(original.skip(i as int).drop_first() =~= original.skip(i + 1));
        }
        if here == key {
            proof {
                assert(original.take(i as int) + original.skip(i as int) =~= original);
            }
            return;
        }
        if key < here {
            sorted.insert(i, body);
            proof {
                assert(original.take(i as int) + (seq![body] + original.skip(i as int)) =~= original.insert(i as int, body));
            }
            return;
        }
        proof {
            assert(original.take(i as int) + (seq![original[i as int]] + insert_body(original.skip(i + 1), body))
                =~= original.take(i + 1) + insert_body(original.skip(i + 1), body));
        }
        i = i + 1;
    }
    proof {
        assert(original.skip(i as int) =~= Seq::<SpatialBodyId>::empty());
        assert(original.take(i as int) + seq![body] =~= original.push(body));
    }
    sorted.push(body);
}

fn sort_bodies(raw: &Vec<SpatialBodyId>) -> (sorted: Vec<SpatialBodyId>)
    ensures
        sorted@ == sorted_bodies(raw@),
{
    let mut sorted: Vec<SpatialBodyId> = Vec::new();
    let mut i: usize = 0;
    proof {
        assert(raw@.take(0) =~= Seq::<SpatialBodyId>::empty());
    }
    while i < raw.len()
        invariant
            i <= raw@.len(),
            sorted@ == sorted_bodies(raw@.take(i as int)),
        decreases raw@.len() - i,
    {
        proof {
            assert(raw@.take(i + 1).drop_last() =~= raw@.take(i as int));
            assert(raw@.take(i + 1).last() == raw@[i as int]);
        }
        insert_body_sorted(&mut sorted, raw[i]);
        i = i + 1;
    }
    proof {
        assert(raw@.take(i as int) =~= raw@);
    }
    sorted
}

/// The two bodies of a resolved pair, or none.
pub open spec fn pair_list(pair: Result<(SpatialBodyId, SpatialBodyId), SpatialAssemblyError>) -> Seq<SpatialBodyId> {
    match pair {
        Ok((a, b)) => seq![a, b],
        Err(_) => Seq::empty(),
    }
}

/// The bodies of a plane and a point feature, or the first unknown one.
pub open spec fn plane_point_pair(s: SpatialStructure, plane: SpatialPlaneFeatureId, point: SpatialPointFeatureId) -> Result<(SpatialBodyId, SpatialBodyId), SpatialAssemblyError> {
    match feature_body(s.plane_features@, plane) {
        None => Err(SpatialAssemblyError::UnknownPlaneFeature(plane)),
        Some(a) => match feature_body(s.point_features@, point) {
            None => Err(SpatialAssemblyError::UnknownPointFeature(point)),
            Some(b) => Ok((a, b)),
        },
    }
}

/// The bodies of the listed point features that exist, in order.
pub open spec fn point_bodies(s: SpatialStructure, points: Seq<SpatialPointFeatureId>) -> Seq<SpatialBodyId>
    decreases points.len(),
{
    if points.len() == 0 {
        Seq::empty()
    } else {
        match feature_body(s.point_features@, points[0]) {
            Some(b) => seq![b] + point_bodies(s, points.drop_first()),
            None => point_bodies(s, points.drop_first()),
        }
    }
}

/// The bodies a hinge or translation coordinate measures between, or none.
pub open spec fn coordinate_bodies(s: SpatialStructure, coordinate: SpatialCoordinateId, hinge: bool) -> Seq<SpatialBodyId> {
    match coordinate_kind(s.coordinates@, coordinate) {
        None => Seq::empty(),
        Some(kind) => if hinge {
            pair_list(hinge_bodies(s, coordinate, kind))
        } else {
            pair_list(translation_bodies(s, coordinate, kind))
        },
    }
}

/// The bodies a source touches, in definition order.
pub open spec fn source_touches(s: SpatialStructure, shape: SpatialSourceShape) -> Seq<SpatialBodyId> {
    match shape {
        SpatialSourceShape::PhysicalGround { body } => seq![body],
        SpatialSourceShape::BallJoint { first, second } => pair_list(point_pair(s, first, second)),
        SpatialSourceShape::PointDistanceMate { first, second } => pair_list(point_pair(s, first, second)),
        SpatialSourceShape::FixedFrame { first, second } => pair_list(frame_pair(s, first, second)),
        SpatialSourceShape::RevoluteJoint { first, second, .. } => pair_list(frame_pair(s, first, second)),
        SpatialSourceShape::FrameOffsetMate { first, second } => pair_list(frame_pair(s, first, second)),
        SpatialSourceShape::PrismaticJoint { first, second, .. } => pair_list(axis_pair(s, first, second)),
        SpatialSourceShape::CylindricalJoint { first, second, .. } => pair_list(axis_pair(s, first, second)),
        SpatialSourceShape::UniversalJoint { first, second } => pair_list(axis_pair(s, first, second)),
        SpatialSourceShape::AxisAngleMate { first, second } => pair_list(axis_pair(s, first, second)),
        SpatialSourceShape::AxisAlignmentMate { first, second, .. } => pair_list(axis_pair(s, first, second)),
        SpatialSourceShape::PlanarJoint { first, second, .. } => pair_list(plane_pair(s, first, second)),
        SpatialSourceShape::HingePositionDriver { coordinate, .. } => coordinate_bodies(s, coordinate, true),
        SpatialSourceShape::TranslationPositionDriver { coordinate, .. } => coordinate_bodies(s, coordinate, false),
    }
}

/// The bodies a mode monitor touches, in definition order.
pub open spec fn monitor_touches(s: SpatialStructure, kind: SpatialModeMonitorKind) -> Seq<SpatialBodyId> {
    match kind {
        SpatialModeMonitorKind::AxisParity { first, second, .. } => pair_list(axis_pair(s, first, second)),
        SpatialModeMonitorKind::HingeWinding { coordinate, .. } => coordinate_bodies(s, coordinate, true),
        SpatialModeMonitorKind::PlaneSide { plane, point, .. } => pair_list(plane_point_pair(s, plane, point)),
        SpatialModeMonitorKind::SignedVolume { points, .. } => point_bodies(s, points@),
    }
}

/// `incidences` lists, for each source in order, its identity, the bodies it
/// touches ascending and each once, and whether it is a physical ground.
pub open spec fn source_incidences(s: SpatialStructure, incidences: Seq<SpatialIncidence<SpatialSourceId>>) -> bool {
    &&& incidences.len() == s.sources@.len()
    &&& forall|k: int| 0 <= k < incidences.len() ==> {
        &&& (#[trigger] incidences[k]).id == s.sources@[k].id
        &&& incidences[k].bodies@ == sorted_bodies(source_touches(s, s.sources@[k].shape))
        &&& incidences[k].ground == (s.sources@[k].shape is PhysicalGround)
    }
}

/// `incidences` lists, for each mode monitor in order, its identity and the
/// bodies it touches ascending and each once.
pub open spec fn monitor_incidences(s: SpatialStructure, incidences: Seq<SpatialIncidence<SpatialModeMonitorId>>) -> bool {
    &&& incidences.len() == s.mode_monitors@.len()
    &&& forall|k: int| 0 <= k < incidences.len() ==> {
        &&& (#[trigger] incidences[k]).id == s.mode_monitors@[k].id
        &&& incidences[k].bodies@ == sorted_bodies(monitor_touches(s, s.mode_monitors@[k].kind))
        &&& !incidences[k].ground
    }
}

fn pair_vec(pair: Result<(SpatialBodyId, SpatialBodyId), SpatialAssemblyError>) -> (bodies: Vec<SpatialBodyId>)
    ensures
        bodies@ == pair_list(pair),
{
    match pair {
        Ok((a, b)) => {
            let v = vec![a, b];
            proof {
                assert(v@ =~= seq![a, b]);
            }
            v
        },
        Err(_) => Vec::new(),
    }
}

fn touched_by_coordinate(s: &SpatialStructure, coordinate: SpatialCoordinateId, hinge: bool) -> (bodies: Vec<SpatialBodyId>)
    ensures
        bodies@ == coordinate_bodies(*s, coordinate, hinge),
{
    match find_coordinate_kind(&s.coordinates, coordinate) {
        None => Vec::new(),
        Some(kind) => if hinge {
            pair_vec(resolve_hinge_bodies(s, coordinate, kind))
        } else {
            pair_vec(resolve_translation_bodies(s, coordinate, kind))
        },
    }
}

fn touched_by_source(s: &SpatialStructure, shape: SpatialSourceShape) -> (bodies: Vec<SpatialBodyId>)
    ensures
        bodies@ == source_touches(*s, shape),
{
    match shape {
        SpatialSourceShape::PhysicalGround { body } => {
            let v = vec![body];
            proof {
                assert(v@ =~= seq![body]);
            }
            v
        },
        SpatialSourceShape::BallJoint { first, second } => pair_vec(resolve_point_pair(s, first, second)),
        SpatialSourceShape::PointDistanceMate { first, second } => pair_vec(resolve_point_pair(s, first, second)),
        SpatialSourceShape::FixedFrame { first, second } => pair_vec(resolve_frame_pair(s, first, second)),
        SpatialSourceShape::RevoluteJoint { first, second, .. } => pair_vec(resolve_frame_pair(s, first, second)),
        SpatialSourceShape::FrameOffsetMate { first, second } => pair_vec(resolve_frame_pair(s, first, second)),
        SpatialSourceShape::PrismaticJoint { first, second, .. } => pair_vec(resolve_axis_pair(s, first, second)),
        SpatialSourceShape::CylindricalJoint { first, second, .. } => pair_vec(resolve_axis_pair(s, first, second)),
        SpatialSourceShape::UniversalJoint { first, second } => pair_vec(resolve_axis_pair(s, first, second)),
        SpatialSourceShape::AxisAngleMate { first, second } => pair_vec(resolve_axis_pair(s, first, second)),
        SpatialSourceShape::AxisAlignmentMate { first, second, .. } => pair_vec(resolve_axis_pair(s, first, second)),
        SpatialSourceShape::PlanarJoint { first, second, .. } => pair_vec(resolve_plane_pair(s, first, second)),
        SpatialSourceShape::HingePositionDriver { coordinate, .. } => touched_by_coordinate(s, coordinate, true),
        SpatialSourceShape::TranslationPositionDriver { coordinate, .. } => touched_by_coordinate(s, coordinate, false),
    }
}

fn touched_by_monitor(s: &SpatialStructure, kind: SpatialModeMonitorKind) -> (bodies: Vec<SpatialBodyId>)
    ensures
        bodies@ == monitor_touches(*s, kind),
{
    match kind {
        SpatialModeMonitorKind::AxisParity { first, second, .. } => pair_vec(resolve_axis_pair(s, first, second)),
        SpatialModeMonitorKind::HingeWinding { coordinate, .. } => touched_by_coordinate(s, coordinate, true),
        SpatialModeMonitorKind::PlaneSide { plane, point, .. } => {
            let pair = match find_feature_body(&s.plane_features, plane) {
                None => Err(SpatialAssemblyError::UnknownPlaneFeature(plane)),
                Some(a) => match find_feature_body(&s.point_features, point) {
                    None => Err(SpatialAssemblyError::UnknownPointFeature(point)),
                    Some(b) => Ok((a, b)),
                },
            };
            pair_vec(pair)
        },
        SpatialModeMonitorKind::SignedVolume { points, .. } => {
            let mut bodies: Vec<SpatialBodyId> = Vec::new();
            let mut k: usize = 4;
            proof {
                assert(points@.skip(4) =~= Seq::<SpatialPointFeatureId>::empty());
            }
            while k > 0
                invariant
                    k <= 4,
                    points@.len() == 4,
                    bodies@ == point_bodies(*s, points@.skip(k as int)),
                    monitor_touches(*s, kind) == point_bodies(*s, points@),
                decreases k,
            {
                k = k - 1;
                let point = points[k];
                proof {
                    assert(point == points@[k as int]);
                    assert(points@.skip(k as int)[0] == point);
                    assert(points@.skip(k as int).drop_first() =~= points@.skip(k + 1));
                }
                match find_feature_body(&s.point_features, point) {
                    Some(b) => {
                        bodies.insert(0, b);
                        proof {
                            assert(bodies@ =~= seq![b] + point_bodies(*s, points@.skip(k + 1)));
                        }
                    },
                    None => {},
                }
            }
            proof {
                assert(points@.skip(0) =~= points@);
            }
            bodies
        },
    }
}

/// The incidence of every source, in order.
pub fn incidences_of_sources(s: &SpatialStructure) -> (incidences: Vec<SpatialIncidence<SpatialSourceId>>)
    ensures
        source_incidences(*s, incidences@),
{
    let mut incidences: Vec<SpatialIncidence<SpatialSourceId>> = Vec::new();
    let mut k: usize = 0;
    while k < s.sources.len()
        invariant
            k <= s.sources@.len(),
            incidences@.len() == k,
            forall|q: int| 0 <= q < k ==> {
                &&& (#[trigger] incidences@[q]).id == s.sources@[q].id
                &&& incidences@[q].bodies@ == sorted_bodies(source_touches(*s, s.sources@[q].shape))
                &&& incidences@[q].ground == (s.sources@[q].shape is PhysicalGround)
            },
        decreases s.sources@.len() - k,
    {
        let record = &s.sources[k];
        let touched = touched_by_source(s, record.shape);
        let bodies = sort_bodies(&touched);
        let ground = match record.shape {
            SpatialSourceShape::PhysicalGround { .. } => true,
            _ => false,
        };
        incidences.push(SpatialIncidence { id: record.id, bodies, ground });
        k = k + 1;
    }
    incidences
}

/// The incidence of every mode monitor, in order.
pub fn incidences_of_monitors(s: &SpatialStructure) -> (incidences: Vec<SpatialIncidence<SpatialModeMonitorId>>)
    ensures
        monitor_incidences(*s, incidences@),
{
    let mut incidences: Vec<SpatialIncidence<SpatialModeMonitorId>> = Vec::new();
    let mut k: usize = 0;
    while k < s.mode_monitors.len()
        invariant
            k <= s.mode_monitors@.len(),
            incidences@.len() == k,
            forall|q: int| 0 <= q < k ==> {
                &&& (#[trigger] incidences@[q]).id == s.mode_monitors@[q].id
                &&& incidences@[q].bodies@ == sorted_bodies(monitor_touches(*s, s.mode_monitors@[q].kind))
                &&& !incidences@[q].ground
            },
        decreases s.mode_monitors@.len() - k,
    {
        let record = &s.mode_monitors[k];
        let touched = touched_by_monitor(s, record.kind);
        let bodies = sort_bodies(&touched);
        incidences.push(SpatialIncidence { id: record.id, bodies, ground: false });
        k = k + 1;
    }
    incidences
}

// ---------------------------------------------------------------------------
// What a structure that passes the discrete checks guarantees.

/// Identities of the bodies, in order.
pub open spec fn body_ids(s: SpatialStructure) -> Seq<SpatialBodyId> {
    s.bodies@.map_values(|r: SpatialBodyRecord| r.id)
}

/// Every feature of every kind names a listed body.
pub open spec fn features_owned(s: SpatialStructure) -> bool {
    &&& forall|k: int| 0 <= k < s.point_features@.len() ==> body_listed(s.bodies@, #[trigger] s.point_features@[k].body)
    &&& forall|k: int| 0 <= k < s.frame_features@.len() ==> body_listed(s.bodies@, #[trigger] s.frame_features@[k].body)
    &&& forall|k: int| 0 <= k < s.axis_features@.len() ==> body_listed(s.bodies@, #[trigger] s.axis_features@[k].body)
    &&& forall|k: int| 0 <= k < s.plane_features@.len() ==> body_listed(s.bodies@, #[trigger] s.plane_features@[k].body)
}

pub(crate) proof fn lemma_walk_ok(seen: Set<u64>, grounded: Set<u128>, checks: Seq<IdentityCheck>)
    requires
        identity_walk(seen, grounded, checks) is Ok,
    ensures
        forall|k: int| 0 <= k < checks.len() ==> {
            &&& (#[trigger] checks[k]).before is None
            &&& checks[k].after is None
            &&& checks[k].owned
            &&& !seen.contains(checks[k].ordinal)
        },
        forall|j: int, k: int| 0 <= j < k < checks.len() ==> #[trigger] checks[j].ordinal != #[trigger] checks[k].ordinal,
    decreases checks.len(),
{
    if checks.len() > 0 {
        let (next_seen, next_grounded) = identity_step(seen, grounded, checks[0])->Ok_0;
        assert(next_seen == seen.insert(checks[0].ordinal));
        let rest = checks.drop_first();
        lemma_walk_ok(next_seen, next_grounded, rest);
        assert forall|k: int| 0 <= k < checks.len() implies {
            &&& (#[trigger] checks[k]).before is None
            &&& checks[k].after is None
            &&& checks[k].owned
            &&& !seen.contains(checks[k].ordinal)
        } by {
            if k > 0 {
                assert(checks[k] == rest[k - 1]);
            }
        }
        assert forall|j: int, k: int| 0 <= j < k < checks.len() implies #[trigger] checks[j].ordinal != #[trigger] checks[k].ordinal by {
            assert(checks[k] == rest[k - 1]);
            if j > 0 {
                assert(checks[j] == rest[j - 1]);
            } else {
                assert(!next_seen.contains(rest[k - 1].ordinal));
            }
        }
    }
}

pub(crate) proof fn lemma_walk_split(seen: Set<u64>, grounded: Set<u128>, first: Seq<IdentityCheck>, second: Seq<IdentityCheck>) -> (state: (Set<u64>, Set<u128>))
    requires
        identity_walk(seen, grounded, first + second) is Ok,
    ensures
        identity_walk(seen, grounded, first) == Ok::<(Set<u64>, Set<u128>), SpatialAssemblyError>(state),
        identity_walk(state.0, state.1, second) is Ok,
{
    lemma_walk_append(seen, grounded, first, second);
    identity_walk(seen, grounded, first)->Ok_0
}

pub(crate) proof fn lemma_body_listed(bodies: Seq<SpatialBodyRecord>, id: SpatialBodyId)
    ensures
        body_listed(bodies, id) <==> bodies.map_values(|r: SpatialBodyRecord| r.id).contains(id),
    decreases bodies.len(),
{
    let ids = bodies.map_values(|r: SpatialBodyRecord| r.id);
    if bodies.len() > 0 {
        let rest = bodies.drop_first();
        lemma_body_listed(rest, id);
        let rest_ids = rest.map_values(|r: SpatialBodyRecord| r.id);
        assert(rest_ids =~= ids.drop_first());
        if ids.contains(id) && bodies[0].id != id {
            let k = choose|k: int| 0 <= k < ids.len() && ids[k] == id;
            assert(rest_ids[k - 1] == id);
        }
        if rest_ids.contains(id) {
            let k = choose|k: int| 0 <= k < rest_ids.len() && rest_ids[k] == id;
            assert(ids[k + 1] == id);
        }
        if bodies[0].id == id {
            assert(ids[0] == id);
        }
    }
}

proof fn lemma_feature_body_owned<Id>(s: SpatialStructure, features: Seq<SpatialFeatureRecord<Id>>, id: Id)
    requires
        forall|k: int| 0 <= k < features.len() ==> body_listed(s.bodies@, #[trigger] features[k].body),
        feature_body(features, id) is Some,
    ensures
        body_ids(s).contains(feature_body(features, id)->0),
    decreases features.len(),
{
    if features[0].id == id {
        lemma_body_listed(s.bodies@, features[0].body);
    } else {
        let rest = features.drop_first();
        assert forall|k: int| 0 <= k < rest.len() implies body_listed(s.bodies@, #[trigger] rest[k].body) by {
            assert(rest[k] == features[k + 1]);
        }
        lemma_feature_body_owned(s, rest, id);
    }
}

pub(crate) proof fn lemma_structure_valid(s: SpatialStructure)
    requires
        structure_error(s) is None,
    ensures
        body_ids(s).no_duplicates(),
        features_owned(s),
        forall|k: int| 0 <= k < s.sources@.len() ==> source_error(s, #[trigger] s.sources@[k]) is None,
        forall|k: int| 0 <= k < s.mode_monitors@.len() ==> monitor_error(s, (#[trigger] s.mode_monitors@[k]).kind) is None,
{
    let a = body_checks(s);
    let b = feature_checks(s, s.point_features@, "point feature");
    let c = feature_checks(s, s.frame_features@, "frame feature");
    let d = feature_checks(s, s.axis_features@, "axis feature");
    let e = feature_checks(s, s.plane_features@, "plane feature");
    let f = coordinate_checks(s);
    let g = monitor_checks(s);
    let h = source_checks(s);
    let s0 = lemma_walk_split(Set::empty(), Set::empty(), a, b + (c + (d + (e + (f + (g + h))))));
    let s1 = lemma_walk_split(s0.0, s0.1, b, c + (d + (e + (f + (g + h)))));
    let s2 = lemma_walk_split(s1.0, s1.1, c, d + (e + (f + (g + h))));
    let s3 = lemma_walk_split(s2.0, s2.1, d, e + (f + (g + h)));
    let s4 = lemma_walk_split(s3.0, s3.1, e, f + (g + h));
    let s5 = lemma_walk_split(s4.0, s4.1, f, g + h);
    let s6 = lemma_walk_split(s5.0, s5.1, g, h);
    lemma_walk_ok(Set::empty(), Set::empty(), a);
    lemma_walk_ok(s0.0, s0.1, b);
    lemma_walk_ok(s1.0, s1.1, c);
    lemma_walk_ok(s2.0, s2.1, d);
    lemma_walk_ok(s3.0, s3.1, e);
    lemma_walk_ok(s5.0, s5.1, g);
    
    lemma_walk_ok(s6.0, s6.1, h);
    let ids = body_ids(s);
    assert forall|i: int, j: int| 0 <= i < ids.len() && 0 <= j < ids.len() && i != j implies ids[i] != ids[j] by {
        assert(a[i] == body_check(s, s.bodies@[i]));
        assert(a[j] == body_check(s, s.bodies@[j]));
        if i < j {
            assert(a[i].ordinal != a[j].ordinal);
        } else {
            assert(a[j].ordinal != a[i].ordinal);
        }
    }
    assert forall|k: int| 0 <= k < s.point_features@.len() implies body_listed(s.bodies@, #[trigger] s.point_features@[k].body) by {
        assert(b[k] == feature_check(s, s.point_features@[k], "point feature"));
    }
    assert forall|k: int| 0 <= k < s.frame_features@.len() implies body_listed(s.bodies@, #[trigger] s.frame_features@[k].body) by {
        assert(c[k] == feature_check(s, s.frame_features@[k], "frame feature"));
    }
    assert forall|k: int| 0 <= k < s.axis_features@.len() implies body_listed(s.bodies@, #[trigger] s.axis_features@[k].body) by {
        assert(d[k] == feature_check(s, s.axis_features@[k], "axis feature"));
    }
    assert forall|k: int| 0 <= k < s.plane_features@.len() implies body_listed(s.bodies@, #[trigger] s.plane_features@[k].body) by {
        assert(e[k] == feature_check(s, s.plane_features@[k], "plane feature"));
    }
    assert forall|k: int| 0 <= k < s.sources@.len() implies source_error(s, #[trigger] s.sources@[k]) is None by {
        assert(h[k] == source_check(s, s.sources@[k]));
    }
    assert forall|k: int| 0 <= k < s.mode_monitors@.len() implies monitor_error(s, (#[trigger] s.mode_monitors@[k]).kind) is None by {
        assert(g[k] == monitor_check(s, s.mode_monitors@[k]));
    }
}

proof fn lemma_pairs_owned(s: SpatialStructure)
    requires
        features_owned(s),
    ensures
        forall|first: SpatialPointFeatureId, second: SpatialPointFeatureId| #[trigger] point_pair(s, first, second) is Ok
            ==> body_ids(s).contains(point_pair(s, first, second)->Ok_0.0) && body_ids(s).contains(point_pair(s, first, second)->Ok_0.1),
        forall|first: SpatialFrameFeatureId, second: SpatialFrameFeatureId| #[trigger] frame_pair(s, first, second) is Ok
            ==> body_ids(s).contains(frame_pair(s, first, second)->Ok_0.0) && body_ids(s).contains(frame_pair(s, first, second)->Ok_0.1),
        forall|first: SpatialAxisFeatureId, second: SpatialAxisFeatureId| #[trigger] axis_pair(s, first, second) is Ok
            ==> body_ids(s).contains(axis_pair(s, first, second)->Ok_0.0) && body_ids(s).contains(axis_pair(s, first, second)->Ok_0.1),
        forall|first: SpatialPlaneFeatureId, second: SpatialPlaneFeatureId| #[trigger] plane_pair(s, first, second) is Ok
            ==> body_ids(s).contains(plane_pair(s, first, second)->Ok_0.0) && body_ids(s).contains(plane_pair(s, first, second)->Ok_0.1),
        forall|plane: SpatialPlaneFeatureId, point: SpatialPointFeatureId| #[trigger] plane_point_pair(s, plane, point) is Ok
            ==> body_ids(s).contains(plane_point_pair(s, plane, point)->Ok_0.0) && body_ids(s).contains(plane_point_pair(s, plane, point)->Ok_0.1),
{
    assert forall|first: SpatialPointFeatureId, second: SpatialPointFeatureId| #[trigger] point_pair(s, first, second) is Ok
        implies body_ids(s).contains(point_pair(s, first, second)->Ok_0.0) && body_ids(s).contains(point_pair(s, first, second)->Ok_0.1) by {
        lemma_feature_body_owned(s, s.point_features@, first);
        lemma_feature_body_owned(s, s.point_features@, second);
    }
    assert forall|first: SpatialFrameFeatureId, second: SpatialFrameFeatureId| #[trigger] frame_pair(s, first, second) is Ok
        implies body_ids(s).contains(frame_pair(s, first, second)->Ok_0.0) && body_ids(s).contains(frame_pair(s, first, second)->Ok_0.1) by {
        lemma_feature_body_owned(s, s.frame_features@, first);
        lemma_feature_body_owned(s, s.frame_features@, second);
    }
    assert forall|first: SpatialAxisFeatureId, second: SpatialAxisFeatureId| #[trigger] axis_pair(s, first, second) is Ok
        implies body_ids(s).contains(axis_pair(s, first, second)->Ok_0.0) && body_ids(s).contains(axis_pair(s, first, second)->Ok_0.1) by {
        lemma_feature_body_owned(s, s.axis_features@, first);
        lemma_feature_body_owned(s, s.axis_features@, second);
    }
    assert forall|first: SpatialPlaneFeatureId, second: SpatialPlaneFeatureId| #[trigger] plane_pair(s, first, second) is Ok
        implies body_ids(s).contains(plane_pair(s, first, second)->Ok_0.0) && body_ids(s).contains(plane_pair(s, first, second)->Ok_0.1) by {
        lemma_feature_body_owned(s, s.plane_features@, first);
        lemma_feature_body_owned(s, s.plane_features@, second);
    }
    assert forall|plane: SpatialPlaneFeatureId, point: SpatialPointFeatureId| #[trigger] plane_point_pair(s, plane, point) is Ok
        implies body_ids(s).contains(plane_point_pair(s, plane, point)->Ok_0.0) && body_ids(s).contains(plane_point_pair(s, plane, point)->Ok_0.1) by {
        lemma_feature_body_owned(s, s.plane_features@, plane);
        lemma_feature_body_owned(s, s.point_features@, point);
    }
}

/// A touched-body list of a passing record: nonempty, every body listed.
pub open spec fn touches_listed(s: SpatialStructure, touched: Seq<SpatialBodyId>) -> bool {
    &&& touched.len() > 0
    &&& forall|m: int| 0 <= m < touched.len() ==> body_ids(s).contains(#[trigger] touched[m])
}

proof fn lemma_pair_listed(s: SpatialStructure, pair: Result<(SpatialBodyId, SpatialBodyId), SpatialAssemblyError>)
    requires
        pair is Ok,
        body_ids(s).contains(pair->Ok_0.0),
        body_ids(s).contains(pair->Ok_0.1),
    ensures
        touches_listed(s, pair_list(pair)),
{
    assert forall|m: int| 0 <= m < pair_list(pair).len() implies body_ids(s).contains(#[trigger] pair_list(pair)[m]) by {
        if m == 0 {
            assert(pair_list(pair)[m] == pair->Ok_0.0);
        } else {
            assert(pair_list(pair)[m] == pair->Ok_0.1);
        }
    }
}

proof fn lemma_coordinate_listed(s: SpatialStructure, coordinate: SpatialCoordinateId, hinge: bool)
    requires
        features_owned(s),
        coordinate_kind(s.coordinates@, coordinate) is Some,
        hinge ==> hinge_bodies(s, coordinate, coordinate_kind(s.coordinates@, coordinate)->0) is Ok,
        !hinge ==> translation_bodies(s, coordinate, coordinate_kind(s.coordinates@, coordinate)->0) is Ok,
    ensures
        touches_listed(s, coordinate_bodies(s, coordinate, hinge)),
{
    lemma_pairs_owned(s);
    let kind = coordinate_kind(s.coordinates@, coordinate)->0;
    if hinge {
        lemma_pair_listed(s, hinge_bodies(s, coordinate, kind));
    } else {
        lemma_pair_listed(s, translation_bodies(s, coordinate, kind));
    }
}

proof fn lemma_source_touches(s: SpatialStructure, r: SpatialSourceRecord)
    requires
        features_owned(s),
        source_error(s, r) is None,
    ensures
        touches_listed(s, source_touches(s, r.shape)),
{
    lemma_pairs_owned(s);
    match r.shape {
        SpatialSourceShape::PhysicalGround { body } => {
            lemma_body_listed(s.bodies@, body);
            assert(source_touches(s, r.shape)[0] == body);
        },
        SpatialSourceShape::BallJoint { first, second } => lemma_pair_listed(s, point_pair(s, first, second)),
        SpatialSourceShape::PointDistanceMate { first, second } => lemma_pair_listed(s, point_pair(s, first, second)),
        SpatialSourceShape::FixedFrame { first, second } => lemma_pair_listed(s, frame_pair(s, first, second)),
        SpatialSourceShape::RevoluteJoint { first, second, .. } => lemma_pair_listed(s, frame_pair(s, first, second)),
        SpatialSourceShape::FrameOffsetMate { first, second } => lemma_pair_listed(s, frame_pair(s, first, second)),
        SpatialSourceShape::PrismaticJoint { first, second, .. } => lemma_pair_listed(s, axis_pair(s, first, second)),
        SpatialSourceShape::CylindricalJoint { first, second, .. } => lemma_pair_listed(s, axis_pair(s, first, second)),
        SpatialSourceShape::UniversalJoint { first, second } => lemma_pair_listed(s, axis_pair(s, first, second)),
        SpatialSourceShape::AxisAngleMate { first, second } => lemma_pair_listed(s, axis_pair(s, first, second)),
        SpatialSourceShape::AxisAlignmentMate { first, second, .. } => lemma_pair_listed(s, axis_pair(s, first, second)),
        SpatialSourceShape::PlanarJoint { first, second, .. } => lemma_pair_listed(s, plane_pair(s, first, second)),
        SpatialSourceShape::HingePositionDriver { coordinate, .. } => lemma_coordinate_listed(s, coordinate, true),
        SpatialSourceShape::TranslationPositionDriver { coordinate, .. } => lemma_coordinate_listed(s, coordinate, false),
    }
}

proof fn lemma_point_bodies(s: SpatialStructure, points: Seq<SpatialPointFeatureId>)
    requires
        features_owned(s),
        unknown_point_error(s, points) is None,
    ensures
        point_bodies(s, points).len() == points.len(),
        forall|m: int| 0 <= m < point_bodies(s, points).len() ==> body_ids(s).contains(#[trigger] point_bodies(s, points)[m]),
    decreases points.len(),
{
    if points.len() > 0 {
        lemma_point_bodies(s, points.drop_first());
        lemma_feature_body_owned(s, s.point_features@, points[0]);
        let rest = point_bodies(s, points.drop_first());
        let b = feature_body(s.point_features@, points[0])->0;
        assert(point_bodies(s, points) == seq![b] + rest);
        assert forall|m: int| 0 <= m < point_bodies(s, points).len() implies body_ids(s).contains(#[trigger] point_bodies(s, points)[m]) by {
            if m > 0 {
                assert(point_bodies(s, points)[m] == rest[m - 1]);
            }
        }
    }
}

proof fn lemma_monitor_touches(s: SpatialStructure, kind: SpatialModeMonitorKind)
    requires
        features_owned(s),
        monitor_error(s, kind) is None,
    ensures
        touches_listed(s, monitor_touches(s, kind)),
{
    lemma_pairs_owned(s);
    match kind {
        SpatialModeMonitorKind::AxisParity { first, second, .. } => lemma_pair_listed(s, axis_pair(s, first, second)),
        SpatialModeMonitorKind::HingeWinding { coordinate, .. } => lemma_coordinate_listed(s, coordinate, true),
        SpatialModeMonitorKind::PlaneSide { plane, point, .. } => lemma_pair_listed(s, plane_point_pair(s, plane, point)),
        SpatialModeMonitorKind::SignedVolume { points, .. } => {
            assert(points@.len() == 4);
            lemma_point_bodies(s, points@);
        },
    }
}

proof fn lemma_first_missing_none(bodies: Seq<SpatialBodyId>, wanted: Seq<SpatialBodyId>)
    requires
        forall|m: int| 0 <= m < wanted.len() ==> bodies.contains(#[trigger] wanted[m]),
    ensures
        first_missing(bodies, wanted) is None,
    decreases wanted.len(),
{
    if wanted.len() > 0 {
        assert(bodies.contains(wanted[0]));
        let rest = wanted.drop_first();
        assert forall|m: int| 0 <= m < rest.len() implies bodies.contains(#[trigger] rest[m]) by {
            assert(rest[m] == wanted[m + 1]);
        }
        lemma_first_missing_none(bodies, rest);
    }
}

proof fn lemma_all_known<Id>(bodies: Seq<SpatialBodyId>, incidences: Seq<SpatialIncidence<Id>>)
    requires
        forall|k: int, m: int| 0 <= k < incidences.len() && 0 <= m < incidences[k].bodies@.len() ==> bodies.contains(#[trigger] incidences[k].bodies@[m]),
    ensures
        first_unknown_body(bodies, incidences) is None,
    decreases incidences.len(),
{
    if incidences.len() > 0 {
        assert forall|m: int| 0 <= m < incidences[0].bodies@.len() implies bodies.contains(#[trigger] incidences[0].bodies@[m]) by {
            assert(bodies.contains(incidences[0].bodies@[m]));
        }
        lemma_first_missing_none(bodies, incidences[0].bodies@);
        let rest = incidences.drop_first();
        assert forall|k: int, m: int| 0 <= k < rest.len() && 0 <= m < rest[k].bodies@.len() implies bodies.contains(#[trigger] rest[k].bodies@[m]) by {
            assert(rest[k] == incidences[k + 1]);
        }
        lemma_all_known(bodies, rest);
    }
}

// ---------------------------------------------------------------------------
// The whole structural validation.

/// What the gauge rules give for certified `components` under the policy of `s`.
pub open spec fn gauge_verdict(s: SpatialStructure, components: Seq<CertifiedSpatialComponent>, result: Result<(), SpatialAssemblyError>) -> bool {
    match reference_choices(spatial_grounded(components), spatial_groups(components), spatial_explicit(s.gauge_policy)) {
        Ok(_) => result is Ok,
        Err(violation) => result matches Err(error) && is_spatial_gauge_error(error, violation),
    }
}

/// `sources` and `monitors` are the incidences of the structure's sources and
/// mode monitors, and `components` certifies its bodies under them.
pub open spec fn certified_under(
    s: SpatialStructure,
    sources: Seq<SpatialIncidence<SpatialSourceId>>,
    monitors: Seq<SpatialIncidence<SpatialModeMonitorId>>,
    components: Seq<CertifiedSpatialComponent>,
) -> bool {
    &&& source_incidences(s, sources)
    &&& monitor_incidences(s, monitors)
    &&& certifies_spatial_components(body_ids(s), sources, monitors, components)
}

proof fn lemma_incidences_determined(
    s: SpatialStructure,
    sources: Seq<SpatialIncidence<SpatialSourceId>>,
    monitors: Seq<SpatialIncidence<SpatialModeMonitorId>>,
    other_sources: Seq<SpatialIncidence<SpatialSourceId>>,
    other_monitors: Seq<SpatialIncidence<SpatialModeMonitorId>>,
    components: Seq<CertifiedSpatialComponent>,
)
    requires
        source_incidences(s, sources),
        monitor_incidences(s, monitors),
        source_incidences(s, other_sources),
        monitor_incidences(s, other_monitors),
        certifies_spatial_components(body_ids(s), other_sources, other_monitors, components),
    ensures
        certifies_spatial_components(body_ids(s), sources, monitors, components),
{
    let bodies = body_ids(s);
    assert(incidence_links(bodies, sources, monitors) =~= incidence_links(bodies, other_sources, other_monitors)) by {
        let a = sources.map_values(|i: SpatialIncidence<SpatialSourceId>| i.bodies@.map_values(|b: SpatialBodyId| position_of_body(bodies, b) as usize));
        let b = other_sources.map_values(|i: SpatialIncidence<SpatialSourceId>| i.bodies@.map_values(|b: SpatialBodyId| position_of_body(bodies, b) as usize));
        assert(a =~= b) by {
            assert forall|k: int| 0 <= k < a.len() implies a[k] == b[k] by {
                assert(sources[k].bodies@ == other_sources[k].bodies@);
            }
        }
        let c = monitors.map_values(|i: SpatialIncidence<SpatialModeMonitorId>| i.bodies@.map_values(|b: SpatialBodyId| position_of_body(bodies, b) as usize));
        let d = other_monitors.map_values(|i: SpatialIncidence<SpatialModeMonitorId>| i.bodies@.map_values(|b: SpatialBodyId| position_of_body(bodies, b) as usize));
        assert(c =~= d) by {
            assert forall|k: int| 0 <= k < c.len() implies c[k] == d[k] by {
                assert(monitors[k].bodies@ == other_monitors[k].bodies@);
            }
        }
    }
    assert(first_keys(sources) =~= first_keys(other_sources)) by {
        assert forall|k: int| 0 <= k < sources.len() implies first_keys(sources)[k] == first_keys(other_sources)[k] by {
            assert(sources[k].bodies@ == other_sources[k].bodies@);
        }
    }
    assert(first_keys(monitors) =~= first_keys(other_monitors)) by {
        assert forall|k: int| 0 <= k < monitors.len() implies first_keys(monitors)[k] == first_keys(other_monitors)[k] by {
            assert(monitors[k].bodies@ == other_monitors[k].bodies@);
        }
    }
    assert(incidence_ids(sources) =~= incidence_ids(other_sources)) by {
        assert forall|k: int| 0 <= k < sources.len() implies incidence_ids(sources)[k] == incidence_ids(other_sources)[k] by {
            assert(sources[k].id == other_sources[k].id);
        }
    }
    assert(incidence_ids(monitors) =~= incidence_ids(other_monitors)) by {
        assert forall|k: int| 0 <= k < monitors.len() implies incidence_ids(monitors)[k] == incidence_ids(other_monitors)[k] by {
            assert(monitors[k].id == other_monitors[k].id);
        }
    }
    assert(ground_flags(sources) =~= ground_flags(other_sources)) by {
        assert forall|k: int| 0 <= k < sources.len() implies ground_flags(sources)[k] == ground_flags(other_sources)[k] by {
            assert(sources[k].ground == other_sources[k].ground);
        }
    }
}

/// The certified components of a passing structure and the verdict of its
/// gauge policy on them.
pub open spec fn gauge_outcome(
    s: SpatialStructure,
    sources: Seq<SpatialIncidence<SpatialSourceId>>,
    monitors: Seq<SpatialIncidence<SpatialModeMonitorId>>,
    components: Seq<CertifiedSpatialComponent>,
    result: Result<(), SpatialAssemblyError>,
) -> bool {
    &&& certified_under(s, sources, monitors, components)
    &&& gauge_verdict(s, components, result)
}

/// Validates the structure of a spatial assembly: the discrete checks in their
/// order (see `structure_error`), then the certified components of the bodies
/// under source and mode-monitor incidence, then the gauge policy on them.
pub fn validate_spatial_structure(s: &SpatialStructure) -> (result: Result<(), SpatialAssemblyError>)
    ensures
        structure_error(*s) matches Some(error) ==> result == Err::<(), _>(error),
        structure_error(*s) is None ==> exists|
            sources: Seq<SpatialIncidence<SpatialSourceId>>,
            monitors: Seq<SpatialIncidence<SpatialModeMonitorId>>,
            components: Seq<CertifiedSpatialComponent>,
        | #[trigger] gauge_outcome(*s, sources, monitors, components, result),
        structure_error(*s) is None ==> forall|
            sources: Seq<SpatialIncidence<SpatialSourceId>>,
            monitors: Seq<SpatialIncidence<SpatialModeMonitorId>>,
            components: Seq<CertifiedSpatialComponent>,
        | #[trigger] certified_under(*s, sources, monitors, components) ==> gauge_verdict(*s, components, result),
{
    check_structure(s)?;
    let sources = incidences_of_sources(s);
    let monitors = incidences_of_monitors(s);
    let mut bodies: Vec<SpatialBodyId> = Vec::new();
    let mut k: usize = 0;
    while k < s.bodies.len()
        invariant
            k <= s.bodies@.len(),
            bodies@ == body_ids(*s).take(k as int),
        decreases s.bodies@.len() - k,
    {
        proof {
            assert(body_ids(*s).take(k + 1) =~= body_ids(*s).take(k as int).push(s.bodies@[k as int].id));
        }
        bodies.push(s.bodies[k].id);
        k = k + 1;
    }
    proof {
        assert(body_ids(*s).take(k as int) =~= body_ids(*s));
        lemma_structure_valid(*s);
        assert forall|q: int| 0 <= q < sources@.len() implies (#[trigger] sources@[q]).bodies@.len() > 0
            && forall|m: int| 0 <= m < sources@[q].bodies@.len() ==> bodies@.contains(#[trigger] sources@[q].bodies@[m]) by {
            let touched = source_touches(*s, s.sources@[q].shape);
            lemma_source_touches(*s, s.sources@[q]);
            lemma_sorted_bodies(touched);
            assert forall|m: int| 0 <= m < sources@[q].bodies@.len() implies bodies@.contains(#[trigger] sources@[q].bodies@[m]) by {
                let b = sources@[q].bodies@[m];
                assert(sorted_bodies(touched).contains(b));
                let t = choose|t: int| 0 <= t < touched.len() && touched[t] == b;
                assert(body_ids(*s).contains(touched[t]));
            }
        }
        assert forall|q: int| 0 <= q < monitors@.len() implies (#[trigger] monitors@[q]).bodies@.len() > 0
            && forall|m: int| 0 <= m < monitors@[q].bodies@.len() ==> bodies@.contains(#[trigger] monitors@[q].bodies@[m]) by {
            let touched = monitor_touches(*s, s.mode_monitors@[q].kind);
            lemma_monitor_touches(*s, s.mode_monitors@[q].kind);
            lemma_sorted_bodies(touched);
            assert forall|m: int| 0 <= m < monitors@[q].bodies@.len() implies bodies@.contains(#[trigger] monitors@[q].bodies@[m]) by {
                let b = monitors@[q].bodies@[m];
                assert(sorted_bodies(touched).contains(b));
                let t = choose|t: int| 0 <= t < touched.len() && touched[t] == b;
                assert(body_ids(*s).contains(touched[t]));
            }
        }
        lemma_all_known(bodies@, sources@);
        lemma_all_known(bodies@, monitors@);
    }
    let components = match certified_components(&bodies, &sources, &monitors) {
        Ok(components) => components,
        Err(error) => {
            return Err(error);
        },
    };
    proof {
        assert forall|c: int| 0 <= c < components@.len() implies (#[trigger] components@[c]).bodies@.len() > 0 by {
            let groups = components@.map_values(|c: CertifiedSpatialComponent| body_keys(c.bodies@));
            assert(groups[c].len() > 0);
        }
    }
    let result = match resolve_gauge_references(&s.gauge_policy, &components) {
        Ok(_) => Ok(()),
        Err(error) => Err(error),
    };
    proof {
        assert(gauge_outcome(*s, sources@, monitors@, components@, result));
        assert forall|
            other_sources: Seq<SpatialIncidence<SpatialSourceId>>,
            other_monitors: Seq<SpatialIncidence<SpatialModeMonitorId>>,
            other: Seq<CertifiedSpatialComponent>,
        | #[trigger] certified_under(*s, other_sources, other_monitors, other) implies gauge_verdict(*s, other, result) by {
            lemma_incidences_determined(*s, sources@, monitors@, other_sources, other_monitors, other);
            lemma_certified_spatial_components_unique(bodies@, sources@, monitors@, components@, other);
        }
    }
    result
}

} // verus!
