//! Transaction edits of a spatial assembly: each edit replaces one value of
//! one existing object (a pose guess or local geometry with its verdict, a
//! winding, a driver target, a parity, a monitor's watched state); a
//! transaction edits each value at most once.

use vstd::prelude::*;
use crate::runtime_ids::{
    SpatialAxisFeatureId, SpatialBodyId, SpatialCoordinateId, SpatialFrameFeatureId, SpatialIdValue,
    SpatialModeMonitorId, SpatialPlaneFeatureId, SpatialPointFeatureId, SpatialSourceId,
};
use crate::spatial::{
    SpatialAssemblyError, SpatialAxisParity, SpatialCoordinate, SpatialCoordinateKind, SpatialEditKey,
    SpatialModeMonitor, SpatialModeMonitorKind, SpatialModeSign,
};
use crate::spatial_structure::SpatialLocalGeometry;
use crate::spatial_boundaries::source_axis_parity;
use crate::spatial_structure::{
    check_value, value_error, SpatialBodyRecord, SpatialFeatureRecord, SpatialSourceRecord, SpatialSourceShape,
    SpatialStructure, SpatialValueRejection,
};

verus! {

/// One edit of an existing object. Floating-point values are judged outside
/// the library; the edit carries their bits and their verdict.
#[derive(Clone, Copy, Debug, PartialEq, Eq)]
pub enum SpatialAssemblyEdit {
    BodyPoseGuess { body: SpatialBodyId, pose_guess: [u64; 7], pose: Option<SpatialValueRejection> },
    PointLocal { feature: SpatialPointFeatureId, local_point: [u64; 3], geometry: Option<SpatialValueRejection> },
    FrameLocal { feature: SpatialFrameFeatureId, local_frame: [u64; 12], geometry: Option<SpatialValueRejection> },
    AxisLocal { feature: SpatialAxisFeatureId, local_frame: [u64; 12], geometry: Option<SpatialValueRejection> },
    PlaneLocal { feature: SpatialPlaneFeatureId, local_frame: [u64; 12], geometry: Option<SpatialValueRejection> },
    HingeWinding { coordinate: SpatialCoordinateId, winding: i64 },
    HingeDriverTarget { source: SpatialSourceId, winding: i64, phase_bits: u64, target: Option<SpatialValueRejection> },
    TranslationDriverTarget { source: SpatialSourceId, target_bits: u64, target: Option<SpatialValueRejection> },
    SourceAxisParity { source: SpatialSourceId, parity: SpatialAxisParity },
    MonitorAxisParity { monitor: SpatialModeMonitorId, parity: SpatialAxisParity },
    MonitorHingeWinding { monitor: SpatialModeMonitorId, winding: i64 },
    MonitorPlaneSide { monitor: SpatialModeMonitorId, side: SpatialModeSign },
    MonitorSignedVolumeOrientation { monitor: SpatialModeMonitorId, orientation: SpatialModeSign },
}

// ---------------------------------------------------------------------------
// Lookups by position.

/// Position of the first record of `items` that `hit` accepts.
pub open spec fn first_index<T>(items: Seq<T>, hit: spec_fn(T) -> bool) -> Option<int>
    decreases items.len(),
{
    if items.len() == 0 {
        None
    } else if hit(items[0]) {
        Some(0)
    } else {
        match first_index(items.drop_first(), hit) {
            Some(k) => Some(k + 1),
            None => None,
        }
    }
}

proof fn lemma_first_index<T>(items: Seq<T>, hit: spec_fn(T) -> bool)
    ensures
        first_index(items, hit) matches Some(k) ==> 0 <= k < items.len() && hit(items[k])
            && forall|j: int| 0 <= j < k ==> !hit(#[trigger] items[j]),
        first_index(items, hit) is None ==> forall|j: int| 0 <= j < items.len() ==> !hit(#[trigger] items[j]),
    decreases items.len(),
{
    if items.len() > 0 {
        lemma_first_index(items.drop_first(), hit);
        assert forall|j: int| 1 <= j < items.len() implies items[j] == items.drop_first()[j - 1] by {}
    }
}

/// Whether a body record has identity `id`.
pub open spec fn body_has(id: SpatialBodyId) -> spec_fn(SpatialBodyRecord) -> bool {
    |r: SpatialBodyRecord| r.id == id
}

/// Whether a coordinate record has identity `id`.
pub open spec fn coordinate_has(id: SpatialCoordinateId) -> spec_fn(SpatialCoordinate) -> bool {
    |c: SpatialCoordinate| c.id == id
}

/// Whether a source record has identity `id`.
pub open spec fn source_has(id: SpatialSourceId) -> spec_fn(SpatialSourceRecord) -> bool {
    |r: SpatialSourceRecord| r.id == id
}

/// Whether a monitor record has identity `id`.
pub open spec fn monitor_has(id: SpatialModeMonitorId) -> spec_fn(SpatialModeMonitor) -> bool {
    |m: SpatialModeMonitor| m.id == id
}

/// Whether a feature record has identity `id`.
pub open spec fn feature_has<Id>(id: Id) -> spec_fn(SpatialFeatureRecord<Id>) -> bool {
    |r: SpatialFeatureRecord<Id>| r.id == id
}

/// Position of the body with identity `id`.
pub open spec fn body_position(s: SpatialStructure, id: SpatialBodyId) -> Option<int> {
    first_index(s.bodies@, body_has(id))
}

/// Position of the feature with identity `id`.
pub open spec fn feature_position<Id>(features: Seq<SpatialFeatureRecord<Id>>, id: Id) -> Option<int> {
    first_index(features, feature_has(id))
}

/// Position of the coordinate with identity `id`.
pub open spec fn coordinate_position(s: SpatialStructure, id: SpatialCoordinateId) -> Option<int> {
    first_index(s.coordinates@, coordinate_has(id))
}

/// Position of the source with identity `id`.
pub open spec fn source_position(s: SpatialStructure, id: SpatialSourceId) -> Option<int> {
    first_index(s.sources@, source_has(id))
}

/// Position of the mode monitor with identity `id`.
pub open spec fn monitor_position(s: SpatialStructure, id: SpatialModeMonitorId) -> Option<int> {
    first_index(s.mode_monitors@, monitor_has(id))
}

fn find_body(bodies: &Vec<SpatialBodyRecord>, id: SpatialBodyId) -> (found: Option<usize>)
    ensures
        match first_index(bodies@, body_has(id)) {
            Some(k) => found matches Some(i) && i == k,
            None => found is None,
        },
        found matches Some(i) ==> i < bodies@.len(),
{
    proof {
        lemma_first_index(bodies@, body_has(id));
    }
    let mut i: usize = 0;
    while i < bodies.len()
        invariant
            i <= bodies@.len(),
            forall|j: int| 0 <= j < i ==> !body_has(id)(#[trigger] bodies@[j]),
        decreases bodies@.len() - i,
    {
        if bodies[i].id == id {
            proof {
                assert(body_has(id)(bodies@[i as int]));
                lemma_first_index(bodies@, body_has(id));
            }
            return Some(i);
        }
        proof {
            assert(!body_has(id)(bodies@[i as int]));
        }
        i = i + 1;
    }
    proof {
        lemma_first_index(bodies@, body_has(id));
    }
    None
}

fn find_feature<Id: SpatialIdValue>(features: &Vec<SpatialFeatureRecord<Id>>, id: Id) -> (found: Option<usize>)
    ensures
        match first_index(features@, feature_has(id)) {
            Some(k) => found matches Some(i) && i == k,
            None => found is None,
        },
        found matches Some(i) ==> i < features@.len(),
{
    proof {
        lemma_first_index(features@, feature_has(id));
    }
    let mut i: usize = 0;
    while i < features.len()
        invariant
            i <= features@.len(),
            forall|j: int| 0 <= j < i ==> !feature_has(id)(#[trigger] features@[j]),
        decreases features@.len() - i,
    {
        if features[i].id.same_as(id) {
            proof {
                assert(feature_has(id)(features@[i as int]));
                lemma_first_index(features@, feature_has(id));
            }
            return Some(i);
        }
        proof {
            assert(!feature_has(id)(features@[i as int]));
        }
        i = i + 1;
    }
    proof {
        lemma_first_index(features@, feature_has(id));
    }
    None
}

fn find_coordinate(coordinates: &Vec<SpatialCoordinate>, id: SpatialCoordinateId) -> (found: Option<usize>)
    ensures
        match first_index(coordinates@, coordinate_has(id)) {
            Some(k) => found matches Some(i) && i == k,
            None => found is None,
        },
        found matches Some(i) ==> i < coordinates@.len(),
{
    proof {
        lemma_first_index(coordinates@, coordinate_has(id));
    }
    let mut i: usize = 0;
    while i < coordinates.len()
        invariant
            i <= coordinates@.len(),
            forall|j: int| 0 <= j < i ==> !coordinate_has(id)(#[trigger] coordinates@[j]),
        decreases coordinates@.len() - i,
    {
        if coordinates[i].id == id {
            proof {
                assert(coordinate_has(id)(coordinates@[i as int]));
                lemma_first_index(coordinates@, coordinate_has(id));
            }
            return Some(i);
        }
        proof {
            assert(!coordinate_has(id)(coordinates@[i as int]));
        }
        i = i + 1;
    }
    proof {
        lemma_first_index(coordinates@, coordinate_has(id));
    }
    None
}

fn find_source(sources: &Vec<SpatialSourceRecord>, id: SpatialSourceId) -> (found: Option<usize>)
    ensures
        match first_index(sources@, source_has(id)) {
            Some(k) => found matches Some(i) && i == k,
            None => found is None,
        },
        found matches Some(i) ==> i < sources@.len(),
{
    proof {
        lemma_first_index(sources@, source_has(id));
    }
    let mut i: usize = 0;
    while i < sources.len()
        invariant
            i <= sources@.len(),
            forall|j: int| 0 <= j < i ==> !source_has(id)(#[trigger] sources@[j]),
        decreases sources@.len() - i,
    {
        if sources[i].id == id {
            proof {
                assert(source_has(id)(sources@[i as int]));
                lemma_first_index(sources@, source_has(id));
            }
            return Some(i);
        }
        proof {
            assert(!source_has(id)(sources@[i as int]));
        }
        i = i + 1;
    }
    proof {
        lemma_first_index(sources@, source_has(id));
    }
    None
}

fn find_monitor(monitors: &Vec<SpatialModeMonitor>, id: SpatialModeMonitorId) -> (found: Option<usize>)
    ensures
        match first_index(monitors@, monitor_has(id)) {
            Some(k) => found matches Some(i) && i == k,
            None => found is None,
        },
        found matches Some(i) ==> i < monitors@.len(),
{
    proof {
        lemma_first_index(monitors@, monitor_has(id));
    }
    let mut i: usize = 0;
    while i < monitors.len()
        invariant
            i <= monitors@.len(),
            forall|j: int| 0 <= j < i ==> !monitor_has(id)(#[trigger] monitors@[j]),
        decreases monitors@.len() - i,
    {
        if monitors[i].id == id {
            proof {
                assert(monitor_has(id)(monitors@[i as int]));
                lemma_first_index(monitors@, monitor_has(id));
            }
            return Some(i);
        }
        proof {
            assert(!monitor_has(id)(monitors@[i as int]));
        }
        i = i + 1;
    }
    proof {
        lemma_first_index(monitors@, monitor_has(id));
    }
    None
}

// ---------------------------------------------------------------------------
// One edit.

/// The part of a structure one edit changes.
#[derive(Clone, Copy, Debug, PartialEq, Eq, Structural)]
pub enum SpatialStructurePart {
    Bodies,
    PointFeatures,
    FrameFeatures,
    AxisFeatures,
    PlaneFeatures,
    Coordinates,
    Sources,
    Monitors,
}

/// `new` equals `old` in everything but `part`.
pub open spec fn same_but(old: SpatialStructure, new: SpatialStructure, part: SpatialStructurePart) -> bool {
    &&& new.namespace == old.namespace
    &&& new.next_id == old.next_id
    &&& new.gauge_policy == old.gauge_policy
    &&& part != SpatialStructurePart::Bodies ==> new.bodies == old.bodies
    &&& part != SpatialStructurePart::PointFeatures ==> new.point_features == old.point_features
    &&& part != SpatialStructurePart::FrameFeatures ==> new.frame_features == old.frame_features
    &&& part != SpatialStructurePart::AxisFeatures ==> new.axis_features == old.axis_features
    &&& part != SpatialStructurePart::PlaneFeatures ==> new.plane_features == old.plane_features
    &&& part != SpatialStructurePart::Coordinates ==> new.coordinates == old.coordinates
    &&& part != SpatialStructurePart::Sources ==> new.sources == old.sources
    &&& part != SpatialStructurePart::Monitors ==> new.mode_monitors == old.mode_monitors
}

/// Whether a source shape has an axis parity.
pub open spec fn has_parity(shape: SpatialSourceShape) -> bool {
    ||| shape is RevoluteJoint
    ||| shape is PrismaticJoint
    ||| shape is CylindricalJoint
    ||| shape is PlanarJoint
    ||| shape is AxisAlignmentMate
}

/// A parity-bearing shape with its parity replaced.
pub open spec fn with_parity(shape: SpatialSourceShape, parity: SpatialAxisParity) -> SpatialSourceShape {
    match shape {
        SpatialSourceShape::RevoluteJoint { first, second, .. } => SpatialSourceShape::RevoluteJoint { first, second, parity },
        SpatialSourceShape::PrismaticJoint { first, second, .. } => SpatialSourceShape::PrismaticJoint { first, second, parity },
        SpatialSourceShape::CylindricalJoint { first, second, .. } => SpatialSourceShape::CylindricalJoint { first, second, parity },
        SpatialSourceShape::PlanarJoint { first, second, .. } => SpatialSourceShape::PlanarJoint { first, second, parity },
        SpatialSourceShape::AxisAlignmentMate { first, second, .. } => SpatialSourceShape::AxisAlignmentMate { first, second, parity },
        _ => shape,
    }
}

/// The rejection of a feature edit: its geometry verdict, then an unknown feature.
pub open spec fn feature_edit_error<Id>(features: Seq<SpatialFeatureRecord<Id>>, feature: Id, geometry: Option<SpatialValueRejection>, unknown: SpatialAssemblyError) -> Option<SpatialAssemblyError> {
    if value_error(geometry) is Some {
        value_error(geometry)
    } else if feature_position(features, feature) is None {
        Some(unknown)
    } else {
        None
    }
}

/// The rejection of a monitor edit: an unknown monitor, or one of another kind.
pub open spec fn monitor_edit_error(s: SpatialStructure, monitor: SpatialModeMonitorId, fits: bool, expected: &'static str) -> Option<SpatialAssemblyError> {
    match monitor_position(s, monitor) {
        None => Some(SpatialAssemblyError::UnknownModeMonitor(monitor)),
        Some(_) => if fits {
            None
        } else {
            Some(SpatialAssemblyError::WrongModeMonitorKind { monitor_id: monitor, expected })
        },
    }
}

/// The kind of the monitor `monitor` of `s`.
pub open spec fn monitor_kind_of(s: SpatialStructure, monitor: SpatialModeMonitorId) -> SpatialModeMonitorKind {
    s.mode_monitors@[monitor_position(s, monitor)->0].kind
}

/// The shape of the source `source` of `s`.
pub open spec fn source_shape_of(s: SpatialStructure, source: SpatialSourceId) -> SpatialSourceShape {
    s.sources@[source_position(s, source)->0].shape
}

/// The rejection of an edit: the verdict of its new value, then an unknown
/// object, then an object of another kind.
pub open spec fn edit_error(s: SpatialStructure, edit: SpatialAssemblyEdit) -> Option<SpatialAssemblyError> {
    match edit {
        SpatialAssemblyEdit::BodyPoseGuess { body, pose, .. } => if value_error(pose) is Some {
            value_error(pose)
        } else if body_position(s, body) is None {
            Some(SpatialAssemblyError::UnknownBody(body))
        } else {
            None
        },
        SpatialAssemblyEdit::PointLocal { feature, geometry, .. } =>
            feature_edit_error(s.point_features@, feature, geometry, SpatialAssemblyError::UnknownPointFeature(feature)),
        SpatialAssemblyEdit::FrameLocal { feature, geometry, .. } =>
            feature_edit_error(s.frame_features@, feature, geometry, SpatialAssemblyError::UnknownFrameFeature(feature)),
        SpatialAssemblyEdit::AxisLocal { feature, geometry, .. } =>
            feature_edit_error(s.axis_features@, feature, geometry, SpatialAssemblyError::UnknownAxisFeature(feature)),
        SpatialAssemblyEdit::PlaneLocal { feature, geometry, .. } =>
            feature_edit_error(s.plane_features@, feature, geometry, SpatialAssemblyError::UnknownPlaneFeature(feature)),
        SpatialAssemblyEdit::HingeWinding { coordinate, .. } => match coordinate_position(s, coordinate) {
            None => Some(SpatialAssemblyError::UnknownCoordinate(coordinate)),
            Some(k) => if s.coordinates@[k].kind is Hinge {
                None
            } else {
                Some(SpatialAssemblyError::WrongCoordinateKind { coordinate, expected: "hinge" })
            },
        },
        SpatialAssemblyEdit::HingeDriverTarget { source, target, .. } => if value_error(target) is Some {
            value_error(target)
        } else if source_position(s, source) is None {
            Some(SpatialAssemblyError::UnknownSource(source))
        } else if source_shape_of(s, source) is HingePositionDriver {
            None
        } else {
            Some(SpatialAssemblyError::WrongSourceKind { source_id: source, expected: "a hinge driver target edit" })
        },
        SpatialAssemblyEdit::TranslationDriverTarget { source, target, .. } => if value_error(target) is Some {
            value_error(target)
        } else if source_position(s, source) is None {
            Some(SpatialAssemblyError::UnknownSource(source))
        } else if source_shape_of(s, source) is TranslationPositionDriver {
            None
        } else {
            Some(SpatialAssemblyError::WrongSourceKind { source_id: source, expected: "a translation driver target edit" })
        },
        SpatialAssemblyEdit::SourceAxisParity { source, .. } => if source_position(s, source) is None {
            Some(SpatialAssemblyError::UnknownSource(source))
        } else if has_parity(source_shape_of(s, source)) {
            None
        } else {
            Some(SpatialAssemblyError::WrongSourceKind { source_id: source, expected: "an axis-parity edit" })
        },
        SpatialAssemblyEdit::MonitorAxisParity { monitor, .. } =>
            monitor_edit_error(s, monitor, monitor_kind_of(s, monitor) is AxisParity, "an axis-parity monitor edit"),
        SpatialAssemblyEdit::MonitorHingeWinding { monitor, .. } =>
            monitor_edit_error(s, monitor, monitor_kind_of(s, monitor) is HingeWinding, "a hinge-winding monitor edit"),
        SpatialAssemblyEdit::MonitorPlaneSide { monitor, .. } =>
            monitor_edit_error(s, monitor, monitor_kind_of(s, monitor) is PlaneSide, "a plane-side monitor edit"),
        SpatialAssemblyEdit::MonitorSignedVolumeOrientation { monitor, .. } =>
            monitor_edit_error(s, monitor, monitor_kind_of(s, monitor) is SignedVolume, "a signed-volume monitor edit"),
    }
}

/// A feature list with the feature at `k` given the local geometry `local`
/// and its geometry verdict cleared.
pub open spec fn feature_accepted<Id>(features: Seq<SpatialFeatureRecord<Id>>, k: int, local: SpatialLocalGeometry) -> Seq<SpatialFeatureRecord<Id>> {
    features.update(k, SpatialFeatureRecord { id: features[k].id, label: features[k].label, body: features[k].body, local, geometry: None })
}

/// A monitor kind with the watched state of `edit` written in.
pub open spec fn with_monitor_state(kind: SpatialModeMonitorKind, edit: SpatialAssemblyEdit) -> SpatialModeMonitorKind {
    match (kind, edit) {
        (SpatialModeMonitorKind::AxisParity { first, second, .. }, SpatialAssemblyEdit::MonitorAxisParity { parity, .. }) =>
            SpatialModeMonitorKind::AxisParity { first, second, parity },
        (SpatialModeMonitorKind::HingeWinding { coordinate, .. }, SpatialAssemblyEdit::MonitorHingeWinding { winding, .. }) =>
            SpatialModeMonitorKind::HingeWinding { coordinate, winding },
        (SpatialModeMonitorKind::PlaneSide { plane, point, .. }, SpatialAssemblyEdit::MonitorPlaneSide { side, .. }) =>
            SpatialModeMonitorKind::PlaneSide { plane, point, side },
        (SpatialModeMonitorKind::SignedVolume { points, .. }, SpatialAssemblyEdit::MonitorSignedVolumeOrientation { orientation, .. }) =>
            SpatialModeMonitorKind::SignedVolume { points, orientation },
        _ => kind,
    }
}

/// `new` is `old` with the accepted `edit` applied: the addressed record
/// carries the new value (for a floating-point value, its bits and a passing
/// verdict), and nothing else changes.
pub open spec fn edited(old: SpatialStructure, new: SpatialStructure, edit: SpatialAssemblyEdit) -> bool {
    match edit {
        SpatialAssemblyEdit::BodyPoseGuess { body, pose_guess, .. } => {
            let k = body_position(old, body)->0;
            &&& same_but(old, new, SpatialStructurePart::Bodies)
            &&& new.bodies@ == old.bodies@.update(k, SpatialBodyRecord { id: old.bodies@[k].id, label: old.bodies@[k].label, pose_guess, pose: None })
        },
        SpatialAssemblyEdit::PointLocal { feature, local_point, .. } => {
            &&& same_but(old, new, SpatialStructurePart::PointFeatures)
            &&& new.point_features@ == feature_accepted(old.point_features@, feature_position(old.point_features@, feature)->0, SpatialLocalGeometry::Point(local_point))
        },
        SpatialAssemblyEdit::FrameLocal { feature, local_frame, .. } => {
            &&& same_but(old, new, SpatialStructurePart::FrameFeatures)
            &&& new.frame_features@ == feature_accepted(old.frame_features@, feature_position(old.frame_features@, feature)->0, SpatialLocalGeometry::Frame(local_frame))
        },
        SpatialAssemblyEdit::AxisLocal { feature, local_frame, .. } => {
            &&& same_but(old, new, SpatialStructurePart::AxisFeatures)
            &&& new.axis_features@ == feature_accepted(old.axis_features@, feature_position(old.axis_features@, feature)->0, SpatialLocalGeometry::Frame(local_frame))
        },
        SpatialAssemblyEdit::PlaneLocal { feature, local_frame, .. } => {
            &&& same_but(old, new, SpatialStructurePart::PlaneFeatures)
            &&& new.plane_features@ == feature_accepted(old.plane_features@, feature_position(old.plane_features@, feature)->0, SpatialLocalGeometry::Frame(local_frame))
        },
        SpatialAssemblyEdit::HingeWinding { coordinate, winding } => {
            let k = coordinate_position(old, coordinate)->0;
            let c = old.coordinates@[k];
            &&& same_but(old, new, SpatialStructurePart::Coordinates)
            &&& new.coordinates@ == old.coordinates@.update(k, SpatialCoordinate {
                id: c.id,
                label: c.label,
                kind: SpatialCoordinateKind::Hinge { parent: c.kind->Hinge_parent, winding },
            })
        },
        SpatialAssemblyEdit::HingeDriverTarget { source, winding, phase_bits, .. } => {
            let k = source_position(old, source)->0;
            let r = old.sources@[k];
            &&& same_but(old, new, SpatialStructurePart::Sources)
            &&& new.sources@ == old.sources@.update(k, SpatialSourceRecord {
                id: r.id,
                label: r.label,
                shape: SpatialSourceShape::HingePositionDriver { coordinate: r.shape->HingePositionDriver_coordinate, winding, phase_bits },
                numbers: r.numbers,
                values: None,
            })
        },
        SpatialAssemblyEdit::TranslationDriverTarget { source, target_bits, .. } => {
            let k = source_position(old, source)->0;
            let r = old.sources@[k];
            &&& same_but(old, new, SpatialStructurePart::Sources)
            &&& new.sources@ == old.sources@.update(k, SpatialSourceRecord {
                id: r.id,
                label: r.label,
                shape: SpatialSourceShape::TranslationPositionDriver { coordinate: r.shape->TranslationPositionDriver_coordinate, target_bits },
                numbers: r.numbers,
                values: None,
            })
        },
        SpatialAssemblyEdit::SourceAxisParity { source, parity } => {
            let k = source_position(old, source)->0;
            let r = old.sources@[k];
            &&& same_but(old, new, SpatialStructurePart::Sources)
            &&& new.sources@ == old.sources@.update(k, SpatialSourceRecord { id: r.id, label: r.label, shape: with_parity(r.shape, parity), numbers: r.numbers, values: r.values })
        },
        _ => {
            let monitor = match edit {
                SpatialAssemblyEdit::MonitorAxisParity { monitor, .. } => monitor,
                SpatialAssemblyEdit::MonitorHingeWinding { monitor, .. } => monitor,
                SpatialAssemblyEdit::MonitorPlaneSide { monitor, .. } => monitor,
                SpatialAssemblyEdit::MonitorSignedVolumeOrientation { monitor, .. } => monitor,
                _ => arbitrary(),
            };
            let k = monitor_position(old, monitor)->0;
            let m = old.mode_monitors@[k];
            &&& same_but(old, new, SpatialStructurePart::Monitors)
            &&& new.mode_monitors@ == old.mode_monitors@.update(k, SpatialModeMonitor { id: m.id, label: m.label, kind: with_monitor_state(m.kind, edit) })
        },
    }
}

fn accept_feature<Id: SpatialIdValue>(features: &mut Vec<SpatialFeatureRecord<Id>>, k: usize, local: SpatialLocalGeometry)
    requires
        k < old(features)@.len(),
    ensures
        final(features)@ == feature_accepted(old(features)@, k as int, local),
{
    let record = SpatialFeatureRecord { id: features[k].id, label: features[k].label.clone(), body: features[k].body, local, geometry: None };
    features.set(k, record);
}

/// Applies one edit, or rejects it and leaves the structure unchanged.
pub fn apply_edit(s: &mut SpatialStructure, edit: SpatialAssemblyEdit) -> (result: Result<(), SpatialAssemblyError>)
    ensures
        match edit_error(*old(s), edit) {
            Some(e) => result == Err::<(), _>(e) && *final(s) == *old(s),
            None => result is Ok && edited(*old(s), *final(s), edit),
        },
{
    match edit {
        SpatialAssemblyEdit::BodyPoseGuess { body, pose_guess, pose } => {
            if let Some(error) = check_value(pose) {
                return Err(error);
            }
            let k = match find_body(&s.bodies, body) {
                Some(k) => k,
                None => {
                    return Err(SpatialAssemblyError::UnknownBody(body));
                },
            };
            let record = SpatialBodyRecord { id: s.bodies[k].id, label: s.bodies[k].label.clone(), pose_guess, pose: None };
            s.bodies.set(k, record);
        },
        SpatialAssemblyEdit::PointLocal { feature, local_point, geometry } => {
            if let Some(error) = check_value(geometry) {
                return Err(error);
            }
            match find_feature(&s.point_features, feature) {
                Some(k) => accept_feature(&mut s.point_features, k, SpatialLocalGeometry::Point(local_point)),
                None => {
                    return Err(SpatialAssemblyError::UnknownPointFeature(feature));
                },
            }
        },
        SpatialAssemblyEdit::FrameLocal { feature, local_frame, geometry } => {
            if let Some(error) = check_value(geometry) {
                return Err(error);
            }
            match find_feature(&s.frame_features, feature) {
                Some(k) => accept_feature(&mut s.frame_features, k, SpatialLocalGeometry::Frame(local_frame)),
                None => {
                    return Err(SpatialAssemblyError::UnknownFrameFeature(feature));
                },
            }
        },
        SpatialAssemblyEdit::AxisLocal { feature, local_frame, geometry } => {
            if let Some(error) = check_value(geometry) {
                return Err(error);
            }
            match find_feature(&s.axis_features, feature) {
                Some(k) => accept_feature(&mut s.axis_features, k, SpatialLocalGeometry::Frame(local_frame)),
                None => {
                    return Err(SpatialAssemblyError::UnknownAxisFeature(feature));
                },
            }
        },
        SpatialAssemblyEdit::PlaneLocal { feature, local_frame, geometry } => {
            if let Some(error) = check_value(geometry) {
                return Err(error);
            }
            match find_feature(&s.plane_features, feature) {
                Some(k) => accept_feature(&mut s.plane_features, k, SpatialLocalGeometry::Frame(local_frame)),
                None => {
                    return Err(SpatialAssemblyError::UnknownPlaneFeature(feature));
                },
            }
        },
        SpatialAssemblyEdit::HingeWinding { coordinate, winding } => {
            let k = match find_coordinate(&s.coordinates, coordinate) {
                Some(k) => k,
                None => {
                    return Err(SpatialAssemblyError::UnknownCoordinate(coordinate));
                },
            };
            let parent = match s.coordinates[k].kind {
                SpatialCoordinateKind::Hinge { parent, .. } => parent,
                _ => {
                    return Err(SpatialAssemblyError::WrongCoordinateKind { coordinate, expected: "hinge" });
                },
            };
            let record = SpatialCoordinate {
                id: s.coordinates[k].id,
                label: s.coordinates[k].label.clone(),
                kind: SpatialCoordinateKind::Hinge { parent, winding },
            };
            s.coordinates.set(k, record);
        },
        SpatialAssemblyEdit::HingeDriverTarget { source, winding, phase_bits, target } => {
            if let Some(error) = check_value(target) {
                return Err(error);
            }
            let k = match find_source(&s.sources, source) {
                Some(k) => k,
                None => {
                    return Err(SpatialAssemblyError::UnknownSource(source));
                },
            };
            let coordinate = match s.sources[k].shape {
                SpatialSourceShape::HingePositionDriver { coordinate, .. } => coordinate,
                _ => {
                    return Err(SpatialAssemblyError::WrongSourceKind { source_id: source, expected: "a hinge driver target edit" });
                },
            };
            let record = SpatialSourceRecord {
                id: s.sources[k].id,
                label: s.sources[k].label.clone(),
                shape: SpatialSourceShape::HingePositionDriver { coordinate, winding, phase_bits },
                numbers: s.sources[k].numbers,
                values: None,
            };
            s.sources.set(k, record);
        },
        SpatialAssemblyEdit::TranslationDriverTarget { source, target_bits, target } => {
            if let Some(error) = check_value(target) {
                return Err(error);
            }
            let k = match find_source(&s.sources, source) {
                Some(k) => k,
                None => {
                    return Err(SpatialAssemblyError::UnknownSource(source));
                },
            };
            let coordinate = match s.sources[k].shape {
                SpatialSourceShape::TranslationPositionDriver { coordinate, .. } => coordinate,
                _ => {
                    return Err(SpatialAssemblyError::WrongSourceKind { source_id: source, expected: "a translation driver target edit" });
                },
            };
            let record = SpatialSourceRecord {
                id: s.sources[k].id,
                label: s.sources[k].label.clone(),
                shape: SpatialSourceShape::TranslationPositionDriver { coordinate, target_bits },
                numbers: s.sources[k].numbers,
                values: None,
            };
            s.sources.set(k, record);
        },
        SpatialAssemblyEdit::SourceAxisParity { source, parity } => {
            let k = match find_source(&s.sources, source) {
                Some(k) => k,
                None => {
                    return Err(SpatialAssemblyError::UnknownSource(source));
                },
            };
            let shape = match s.sources[k].shape {
                SpatialSourceShape::RevoluteJoint { first, second, .. } => SpatialSourceShape::RevoluteJoint { first, second, parity },
                SpatialSourceShape::PrismaticJoint { first, second, .. } => SpatialSourceShape::PrismaticJoint { first, second, parity },
                SpatialSourceShape::CylindricalJoint { first, second, .. } => SpatialSourceShape::CylindricalJoint { first, second, parity },
                SpatialSourceShape::PlanarJoint { first, second, .. } => SpatialSourceShape::PlanarJoint { first, second, parity },
                SpatialSourceShape::AxisAlignmentMate { first, second, .. } => SpatialSourceShape::AxisAlignmentMate { first, second, parity },
                _ => {
                    return Err(SpatialAssemblyError::WrongSourceKind { source_id: source, expected: "an axis-parity edit" });
                },
            };
            let record = SpatialSourceRecord { id: s.sources[k].id, label: s.sources[k].label.clone(), shape, numbers: s.sources[k].numbers, values: s.sources[k].values };
            s.sources.set(k, record);
        },
        SpatialAssemblyEdit::MonitorAxisParity { monitor, parity } => {
            let k = match find_monitor(&s.mode_monitors, monitor) {
                Some(k) => k,
                None => {
                    return Err(SpatialAssemblyError::UnknownModeMonitor(monitor));
                },
            };
            let kind = match s.mode_monitors[k].kind {
                SpatialModeMonitorKind::AxisParity { first, second, .. } => SpatialModeMonitorKind::AxisParity { first, second, parity },
                _ => {
                    return Err(SpatialAssemblyError::WrongModeMonitorKind { monitor_id: monitor, expected: "an axis-parity monitor edit" });
                },
            };
            let record = SpatialModeMonitor { id: s.mode_monitors[k].id, label: s.mode_monitors[k].label.clone(), kind };
            s.mode_monitors.set(k, record);
        },
        SpatialAssemblyEdit::MonitorHingeWinding { monitor, winding } => {
            let k = match find_monitor(&s.mode_monitors, monitor) {
                Some(k) => k,
                None => {
                    return Err(SpatialAssemblyError::UnknownModeMonitor(monitor));
                },
            };
            let kind = match s.mode_monitors[k].kind {
                SpatialModeMonitorKind::HingeWinding { coordinate, .. } => SpatialModeMonitorKind::HingeWinding { coordinate, winding },
                _ => {
                    return Err(SpatialAssemblyError::WrongModeMonitorKind { monitor_id: monitor, expected: "a hinge-winding monitor edit" });
                },
            };
            let record = SpatialModeMonitor { id: s.mode_monitors[k].id, label: s.mode_monitors[k].label.clone(), kind };
            s.mode_monitors.set(k, record);
        },
        SpatialAssemblyEdit::MonitorPlaneSide { monitor, side } => {
            let k = match find_monitor(&s.mode_monitors, monitor) {
                Some(k) => k,
                None => {
                    return Err(SpatialAssemblyError::UnknownModeMonitor(monitor));
                },
            };
            let kind = match s.mode_monitors[k].kind {
                SpatialModeMonitorKind::PlaneSide { plane, point, .. } => SpatialModeMonitorKind::PlaneSide { plane, point, side },
                _ => {
                    return Err(SpatialAssemblyError::WrongModeMonitorKind { monitor_id: monitor, expected: "a plane-side monitor edit" });
                },
            };
            let record = SpatialModeMonitor { id: s.mode_monitors[k].id, label: s.mode_monitors[k].label.clone(), kind };
            s.mode_monitors.set(k, record);
        },
        SpatialAssemblyEdit::MonitorSignedVolumeOrientation { monitor, orientation } => {
            let k = match find_monitor(&s.mode_monitors, monitor) {
                Some(k) => k,
                None => {
                    return Err(SpatialAssemblyError::UnknownModeMonitor(monitor));
                },
            };
            let kind = match s.mode_monitors[k].kind {
                SpatialModeMonitorKind::SignedVolume { points, .. } => SpatialModeMonitorKind::SignedVolume { points, orientation },
                _ => {
                    return Err(SpatialAssemblyError::WrongModeMonitorKind { monitor_id: monitor, expected: "a signed-volume monitor edit" });
                },
            };
            let record = SpatialModeMonitor { id: s.mode_monitors[k].id, label: s.mode_monitors[k].label.clone(), kind };
            s.mode_monitors.set(k, record);
        },
    }
    Ok(())
}

// ---------------------------------------------------------------------------
// Transactions.

/// The value an edit addresses.
pub open spec fn edit_key(edit: SpatialAssemblyEdit) -> SpatialEditKey {
    match edit {
        SpatialAssemblyEdit::BodyPoseGuess { body, .. } => SpatialEditKey::BodyPose(body),
        SpatialAssemblyEdit::PointLocal { feature, .. } => SpatialEditKey::PointLocal(feature),
        SpatialAssemblyEdit::FrameLocal { feature, .. } => SpatialEditKey::FrameLocal(feature),
        SpatialAssemblyEdit::AxisLocal { feature, .. } => SpatialEditKey::AxisLocal(feature),
        SpatialAssemblyEdit::PlaneLocal { feature, .. } => SpatialEditKey::PlaneLocal(feature),
        SpatialAssemblyEdit::HingeWinding { coordinate, .. } => SpatialEditKey::HingeWinding(coordinate),
        SpatialAssemblyEdit::HingeDriverTarget { source, .. } => SpatialEditKey::HingeDriverTarget(source),
        SpatialAssemblyEdit::TranslationDriverTarget { source, .. } => SpatialEditKey::TranslationDriverTarget(source),
        SpatialAssemblyEdit::SourceAxisParity { source, .. } => SpatialEditKey::SourceAxisParity(source),
        SpatialAssemblyEdit::MonitorAxisParity { monitor, .. } => SpatialEditKey::ModeMonitor(monitor),
        SpatialAssemblyEdit::MonitorHingeWinding { monitor, .. } => SpatialEditKey::ModeMonitor(monitor),
        SpatialAssemblyEdit::MonitorPlaneSide { monitor, .. } => SpatialEditKey::ModeMonitor(monitor),
        SpatialAssemblyEdit::MonitorSignedVolumeOrientation { monitor, .. } => SpatialEditKey::ModeMonitor(monitor),
    }
}

/// The role of an edit, as a rejection names it.
pub open spec fn edit_role(edit: SpatialAssemblyEdit) -> &'static str {
    match edit {
        SpatialAssemblyEdit::BodyPoseGuess { .. } => "body pose",
        SpatialAssemblyEdit::PointLocal { .. } => "point local geometry",
        SpatialAssemblyEdit::FrameLocal { .. } => "frame local geometry",
        SpatialAssemblyEdit::AxisLocal { .. } => "axis local geometry",
        SpatialAssemblyEdit::PlaneLocal { .. } => "plane local geometry",
        SpatialAssemblyEdit::HingeWinding { .. } => "hinge winding",
        SpatialAssemblyEdit::HingeDriverTarget { .. } => "hinge driver target",
        SpatialAssemblyEdit::TranslationDriverTarget { .. } => "translation driver target",
        SpatialAssemblyEdit::SourceAxisParity { .. } => "source axis parity",
        SpatialAssemblyEdit::MonitorAxisParity { .. } => "axis-parity monitor state",
        SpatialAssemblyEdit::MonitorHingeWinding { .. } => "hinge-winding monitor state",
        SpatialAssemblyEdit::MonitorPlaneSide { .. } => "plane-side monitor state",
        SpatialAssemblyEdit::MonitorSignedVolumeOrientation { .. } => "signed-volume monitor state",
    }
}

fn key_and_role(edit: SpatialAssemblyEdit) -> (pair: (SpatialEditKey, &'static str))
    ensures
        pair.0 == edit_key(edit),
        pair.1 == edit_role(edit),
{
    match edit {
        SpatialAssemblyEdit::BodyPoseGuess { body, .. } => (SpatialEditKey::BodyPose(body), "body pose"),
        SpatialAssemblyEdit::PointLocal { feature, .. } => (SpatialEditKey::PointLocal(feature), "point local geometry"),
        SpatialAssemblyEdit::FrameLocal { feature, .. } => (SpatialEditKey::FrameLocal(feature), "frame local geometry"),
        SpatialAssemblyEdit::AxisLocal { feature, .. } => (SpatialEditKey::AxisLocal(feature), "axis local geometry"),
        SpatialAssemblyEdit::PlaneLocal { feature, .. } => (SpatialEditKey::PlaneLocal(feature), "plane local geometry"),
        SpatialAssemblyEdit::HingeWinding { coordinate, .. } => (SpatialEditKey::HingeWinding(coordinate), "hinge winding"),
        SpatialAssemblyEdit::HingeDriverTarget { source, .. } => (SpatialEditKey::HingeDriverTarget(source), "hinge driver target"),
        SpatialAssemblyEdit::TranslationDriverTarget { source, .. } => (SpatialEditKey::TranslationDriverTarget(source), "translation driver target"),
        SpatialAssemblyEdit::SourceAxisParity { source, .. } => (SpatialEditKey::SourceAxisParity(source), "source axis parity"),
        SpatialAssemblyEdit::MonitorAxisParity { monitor, .. } => (SpatialEditKey::ModeMonitor(monitor), "axis-parity monitor state"),
        SpatialAssemblyEdit::MonitorHingeWinding { monitor, .. } => (SpatialEditKey::ModeMonitor(monitor), "hinge-winding monitor state"),
        SpatialAssemblyEdit::MonitorPlaneSide { monitor, .. } => (SpatialEditKey::ModeMonitor(monitor), "plane-side monitor state"),
        SpatialAssemblyEdit::MonitorSignedVolumeOrientation { monitor, .. } => (SpatialEditKey::ModeMonitor(monitor), "signed-volume monitor state"),
    }
}

/// The first edit that addresses a value an earlier edit already addresses.
pub open spec fn duplicate_edit(edits: Seq<SpatialAssemblyEdit>) -> Option<SpatialAssemblyError>
    decreases edits.len(),
{
    if edits.len() == 0 {
        None
    } else {
        match duplicate_edit(edits.drop_last()) {
            Some(e) => Some(e),
            None => if exists|i: int| 0 <= i < edits.len() - 1 && #[trigger] edit_key(edits[i]) == edit_key(edits.last()) {
                Some(SpatialAssemblyError::DuplicateEdit { role: edit_role(edits.last()), key: edit_key(edits.last()) })
            } else {
                None
            },
        }
    }
}

proof fn lemma_duplicate_prefix(edits: Seq<SpatialAssemblyEdit>, k: int)
    requires
        0 <= k <= edits.len(),
        duplicate_edit(edits.take(k)) is Some,
    ensures
        duplicate_edit(edits) == duplicate_edit(edits.take(k)),
    decreases edits.len() - k,
{
    if k == edits.len() {
        assert(edits.take(k) =~= edits);
    } else {
        assert(edits.take(k + 1).drop_last() =~= edits.take(k));
        lemma_duplicate_prefix(edits, k + 1);
    }
}

/// Rejects a transaction that edits one value twice.
pub fn validate_transaction_edit_uniqueness(edits: &Vec<SpatialAssemblyEdit>) -> (result: Result<(), SpatialAssemblyError>)
    ensures
        match duplicate_edit(edits@) {
            Some(e) => result == Err::<(), _>(e),
            None => result is Ok,
        },
{
    let mut keys: Vec<SpatialEditKey> = Vec::new();
    let mut i: usize = 0;
    while i < edits.len()
        invariant
            i <= edits@.len(),
            keys@.len() == i,
            forall|j: int| 0 <= j < i ==> keys@[j] == edit_key(#[trigger] edits@[j]),
            duplicate_edit(edits@.take(i as int)) is None,
        decreases edits@.len() - i,
    {
        let (key, role) = key_and_role(edits[i]);
        proof {
            assert(edits@.take(i as int + 1).drop_last() =~= edits@.take(i as int));
            assert(edits@.take(i as int + 1).last() == edits@[i as int]);
        }
        let mut j: usize = 0;
        while j < keys.len()
            invariant
                j <= keys@.len(),
                keys@.len() == i,
                i < edits@.len(),
                key == edit_key(edits@[i as int]),
                forall|q: int| 0 <= q < i ==> keys@[q] == edit_key(#[trigger] edits@[q]),
                forall|q: int| 0 <= q < j ==> keys@[q] != key,
                duplicate_edit(edits@.take(i as int)) is None,
                edits@.take(i as int + 1).drop_last() == edits@.take(i as int),
                edits@.take(i as int + 1).last() == edits@[i as int],
                role == edit_role(edits@[i as int]),
            decreases keys@.len() - j,
        {
            if keys[j] == key {
                proof {
                    let prefix = edits@.take(i as int + 1);
                    assert(prefix[j as int] == edits@[j as int]);
                    assert(edit_key(prefix[j as int]) == edit_key(prefix.last()));
                    lemma_duplicate_prefix(edits@, i as int + 1);
                }
                return Err(SpatialAssemblyError::DuplicateEdit { role, key });
            }
            j = j + 1;
        }
        proof {
            let prefix = edits@.take(i as int + 1);
            assert forall|q: int| 0 <= q < prefix.len() - 1 implies #[trigger] edit_key(prefix[q]) != edit_key(prefix.last()) by {
                assert(prefix[q] == edits@[q]);
                assert(keys@[q] != key);
            }
        }
        keys.push(key);
        i = i + 1;
    }
    proof {
        assert(edits@.take(i as int) =~= edits@);
    }
    Ok(())
}

/// `states` are the structures passed through applying `edits` to `old` in
/// order, each edit accepted.
pub open spec fn edit_trace(old: SpatialStructure, edits: Seq<SpatialAssemblyEdit>, states: Seq<SpatialStructure>) -> bool {
    &&& states.len() == edits.len() + 1
    &&& states[0] == old
    &&& forall|k: int| 0 <= k < edits.len() ==> edit_error(#[trigger] states[k], edits[k]) is None && edited(states[k], states[k + 1], edits[k])
}

/// Applying `edits` in order to `old`, each accepted, gives `new`.
pub open spec fn edits_applied(old: SpatialStructure, edits: Seq<SpatialAssemblyEdit>, new: SpatialStructure) -> bool {
    exists|states: Seq<SpatialStructure>| #[trigger] edit_trace(old, edits, states) && states.last() == new
}

/// Applying `edits` in order to `old`, some edit is rejected with `e` after the
/// ones before it were accepted.
pub open spec fn edits_rejected(old: SpatialStructure, edits: Seq<SpatialAssemblyEdit>, e: SpatialAssemblyError) -> bool {
    exists|k: int, states: Seq<SpatialStructure>|
        0 <= k < edits.len() && #[trigger] edit_trace(old, edits.take(k), states) && edit_error(states.last(), edits[k]) == Some(e)
}

/// Applies the edits of a transaction in order to a staged structure: a
/// transaction that edits one value twice is rejected untouched; otherwise the
/// edits apply in order until one is rejected.
pub fn apply_transaction_edits(s: &mut SpatialStructure, edits: &Vec<SpatialAssemblyEdit>) -> (result: Result<(), SpatialAssemblyError>)
    ensures
        duplicate_edit(edits@) matches Some(e) ==> result == Err::<(), _>(e) && *final(s) == *old(s),
        duplicate_edit(edits@) is None ==> match result {
            Ok(_) => edits_applied(*old(s), edits@, *final(s)),
            Err(e) => edits_rejected(*old(s), edits@, e),
        },
{
    validate_transaction_edit_uniqueness(edits)?;
    let ghost start = *s;
    let ghost mut states: Seq<SpatialStructure> = seq![start];
    let mut i: usize = 0;
    while i < edits.len()
        invariant
            i <= edits@.len(),
            edit_trace(start, edits@.take(i as int), states),
            states.last() == *s,
            duplicate_edit(edits@) is None,
            start == *old(s),
        decreases edits@.len() - i,
    {
        let ghost before = *s;
        match apply_edit(s, edits[i]) {
            Ok(()) => {},
            Err(e) => {
                proof {
                    assert(edit_trace(start, edits@.take(i as int), states) && edit_error(states.last(), edits@[i as int]) == Some(e));
                }
                return Err(e);
            },
        }
        proof {
            let previous = edits@.take(i as int);
            let next = edits@.take(i as int + 1);
            let grown = states.push(*s);
            assert forall|k: int| 0 <= k < next.len() implies edit_error(#[trigger] grown[k], next[k]) is None && edited(grown[k], grown[k + 1], next[k]) by {
                if k < i {
                    assert(next[k] == previous[k]);
                    assert(grown[k] == states[k]);
                    assert(grown[k + 1] == states[k + 1]);
                    assert(edit_error(states[k], previous[k]) is None);
                } else {
                    assert(next[k] == edits@[i as int]);
                    assert(grown[k] == before);
                    assert(grown[k + 1] == *s);
                }
            }
            assert(edit_trace(start, next, grown));
            states = grown;
        }
        i = i + 1;
    }
    proof {
        assert(edits@.take(i as int) =~= edits@);
    }
    Ok(())
}

// ---------------------------------------------------------------------------
// Edits keep the objects.

/// `new` holds the same objects as `old`: the same namespace and next
/// identity, and in every list the same identities and labels in the same order.
pub open spec fn same_objects(old: SpatialStructure, new: SpatialStructure) -> bool {
    &&& new.namespace == old.namespace
    &&& new.next_id == old.next_id
    &&& new.bodies@.len() == old.bodies@.len()
    &&& forall|k: int| 0 <= k < old.bodies@.len() ==> (#[trigger] new.bodies@[k]).id == old.bodies@[k].id && new.bodies@[k].label == old.bodies@[k].label
    &&& new.point_features@.len() == old.point_features@.len()
    &&& forall|k: int| 0 <= k < old.point_features@.len() ==> (#[trigger] new.point_features@[k]).id == old.point_features@[k].id
        && new.point_features@[k].label == old.point_features@[k].label && new.point_features@[k].body == old.point_features@[k].body
    &&& new.frame_features@.len() == old.frame_features@.len()
    &&& forall|k: int| 0 <= k < old.frame_features@.len() ==> (#[trigger] new.frame_features@[k]).id == old.frame_features@[k].id
        && new.frame_features@[k].label == old.frame_features@[k].label && new.frame_features@[k].body == old.frame_features@[k].body
    &&& new.axis_features@.len() == old.axis_features@.len()
    &&& forall|k: int| 0 <= k < old.axis_features@.len() ==> (#[trigger] new.axis_features@[k]).id == old.axis_features@[k].id
        && new.axis_features@[k].label == old.axis_features@[k].label && new.axis_features@[k].body == old.axis_features@[k].body
    &&& new.plane_features@.len() == old.plane_features@.len()
    &&& forall|k: int| 0 <= k < old.plane_features@.len() ==> (#[trigger] new.plane_features@[k]).id == old.plane_features@[k].id
        && new.plane_features@[k].label == old.plane_features@[k].label && new.plane_features@[k].body == old.plane_features@[k].body
    &&& new.coordinates@.len() == old.coordinates@.len()
    &&& forall|k: int| 0 <= k < old.coordinates@.len() ==> (#[trigger] new.coordinates@[k]).id == old.coordinates@[k].id && new.coordinates@[k].label == old.coordinates@[k].label
    &&& new.sources@.len() == old.sources@.len()
    &&& forall|k: int| 0 <= k < old.sources@.len() ==> (#[trigger] new.sources@[k]).id == old.sources@[k].id && new.sources@[k].label == old.sources@[k].label
    &&& new.mode_monitors@.len() == old.mode_monitors@.len()
    &&& forall|k: int| 0 <= k < old.mode_monitors@.len() ==> (#[trigger] new.mode_monitors@[k]).id == old.mode_monitors@[k].id && new.mode_monitors@[k].label == old.mode_monitors@[k].label
}

/// An accepted edit writes its new value into the record it addresses (the
/// first with its identity), keeps that record's identity, label and other
/// fields, and leaves every record of another identity as it was: a pose
/// guess or local geometry takes the edit's bits, a hinge coordinate its
/// winding, a driver its target, a jointed or aligned source its parity, and a
/// monitor its watched parity, winding, side or orientation.
pub proof fn lemma_edit_writes_its_value(old: SpatialStructure, new: SpatialStructure, edit: SpatialAssemblyEdit)
    requires
        edit_error(old, edit) is None,
        edited(old, new, edit),
    ensures
        match edit {
            SpatialAssemblyEdit::BodyPoseGuess { body, pose_guess, .. } => {
                &&& new.bodies@.len() == old.bodies@.len()
                &&& forall|k: int| body_position(old, body) == Some(k) ==> {
                    &&& new.bodies@[k].id == body
                    &&& new.bodies@[k].label == old.bodies@[k].label
                    &&& new.bodies@[k].pose_guess == pose_guess
                }
                &&& forall|j: int| 0 <= j < old.bodies@.len() && old.bodies@[j].id != body ==> #[trigger] new.bodies@[j] == old.bodies@[j]
            },
            SpatialAssemblyEdit::PointLocal { feature, local_point, .. } => {
                &&& new.point_features@.len() == old.point_features@.len()
                &&& forall|k: int| feature_position(old.point_features@, feature) == Some(k) ==> {
                    &&& new.point_features@[k].id == feature
                    &&& new.point_features@[k].body == old.point_features@[k].body
                    &&& new.point_features@[k].label == old.point_features@[k].label
                    &&& new.point_features@[k].local == SpatialLocalGeometry::Point(local_point)
                }
                &&& forall|j: int| 0 <= j < old.point_features@.len() && old.point_features@[j].id != feature ==> #[trigger] new.point_features@[j] == old.point_features@[j]
            },
            SpatialAssemblyEdit::FrameLocal { feature, local_frame, .. } => {
                &&& new.frame_features@.len() == old.frame_features@.len()
                &&& forall|k: int| feature_position(old.frame_features@, feature) == Some(k) ==> {
                    &&& new.frame_features@[k].id == feature
                    &&& new.frame_features@[k].body == old.frame_features@[k].body
                    &&& new.frame_features@[k].label == old.frame_features@[k].label
                    &&& new.frame_features@[k].local == SpatialLocalGeometry::Frame(local_frame)
                }
                &&& forall|j: int| 0 <= j < old.frame_features@.len() && old.frame_features@[j].id != feature ==> #[trigger] new.frame_features@[j] == old.frame_features@[j]
            },
            SpatialAssemblyEdit::AxisLocal { feature, local_frame, .. } => {
                &&& new.axis_features@.len() == old.axis_features@.len()
                &&& forall|k: int| feature_position(old.axis_features@, feature) == Some(k) ==> {
                    &&& new.axis_features@[k].id == feature
                    &&& new.axis_features@[k].body == old.axis_features@[k].body
                    &&& new.axis_features@[k].label == old.axis_features@[k].label
                    &&& new.axis_features@[k].local == SpatialLocalGeometry::Frame(local_frame)
                }
                &&& forall|j: int| 0 <= j < old.axis_features@.len() && old.axis_features@[j].id != feature ==> #[trigger] new.axis_features@[j] == old.axis_features@[j]
            },
            SpatialAssemblyEdit::PlaneLocal { feature, local_frame, .. } => {
                &&& new.plane_features@.len() == old.plane_features@.len()
                &&& forall|k: int| feature_position(old.plane_features@, feature) == Some(k) ==> {
                    &&& new.plane_features@[k].id == feature
                    &&& new.plane_features@[k].body == old.plane_features@[k].body
                    &&& new.plane_features@[k].label == old.plane_features@[k].label
                    &&& new.plane_features@[k].local == SpatialLocalGeometry::Frame(local_frame)
                }
                &&& forall|j: int| 0 <= j < old.plane_features@.len() && old.plane_features@[j].id != feature ==> #[trigger] new.plane_features@[j] == old.plane_features@[j]
            },
            SpatialAssemblyEdit::HingeWinding { coordinate, winding } => {
                &&& new.coordinates@.len() == old.coordinates@.len()
                &&& forall|k: int| coordinate_position(old, coordinate) == Some(k) ==> {
                    &&& new.coordinates@[k].id == coordinate
                    &&& new.coordinates@[k].label == old.coordinates@[k].label
                    &&& new.coordinates@[k].kind is Hinge
                    &&& new.coordinates@[k].kind->Hinge_winding == winding
                    &&& new.coordinates@[k].kind->Hinge_parent == old.coordinates@[k].kind->Hinge_parent
                }
                &&& forall|j: int| 0 <= j < old.coordinates@.len() && old.coordinates@[j].id != coordinate ==> #[trigger] new.coordinates@[j] == old.coordinates@[j]
            },
            SpatialAssemblyEdit::HingeDriverTarget { source, winding, phase_bits, .. } => {
                &&& new.sources@.len() == old.sources@.len()
                &&& forall|k: int| source_position(old, source) == Some(k) ==> {
                    &&& new.sources@[k].id == source
                    &&& new.sources@[k].label == old.sources@[k].label
                    &&& new.sources@[k].numbers == old.sources@[k].numbers
                    &&& new.sources@[k].shape is HingePositionDriver
                    &&& new.sources@[k].shape->HingePositionDriver_winding == winding
                    &&& new.sources@[k].shape->HingePositionDriver_phase_bits == phase_bits
                    &&& new.sources@[k].shape->HingePositionDriver_coordinate == old.sources@[k].shape->HingePositionDriver_coordinate
                }
                &&& forall|j: int| 0 <= j < old.sources@.len() && old.sources@[j].id != source ==> #[trigger] new.sources@[j] == old.sources@[j]
            },
            SpatialAssemblyEdit::TranslationDriverTarget { source, target_bits, .. } => {
                &&& new.sources@.len() == old.sources@.len()
                &&& forall|k: int| source_position(old, source) == Some(k) ==> {
                    &&& new.sources@[k].id == source
                    &&& new.sources@[k].label == old.sources@[k].label
                    &&& new.sources@[k].numbers == old.sources@[k].numbers
                    &&& new.sources@[k].shape is TranslationPositionDriver
                    &&& new.sources@[k].shape->TranslationPositionDriver_target_bits == target_bits
                    &&& new.sources@[k].shape->TranslationPositionDriver_coordinate == old.sources@[k].shape->TranslationPositionDriver_coordinate
                }
                &&& forall|j: int| 0 <= j < old.sources@.len() && old.sources@[j].id != source ==> #[trigger] new.sources@[j] == old.sources@[j]
            },
            SpatialAssemblyEdit::SourceAxisParity { source, parity } => {
                &&& new.sources@.len() == old.sources@.len()
                &&& forall|k: int| source_position(old, source) == Some(k) ==> {
                    &&& new.sources@[k].id == source
                    &&& new.sources@[k].label == old.sources@[k].label
                    &&& new.sources@[k].numbers == old.sources@[k].numbers
                    &&& source_axis_parity(new.sources@[k].shape) == Some(parity)
                    &&& with_parity(new.sources@[k].shape, parity) == with_parity(old.sources@[k].shape, parity)
                }
                &&& forall|j: int| 0 <= j < old.sources@.len() && old.sources@[j].id != source ==> #[trigger] new.sources@[j] == old.sources@[j]
            },
            SpatialAssemblyEdit::MonitorAxisParity { monitor, parity } => {
                &&& new.mode_monitors@.len() == old.mode_monitors@.len()
                &&& forall|k: int| monitor_position(old, monitor) == Some(k) ==> {
                    &&& new.mode_monitors@[k].id == monitor
                    &&& new.mode_monitors@[k].label == old.mode_monitors@[k].label
                    &&& new.mode_monitors@[k].kind is AxisParity
                    &&& new.mode_monitors@[k].kind->AxisParity_parity == parity
                    &&& new.mode_monitors@[k].kind->AxisParity_first == old.mode_monitors@[k].kind->AxisParity_first
                    &&& new.mode_monitors@[k].kind->AxisParity_second == old.mode_monitors@[k].kind->AxisParity_second
                }
                &&& forall|j: int| 0 <= j < old.mode_monitors@.len() && old.mode_monitors@[j].id != monitor ==> #[trigger] new.mode_monitors@[j] == old.mode_monitors@[j]
            },
            SpatialAssemblyEdit::MonitorHingeWinding { monitor, winding } => {
                &&& new.mode_monitors@.len() == old.mode_monitors@.len()
                &&& forall|k: int| monitor_position(old, monitor) == Some(k) ==> {
                    &&& new.mode_monitors@[k].id == monitor
                    &&& new.mode_monitors@[k].label == old.mode_monitors@[k].label
                    &&& new.mode_monitors@[k].kind is HingeWinding
                    &&& new.mode_monitors@[k].kind->HingeWinding_winding == winding
                    &&& new.mode_monitors@[k].kind->HingeWinding_coordinate == old.mode_monitors@[k].kind->HingeWinding_coordinate
                }
                &&& forall|j: int| 0 <= j < old.mode_monitors@.len() && old.mode_monitors@[j].id != monitor ==> #[trigger] new.mode_monitors@[j] == old.mode_monitors@[j]
            },
            SpatialAssemblyEdit::MonitorPlaneSide { monitor, side } => {
                &&& new.mode_monitors@.len() == old.mode_monitors@.len()
                &&& forall|k: int| monitor_position(old, monitor) == Some(k) ==> {
                    &&& new.mode_monitors@[k].id == monitor
                    &&& new.mode_monitors@[k].label == old.mode_monitors@[k].label
                    &&& new.mode_monitors@[k].kind is PlaneSide
                    &&& new.mode_monitors@[k].kind->PlaneSide_side == side
                    &&& new.mode_monitors@[k].kind->PlaneSide_plane == old.mode_monitors@[k].kind->PlaneSide_plane
                    &&& new.mode_monitors@[k].kind->PlaneSide_point == old.mode_monitors@[k].kind->PlaneSide_point
                }
                &&& forall|j: int| 0 <= j < old.mode_monitors@.len() && old.mode_monitors@[j].id != monitor ==> #[trigger] new.mode_monitors@[j] == old.mode_monitors@[j]
            },
            SpatialAssemblyEdit::MonitorSignedVolumeOrientation { monitor, orientation } => {
                &&& new.mode_monitors@.len() == old.mode_monitors@.len()
                &&& forall|k: int| monitor_position(old, monitor) == Some(k) ==> {
                    &&& new.mode_monitors@[k].id == monitor
                    &&& new.mode_monitors@[k].label == old.mode_monitors@[k].label
                    &&& new.mode_monitors@[k].kind is SignedVolume
                    &&& new.mode_monitors@[k].kind->SignedVolume_orientation == orientation
                    &&& new.mode_monitors@[k].kind->SignedVolume_points == old.mode_monitors@[k].kind->SignedVolume_points
                }
                &&& forall|j: int| 0 <= j < old.mode_monitors@.len() && old.mode_monitors@[j].id != monitor ==> #[trigger] new.mode_monitors@[j] == old.mode_monitors@[j]
            },
        },
{
    match edit {
        SpatialAssemblyEdit::BodyPoseGuess { body, .. } => lemma_first_index(old.bodies@, body_has(body)),
        SpatialAssemblyEdit::PointLocal { feature, .. } => lemma_first_index(old.point_features@, feature_has(feature)),
        SpatialAssemblyEdit::FrameLocal { feature, .. } => lemma_first_index(old.frame_features@, feature_has(feature)),
        SpatialAssemblyEdit::AxisLocal { feature, .. } => lemma_first_index(old.axis_features@, feature_has(feature)),
        SpatialAssemblyEdit::PlaneLocal { feature, .. } => lemma_first_index(old.plane_features@, feature_has(feature)),
        SpatialAssemblyEdit::HingeWinding { coordinate, .. } => lemma_first_index(old.coordinates@, coordinate_has(coordinate)),
        SpatialAssemblyEdit::HingeDriverTarget { source, .. } => lemma_first_index(old.sources@, source_has(source)),
        SpatialAssemblyEdit::TranslationDriverTarget { source, .. } => lemma_first_index(old.sources@, source_has(source)),
        SpatialAssemblyEdit::SourceAxisParity { source, .. } => lemma_first_index(old.sources@, source_has(source)),
        SpatialAssemblyEdit::MonitorAxisParity { monitor, .. } => lemma_first_index(old.mode_monitors@, monitor_has(monitor)),
        SpatialAssemblyEdit::MonitorHingeWinding { monitor, .. } => lemma_first_index(old.mode_monitors@, monitor_has(monitor)),
        SpatialAssemblyEdit::MonitorPlaneSide { monitor, .. } => lemma_first_index(old.mode_monitors@, monitor_has(monitor)),
        SpatialAssemblyEdit::MonitorSignedVolumeOrientation { monitor, .. } => lemma_first_index(old.mode_monitors@, monitor_has(monitor)),
    }
}

/// An edit is accepted exactly when its new value passes its check, the
/// object it addresses exists, and that object (the first with its identity)
/// is of the kind the edit is for.
pub proof fn lemma_edit_accepted_exactly_when(s: SpatialStructure, edit: SpatialAssemblyEdit)
    ensures
        (edit_error(s, edit) is None) <==> match edit {
            SpatialAssemblyEdit::BodyPoseGuess { body, pose, .. } => pose is None && exists|k: int| 0 <= k < s.bodies@.len() && (#[trigger] s.bodies@[k]).id == body,
            SpatialAssemblyEdit::PointLocal { feature, geometry, .. } => geometry is None && exists|k: int| 0 <= k < s.point_features@.len() && (#[trigger] s.point_features@[k]).id == feature,
            SpatialAssemblyEdit::FrameLocal { feature, geometry, .. } => geometry is None && exists|k: int| 0 <= k < s.frame_features@.len() && (#[trigger] s.frame_features@[k]).id == feature,
            SpatialAssemblyEdit::AxisLocal { feature, geometry, .. } => geometry is None && exists|k: int| 0 <= k < s.axis_features@.len() && (#[trigger] s.axis_features@[k]).id == feature,
            SpatialAssemblyEdit::PlaneLocal { feature, geometry, .. } => geometry is None && exists|k: int| 0 <= k < s.plane_features@.len() && (#[trigger] s.plane_features@[k]).id == feature,
            SpatialAssemblyEdit::HingeWinding { coordinate, .. } => exists|k: int| coordinate_position(s, coordinate) == Some(k)
                && s.coordinates@[k].kind is Hinge,
            SpatialAssemblyEdit::HingeDriverTarget { source, target, .. } => target is None
                && exists|k: int| source_position(s, source) == Some(k) && s.sources@[k].shape is HingePositionDriver,
            SpatialAssemblyEdit::TranslationDriverTarget { source, target, .. } => target is None
                && exists|k: int| source_position(s, source) == Some(k) && s.sources@[k].shape is TranslationPositionDriver,
            SpatialAssemblyEdit::SourceAxisParity { source, .. } => exists|k: int| source_position(s, source) == Some(k)
                && source_axis_parity(s.sources@[k].shape) is Some,
            SpatialAssemblyEdit::MonitorAxisParity { monitor, .. } => exists|k: int| monitor_position(s, monitor) == Some(k)
                && s.mode_monitors@[k].kind is AxisParity,
            SpatialAssemblyEdit::MonitorHingeWinding { monitor, .. } => exists|k: int| monitor_position(s, monitor) == Some(k)
                && s.mode_monitors@[k].kind is HingeWinding,
            SpatialAssemblyEdit::MonitorPlaneSide { monitor, .. } => exists|k: int| monitor_position(s, monitor) == Some(k)
                && s.mode_monitors@[k].kind is PlaneSide,
            SpatialAssemblyEdit::MonitorSignedVolumeOrientation { monitor, .. } => exists|k: int| monitor_position(s, monitor) == Some(k)
                && s.mode_monitors@[k].kind is SignedVolume,
        },
{
    match edit {
        SpatialAssemblyEdit::BodyPoseGuess { body, .. } => lemma_first_index(s.bodies@, body_has(body)),
        SpatialAssemblyEdit::PointLocal { feature, .. } => lemma_first_index(s.point_features@, feature_has(feature)),
        SpatialAssemblyEdit::FrameLocal { feature, .. } => lemma_first_index(s.frame_features@, feature_has(feature)),
        SpatialAssemblyEdit::AxisLocal { feature, .. } => lemma_first_index(s.axis_features@, feature_has(feature)),
        SpatialAssemblyEdit::PlaneLocal { feature, .. } => lemma_first_index(s.plane_features@, feature_has(feature)),
        SpatialAssemblyEdit::HingeWinding { coordinate, .. } => lemma_first_index(s.coordinates@, coordinate_has(coordinate)),
        SpatialAssemblyEdit::HingeDriverTarget { source, .. } => lemma_first_index(s.sources@, source_has(source)),
        SpatialAssemblyEdit::TranslationDriverTarget { source, .. } => lemma_first_index(s.sources@, source_has(source)),
        SpatialAssemblyEdit::SourceAxisParity { source, .. } => lemma_first_index(s.sources@, source_has(source)),
        SpatialAssemblyEdit::MonitorAxisParity { monitor, .. } => lemma_first_index(s.mode_monitors@, monitor_has(monitor)),
        SpatialAssemblyEdit::MonitorHingeWinding { monitor, .. } => lemma_first_index(s.mode_monitors@, monitor_has(monitor)),
        SpatialAssemblyEdit::MonitorPlaneSide { monitor, .. } => lemma_first_index(s.mode_monitors@, monitor_has(monitor)),
        SpatialAssemblyEdit::MonitorSignedVolumeOrientation { monitor, .. } => lemma_first_index(s.mode_monitors@, monitor_has(monitor)),
    }
}

/// An accepted edit keeps every object of the structure: it neither adds,
/// removes, reorders nor relabels any.
pub proof fn lemma_edit_keeps_objects(old: SpatialStructure, new: SpatialStructure, edit: SpatialAssemblyEdit)
    requires
        edit_error(old, edit) is None,
        edited(old, new, edit),
    ensures
        same_objects(old, new),
{
    match edit {
        SpatialAssemblyEdit::BodyPoseGuess { body, .. } => lemma_first_index(old.bodies@, body_has(body)),
        SpatialAssemblyEdit::PointLocal { feature, .. } => lemma_first_index(old.point_features@, feature_has(feature)),
        SpatialAssemblyEdit::FrameLocal { feature, .. } => lemma_first_index(old.frame_features@, feature_has(feature)),
        SpatialAssemblyEdit::AxisLocal { feature, .. } => lemma_first_index(old.axis_features@, feature_has(feature)),
        SpatialAssemblyEdit::PlaneLocal { feature, .. } => lemma_first_index(old.plane_features@, feature_has(feature)),
        SpatialAssemblyEdit::HingeWinding { coordinate, .. } => lemma_first_index(old.coordinates@, coordinate_has(coordinate)),
        SpatialAssemblyEdit::HingeDriverTarget { source, .. } => lemma_first_index(old.sources@, source_has(source)),
        SpatialAssemblyEdit::TranslationDriverTarget { source, .. } => lemma_first_index(old.sources@, source_has(source)),
        SpatialAssemblyEdit::SourceAxisParity { source, .. } => lemma_first_index(old.sources@, source_has(source)),
        SpatialAssemblyEdit::MonitorAxisParity { monitor, .. } => lemma_first_index(old.mode_monitors@, monitor_has(monitor)),
        SpatialAssemblyEdit::MonitorHingeWinding { monitor, .. } => lemma_first_index(old.mode_monitors@, monitor_has(monitor)),
        SpatialAssemblyEdit::MonitorPlaneSide { monitor, .. } => lemma_first_index(old.mode_monitors@, monitor_has(monitor)),
        SpatialAssemblyEdit::MonitorSignedVolumeOrientation { monitor, .. } => lemma_first_index(old.mode_monitors@, monitor_has(monitor)),
    }
}

proof fn lemma_trace_keeps_objects(old: SpatialStructure, edits: Seq<SpatialAssemblyEdit>, states: Seq<SpatialStructure>, k: int)
    requires
        edit_trace(old, edits, states),
        0 <= k <= edits.len(),
    ensures
        same_objects(old, states[k]),
    decreases k,
{
    if k > 0 {
        lemma_trace_keeps_objects(old, edits, states, k - 1);
        assert(edit_error(states[k - 1], edits[k - 1]) is None && edited(states[k - 1], states[k], edits[k - 1]));
        lemma_edit_keeps_objects(states[k - 1], states[k], edits[k - 1]);
    }
}

/// The edits of an accepted transaction keep every object of the structure.
pub proof fn lemma_transaction_keeps_objects(old: SpatialStructure, edits: Seq<SpatialAssemblyEdit>, new: SpatialStructure)
    requires
        edits_applied(old, edits, new),
    ensures
        same_objects(old, new),
{
    let states = choose|states: Seq<SpatialStructure>| #[trigger] edit_trace(old, edits, states) && states.last() == new;
    lemma_trace_keeps_objects(old, edits, states, edits.len() as int);
}

} // verus!
