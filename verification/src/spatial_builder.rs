//! Building the discrete structure of a spatial assembly one object at a
//! time: every builder checks its label and references (and the verdict of its
//! numerical values) in a fixed order, takes the next identity of the
//! assembly's namespace, and appends the new record.

use vstd::prelude::*;
use crate::runtime_ids::{
    SpatialAxisFeatureId, SpatialBodyId, SpatialCoordinateId, SpatialFrameFeatureId,
    SpatialModeMonitorId, SpatialPlaneFeatureId, SpatialPointFeatureId, SpatialSourceId,
};
use crate::spatial::{
    SpatialAssemblyError, SpatialAxisParity, SpatialCoordinate, SpatialCoordinateKind, SpatialGaugePolicy,
    SpatialModeMonitor, SpatialModeMonitorKind, SpatialModeSign, SpatialPlanarTranslationAxis,
};
use crate::spatial_structure::{
    axis_pair, body_listed, check_coordinate_parent, check_endpoints, check_label, check_monitor,
    check_value, conflicting_targets, coordinate_kind, coordinate_parent_error, driven_coordinate,
    endpoint_error, find_body, find_coordinate_kind, first_of, frame_pair, label_error, monitor_error,
    plane_pair, point_pair, resolve_axis_pair, resolve_frame_pair, resolve_plane_pair,
    resolve_point_pair, targets_conflict, value_error, SpatialBodyRecord, SpatialFeatureRecord,
    SpatialSourceRecord, SpatialSourceShape, SpatialStructure, SpatialValueRejection,
};
use crate::spatial_structure::{body_pose_guess, find_body_pose, SpatialLocalGeometry, SpatialSourceNumbers};

verus! {

/// The rejection of an identity space with no identity left.
pub open spec fn exhausted(s: SpatialStructure) -> Option<SpatialAssemblyError> {
    if s.next_id == u64::MAX {
        Some(SpatialAssemblyError::IdExhausted)
    } else {
        None
    }
}

/// `new` is `old` with the next identity taken and `record` appended to its
/// bodies.
pub open spec fn body_added(old: SpatialStructure, new: SpatialStructure, record: SpatialBodyRecord) -> bool {
    &&& new.namespace == old.namespace
    &&& new.next_id == old.next_id + 1
    &&& new.gauge_policy == old.gauge_policy
    &&& new.bodies@ == old.bodies@.push(record)
    &&& new.point_features == old.point_features
    &&& new.frame_features == old.frame_features
    &&& new.axis_features == old.axis_features
    &&& new.plane_features == old.plane_features
    &&& new.coordinates == old.coordinates
    &&& new.mode_monitors == old.mode_monitors
    &&& new.sources == old.sources
}

/// `new` is `old` with the next identity taken and `record` appended to its
/// point features.
pub open spec fn point_feature_added(old: SpatialStructure, new: SpatialStructure, record: SpatialFeatureRecord<SpatialPointFeatureId>) -> bool {
    &&& new.namespace == old.namespace
    &&& new.next_id == old.next_id + 1
    &&& new.gauge_policy == old.gauge_policy
    &&& new.point_features@ == old.point_features@.push(record)
    &&& new.bodies == old.bodies
    &&& new.frame_features == old.frame_features
    &&& new.axis_features == old.axis_features
    &&& new.plane_features == old.plane_features
    &&& new.coordinates == old.coordinates
    &&& new.mode_monitors == old.mode_monitors
    &&& new.sources == old.sources
}

/// `new` is `old` with the next identity taken and `record` appended to its
/// frame features.
pub open spec fn frame_feature_added(old: SpatialStructure, new: SpatialStructure, record: SpatialFeatureRecord<SpatialFrameFeatureId>) -> bool {
    &&& new.namespace == old.namespace
    &&& new.next_id == old.next_id + 1
    &&& new.gauge_policy == old.gauge_policy
    &&& new.frame_features@ == old.frame_features@.push(record)
    &&& new.bodies == old.bodies
    &&& new.point_features == old.point_features
    &&& new.axis_features == old.axis_features
    &&& new.plane_features == old.plane_features
    &&& new.coordinates == old.coordinates
    &&& new.mode_monitors == old.mode_monitors
    &&& new.sources == old.sources
}

/// `new` is `old` with the next identity taken and `record` appended to its
/// axis features.
pub open spec fn axis_feature_added(old: SpatialStructure, new: SpatialStructure, record: SpatialFeatureRecord<SpatialAxisFeatureId>) -> bool {
    &&& new.namespace == old.namespace
    &&& new.next_id == old.next_id + 1
    &&& new.gauge_policy == old.gauge_policy
    &&& new.axis_features@ == old.axis_features@.push(record)
    &&& new.bodies == old.bodies
    &&& new.point_features == old.point_features
    &&& new.frame_features == old.frame_features
    &&& new.plane_features == old.plane_features
    &&& new.coordinates == old.coordinates
    &&& new.mode_monitors == old.mode_monitors
    &&& new.sources == old.sources
}

/// `new` is `old` with the next identity taken and `record` appended to its
/// plane features.
pub open spec fn plane_feature_added(old: SpatialStructure, new: SpatialStructure, record: SpatialFeatureRecord<SpatialPlaneFeatureId>) -> bool {
    &&& new.namespace == old.namespace
    &&& new.next_id == old.next_id + 1
    &&& new.gauge_policy == old.gauge_policy
    &&& new.plane_features@ == old.plane_features@.push(record)
    &&& new.bodies == old.bodies
    &&& new.point_features == old.point_features
    &&& new.frame_features == old.frame_features
    &&& new.axis_features == old.axis_features
    &&& new.coordinates == old.coordinates
    &&& new.mode_monitors == old.mode_monitors
    &&& new.sources == old.sources
}

/// `new` is `old` with the next identity taken and `record` appended to its
/// coordinates.
pub open spec fn coordinate_added(old: SpatialStructure, new: SpatialStructure, record: SpatialCoordinate) -> bool {
    &&& new.namespace == old.namespace
    &&& new.next_id == old.next_id + 1
    &&& new.gauge_policy == old.gauge_policy
    &&& new.coordinates@ == old.coordinates@.push(record)
    &&& new.bodies == old.bodies
    &&& new.point_features == old.point_features
    &&& new.frame_features == old.frame_features
    &&& new.axis_features == old.axis_features
    &&& new.plane_features == old.plane_features
    &&& new.mode_monitors == old.mode_monitors
    &&& new.sources == old.sources
}

/// `new` is `old` with the next identity taken and `record` appended to its
/// mode monitors.
pub open spec fn monitor_added(old: SpatialStructure, new: SpatialStructure, record: SpatialModeMonitor) -> bool {
    &&& new.namespace == old.namespace
    &&& new.next_id == old.next_id + 1
    &&& new.gauge_policy == old.gauge_policy
    &&& new.mode_monitors@ == old.mode_monitors@.push(record)
    &&& new.bodies == old.bodies
    &&& new.point_features == old.point_features
    &&& new.frame_features == old.frame_features
    &&& new.axis_features == old.axis_features
    &&& new.plane_features == old.plane_features
    &&& new.coordinates == old.coordinates
    &&& new.sources == old.sources
}

/// `new` is `old` with the next identity taken and `record` appended to its
/// sources.
pub open spec fn source_added(old: SpatialStructure, new: SpatialStructure, record: SpatialSourceRecord) -> bool {
    &&& new.namespace == old.namespace
    &&& new.next_id == old.next_id + 1
    &&& new.gauge_policy == old.gauge_policy
    &&& new.sources@ == old.sources@.push(record)
    &&& new.bodies == old.bodies
    &&& new.point_features == old.point_features
    &&& new.frame_features == old.frame_features
    &&& new.axis_features == old.axis_features
    &&& new.plane_features == old.plane_features
    &&& new.coordinates == old.coordinates
    &&& new.mode_monitors == old.mode_monitors
}

/// The rejection of a new feature: its label, then its owning body, then the
/// verdict of its local geometry.
pub open spec fn feature_error(s: SpatialStructure, label: Seq<char>, field: &'static str, body: SpatialBodyId, geometry: Option<SpatialValueRejection>) -> Option<SpatialAssemblyError> {
    first_of(
        label_error(label, field),
        if body_listed(s.bodies@, body) {
            value_error(geometry)
        } else {
            Some(SpatialAssemblyError::UnknownBody(body))
        },
    )
}

/// A hinge coordinate of `winding`: it exists, is a hinge, and has that winding.
pub open spec fn hinge_winding_error(s: SpatialStructure, coordinate: SpatialCoordinateId, winding: i64) -> Option<SpatialAssemblyError> {
    match coordinate_kind(s.coordinates@, coordinate) {
        None => Some(SpatialAssemblyError::UnknownCoordinate(coordinate)),
        Some(kind) => match kind {
            SpatialCoordinateKind::Hinge { winding: coordinate_winding, .. } => if coordinate_winding != winding {
                Some(SpatialAssemblyError::WindingMismatch { coordinate, coordinate_winding, target_winding: winding })
            } else {
                None
            },
            _ => Some(SpatialAssemblyError::WrongCoordinateKind { coordinate, expected: "hinge" }),
        },
    }
}

/// A translation coordinate: it exists and is not a hinge.
pub open spec fn translation_kind_error(s: SpatialStructure, coordinate: SpatialCoordinateId) -> Option<SpatialAssemblyError> {
    match coordinate_kind(s.coordinates@, coordinate) {
        None => Some(SpatialAssemblyError::UnknownCoordinate(coordinate)),
        Some(kind) => if kind is Hinge {
            Some(SpatialAssemblyError::WrongCoordinateKind { coordinate, expected: "translation" })
        } else {
            None
        },
    }
}

/// A new driver disagrees with an existing driver of the same coordinate.
pub open spec fn driver_target_error(s: SpatialStructure, shape: SpatialSourceShape) -> Option<SpatialAssemblyError> {
    if exists|k: int| 0 <= k < s.sources@.len() && #[trigger] targets_conflict(s.sources@[k].shape, shape) {
        Some(SpatialAssemblyError::IncompatibleDriverTargets { coordinate: driven_coordinate(shape) })
    } else {
        None
    }
}

/// The numbers of a physical ground of `body`: the body's pose guess as its
/// target pose.
pub open spec fn ground_numbers(s: SpatialStructure, body: SpatialBodyId) -> SpatialSourceNumbers {
    match body_pose_guess(s.bodies@, body) {
        Some(pose) => SpatialSourceNumbers::Pose(pose),
        None => SpatialSourceNumbers::Empty,
    }
}

/// The body already has a physical ground.
pub open spec fn already_grounded(s: SpatialStructure, body: SpatialBodyId) -> bool {
    exists|k: int| 0 <= k < s.sources@.len() && #[trigger] s.sources@[k].shape == (SpatialSourceShape::PhysicalGround { body })
}

/// The rejection of a new source of `shape`, after its label: its references in
/// field order, distinct joint bodies, single grounding, the verdict of its
/// numerical values, its coordinate, and agreement with existing drivers.
pub open spec fn shape_error(s: SpatialStructure, shape: SpatialSourceShape, values: Option<SpatialValueRejection>) -> Option<SpatialAssemblyError> {
    match shape {
        SpatialSourceShape::PhysicalGround { body } => if !body_listed(s.bodies@, body) {
            Some(SpatialAssemblyError::UnknownBody(body))
        } else if already_grounded(s, body) {
            Some(SpatialAssemblyError::DuplicateGround(body))
        } else {
            None
        },
        SpatialSourceShape::BallJoint { first, second } => endpoint_error(point_pair(s, first, second)),
        SpatialSourceShape::PointDistanceMate { first, second } => first_of(endpoint_error(point_pair(s, first, second)), value_error(values)),
        SpatialSourceShape::FixedFrame { first, second } => endpoint_error(frame_pair(s, first, second)),
        SpatialSourceShape::RevoluteJoint { first, second, .. } => endpoint_error(frame_pair(s, first, second)),
        SpatialSourceShape::FrameOffsetMate { first, second } => first_of(endpoint_error(frame_pair(s, first, second)), value_error(values)),
        SpatialSourceShape::PrismaticJoint { first, second, .. } => endpoint_error(axis_pair(s, first, second)),
        SpatialSourceShape::CylindricalJoint { first, second, .. } => endpoint_error(axis_pair(s, first, second)),
        SpatialSourceShape::UniversalJoint { first, second } => endpoint_error(axis_pair(s, first, second)),
        SpatialSourceShape::AxisAlignmentMate { first, second, .. } => endpoint_error(axis_pair(s, first, second)),
        SpatialSourceShape::AxisAngleMate { first, second } => first_of(endpoint_error(axis_pair(s, first, second)), value_error(values)),
        SpatialSourceShape::PlanarJoint { first, second, .. } => endpoint_error(plane_pair(s, first, second)),
        SpatialSourceShape::HingePositionDriver { coordinate, winding, .. } => first_of(
            value_error(values),
            first_of(hinge_winding_error(s, coordinate, winding), driver_target_error(s, shape)),
        ),
        SpatialSourceShape::TranslationPositionDriver { coordinate, .. } => first_of(
            value_error(values),
            first_of(translation_kind_error(s, coordinate), driver_target_error(s, shape)),
        ),
    }
}

/// The rejection of a new mode monitor of `kind`, after its label.
pub open spec fn monitor_kind_error(s: SpatialStructure, kind: SpatialModeMonitorKind) -> Option<SpatialAssemblyError> {
    match kind {
        SpatialModeMonitorKind::HingeWinding { coordinate, winding } => hinge_winding_error(s, coordinate, winding),
        _ => monitor_error(s, kind),
    }
}

/// What a builder returned and left: its first rejection and the structure
/// unchanged, or the new identity and the structure with the record added.
pub open spec fn built<Id>(
    error: Option<SpatialAssemblyError>,
    result: Result<Id, SpatialAssemblyError>,
    old: SpatialStructure,
    new: SpatialStructure,
    id: Id,
    added: bool,
) -> bool {
    match error {
        Some(e) => result == Err::<Id, _>(e) && new == old,
        None => result == Ok::<Id, SpatialAssemblyError>(id) && added,
    }
}

impl SpatialStructure {
    /// An empty structure of the assembly `namespace`; identities start at one
    /// and the gauge anchors the lowest body of each floating component.
    pub fn new(namespace: u64) -> (s: Self)
        ensures
            s.namespace == namespace,
            s.next_id == 1,
            s.bodies@.len() == 0,
            s.point_features@.len() == 0,
            s.frame_features@.len() == 0,
            s.axis_features@.len() == 0,
            s.plane_features@.len() == 0,
            s.coordinates@.len() == 0,
            s.mode_monitors@.len() == 0,
            s.sources@.len() == 0,
            s.gauge_policy == SpatialGaugePolicy::LowestPersistentBody,
    {
        SpatialStructure {
            namespace,
            next_id: 1,
            bodies: Vec::new(),
            point_features: Vec::new(),
            frame_features: Vec::new(),
            axis_features: Vec::new(),
            plane_features: Vec::new(),
            coordinates: Vec::new(),
            mode_monitors: Vec::new(),
            sources: Vec::new(),
            gauge_policy: SpatialGaugePolicy::LowestPersistentBody,
        }
    }

    /// Takes the next identity, failing once the space is exhausted.
    fn allocate_id(&mut self) -> (result: Result<u64, SpatialAssemblyError>)
        ensures
            old(self).next_id == u64::MAX ==> result == Err::<u64, _>(SpatialAssemblyError::IdExhausted) && *final(self) == *old(self),
            old(self).next_id < u64::MAX ==> result == Ok::<u64, SpatialAssemblyError>(old(self).next_id)
                && final(self).next_id == old(self).next_id + 1
                && final(self).namespace == old(self).namespace
                && final(self).gauge_policy == old(self).gauge_policy
                && final(self).bodies == old(self).bodies
                && final(self).point_features == old(self).point_features
                && final(self).frame_features == old(self).frame_features
                && final(self).axis_features == old(self).axis_features
                && final(self).plane_features == old(self).plane_features
                && final(self).coordinates == old(self).coordinates
                && final(self).mode_monitors == old(self).mode_monitors
                && final(self).sources == old(self).sources,
    {
        let id = self.next_id;
        match self.next_id.checked_add(1) {
            Some(next) => {
                self.next_id = next;
                Ok(id)
            },
            None => Err(SpatialAssemblyError::IdExhausted),
        }
    }

    /// Adds a body with the pose guess of bit pattern `pose_guess`; `pose` is
    /// the verdict of that pose guess.
    pub fn add_body(&mut self, label: String, pose_guess: [u64; 7], pose: Option<SpatialValueRejection>) -> (result: Result<SpatialBodyId, SpatialAssemblyError>)
        ensures
            built(
                first_of(first_of(label_error(label@, "body"), value_error(pose)), exhausted(*old(self))),
                result, *old(self), *final(self),
                SpatialBodyId { namespace: old(self).namespace, ordinal: old(self).next_id },
                body_added(*old(self), *final(self), SpatialBodyRecord {
                    id: SpatialBodyId { namespace: old(self).namespace, ordinal: old(self).next_id },
                    label,
                    pose_guess,
                    pose: None,
                }),
            ),
    {
        if let Some(error) = check_label(label.as_str(), "body") {
            return Err(error);
        }
        if let Some(error) = check_value(pose) {
            return Err(error);
        }
        let ordinal = self.allocate_id()?;
        let id = SpatialBodyId { namespace: self.namespace, ordinal };
        self.bodies.push(SpatialBodyRecord { id, label, pose_guess, pose: None });
        Ok(id)
    }

    /// Adds a point feature on `body` at the local point of bit pattern
    /// `local_point`; `geometry` is the verdict of that point.
    pub fn add_point_feature(&mut self, label: String, body: SpatialBodyId, local_point: [u64; 3], geometry: Option<SpatialValueRejection>) -> (result: Result<SpatialPointFeatureId, SpatialAssemblyError>)
        ensures
            built(
                first_of(feature_error(*old(self), label@, "point feature", body, geometry), exhausted(*old(self))),
                result, *old(self), *final(self),
                SpatialPointFeatureId { namespace: old(self).namespace, ordinal: old(self).next_id },
                point_feature_added(*old(self), *final(self), SpatialFeatureRecord {
                    id: SpatialPointFeatureId { namespace: old(self).namespace, ordinal: old(self).next_id },
                    label,
                    body,
                    local: SpatialLocalGeometry::Point(local_point),
                    geometry: None,
                }),
            ),
    {
        if let Some(error) = check_label(label.as_str(), "point feature") {
            return Err(error);
        }
        if !find_body(&self.bodies, body) {
            return Err(SpatialAssemblyError::UnknownBody(body));
        }
        if let Some(error) = check_value(geometry) {
            return Err(error);
        }
        let ordinal = self.allocate_id()?;
        let id = SpatialPointFeatureId { namespace: self.namespace, ordinal };
        self.point_features.push(SpatialFeatureRecord { id, label, body, local: SpatialLocalGeometry::Point(local_point), geometry: None });
        Ok(id)
    }

    /// Adds a frame feature on `body` with the local frame of bit pattern
    /// `local_frame` (origin and three axes); `geometry` is its verdict.
    pub fn add_frame_feature(&mut self, label: String, body: SpatialBodyId, local_frame: [u64; 12], geometry: Option<SpatialValueRejection>) -> (result: Result<SpatialFrameFeatureId, SpatialAssemblyError>)
        ensures
            built(
                first_of(feature_error(*old(self), label@, "frame feature", body, geometry), exhausted(*old(self))),
                result, *old(self), *final(self),
                SpatialFrameFeatureId { namespace: old(self).namespace, ordinal: old(self).next_id },
                frame_feature_added(*old(self), *final(self), SpatialFeatureRecord {
                    id: SpatialFrameFeatureId { namespace: old(self).namespace, ordinal: old(self).next_id },
                    label,
                    body,
                    local: SpatialLocalGeometry::Frame(local_frame),
                    geometry: None,
                }),
            ),
    {
        if let Some(error) = check_label(label.as_str(), "frame feature") {
            return Err(error);
        }
        if !find_body(&self.bodies, body) {
            return Err(SpatialAssemblyError::UnknownBody(body));
        }
        if let Some(error) = check_value(geometry) {
            return Err(error);
        }
        let ordinal = self.allocate_id()?;
        let id = SpatialFrameFeatureId { namespace: self.namespace, ordinal };
        self.frame_features.push(SpatialFeatureRecord { id, label, body, local: SpatialLocalGeometry::Frame(local_frame), geometry: None });
        Ok(id)
    }

    /// Adds an axis feature on `body` with the local frame of bit pattern
    /// `local_frame` (origin and three axes); `geometry` is its verdict.
    pub fn add_axis_feature(&mut self, label: String, body: SpatialBodyId, local_frame: [u64; 12], geometry: Option<SpatialValueRejection>) -> (result: Result<SpatialAxisFeatureId, SpatialAssemblyError>)
        ensures
            built(
                first_of(feature_error(*old(self), label@, "axis feature", body, geometry), exhausted(*old(self))),
                result, *old(self), *final(self),
                SpatialAxisFeatureId { namespace: old(self).namespace, ordinal: old(self).next_id },
                axis_feature_added(*old(self), *final(self), SpatialFeatureRecord {
                    id: SpatialAxisFeatureId { namespace: old(self).namespace, ordinal: old(self).next_id },
                    label,
                    body,
                    local: SpatialLocalGeometry::Frame(local_frame),
                    geometry: None,
                }),
            ),
    {
        if let Some(error) = check_label(label.as_str(), "axis feature") {
            return Err(error);
        }
        if !find_body(&self.bodies, body) {
            return Err(SpatialAssemblyError::UnknownBody(body));
        }
        if let Some(error) = check_value(geometry) {
            return Err(error);
        }
        let ordinal = self.allocate_id()?;
        let id = SpatialAxisFeatureId { namespace: self.namespace, ordinal };
        self.axis_features.push(SpatialFeatureRecord { id, label, body, local: SpatialLocalGeometry::Frame(local_frame), geometry: None });
        Ok(id)
    }

    /// Adds a plane feature on `body` with the local frame of bit pattern
    /// `local_frame` (origin and three axes); `geometry` is its verdict.
    pub fn add_plane_feature(&mut self, label: String, body: SpatialBodyId, local_frame: [u64; 12], geometry: Option<SpatialValueRejection>) -> (result: Result<SpatialPlaneFeatureId, SpatialAssemblyError>)
        ensures
            built(
                first_of(feature_error(*old(self), label@, "plane feature", body, geometry), exhausted(*old(self))),
                result, *old(self), *final(self),
                SpatialPlaneFeatureId { namespace: old(self).namespace, ordinal: old(self).next_id },
                plane_feature_added(*old(self), *final(self), SpatialFeatureRecord {
                    id: SpatialPlaneFeatureId { namespace: old(self).namespace, ordinal: old(self).next_id },
                    label,
                    body,
                    local: SpatialLocalGeometry::Frame(local_frame),
                    geometry: None,
                }),
            ),
    {
        if let Some(error) = check_label(label.as_str(), "plane feature") {
            return Err(error);
        }
        if !find_body(&self.bodies, body) {
            return Err(SpatialAssemblyError::UnknownBody(body));
        }
        if let Some(error) = check_value(geometry) {
            return Err(error);
        }
        let ordinal = self.allocate_id()?;
        let id = SpatialPlaneFeatureId { namespace: self.namespace, ordinal };
        self.plane_features.push(SpatialFeatureRecord { id, label, body, local: SpatialLocalGeometry::Frame(local_frame), geometry: None });
        Ok(id)
    }

    /// Adds a source of `shape` after checking its label as `field` and its
    /// definition.
    pub(crate) fn add_source(&mut self, label: String, field: &'static str, shape: SpatialSourceShape, values: Option<SpatialValueRejection>, numbers: SpatialSourceNumbers)
        -> (result: Result<SpatialSourceId, SpatialAssemblyError>)
        ensures
            built(
                first_of(first_of(label_error(label@, field), shape_error(*old(self), shape, values)), exhausted(*old(self))),
                result, *old(self), *final(self),
                SpatialSourceId { namespace: old(self).namespace, ordinal: old(self).next_id },
                source_added(*old(self), *final(self), SpatialSourceRecord {
                    id: SpatialSourceId { namespace: old(self).namespace, ordinal: old(self).next_id },
                    label,
                    shape,
                    numbers,
                    values: None,
                }),
            ),
    {
        if let Some(error) = check_label(label.as_str(), field) {
            return Err(error);
        }
        if let Some(error) = self.check_shape(shape, values) {
            return Err(error);
        }
        let ordinal = self.allocate_id()?;
        let id = SpatialSourceId { namespace: self.namespace, ordinal };
        self.sources.push(SpatialSourceRecord { id, label, shape, numbers, values: None });
        Ok(id)
    }

    fn check_grounded(&self, body: SpatialBodyId) -> (grounded: bool)
        ensures
            grounded == already_grounded(*self, body),
    {
        let mut k: usize = 0;
        while k < self.sources.len()
            invariant
                k <= self.sources@.len(),
                forall|q: int| 0 <= q < k ==> self.sources@[q].shape != (SpatialSourceShape::PhysicalGround { body }),
            decreases self.sources@.len() - k,
        {
            let shape = self.sources[k].shape;
            match shape {
                SpatialSourceShape::PhysicalGround { body: existing } => {
                    if existing == body {
                        proof {
                            assert(self.sources@[k as int].shape == (SpatialSourceShape::PhysicalGround { body }));
                        }
                        return true;
                    }
                },
                _ => {},
            }
            k = k + 1;
        }
        false
    }

    fn check_driver_target(&self, shape: SpatialSourceShape) -> (error: Option<SpatialAssemblyError>)
        ensures
            error == driver_target_error(*self, shape),
    {
        let mut k: usize = 0;
        while k < self.sources.len()
            invariant
                k <= self.sources@.len(),
                forall|q: int| 0 <= q < k ==> !targets_conflict(#[trigger] self.sources@[q].shape, shape),
            decreases self.sources@.len() - k,
        {
            if conflicting_targets(self.sources[k].shape, shape) {
                let coordinate = match shape {
                    SpatialSourceShape::HingePositionDriver { coordinate, .. } => coordinate,
                    SpatialSourceShape::TranslationPositionDriver { coordinate, .. } => coordinate,
                    _ => SpatialCoordinateId { namespace: 0, ordinal: 0 },
                };
                proof {
                    assert(targets_conflict(self.sources@[k as int].shape, shape));
                }
                return Some(SpatialAssemblyError::IncompatibleDriverTargets { coordinate });
            }
            k = k + 1;
        }
        None
    }

    fn check_hinge_winding(&self, coordinate: SpatialCoordinateId, winding: i64) -> (error: Option<SpatialAssemblyError>)
        ensures
            error == hinge_winding_error(*self, coordinate, winding),
    {
        match find_coordinate_kind(&self.coordinates, coordinate) {
            None => Some(SpatialAssemblyError::UnknownCoordinate(coordinate)),
            Some(kind) => match kind {
                SpatialCoordinateKind::Hinge { winding: coordinate_winding, .. } => if coordinate_winding != winding {
                    Some(SpatialAssemblyError::WindingMismatch { coordinate, coordinate_winding, target_winding: winding })
                } else {
                    None
                },
                _ => Some(SpatialAssemblyError::WrongCoordinateKind { coordinate, expected: "hinge" }),
            },
        }
    }

    fn check_translation_kind(&self, coordinate: SpatialCoordinateId) -> (error: Option<SpatialAssemblyError>)
        ensures
            error == translation_kind_error(*self, coordinate),
    {
        match find_coordinate_kind(&self.coordinates, coordinate) {
            None => Some(SpatialAssemblyError::UnknownCoordinate(coordinate)),
            Some(kind) => match kind {
                SpatialCoordinateKind::Hinge { .. } => Some(SpatialAssemblyError::WrongCoordinateKind { coordinate, expected: "translation" }),
                _ => None,
            },
        }
    }

    fn check_shape(&self, shape: SpatialSourceShape, values: Option<SpatialValueRejection>) -> (error: Option<SpatialAssemblyError>)
        ensures
            error == shape_error(*self, shape, values),
    {
        match shape {
            SpatialSourceShape::PhysicalGround { body } => if !find_body(&self.bodies, body) {
                Some(SpatialAssemblyError::UnknownBody(body))
            } else if self.check_grounded(body) {
                Some(SpatialAssemblyError::DuplicateGround(body))
            } else {
                None
            },
            SpatialSourceShape::BallJoint { first, second } => check_endpoints(resolve_point_pair(self, first, second)),
            SpatialSourceShape::PointDistanceMate { first, second } => match check_endpoints(resolve_point_pair(self, first, second)) {
                Some(error) => Some(error),
                None => check_value(values),
            },
            SpatialSourceShape::FixedFrame { first, second } => check_endpoints(resolve_frame_pair(self, first, second)),
            SpatialSourceShape::RevoluteJoint { first, second, .. } => check_endpoints(resolve_frame_pair(self, first, second)),
            SpatialSourceShape::FrameOffsetMate { first, second } => match check_endpoints(resolve_frame_pair(self, first, second)) {
                Some(error) => Some(error),
                None => check_value(values),
            },
            SpatialSourceShape::PrismaticJoint { first, second, .. } => check_endpoints(resolve_axis_pair(self, first, second)),
            SpatialSourceShape::CylindricalJoint { first, second, .. } => check_endpoints(resolve_axis_pair(self, first, second)),
            SpatialSourceShape::UniversalJoint { first, second } => check_endpoints(resolve_axis_pair(self, first, second)),
            SpatialSourceShape::AxisAlignmentMate { first, second, .. } => check_endpoints(resolve_axis_pair(self, first, second)),
            SpatialSourceShape::AxisAngleMate { first, second } => match check_endpoints(resolve_axis_pair(self, first, second)) {
                Some(error) => Some(error),
                None => check_value(values),
            },
            SpatialSourceShape::PlanarJoint { first, second, .. } => check_endpoints(resolve_plane_pair(self, first, second)),
            SpatialSourceShape::HingePositionDriver { coordinate, winding, .. } => match check_value(values) {
                Some(error) => Some(error),
                None => match self.check_hinge_winding(coordinate, winding) {
                    Some(error) => Some(error),
                    None => self.check_driver_target(shape),
                },
            },
            SpatialSourceShape::TranslationPositionDriver { coordinate, .. } => match check_value(values) {
                Some(error) => Some(error),
                None => match self.check_translation_kind(coordinate) {
                    Some(error) => Some(error),
                    None => self.check_driver_target(shape),
                },
            },
        }
    }

    /// Grounds `body` at its pose guess, whose bits the ground keeps as its
    /// target pose; a body is grounded at most once.
    pub fn add_physical_ground(&mut self, label: String, body: SpatialBodyId) -> (result: Result<SpatialSourceId, SpatialAssemblyError>)
        ensures
            built(
                first_of(first_of(label_error(label@, "physical ground"), shape_error(*old(self), SpatialSourceShape::PhysicalGround { body }, None)), exhausted(*old(self))),
                result, *old(self), *final(self),
                SpatialSourceId { namespace: old(self).namespace, ordinal: old(self).next_id },
                source_added(*old(self), *final(self), SpatialSourceRecord {
                    id: SpatialSourceId { namespace: old(self).namespace, ordinal: old(self).next_id },
                    label,
                    shape: SpatialSourceShape::PhysicalGround { body },
                    numbers: ground_numbers(*old(self), body),
                    values: None,
                }),
            ),
    {
        let numbers = match find_body_pose(&self.bodies, body) {
            Some(pose) => SpatialSourceNumbers::Pose(pose),
            None => SpatialSourceNumbers::Empty,
        };
        self.add_source(label, "physical ground", SpatialSourceShape::PhysicalGround { body }, None, numbers)
    }

    /// Adds a coincident-point ball joint between points on two bodies.
    pub fn add_ball_joint(&mut self, label: String, first: SpatialPointFeatureId, second: SpatialPointFeatureId) -> (result: Result<SpatialSourceId, SpatialAssemblyError>)
        ensures
            built(
                first_of(first_of(label_error(label@, "ball joint"), shape_error(*old(self), SpatialSourceShape::BallJoint { first, second }, None)), exhausted(*old(self))),
                result, *old(self), *final(self),
                SpatialSourceId { namespace: old(self).namespace, ordinal: old(self).next_id },
                source_added(*old(self), *final(self), SpatialSourceRecord {
                    id: SpatialSourceId { namespace: old(self).namespace, ordinal: old(self).next_id },
                    label,
                    shape: SpatialSourceShape::BallJoint { first, second },
                    numbers: SpatialSourceNumbers::Empty,
                    values: None,
                }),
            ),
    {
        self.add_source(label, "ball joint", SpatialSourceShape::BallJoint { first, second }, None, SpatialSourceNumbers::Empty)
    }

    /// Adds a coincident, identically oriented fixed-frame relationship.
    pub fn add_fixed_frame(&mut self, label: String, first: SpatialFrameFeatureId, second: SpatialFrameFeatureId) -> (result: Result<SpatialSourceId, SpatialAssemblyError>)
        ensures
            built(
                first_of(first_of(label_error(label@, "fixed frame"), shape_error(*old(self), SpatialSourceShape::FixedFrame { first, second }, None)), exhausted(*old(self))),
                result, *old(self), *final(self),
                SpatialSourceId { namespace: old(self).namespace, ordinal: old(self).next_id },
                source_added(*old(self), *final(self), SpatialSourceRecord {
                    id: SpatialSourceId { namespace: old(self).namespace, ordinal: old(self).next_id },
                    label,
                    shape: SpatialSourceShape::FixedFrame { first, second },
                    numbers: SpatialSourceNumbers::Empty,
                    values: None,
                }),
            ),
    {
        self.add_source(label, "fixed frame", SpatialSourceShape::FixedFrame { first, second }, None, SpatialSourceNumbers::Empty)
    }

    /// Adds a revolute joint about the frames' z axes with explicit parity.
    pub fn add_revolute_joint(&mut self, label: String, first: SpatialFrameFeatureId, second: SpatialFrameFeatureId, parity: SpatialAxisParity) -> (result: Result<SpatialSourceId, SpatialAssemblyError>)
        ensures
            built(
                first_of(first_of(label_error(label@, "revolute joint"), shape_error(*old(self), SpatialSourceShape::RevoluteJoint { first, second, parity }, None)), exhausted(*old(self))),
                result, *old(self), *final(self),
                SpatialSourceId { namespace: old(self).namespace, ordinal: old(self).next_id },
                source_added(*old(self), *final(self), SpatialSourceRecord {
                    id: SpatialSourceId { namespace: old(self).namespace, ordinal: old(self).next_id },
                    label,
                    shape: SpatialSourceShape::RevoluteJoint { first, second, parity },
                    numbers: SpatialSourceNumbers::Empty,
                    values: None,
                }),
            ),
    {
        self.add_source(label, "revolute joint", SpatialSourceShape::RevoluteJoint { first, second, parity }, None, SpatialSourceNumbers::Empty)
    }

    /// Adds a one-translation joint between two clocked axes.
    pub fn add_prismatic_joint(&mut self, label: String, first: SpatialAxisFeatureId, second: SpatialAxisFeatureId, parity: SpatialAxisParity) -> (result: Result<SpatialSourceId, SpatialAssemblyError>)
        ensures
            built(
                first_of(first_of(label_error(label@, "prismatic joint"), shape_error(*old(self), SpatialSourceShape::PrismaticJoint { first, second, parity }, None)), exhausted(*old(self))),
                result, *old(self), *final(self),
                SpatialSourceId { namespace: old(self).namespace, ordinal: old(self).next_id },
                source_added(*old(self), *final(self), SpatialSourceRecord {
                    id: SpatialSourceId { namespace: old(self).namespace, ordinal: old(self).next_id },
                    label,
                    shape: SpatialSourceShape::PrismaticJoint { first, second, parity },
                    numbers: SpatialSourceNumbers::Empty,
                    values: None,
                }),
            ),
    {
        self.add_source(label, "prismatic joint", SpatialSourceShape::PrismaticJoint { first, second, parity }, None, SpatialSourceNumbers::Empty)
    }

    /// Adds a translation-and-rotation joint between two clocked axes.
    pub fn add_cylindrical_joint(&mut self, label: String, first: SpatialAxisFeatureId, second: SpatialAxisFeatureId, parity: SpatialAxisParity) -> (result: Result<SpatialSourceId, SpatialAssemblyError>)
        ensures
            built(
                first_of(first_of(label_error(label@, "cylindrical joint"), shape_error(*old(self), SpatialSourceShape::CylindricalJoint { first, second, parity }, None)), exhausted(*old(self))),
                result, *old(self), *final(self),
                SpatialSourceId { namespace: old(self).namespace, ordinal: old(self).next_id },
                source_added(*old(self), *final(self), SpatialSourceRecord {
                    id: SpatialSourceId { namespace: old(self).namespace, ordinal: old(self).next_id },
                    label,
                    shape: SpatialSourceShape::CylindricalJoint { first, second, parity },
                    numbers: SpatialSourceNumbers::Empty,
                    values: None,
                }),
            ),
    {
        self.add_source(label, "cylindrical joint", SpatialSourceShape::CylindricalJoint { first, second, parity }, None, SpatialSourceNumbers::Empty)
    }

    /// Adds an in-plane relationship between two clocked planes.
    pub fn add_planar_joint(&mut self, label: String, first: SpatialPlaneFeatureId, second: SpatialPlaneFeatureId, parity: SpatialAxisParity) -> (result: Result<SpatialSourceId, SpatialAssemblyError>)
        ensures
            built(
                first_of(first_of(label_error(label@, "planar joint"), shape_error(*old(self), SpatialSourceShape::PlanarJoint { first, second, parity }, None)), exhausted(*old(self))),
                result, *old(self), *final(self),
                SpatialSourceId { namespace: old(self).namespace, ordinal: old(self).next_id },
                source_added(*old(self), *final(self), SpatialSourceRecord {
                    id: SpatialSourceId { namespace: old(self).namespace, ordinal: old(self).next_id },
                    label,
                    shape: SpatialSourceShape::PlanarJoint { first, second, parity },
                    numbers: SpatialSourceNumbers::Empty,
                    values: None,
                }),
            ),
    {
        self.add_source(label, "planar joint", SpatialSourceShape::PlanarJoint { first, second, parity }, None, SpatialSourceNumbers::Empty)
    }

    /// Adds a coincident-origin, orthogonal-axis universal joint.
    pub fn add_universal_joint(&mut self, label: String, first: SpatialAxisFeatureId, second: SpatialAxisFeatureId) -> (result: Result<SpatialSourceId, SpatialAssemblyError>)
        ensures
            built(
                first_of(first_of(label_error(label@, "universal joint"), shape_error(*old(self), SpatialSourceShape::UniversalJoint { first, second }, None)), exhausted(*old(self))),
                result, *old(self), *final(self),
                SpatialSourceId { namespace: old(self).namespace, ordinal: old(self).next_id },
                source_added(*old(self), *final(self), SpatialSourceRecord {
                    id: SpatialSourceId { namespace: old(self).namespace, ordinal: old(self).next_id },
                    label,
                    shape: SpatialSourceShape::UniversalJoint { first, second },
                    numbers: SpatialSourceNumbers::Empty,
                    values: None,
                }),
            ),
    {
        self.add_source(label, "universal joint", SpatialSourceShape::UniversalJoint { first, second }, None, SpatialSourceNumbers::Empty)
    }

    /// Adds a point-to-point distance of bit pattern `distance_bits`; `distance` is the verdict of the distance and of the candidate separation.
    pub fn add_point_distance_mate(&mut self, label: String, first: SpatialPointFeatureId, second: SpatialPointFeatureId, distance_bits: u64, distance: Option<SpatialValueRejection>) -> (result: Result<SpatialSourceId, SpatialAssemblyError>)
        ensures
            built(
                first_of(first_of(label_error(label@, "point distance mate"), shape_error(*old(self), SpatialSourceShape::PointDistanceMate { first, second }, distance)), exhausted(*old(self))),
                result, *old(self), *final(self),
                SpatialSourceId { namespace: old(self).namespace, ordinal: old(self).next_id },
                source_added(*old(self), *final(self), SpatialSourceRecord {
                    id: SpatialSourceId { namespace: old(self).namespace, ordinal: old(self).next_id },
                    label,
                    shape: SpatialSourceShape::PointDistanceMate { first, second },
                    numbers: SpatialSourceNumbers::Scalar(distance_bits),
                    values: None,
                }),
            ),
    {
        self.add_source(label, "point distance mate", SpatialSourceShape::PointDistanceMate { first, second }, distance, SpatialSourceNumbers::Scalar(distance_bits))
    }

    /// Adds an interior angle of bit pattern `angle_bits` between two directed axes; `angle` is the verdict of the angle.
    pub fn add_axis_angle_mate(&mut self, label: String, first: SpatialAxisFeatureId, second: SpatialAxisFeatureId, angle_bits: u64, angle: Option<SpatialValueRejection>) -> (result: Result<SpatialSourceId, SpatialAssemblyError>)
        ensures
            built(
                first_of(first_of(label_error(label@, "axis angle mate"), shape_error(*old(self), SpatialSourceShape::AxisAngleMate { first, second }, angle)), exhausted(*old(self))),
                result, *old(self), *final(self),
                SpatialSourceId { namespace: old(self).namespace, ordinal: old(self).next_id },
                source_added(*old(self), *final(self), SpatialSourceRecord {
                    id: SpatialSourceId { namespace: old(self).namespace, ordinal: old(self).next_id },
                    label,
                    shape: SpatialSourceShape::AxisAngleMate { first, second },
                    numbers: SpatialSourceNumbers::Scalar(angle_bits),
                    values: None,
                }),
            ),
    {
        self.add_source(label, "axis angle mate", SpatialSourceShape::AxisAngleMate { first, second }, angle, SpatialSourceNumbers::Scalar(angle_bits))
    }

    /// Adds an explicit-parity alignment of two directed axes.
    pub fn add_axis_alignment_mate(&mut self, label: String, first: SpatialAxisFeatureId, second: SpatialAxisFeatureId, parity: SpatialAxisParity) -> (result: Result<SpatialSourceId, SpatialAssemblyError>)
        ensures
            built(
                first_of(first_of(label_error(label@, "axis alignment mate"), shape_error(*old(self), SpatialSourceShape::AxisAlignmentMate { first, second, parity }, None)), exhausted(*old(self))),
                result, *old(self), *final(self),
                SpatialSourceId { namespace: old(self).namespace, ordinal: old(self).next_id },
                source_added(*old(self), *final(self), SpatialSourceRecord {
                    id: SpatialSourceId { namespace: old(self).namespace, ordinal: old(self).next_id },
                    label,
                    shape: SpatialSourceShape::AxisAlignmentMate { first, second, parity },
                    numbers: SpatialSourceNumbers::Empty,
                    values: None,
                }),
            ),
    {
        self.add_source(label, "axis alignment mate", SpatialSourceShape::AxisAlignmentMate { first, second, parity }, None, SpatialSourceNumbers::Empty)
    }

    /// Adds a fixed offset between two frames, the offset frame of bit pattern `offset_bits` (origin and three axes); `offset` is the verdict of the offset frame and its composition.
    pub fn add_frame_offset_mate(&mut self, label: String, first: SpatialFrameFeatureId, second: SpatialFrameFeatureId, offset_bits: [u64; 12], offset: Option<SpatialValueRejection>) -> (result: Result<SpatialSourceId, SpatialAssemblyError>)
        ensures
            built(
                first_of(first_of(label_error(label@, "frame offset mate"), shape_error(*old(self), SpatialSourceShape::FrameOffsetMate { first, second }, offset)), exhausted(*old(self))),
                result, *old(self), *final(self),
                SpatialSourceId { namespace: old(self).namespace, ordinal: old(self).next_id },
                source_added(*old(self), *final(self), SpatialSourceRecord {
                    id: SpatialSourceId { namespace: old(self).namespace, ordinal: old(self).next_id },
                    label,
                    shape: SpatialSourceShape::FrameOffsetMate { first, second },
                    numbers: SpatialSourceNumbers::Frame(offset_bits),
                    values: None,
                }),
            ),
    {
        self.add_source(label, "frame offset mate", SpatialSourceShape::FrameOffsetMate { first, second }, offset, SpatialSourceNumbers::Frame(offset_bits))
    }

    /// Drives a hinge coordinate to a target of the coordinate's winding and a principal phase with bit pattern `phase_bits`; `target` is the verdict of the phase.
    pub fn add_hinge_position_driver(&mut self, label: String, coordinate: SpatialCoordinateId, winding: i64, phase_bits: u64, target: Option<SpatialValueRejection>) -> (result: Result<SpatialSourceId, SpatialAssemblyError>)
        ensures
            built(
                first_of(first_of(label_error(label@, "hinge position driver"), shape_error(*old(self), SpatialSourceShape::HingePositionDriver { coordinate, winding, phase_bits }, target)), exhausted(*old(self))),
                result, *old(self), *final(self),
                SpatialSourceId { namespace: old(self).namespace, ordinal: old(self).next_id },
                source_added(*old(self), *final(self), SpatialSourceRecord {
                    id: SpatialSourceId { namespace: old(self).namespace, ordinal: old(self).next_id },
                    label,
                    shape: SpatialSourceShape::HingePositionDriver { coordinate, winding, phase_bits },
                    numbers: SpatialSourceNumbers::Empty,
                    values: None,
                }),
            ),
    {
        self.add_source(label, "hinge position driver", SpatialSourceShape::HingePositionDriver { coordinate, winding, phase_bits }, target, SpatialSourceNumbers::Empty)
    }

    /// Drives a translation coordinate to the target with bit pattern `target_bits`; `target` is the verdict of the target.
    pub fn add_translation_position_driver(&mut self, label: String, coordinate: SpatialCoordinateId, target_bits: u64, target: Option<SpatialValueRejection>) -> (result: Result<SpatialSourceId, SpatialAssemblyError>)
        ensures
            built(
                first_of(first_of(label_error(label@, "translation position driver"), shape_error(*old(self), SpatialSourceShape::TranslationPositionDriver { coordinate, target_bits }, target)), exhausted(*old(self))),
                result, *old(self), *final(self),
                SpatialSourceId { namespace: old(self).namespace, ordinal: old(self).next_id },
                source_added(*old(self), *final(self), SpatialSourceRecord {
                    id: SpatialSourceId { namespace: old(self).namespace, ordinal: old(self).next_id },
                    label,
                    shape: SpatialSourceShape::TranslationPositionDriver { coordinate, target_bits },
                    numbers: SpatialSourceNumbers::Empty,
                    values: None,
                }),
            ),
    {
        self.add_source(label, "translation position driver", SpatialSourceShape::TranslationPositionDriver { coordinate, target_bits }, target, SpatialSourceNumbers::Empty)
    }

    /// Adds a hinge coordinate of a revolute, cylindrical or planar joint, with a winding.
    pub fn add_hinge_coordinate(&mut self, label: String, parent: SpatialSourceId, winding: i64) -> (result: Result<SpatialCoordinateId, SpatialAssemblyError>)
        ensures
            built(
                first_of(first_of(label_error(label@, "hinge coordinate"), coordinate_parent_error(*old(self), SpatialCoordinateKind::Hinge { parent, winding })), exhausted(*old(self))),
                result, *old(self), *final(self),
                SpatialCoordinateId { namespace: old(self).namespace, ordinal: old(self).next_id },
                coordinate_added(*old(self), *final(self), SpatialCoordinate {
                    id: SpatialCoordinateId { namespace: old(self).namespace, ordinal: old(self).next_id },
                    label,
                    kind: SpatialCoordinateKind::Hinge { parent, winding },
                }),
            ),
    {
        if let Some(error) = check_label(label.as_str(), "hinge coordinate") {
            return Err(error);
        }
        if let Some(error) = check_coordinate_parent(self, SpatialCoordinateKind::Hinge { parent, winding }) {
            return Err(error);
        }
        let ordinal = self.allocate_id()?;
        let id = SpatialCoordinateId { namespace: self.namespace, ordinal };
        self.coordinates.push(SpatialCoordinate { id, label, kind: SpatialCoordinateKind::Hinge { parent, winding } });
        Ok(id)
    }

    /// Adds an axial translation coordinate of a prismatic or cylindrical joint.
    pub fn add_axial_translation_coordinate(&mut self, label: String, parent: SpatialSourceId) -> (result: Result<SpatialCoordinateId, SpatialAssemblyError>)
        ensures
            built(
                first_of(first_of(label_error(label@, "axial translation coordinate"), coordinate_parent_error(*old(self), SpatialCoordinateKind::AxialTranslation { parent })), exhausted(*old(self))),
                result, *old(self), *final(self),
                SpatialCoordinateId { namespace: old(self).namespace, ordinal: old(self).next_id },
                coordinate_added(*old(self), *final(self), SpatialCoordinate {
                    id: SpatialCoordinateId { namespace: old(self).namespace, ordinal: old(self).next_id },
                    label,
                    kind: SpatialCoordinateKind::AxialTranslation { parent },
                }),
            ),
    {
        if let Some(error) = check_label(label.as_str(), "axial translation coordinate") {
            return Err(error);
        }
        if let Some(error) = check_coordinate_parent(self, SpatialCoordinateKind::AxialTranslation { parent }) {
            return Err(error);
        }
        let ordinal = self.allocate_id()?;
        let id = SpatialCoordinateId { namespace: self.namespace, ordinal };
        self.coordinates.push(SpatialCoordinate { id, label, kind: SpatialCoordinateKind::AxialTranslation { parent } });
        Ok(id)
    }

    /// Adds an in-plane translation coordinate of a planar joint along one plane axis.
    pub fn add_planar_translation_coordinate(&mut self, label: String, parent: SpatialSourceId, axis: SpatialPlanarTranslationAxis) -> (result: Result<SpatialCoordinateId, SpatialAssemblyError>)
        ensures
            built(
                first_of(first_of(label_error(label@, "planar translation coordinate"), coordinate_parent_error(*old(self), SpatialCoordinateKind::PlanarTranslation { parent, axis })), exhausted(*old(self))),
                result, *old(self), *final(self),
                SpatialCoordinateId { namespace: old(self).namespace, ordinal: old(self).next_id },
                coordinate_added(*old(self), *final(self), SpatialCoordinate {
                    id: SpatialCoordinateId { namespace: old(self).namespace, ordinal: old(self).next_id },
                    label,
                    kind: SpatialCoordinateKind::PlanarTranslation { parent, axis },
                }),
            ),
    {
        if let Some(error) = check_label(label.as_str(), "planar translation coordinate") {
            return Err(error);
        }
        if let Some(error) = check_coordinate_parent(self, SpatialCoordinateKind::PlanarTranslation { parent, axis }) {
            return Err(error);
        }
        let ordinal = self.allocate_id()?;
        let id = SpatialCoordinateId { namespace: self.namespace, ordinal };
        self.coordinates.push(SpatialCoordinate { id, label, kind: SpatialCoordinateKind::PlanarTranslation { parent, axis } });
        Ok(id)
    }

    /// Watches the parity of two directed axes.
    pub fn add_axis_parity_monitor(&mut self, label: String, first: SpatialAxisFeatureId, second: SpatialAxisFeatureId, parity: SpatialAxisParity) -> (result: Result<SpatialModeMonitorId, SpatialAssemblyError>)
        ensures
            built(
                first_of(first_of(label_error(label@, "axis parity monitor"), monitor_kind_error(*old(self), SpatialModeMonitorKind::AxisParity { first, second, parity })), exhausted(*old(self))),
                result, *old(self), *final(self),
                SpatialModeMonitorId { namespace: old(self).namespace, ordinal: old(self).next_id },
                monitor_added(*old(self), *final(self), SpatialModeMonitor {
                    id: SpatialModeMonitorId { namespace: old(self).namespace, ordinal: old(self).next_id },
                    label,
                    kind: SpatialModeMonitorKind::AxisParity { first, second, parity },
                }),
            ),
    {
        if let Some(error) = check_label(label.as_str(), "axis parity monitor") {
            return Err(error);
        }
        let kind = SpatialModeMonitorKind::AxisParity { first, second, parity };
        let error = match kind {
            SpatialModeMonitorKind::HingeWinding { coordinate, winding } => self.check_hinge_winding(coordinate, winding),
            _ => check_monitor(self, kind),
        };
        if let Some(error) = error {
            return Err(error);
        }
        let ordinal = self.allocate_id()?;
        let id = SpatialModeMonitorId { namespace: self.namespace, ordinal };
        self.mode_monitors.push(SpatialModeMonitor { id, label, kind });
        Ok(id)
    }

    /// Watches the winding of a hinge coordinate, which must have that winding.
    pub fn add_hinge_winding_monitor(&mut self, label: String, coordinate: SpatialCoordinateId, winding: i64) -> (result: Result<SpatialModeMonitorId, SpatialAssemblyError>)
        ensures
            built(
                first_of(first_of(label_error(label@, "hinge winding monitor"), monitor_kind_error(*old(self), SpatialModeMonitorKind::HingeWinding { coordinate, winding })), exhausted(*old(self))),
                result, *old(self), *final(self),
                SpatialModeMonitorId { namespace: old(self).namespace, ordinal: old(self).next_id },
                monitor_added(*old(self), *final(self), SpatialModeMonitor {
                    id: SpatialModeMonitorId { namespace: old(self).namespace, ordinal: old(self).next_id },
                    label,
                    kind: SpatialModeMonitorKind::HingeWinding { coordinate, winding },
                }),
            ),
    {
        if let Some(error) = check_label(label.as_str(), "hinge winding monitor") {
            return Err(error);
        }
        let kind = SpatialModeMonitorKind::HingeWinding { coordinate, winding };
        let error = match kind {
            SpatialModeMonitorKind::HingeWinding { coordinate, winding } => self.check_hinge_winding(coordinate, winding),
            _ => check_monitor(self, kind),
        };
        if let Some(error) = error {
            return Err(error);
        }
        let ordinal = self.allocate_id()?;
        let id = SpatialModeMonitorId { namespace: self.namespace, ordinal };
        self.mode_monitors.push(SpatialModeMonitor { id, label, kind });
        Ok(id)
    }

    /// Watches the side of a plane a point lies on.
    pub fn add_plane_side_monitor(&mut self, label: String, plane: SpatialPlaneFeatureId, point: SpatialPointFeatureId, side: SpatialModeSign) -> (result: Result<SpatialModeMonitorId, SpatialAssemblyError>)
        ensures
            built(
                first_of(first_of(label_error(label@, "plane side monitor"), monitor_kind_error(*old(self), SpatialModeMonitorKind::PlaneSide { plane, point, side })), exhausted(*old(self))),
                result, *old(self), *final(self),
                SpatialModeMonitorId { namespace: old(self).namespace, ordinal: old(self).next_id },
                monitor_added(*old(self), *final(self), SpatialModeMonitor {
                    id: SpatialModeMonitorId { namespace: old(self).namespace, ordinal: old(self).next_id },
                    label,
                    kind: SpatialModeMonitorKind::PlaneSide { plane, point, side },
                }),
            ),
    {
        if let Some(error) = check_label(label.as_str(), "plane side monitor") {
            return Err(error);
        }
        let kind = SpatialModeMonitorKind::PlaneSide { plane, point, side };
        let error = match kind {
            SpatialModeMonitorKind::HingeWinding { coordinate, winding } => self.check_hinge_winding(coordinate, winding),
            _ => check_monitor(self, kind),
        };
        if let Some(error) = error {
            return Err(error);
        }
        let ordinal = self.allocate_id()?;
        let id = SpatialModeMonitorId { namespace: self.namespace, ordinal };
        self.mode_monitors.push(SpatialModeMonitor { id, label, kind });
        Ok(id)
    }

    /// Watches the orientation of four distinct points.
    pub fn add_signed_volume_monitor(&mut self, label: String, points: [SpatialPointFeatureId; 4], orientation: SpatialModeSign) -> (result: Result<SpatialModeMonitorId, SpatialAssemblyError>)
        ensures
            built(
                first_of(first_of(label_error(label@, "signed volume monitor"), monitor_kind_error(*old(self), SpatialModeMonitorKind::SignedVolume { points, orientation })), exhausted(*old(self))),
                result, *old(self), *final(self),
                SpatialModeMonitorId { namespace: old(self).namespace, ordinal: old(self).next_id },
                monitor_added(*old(self), *final(self), SpatialModeMonitor {
                    id: SpatialModeMonitorId { namespace: old(self).namespace, ordinal: old(self).next_id },
                    label,
                    kind: SpatialModeMonitorKind::SignedVolume { points, orientation },
                }),
            ),
    {
        if let Some(error) = check_label(label.as_str(), "signed volume monitor") {
            return Err(error);
        }
        let kind = SpatialModeMonitorKind::SignedVolume { points, orientation };
        let error = match kind {
            SpatialModeMonitorKind::HingeWinding { coordinate, winding } => self.check_hinge_winding(coordinate, winding),
            _ => check_monitor(self, kind),
        };
        if let Some(error) = error {
            return Err(error);
        }
        let ordinal = self.allocate_id()?;
        let id = SpatialModeMonitorId { namespace: self.namespace, ordinal };
        self.mode_monitors.push(SpatialModeMonitor { id, label, kind });
        Ok(id)
    }
}

} // verus!
