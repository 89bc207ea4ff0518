//! Persistent spatial documents: the persistent-to-runtime identity map of an
//! assembly, document identity allocation, and the translation of runtime
//! definitions into persistent records and back.

use vstd::prelude::*;
use crate::ids::{SpatialDocumentId, SpatialPersistentId};
use crate::idmap::{lemma_persistent_of_first, lemma_runtime_of_first, persistent_of, runtime_of};
use crate::runtime_ids::{
    SpatialAxisFeatureId, SpatialBodyId, SpatialCoordinateId, SpatialFrameFeatureId,
    SpatialModeMonitorId, SpatialPlaneFeatureId, SpatialPointFeatureId, SpatialSourceId,
};
use crate::spatial::{
    SpatialAssemblyError, SpatialAxisParity, SpatialBranchBoundary, SpatialCoordinateKind, SpatialFrameAxis,
    SpatialModeMonitorKind, SpatialModeSign, SpatialPlanarTranslationAxis,
};

verus! {

/// Current persistent spatial-assembly document schema.
pub const SPATIAL_ASSEMBLY_DOCUMENT_VERSION: u32 = 1;

/// Runtime feature selected by one persistent feature identity.
#[derive(Clone, Copy, Debug, PartialEq, Eq, Structural)]
pub enum SpatialRuntimeFeature {
    Point(SpatialPointFeatureId),
    Frame(SpatialFrameFeatureId),
    Axis(SpatialAxisFeatureId),
    Plane(SpatialPlaneFeatureId),
}

/// Kind of feature a persistent reference must name.
#[derive(Clone, Copy, Debug, PartialEq, Eq, Structural)]
pub enum SpatialFeatureKind {
    Point,
    Frame,
    Axis,
    Plane,
}

/// Kind of a persistent object a reference failed to name.
#[derive(Clone, Copy, Debug, PartialEq, Eq, Structural)]
pub enum SpatialReferenceKind {
    Body,
    Feature,
    Source,
    Coordinate,
    Monitor,
    /// The accepted pose of a body.
    BodyState,
    /// The accepted target of a driver.
    DriverState,
}

/// A runtime object with no persistent identity in the map.
#[derive(Clone, Copy, Debug, PartialEq, Eq, Structural)]
pub enum SpatialRuntimeReference {
    Body(SpatialBodyId),
    Feature(SpatialRuntimeFeature),
    Source(SpatialSourceId),
    Coordinate(SpatialCoordinateId),
    Monitor(SpatialModeMonitorId),
}

/// Field of a persistent spatial document that failed a structural check.
#[derive(Clone, Copy, Debug, PartialEq, Eq, Structural)]
pub enum SpatialDocumentField {
    /// The model scale is not positive and finite.
    ModelScale,
    /// The document holds more objects than the limit.
    Topology,
    /// The next identity does not exceed every allocated identity.
    NextId,
    /// A label is empty or longer than the byte limit.
    Label,
    /// The accepted state does not hold exactly one pose per body.
    AcceptedBodies,
    /// The accepted state does not hold exactly one target per driver.
    AcceptedDrivers,
    /// A pose record is not a valid pose.
    PoseAmbient,
    /// A frame record is not a valid frame.
    FeatureLocalFrame,
    /// A ground target disagrees with the accepted pose of its body.
    SourceTarget,
    /// An accepted driver target is of the wrong kind for its driver.
    DriverTarget,
    /// The accepted boundary latches name one boundary twice.
    RepeatedBoundary,
    /// The accepted boundary latches are not exactly the boundaries the
    /// topology implies.
    AcceptedBoundaries,
}

/// Structural rejection of a persistent spatial document or of its translation.
#[derive(Clone, Debug, PartialEq, Eq)]
pub enum SpatialDocumentError {
    UnsupportedVersion(u32),
    InvalidId(u128),
    DuplicateId(u128),
    InvalidSourceOrder,
    InvalidField(SpatialDocumentField),
    IdExhausted,
    UnknownReference { kind: SpatialReferenceKind, id: SpatialPersistentId },
    UnknownRuntimeReference(SpatialRuntimeReference),
    WrongReferenceKind { id: SpatialPersistentId, expected: SpatialFeatureKind },
    /// The assembly rejected a lowered definition.
    Spatial(SpatialAssemblyError),
}

/// Deterministic persistent-to-runtime mapping of one spatial document.
#[derive(Clone, Debug, PartialEq, Eq)]
pub struct SpatialAssemblyRuntimeMap {
    pub document: SpatialDocumentId,
    pub bodies: Vec<(SpatialPersistentId, SpatialBodyId)>,
    pub features: Vec<(SpatialPersistentId, SpatialRuntimeFeature)>,
    pub sources: Vec<(SpatialPersistentId, SpatialSourceId)>,
    pub coordinates: Vec<(SpatialPersistentId, SpatialCoordinateId)>,
    pub monitors: Vec<(SpatialPersistentId, SpatialModeMonitorId)>,
}

impl SpatialAssemblyRuntimeMap {
    /// An empty mapping for a document.
    pub fn new(document: SpatialDocumentId) -> (map: Self)
        ensures
            map.document == document,
            map.bodies@.len() == 0,
            map.features@.len() == 0,
            map.sources@.len() == 0,
            map.coordinates@.len() == 0,
            map.monitors@.len() == 0,
    {
        SpatialAssemblyRuntimeMap {
            document,
            bodies: Vec::new(),
            features: Vec::new(),
            sources: Vec::new(),
            coordinates: Vec::new(),
            monitors: Vec::new(),
        }
    }

    pub fn document_id(&self) -> (document: SpatialDocumentId)
        ensures
            document == self.document,
    {
        self.document
    }

    /// The runtime body of the first entry for a persistent identity.
    pub fn runtime_body(&self, id: SpatialPersistentId) -> (found: Option<SpatialBodyId>)
        ensures
            found == runtime_of(self.bodies@, id),
    {
        proof {
            assert(self.bodies@.skip(0) =~= self.bodies@);
        }
        let mut i: usize = 0;
        while i < self.bodies.len()
            invariant
                i <= self.bodies@.len(),
                runtime_of(self.bodies@, id) == runtime_of(self.bodies@.skip(i as int), id),
            decreases self.bodies@.len() - i,
        {
            proof {
                assert(self.bodies@.skip(i as int).drop_first() =~= self.bodies@.skip(i + 1));
            }
            let (persistent, runtime) = self.bodies[i];
            if persistent == id {
                return Some(runtime);
            }
            i = i + 1;
        }
        None
    }

    /// The persistent identity of the first entry for a runtime body.
    pub fn persistent_body(&self, id: SpatialBodyId) -> (found: Option<SpatialPersistentId>)
        ensures
            found == persistent_of(self.bodies@, id),
    {
        proof {
            assert(self.bodies@.skip(0) =~= self.bodies@);
        }
        let mut i: usize = 0;
        while i < self.bodies.len()
            invariant
                i <= self.bodies@.len(),
                persistent_of(self.bodies@, id) == persistent_of(self.bodies@.skip(i as int), id),
            decreases self.bodies@.len() - i,
        {
            proof {
                assert(self.bodies@.skip(i as int).drop_first() =~= self.bodies@.skip(i + 1));
            }
            let (persistent, runtime) = self.bodies[i];
            if runtime == id {
                return Some(persistent);
            }
            i = i + 1;
        }
        None
    }

    /// The runtime source of the first entry for a persistent identity.
    pub fn runtime_source(&self, id: SpatialPersistentId) -> (found: Option<SpatialSourceId>)
        ensures
            found == runtime_of(self.sources@, id),
    {
        proof {
            assert(self.sources@.skip(0) =~= self.sources@);
        }
        let mut i: usize = 0;
        while i < self.sources.len()
            invariant
                i <= self.sources@.len(),
                runtime_of(self.sources@, id) == runtime_of(self.sources@.skip(i as int), id),
            decreases self.sources@.len() - i,
        {
            proof {
                assert(self.sources@.skip(i as int).drop_first() =~= self.sources@.skip(i + 1));
            }
            let (persistent, runtime) = self.sources[i];
            if persistent == id {
                return Some(runtime);
            }
            i = i + 1;
        }
        None
    }

    /// The persistent identity of the first entry for a runtime source.
    pub fn persistent_source(&self, id: SpatialSourceId) -> (found: Option<SpatialPersistentId>)
        ensures
            found == persistent_of(self.sources@, id),
    {
        proof {
            assert(self.sources@.skip(0) =~= self.sources@);
        }
        let mut i: usize = 0;
        while i < self.sources.len()
            invariant
                i <= self.sources@.len(),
                persistent_of(self.sources@, id) == persistent_of(self.sources@.skip(i as int), id),
            decreases self.sources@.len() - i,
        {
            proof {
                assert(self.sources@.skip(i as int).drop_first() =~= self.sources@.skip(i + 1));
            }
            let (persistent, runtime) = self.sources[i];
            if runtime == id {
                return Some(persistent);
            }
            i = i + 1;
        }
        None
    }

    /// The runtime coordinate of the first entry for a persistent identity.
    pub fn runtime_coordinate(&self, id: SpatialPersistentId) -> (found: Option<SpatialCoordinateId>)
        ensures
            found == runtime_of(self.coordinates@, id),
    {
        proof {
            assert(self.coordinates@.skip(0) =~= self.coordinates@);
        }
        let mut i: usize = 0;
        while i < self.coordinates.len()
            invariant
                i <= self.coordinates@.len(),
                runtime_of(self.coordinates@, id) == runtime_of(self.coordinates@.skip(i as int), id),
            decreases self.coordinates@.len() - i,
        {
            proof {
                assert(self.coordinates@.skip(i as int).drop_first() =~= self.coordinates@.skip(i + 1));
            }
            let (persistent, runtime) = self.coordinates[i];
            if persistent == id {
                return Some(runtime);
            }
            i = i + 1;
        }
        None
    }

    /// The persistent identity of the first entry for a runtime coordinate.
    pub fn persistent_coordinate(&self, id: SpatialCoordinateId) -> (found: Option<SpatialPersistentId>)
        ensures
            found == persistent_of(self.coordinates@, id),
    {
        proof {
            assert(self.coordinates@.skip(0) =~= self.coordinates@);
        }
        let mut i: usize = 0;
        while i < self.coordinates.len()
            invariant
                i <= self.coordinates@.len(),
                persistent_of(self.coordinates@, id) == persistent_of(self.coordinates@.skip(i as int), id),
            decreases self.coordinates@.len() - i,
        {
            proof {
                assert(self.coordinates@.skip(i as int).drop_first() =~= self.coordinates@.skip(i + 1));
            }
            let (persistent, runtime) = self.coordinates[i];
            if runtime == id {
                return Some(persistent);
            }
            i = i + 1;
        }
        None
    }

    /// The runtime monitor of the first entry for a persistent identity.
    pub fn runtime_monitor(&self, id: SpatialPersistentId) -> (found: Option<SpatialModeMonitorId>)
        ensures
            found == runtime_of(self.monitors@, id),
    {
        proof {
            assert(self.monitors@.skip(0) =~= self.monitors@);
        }
        let mut i: usize = 0;
        while i < self.monitors.len()
            invariant
                i <= self.monitors@.len(),
                runtime_of(self.monitors@, id) == runtime_of(self.monitors@.skip(i as int), id),
            decreases self.monitors@.len() - i,
        {
            proof {
                assert(self.monitors@.skip(i as int).drop_first() =~= self.monitors@.skip(i + 1));
            }
            let (persistent, runtime) = self.monitors[i];
            if persistent == id {
                return Some(runtime);
            }
            i = i + 1;
        }
        None
    }

    /// The persistent identity of the first entry for a runtime monitor.
    pub fn persistent_monitor(&self, id: SpatialModeMonitorId) -> (found: Option<SpatialPersistentId>)
        ensures
            found == persistent_of(self.monitors@, id),
    {
        proof {
            assert(self.monitors@.skip(0) =~= self.monitors@);
        }
        let mut i: usize = 0;
        while i < self.monitors.len()
            invariant
                i <= self.monitors@.len(),
                persistent_of(self.monitors@, id) == persistent_of(self.monitors@.skip(i as int), id),
            decreases self.monitors@.len() - i,
        {
            proof {
                assert(self.monitors@.skip(i as int).drop_first() =~= self.monitors@.skip(i + 1));
            }
            let (persistent, runtime) = self.monitors[i];
            if runtime == id {
                return Some(persistent);
            }
            i = i + 1;
        }
        None
    }

    /// The runtime feature of the first entry for a persistent identity.
    pub fn runtime_feature(&self, id: SpatialPersistentId) -> (found: Option<SpatialRuntimeFeature>)
        ensures
            found == runtime_of(self.features@, id),
    {
        proof {
            assert(self.features@.skip(0) =~= self.features@);
        }
        let mut i: usize = 0;
        while i < self.features.len()
            invariant
                i <= self.features@.len(),
                runtime_of(self.features@, id) == runtime_of(self.features@.skip(i as int), id),
            decreases self.features@.len() - i,
        {
            proof {
                assert(self.features@.skip(i as int).drop_first() =~= self.features@.skip(i + 1));
            }
            let (persistent, runtime) = self.features[i];
            if persistent == id {
                return Some(runtime);
            }
            i = i + 1;
        }
        None
    }

    /// The persistent identity of the first entry for a runtime feature.
    pub fn persistent_feature(&self, id: SpatialRuntimeFeature) -> (found: Option<SpatialPersistentId>)
        ensures
            found == persistent_of(self.features@, id),
    {
        proof {
            assert(self.features@.skip(0) =~= self.features@);
        }
        let mut i: usize = 0;
        while i < self.features.len()
            invariant
                i <= self.features@.len(),
                persistent_of(self.features@, id) == persistent_of(self.features@.skip(i as int), id),
            decreases self.features@.len() - i,
        {
            proof {
                assert(self.features@.skip(i as int).drop_first() =~= self.features@.skip(i + 1));
            }
            let (persistent, runtime) = self.features[i];
            if runtime == id {
                return Some(persistent);
            }
            i = i + 1;
        }
        None
    }

    /// Appends an association.
    pub fn push_body(&mut self, persistent: SpatialPersistentId, runtime: SpatialBodyId)
        ensures
            final(self).document == old(self).document,
            final(self).bodies@ == old(self).bodies@.push((persistent, runtime)),
            final(self).features@ == old(self).features@,
            final(self).sources@ == old(self).sources@,
            final(self).coordinates@ == old(self).coordinates@,
            final(self).monitors@ == old(self).monitors@,
    {
        self.bodies.push((persistent, runtime));
    }

    /// Appends an association.
    pub fn push_feature(&mut self, persistent: SpatialPersistentId, runtime: SpatialRuntimeFeature)
        ensures
            final(self).document == old(self).document,
            final(self).features@ == old(self).features@.push((persistent, runtime)),
            final(self).bodies@ == old(self).bodies@,
            final(self).sources@ == old(self).sources@,
            final(self).coordinates@ == old(self).coordinates@,
            final(self).monitors@ == old(self).monitors@,
    {
        self.features.push((persistent, runtime));
    }

    /// Appends an association.
    pub fn push_source(&mut self, persistent: SpatialPersistentId, runtime: SpatialSourceId)
        ensures
            final(self).document == old(self).document,
            final(self).sources@ == old(self).sources@.push((persistent, runtime)),
            final(self).bodies@ == old(self).bodies@,
            final(self).features@ == old(self).features@,
            final(self).coordinates@ == old(self).coordinates@,
            final(self).monitors@ == old(self).monitors@,
    {
        self.sources.push((persistent, runtime));
    }

    /// Appends an association.
    pub fn push_coordinate(&mut self, persistent: SpatialPersistentId, runtime: SpatialCoordinateId)
        ensures
            final(self).document == old(self).document,
            final(self).coordinates@ == old(self).coordinates@.push((persistent, runtime)),
            final(self).bodies@ == old(self).bodies@,
            final(self).features@ == old(self).features@,
            final(self).sources@ == old(self).sources@,
            final(self).monitors@ == old(self).monitors@,
    {
        self.coordinates.push((persistent, runtime));
    }

    /// Appends an association.
    pub fn push_monitor(&mut self, persistent: SpatialPersistentId, runtime: SpatialModeMonitorId)
        ensures
            final(self).document == old(self).document,
            final(self).monitors@ == old(self).monitors@.push((persistent, runtime)),
            final(self).bodies@ == old(self).bodies@,
            final(self).features@ == old(self).features@,
            final(self).sources@ == old(self).sources@,
            final(self).coordinates@ == old(self).coordinates@,
    {
        self.monitors.push((persistent, runtime));
    }
}


/// Sequential allocator of persistent identities inside one spatial document.
#[derive(Debug)]
pub struct Allocator {
    pub next: u128,
}

impl Allocator {
    /// Starts allocating right after the (nonzero) document identity.
    pub fn new(id: SpatialDocumentId) -> (result: Result<Allocator, SpatialDocumentError>)
        ensures
            id.0 == 0 ==> result == Err::<Allocator, _>(SpatialDocumentError::InvalidId(0)),
            id.0 == u128::MAX ==> result == Err::<Allocator, _>(SpatialDocumentError::IdExhausted),
            0 < id.0 < u128::MAX ==> (result matches Ok(allocator) && allocator.next == id.0 + 1),
    {
        if id.0 == 0 {
            return Err(SpatialDocumentError::InvalidId(id.0));
        }
        match id.0.checked_add(1) {
            Some(next) => Ok(Allocator { next }),
            None => Err(SpatialDocumentError::IdExhausted),
        }
    }

    /// Hands out the next identity; fails, leaving the allocator unchanged, once
    /// the identity space is exhausted.
    pub fn allocate(&mut self) -> (result: Result<SpatialPersistentId, SpatialDocumentError>)
        ensures
            old(self).next < u128::MAX ==> result == Ok::<SpatialPersistentId, SpatialDocumentError>(SpatialPersistentId(old(self).next))
                && final(self).next == old(self).next + 1,
            old(self).next == u128::MAX ==> result == Err::<SpatialPersistentId, _>(SpatialDocumentError::IdExhausted)
                && final(self).next == old(self).next,
    {
        let value = self.next;
        match self.next.checked_add(1) {
            Some(next) => {
                self.next = next;
                Ok(SpatialPersistentId(value))
            },
            None => Err(SpatialDocumentError::IdExhausted),
        }
    }
}

/// Persistent record of an axis parity.
#[derive(Clone, Copy, Debug, PartialEq, Eq, Structural)]
pub enum ParityRecord {
    Aligned,
    Opposed,
}

/// Persistent record of a mode sign.
#[derive(Clone, Copy, Debug, PartialEq, Eq, Structural)]
pub enum SignRecord {
    Positive,
    Negative,
}

/// Persistent record of a planar translation axis.
#[derive(Clone, Copy, Debug, PartialEq, Eq, Structural)]
pub enum AxisRecord {
    X,
    Y,
}

/// Persistent record of a local frame axis.
#[derive(Clone, Copy, Debug, PartialEq, Eq, Structural)]
pub enum FrameAxisRecord {
    X,
    Y,
    Z,
}

/// Persistent coordinate definition.
#[derive(Clone, Copy, Debug, PartialEq, Eq, Structural)]
pub enum CoordinateDefinition {
    Hinge { parent: SpatialPersistentId, winding: i64 },
    AxialTranslation { parent: SpatialPersistentId },
    PlanarTranslation { parent: SpatialPersistentId, axis: AxisRecord },
}

/// Persistent mode-monitor definition.
#[derive(Clone, Copy, Debug, PartialEq, Eq)]
pub enum MonitorDefinition {
    AxisParity { first: SpatialPersistentId, second: SpatialPersistentId, parity: ParityRecord },
    HingeWinding { coordinate: SpatialPersistentId, winding: i64 },
    PlaneSide { plane: SpatialPersistentId, point: SpatialPersistentId, side: SignRecord },
    SignedVolume { points: [SpatialPersistentId; 4], orientation: SignRecord },
}

/// Persistent branch-boundary record.
#[derive(Clone, Copy, Debug, PartialEq, Eq, Structural)]
pub enum BoundaryRecord {
    FixedFrameDiagonal { source: SpatialPersistentId, axis: FrameAxisRecord },
    FrameOffsetDiagonal { source: SpatialPersistentId, axis: FrameAxisRecord },
    SourceAxisParity { source: SpatialPersistentId, parity: ParityRecord },
    PrismaticClockRoot { source: SpatialPersistentId },
    HingeDriverPositiveRoot { source: SpatialPersistentId, coordinate: SpatialPersistentId },
    HingePrincipalCut { coordinate: SpatialPersistentId, winding: i64 },
    MonitorAxisParity { monitor: SpatialPersistentId, parity: ParityRecord },
    MonitorPlaneSide { monitor: SpatialPersistentId, side: SignRecord },
    MonitorSignedVolume { monitor: SpatialPersistentId, orientation: SignRecord },
}

/// The record of a parity.
pub open spec fn parity_record_of(parity: SpatialAxisParity) -> ParityRecord {
    match parity {
        SpatialAxisParity::Aligned => ParityRecord::Aligned,
        SpatialAxisParity::Opposed => ParityRecord::Opposed,
    }
}

/// The parity of a record.
pub open spec fn parity_of_record(record: ParityRecord) -> SpatialAxisParity {
    match record {
        ParityRecord::Aligned => SpatialAxisParity::Aligned,
        ParityRecord::Opposed => SpatialAxisParity::Opposed,
    }
}

/// The record of a sign.
pub open spec fn sign_record_of(sign: SpatialModeSign) -> SignRecord {
    match sign {
        SpatialModeSign::Positive => SignRecord::Positive,
        SpatialModeSign::Negative => SignRecord::Negative,
    }
}

/// The sign of a record.
pub open spec fn sign_of_record(record: SignRecord) -> SpatialModeSign {
    match record {
        SignRecord::Positive => SpatialModeSign::Positive,
        SignRecord::Negative => SpatialModeSign::Negative,
    }
}

/// The record of a frame axis.
pub open spec fn frame_axis_record_of(axis: SpatialFrameAxis) -> FrameAxisRecord {
    match axis {
        SpatialFrameAxis::X => FrameAxisRecord::X,
        SpatialFrameAxis::Y => FrameAxisRecord::Y,
        SpatialFrameAxis::Z => FrameAxisRecord::Z,
    }
}

/// The frame axis of a record.
pub open spec fn frame_axis_of_record(record: FrameAxisRecord) -> SpatialFrameAxis {
    match record {
        FrameAxisRecord::X => SpatialFrameAxis::X,
        FrameAxisRecord::Y => SpatialFrameAxis::Y,
        FrameAxisRecord::Z => SpatialFrameAxis::Z,
    }
}

pub fn parity_record(parity: SpatialAxisParity) -> (record: ParityRecord)
    ensures
        record == parity_record_of(parity),
{
    match parity {
        SpatialAxisParity::Aligned => ParityRecord::Aligned,
        SpatialAxisParity::Opposed => ParityRecord::Opposed,
    }
}

pub fn runtime_parity(record: ParityRecord) -> (parity: SpatialAxisParity)
    ensures
        parity == parity_of_record(record),
{
    match record {
        ParityRecord::Aligned => SpatialAxisParity::Aligned,
        ParityRecord::Opposed => SpatialAxisParity::Opposed,
    }
}

pub fn sign_record(sign: SpatialModeSign) -> (record: SignRecord)
    ensures
        record == sign_record_of(sign),
{
    match sign {
        SpatialModeSign::Positive => SignRecord::Positive,
        SpatialModeSign::Negative => SignRecord::Negative,
    }
}

pub fn runtime_sign(record: SignRecord) -> (sign: SpatialModeSign)
    ensures
        sign == sign_of_record(record),
{
    match record {
        SignRecord::Positive => SpatialModeSign::Positive,
        SignRecord::Negative => SpatialModeSign::Negative,
    }
}

pub fn frame_axis_record(axis: SpatialFrameAxis) -> (record: FrameAxisRecord)
    ensures
        record == frame_axis_record_of(axis),
{
    match axis {
        SpatialFrameAxis::X => FrameAxisRecord::X,
        SpatialFrameAxis::Y => FrameAxisRecord::Y,
        SpatialFrameAxis::Z => FrameAxisRecord::Z,
    }
}

pub fn runtime_frame_axis(axis: FrameAxisRecord) -> (frame_axis: SpatialFrameAxis)
    ensures
        frame_axis == frame_axis_of_record(axis),
{
    match axis {
        FrameAxisRecord::X => SpatialFrameAxis::X,
        FrameAxisRecord::Y => SpatialFrameAxis::Y,
        FrameAxisRecord::Z => SpatialFrameAxis::Z,
    }
}

/// Recording and restoring a value gives it back.
pub proof fn lemma_records_round_trip(parity: SpatialAxisParity, sign: SpatialModeSign, axis: SpatialFrameAxis)
    ensures
        parity_of_record(parity_record_of(parity)) == parity,
        sign_of_record(sign_record_of(sign)) == sign,
        frame_axis_of_record(frame_axis_record_of(axis)) == axis,
{
}

/// The kind of a runtime feature.
pub open spec fn feature_kind(feature: SpatialRuntimeFeature) -> SpatialFeatureKind {
    match feature {
        SpatialRuntimeFeature::Point(_) => SpatialFeatureKind::Point,
        SpatialRuntimeFeature::Frame(_) => SpatialFeatureKind::Frame,
        SpatialRuntimeFeature::Axis(_) => SpatialFeatureKind::Axis,
        SpatialRuntimeFeature::Plane(_) => SpatialFeatureKind::Plane,
    }
}

/// The runtime body of a persistent body reference.
pub fn require_runtime_body(map: &SpatialAssemblyRuntimeMap, id: SpatialPersistentId) -> (result: Result<SpatialBodyId, SpatialDocumentError>)
    ensures
        match runtime_of(map.bodies@, id) {
            Some(body) => result == Ok::<SpatialBodyId, SpatialDocumentError>(body),
            None => result == Err::<SpatialBodyId, _>(SpatialDocumentError::UnknownReference { kind: SpatialReferenceKind::Body, id }),
        },
{
    match map.runtime_body(id) {
        Some(body) => Ok(body),
        None => Err(SpatialDocumentError::UnknownReference { kind: SpatialReferenceKind::Body, id }),
    }
}

/// The spec result of resolving a feature reference of an expected kind.
pub open spec fn feature_resolution(map: SpatialAssemblyRuntimeMap, id: SpatialPersistentId, expected: SpatialFeatureKind) -> Result<SpatialRuntimeFeature, SpatialDocumentError> {
    match runtime_of(map.features@, id) {
        None => Err(SpatialDocumentError::UnknownReference { kind: SpatialReferenceKind::Feature, id }),
        Some(feature) => if feature_kind(feature) == expected {
            Ok(feature)
        } else {
            Err(SpatialDocumentError::WrongReferenceKind { id, expected })
        },
    }
}

/// The runtime feature of a persistent feature reference of an expected kind.
pub fn require_runtime_feature(map: &SpatialAssemblyRuntimeMap, id: SpatialPersistentId, expected: SpatialFeatureKind) -> (result: Result<SpatialRuntimeFeature, SpatialDocumentError>)
    ensures
        result == feature_resolution(*map, id, expected),
{
    let feature = match map.runtime_feature(id) {
        Some(feature) => feature,
        None => {
            return Err(SpatialDocumentError::UnknownReference { kind: SpatialReferenceKind::Feature, id });
        },
    };
    let matches = match (feature, expected) {
        (SpatialRuntimeFeature::Point(_), SpatialFeatureKind::Point) => true,
        (SpatialRuntimeFeature::Frame(_), SpatialFeatureKind::Frame) => true,
        (SpatialRuntimeFeature::Axis(_), SpatialFeatureKind::Axis) => true,
        (SpatialRuntimeFeature::Plane(_), SpatialFeatureKind::Plane) => true,
        _ => false,
    };
    if matches {
        Ok(feature)
    } else {
        Err(SpatialDocumentError::WrongReferenceKind { id, expected })
    }
}

/// The runtime point feature of a persistent feature reference.
pub fn runtime_point(map: &SpatialAssemblyRuntimeMap, id: SpatialPersistentId) -> (result: Result<SpatialPointFeatureId, SpatialDocumentError>)
    ensures
        match feature_resolution(*map, id, SpatialFeatureKind::Point) {
            Ok(SpatialRuntimeFeature::Point(runtime)) => result == Ok::<SpatialPointFeatureId, SpatialDocumentError>(runtime),
            Ok(_) => false,
            Err(e) => result == Err::<SpatialPointFeatureId, _>(e),
        },
{
    match require_runtime_feature(map, id, SpatialFeatureKind::Point)? {
        SpatialRuntimeFeature::Point(runtime) => Ok(runtime),
        _ => {
            proof {
                assert(false);
            }
            Err(SpatialDocumentError::WrongReferenceKind { id, expected: SpatialFeatureKind::Point })
        },
    }
}

/// The runtime frame feature of a persistent feature reference.
pub fn runtime_frame(map: &SpatialAssemblyRuntimeMap, id: SpatialPersistentId) -> (result: Result<SpatialFrameFeatureId, SpatialDocumentError>)
    ensures
        match feature_resolution(*map, id, SpatialFeatureKind::Frame) {
            Ok(SpatialRuntimeFeature::Frame(runtime)) => result == Ok::<SpatialFrameFeatureId, SpatialDocumentError>(runtime),
            Ok(_) => false,
            Err(e) => result == Err::<SpatialFrameFeatureId, _>(e),
        },
{
    match require_runtime_feature(map, id, SpatialFeatureKind::Frame)? {
        SpatialRuntimeFeature::Frame(runtime) => Ok(runtime),
        _ => {
            proof {
                assert(false);
            }
            Err(SpatialDocumentError::WrongReferenceKind { id, expected: SpatialFeatureKind::Frame })
        },
    }
}

/// The runtime axis feature of a persistent feature reference.
pub fn runtime_axis(map: &SpatialAssemblyRuntimeMap, id: SpatialPersistentId) -> (result: Result<SpatialAxisFeatureId, SpatialDocumentError>)
    ensures
        match feature_resolution(*map, id, SpatialFeatureKind::Axis) {
            Ok(SpatialRuntimeFeature::Axis(runtime)) => result == Ok::<SpatialAxisFeatureId, SpatialDocumentError>(runtime),
            Ok(_) => false,
            Err(e) => result == Err::<SpatialAxisFeatureId, _>(e),
        },
{
    match require_runtime_feature(map, id, SpatialFeatureKind::Axis)? {
        SpatialRuntimeFeature::Axis(runtime) => Ok(runtime),
        _ => {
            proof {
                assert(false);
            }
            Err(SpatialDocumentError::WrongReferenceKind { id, expected: SpatialFeatureKind::Axis })
        },
    }
}

/// The runtime plane feature of a persistent feature reference.
pub fn runtime_plane(map: &SpatialAssemblyRuntimeMap, id: SpatialPersistentId) -> (result: Result<SpatialPlaneFeatureId, SpatialDocumentError>)
    ensures
        match feature_resolution(*map, id, SpatialFeatureKind::Plane) {
            Ok(SpatialRuntimeFeature::Plane(runtime)) => result == Ok::<SpatialPlaneFeatureId, SpatialDocumentError>(runtime),
            Ok(_) => false,
            Err(e) => result == Err::<SpatialPlaneFeatureId, _>(e),
        },
{
    match require_runtime_feature(map, id, SpatialFeatureKind::Plane)? {
        SpatialRuntimeFeature::Plane(runtime) => Ok(runtime),
        _ => {
            proof {
                assert(false);
            }
            Err(SpatialDocumentError::WrongReferenceKind { id, expected: SpatialFeatureKind::Plane })
        },
    }
}

/// The runtime source of a persistent reference.
pub fn runtime_source(map: &SpatialAssemblyRuntimeMap, id: SpatialPersistentId) -> (result: Result<SpatialSourceId, SpatialDocumentError>)
    ensures
        match runtime_of(map.sources@, id) {
            Some(runtime) => result == Ok::<SpatialSourceId, SpatialDocumentError>(runtime),
            None => result == Err::<SpatialSourceId, _>(SpatialDocumentError::UnknownReference { kind: SpatialReferenceKind::Source, id }),
        },
{
    match map.runtime_source(id) {
        Some(runtime) => Ok(runtime),
        None => Err(SpatialDocumentError::UnknownReference { kind: SpatialReferenceKind::Source, id }),
    }
}

/// The runtime coordinate of a persistent reference.
pub fn runtime_coordinate(map: &SpatialAssemblyRuntimeMap, id: SpatialPersistentId) -> (result: Result<SpatialCoordinateId, SpatialDocumentError>)
    ensures
        match runtime_of(map.coordinates@, id) {
            Some(runtime) => result == Ok::<SpatialCoordinateId, SpatialDocumentError>(runtime),
            None => result == Err::<SpatialCoordinateId, _>(SpatialDocumentError::UnknownReference { kind: SpatialReferenceKind::Coordinate, id }),
        },
{
    match map.runtime_coordinate(id) {
        Some(runtime) => Ok(runtime),
        None => Err(SpatialDocumentError::UnknownReference { kind: SpatialReferenceKind::Coordinate, id }),
    }
}

/// The runtime monitor of a persistent reference.
pub fn runtime_monitor(map: &SpatialAssemblyRuntimeMap, id: SpatialPersistentId) -> (result: Result<SpatialModeMonitorId, SpatialDocumentError>)
    ensures
        match runtime_of(map.monitors@, id) {
            Some(runtime) => result == Ok::<SpatialModeMonitorId, SpatialDocumentError>(runtime),
            None => result == Err::<SpatialModeMonitorId, _>(SpatialDocumentError::UnknownReference { kind: SpatialReferenceKind::Monitor, id }),
        },
{
    match map.runtime_monitor(id) {
        Some(runtime) => Ok(runtime),
        None => Err(SpatialDocumentError::UnknownReference { kind: SpatialReferenceKind::Monitor, id }),
    }
}

/// The persistent identity of a runtime body.
pub fn persistent_body(map: &SpatialAssemblyRuntimeMap, id: SpatialBodyId) -> (result: Result<SpatialPersistentId, SpatialDocumentError>)
    ensures
        match persistent_of(map.bodies@, id) {
            Some(persistent) => result == Ok::<SpatialPersistentId, SpatialDocumentError>(persistent),
            None => result == Err::<SpatialPersistentId, _>(SpatialDocumentError::UnknownRuntimeReference(SpatialRuntimeReference::Body(id))),
        },
{
    match map.persistent_body(id) {
        Some(persistent) => Ok(persistent),
        None => Err(SpatialDocumentError::UnknownRuntimeReference(SpatialRuntimeReference::Body(id))),
    }
}

/// The persistent identity of a runtime feature.
pub fn persistent_feature(map: &SpatialAssemblyRuntimeMap, id: SpatialRuntimeFeature) -> (result: Result<SpatialPersistentId, SpatialDocumentError>)
    ensures
        match persistent_of(map.features@, id) {
            Some(persistent) => result == Ok::<SpatialPersistentId, SpatialDocumentError>(persistent),
            None => result == Err::<SpatialPersistentId, _>(SpatialDocumentError::UnknownRuntimeReference(SpatialRuntimeReference::Feature(id))),
        },
{
    match map.persistent_feature(id) {
        Some(persistent) => Ok(persistent),
        None => Err(SpatialDocumentError::UnknownRuntimeReference(SpatialRuntimeReference::Feature(id))),
    }
}

/// The persistent identity of a runtime source.
pub fn persistent_source(map: &SpatialAssemblyRuntimeMap, id: SpatialSourceId) -> (result: Result<SpatialPersistentId, SpatialDocumentError>)
    ensures
        match persistent_of(map.sources@, id) {
            Some(persistent) => result == Ok::<SpatialPersistentId, SpatialDocumentError>(persistent),
            None => result == Err::<SpatialPersistentId, _>(SpatialDocumentError::UnknownRuntimeReference(SpatialRuntimeReference::Source(id))),
        },
{
    match map.persistent_source(id) {
        Some(persistent) => Ok(persistent),
        None => Err(SpatialDocumentError::UnknownRuntimeReference(SpatialRuntimeReference::Source(id))),
    }
}

/// The persistent identity of a runtime coordinate.
pub fn persistent_coordinate(map: &SpatialAssemblyRuntimeMap, id: SpatialCoordinateId) -> (result: Result<SpatialPersistentId, SpatialDocumentError>)
    ensures
        match persistent_of(map.coordinates@, id) {
            Some(persistent) => result == Ok::<SpatialPersistentId, SpatialDocumentError>(persistent),
            None => result == Err::<SpatialPersistentId, _>(SpatialDocumentError::UnknownRuntimeReference(SpatialRuntimeReference::Coordinate(id))),
        },
{
    match map.persistent_coordinate(id) {
        Some(persistent) => Ok(persistent),
        None => Err(SpatialDocumentError::UnknownRuntimeReference(SpatialRuntimeReference::Coordinate(id))),
    }
}

/// The persistent identity of a runtime monitor.
pub fn persistent_monitor(map: &SpatialAssemblyRuntimeMap, id: SpatialModeMonitorId) -> (result: Result<SpatialPersistentId, SpatialDocumentError>)
    ensures
        match persistent_of(map.monitors@, id) {
            Some(persistent) => result == Ok::<SpatialPersistentId, SpatialDocumentError>(persistent),
            None => result == Err::<SpatialPersistentId, _>(SpatialDocumentError::UnknownRuntimeReference(SpatialRuntimeReference::Monitor(id))),
        },
{
    match map.persistent_monitor(id) {
        Some(persistent) => Ok(persistent),
        None => Err(SpatialDocumentError::UnknownRuntimeReference(SpatialRuntimeReference::Monitor(id))),
    }
}


/// Persistent identity of a runtime feature, or its rejection.
pub open spec fn captured_feature(map: SpatialAssemblyRuntimeMap, feature: SpatialRuntimeFeature) -> Result<SpatialPersistentId, SpatialDocumentError> {
    match persistent_of(map.features@, feature) {
        Some(p) => Ok(p),
        None => Err(SpatialDocumentError::UnknownRuntimeReference(SpatialRuntimeReference::Feature(feature))),
    }
}

/// Persistent identity of a runtime source, or its rejection.
pub open spec fn captured_source(map: SpatialAssemblyRuntimeMap, source: SpatialSourceId) -> Result<SpatialPersistentId, SpatialDocumentError> {
    match persistent_of(map.sources@, source) {
        Some(p) => Ok(p),
        None => Err(SpatialDocumentError::UnknownRuntimeReference(SpatialRuntimeReference::Source(source))),
    }
}

/// Persistent identity of a runtime coordinate, or its rejection.
pub open spec fn captured_coordinate(map: SpatialAssemblyRuntimeMap, coordinate: SpatialCoordinateId) -> Result<SpatialPersistentId, SpatialDocumentError> {
    match persistent_of(map.coordinates@, coordinate) {
        Some(p) => Ok(p),
        None => Err(SpatialDocumentError::UnknownRuntimeReference(SpatialRuntimeReference::Coordinate(coordinate))),
    }
}

/// Persistent identity of a runtime monitor, or its rejection.
pub open spec fn captured_monitor(map: SpatialAssemblyRuntimeMap, monitor: SpatialModeMonitorId) -> Result<SpatialPersistentId, SpatialDocumentError> {
    match persistent_of(map.monitors@, monitor) {
        Some(p) => Ok(p),
        None => Err(SpatialDocumentError::UnknownRuntimeReference(SpatialRuntimeReference::Monitor(monitor))),
    }
}

/// The persistent definition of a coordinate kind.
pub open spec fn coordinate_capture(map: SpatialAssemblyRuntimeMap, kind: SpatialCoordinateKind) -> Result<CoordinateDefinition, SpatialDocumentError> {
    match kind {
        SpatialCoordinateKind::Hinge { parent, winding } => match captured_source(map, parent) {
            Ok(p) => Ok(CoordinateDefinition::Hinge { parent: p, winding }),
            Err(e) => Err(e),
        },
        SpatialCoordinateKind::AxialTranslation { parent } => match captured_source(map, parent) {
            Ok(p) => Ok(CoordinateDefinition::AxialTranslation { parent: p }),
            Err(e) => Err(e),
        },
        SpatialCoordinateKind::PlanarTranslation { parent, axis } => match captured_source(map, parent) {
            Ok(p) => Ok(CoordinateDefinition::PlanarTranslation {
                parent: p,
                axis: match axis {
                    SpatialPlanarTranslationAxis::X => AxisRecord::X,
                    SpatialPlanarTranslationAxis::Y => AxisRecord::Y,
                },
            }),
            Err(e) => Err(e),
        },
    }
}

/// Translates a runtime coordinate definition into its persistent record.
pub fn capture_coordinate(kind: SpatialCoordinateKind, map: &SpatialAssemblyRuntimeMap) -> (result: Result<CoordinateDefinition, SpatialDocumentError>)
    ensures
        result == coordinate_capture(*map, kind),
{
    match kind {
        SpatialCoordinateKind::Hinge { parent, winding } => Ok(CoordinateDefinition::Hinge { parent: persistent_source(map, parent)?, winding }),
        SpatialCoordinateKind::AxialTranslation { parent } => Ok(CoordinateDefinition::AxialTranslation { parent: persistent_source(map, parent)? }),
        SpatialCoordinateKind::PlanarTranslation { parent, axis } => Ok(CoordinateDefinition::PlanarTranslation {
            parent: persistent_source(map, parent)?,
            axis: match axis {
                SpatialPlanarTranslationAxis::X => AxisRecord::X,
                SpatialPlanarTranslationAxis::Y => AxisRecord::Y,
            },
        }),
    }
}

/// The persistent definition of a mode-monitor kind; references are resolved in
/// the order the record lists them.
pub open spec fn monitor_capture(map: SpatialAssemblyRuntimeMap, kind: SpatialModeMonitorKind) -> Result<MonitorDefinition, SpatialDocumentError> {
    match kind {
        SpatialModeMonitorKind::AxisParity { first, second, parity } => match captured_feature(map, SpatialRuntimeFeature::Axis(first)) {
            Err(e) => Err(e),
            Ok(a) => match captured_feature(map, SpatialRuntimeFeature::Axis(second)) {
                Err(e) => Err(e),
                Ok(b) => Ok(MonitorDefinition::AxisParity { first: a, second: b, parity: parity_record_of(parity) }),
            },
        },
        SpatialModeMonitorKind::PlaneSide { point, plane, side } => match captured_feature(map, SpatialRuntimeFeature::Point(point)) {
            Err(e) => Err(e),
            Ok(q) => match captured_feature(map, SpatialRuntimeFeature::Plane(plane)) {
                Err(e) => Err(e),
                Ok(pl) => Ok(MonitorDefinition::PlaneSide { plane: pl, point: q, side: sign_record_of(side) }),
            },
        },
        SpatialModeMonitorKind::SignedVolume { points, orientation } => match captured_feature(map, SpatialRuntimeFeature::Point(points[0])) {
            Err(e) => Err(e),
            Ok(a) => match captured_feature(map, SpatialRuntimeFeature::Point(points[1])) {
                Err(e) => Err(e),
                Ok(b) => match captured_feature(map, SpatialRuntimeFeature::Point(points[2])) {
                    Err(e) => Err(e),
                    Ok(c) => match captured_feature(map, SpatialRuntimeFeature::Point(points[3])) {
                        Err(e) => Err(e),
                        Ok(d) => Ok(MonitorDefinition::SignedVolume { points: [a, b, c, d], orientation: sign_record_of(orientation) }),
                    },
                },
            },
        },
        SpatialModeMonitorKind::HingeWinding { coordinate, winding } => match captured_coordinate(map, coordinate) {
            Err(e) => Err(e),
            Ok(c) => Ok(MonitorDefinition::HingeWinding { coordinate: c, winding }),
        },
    }
}

/// Translates a runtime mode-monitor definition into its persistent record.
pub fn capture_monitor(kind: SpatialModeMonitorKind, map: &SpatialAssemblyRuntimeMap) -> (result: Result<MonitorDefinition, SpatialDocumentError>)
    ensures
        result == monitor_capture(*map, kind),
{
    match kind {
        SpatialModeMonitorKind::AxisParity { first, second, parity } => {
            let first = persistent_feature(map, SpatialRuntimeFeature::Axis(first))?;
            let second = persistent_feature(map, SpatialRuntimeFeature::Axis(second))?;
            Ok(MonitorDefinition::AxisParity { first, second, parity: parity_record(parity) })
        },
        SpatialModeMonitorKind::PlaneSide { point, plane, side } => {
            let point = persistent_feature(map, SpatialRuntimeFeature::Point(point))?;
            let plane = persistent_feature(map, SpatialRuntimeFeature::Plane(plane))?;
            Ok(MonitorDefinition::PlaneSide { plane, point, side: sign_record(side) })
        },
        SpatialModeMonitorKind::SignedVolume { points, orientation } => {
            let a = persistent_feature(map, SpatialRuntimeFeature::Point(points[0]))?;
            let b = persistent_feature(map, SpatialRuntimeFeature::Point(points[1]))?;
            let c = persistent_feature(map, SpatialRuntimeFeature::Point(points[2]))?;
            let d = persistent_feature(map, SpatialRuntimeFeature::Point(points[3]))?;
            let captured = [a, b, c, d];
            proof {
                assert(captured == [a, b, c, d]);
            }
            Ok(MonitorDefinition::SignedVolume { points: captured, orientation: sign_record(orientation) })
        },
        SpatialModeMonitorKind::HingeWinding { coordinate, winding } => {
            let coordinate = persistent_coordinate(map, coordinate)?;
            Ok(MonitorDefinition::HingeWinding { coordinate, winding })
        },
    }
}

/// The persistent record of a branch boundary.
pub open spec fn boundary_capture(map: SpatialAssemblyRuntimeMap, boundary: SpatialBranchBoundary) -> Result<BoundaryRecord, SpatialDocumentError> {
    match boundary {
        SpatialBranchBoundary::FixedFrameDiagonal { source, axis } => match captured_source(map, source) {
            Ok(p) => Ok(BoundaryRecord::FixedFrameDiagonal { source: p, axis: frame_axis_record_of(axis) }),
            Err(e) => Err(e),
        },
        SpatialBranchBoundary::FrameOffsetDiagonal { source, axis } => match captured_source(map, source) {
            Ok(p) => Ok(BoundaryRecord::FrameOffsetDiagonal { source: p, axis: frame_axis_record_of(axis) }),
            Err(e) => Err(e),
        },
        SpatialBranchBoundary::SourceAxisParity { source, parity } => match captured_source(map, source) {
            Ok(p) => Ok(BoundaryRecord::SourceAxisParity { source: p, parity: parity_record_of(parity) }),
            Err(e) => Err(e),
        },
        SpatialBranchBoundary::PrismaticClockRoot { source } => match captured_source(map, source) {
            Ok(p) => Ok(BoundaryRecord::PrismaticClockRoot { source: p }),
            Err(e) => Err(e),
        },
        SpatialBranchBoundary::HingeDriverPositiveRoot { source, coordinate } => match captured_source(map, source) {
            Err(e) => Err(e),
            Ok(p) => match captured_coordinate(map, coordinate) {
                Err(e) => Err(e),
                Ok(c) => Ok(BoundaryRecord::HingeDriverPositiveRoot { source: p, coordinate: c }),
            },
        },
        SpatialBranchBoundary::HingePrincipalCut { coordinate, winding } => match captured_coordinate(map, coordinate) {
            Ok(c) => Ok(BoundaryRecord::HingePrincipalCut { coordinate: c, winding }),
            Err(e) => Err(e),
        },
        SpatialBranchBoundary::MonitorAxisParity { monitor, parity } => match captured_monitor(map, monitor) {
            Ok(m) => Ok(BoundaryRecord::MonitorAxisParity { monitor: m, parity: parity_record_of(parity) }),
            Err(e) => Err(e),
        },
        SpatialBranchBoundary::MonitorPlaneSide { monitor, side } => match captured_monitor(map, monitor) {
            Ok(m) => Ok(BoundaryRecord::MonitorPlaneSide { monitor: m, side: sign_record_of(side) }),
            Err(e) => Err(e),
        },
        SpatialBranchBoundary::MonitorSignedVolume { monitor, orientation } => match captured_monitor(map, monitor) {
            Ok(m) => Ok(BoundaryRecord::MonitorSignedVolume { monitor: m, orientation: sign_record_of(orientation) }),
            Err(e) => Err(e),
        },
    }
}

/// Translates a runtime branch boundary into its persistent record.
pub fn capture_boundary(boundary: SpatialBranchBoundary, map: &SpatialAssemblyRuntimeMap) -> (result: Result<BoundaryRecord, SpatialDocumentError>)
    ensures
        result == boundary_capture(*map, boundary),
{
    match boundary {
        SpatialBranchBoundary::FixedFrameDiagonal { source, axis } => Ok(BoundaryRecord::FixedFrameDiagonal {
            source: persistent_source(map, source)?,
            axis: frame_axis_record(axis),
        }),
        SpatialBranchBoundary::FrameOffsetDiagonal { source, axis } => Ok(BoundaryRecord::FrameOffsetDiagonal {
            source: persistent_source(map, source)?,
            axis: frame_axis_record(axis),
        }),
        SpatialBranchBoundary::SourceAxisParity { source, parity } => Ok(BoundaryRecord::SourceAxisParity {
            source: persistent_source(map, source)?,
            parity: parity_record(parity),
        }),
        SpatialBranchBoundary::PrismaticClockRoot { source } => Ok(BoundaryRecord::PrismaticClockRoot { source: persistent_source(map, source)? }),
        SpatialBranchBoundary::HingeDriverPositiveRoot { source, coordinate } => {
            let source = persistent_source(map, source)?;
            let coordinate = persistent_coordinate(map, coordinate)?;
            Ok(BoundaryRecord::HingeDriverPositiveRoot { source, coordinate })
        },
        SpatialBranchBoundary::HingePrincipalCut { coordinate, winding } => Ok(BoundaryRecord::HingePrincipalCut {
            coordinate: persistent_coordinate(map, coordinate)?,
            winding,
        }),
        SpatialBranchBoundary::MonitorAxisParity { monitor, parity } => Ok(BoundaryRecord::MonitorAxisParity {
            monitor: persistent_monitor(map, monitor)?,
            parity: parity_record(parity),
        }),
        SpatialBranchBoundary::MonitorPlaneSide { monitor, side } => Ok(BoundaryRecord::MonitorPlaneSide {
            monitor: persistent_monitor(map, monitor)?,
            side: sign_record(side),
        }),
        SpatialBranchBoundary::MonitorSignedVolume { monitor, orientation } => Ok(BoundaryRecord::MonitorSignedVolume {
            monitor: persistent_monitor(map, monitor)?,
            orientation: sign_record(orientation),
        }),
    }
}

/// Runtime source of a persistent reference, or its rejection.
pub open spec fn lowered_source(map: SpatialAssemblyRuntimeMap, id: SpatialPersistentId) -> Result<SpatialSourceId, SpatialDocumentError> {
    match runtime_of(map.sources@, id) {
        Some(r) => Ok(r),
        None => Err(SpatialDocumentError::UnknownReference { kind: SpatialReferenceKind::Source, id }),
    }
}

/// Runtime coordinate of a persistent reference, or its rejection.
pub open spec fn lowered_coordinate(map: SpatialAssemblyRuntimeMap, id: SpatialPersistentId) -> Result<SpatialCoordinateId, SpatialDocumentError> {
    match runtime_of(map.coordinates@, id) {
        Some(r) => Ok(r),
        None => Err(SpatialDocumentError::UnknownReference { kind: SpatialReferenceKind::Coordinate, id }),
    }
}

/// Runtime monitor of a persistent reference, or its rejection.
pub open spec fn lowered_monitor(map: SpatialAssemblyRuntimeMap, id: SpatialPersistentId) -> Result<SpatialModeMonitorId, SpatialDocumentError> {
    match runtime_of(map.monitors@, id) {
        Some(r) => Ok(r),
        None => Err(SpatialDocumentError::UnknownReference { kind: SpatialReferenceKind::Monitor, id }),
    }
}

/// The runtime branch boundary of a persistent record.
pub open spec fn boundary_lowering(map: SpatialAssemblyRuntimeMap, record: BoundaryRecord) -> Result<SpatialBranchBoundary, SpatialDocumentError> {
    match record {
        BoundaryRecord::FixedFrameDiagonal { source, axis } => match lowered_source(map, source) {
            Ok(r) => Ok(SpatialBranchBoundary::FixedFrameDiagonal { source: r, axis: frame_axis_of_record(axis) }),
            Err(e) => Err(e),
        },
        BoundaryRecord::FrameOffsetDiagonal { source, axis } => match lowered_source(map, source) {
            Ok(r) => Ok(SpatialBranchBoundary::FrameOffsetDiagonal { source: r, axis: frame_axis_of_record(axis) }),
            Err(e) => Err(e),
        },
        BoundaryRecord::SourceAxisParity { source, parity } => match lowered_source(map, source) {
            Ok(r) => Ok(SpatialBranchBoundary::SourceAxisParity { source: r, parity: parity_of_record(parity) }),
            Err(e) => Err(e),
        },
        BoundaryRecord::PrismaticClockRoot { source } => match lowered_source(map, source) {
            Ok(r) => Ok(SpatialBranchBoundary::PrismaticClockRoot { source: r }),
            Err(e) => Err(e),
        },
        BoundaryRecord::HingeDriverPositiveRoot { source, coordinate } => match lowered_source(map, source) {
            Err(e) => Err(e),
            Ok(r) => match lowered_coordinate(map, coordinate) {
                Err(e) => Err(e),
                Ok(c) => Ok(SpatialBranchBoundary::HingeDriverPositiveRoot { source: r, coordinate: c }),
            },
        },
        BoundaryRecord::HingePrincipalCut { coordinate, winding } => match lowered_coordinate(map, coordinate) {
            Ok(c) => Ok(SpatialBranchBoundary::HingePrincipalCut { coordinate: c, winding }),
            Err(e) => Err(e),
        },
        BoundaryRecord::MonitorAxisParity { monitor, parity } => match lowered_monitor(map, monitor) {
            Ok(m) => Ok(SpatialBranchBoundary::MonitorAxisParity { monitor: m, parity: parity_of_record(parity) }),
            Err(e) => Err(e),
        },
        BoundaryRecord::MonitorPlaneSide { monitor, side } => match lowered_monitor(map, monitor) {
            Ok(m) => Ok(SpatialBranchBoundary::MonitorPlaneSide { monitor: m, side: sign_of_record(side) }),
            Err(e) => Err(e),
        },
        BoundaryRecord::MonitorSignedVolume { monitor, orientation } => match lowered_monitor(map, monitor) {
            Ok(m) => Ok(SpatialBranchBoundary::MonitorSignedVolume { monitor: m, orientation: sign_of_record(orientation) }),
            Err(e) => Err(e),
        },
    }
}

/// Translates a persistent branch-boundary record into its runtime boundary.
pub fn lower_boundary(boundary: &BoundaryRecord, map: &SpatialAssemblyRuntimeMap) -> (result: Result<SpatialBranchBoundary, SpatialDocumentError>)
    ensures
        result == boundary_lowering(*map, *boundary),
{
    match *boundary {
        BoundaryRecord::FixedFrameDiagonal { source, axis } => Ok(SpatialBranchBoundary::FixedFrameDiagonal {
            source: runtime_source(map, source)?,
            axis: runtime_frame_axis(axis),
        }),
        BoundaryRecord::FrameOffsetDiagonal { source, axis } => Ok(SpatialBranchBoundary::FrameOffsetDiagonal {
            source: runtime_source(map, source)?,
            axis: runtime_frame_axis(axis),
        }),
        BoundaryRecord::SourceAxisParity { source, parity } => Ok(SpatialBranchBoundary::SourceAxisParity {
            source: runtime_source(map, source)?,
            parity: runtime_parity(parity),
        }),
        BoundaryRecord::PrismaticClockRoot { source } => Ok(SpatialBranchBoundary::PrismaticClockRoot { source: runtime_source(map, source)? }),
        BoundaryRecord::HingeDriverPositiveRoot { source, coordinate } => {
            let source = runtime_source(map, source)?;
            let coordinate = runtime_coordinate(map, coordinate)?;
            Ok(SpatialBranchBoundary::HingeDriverPositiveRoot { source, coordinate })
        },
        BoundaryRecord::HingePrincipalCut { coordinate, winding } => Ok(SpatialBranchBoundary::HingePrincipalCut {
            coordinate: runtime_coordinate(map, coordinate)?,
            winding,
        }),
        BoundaryRecord::MonitorAxisParity { monitor, parity } => Ok(SpatialBranchBoundary::MonitorAxisParity {
            monitor: runtime_monitor(map, monitor)?,
            parity: runtime_parity(parity),
        }),
        BoundaryRecord::MonitorPlaneSide { monitor, side } => Ok(SpatialBranchBoundary::MonitorPlaneSide {
            monitor: runtime_monitor(map, monitor)?,
            side: runtime_sign(side),
        }),
        BoundaryRecord::MonitorSignedVolume { monitor, orientation } => Ok(SpatialBranchBoundary::MonitorSignedVolume {
            monitor: runtime_monitor(map, monitor)?,
            orientation: runtime_sign(orientation),
        }),
    }
}


/// Every persistent and every runtime identity occurs in at most one entry.
pub open spec fn pairs_one_to_one<P, R>(pairs: Seq<(P, R)>) -> bool {
    forall|i: int, j: int|
        0 <= i < pairs.len() && 0 <= j < pairs.len() && i != j ==> #[trigger] pairs[i].0 != #[trigger] pairs[j].0 && pairs[i].1 != pairs[j].1
}

/// In a one-to-one association list, the reverse lookup of a value finds the
/// key whose forward lookup finds that value again.
pub proof fn lemma_one_to_one_inverse<P, R>(pairs: Seq<(P, R)>, runtime: R)
    requires
        pairs_one_to_one(pairs),
        persistent_of(pairs, runtime) is Some,
    ensures
        runtime_of(pairs, persistent_of(pairs, runtime)->0) == Some(runtime),
{
    lemma_persistent_of_first(pairs, runtime);
    let p = persistent_of(pairs, runtime)->0;
    let i = choose|i: int| 0 <= i < pairs.len() && pairs[i].1 == runtime && pairs[i].0 == p && forall|j: int| 0 <= j < i ==> pairs[j].1 != runtime;
    lemma_runtime_of_first(pairs, p);
    if runtime_of(pairs, p) is None {
        assert(pairs[i].0 != p);
    } else {
        let r = runtime_of(pairs, p)->0;
        let k = choose|k: int| 0 <= k < pairs.len() && pairs[k].0 == p && pairs[k].1 == r && forall|j: int| 0 <= j < k ==> pairs[j].0 != p;
        if k != i {
            assert(pairs[k].0 != pairs[i].0);
        }
    }
}

/// In a one-to-one association list, the forward lookup of a key finds the
/// value whose reverse lookup finds that key again.
pub proof fn lemma_one_to_one_converse<P, R>(pairs: Seq<(P, R)>, persistent: P)
    requires
        pairs_one_to_one(pairs),
        runtime_of(pairs, persistent) is Some,
    ensures
        persistent_of(pairs, runtime_of(pairs, persistent)->0) == Some(persistent),
{
    lemma_runtime_of_first(pairs, persistent);
    let r = runtime_of(pairs, persistent)->0;
    let i = choose|i: int| 0 <= i < pairs.len() && pairs[i].0 == persistent && pairs[i].1 == r && forall|j: int| 0 <= j < i ==> pairs[j].0 != persistent;
    lemma_persistent_of_first(pairs, r);
    if persistent_of(pairs, r) is None {
        assert(pairs[i].1 != r);
    } else {
        let p = persistent_of(pairs, r)->0;
        let k = choose|k: int| 0 <= k < pairs.len() && pairs[k].1 == r && pairs[k].0 == p && forall|j: int| 0 <= j < k ==> pairs[j].1 != r;
        if k != i {
            assert(pairs[k].1 != pairs[i].1);
        }
    }
}

/// A one-to-one association list pairs keys and values both ways: the forward
/// lookup of `p` finds `r` exactly when the reverse lookup of `r` finds `p`.
pub proof fn lemma_one_to_one_bijective<P, R>(pairs: Seq<(P, R)>)
    requires
        pairs_one_to_one(pairs),
    ensures
        forall|p: P, r: R| #![trigger runtime_of(pairs, p), persistent_of(pairs, r)]
            runtime_of(pairs, p) == Some(r) <==> persistent_of(pairs, r) == Some(p),
{
    assert forall|p: P, r: R| #![trigger runtime_of(pairs, p), persistent_of(pairs, r)]
        runtime_of(pairs, p) == Some(r) <==> persistent_of(pairs, r) == Some(p) by {
        if runtime_of(pairs, p) == Some(r) {
            lemma_one_to_one_converse(pairs, p);
        }
        if persistent_of(pairs, r) == Some(p) {
            lemma_one_to_one_inverse(pairs, r);
        }
    }
}

/// Capturing a branch boundary into its persistent record and lowering the
/// record again gives the boundary back, when the map pairs sources,
/// coordinates and monitors one-to-one.
pub proof fn lemma_boundary_capture_round_trip(map: SpatialAssemblyRuntimeMap, boundary: SpatialBranchBoundary)
    requires
        pairs_one_to_one(map.sources@),
        pairs_one_to_one(map.coordinates@),
        pairs_one_to_one(map.monitors@),
        boundary_capture(map, boundary) is Ok,
    ensures
        boundary_lowering(map, boundary_capture(map, boundary)->Ok_0) == Ok::<SpatialBranchBoundary, SpatialDocumentError>(boundary),
{
    match boundary {
        SpatialBranchBoundary::FixedFrameDiagonal { source, axis } => lemma_one_to_one_inverse(map.sources@, source),
        SpatialBranchBoundary::FrameOffsetDiagonal { source, axis } => lemma_one_to_one_inverse(map.sources@, source),
        SpatialBranchBoundary::SourceAxisParity { source, parity } => lemma_one_to_one_inverse(map.sources@, source),
        SpatialBranchBoundary::PrismaticClockRoot { source } => lemma_one_to_one_inverse(map.sources@, source),
        SpatialBranchBoundary::HingeDriverPositiveRoot { source, coordinate } => {
            lemma_one_to_one_inverse(map.sources@, source);
            lemma_one_to_one_inverse(map.coordinates@, coordinate);
        },
        SpatialBranchBoundary::HingePrincipalCut { coordinate, winding } => lemma_one_to_one_inverse(map.coordinates@, coordinate),
        SpatialBranchBoundary::MonitorAxisParity { monitor, parity } => lemma_one_to_one_inverse(map.monitors@, monitor),
        SpatialBranchBoundary::MonitorPlaneSide { monitor, side } => lemma_one_to_one_inverse(map.monitors@, monitor),
        SpatialBranchBoundary::MonitorSignedVolume { monitor, orientation } => lemma_one_to_one_inverse(map.monitors@, monitor),
    }
}

} // verus!
