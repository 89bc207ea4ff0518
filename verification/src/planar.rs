//! Persistent planar-linkage documents: the discrete structure of a document,
//! its validation, the certified physical components and their numerical gauge,
//! and the deterministic persistent-to-runtime identity map.

use vstd::prelude::*;
use crate::ids::{PlanarBodyId, PlanarDocumentId, PlanarFeatureId, PlanarSourceId};
use crate::components::{
    classes_by, lemma_classes_unique, contains_id, distinct_ids, group_by_root, groups_view, in_some_group, is_root_grouping,
    select_in_group, select_sources_in_group, strictly_increasing,
};
use crate::connectivity::{connected, link_roots, link_view, links_in_range};
use crate::gauge::{reference_choices, resolve_reference_choices, GaugeRuleViolation};
use crate::idmap::{persistent_of, runtime_of};
use crate::model::{AxisDirectionBranch, BranchSign, LinkageError, LinkageSource};
use crate::runtime_ids::{AxisFeatureId, BodyId, BranchMonitorId, DriverId, JointId, PointFeatureId};

verus! {

/// Current persistent planar-linkage document schema.
pub const PLANAR_LINKAGE_DOCUMENT_VERSION: u32 = 1;

/// Largest number of persistent objects (bodies, features and sources) in one document.
pub const MAX_DOCUMENT_OBJECTS: usize = 100_000;

/// Largest label length in bytes.
pub const MAX_LABEL_BYTES: usize = 1_024;

/// Kind of a persistent reference that failed to resolve.
#[derive(Clone, Copy, Debug, PartialEq, Eq, Structural)]
pub enum PlanarReferenceKind {
    Body,
    PointFeature,
    AxisFeature,
    Feature,
    Source,
}

/// Document field whose value was rejected.
#[derive(Clone, Copy, Debug, PartialEq, Eq, Structural)]
pub enum PlanarField {
    Topology,
    NextId,
    Label,
    SourcePhysicalGround,
    RuntimeBodyMapping,
    RuntimePointMapping,
    RuntimeAxisMapping,
    /// A driver state whose source is not a driver at runtime.
    DriverStateSource,
    /// An accepted body pose that is not finite.
    BodyStatePose,
    /// An accepted driver target that is not finite.
    DriverStateTarget,
}

/// Why an explicit numerical gauge policy was rejected.
#[derive(Clone, Copy, Debug, PartialEq, Eq, Structural)]
pub enum PlanarGaugeViolation {
    /// A body is listed more than once.
    DuplicateReferences,
    /// A listed body belongs to no component.
    UnknownReference(PlanarBodyId),
    /// The floating component beginning at this body has no or several references.
    FloatingComponentReferences(PlanarBodyId),
    /// The physically grounded component beginning at this body has a reference.
    GroundedComponentReference(PlanarBodyId),
}

/// Structural rejection of a persistent planar document or of its lowering.
#[derive(Clone, Copy, Debug, PartialEq, Eq)]
pub enum PlanarLinkageError {
    UnsupportedVersion(u32),
    InvalidId(u128),
    IdExhausted,
    DuplicateId(u128),
    InvalidField(PlanarField),
    UnknownReference { kind: PlanarReferenceKind, id: u128 },
    FeatureKindMismatch(PlanarFeatureId),
    InvalidSourceOrder,
    IncompleteAcceptedState,
    InvalidGaugePolicy(PlanarGaugeViolation),
    /// The linkage model refused an object of the document.
    Linkage(LinkageError),
}

/// Persistent rigid-body topology without an accepted pose.
#[derive(Clone, Debug, PartialEq, Eq)]
pub struct PlanarBody {
    pub id: PlanarBodyId,
    pub label: String,
}

impl PlanarBody {
    pub fn id(&self) -> (id: PlanarBodyId)
        ensures
            id == self.id,
    {
        self.id
    }

    pub fn label(&self) -> (label: &str)
        ensures
            label@ == self.label@,
    {
        self.label.as_str()
    }
}

/// Numerical coordinate policy, separate from physical source topology.
#[derive(Clone, Debug, PartialEq, Eq)]
pub enum PlanarGaugePolicy {
    /// Anchor the lowest persistent body ID in every certified floating component.
    LowestPersistentBody,
    /// Select exactly one persistent reference body for every floating component.
    ExplicitReferences { bodies: Vec<PlanarBodyId> },
}

/// Domain certification of one component's common world-frame action.
#[derive(Clone, Copy, Debug, PartialEq, Eq, Structural)]
pub enum PlanarWorldActionCertification {
    FloatingSe2,
    PhysicallyGrounded,
}

/// Runtime point/axis feature selected by one persistent feature ID.
#[derive(Clone, Copy, Debug, PartialEq, Eq, Structural)]
pub enum PlanarRuntimeFeature {
    Point(PointFeatureId),
    Axis(AxisFeatureId),
}

/// Runtime object selected by one persistent source ID.
#[derive(Clone, Copy, Debug, PartialEq, Eq, Structural)]
pub enum PlanarRuntimeSource {
    Ground(BodyId),
    Joint(JointId),
    Driver(DriverId),
    BranchMonitor(BranchMonitorId),
}

/// The runtime source object that stands for a compiled linkage source.
pub open spec fn runtime_source_for(source: LinkageSource) -> PlanarRuntimeSource {
    match source {
        LinkageSource::Ground(body) => PlanarRuntimeSource::Ground(body),
        LinkageSource::Joint(joint) => PlanarRuntimeSource::Joint(joint),
        LinkageSource::Driver(driver) => PlanarRuntimeSource::Driver(driver),
    }
}

/// Deterministic persistent-to-runtime mapping; runtime keys are never serialized.
#[derive(Clone, Debug, PartialEq, Eq)]
pub struct PlanarLinkageRuntimeMap {
    pub bodies: Vec<(PlanarBodyId, BodyId)>,
    pub features: Vec<(PlanarFeatureId, PlanarRuntimeFeature)>,
    pub sources: Vec<(PlanarSourceId, PlanarRuntimeSource)>,
}

impl PlanarLinkageRuntimeMap {
    /// An empty mapping.
    pub fn new() -> (map: Self)
        ensures
            map.bodies@.len() == 0,
            map.features@.len() == 0,
            map.sources@.len() == 0,
    {
        PlanarLinkageRuntimeMap { bodies: Vec::new(), features: Vec::new(), sources: Vec::new() }
    }

    /// The runtime body of the first entry for a persistent body.
    pub fn runtime_body(&self, id: PlanarBodyId) -> (found: Option<BodyId>)
        ensures
            found == runtime_of(self.bodies@, id),
    {
        proof {
            assert(self.bodies@.skip(0) =~= self.bodies@);
        }
        let mut i: usize = 0;
        while i < self.bodies.len()
            invariant
                i <= self.bodies@.len(),
                runtime_of(self.bodies@, id) == runtime_of(self.bodies@.skip(i as int), id),
            decreases self.bodies@.len() - i,
        {
            proof {
                assert(self.bodies@.skip(i as int).drop_first() =~= self.bodies@.skip(i + 1));
            }
            let (persistent, runtime) = self.bodies[i];
            if persistent == id {
                return Some(runtime);
            }
            i = i + 1;
        }
        None
    }

    /// The persistent body of the first entry for a runtime body.
    pub fn persistent_body(&self, id: BodyId) -> (found: Option<PlanarBodyId>)
        ensures
            found == persistent_of(self.bodies@, id),
    {
        proof {
            assert(self.bodies@.skip(0) =~= self.bodies@);
        }
        let mut i: usize = 0;
        while i < self.bodies.len()
            invariant
                i <= self.bodies@.len(),
                persistent_of(self.bodies@, id) == persistent_of(self.bodies@.skip(i as int), id),
            decreases self.bodies@.len() - i,
        {
            proof {
                assert(self.bodies@.skip(i as int).drop_first() =~= self.bodies@.skip(i + 1));
            }
            let (persistent, runtime) = self.bodies[i];
            if runtime == id {
                return Some(persistent);
            }
            i = i + 1;
        }
        None
    }

    /// The runtime feature of the first entry for a persistent feature.
    pub fn runtime_feature(&self, id: PlanarFeatureId) -> (found: Option<PlanarRuntimeFeature>)
        ensures
            found == runtime_of(self.features@, id),
    {
        proof {
            assert(self.features@.skip(0) =~= self.features@);
        }
        let mut i: usize = 0;
        while i < self.features.len()
            invariant
                i <= self.features@.len(),
                runtime_of(self.features@, id) == runtime_of(self.features@.skip(i as int), id),
            decreases self.features@.len() - i,
        {
            proof {
                assert(self.features@.skip(i as int).drop_first() =~= self.features@.skip(i + 1));
            }
            let (persistent, runtime) = self.features[i];
            if persistent == id {
                return Some(runtime);
            }
            i = i + 1;
        }
        None
    }

    /// The persistent feature of the first entry for a runtime point feature.
    pub fn persistent_point_feature(&self, id: PointFeatureId) -> (found: Option<PlanarFeatureId>)
        ensures
            found == persistent_of(self.features@, PlanarRuntimeFeature::Point(id)),
    {
        proof {
            assert(self.features@.skip(0) =~= self.features@);
        }
        let mut i: usize = 0;
        while i < self.features.len()
            invariant
                i <= self.features@.len(),
                persistent_of(self.features@, PlanarRuntimeFeature::Point(id)) == persistent_of(self.features@.skip(i as int), PlanarRuntimeFeature::Point(id)),
            decreases self.features@.len() - i,
        {
            proof {
                assert(self.features@.skip(i as int).drop_first() =~= self.features@.skip(i + 1));
            }
            let (persistent, runtime) = self.features[i];
            if runtime == PlanarRuntimeFeature::Point(id) {
                return Some(persistent);
            }
            i = i + 1;
        }
        None
    }

    /// The persistent feature of the first entry for a runtime axis feature.
    pub fn persistent_axis_feature(&self, id: AxisFeatureId) -> (found: Option<PlanarFeatureId>)
        ensures
            found == persistent_of(self.features@, PlanarRuntimeFeature::Axis(id)),
    {
        proof {
            assert(self.features@.skip(0) =~= self.features@);
        }
        let mut i: usize = 0;
        while i < self.features.len()
            invariant
                i <= self.features@.len(),
                persistent_of(self.features@, PlanarRuntimeFeature::Axis(id)) == persistent_of(self.features@.skip(i as int), PlanarRuntimeFeature::Axis(id)),
            decreases self.features@.len() - i,
        {
            proof {
                assert(self.features@.skip(i as int).drop_first() =~= self.features@.skip(i + 1));
            }
            let (persistent, runtime) = self.features[i];
            if runtime == PlanarRuntimeFeature::Axis(id) {
                return Some(persistent);
            }
            i = i + 1;
        }
        None
    }

    /// The runtime source of the first entry for a persistent source.
    pub fn runtime_source(&self, id: PlanarSourceId) -> (found: Option<PlanarRuntimeSource>)
        ensures
            found == runtime_of(self.sources@, id),
    {
        proof {
            assert(self.sources@.skip(0) =~= self.sources@);
        }
        let mut i: usize = 0;
        while i < self.sources.len()
            invariant
                i <= self.sources@.len(),
                runtime_of(self.sources@, id) == runtime_of(self.sources@.skip(i as int), id),
            decreases self.sources@.len() - i,
        {
            proof {
                assert(self.sources@.skip(i as int).drop_first() =~= self.sources@.skip(i + 1));
            }
            let (persistent, runtime) = self.sources[i];
            if persistent == id {
                return Some(runtime);
            }
            i = i + 1;
        }
        None
    }

    /// The persistent source of the first entry for a compiled linkage source.
    pub fn persistent_source(&self, source: LinkageSource) -> (found: Option<PlanarSourceId>)
        ensures
            found == persistent_of(self.sources@, runtime_source_for(source)),
    {
        let wanted = match source {
            LinkageSource::Ground(body) => PlanarRuntimeSource::Ground(body),
            LinkageSource::Joint(joint) => PlanarRuntimeSource::Joint(joint),
            LinkageSource::Driver(driver) => PlanarRuntimeSource::Driver(driver),
        };
        proof {
            assert(wanted == runtime_source_for(source));
            assert(self.sources@.skip(0) =~= self.sources@);
        }
        let mut i: usize = 0;
        while i < self.sources.len()
            invariant
                i <= self.sources@.len(),
                wanted == runtime_source_for(source),
                persistent_of(self.sources@, wanted) == persistent_of(self.sources@.skip(i as int), wanted),
            decreases self.sources@.len() - i,
        {
            proof {
                assert(self.sources@.skip(i as int).drop_first() =~= self.sources@.skip(i + 1));
            }
            let (persistent, runtime) = self.sources[i];
            if runtime == wanted {
                return Some(persistent);
            }
            i = i + 1;
        }
        None
    }

    /// The persistent source of the first entry for a runtime branch monitor.
    pub fn persistent_branch_monitor(&self, id: BranchMonitorId) -> (found: Option<PlanarSourceId>)
        ensures
            found == persistent_of(self.sources@, PlanarRuntimeSource::BranchMonitor(id)),
    {
        proof {
            assert(self.sources@.skip(0) =~= self.sources@);
        }
        let mut i: usize = 0;
        while i < self.sources.len()
            invariant
                i <= self.sources@.len(),
                persistent_of(self.sources@, PlanarRuntimeSource::BranchMonitor(id)) == persistent_of(self.sources@.skip(i as int), PlanarRuntimeSource::BranchMonitor(id)),
            decreases self.sources@.len() - i,
        {
            proof {
                assert(self.sources@.skip(i as int).drop_first() =~= self.sources@.skip(i + 1));
            }
            let (persistent, runtime) = self.sources[i];
            if runtime == PlanarRuntimeSource::BranchMonitor(id) {
                return Some(persistent);
            }
            i = i + 1;
        }
        None
    }

    /// Appends a body association.
    pub fn push_body(&mut self, persistent: PlanarBodyId, runtime: BodyId)
        ensures
            final(self).bodies@ == old(self).bodies@.push((persistent, runtime)),
            final(self).features@ == old(self).features@,
            final(self).sources@ == old(self).sources@,
    {
        self.bodies.push((persistent, runtime));
    }

    /// Appends a feature association.
    pub fn push_feature(&mut self, persistent: PlanarFeatureId, runtime: PlanarRuntimeFeature)
        ensures
            final(self).bodies@ == old(self).bodies@,
            final(self).features@ == old(self).features@.push((persistent, runtime)),
            final(self).sources@ == old(self).sources@,
    {
        self.features.push((persistent, runtime));
    }

    /// Appends a source association.
    pub fn push_source(&mut self, persistent: PlanarSourceId, runtime: PlanarRuntimeSource)
        ensures
            final(self).bodies@ == old(self).bodies@,
            final(self).features@ == old(self).features@,
            final(self).sources@ == old(self).sources@.push((persistent, runtime)),
    {
        self.sources.push((persistent, runtime));
    }
}


/// The references a persistent source makes, in the order its fields are
/// checked; its continuous parameters (angles, steps) are not part of it.
#[derive(Clone, Copy, Debug, PartialEq, Eq, Structural)]
pub enum PlanarSourceTopology {
    PhysicalGround { body: PlanarBodyId },
    Revolute { first: PlanarFeatureId, second: PlanarFeatureId },
    Prismatic {
        first_anchor: PlanarFeatureId,
        first_axis: PlanarFeatureId,
        second_anchor: PlanarFeatureId,
        second_axis: PlanarFeatureId,
        axis_branch: AxisDirectionBranch,
    },
    Weld { first: PlanarFeatureId, second: PlanarFeatureId },
    AngularDriver { reference: PlanarBodyId, driven: PlanarBodyId },
    LinearDriver { origin: PlanarFeatureId, measured: PlanarFeatureId, guide_axis: PlanarFeatureId },
    OrientationBranch {
        line_start: PlanarFeatureId,
        line_end: PlanarFeatureId,
        observed: PlanarFeatureId,
        sign: BranchSign,
    },
    DirectedDisplacementBranch {
        origin: PlanarFeatureId,
        measured: PlanarFeatureId,
        axis: PlanarFeatureId,
        sign: BranchSign,
    },
}

/// Persistent body-local point or axis feature, without its local coordinates.
#[derive(Clone, Debug, PartialEq, Eq)]
pub struct PlanarFeatureRecord {
    pub id: PlanarFeatureId,
    pub label: String,
    pub body: PlanarBodyId,
}

/// One persistent source record.
#[derive(Clone, Debug, PartialEq, Eq)]
pub struct PlanarSourceRecord {
    pub id: PlanarSourceId,
    pub label: String,
    pub definition: PlanarSourceTopology,
}

/// The discrete structure of a persistent planar document: identities, labels,
/// references, source order, and which bodies and drivers have accepted state.
#[derive(Clone, Debug, PartialEq, Eq)]
pub struct PlanarStructure {
    pub version: u32,
    pub id: PlanarDocumentId,
    pub next_id: u128,
    pub bodies: Vec<PlanarBody>,
    pub point_features: Vec<PlanarFeatureRecord>,
    pub axis_features: Vec<PlanarFeatureRecord>,
    pub sources: Vec<PlanarSourceRecord>,
    pub source_order: Vec<PlanarSourceId>,
    pub body_states: Vec<PlanarBodyId>,
    pub driver_states: Vec<PlanarSourceId>,
}

/// A label is accepted when its UTF-8 encoding has 1 to 1024 bytes.
pub open spec fn label_ok(label: Seq<char>) -> bool {
    0 < vstd::utf8::encode_utf8(label).len() <= MAX_LABEL_BYTES
}

/// Accepts a label of 1 to 1024 bytes.
pub fn validate_label(label: &str) -> (result: Result<(), PlanarLinkageError>)
    ensures
        result is Ok <==> label_ok(label@),
        result is Err ==> result == Err::<(), _>(PlanarLinkageError::InvalidField(PlanarField::Label)),
{
    let length = label.as_bytes().len();
    if length == 0 || length > MAX_LABEL_BYTES {
        Err(PlanarLinkageError::InvalidField(PlanarField::Label))
    } else {
        Ok(())
    }
}

/// An `InvalidField` rejection of `field`.
pub fn invalid<T>(field: PlanarField) -> (result: Result<T, PlanarLinkageError>)
    ensures
        result == Err::<T, _>(PlanarLinkageError::InvalidField(field)),
{
    Err(PlanarLinkageError::InvalidField(field))
}

/// Accepts `id` when it is a member of `set`, else reports an unknown reference of `kind`.
pub fn require_member(set: &std::collections::BTreeSet<u128>, id: u128, kind: PlanarReferenceKind) -> (result: Result<(), PlanarLinkageError>)
    ensures
        result is Ok <==> set@.contains(id),
        result is Err ==> result == Err::<(), _>(PlanarLinkageError::UnknownReference { kind, id }),
{
    if set.contains(&id) {
        Ok(())
    } else {
        Err(PlanarLinkageError::UnknownReference { kind, id })
    }
}

/// The identity and label verdict of every body, point feature, axis feature
/// and source, in that order.
pub open spec fn structure_keys(s: PlanarStructure) -> Seq<(u128, bool)> {
    s.bodies@.map_values(|b: PlanarBody| (b.id.0, label_ok(b.label@)))
        + s.point_features@.map_values(|f: PlanarFeatureRecord| (f.id.0, label_ok(f.label@)))
        + s.axis_features@.map_values(|f: PlanarFeatureRecord| (f.id.0, label_ok(f.label@)))
        + s.sources@.map_values(|r: PlanarSourceRecord| (r.id.0, label_ok(r.label@)))
}

/// The first rejection met walking `keys` after the identities in `seen`: a zero
/// or repeated identity, or else a rejected label.
pub open spec fn identity_error(seen: Set<u128>, keys: Seq<(u128, bool)>) -> Option<PlanarLinkageError>
    decreases keys.len(),
{
    if keys.len() == 0 {
        None
    } else if keys[0].0 == 0 || seen.contains(keys[0].0) {
        Some(PlanarLinkageError::DuplicateId(keys[0].0))
    } else if !keys[0].1 {
        Some(PlanarLinkageError::InvalidField(PlanarField::Label))
    } else {
        identity_error(seen.insert(keys[0].0), keys.drop_first())
    }
}

/// Identities of the bodies, in order.
pub open spec fn body_ids(s: PlanarStructure) -> Seq<u128> {
    s.bodies@.map_values(|b: PlanarBody| b.id.0)
}

/// Identities of the given features, in order.
pub open spec fn feature_ids(features: Seq<PlanarFeatureRecord>) -> Seq<u128> {
    features.map_values(|f: PlanarFeatureRecord| f.id.0)
}

/// Identities of the sources, in order.
pub open spec fn source_ids(s: PlanarStructure) -> Seq<u128> {
    s.sources@.map_values(|r: PlanarSourceRecord| r.id.0)
}

/// The first feature, in order, whose owning body is not one of the bodies.
pub open spec fn owner_error(bodies: Seq<u128>, features: Seq<PlanarFeatureRecord>) -> Option<PlanarLinkageError>
    decreases features.len(),
{
    if features.len() == 0 {
        None
    } else if !bodies.contains(features[0].body.0) {
        Some(PlanarLinkageError::UnknownReference { kind: PlanarReferenceKind::Body, id: features[0].body.0 })
    } else {
        owner_error(bodies, features.drop_first())
    }
}

/// `xs` lists every member of `ys` exactly once (the members of `ys` being distinct).
pub open spec fn lists_each_once(xs: Seq<u128>, ys: Seq<u128>) -> bool {
    &&& xs.len() == ys.len()
    &&& xs.no_duplicates()
    &&& forall|k: int| 0 <= k < xs.len() ==> ys.contains(#[trigger] xs[k])
}

/// The references a source definition makes, in checking order.
pub open spec fn source_references(definition: PlanarSourceTopology) -> Seq<(PlanarReferenceKind, u128)> {
    match definition {
        PlanarSourceTopology::PhysicalGround { body } => seq![(PlanarReferenceKind::Body, body.0)],
        PlanarSourceTopology::Revolute { first, second } => seq![
            (PlanarReferenceKind::PointFeature, first.0),
            (PlanarReferenceKind::PointFeature, second.0),
        ],
        PlanarSourceTopology::Weld { first, second } => seq![
            (PlanarReferenceKind::PointFeature, first.0),
            (PlanarReferenceKind::PointFeature, second.0),
        ],
        PlanarSourceTopology::Prismatic { first_anchor, first_axis, second_anchor, second_axis, .. } => seq![
            (PlanarReferenceKind::PointFeature, first_anchor.0),
            (PlanarReferenceKind::AxisFeature, first_axis.0),
            (PlanarReferenceKind::PointFeature, second_anchor.0),
            (PlanarReferenceKind::AxisFeature, second_axis.0),
        ],
        PlanarSourceTopology::AngularDriver { reference, driven } => seq![
            (PlanarReferenceKind::Body, reference.0),
            (PlanarReferenceKind::Body, driven.0),
        ],
        PlanarSourceTopology::LinearDriver { origin, measured, guide_axis } => seq![
            (PlanarReferenceKind::PointFeature, origin.0),
            (PlanarReferenceKind::PointFeature, measured.0),
            (PlanarReferenceKind::AxisFeature, guide_axis.0),
        ],
        PlanarSourceTopology::DirectedDisplacementBranch { origin, measured, axis, .. } => seq![
            (PlanarReferenceKind::PointFeature, origin.0),
            (PlanarReferenceKind::PointFeature, measured.0),
            (PlanarReferenceKind::AxisFeature, axis.0),
        ],
        PlanarSourceTopology::OrientationBranch { line_start, line_end, observed, .. } => seq![
            (PlanarReferenceKind::PointFeature, line_start.0),
            (PlanarReferenceKind::PointFeature, line_end.0),
            (PlanarReferenceKind::PointFeature, observed.0),
        ],
    }
}

/// Whether a reference names an object of its kind in the structure.
pub open spec fn reference_resolves(s: PlanarStructure, reference: (PlanarReferenceKind, u128)) -> bool {
    match reference.0 {
        PlanarReferenceKind::Body => body_ids(s).contains(reference.1),
        PlanarReferenceKind::PointFeature => feature_ids(s.point_features@).contains(reference.1),
        PlanarReferenceKind::AxisFeature => feature_ids(s.axis_features@).contains(reference.1),
        _ => false,
    }
}

/// The first reference, in order, that does not resolve.
pub open spec fn first_unresolved(s: PlanarStructure, references: Seq<(PlanarReferenceKind, u128)>) -> Option<(PlanarReferenceKind, u128)>
    decreases references.len(),
{
    if references.len() == 0 {
        None
    } else if !reference_resolves(s, references[0]) {
        Some(references[0])
    } else {
        first_unresolved(s, references.drop_first())
    }
}

/// The first rejection met walking `sources` after the bodies in `grounded`
/// were grounded: an unresolved reference, or a body grounded a second time.
pub open spec fn source_check_error(s: PlanarStructure, grounded: Set<u128>, sources: Seq<PlanarSourceRecord>) -> Option<PlanarLinkageError>
    decreases sources.len(),
{
    if sources.len() == 0 {
        None
    } else {
        match first_unresolved(s, source_references(sources[0].definition)) {
            Some(reference) => Some(PlanarLinkageError::UnknownReference { kind: reference.0, id: reference.1 }),
            None => match sources[0].definition {
                PlanarSourceTopology::PhysicalGround { body } => if grounded.contains(body.0) {
                    Some(PlanarLinkageError::InvalidField(PlanarField::SourcePhysicalGround))
                } else {
                    source_check_error(s, grounded.insert(body.0), sources.drop_first())
                },
                _ => source_check_error(s, grounded, sources.drop_first()),
            },
        }
    }
}

/// Whether a source definition is a hard driver.
pub open spec fn is_driver(definition: PlanarSourceTopology) -> bool {
    definition is AngularDriver || definition is LinearDriver
}

/// Identities of the driver sources, in order.
pub open spec fn driver_ids(sources: Seq<PlanarSourceRecord>) -> Seq<u128>
    decreases sources.len(),
{
    if sources.len() == 0 {
        Seq::empty()
    } else {
        let rest = driver_ids(sources.drop_last());
        if is_driver(sources.last().definition) {
            rest.push(sources.last().id.0)
        } else {
            rest
        }
    }
}

/// Total number of persistent objects.
pub open spec fn object_count(s: PlanarStructure) -> nat {
    s.bodies@.len() + s.point_features@.len() + s.axis_features@.len() + s.sources@.len()
}

/// The first structural rejection of a document, checked in this order: schema
/// version; nonzero document and next identities; object count; unique nonzero
/// identities with accepted labels; `next_id` above every identity; owners of
/// point then axis features; source order; source references and single
/// grounding; complete accepted state.
pub open spec fn structure_error(s: PlanarStructure) -> Option<PlanarLinkageError> {
    if s.version != PLANAR_LINKAGE_DOCUMENT_VERSION {
        Some(PlanarLinkageError::UnsupportedVersion(s.version))
    } else if s.id.0 == 0 || s.next_id == 0 {
        Some(PlanarLinkageError::InvalidId(s.id.0))
    } else if object_count(s) > MAX_DOCUMENT_OBJECTS {
        Some(PlanarLinkageError::InvalidField(PlanarField::Topology))
    } else if identity_error(set![s.id.0], structure_keys(s)) is Some {
        identity_error(set![s.id.0], structure_keys(s))
    } else if s.next_id <= s.id.0 || exists|k: int| 0 <= k < structure_keys(s).len() && s.next_id <= #[trigger] structure_keys(s)[k].0 {
        Some(PlanarLinkageError::InvalidField(PlanarField::NextId))
    } else if owner_error(body_ids(s), s.point_features@) is Some {
        owner_error(body_ids(s), s.point_features@)
    } else if owner_error(body_ids(s), s.axis_features@) is Some {
        owner_error(body_ids(s), s.axis_features@)
    } else if !lists_each_once(s.source_order@.map_values(|id: PlanarSourceId| id.0), source_ids(s)) {
        Some(PlanarLinkageError::InvalidSourceOrder)
    } else if source_check_error(s, Set::empty(), s.sources@) is Some {
        source_check_error(s, Set::empty(), s.sources@)
    } else if !lists_each_once(s.body_states@.map_values(|id: PlanarBodyId| id.0), body_ids(s))
        || !lists_each_once(s.driver_states@.map_values(|id: PlanarSourceId| id.0), driver_ids(s.sources@)) {
        Some(PlanarLinkageError::IncompleteAcceptedState)
    } else {
        None
    }
}

/// The structure passes every structural check.
pub open spec fn structure_valid(s: PlanarStructure) -> bool {
    structure_error(s) is None
}


/// The set of the given identities.
fn set_of(ids: &Vec<u128>) -> (set: std::collections::BTreeSet<u128>)
    ensures
        set@ == ids@.to_set(),
{
    let mut set = std::collections::BTreeSet::new();
    let mut i: usize = 0;
    while i < ids.len()
        invariant
            i <= ids@.len(),
            forall|x: u128| #[trigger] set@.contains(x) <==> exists|k: int| 0 <= k < i && ids@[k] == x,
        decreases ids@.len() - i,
    {
        let x = ids[i];
        set.insert(x);
        proof {
            assert forall|y: u128| #[trigger] set@.contains(y) implies exists|k: int| 0 <= k < i + 1 && ids@[k] == y by {
                if y != x {
                    let k = choose|k: int| 0 <= k < i && ids@[k] == y;
                    assert(0 <= k < i + 1 && ids@[k] == y);
                } else {
                    assert(ids@[i as int] == y);
                }
            }
            assert forall|y: u128| (exists|k: int| 0 <= k < i + 1 && ids@[k] == y) implies #[trigger] set@.contains(y) by {
                let k = choose|k: int| 0 <= k < i + 1 && ids@[k] == y;
                if k < i {
                    assert(exists|k: int| 0 <= k < i && ids@[k] == y);
                }
            }
        }
        i = i + 1;
    }
    assert(set@ =~= ids@.to_set());
    set
}

/// Identities of the bodies, in order.
fn body_id_list(bodies: &Vec<PlanarBody>) -> (ids: Vec<u128>)
    ensures
        ids@ == bodies@.map_values(|b: PlanarBody| b.id.0),
{
    let mut ids: Vec<u128> = Vec::new();
    let mut i: usize = 0;
    while i < bodies.len()
        invariant
            i <= bodies@.len(),
            ids@ == bodies@.take(i as int).map_values(|b: PlanarBody| b.id.0),
        decreases bodies@.len() - i,
    {
        ids.push(bodies[i].id.0);
        proof {
            assert(bodies@.take(i + 1).map_values(|b: PlanarBody| b.id.0) =~= bodies@.take(i as int).map_values(|b: PlanarBody| b.id.0).push(bodies@[i as int].id.0));
        }
        i = i + 1;
    }
    assert(bodies@.take(bodies@.len() as int) == bodies@);
    ids
}

/// Identities of the features, in order.
fn feature_id_list(features: &Vec<PlanarFeatureRecord>) -> (ids: Vec<u128>)
    ensures
        ids@ == feature_ids(features@),
{
    let mut ids: Vec<u128> = Vec::new();
    let mut i: usize = 0;
    while i < features.len()
        invariant
            i <= features@.len(),
            ids@ == feature_ids(features@.take(i as int)),
        decreases features@.len() - i,
    {
        ids.push(features[i].id.0);
        proof {
            assert(feature_ids(features@.take(i + 1)) =~= feature_ids(features@.take(i as int)).push(features@[i as int].id.0));
        }
        i = i + 1;
    }
    assert(features@.take(features@.len() as int) == features@);
    ids
}

/// Identities of the sources, in order.
fn source_id_list(sources: &Vec<PlanarSourceRecord>) -> (ids: Vec<u128>)
    ensures
        ids@ == sources@.map_values(|r: PlanarSourceRecord| r.id.0),
{
    let mut ids: Vec<u128> = Vec::new();
    let mut i: usize = 0;
    while i < sources.len()
        invariant
            i <= sources@.len(),
            ids@ == sources@.take(i as int).map_values(|r: PlanarSourceRecord| r.id.0),
        decreases sources@.len() - i,
    {
        ids.push(sources[i].id.0);
        proof {
            assert(sources@.take(i + 1).map_values(|r: PlanarSourceRecord| r.id.0) =~= sources@.take(i as int).map_values(|r: PlanarSourceRecord| r.id.0).push(sources@[i as int].id.0));
        }
        i = i + 1;
    }
    assert(sources@.take(sources@.len() as int) == sources@);
    ids
}

/// Raw values of source identities, in order.
fn source_id_values(ids: &Vec<PlanarSourceId>) -> (values: Vec<u128>)
    ensures
        values@ == ids@.map_values(|id: PlanarSourceId| id.0),
{
    let mut values: Vec<u128> = Vec::new();
    let mut i: usize = 0;
    while i < ids.len()
        invariant
            i <= ids@.len(),
            values@ == ids@.take(i as int).map_values(|id: PlanarSourceId| id.0),
        decreases ids@.len() - i,
    {
        values.push(ids[i].0);
        proof {
            assert(ids@.take(i + 1).map_values(|id: PlanarSourceId| id.0) =~= ids@.take(i as int).map_values(|id: PlanarSourceId| id.0).push(ids@[i as int].0));
        }
        i = i + 1;
    }
    assert(ids@.take(ids@.len() as int) == ids@);
    values
}

/// Raw values of body identities, in order.
fn body_id_values(ids: &Vec<PlanarBodyId>) -> (values: Vec<u128>)
    ensures
        values@ == ids@.map_values(|id: PlanarBodyId| id.0),
{
    let mut values: Vec<u128> = Vec::new();
    let mut i: usize = 0;
    while i < ids.len()
        invariant
            i <= ids@.len(),
            values@ == ids@.take(i as int).map_values(|id: PlanarBodyId| id.0),
        decreases ids@.len() - i,
    {
        values.push(ids[i].0);
        proof {
            assert(ids@.take(i + 1).map_values(|id: PlanarBodyId| id.0) =~= ids@.take(i as int).map_values(|id: PlanarBodyId| id.0).push(ids@[i as int].0));
        }
        i = i + 1;
    }
    assert(ids@.take(ids@.len() as int) == ids@);
    values
}

/// The identity and label verdict of every object, in document order.
fn structure_key_list(s: &PlanarStructure) -> (keys: Vec<(u128, bool)>)
    ensures
        keys@ == structure_keys(*s),
{
    let mut keys: Vec<(u128, bool)> = Vec::new();
    let mut i: usize = 0;
    while i < s.bodies.len()
        invariant
            i <= s.bodies@.len(),
            keys@ == s.bodies@.take(i as int).map_values(|b: PlanarBody| (b.id.0, label_ok(b.label@))),
        decreases s.bodies@.len() - i,
    {
        let ok = validate_label(s.bodies[i].label.as_str()).is_ok();
        keys.push((s.bodies[i].id.0, ok));
        proof {
            assert(s.bodies@.take(i + 1).map_values(|b: PlanarBody| (b.id.0, label_ok(b.label@))) =~= s.bodies@.take(i as int).map_values(|b: PlanarBody| (b.id.0, label_ok(b.label@))).push((s.bodies@[i as int].id.0, label_ok(s.bodies@[i as int].label@))));
        }
        i = i + 1;
    }
    assert(s.bodies@.take(s.bodies@.len() as int) == s.bodies@);
    let ghost prefix = keys@;
    let mut i: usize = 0;
    while i < s.point_features.len()
        invariant
            i <= s.point_features@.len(),
            keys@ == prefix + s.point_features@.take(i as int).map_values(|f: PlanarFeatureRecord| (f.id.0, label_ok(f.label@))),
        decreases s.point_features@.len() - i,
    {
        let ok = validate_label(s.point_features[i].label.as_str()).is_ok();
        keys.push((s.point_features[i].id.0, ok));
        proof {
            assert(s.point_features@.take(i + 1).map_values(|f: PlanarFeatureRecord| (f.id.0, label_ok(f.label@))) =~= s.point_features@.take(i as int).map_values(|f: PlanarFeatureRecord| (f.id.0, label_ok(f.label@))).push((s.point_features@[i as int].id.0, label_ok(s.point_features@[i as int].label@))));
        }
        i = i + 1;
    }
    assert(s.point_features@.take(s.point_features@.len() as int) == s.point_features@);
    let ghost prefix = keys@;
    let mut i: usize = 0;
    while i < s.axis_features.len()
        invariant
            i <= s.axis_features@.len(),
            keys@ == prefix + s.axis_features@.take(i as int).map_values(|f: PlanarFeatureRecord| (f.id.0, label_ok(f.label@))),
        decreases s.axis_features@.len() - i,
    {
        let ok = validate_label(s.axis_features[i].label.as_str()).is_ok();
        keys.push((s.axis_features[i].id.0, ok));
        proof {
            assert(s.axis_features@.take(i + 1).map_values(|f: PlanarFeatureRecord| (f.id.0, label_ok(f.label@))) =~= s.axis_features@.take(i as int).map_values(|f: PlanarFeatureRecord| (f.id.0, label_ok(f.label@))).push((s.axis_features@[i as int].id.0, label_ok(s.axis_features@[i as int].label@))));
        }
        i = i + 1;
    }
    assert(s.axis_features@.take(s.axis_features@.len() as int) == s.axis_features@);
    let ghost prefix = keys@;
    let mut i: usize = 0;
    while i < s.sources.len()
        invariant
            i <= s.sources@.len(),
            keys@ == prefix + s.sources@.take(i as int).map_values(|r: PlanarSourceRecord| (r.id.0, label_ok(r.label@))),
        decreases s.sources@.len() - i,
    {
        let ok = validate_label(s.sources[i].label.as_str()).is_ok();
        keys.push((s.sources[i].id.0, ok));
        proof {
            assert(s.sources@.take(i + 1).map_values(|r: PlanarSourceRecord| (r.id.0, label_ok(r.label@))) =~= s.sources@.take(i as int).map_values(|r: PlanarSourceRecord| (r.id.0, label_ok(r.label@))).push((s.sources@[i as int].id.0, label_ok(s.sources@[i as int].label@))));
        }
        i = i + 1;
    }
    assert(s.sources@.take(s.sources@.len() as int) == s.sources@);
    keys
}

/// Walks the identities after `document`, reporting the first zero or repeated
/// identity or rejected label; on success returns the largest identity seen.
fn check_identities(document: u128, keys: &Vec<(u128, bool)>) -> (result: Result<u128, PlanarLinkageError>)
    ensures
        match identity_error(set![document], keys@) {
            Some(e) => result == Err::<u128, _>(e),
            None => result is Ok,
        },
        result matches Ok(max) ==> document <= max && (forall|k: int| 0 <= k < keys@.len() ==> #[trigger] keys@[k].0 <= max)
            && (max == document || exists|k: int| 0 <= k < keys@.len() && #[trigger] keys@[k].0 == max),
{
    let mut seen = std::collections::BTreeSet::new();
    seen.insert(document);
    let mut max = document;
    let mut i: usize = 0;
    proof {
        assert(seen@ =~= set![document]);
        assert(keys@.skip(0) =~= keys@);
    }
    while i < keys.len()
        invariant
            i <= keys@.len(),
            identity_error(set![document], keys@) == identity_error(seen@, keys@.skip(i as int)),
            document <= max,
            forall|k: int| 0 <= k < i ==> #[trigger] keys@[k].0 <= max,
            max == document || exists|k: int| 0 <= k < i && #[trigger] keys@[k].0 == max,
        decreases keys@.len() - i,
    {
        let (id, label_accepted) = keys[i];
        proof {
            assert(keys@.skip(i as int)[0] == keys@[i as int]);
            assert(keys@.skip(i as int).drop_first() =~= keys@.skip(i + 1));
        }
        if id == 0 || seen.contains(&id) {
            return Err(PlanarLinkageError::DuplicateId(id));
        }
        if !label_accepted {
            return Err(PlanarLinkageError::InvalidField(PlanarField::Label));
        }
        seen.insert(id);
        if id > max {
            max = id;
        }
        i = i + 1;
    }
    Ok(max)
}

/// Reports the first feature whose owning body is not in `bodies`.
fn check_owners(bodies: &std::collections::BTreeSet<u128>, features: &Vec<PlanarFeatureRecord>, Ghost(body_list): Ghost<Seq<u128>>) -> (result: Result<(), PlanarLinkageError>)
    requires
        bodies@ == body_list.to_set(),
    ensures
        match owner_error(body_list, features@) {
            Some(e) => result == Err::<(), _>(e),
            None => result is Ok,
        },
{
    let mut i: usize = 0;
    proof {
        assert(features@.skip(0) =~= features@);
    }
    while i < features.len()
        invariant
            i <= features@.len(),
            bodies@ == body_list.to_set(),
            owner_error(body_list, features@) == owner_error(body_list, features@.skip(i as int)),
        decreases features@.len() - i,
    {
        proof {
            assert(features@.skip(i as int)[0] == features@[i as int]);
            assert(features@.skip(i as int).drop_first() =~= features@.skip(i + 1));
        }
        require_member(bodies, features[i].body.0, PlanarReferenceKind::Body)?;
        i = i + 1;
    }
    Ok(())
}

/// Whether `xs` lists every member of `ys` exactly once.
fn check_lists_each_once(xs: &Vec<u128>, ys: &Vec<u128>) -> (each_once: bool)
    ensures
        each_once == lists_each_once(xs@, ys@),
{
    if xs.len() != ys.len() {
        return false;
    }
    let members = set_of(ys);
    let mut seen = std::collections::BTreeSet::new();
    let mut i: usize = 0;
    while i < xs.len()
        invariant
            xs@.len() == ys@.len(),
            members@ == ys@.to_set(),
            i <= xs@.len(),
            forall|k: int| 0 <= k < i ==> ys@.contains(#[trigger] xs@[k]),
            forall|k: int, l: int| 0 <= k < i && 0 <= l < i && k != l ==> xs@[k] != xs@[l],
            forall|x: u128| #[trigger] seen@.contains(x) <==> exists|k: int| 0 <= k < i && xs@[k] == x,
        decreases xs@.len() - i,
    {
        let x = xs[i];
        if !members.contains(&x) {
            return false;
        }
        if seen.contains(&x) {
            proof {
                let k = choose|k: int| 0 <= k < i && xs@[k] == x;
                assert(xs@[k] == xs@[i as int]);
            }
            return false;
        }
        seen.insert(x);
        proof {
            assert forall|y: u128| #[trigger] seen@.contains(y) implies exists|k: int| 0 <= k < i + 1 && xs@[k] == y by {
                if y != x {
                    let k = choose|k: int| 0 <= k < i && xs@[k] == y;
                    assert(0 <= k < i + 1 && xs@[k] == y);
                } else {
                    assert(xs@[i as int] == y);
                }
            }
            assert forall|y: u128| (exists|k: int| 0 <= k < i + 1 && xs@[k] == y) implies #[trigger] seen@.contains(y) by {
                let k = choose|k: int| 0 <= k < i + 1 && xs@[k] == y;
                if k < i {
                    assert(exists|k: int| 0 <= k < i && xs@[k] == y);
                }
            }
        }
        i = i + 1;
    }
    true
}

/// Identities of the driver sources, in order.
fn driver_id_list(sources: &Vec<PlanarSourceRecord>) -> (ids: Vec<u128>)
    ensures
        ids@ == driver_ids(sources@),
{
    let mut ids: Vec<u128> = Vec::new();
    let mut i: usize = 0;
    while i < sources.len()
        invariant
            i <= sources@.len(),
            ids@ == driver_ids(sources@.take(i as int)),
        decreases sources@.len() - i,
    {
        proof {
            assert(sources@.take(i + 1).drop_last() =~= sources@.take(i as int));
            assert(sources@.take(i + 1).last() == sources@[i as int]);
        }
        match sources[i].definition {
            PlanarSourceTopology::AngularDriver { .. } | PlanarSourceTopology::LinearDriver { .. } => {
                ids.push(sources[i].id.0);
            },
            _ => {},
        }
        i = i + 1;
    }
    assert(sources@.take(sources@.len() as int) == sources@);
    ids
}


/// Checks the references of one source definition in order.
fn check_source_references(
    definition: PlanarSourceTopology,
    bodies: &std::collections::BTreeSet<u128>,
    points: &std::collections::BTreeSet<u128>,
    axes: &std::collections::BTreeSet<u128>,
    Ghost(s): Ghost<PlanarStructure>,
) -> (result: Result<(), PlanarLinkageError>)
    requires
        bodies@ == body_ids(s).to_set(),
        points@ == feature_ids(s.point_features@).to_set(),
        axes@ == feature_ids(s.axis_features@).to_set(),
    ensures
        match first_unresolved(s, source_references(definition)) {
            Some(reference) => result == Err::<(), _>(PlanarLinkageError::UnknownReference { kind: reference.0, id: reference.1 }),
            None => result is Ok,
        },
{
    proof {
        reveal_with_fuel(first_unresolved, 5);
    }
    match definition {
        PlanarSourceTopology::PhysicalGround { body } => {
            require_member(bodies, body.0, PlanarReferenceKind::Body)?;
        },
        PlanarSourceTopology::Revolute { first, second } | PlanarSourceTopology::Weld { first, second } => {
            require_member(points, first.0, PlanarReferenceKind::PointFeature)?;
            require_member(points, second.0, PlanarReferenceKind::PointFeature)?;
        },
        PlanarSourceTopology::Prismatic { first_anchor, first_axis, second_anchor, second_axis, .. } => {
            require_member(points, first_anchor.0, PlanarReferenceKind::PointFeature)?;
            require_member(axes, first_axis.0, PlanarReferenceKind::AxisFeature)?;
            require_member(points, second_anchor.0, PlanarReferenceKind::PointFeature)?;
            require_member(axes, second_axis.0, PlanarReferenceKind::AxisFeature)?;
        },
        PlanarSourceTopology::AngularDriver { reference, driven } => {
            require_member(bodies, reference.0, PlanarReferenceKind::Body)?;
            require_member(bodies, driven.0, PlanarReferenceKind::Body)?;
        },
        PlanarSourceTopology::LinearDriver { origin, measured, guide_axis } => {
            require_member(points, origin.0, PlanarReferenceKind::PointFeature)?;
            require_member(points, measured.0, PlanarReferenceKind::PointFeature)?;
            require_member(axes, guide_axis.0, PlanarReferenceKind::AxisFeature)?;
        },
        PlanarSourceTopology::DirectedDisplacementBranch { origin, measured, axis, .. } => {
            require_member(points, origin.0, PlanarReferenceKind::PointFeature)?;
            require_member(points, measured.0, PlanarReferenceKind::PointFeature)?;
            require_member(axes, axis.0, PlanarReferenceKind::AxisFeature)?;
        },
        PlanarSourceTopology::OrientationBranch { line_start, line_end, observed, .. } => {
            require_member(points, line_start.0, PlanarReferenceKind::PointFeature)?;
            require_member(points, line_end.0, PlanarReferenceKind::PointFeature)?;
            require_member(points, observed.0, PlanarReferenceKind::PointFeature)?;
        },
    }
    Ok(())
}

/// Checks every source in order: its references, and that no body is grounded twice.
fn check_sources(
    s: &PlanarStructure,
    bodies: &std::collections::BTreeSet<u128>,
    points: &std::collections::BTreeSet<u128>,
    axes: &std::collections::BTreeSet<u128>,
) -> (result: Result<(), PlanarLinkageError>)
    requires
        bodies@ == body_ids(*s).to_set(),
        points@ == feature_ids(s.point_features@).to_set(),
        axes@ == feature_ids(s.axis_features@).to_set(),
    ensures
        match source_check_error(*s, Set::empty(), s.sources@) {
            Some(e) => result == Err::<(), _>(e),
            None => result is Ok,
        },
{
    let mut grounded = std::collections::BTreeSet::new();
    let mut i: usize = 0;
    proof {
        assert(grounded@ =~= Set::<u128>::empty());
        assert(s.sources@.skip(0) =~= s.sources@);
    }
    while i < s.sources.len()
        invariant
            i <= s.sources@.len(),
            bodies@ == body_ids(*s).to_set(),
            points@ == feature_ids(s.point_features@).to_set(),
            axes@ == feature_ids(s.axis_features@).to_set(),
            source_check_error(*s, Set::empty(), s.sources@) == source_check_error(*s, grounded@, s.sources@.skip(i as int)),
        decreases s.sources@.len() - i,
    {
        proof {
            assert(s.sources@.skip(i as int)[0] == s.sources@[i as int]);
            assert(s.sources@.skip(i as int).drop_first() =~= s.sources@.skip(i + 1));
        }
        let definition = s.sources[i].definition;
        check_source_references(definition, bodies, points, axes, Ghost(*s))?;
        match definition {
            PlanarSourceTopology::PhysicalGround { body } => {
                if !grounded.insert(body.0) {
                    return Err(PlanarLinkageError::InvalidField(PlanarField::SourcePhysicalGround));
                }
            },
            _ => {},
        }
        i = i + 1;
    }
    Ok(())
}

/// Validates the discrete structure of a persistent planar document, reporting
/// the first rejection in the order `structure_error` describes.
pub fn validate_topology(s: &PlanarStructure) -> (result: Result<(), PlanarLinkageError>)
    ensures
        match structure_error(*s) {
            Some(e) => result == Err::<(), _>(e),
            None => result is Ok,
        },
{
    if s.version != PLANAR_LINKAGE_DOCUMENT_VERSION {
        return Err(PlanarLinkageError::UnsupportedVersion(s.version));
    }
    if s.id.0 == 0 || s.next_id == 0 {
        return Err(PlanarLinkageError::InvalidId(s.id.0));
    }
    let object_count = s.bodies.len() as u128 + s.point_features.len() as u128 + s.axis_features.len() as u128
        + s.sources.len() as u128;
    if object_count > MAX_DOCUMENT_OBJECTS as u128 {
        return Err(PlanarLinkageError::InvalidField(PlanarField::Topology));
    }
    let keys = structure_key_list(s);
    let max = check_identities(s.id.0, &keys)?;
    if s.next_id <= max {
        proof {
            if max != s.id.0 {
                let k = choose|k: int| 0 <= k < keys@.len() && #[trigger] keys@[k].0 == max;
                assert(s.next_id <= structure_keys(*s)[k].0);
            }
        }
        return Err(PlanarLinkageError::InvalidField(PlanarField::NextId));
    }
    let body_list = body_id_list(&s.bodies);
    let bodies = set_of(&body_list);
    check_owners(&bodies, &s.point_features, Ghost(body_ids(*s)))?;
    check_owners(&bodies, &s.axis_features, Ghost(body_ids(*s)))?;
    let order = source_id_values(&s.source_order);
    let source_list = source_id_list(&s.sources);
    if !check_lists_each_once(&order, &source_list) {
        return Err(PlanarLinkageError::InvalidSourceOrder);
    }
    let point_list = feature_id_list(&s.point_features);
    let axis_list = feature_id_list(&s.axis_features);
    let points = set_of(&point_list);
    let axes = set_of(&axis_list);
    check_sources(s, &bodies, &points, &axes)?;
    let body_state_list = body_id_values(&s.body_states);
    let driver_state_list = source_id_values(&s.driver_states);
    let driver_list = driver_id_list(&s.sources);
    if !check_lists_each_once(&body_state_list, &body_list) || !check_lists_each_once(&driver_state_list, &driver_list) {
        return Err(PlanarLinkageError::IncompleteAcceptedState);
    }
    Ok(())
}


/// A walk over identities that met no rejection leaves only nonzero, distinct,
/// accepted identities that were not already seen.
pub(crate) proof fn lemma_identities_accepted(seen: Set<u128>, keys: Seq<(u128, bool)>)
    requires
        identity_error(seen, keys) is None,
    ensures
        forall|i: int| 0 <= i < keys.len() ==> #[trigger] keys[i].0 != 0 && !seen.contains(keys[i].0) && keys[i].1,
        forall|i: int, j: int| 0 <= i < keys.len() && 0 <= j < keys.len() && i != j ==> #[trigger] keys[i].0 != #[trigger] keys[j].0,
    decreases keys.len(),
{
    if keys.len() > 0 {
        lemma_identities_accepted(seen.insert(keys[0].0), keys.drop_first());
        assert forall|i: int| 0 <= i < keys.len() implies #[trigger] keys[i].0 != 0 && !seen.contains(keys[i].0) && keys[i].1 by {
            if i > 0 {
                assert(keys[i] == keys.drop_first()[i - 1]);
            }
        }
        assert forall|i: int, j: int| 0 <= i < keys.len() && 0 <= j < keys.len() && i != j implies #[trigger] keys[i].0 != #[trigger] keys[j].0 by {
            if i > 0 {
                assert(keys[i] == keys.drop_first()[i - 1]);
            }
            if j > 0 {
                assert(keys[j] == keys.drop_first()[j - 1]);
            }
        }
    }
}

/// A feature walk that met no unknown owner leaves only features owned by listed bodies.
pub(crate) proof fn lemma_owners_known(bodies: Seq<u128>, features: Seq<PlanarFeatureRecord>)
    requires
        owner_error(bodies, features) is None,
    ensures
        forall|k: int| 0 <= k < features.len() ==> bodies.contains(#[trigger] features[k].body.0),
    decreases features.len(),
{
    if features.len() > 0 {
        lemma_owners_known(bodies, features.drop_first());
        assert forall|k: int| 0 <= k < features.len() implies bodies.contains(#[trigger] features[k].body.0) by {
            if k > 0 {
                assert(features[k] == features.drop_first()[k - 1]);
            }
        }
    }
}

/// A reference list with no unresolved entry resolves everywhere.
pub(crate) proof fn lemma_all_resolve(s: PlanarStructure, references: Seq<(PlanarReferenceKind, u128)>)
    requires
        first_unresolved(s, references) is None,
    ensures
        forall|k: int| 0 <= k < references.len() ==> reference_resolves(s, #[trigger] references[k]),
    decreases references.len(),
{
    if references.len() > 0 {
        lemma_all_resolve(s, references.drop_first());
        assert forall|k: int| 0 <= k < references.len() implies reference_resolves(s, #[trigger] references[k]) by {
            if k > 0 {
                assert(references[k] == references.drop_first()[k - 1]);
            }
        }
    }
}

/// A source walk that met no rejection leaves only sources whose references resolve.
pub(crate) proof fn lemma_sources_resolve(s: PlanarStructure, grounded: Set<u128>, sources: Seq<PlanarSourceRecord>)
    requires
        source_check_error(s, grounded, sources) is None,
    ensures
        forall|k: int| 0 <= k < sources.len() ==> first_unresolved(s, source_references(#[trigger] sources[k].definition)) is None,
    decreases sources.len(),
{
    if sources.len() > 0 {
        let next = match sources[0].definition {
            PlanarSourceTopology::PhysicalGround { body } => grounded.insert(body.0),
            _ => grounded,
        };
        lemma_sources_resolve(s, next, sources.drop_first());
        assert forall|k: int| 0 <= k < sources.len() implies first_unresolved(s, source_references(#[trigger] sources[k].definition)) is None by {
            if k > 0 {
                assert(sources[k] == sources.drop_first()[k - 1]);
            }
        }
    }
}

/// Certified planar components are unique: two certifications of one
/// structure have the same body groups in the same order and attribute the
/// same sources and physical ground sources to each.
pub proof fn lemma_certified_components_unique(s: PlanarStructure, first: Seq<CertifiedPlanarComponent>, second: Seq<CertifiedPlanarComponent>)
    requires
        certifies_components(s, first),
        certifies_components(s, second),
    ensures
        first.len() == second.len(),
        forall|c: int| 0 <= c < first.len() ==> {
            &&& component_body_ids(#[trigger] first[c]) == component_body_ids(second[c])
            &&& first[c].sources@ == second[c].sources@
            &&& first[c].physical_ground_sources@ == second[c].physical_ground_sources@
        },
{
    let ids = body_ids(s);
    let links = ordered_links(s);
    let related = |i: int, j: int| connected(links, ids.len(), i, j);
    let groups1 = first.map_values(|c: CertifiedPlanarComponent| component_body_ids(c));
    let groups2 = second.map_values(|c: CertifiedPlanarComponent| component_body_ids(c));
    assert(classes_by(ids, related, groups1));
    assert(classes_by(ids, related, groups2));
    lemma_classes_unique(ids, related, groups1, groups2);
    assert forall|c: int| 0 <= c < first.len() implies {
        &&& component_body_ids(#[trigger] first[c]) == component_body_ids(second[c])
        &&& first[c].sources@ == second[c].sources@
        &&& first[c].physical_ground_sources@ == second[c].physical_ground_sources@
    } by {
        assert(groups1[c] == groups2[c]);
    }
}

/// The owning body of the first feature with identity `id`.
pub open spec fn feature_owner(features: Seq<PlanarFeatureRecord>, id: u128) -> Option<u128>
    decreases features.len(),
{
    if features.len() == 0 {
        None
    } else if features[0].id.0 == id {
        Some(features[0].body.0)
    } else {
        feature_owner(features.drop_first(), id)
    }
}

pub(crate) proof fn lemma_feature_owner_listed(features: Seq<PlanarFeatureRecord>, id: u128)
    requires
        feature_ids(features).contains(id),
    ensures
        feature_owner(features, id) is Some,
        exists|k: int| 0 <= k < features.len() && features[k].body.0 == feature_owner(features, id)->0,
    decreases features.len(),
{
    let k0 = choose|k: int| 0 <= k < feature_ids(features).len() && feature_ids(features)[k] == id;
    if features[0].id.0 != id {
        assert(feature_ids(features.drop_first())[k0 - 1] == id);
        lemma_feature_owner_listed(features.drop_first(), id);
        let k = choose|k: int| 0 <= k < features.drop_first().len() && features.drop_first()[k].body.0 == feature_owner(features.drop_first(), id)->0;
        assert(features[k + 1] == features.drop_first()[k]);
    } else {
        assert(features[0].body.0 == feature_owner(features, id)->0);
    }
}

/// The body a resolved reference stands for: the body itself, or the owner of the feature.
pub open spec fn reference_body(s: PlanarStructure, reference: (PlanarReferenceKind, u128)) -> u128 {
    match reference.0 {
        PlanarReferenceKind::PointFeature => feature_owner(s.point_features@, reference.1)->0,
        PlanarReferenceKind::AxisFeature => feature_owner(s.axis_features@, reference.1)->0,
        _ => reference.1,
    }
}

/// The bodies a source definition touches, one per reference, in checking order.
pub open spec fn incident_bodies(s: PlanarStructure, definition: PlanarSourceTopology) -> Seq<u128> {
    source_references(definition).map_values(|r: (PlanarReferenceKind, u128)| reference_body(s, r))
}

/// The definition of the first source with identity `id`.
pub open spec fn source_definition(sources: Seq<PlanarSourceRecord>, id: PlanarSourceId) -> Option<PlanarSourceTopology>
    decreases sources.len(),
{
    if sources.len() == 0 {
        None
    } else if sources[0].id == id {
        Some(sources[0].definition)
    } else {
        source_definition(sources.drop_first(), id)
    }
}

/// The definitions of the sources, in source order.
pub open spec fn ordered_definitions(s: PlanarStructure) -> Seq<PlanarSourceTopology> {
    s.source_order@.map_values(|id: PlanarSourceId| source_definition(s.sources@, id)->0)
}

/// The least member of a nonempty sequence.
pub open spec fn least(xs: Seq<u128>) -> u128
    decreases xs.len(),
{
    if xs.len() <= 1 {
        xs[0]
    } else {
        let rest = least(xs.drop_last());
        if xs.last() < rest {
            xs.last()
        } else {
            rest
        }
    }
}

/// The least incident body of every source, in source order.
pub open spec fn ordered_first_bodies(s: PlanarStructure) -> Seq<u128> {
    ordered_definitions(s).map_values(|d: PlanarSourceTopology| least(incident_bodies(s, d)))
}

/// Whether each source, in source order, is a physical ground.
pub open spec fn ordered_ground_flags(s: PlanarStructure) -> Seq<bool> {
    ordered_definitions(s).map_values(|d: PlanarSourceTopology| d is PhysicalGround)
}

/// Position of the first occurrence of `x` in `ids`.
pub open spec fn position_of(ids: Seq<u128>, x: u128) -> int
    decreases ids.len(),
{
    if ids.len() == 0 {
        0
    } else if ids[0] == x {
        0
    } else {
        1 + position_of(ids.drop_first(), x)
    }
}

/// The incidence of every source in source order, as positions of bodies.
pub open spec fn ordered_links(s: PlanarStructure) -> Seq<Seq<usize>> {
    ordered_definitions(s).map_values(
        |d: PlanarSourceTopology| incident_bodies(s, d).map_values(|b: u128| position_of(body_ids(s), b) as usize),
    )
}

/// One certified physical component: its bodies in ascending order, the sources
/// (in source order) whose least incident body it holds, and those of them that
/// are physical grounds.
#[derive(Clone, Debug, PartialEq, Eq)]
pub struct CertifiedPlanarComponent {
    pub bodies: Vec<PlanarBodyId>,
    pub sources: Vec<PlanarSourceId>,
    pub physical_ground_sources: Vec<PlanarSourceId>,
}

/// Plain identities of a component's bodies.
pub open spec fn component_body_ids(component: CertifiedPlanarComponent) -> Seq<u128> {
    component.bodies@.map_values(|b: PlanarBodyId| b.0)
}

/// The components exactly partition the bodies into classes of source
/// connectivity, ascending inside and ordered by least body, with the sources and
/// ground sources attributed by least incident body in source order.
pub open spec fn certifies_components(s: PlanarStructure, components: Seq<CertifiedPlanarComponent>) -> bool {
    let ids = body_ids(s);
    let groups = components.map_values(|c: CertifiedPlanarComponent| component_body_ids(c));
    &&& forall|c: int|
        0 <= c < groups.len() ==> #[trigger] groups[c].len() > 0 && strictly_increasing(groups[c])
    &&& forall|c: int, d: int| 0 <= c < d < groups.len() ==> #[trigger] groups[c][0] < #[trigger] groups[d][0]
    &&& forall|c: int, m: int|
        0 <= c < groups.len() && 0 <= m < groups[c].len() ==> ids.contains(#[trigger] groups[c][m])
    &&& forall|i: int| 0 <= i < ids.len() ==> in_some_group(groups, #[trigger] ids[i])
    &&& forall|c: int, m: int, d: int, l: int, i: int, j: int|
        0 <= c < groups.len() && 0 <= m < groups[c].len() && 0 <= d < groups.len() && 0 <= l
            < groups[d].len() && 0 <= i < ids.len() && 0 <= j < ids.len() && #[trigger] groups[c][m]
            == #[trigger] ids[i] && #[trigger] groups[d][l] == #[trigger] ids[j] ==> (c == d
            <==> connected(ordered_links(s), ids.len(), i, j))
    &&& forall|c: int|
        0 <= c < components.len() ==> (#[trigger] components[c]).sources@ == select_in_group(
            s.source_order@,
            ordered_first_bodies(s),
            Seq::new(s.source_order@.len(), |k: int| true),
            groups[c],
        ) && components[c].physical_ground_sources@ == select_in_group(
            s.source_order@,
            ordered_first_bodies(s),
            ordered_ground_flags(s),
            groups[c],
        )
}


/// The owning body of the first feature with identity `id`.
fn feature_owner_of(features: &Vec<PlanarFeatureRecord>, id: u128) -> (owner: Option<u128>)
    ensures
        owner == feature_owner(features@, id),
{
    proof {
        assert(features@.skip(0) =~= features@);
    }
    let mut i: usize = 0;
    while i < features.len()
        invariant
            i <= features@.len(),
            feature_owner(features@, id) == feature_owner(features@.skip(i as int), id),
        decreases features@.len() - i,
    {
        proof {
            assert(features@.skip(i as int)[0] == features@[i as int]);
            assert(features@.skip(i as int).drop_first() =~= features@.skip(i + 1));
        }
        if features[i].id.0 == id {
            return Some(features[i].body.0);
        }
        i = i + 1;
    }
    None
}

/// The definition of the first source with identity `id`.
fn source_definition_of(sources: &Vec<PlanarSourceRecord>, id: PlanarSourceId) -> (definition: Option<PlanarSourceTopology>)
    ensures
        definition == source_definition(sources@, id),
{
    proof {
        assert(sources@.skip(0) =~= sources@);
    }
    let mut i: usize = 0;
    while i < sources.len()
        invariant
            i <= sources@.len(),
            source_definition(sources@, id) == source_definition(sources@.skip(i as int), id),
        decreases sources@.len() - i,
    {
        proof {
            assert(sources@.skip(i as int)[0] == sources@[i as int]);
            assert(sources@.skip(i as int).drop_first() =~= sources@.skip(i + 1));
        }
        if sources[i].id == id {
            return Some(sources[i].definition);
        }
        i = i + 1;
    }
    None
}

/// Position of the first occurrence of a listed identity.
fn position_in(ids: &Vec<u128>, x: u128) -> (position: usize)
    requires
        ids@.contains(x),
    ensures
        position == position_of(ids@, x),
        position < ids@.len(),
        ids@[position as int] == x,
{
    proof {
        assert(ids@.skip(0) =~= ids@);
    }
    let mut i: usize = 0;
    while i < ids.len()
        invariant
            i <= ids@.len(),
            ids@.contains(x),
            forall|k: int| 0 <= k < i ==> ids@[k] != x,
            position_of(ids@, x) == i + position_of(ids@.skip(i as int), x),
        decreases ids@.len() - i,
    {
        proof {
            assert(ids@.skip(i as int)[0] == ids@[i as int]);
            assert(ids@.skip(i as int).drop_first() =~= ids@.skip(i + 1));
        }
        if ids[i] == x {
            return i;
        }
        i = i + 1;
    }
    proof {
        let k = choose|k: int| 0 <= k < ids@.len() && ids@[k] == x;
        assert(ids@[k] != x);
    }
    0
}

/// The references of a source definition, in checking order.
fn source_reference_list(definition: PlanarSourceTopology) -> (references: Vec<(PlanarReferenceKind, u128)>)
    ensures
        references@ == source_references(definition),
{
    let mut references: Vec<(PlanarReferenceKind, u128)> = Vec::new();
    match definition {
        PlanarSourceTopology::PhysicalGround { body } => {
            references.push((PlanarReferenceKind::Body, body.0));
        },
        PlanarSourceTopology::Revolute { first, second } | PlanarSourceTopology::Weld { first, second } => {
            references.push((PlanarReferenceKind::PointFeature, first.0));
            references.push((PlanarReferenceKind::PointFeature, second.0));
        },
        PlanarSourceTopology::Prismatic { first_anchor, first_axis, second_anchor, second_axis, .. } => {
            references.push((PlanarReferenceKind::PointFeature, first_anchor.0));
            references.push((PlanarReferenceKind::AxisFeature, first_axis.0));
            references.push((PlanarReferenceKind::PointFeature, second_anchor.0));
            references.push((PlanarReferenceKind::AxisFeature, second_axis.0));
        },
        PlanarSourceTopology::AngularDriver { reference, driven } => {
            references.push((PlanarReferenceKind::Body, reference.0));
            references.push((PlanarReferenceKind::Body, driven.0));
        },
        PlanarSourceTopology::LinearDriver { origin, measured, guide_axis } => {
            references.push((PlanarReferenceKind::PointFeature, origin.0));
            references.push((PlanarReferenceKind::PointFeature, measured.0));
            references.push((PlanarReferenceKind::AxisFeature, guide_axis.0));
        },
        PlanarSourceTopology::DirectedDisplacementBranch { origin, measured, axis, .. } => {
            references.push((PlanarReferenceKind::PointFeature, origin.0));
            references.push((PlanarReferenceKind::PointFeature, measured.0));
            references.push((PlanarReferenceKind::AxisFeature, axis.0));
        },
        PlanarSourceTopology::OrientationBranch { line_start, line_end, observed, .. } => {
            references.push((PlanarReferenceKind::PointFeature, line_start.0));
            references.push((PlanarReferenceKind::PointFeature, line_end.0));
            references.push((PlanarReferenceKind::PointFeature, observed.0));
        },
    }
    proof {
        assert(references@ =~= source_references(definition));
    }
    references
}

/// The bodies a source definition touches, one per reference, in checking order.
fn incident_body_list(s: &PlanarStructure, definition: PlanarSourceTopology) -> (bodies: Vec<u128>)
    requires
        forall|k: int| 0 <= k < source_references(definition).len() ==> reference_resolves(*s, #[trigger] source_references(definition)[k]),
    ensures
        bodies@ == incident_bodies(*s, definition),
{
    let references = source_reference_list(definition);
    let mut bodies: Vec<u128> = Vec::new();
    let mut k: usize = 0;
    while k < references.len()
        invariant
            references@ == source_references(definition),
            forall|j: int| 0 <= j < source_references(definition).len() ==> reference_resolves(*s, #[trigger] source_references(definition)[j]),
            k <= references@.len(),
            bodies@ == references@.take(k as int).map_values(|r: (PlanarReferenceKind, u128)| reference_body(*s, r)),
        decreases references@.len() - k,
    {
        let (kind, id) = references[k];
        let body = match kind {
            PlanarReferenceKind::PointFeature => match feature_owner_of(&s.point_features, id) {
                Some(owner) => owner,
                None => id,
            },
            PlanarReferenceKind::AxisFeature => match feature_owner_of(&s.axis_features, id) {
                Some(owner) => owner,
                None => id,
            },
            _ => id,
        };
        proof {
            let r = references@[k as int];
            assert(reference_resolves(*s, r));
            if kind == PlanarReferenceKind::PointFeature {
                lemma_feature_owner_listed(s.point_features@, id);
            }
            if kind == PlanarReferenceKind::AxisFeature {
                lemma_feature_owner_listed(s.axis_features@, id);
            }
            assert(body == reference_body(*s, r));
            assert(references@.take(k + 1).map_values(|r: (PlanarReferenceKind, u128)| reference_body(*s, r)) =~= references@.take(k as int).map_values(|r: (PlanarReferenceKind, u128)| reference_body(*s, r)).push(body));
        }
        bodies.push(body);
        k = k + 1;
    }
    proof {
        assert(references@.take(references@.len() as int) == references@);
    }
    bodies
}

/// The least member of a nonempty list.
fn least_of(xs: &Vec<u128>) -> (smallest: u128)
    requires
        xs@.len() > 0,
    ensures
        smallest == least(xs@),
        xs@.contains(smallest),
        forall|k: int| 0 <= k < xs@.len() ==> smallest <= #[trigger] xs@[k],
{
    let mut smallest = xs[0];
    let mut k: usize = 1;
    proof {
        assert(xs@.take(1).len() == 1);
    }
    while k < xs.len()
        invariant
            1 <= k <= xs@.len(),
            smallest == least(xs@.take(k as int)),
            xs@.contains(smallest),
            forall|j: int| 0 <= j < k ==> smallest <= #[trigger] xs@[j],
        decreases xs@.len() - k,
    {
        proof {
            assert(xs@.take(k + 1).drop_last() =~= xs@.take(k as int));
            assert(xs@.take(k + 1).last() == xs@[k as int]);
        }
        if xs[k] < smallest {
            smallest = xs[k];
        }
        k = k + 1;
    }
    proof {
        assert(xs@.take(xs@.len() as int) == xs@);
    }
    smallest
}


pub(crate) proof fn lemma_source_definition_listed(sources: Seq<PlanarSourceRecord>, id: PlanarSourceId)
    requires
        sources.map_values(|r: PlanarSourceRecord| r.id.0).contains(id.0),
    ensures
        source_definition(sources, id) is Some,
        exists|k: int| 0 <= k < sources.len() && sources[k].definition == source_definition(sources, id)->0,
    decreases sources.len(),
{
    let ids = sources.map_values(|r: PlanarSourceRecord| r.id.0);
    let k0 = choose|k: int| 0 <= k < ids.len() && ids[k] == id.0;
    if sources[0].id != id {
        assert(sources[0].id.0 != id.0);
        assert(k0 > 0);
        assert(sources.drop_first().map_values(|r: PlanarSourceRecord| r.id.0)[k0 - 1] == id.0);
        lemma_source_definition_listed(sources.drop_first(), id);
        let k = choose|k: int| 0 <= k < sources.drop_first().len() && sources.drop_first()[k].definition == source_definition(sources.drop_first(), id)->0;
        assert(sources[k + 1] == sources.drop_first()[k]);
    } else {
        assert(sources[0].definition == source_definition(sources, id)->0);
    }
}

/// Facts a valid structure guarantees about its identities and references.
/// The body identities of `s` are distinct, and every listed source exists and
/// refers only to objects of `s`: what component certification reads.
pub open spec fn certifiable(s: PlanarStructure) -> bool {
    &&& distinct_ids(body_ids(s))
    &&& forall|k: int| 0 <= k < s.source_order@.len() ==> source_definition(s.sources@, #[trigger] s.source_order@[k]) is Some
    &&& forall|k: int| 0 <= k < s.source_order@.len() ==> {
        let d = source_definition(s.sources@, #[trigger] s.source_order@[k])->0;
        &&& forall|m: int| 0 <= m < source_references(d).len() ==> reference_resolves(s, #[trigger] source_references(d)[m])
        &&& forall|m: int| 0 <= m < incident_bodies(s, d).len() ==> body_ids(s).contains(#[trigger] incident_bodies(s, d)[m])
        &&& incident_bodies(s, d).len() > 0
    }
}

pub(crate) proof fn lemma_valid_structure(s: PlanarStructure)
    requires
        structure_valid(s),
    ensures
        certifiable(s),
{
    let keys = structure_keys(s);
    lemma_identities_accepted(set![s.id.0], keys);
    let ids = body_ids(s);
    assert forall|i: int, j: int| 0 <= i < ids.len() && 0 <= j < ids.len() && i != j implies ids[i] != ids[j] by {
        assert(keys[i].0 == ids[i]);
        assert(keys[j].0 == ids[j]);
    }
    lemma_owners_known(ids, s.point_features@);
    lemma_owners_known(ids, s.axis_features@);
    lemma_sources_resolve(s, Set::empty(), s.sources@);
    let order = s.source_order@.map_values(|id: PlanarSourceId| id.0);
    assert forall|k: int| 0 <= k < s.source_order@.len() implies source_definition(s.sources@, #[trigger] s.source_order@[k]) is Some && {
        let d = source_definition(s.sources@, s.source_order@[k])->0;
        &&& forall|m: int| 0 <= m < source_references(d).len() ==> reference_resolves(s, #[trigger] source_references(d)[m])
        &&& forall|m: int| 0 <= m < incident_bodies(s, d).len() ==> body_ids(s).contains(#[trigger] incident_bodies(s, d)[m])
        &&& incident_bodies(s, d).len() > 0
    } by {
        assert(order[k] == s.source_order@[k].0);
        assert(source_ids(s).contains(order[k]));
        lemma_source_definition_listed(s.sources@, s.source_order@[k]);
        let d = source_definition(s.sources@, s.source_order@[k])->0;
        let j = choose|j: int| 0 <= j < s.sources@.len() && s.sources@[j].definition == d;
        assert(first_unresolved(s, source_references(s.sources@[j].definition)) is None);
        lemma_all_resolve(s, source_references(d));
        assert forall|m: int| 0 <= m < incident_bodies(s, d).len() implies body_ids(s).contains(#[trigger] incident_bodies(s, d)[m]) by {
            let r = source_references(d)[m];
            assert(reference_resolves(s, r));
            if r.0 == PlanarReferenceKind::PointFeature {
                lemma_feature_owner_listed(s.point_features@, r.1);
                let f = choose|f: int| 0 <= f < s.point_features@.len() && s.point_features@[f].body.0 == feature_owner(s.point_features@, r.1)->0;
                assert(ids.contains(s.point_features@[f].body.0));
            } else if r.0 == PlanarReferenceKind::AxisFeature {
                lemma_feature_owner_listed(s.axis_features@, r.1);
                let f = choose|f: int| 0 <= f < s.axis_features@.len() && s.axis_features@[f].body.0 == feature_owner(s.axis_features@, r.1)->0;
                assert(ids.contains(s.axis_features@[f].body.0));
            }
        }
    }
}

/// The incidence of one source as body positions.
fn link_positions(ids: &Vec<u128>, bodies: &Vec<u128>) -> (positions: Vec<usize>)
    requires
        forall|m: int| 0 <= m < bodies@.len() ==> ids@.contains(#[trigger] bodies@[m]),
    ensures
        positions@ == bodies@.map_values(|b: u128| position_of(ids@, b) as usize),
        forall|m: int| 0 <= m < positions@.len() ==> #[trigger] positions@[m] < ids@.len(),
{
    let mut positions: Vec<usize> = Vec::new();
    let mut m: usize = 0;
    while m < bodies.len()
        invariant
            m <= bodies@.len(),
            forall|j: int| 0 <= j < bodies@.len() ==> ids@.contains(#[trigger] bodies@[j]),
            positions@ == bodies@.take(m as int).map_values(|b: u128| position_of(ids@, b) as usize),
            forall|j: int| 0 <= j < positions@.len() ==> #[trigger] positions@[j] < ids@.len(),
        decreases bodies@.len() - m,
    {
        let p = position_in(ids, bodies[m]);
        proof {
            assert(bodies@.take(m + 1).map_values(|b: u128| position_of(ids@, b) as usize) =~= bodies@.take(m as int).map_values(|b: u128| position_of(ids@, b) as usize).push(p));
        }
        positions.push(p);
        m = m + 1;
    }
    proof {
        assert(bodies@.take(bodies@.len() as int) == bodies@);
    }
    positions
}

/// Certifies the physical components of a valid structure: bodies joined by
/// chains of sources form one component; every source is attributed to the
/// component of its least incident body.
pub fn certified_components(s: &PlanarStructure) -> (components: Vec<CertifiedPlanarComponent>)
    requires
        certifiable(*s),
    ensures
        certifies_components(*s, components@),
{
    let ids = body_id_list(&s.bodies);
    let n = ids.len();
    let count = s.source_order.len();
    let mut links: Vec<Vec<usize>> = Vec::new();
    let mut firsts: Vec<u128> = Vec::new();
    let mut grounds: Vec<bool> = Vec::new();
    let mut trues: Vec<bool> = Vec::new();
    let mut k: usize = 0;
    while k < count
        invariant
            count == s.source_order@.len(),
            ids@ == body_ids(*s),
            n == ids@.len(),
            k <= count,
            forall|q: int| 0 <= q < s.source_order@.len() ==> source_definition(s.sources@, #[trigger] s.source_order@[q]) is Some,
            forall|q: int| 0 <= q < s.source_order@.len() ==> {
                let d = source_definition(s.sources@, #[trigger] s.source_order@[q])->0;
                &&& forall|m: int| 0 <= m < source_references(d).len() ==> reference_resolves(*s, #[trigger] source_references(d)[m])
                &&& forall|m: int| 0 <= m < incident_bodies(*s, d).len() ==> body_ids(*s).contains(#[trigger] incident_bodies(*s, d)[m])
                &&& incident_bodies(*s, d).len() > 0
            },
            link_view(links@) == ordered_links(*s).take(k as int),
            links_in_range(link_view(links@), n as nat),
            firsts@ == ordered_first_bodies(*s).take(k as int),
            grounds@ == ordered_ground_flags(*s).take(k as int),
            trues@ == Seq::new(k as nat, |q: int| true),
        decreases count - k,
    {
        let id = s.source_order[k];
        let definition = match source_definition_of(&s.sources, id) {
            Some(definition) => definition,
            None => PlanarSourceTopology::PhysicalGround { body: PlanarBodyId(0) },
        };
        let bodies = incident_body_list(s, definition);
        let first = least_of(&bodies);
        let positions = link_positions(&ids, &bodies);
        let ground = match definition {
            PlanarSourceTopology::PhysicalGround { .. } => true,
            _ => false,
        };
        let ghost old_links = links@;
        links.push(positions);
        firsts.push(first);
        grounds.push(ground);
        trues.push(true);
        proof {
            assert(definition == ordered_definitions(*s)[k as int]);
            assert(link_view(links@) =~= ordered_links(*s).take(k + 1)) by {
                assert(link_view(links@) =~= link_view(old_links).push(positions@));
            }
            assert(firsts@ =~= ordered_first_bodies(*s).take(k + 1));
            assert(grounds@ =~= ordered_ground_flags(*s).take(k + 1));
            assert(trues@ =~= Seq::new((k + 1) as nat, |q: int| true));
            assert forall|t: int, m: int| 0 <= t < link_view(links@).len() && 0 <= m < link_view(links@)[t].len() implies #[trigger] link_view(links@)[t][m] < n as nat by {
                if t < k {
                    assert(link_view(links@)[t] == link_view(old_links)[t]);
                }
            }
        }
        k = k + 1;
    }
    proof {
        assert(ordered_links(*s).take(count as int) == ordered_links(*s));
        assert(ordered_first_bodies(*s).take(count as int) == ordered_first_bodies(*s));
        assert(ordered_ground_flags(*s).take(count as int) == ordered_ground_flags(*s));
    }
    let roots = link_roots(n, &links);
    let groups = group_by_root(&ids, &roots);
    let mut components: Vec<CertifiedPlanarComponent> = Vec::new();
    let mut c: usize = 0;
    while c < groups.len()
        invariant
            c <= groups@.len(),
            components@.len() == c,
            firsts@ == ordered_first_bodies(*s),
            grounds@ == ordered_ground_flags(*s),
            trues@ == Seq::new(s.source_order@.len(), |q: int| true),
            forall|e: int| 0 <= e < c ==> component_body_ids(#[trigger] components@[e]) == groups@[e]@,
            forall|e: int| 0 <= e < c ==> (#[trigger] components@[e]).sources@ == select_in_group(
                s.source_order@, ordered_first_bodies(*s), Seq::new(s.source_order@.len(), |q: int| true), groups@[e]@),
            forall|e: int| 0 <= e < c ==> (#[trigger] components@[e]).physical_ground_sources@ == select_in_group(
                s.source_order@, ordered_first_bodies(*s), ordered_ground_flags(*s), groups@[e]@),
        decreases groups@.len() - c,
    {
        let group = &groups[c];
        let mut bodies: Vec<PlanarBodyId> = Vec::new();
        let mut m: usize = 0;
        while m < group.len()
            invariant
                m <= group@.len(),
                bodies@.len() == m,
                bodies@.map_values(|b: PlanarBodyId| b.0) == group@.take(m as int),
            decreases group@.len() - m,
        {
            let ghost before = bodies@;
            bodies.push(PlanarBodyId(group[m]));
            proof {
                let mapped = bodies@.map_values(|b: PlanarBodyId| b.0);
                assert forall|q: int| 0 <= q < m + 1 implies #[trigger] mapped[q] == group@.take(m + 1)[q] by {
                    if q < m {
                        assert(bodies@[q] == before[q]);
                        assert(before.map_values(|b: PlanarBodyId| b.0)[q] == group@.take(m as int)[q]);
                    }
                }
                assert(bodies@.map_values(|b: PlanarBodyId| b.0) =~= group@.take(m + 1));
            }
            m = m + 1;
        }
        proof {
            assert(group@.take(group@.len() as int) == group@);
        }
        let sources = select_sources_in_group(&s.source_order, &firsts, &trues, group);
        let physical_ground_sources = select_sources_in_group(&s.source_order, &firsts, &grounds, group);
        components.push(CertifiedPlanarComponent { bodies, sources, physical_ground_sources });
        c = c + 1;
    }
    proof {
        let gv = groups_view(groups@);
        let cv = components@.map_values(|c: CertifiedPlanarComponent| component_body_ids(c));
        assert(cv =~= gv);
        assert(is_root_grouping(ids@, roots@, gv));
        assert forall|c: int, m: int, d: int, l: int, i: int, j: int|
            0 <= c < cv.len() && 0 <= m < cv[c].len() && 0 <= d < cv.len() && 0 <= l
                < cv[d].len() && 0 <= i < ids@.len() && 0 <= j < ids@.len() && #[trigger] cv[c][m]
                == #[trigger] ids@[i] && #[trigger] cv[d][l] == #[trigger] ids@[j] implies (c == d
                <==> connected(ordered_links(*s), ids@.len(), i, j)) by {
            assert(gv[c][m] == ids@[i] && gv[d][l] == ids@[j]);
            assert(roots@[i] == roots@[j] <==> connected(link_view(links@), n as nat, i, j));
        }
        assert forall|c: int| 0 <= c < components@.len() implies (#[trigger] components@[c]).sources@ == select_in_group(
            s.source_order@, ordered_first_bodies(*s), Seq::new(s.source_order@.len(), |k: int| true), cv[c]) && components@[c].physical_ground_sources@ == select_in_group(
            s.source_order@, ordered_first_bodies(*s), ordered_ground_flags(*s), cv[c]) by {
            assert(cv[c] == groups@[c]@);
        }
    }
    components
}


/// The body groups of the components.
pub open spec fn component_groups(components: Seq<CertifiedPlanarComponent>) -> Seq<Seq<u128>> {
    components.map_values(|c: CertifiedPlanarComponent| component_body_ids(c))
}

/// Which components hold a physical ground source.
pub open spec fn component_grounded(components: Seq<CertifiedPlanarComponent>) -> Seq<bool> {
    components.map_values(|c: CertifiedPlanarComponent| c.physical_ground_sources@.len() > 0)
}

/// The explicit reference list of a policy, if it has one.
pub open spec fn explicit_list(policy: PlanarGaugePolicy) -> Option<Seq<u128>> {
    match policy {
        PlanarGaugePolicy::LowestPersistentBody => None,
        PlanarGaugePolicy::ExplicitReferences { bodies } => Some(bodies@.map_values(|b: PlanarBodyId| b.0)),
    }
}

/// The planar rejection for a gauge rule violation.
pub open spec fn planar_gauge_error(violation: GaugeRuleViolation) -> PlanarLinkageError {
    PlanarLinkageError::InvalidGaugePolicy(
        match violation {
            GaugeRuleViolation::DuplicateReferences => PlanarGaugeViolation::DuplicateReferences,
            GaugeRuleViolation::UnknownReference(b) => PlanarGaugeViolation::UnknownReference(PlanarBodyId(b)),
            GaugeRuleViolation::FloatingComponentReferences(b) => PlanarGaugeViolation::FloatingComponentReferences(PlanarBodyId(b)),
            GaugeRuleViolation::GroundedComponentReference(b) => PlanarGaugeViolation::GroundedComponentReference(PlanarBodyId(b)),
        },
    )
}

/// Plain values of optional body references.
pub open spec fn plain_references(references: Seq<Option<PlanarBodyId>>) -> Seq<Option<u128>> {
    references.map_values(|r: Option<PlanarBodyId>| match r {
        Some(b) => Some(b.0),
        None => None,
    })
}

/// Chooses the numerical gauge reference of every component under the policy.
pub fn resolve_gauge_references(policy: &PlanarGaugePolicy, components: &Vec<CertifiedPlanarComponent>) -> (result: Result<Vec<Option<PlanarBodyId>>, PlanarLinkageError>)
    requires
        forall|c: int| 0 <= c < components@.len() ==> (#[trigger] components@[c]).bodies@.len() > 0,
    ensures
        match reference_choices(component_grounded(components@), component_groups(components@), explicit_list(*policy)) {
            Ok(choices) => result matches Ok(references) && plain_references(references@) == choices,
            Err(violation) => result == Err::<Vec<Option<PlanarBodyId>>, _>(planar_gauge_error(violation)),
        },
{
    let mut grounded: Vec<bool> = Vec::new();
    let mut groups: Vec<Vec<u128>> = Vec::new();
    let mut c: usize = 0;
    while c < components.len()
        invariant
            c <= components@.len(),
            forall|e: int| 0 <= e < components@.len() ==> (#[trigger] components@[e]).bodies@.len() > 0,
            grounded@ == component_grounded(components@).take(c as int),
            groups@.map_values(|g: Vec<u128>| g@) == component_groups(components@).take(c as int),
        decreases components@.len() - c,
    {
        grounded.push(components[c].physical_ground_sources.len() > 0);
        let ids = body_id_values(&components[c].bodies);
        let ghost before = groups@;
        groups.push(ids);
        proof {
            assert(grounded@ =~= component_grounded(components@).take(c + 1));
            assert(groups@.map_values(|g: Vec<u128>| g@) =~= before.map_values(|g: Vec<u128>| g@).push(ids@));
            assert(groups@.map_values(|g: Vec<u128>| g@) =~= component_groups(components@).take(c + 1));
        }
        c = c + 1;
    }
    proof {
        assert(component_grounded(components@).take(components@.len() as int) =~= component_grounded(components@));
        assert(component_groups(components@).take(components@.len() as int) =~= component_groups(components@));
        assert forall|e: int| 0 <= e < groups@.len() implies (#[trigger] groups@[e])@.len() > 0 by {
            assert(groups@.map_values(|g: Vec<u128>| g@)[e] == component_groups(components@)[e]);
        }
    }
    let choices = match policy {
        PlanarGaugePolicy::LowestPersistentBody => resolve_reference_choices(&grounded, &groups, None),
        PlanarGaugePolicy::ExplicitReferences { bodies } => {
            let references = body_id_values(bodies);
            resolve_reference_choices(&grounded, &groups, Some(&references))
        },
    };
    match choices {
        Err(violation) => Err(match violation {
            GaugeRuleViolation::DuplicateReferences => PlanarLinkageError::InvalidGaugePolicy(PlanarGaugeViolation::DuplicateReferences),
            GaugeRuleViolation::UnknownReference(b) => PlanarLinkageError::InvalidGaugePolicy(PlanarGaugeViolation::UnknownReference(PlanarBodyId(b))),
            GaugeRuleViolation::FloatingComponentReferences(b) => PlanarLinkageError::InvalidGaugePolicy(PlanarGaugeViolation::FloatingComponentReferences(PlanarBodyId(b))),
            GaugeRuleViolation::GroundedComponentReference(b) => PlanarLinkageError::InvalidGaugePolicy(PlanarGaugeViolation::GroundedComponentReference(PlanarBodyId(b))),
        }),
        Ok(found) => {
            let mut references: Vec<Option<PlanarBodyId>> = Vec::new();
            let mut k: usize = 0;
            while k < found.len()
                invariant
                    k <= found@.len(),
                    plain_references(references@) == found@.take(k as int),
                decreases found@.len() - k,
            {
                let reference = match found[k] {
                    Some(b) => Some(PlanarBodyId(b)),
                    None => None,
                };
                let ghost before = references@;
                references.push(reference);
                proof {
                    assert(plain_references(references@) =~= plain_references(before).push(found@[k as int]));
                    assert(found@.take(k + 1) =~= found@.take(k as int).push(found@[k as int]));
                }
                k = k + 1;
            }
            proof {
                assert(found@.take(found@.len() as int) =~= found@);
            }
            Ok(references)
        },
    }
}

/// The components and gauge references of a valid structure under a policy.
pub fn certify_gauge(s: &PlanarStructure, policy: &PlanarGaugePolicy) -> (result: Result<(Vec<CertifiedPlanarComponent>, Vec<Option<PlanarBodyId>>), PlanarLinkageError>)
    requires
        structure_valid(*s),
    ensures
        match result {
            Ok((components, references)) => certifies_components(*s, components@)
                && reference_choices(component_grounded(components@), component_groups(components@), explicit_list(*policy))
                == Ok::<Seq<Option<u128>>, GaugeRuleViolation>(plain_references(references@)),
            Err(e) => exists|components: Seq<CertifiedPlanarComponent>| #[trigger] certifies_components(*s, components)
                && (reference_choices(component_grounded(components), component_groups(components), explicit_list(*policy))
                matches Err(violation) && e == planar_gauge_error(violation)),
        },
{
    proof {
        lemma_valid_structure(*s);
    }
    let components = certified_components(s);
    proof {
        assert forall|c: int| 0 <= c < components@.len() implies (#[trigger] components@[c]).bodies@.len() > 0 by {
            assert(component_groups(components@)[c].len() > 0);
        }
    }
    match resolve_gauge_references(policy, &components) {
        Ok(references) => Ok((components, references)),
        Err(e) => Err(e),
    }
}


/// Sequential allocator of persistent identities inside one document's namespace.
#[derive(Debug)]
pub struct IdAllocator {
    pub next: u128,
}

impl IdAllocator {
    /// Starts allocating right after the (nonzero) document identity.
    pub fn new(document: PlanarDocumentId) -> (result: Result<IdAllocator, PlanarLinkageError>)
        ensures
            document.0 == 0 ==> result == Err::<IdAllocator, _>(PlanarLinkageError::InvalidId(0)),
            document.0 == u128::MAX ==> result == Err::<IdAllocator, _>(PlanarLinkageError::IdExhausted),
            0 < document.0 < u128::MAX ==> (result matches Ok(allocator) && allocator.next == document.0 + 1),
    {
        if document.0 == 0 {
            return Err(PlanarLinkageError::InvalidId(document.0));
        }
        match document.0.checked_add(1) {
            Some(next) => Ok(IdAllocator { next }),
            None => Err(PlanarLinkageError::IdExhausted),
        }
    }

    /// Hands out the next identity; fails, leaving the allocator unchanged, once
    /// the identity space is exhausted.
    pub fn allocate(&mut self) -> (result: Result<u128, PlanarLinkageError>)
        ensures
            old(self).next < u128::MAX ==> result == Ok::<u128, PlanarLinkageError>(old(self).next)
                && final(self).next == old(self).next + 1,
            old(self).next == u128::MAX ==> result == Err::<u128, _>(PlanarLinkageError::IdExhausted)
                && final(self).next == old(self).next,
    {
        let id = self.next;
        match self.next.checked_add(1) {
            Some(next) => {
                self.next = next;
                Ok(id)
            },
            None => Err(PlanarLinkageError::IdExhausted),
        }
    }
}

/// The runtime point feature of a persistent feature.
pub fn point_feature(mappings: &PlanarLinkageRuntimeMap, id: PlanarFeatureId) -> (result: Result<PointFeatureId, PlanarLinkageError>)
    ensures
        match runtime_of(mappings.features@, id) {
            Some(PlanarRuntimeFeature::Point(runtime)) => result == Ok::<PointFeatureId, PlanarLinkageError>(runtime),
            Some(PlanarRuntimeFeature::Axis(_)) => result == Err::<PointFeatureId, _>(PlanarLinkageError::FeatureKindMismatch(id)),
            None => result == Err::<PointFeatureId, _>(PlanarLinkageError::UnknownReference { kind: PlanarReferenceKind::Feature, id: id.0 }),
        },
{
    match mappings.runtime_feature(id) {
        Some(PlanarRuntimeFeature::Point(runtime)) => Ok(runtime),
        Some(PlanarRuntimeFeature::Axis(_)) => Err(PlanarLinkageError::FeatureKindMismatch(id)),
        None => Err(PlanarLinkageError::UnknownReference { kind: PlanarReferenceKind::Feature, id: id.0 }),
    }
}

/// The runtime axis feature of a persistent feature.
pub fn axis_feature(mappings: &PlanarLinkageRuntimeMap, id: PlanarFeatureId) -> (result: Result<AxisFeatureId, PlanarLinkageError>)
    ensures
        match runtime_of(mappings.features@, id) {
            Some(PlanarRuntimeFeature::Axis(runtime)) => result == Ok::<AxisFeatureId, PlanarLinkageError>(runtime),
            Some(PlanarRuntimeFeature::Point(_)) => result == Err::<AxisFeatureId, _>(PlanarLinkageError::FeatureKindMismatch(id)),
            None => result == Err::<AxisFeatureId, _>(PlanarLinkageError::UnknownReference { kind: PlanarReferenceKind::Feature, id: id.0 }),
        },
{
    match mappings.runtime_feature(id) {
        Some(PlanarRuntimeFeature::Axis(runtime)) => Ok(runtime),
        Some(PlanarRuntimeFeature::Point(_)) => Err(PlanarLinkageError::FeatureKindMismatch(id)),
        None => Err(PlanarLinkageError::UnknownReference { kind: PlanarReferenceKind::Feature, id: id.0 }),
    }
}

/// The persistent body captured for a runtime body.
pub fn body_id(mappings: &Vec<(BodyId, PlanarBodyId)>, id: BodyId) -> (result: Result<PlanarBodyId, PlanarLinkageError>)
    ensures
        match runtime_of(mappings@, id) {
            Some(persistent) => result == Ok::<PlanarBodyId, PlanarLinkageError>(persistent),
            None => result == Err::<PlanarBodyId, _>(PlanarLinkageError::InvalidField(PlanarField::RuntimeBodyMapping)),
        },
{
    proof {
        assert(mappings@.skip(0) =~= mappings@);
    }
    let mut i: usize = 0;
    while i < mappings.len()
        invariant
            i <= mappings@.len(),
            runtime_of(mappings@, id) == runtime_of(mappings@.skip(i as int), id),
        decreases mappings@.len() - i,
    {
        proof {
            assert(mappings@.skip(i as int).drop_first() =~= mappings@.skip(i + 1));
        }
        let (runtime, persistent) = mappings[i];
        if runtime == id {
            return Ok(persistent);
        }
        i = i + 1;
    }
    Err(PlanarLinkageError::InvalidField(PlanarField::RuntimeBodyMapping))
}

/// The persistent feature captured for a runtime point feature.
pub fn point_id(mappings: &Vec<(PointFeatureId, PlanarFeatureId)>, id: PointFeatureId) -> (result: Result<PlanarFeatureId, PlanarLinkageError>)
    ensures
        match runtime_of(mappings@, id) {
            Some(persistent) => result == Ok::<PlanarFeatureId, PlanarLinkageError>(persistent),
            None => result == Err::<PlanarFeatureId, _>(PlanarLinkageError::InvalidField(PlanarField::RuntimePointMapping)),
        },
{
    proof {
        assert(mappings@.skip(0) =~= mappings@);
    }
    let mut i: usize = 0;
    while i < mappings.len()
        invariant
            i <= mappings@.len(),
            runtime_of(mappings@, id) == runtime_of(mappings@.skip(i as int), id),
        decreases mappings@.len() - i,
    {
        proof {
            assert(mappings@.skip(i as int).drop_first() =~= mappings@.skip(i + 1));
        }
        let (runtime, persistent) = mappings[i];
        if runtime == id {
            return Ok(persistent);
        }
        i = i + 1;
    }
    Err(PlanarLinkageError::InvalidField(PlanarField::RuntimePointMapping))
}

/// The persistent feature captured for a runtime axis feature.
pub fn axis_id(mappings: &Vec<(AxisFeatureId, PlanarFeatureId)>, id: AxisFeatureId) -> (result: Result<PlanarFeatureId, PlanarLinkageError>)
    ensures
        match runtime_of(mappings@, id) {
            Some(persistent) => result == Ok::<PlanarFeatureId, PlanarLinkageError>(persistent),
            None => result == Err::<PlanarFeatureId, _>(PlanarLinkageError::InvalidField(PlanarField::RuntimeAxisMapping)),
        },
{
    proof {
        assert(mappings@.skip(0) =~= mappings@);
    }
    let mut i: usize = 0;
    while i < mappings.len()
        invariant
            i <= mappings@.len(),
            runtime_of(mappings@, id) == runtime_of(mappings@.skip(i as int), id),
        decreases mappings@.len() - i,
    {
        proof {
            assert(mappings@.skip(i as int).drop_first() =~= mappings@.skip(i + 1));
        }
        let (runtime, persistent) = mappings[i];
        if runtime == id {
            return Ok(persistent);
        }
        i = i + 1;
    }
    Err(PlanarLinkageError::InvalidField(PlanarField::RuntimeAxisMapping))
}

/// Inserts `x` into an ascending list without repeating it.
fn insert_sorted_unique(v: &mut Vec<u128>, x: u128)
    requires
        strictly_increasing(old(v)@),
    ensures
        strictly_increasing(final(v)@),
        final(v)@.to_set() == old(v)@.to_set().insert(x),
{
    let mut p: usize = 0;
    while p < v.len() && v[p] < x
        invariant
            p <= v@.len(),
            forall|k: int| 0 <= k < p ==> v@[k] < x,
        decreases v@.len() - p,
    {
        p = p + 1;
    }
    if p < v.len() && v[p] == x {
        proof {
            assert(v@.to_set() =~= v@.to_set().insert(x)) by {
                assert(v@.contains(x));
            }
        }
        return;
    }
    let ghost before = v@;
    v.insert(p, x);
    proof {
        assert forall|a: int, b: int| 0 <= a < b < v@.len() implies v@[a] < v@[b] by {
            if a < p && b < p {
                assert(v@[a] == before[a] && v@[b] == before[b]);
            } else if a < p && b == p {
                assert(v@[a] == before[a]);
            } else if a < p {
                assert(v@[a] == before[a] && v@[b] == before[b - 1]);
            } else if a == p {
                assert(v@[b] == before[b - 1]);
                assert(before[p as int] >= x);
                assert(before[p as int] != x);
                if b - 1 > p {
                    assert(before[p as int] < before[b - 1]);
                }
            } else {
                assert(v@[a] == before[a - 1] && v@[b] == before[b - 1]);
            }
        }
        assert(v@.to_set() =~= before.to_set().insert(x)) by {
            assert forall|y: u128| v@.contains(y) implies before.to_set().insert(x).contains(y) by {
                let k = choose|k: int| 0 <= k < v@.len() && v@[k] == y;
                if k < p {
                    assert(before[k] == y);
                } else if k > p {
                    assert(before[k - 1] == y);
                }
            }
            assert forall|y: u128| before.to_set().insert(x).contains(y) implies v@.contains(y) by {
                if y == x {
                    assert(v@[p as int] == x);
                } else {
                    let k = choose|k: int| 0 <= k < before.len() && before[k] == y;
                    if k < p {
                        assert(v@[k] == y);
                    } else {
                        assert(v@[k + 1] == y);
                    }
                }
            }
        }
    }
}

/// The distinct bodies a source touches, in ascending order.
pub fn persistent_source_bodies(s: &PlanarStructure, definition: PlanarSourceTopology) -> (bodies: Vec<PlanarBodyId>)
    requires
        forall|k: int| 0 <= k < source_references(definition).len() ==> reference_resolves(*s, #[trigger] source_references(definition)[k]),
    ensures
        strictly_increasing(bodies@.map_values(|b: PlanarBodyId| b.0)),
        bodies@.map_values(|b: PlanarBodyId| b.0).to_set() == incident_bodies(*s, definition).to_set(),
{
    let incident = incident_body_list(s, definition);
    let mut sorted: Vec<u128> = Vec::new();
    let mut k: usize = 0;
    while k < incident.len()
        invariant
            k <= incident@.len(),
            strictly_increasing(sorted@),
            forall|y: u128| #[trigger] sorted@.to_set().contains(y) <==> exists|j: int| 0 <= j < k && incident@[j] == y,
        decreases incident@.len() - k,
    {
        let ghost before = sorted@;
        insert_sorted_unique(&mut sorted, incident[k]);
        proof {
            assert forall|y: u128| #[trigger] sorted@.to_set().contains(y) implies exists|j: int| 0 <= j < k + 1 && incident@[j] == y by {
                if y == incident@[k as int] {
                    assert(incident@[k as int] == y);
                } else {
                    assert(before.to_set().contains(y));
                    let j = choose|j: int| 0 <= j < k && incident@[j] == y;
                    assert(0 <= j < k + 1 && incident@[j] == y);
                }
            }
            assert forall|y: u128| (exists|j: int| 0 <= j < k + 1 && incident@[j] == y) implies #[trigger] sorted@.to_set().contains(y) by {
                let j = choose|j: int| 0 <= j < k + 1 && incident@[j] == y;
                if j < k {
                    assert(exists|j: int| 0 <= j < k && incident@[j] == y);
                    assert(before.to_set().contains(y));
                }
            }
        }
        k = k + 1;
    }
    proof {
        assert(sorted@.to_set() =~= incident@.to_set()) by {
            assert forall|y: u128| sorted@.to_set().contains(y) <==> incident@.to_set().contains(y) by {
                if sorted@.to_set().contains(y) {
                    let j = choose|j: int| 0 <= j < k && incident@[j] == y;
                    assert(incident@.contains(y));
                }
                if incident@.to_set().contains(y) {
                    let j = choose|j: int| 0 <= j < incident@.len() && incident@[j] == y;
                    assert(exists|j: int| 0 <= j < k && incident@[j] == y);
                }
            }
        }
    }
    let mut bodies: Vec<PlanarBodyId> = Vec::new();
    let mut m: usize = 0;
    while m < sorted.len()
        invariant
            m <= sorted@.len(),
            bodies@.len() == m,
            bodies@.map_values(|b: PlanarBodyId| b.0) == sorted@.take(m as int),
        decreases sorted@.len() - m,
    {
        let ghost before = bodies@;
        bodies.push(PlanarBodyId(sorted[m]));
        proof {
            let mapped = bodies@.map_values(|b: PlanarBodyId| b.0);
            assert forall|q: int| 0 <= q < m + 1 implies #[trigger] mapped[q] == sorted@.take(m + 1)[q] by {
                if q < m {
                    assert(bodies@[q] == before[q]);
                    assert(before.map_values(|b: PlanarBodyId| b.0)[q] == sorted@.take(m as int)[q]);
                }
            }
            assert(mapped =~= sorted@.take(m + 1));
        }
        m = m + 1;
    }
    proof {
        assert(sorted@.take(sorted@.len() as int) == sorted@);
    }
    bodies
}


/// The references of a source in runtime identities, as the runtime linkage
/// creates or reports them.
#[derive(Clone, Copy, Debug, PartialEq, Eq, Structural)]
pub enum PlanarRuntimeSourceTopology {
    PhysicalGround { body: BodyId },
    Revolute { first: PointFeatureId, second: PointFeatureId },
    Prismatic {
        first_anchor: PointFeatureId,
        first_axis: AxisFeatureId,
        second_anchor: PointFeatureId,
        second_axis: AxisFeatureId,
        axis_branch: AxisDirectionBranch,
    },
    Weld { first: PointFeatureId, second: PointFeatureId },
    AngularDriver { reference: BodyId, driven: BodyId },
    LinearDriver { origin: PointFeatureId, measured: PointFeatureId, guide_axis: AxisFeatureId },
    OrientationBranch {
        line_start: PointFeatureId,
        line_end: PointFeatureId,
        observed: PointFeatureId,
        sign: BranchSign,
    },
    DirectedDisplacementBranch {
        origin: PointFeatureId,
        measured: PointFeatureId,
        axis: AxisFeatureId,
        sign: BranchSign,
    },
}

/// Runtime body of a persistent body, or an unknown-body rejection.
pub open spec fn lowered_body(mappings: PlanarLinkageRuntimeMap, id: PlanarBodyId) -> Result<BodyId, PlanarLinkageError> {
    match runtime_of(mappings.bodies@, id) {
        Some(b) => Ok(b),
        None => Err(PlanarLinkageError::UnknownReference { kind: PlanarReferenceKind::Body, id: id.0 }),
    }
}

/// Runtime point feature of a persistent feature, or its rejection.
pub open spec fn lowered_point(mappings: PlanarLinkageRuntimeMap, id: PlanarFeatureId) -> Result<PointFeatureId, PlanarLinkageError> {
    match runtime_of(mappings.features@, id) {
        Some(PlanarRuntimeFeature::Point(runtime)) => Ok(runtime),
        Some(PlanarRuntimeFeature::Axis(_)) => Err(PlanarLinkageError::FeatureKindMismatch(id)),
        None => Err(PlanarLinkageError::UnknownReference { kind: PlanarReferenceKind::Feature, id: id.0 }),
    }
}

/// Runtime axis feature of a persistent feature, or its rejection.
pub open spec fn lowered_axis(mappings: PlanarLinkageRuntimeMap, id: PlanarFeatureId) -> Result<AxisFeatureId, PlanarLinkageError> {
    match runtime_of(mappings.features@, id) {
        Some(PlanarRuntimeFeature::Axis(runtime)) => Ok(runtime),
        Some(PlanarRuntimeFeature::Point(_)) => Err(PlanarLinkageError::FeatureKindMismatch(id)),
        None => Err(PlanarLinkageError::UnknownReference { kind: PlanarReferenceKind::Feature, id: id.0 }),
    }
}

/// The runtime references of a persistent source, resolved field by field in
/// order; a driver also needs its accepted target (`has_target`), checked after
/// its references.
pub open spec fn source_lowering(mappings: PlanarLinkageRuntimeMap, definition: PlanarSourceTopology, has_target: bool) -> Result<PlanarRuntimeSourceTopology, PlanarLinkageError> {
    match definition {
        PlanarSourceTopology::PhysicalGround { body } => match lowered_body(mappings, body) {
            Ok(b) => Ok(PlanarRuntimeSourceTopology::PhysicalGround { body: b }),
            Err(e) => Err(e),
        },
        PlanarSourceTopology::Revolute { first, second } => match lowered_point(mappings, first) {
            Err(e) => Err(e),
            Ok(a) => match lowered_point(mappings, second) {
                Err(e) => Err(e),
                Ok(b) => Ok(PlanarRuntimeSourceTopology::Revolute { first: a, second: b }),
            },
        },
        PlanarSourceTopology::Weld { first, second } => match lowered_point(mappings, first) {
            Err(e) => Err(e),
            Ok(a) => match lowered_point(mappings, second) {
                Err(e) => Err(e),
                Ok(b) => Ok(PlanarRuntimeSourceTopology::Weld { first: a, second: b }),
            },
        },
        PlanarSourceTopology::Prismatic { first_anchor, first_axis, second_anchor, second_axis, axis_branch } => match lowered_point(mappings, first_anchor) {
            Err(e) => Err(e),
            Ok(a) => match lowered_axis(mappings, first_axis) {
                Err(e) => Err(e),
                Ok(b) => match lowered_point(mappings, second_anchor) {
                    Err(e) => Err(e),
                    Ok(c) => match lowered_axis(mappings, second_axis) {
                        Err(e) => Err(e),
                        Ok(d) => Ok(PlanarRuntimeSourceTopology::Prismatic { first_anchor: a, first_axis: b, second_anchor: c, second_axis: d, axis_branch }),
                    },
                },
            },
        },
        PlanarSourceTopology::AngularDriver { reference, driven } => match lowered_body(mappings, reference) {
            Err(e) => Err(e),
            Ok(a) => match lowered_body(mappings, driven) {
                Err(e) => Err(e),
                Ok(b) => if has_target {
                    Ok(PlanarRuntimeSourceTopology::AngularDriver { reference: a, driven: b })
                } else {
                    Err(PlanarLinkageError::IncompleteAcceptedState)
                },
            },
        },
        PlanarSourceTopology::LinearDriver { origin, measured, guide_axis } => match lowered_point(mappings, origin) {
            Err(e) => Err(e),
            Ok(a) => match lowered_point(mappings, measured) {
                Err(e) => Err(e),
                Ok(b) => match lowered_axis(mappings, guide_axis) {
                    Err(e) => Err(e),
                    Ok(c) => if has_target {
                        Ok(PlanarRuntimeSourceTopology::LinearDriver { origin: a, measured: b, guide_axis: c })
                    } else {
                        Err(PlanarLinkageError::IncompleteAcceptedState)
                    },
                },
            },
        },
        PlanarSourceTopology::OrientationBranch { line_start, line_end, observed, sign } => match lowered_point(mappings, line_start) {
            Err(e) => Err(e),
            Ok(a) => match lowered_point(mappings, line_end) {
                Err(e) => Err(e),
                Ok(b) => match lowered_point(mappings, observed) {
                    Err(e) => Err(e),
                    Ok(c) => Ok(PlanarRuntimeSourceTopology::OrientationBranch { line_start: a, line_end: b, observed: c, sign }),
                },
            },
        },
        PlanarSourceTopology::DirectedDisplacementBranch { origin, measured, axis, sign } => match lowered_point(mappings, origin) {
            Err(e) => Err(e),
            Ok(a) => match lowered_point(mappings, measured) {
                Err(e) => Err(e),
                Ok(b) => match lowered_axis(mappings, axis) {
                    Err(e) => Err(e),
                    Ok(c) => Ok(PlanarRuntimeSourceTopology::DirectedDisplacementBranch { origin: a, measured: b, axis: c, sign }),
                },
            },
        },
    }
}

fn lower_body(mappings: &PlanarLinkageRuntimeMap, id: PlanarBodyId) -> (result: Result<BodyId, PlanarLinkageError>)
    ensures
        result == lowered_body(*mappings, id),
{
    match mappings.runtime_body(id) {
        Some(b) => Ok(b),
        None => Err(PlanarLinkageError::UnknownReference { kind: PlanarReferenceKind::Body, id: id.0 }),
    }
}

/// Resolves the references of a persistent source into runtime identities, in
/// field order; a driver additionally needs its accepted target.
pub fn lower_source(mappings: &PlanarLinkageRuntimeMap, definition: PlanarSourceTopology, has_target: bool) -> (result: Result<PlanarRuntimeSourceTopology, PlanarLinkageError>)
    ensures
        result == source_lowering(*mappings, definition, has_target),
{
    match definition {
        PlanarSourceTopology::PhysicalGround { body } => Ok(PlanarRuntimeSourceTopology::PhysicalGround { body: lower_body(mappings, body)? }),
        PlanarSourceTopology::Revolute { first, second } => {
            let first = point_feature(mappings, first)?;
            let second = point_feature(mappings, second)?;
            Ok(PlanarRuntimeSourceTopology::Revolute { first, second })
        },
        PlanarSourceTopology::Weld { first, second } => {
            let first = point_feature(mappings, first)?;
            let second = point_feature(mappings, second)?;
            Ok(PlanarRuntimeSourceTopology::Weld { first, second })
        },
        PlanarSourceTopology::Prismatic { first_anchor, first_axis, second_anchor, second_axis, axis_branch } => {
            let first_anchor = point_feature(mappings, first_anchor)?;
            let first_axis = axis_feature(mappings, first_axis)?;
            let second_anchor = point_feature(mappings, second_anchor)?;
            let second_axis = axis_feature(mappings, second_axis)?;
            Ok(PlanarRuntimeSourceTopology::Prismatic { first_anchor, first_axis, second_anchor, second_axis, axis_branch })
        },
        PlanarSourceTopology::AngularDriver { reference, driven } => {
            let reference = lower_body(mappings, reference)?;
            let driven = lower_body(mappings, driven)?;
            if !has_target {
                return Err(PlanarLinkageError::IncompleteAcceptedState);
            }
            Ok(PlanarRuntimeSourceTopology::AngularDriver { reference, driven })
        },
        PlanarSourceTopology::LinearDriver { origin, measured, guide_axis } => {
            let origin = point_feature(mappings, origin)?;
            let measured = point_feature(mappings, measured)?;
            let guide_axis = axis_feature(mappings, guide_axis)?;
            if !has_target {
                return Err(PlanarLinkageError::IncompleteAcceptedState);
            }
            Ok(PlanarRuntimeSourceTopology::LinearDriver { origin, measured, guide_axis })
        },
        PlanarSourceTopology::OrientationBranch { line_start, line_end, observed, sign } => {
            let line_start = point_feature(mappings, line_start)?;
            let line_end = point_feature(mappings, line_end)?;
            let observed = point_feature(mappings, observed)?;
            Ok(PlanarRuntimeSourceTopology::OrientationBranch { line_start, line_end, observed, sign })
        },
        PlanarSourceTopology::DirectedDisplacementBranch { origin, measured, axis, sign } => {
            let origin = point_feature(mappings, origin)?;
            let measured = point_feature(mappings, measured)?;
            let axis = axis_feature(mappings, axis)?;
            Ok(PlanarRuntimeSourceTopology::DirectedDisplacementBranch { origin, measured, axis, sign })
        },
    }
}

/// Persistent identity captured for a runtime key, or the rejection of the missing mapping.
pub open spec fn captured<R, P>(mappings: Seq<(R, P)>, id: R, field: PlanarField) -> Result<P, PlanarLinkageError> {
    match runtime_of(mappings, id) {
        Some(p) => Ok(p),
        None => Err(PlanarLinkageError::InvalidField(field)),
    }
}

/// The persistent references of a runtime source, captured field by field in order.
pub open spec fn source_capture(
    bodies: Seq<(BodyId, PlanarBodyId)>,
    points: Seq<(PointFeatureId, PlanarFeatureId)>,
    axes: Seq<(AxisFeatureId, PlanarFeatureId)>,
    runtime: PlanarRuntimeSourceTopology,
) -> Result<PlanarSourceTopology, PlanarLinkageError> {
    match runtime {
        PlanarRuntimeSourceTopology::PhysicalGround { body } => match captured(bodies, body, PlanarField::RuntimeBodyMapping) {
            Ok(b) => Ok(PlanarSourceTopology::PhysicalGround { body: b }),
            Err(e) => Err(e),
        },
        PlanarRuntimeSourceTopology::Revolute { first, second } => match captured(points, first, PlanarField::RuntimePointMapping) {
            Err(e) => Err(e),
            Ok(a) => match captured(points, second, PlanarField::RuntimePointMapping) {
                Err(e) => Err(e),
                Ok(b) => Ok(PlanarSourceTopology::Revolute { first: a, second: b }),
            },
        },
        PlanarRuntimeSourceTopology::Weld { first, second } => match captured(points, first, PlanarField::RuntimePointMapping) {
            Err(e) => Err(e),
            Ok(a) => match captured(points, second, PlanarField::RuntimePointMapping) {
                Err(e) => Err(e),
                Ok(b) => Ok(PlanarSourceTopology::Weld { first: a, second: b }),
            },
        },
        PlanarRuntimeSourceTopology::Prismatic { first_anchor, first_axis, second_anchor, second_axis, axis_branch } => match captured(points, first_anchor, PlanarField::RuntimePointMapping) {
            Err(e) => Err(e),
            Ok(a) => match captured(axes, first_axis, PlanarField::RuntimeAxisMapping) {
                Err(e) => Err(e),
                Ok(b) => match captured(points, second_anchor, PlanarField::RuntimePointMapping) {
                    Err(e) => Err(e),
                    Ok(c) => match captured(axes, second_axis, PlanarField::RuntimeAxisMapping) {
                        Err(e) => Err(e),
                        Ok(d) => Ok(PlanarSourceTopology::Prismatic { first_anchor: a, first_axis: b, second_anchor: c, second_axis: d, axis_branch }),
                    },
                },
            },
        },
        PlanarRuntimeSourceTopology::AngularDriver { reference, driven } => match captured(bodies, reference, PlanarField::RuntimeBodyMapping) {
            Err(e) => Err(e),
            Ok(a) => match captured(bodies, driven, PlanarField::RuntimeBodyMapping) {
                Err(e) => Err(e),
                Ok(b) => Ok(PlanarSourceTopology::AngularDriver { reference: a, driven: b }),
            },
        },
        PlanarRuntimeSourceTopology::LinearDriver { origin, measured, guide_axis } => match captured(points, origin, PlanarField::RuntimePointMapping) {
            Err(e) => Err(e),
            Ok(a) => match captured(points, measured, PlanarField::RuntimePointMapping) {
                Err(e) => Err(e),
                Ok(b) => match captured(axes, guide_axis, PlanarField::RuntimeAxisMapping) {
                    Err(e) => Err(e),
                    Ok(c) => Ok(PlanarSourceTopology::LinearDriver { origin: a, measured: b, guide_axis: c }),
                },
            },
        },
        PlanarRuntimeSourceTopology::OrientationBranch { line_start, line_end, observed, sign } => match captured(points, line_start, PlanarField::RuntimePointMapping) {
            Err(e) => Err(e),
            Ok(a) => match captured(points, line_end, PlanarField::RuntimePointMapping) {
                Err(e) => Err(e),
                Ok(b) => match captured(points, observed, PlanarField::RuntimePointMapping) {
                    Err(e) => Err(e),
                    Ok(c) => Ok(PlanarSourceTopology::OrientationBranch { line_start: a, line_end: b, observed: c, sign }),
                },
            },
        },
        PlanarRuntimeSourceTopology::DirectedDisplacementBranch { origin, measured, axis, sign } => match captured(points, origin, PlanarField::RuntimePointMapping) {
            Err(e) => Err(e),
            Ok(a) => match captured(points, measured, PlanarField::RuntimePointMapping) {
                Err(e) => Err(e),
                Ok(b) => match captured(axes, axis, PlanarField::RuntimeAxisMapping) {
                    Err(e) => Err(e),
                    Ok(c) => Ok(PlanarSourceTopology::DirectedDisplacementBranch { origin: a, measured: b, axis: c, sign }),
                },
            },
        },
    }
}

/// Lowering a persistent source resolves each of its fields to the runtime
/// object the map pairs with that same field, of the kind the field names,
/// and keeps its discrete parameters (axis branch, sign); it succeeds exactly
/// when every field resolves so (and a driver has its accepted target).
pub proof fn lemma_lowering_follows_fields(map: PlanarLinkageRuntimeMap, definition: PlanarSourceTopology, has_target: bool)
    ensures
        source_lowering(map, definition, has_target) matches Ok(t) ==> match definition {
            PlanarSourceTopology::PhysicalGround { body } => t matches PlanarRuntimeSourceTopology::PhysicalGround { body: b }
                && runtime_of(map.bodies@, body) == Some(b),
            PlanarSourceTopology::Revolute { first, second } => t matches PlanarRuntimeSourceTopology::Revolute { first: a, second: b }
                && runtime_of(map.features@, first) == Some(PlanarRuntimeFeature::Point(a)) && runtime_of(map.features@, second) == Some(PlanarRuntimeFeature::Point(b)),
            PlanarSourceTopology::Weld { first, second } => t matches PlanarRuntimeSourceTopology::Weld { first: a, second: b }
                && runtime_of(map.features@, first) == Some(PlanarRuntimeFeature::Point(a)) && runtime_of(map.features@, second) == Some(PlanarRuntimeFeature::Point(b)),
            PlanarSourceTopology::Prismatic { first_anchor, first_axis, second_anchor, second_axis, axis_branch } => t
                matches PlanarRuntimeSourceTopology::Prismatic { first_anchor: a, first_axis: b, second_anchor: c, second_axis: d, axis_branch: x }
                && x == axis_branch
                && runtime_of(map.features@, first_anchor) == Some(PlanarRuntimeFeature::Point(a)) && runtime_of(map.features@, first_axis) == Some(PlanarRuntimeFeature::Axis(b))
                && runtime_of(map.features@, second_anchor) == Some(PlanarRuntimeFeature::Point(c)) && runtime_of(map.features@, second_axis) == Some(PlanarRuntimeFeature::Axis(d)),
            PlanarSourceTopology::AngularDriver { reference, driven } => t matches PlanarRuntimeSourceTopology::AngularDriver { reference: a, driven: b }
                && runtime_of(map.bodies@, reference) == Some(a) && runtime_of(map.bodies@, driven) == Some(b),
            PlanarSourceTopology::LinearDriver { origin, measured, guide_axis } => t
                matches PlanarRuntimeSourceTopology::LinearDriver { origin: a, measured: b, guide_axis: c }
                && runtime_of(map.features@, origin) == Some(PlanarRuntimeFeature::Point(a)) && runtime_of(map.features@, measured) == Some(PlanarRuntimeFeature::Point(b))
                && runtime_of(map.features@, guide_axis) == Some(PlanarRuntimeFeature::Axis(c)),
            PlanarSourceTopology::OrientationBranch { line_start, line_end, observed, sign } => t
                matches PlanarRuntimeSourceTopology::OrientationBranch { line_start: a, line_end: b, observed: c, sign: g }
                && g == sign
                && runtime_of(map.features@, line_start) == Some(PlanarRuntimeFeature::Point(a)) && runtime_of(map.features@, line_end) == Some(PlanarRuntimeFeature::Point(b))
                && runtime_of(map.features@, observed) == Some(PlanarRuntimeFeature::Point(c)),
            PlanarSourceTopology::DirectedDisplacementBranch { origin, measured, axis, sign } => t
                matches PlanarRuntimeSourceTopology::DirectedDisplacementBranch { origin: a, measured: b, axis: c, sign: g }
                && g == sign
                && runtime_of(map.features@, origin) == Some(PlanarRuntimeFeature::Point(a)) && runtime_of(map.features@, measured) == Some(PlanarRuntimeFeature::Point(b))
                && runtime_of(map.features@, axis) == Some(PlanarRuntimeFeature::Axis(c)),
        },
        (source_lowering(map, definition, has_target) is Ok) <==> match definition {
            PlanarSourceTopology::PhysicalGround { body } => runtime_of(map.bodies@, body) is Some,
            PlanarSourceTopology::Revolute { first, second } => (runtime_of(map.features@, first) matches Some(PlanarRuntimeFeature::Point(_)))
                && (runtime_of(map.features@, second) matches Some(PlanarRuntimeFeature::Point(_))),
            PlanarSourceTopology::Weld { first, second } => (runtime_of(map.features@, first) matches Some(PlanarRuntimeFeature::Point(_)))
                && (runtime_of(map.features@, second) matches Some(PlanarRuntimeFeature::Point(_))),
            PlanarSourceTopology::Prismatic { first_anchor, first_axis, second_anchor, second_axis, .. } =>
                (runtime_of(map.features@, first_anchor) matches Some(PlanarRuntimeFeature::Point(_))) && (runtime_of(map.features@, first_axis) matches Some(PlanarRuntimeFeature::Axis(_)))
                && (runtime_of(map.features@, second_anchor) matches Some(PlanarRuntimeFeature::Point(_))) && (runtime_of(map.features@, second_axis) matches Some(PlanarRuntimeFeature::Axis(_))),
            PlanarSourceTopology::AngularDriver { reference, driven } => has_target && runtime_of(map.bodies@, reference) is Some
                && runtime_of(map.bodies@, driven) is Some,
            PlanarSourceTopology::LinearDriver { origin, measured, guide_axis } => has_target
                && (runtime_of(map.features@, origin) matches Some(PlanarRuntimeFeature::Point(_))) && (runtime_of(map.features@, measured) matches Some(PlanarRuntimeFeature::Point(_)))
                && (runtime_of(map.features@, guide_axis) matches Some(PlanarRuntimeFeature::Axis(_))),
            PlanarSourceTopology::OrientationBranch { line_start, line_end, observed, .. } =>
                (runtime_of(map.features@, line_start) matches Some(PlanarRuntimeFeature::Point(_))) && (runtime_of(map.features@, line_end) matches Some(PlanarRuntimeFeature::Point(_)))
                && (runtime_of(map.features@, observed) matches Some(PlanarRuntimeFeature::Point(_))),
            PlanarSourceTopology::DirectedDisplacementBranch { origin, measured, axis, .. } =>
                (runtime_of(map.features@, origin) matches Some(PlanarRuntimeFeature::Point(_))) && (runtime_of(map.features@, measured) matches Some(PlanarRuntimeFeature::Point(_)))
                && (runtime_of(map.features@, axis) matches Some(PlanarRuntimeFeature::Axis(_))),
        },
{
}

/// Capturing a runtime source gives each of its fields the persistent identity
/// the pairs give that same runtime object, and keeps its discrete parameters;
/// it succeeds exactly when every runtime object has a persistent identity.
pub proof fn lemma_capture_follows_fields(
    bodies: Seq<(BodyId, PlanarBodyId)>,
    points: Seq<(PointFeatureId, PlanarFeatureId)>,
    axes: Seq<(AxisFeatureId, PlanarFeatureId)>,
    runtime: PlanarRuntimeSourceTopology,
)
    ensures
        source_capture(bodies, points, axes, runtime) matches Ok(d) ==> match runtime {
            PlanarRuntimeSourceTopology::PhysicalGround { body } => d matches PlanarSourceTopology::PhysicalGround { body: b }
                && runtime_of(bodies, body) == Some(b),
            PlanarRuntimeSourceTopology::Revolute { first, second } => d matches PlanarSourceTopology::Revolute { first: a, second: b }
                && runtime_of(points, first) == Some(a) && runtime_of(points, second) == Some(b),
            PlanarRuntimeSourceTopology::Weld { first, second } => d matches PlanarSourceTopology::Weld { first: a, second: b }
                && runtime_of(points, first) == Some(a) && runtime_of(points, second) == Some(b),
            PlanarRuntimeSourceTopology::Prismatic { first_anchor, first_axis, second_anchor, second_axis, axis_branch } => d
                matches PlanarSourceTopology::Prismatic { first_anchor: a, first_axis: b, second_anchor: c, second_axis: e, axis_branch: x }
                && x == axis_branch
                && runtime_of(points, first_anchor) == Some(a) && runtime_of(axes, first_axis) == Some(b)
                && runtime_of(points, second_anchor) == Some(c) && runtime_of(axes, second_axis) == Some(e),
            PlanarRuntimeSourceTopology::AngularDriver { reference, driven } => d matches PlanarSourceTopology::AngularDriver { reference: a, driven: b }
                && runtime_of(bodies, reference) == Some(a) && runtime_of(bodies, driven) == Some(b),
            PlanarRuntimeSourceTopology::LinearDriver { origin, measured, guide_axis } => d
                matches PlanarSourceTopology::LinearDriver { origin: a, measured: b, guide_axis: c }
                && runtime_of(points, origin) == Some(a) && runtime_of(points, measured) == Some(b) && runtime_of(axes, guide_axis) == Some(c),
            PlanarRuntimeSourceTopology::OrientationBranch { line_start, line_end, observed, sign } => d
                matches PlanarSourceTopology::OrientationBranch { line_start: a, line_end: b, observed: c, sign: g }
                && g == sign
                && runtime_of(points, line_start) == Some(a) && runtime_of(points, line_end) == Some(b) && runtime_of(points, observed) == Some(c),
            PlanarRuntimeSourceTopology::DirectedDisplacementBranch { origin, measured, axis, sign } => d
                matches PlanarSourceTopology::DirectedDisplacementBranch { origin: a, measured: b, axis: c, sign: g }
                && g == sign
                && runtime_of(points, origin) == Some(a) && runtime_of(points, measured) == Some(b) && runtime_of(axes, axis) == Some(c),
        },
        (source_capture(bodies, points, axes, runtime) is Ok) <==> match runtime {
            PlanarRuntimeSourceTopology::PhysicalGround { body } => runtime_of(bodies, body) is Some,
            PlanarRuntimeSourceTopology::Revolute { first, second } => runtime_of(points, first) is Some && runtime_of(points, second) is Some,
            PlanarRuntimeSourceTopology::Weld { first, second } => runtime_of(points, first) is Some && runtime_of(points, second) is Some,
            PlanarRuntimeSourceTopology::Prismatic { first_anchor, first_axis, second_anchor, second_axis, .. } =>
                runtime_of(points, first_anchor) is Some && runtime_of(axes, first_axis) is Some
                && runtime_of(points, second_anchor) is Some && runtime_of(axes, second_axis) is Some,
            PlanarRuntimeSourceTopology::AngularDriver { reference, driven } => runtime_of(bodies, reference) is Some && runtime_of(bodies, driven) is Some,
            PlanarRuntimeSourceTopology::LinearDriver { origin, measured, guide_axis } =>
                runtime_of(points, origin) is Some && runtime_of(points, measured) is Some && runtime_of(axes, guide_axis) is Some,
            PlanarRuntimeSourceTopology::OrientationBranch { line_start, line_end, observed, .. } =>
                runtime_of(points, line_start) is Some && runtime_of(points, line_end) is Some && runtime_of(points, observed) is Some,
            PlanarRuntimeSourceTopology::DirectedDisplacementBranch { origin, measured, axis, .. } =>
                runtime_of(points, origin) is Some && runtime_of(points, measured) is Some && runtime_of(axes, axis) is Some,
        },
{
}

/// Captures the references of a runtime source as persistent identities, in
/// field order.
pub fn capture_source(
    bodies: &Vec<(BodyId, PlanarBodyId)>,
    points: &Vec<(PointFeatureId, PlanarFeatureId)>,
    axes: &Vec<(AxisFeatureId, PlanarFeatureId)>,
    runtime: PlanarRuntimeSourceTopology,
) -> (result: Result<PlanarSourceTopology, PlanarLinkageError>)
    ensures
        result == source_capture(bodies@, points@, axes@, runtime),
{
    match runtime {
        PlanarRuntimeSourceTopology::PhysicalGround { body } => Ok(PlanarSourceTopology::PhysicalGround { body: body_id(bodies, body)? }),
        PlanarRuntimeSourceTopology::Revolute { first, second } => {
            let first = point_id(points, first)?;
            let second = point_id(points, second)?;
            Ok(PlanarSourceTopology::Revolute { first, second })
        },
        PlanarRuntimeSourceTopology::Weld { first, second } => {
            let first = point_id(points, first)?;
            let second = point_id(points, second)?;
            Ok(PlanarSourceTopology::Weld { first, second })
        },
        PlanarRuntimeSourceTopology::Prismatic { first_anchor, first_axis, second_anchor, second_axis, axis_branch } => {
            let first_anchor = point_id(points, first_anchor)?;
            let first_axis = axis_id(axes, first_axis)?;
            let second_anchor = point_id(points, second_anchor)?;
            let second_axis = axis_id(axes, second_axis)?;
            Ok(PlanarSourceTopology::Prismatic { first_anchor, first_axis, second_anchor, second_axis, axis_branch })
        },
        PlanarRuntimeSourceTopology::AngularDriver { reference, driven } => {
            let reference = body_id(bodies, reference)?;
            let driven = body_id(bodies, driven)?;
            Ok(PlanarSourceTopology::AngularDriver { reference, driven })
        },
        PlanarRuntimeSourceTopology::LinearDriver { origin, measured, guide_axis } => {
            let origin = point_id(points, origin)?;
            let measured = point_id(points, measured)?;
            let guide_axis = axis_id(axes, guide_axis)?;
            Ok(PlanarSourceTopology::LinearDriver { origin, measured, guide_axis })
        },
        PlanarRuntimeSourceTopology::OrientationBranch { line_start, line_end, observed, sign } => {
            let line_start = point_id(points, line_start)?;
            let line_end = point_id(points, line_end)?;
            let observed = point_id(points, observed)?;
            Ok(PlanarSourceTopology::OrientationBranch { line_start, line_end, observed, sign })
        },
        PlanarRuntimeSourceTopology::DirectedDisplacementBranch { origin, measured, axis, sign } => {
            let origin = point_id(points, origin)?;
            let measured = point_id(points, measured)?;
            let axis = axis_id(axes, axis)?;
            Ok(PlanarSourceTopology::DirectedDisplacementBranch { origin, measured, axis, sign })
        },
    }
}

/// The capture maps invert the runtime map: every persistent body, point
/// feature or axis feature that the runtime map resolves is resolved back to
/// it.
pub open spec fn maps_invert(
    mappings: PlanarLinkageRuntimeMap,
    bodies: Seq<(BodyId, PlanarBodyId)>,
    points: Seq<(PointFeatureId, PlanarFeatureId)>,
    axes: Seq<(AxisFeatureId, PlanarFeatureId)>,
) -> bool {
    &&& forall|p: PlanarBodyId| match #[trigger] runtime_of(mappings.bodies@, p) {
        Some(r) => runtime_of(bodies, r) == Some(p),
        None => true,
    }
    &&& forall|f: PlanarFeatureId| match #[trigger] runtime_of(mappings.features@, f) {
        Some(PlanarRuntimeFeature::Point(r)) => runtime_of(points, r) == Some(f),
        Some(PlanarRuntimeFeature::Axis(r)) => runtime_of(axes, r) == Some(f),
        None => true,
    }
}

/// Capturing a lowered source gives the source back, when the capture maps
/// invert the runtime map.
pub proof fn lemma_capture_undoes_lowering(
    mappings: PlanarLinkageRuntimeMap,
    bodies: Seq<(BodyId, PlanarBodyId)>,
    points: Seq<(PointFeatureId, PlanarFeatureId)>,
    axes: Seq<(AxisFeatureId, PlanarFeatureId)>,
    definition: PlanarSourceTopology,
    has_target: bool,
)
    requires
        maps_invert(mappings, bodies, points, axes),
        source_lowering(mappings, definition, has_target) is Ok,
    ensures
        source_capture(bodies, points, axes, source_lowering(mappings, definition, has_target)->Ok_0)
            == Ok::<PlanarSourceTopology, PlanarLinkageError>(definition),
{
    let mb = mappings.bodies@;
    let mf = mappings.features@;
    match definition {
        PlanarSourceTopology::PhysicalGround { body } => {
            assert(runtime_of(mb, body) is Some);
        },
        PlanarSourceTopology::Revolute { first, second } => {
            assert(runtime_of(mf, first) is Some);
            assert(runtime_of(mf, second) is Some);
        },
        PlanarSourceTopology::Weld { first, second } => {
            assert(runtime_of(mf, first) is Some);
            assert(runtime_of(mf, second) is Some);
        },
        PlanarSourceTopology::Prismatic { first_anchor, first_axis, second_anchor, second_axis, .. } => {
            assert(runtime_of(mf, first_anchor) is Some);
            assert(runtime_of(mf, first_axis) is Some);
            assert(runtime_of(mf, second_anchor) is Some);
            assert(runtime_of(mf, second_axis) is Some);
        },
        PlanarSourceTopology::AngularDriver { reference, driven } => {
            assert(runtime_of(mb, reference) is Some);
            assert(runtime_of(mb, driven) is Some);
        },
        PlanarSourceTopology::LinearDriver { origin, measured, guide_axis } => {
            assert(runtime_of(mf, origin) is Some);
            assert(runtime_of(mf, measured) is Some);
            assert(runtime_of(mf, guide_axis) is Some);
        },
        PlanarSourceTopology::OrientationBranch { line_start, line_end, observed, .. } => {
            assert(runtime_of(mf, line_start) is Some);
            assert(runtime_of(mf, line_end) is Some);
            assert(runtime_of(mf, observed) is Some);
        },
        PlanarSourceTopology::DirectedDisplacementBranch { origin, measured, axis, .. } => {
            assert(runtime_of(mf, origin) is Some);
            assert(runtime_of(mf, measured) is Some);
            assert(runtime_of(mf, axis) is Some);
        },
    }
}

} // verus!
