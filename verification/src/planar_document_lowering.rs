//! Lowering a validated persistent planar document into a runtime linkage.
//!
//! Bodies come first, in document order, then point features and axis
//! features, then every source in the source order. The first rejection stops
//! the lowering; it is the first rejection, in that order, of the document's
//! own values and references.

use vstd::prelude::*;
use crate::ids::{PlanarBodyId, PlanarFeatureId, PlanarSourceId};
use crate::linkage::{
    driver_values_error, finite_bits, is_finite_bits, point_finite, pose_finite, positive_finite_bits, Linkage,
    PlanarBits, PlaneFrameBits, PoseBits,
};
use crate::model::LinkageError;
use crate::idmap::{lemma_runtime_of_first, runtime_of};
use crate::planar::{
    body_ids, feature_ids, feature_owner, incident_bodies, lowered_axis, lowered_body, lowered_point,
    reference_body, lemma_identities_accepted, lemma_owners_known, structure_keys, structure_valid,
    PlanarField, PlanarLinkageError, PlanarLinkageRuntimeMap, PlanarReferenceKind, PlanarRuntimeFeature,
    PlanarSourceRecord, PlanarSourceTopology, PlanarStructure,
};
use crate::planar_lowering::{lowered_into, PlanarSourceValues};
use crate::linkage::JointKind;
use crate::model::{BranchMonitor, DriverKind};
use crate::planar::{
    lemma_valid_structure, reference_resolves, source_definition, source_lowering, source_references,
    PlanarRuntimeSource, PlanarRuntimeSourceTopology,
};
use crate::planar_lowering::{body_projection, driver_projection, lower_source_into};
use crate::planar::is_driver;
use crate::runtime_ids::BodyId;
use crate::text::is_blank;

verus! {

/// The continuous values of a document, as the bits of their doubles, in the
/// document's own order: the model scale and work plane (with the verdict on
/// the plane), one accepted pose per body, one local point per point feature,
/// one normalized axis per axis feature (`None` when it is not finite and
/// nonzero), and per source its continuous parameters and accepted target.
#[derive(Clone, Debug, PartialEq, Eq)]
pub struct PlanarLoweringValues {
    pub model_scale: u64,
    pub plane_frame: PlaneFrameBits,
    pub frame_rejection: Option<&'static str>,
    pub body_poses: Vec<PoseBits>,
    pub point_locals: Vec<PlanarBits>,
    pub axis_locals: Vec<Option<PlanarBits>>,
    pub source_values: Vec<PlanarSourceValues>,
    pub source_targets: Vec<Option<u64>>,
}

/// The values list one entry per object of the structure.
pub open spec fn values_fit(s: PlanarStructure, v: PlanarLoweringValues) -> bool {
    &&& v.body_poses@.len() == s.bodies@.len()
    &&& v.point_locals@.len() == s.point_features@.len()
    &&& v.axis_locals@.len() == s.axis_features@.len()
    &&& v.source_values@.len() == s.sources@.len()
    &&& v.source_targets@.len() == s.sources@.len()
}

/// The first rejection of accepted numbers: a body pose that is not finite,
/// then a driver target that is not finite.
pub open spec fn accepted_numbers_error(poses: Seq<PoseBits>, targets: Seq<u64>) -> Option<PlanarLinkageError> {
    if exists|i: int| 0 <= i < poses.len() && !pose_finite(#[trigger] poses[i]) {
        Some(PlanarLinkageError::InvalidField(PlanarField::BodyStatePose))
    } else if exists|k: int| 0 <= k < targets.len() && !finite_bits(#[trigger] targets[k]) {
        Some(PlanarLinkageError::InvalidField(PlanarField::DriverStateTarget))
    } else {
        None
    }
}

/// Checks that accepted body poses and driver targets are finite, from the
/// bits of their doubles.
pub fn check_accepted_numbers(poses: &Vec<PoseBits>, targets: &Vec<u64>) -> (result: Result<(), PlanarLinkageError>)
    ensures
        match accepted_numbers_error(poses@, targets@) {
            Some(e) => result == Err::<(), _>(e),
            None => result is Ok,
        },
{
    let mut i: usize = 0;
    while i < poses.len()
        invariant
            i <= poses@.len(),
            forall|j: int| 0 <= j < i ==> pose_finite(#[trigger] poses@[j]),
        decreases poses@.len() - i,
    {
        let pose = poses[i];
        if !(is_finite_bits(pose.x) && is_finite_bits(pose.y) && is_finite_bits(pose.angle)) {
            return Err(PlanarLinkageError::InvalidField(PlanarField::BodyStatePose));
        }
        i = i + 1;
    }
    let mut k: usize = 0;
    while k < targets.len()
        invariant
            k <= targets@.len(),
            forall|j: int| 0 <= j < poses@.len() ==> pose_finite(#[trigger] poses@[j]),
            forall|j: int| 0 <= j < k ==> finite_bits(#[trigger] targets@[j]),
        decreases targets@.len() - k,
    {
        if !is_finite_bits(targets[k]) {
            return Err(PlanarLinkageError::InvalidField(PlanarField::DriverStateTarget));
        }
        k = k + 1;
    }
    Ok(())
}

/// Whether a physical ground source grounds the body.
pub open spec fn grounded_in(sources: Seq<PlanarSourceRecord>, body: PlanarBodyId) -> bool {
    exists|j: int| 0 <= j < sources.len() && sources[j].definition == (PlanarSourceTopology::PhysicalGround { body })
}

/// The first rejection among `f(0)`, ..., `f(n - 1)`.
pub open spec fn first_of<T>(f: spec_fn(int) -> Option<T>, n: int) -> Option<T>
    decreases n,
{
    if n <= 0 {
        None
    } else {
        match first_of(f, n - 1) {
            Some(e) => Some(e),
            None => f(n - 1),
        }
    }
}

/// The rejection of body `i`: a non-finite pose, then a blank label.
pub open spec fn body_rejections(s: PlanarStructure, v: PlanarLoweringValues) -> spec_fn(int) -> Option<LinkageError> {
    |i: int| if !pose_finite(v.body_poses@[i]) {
        Some(LinkageError::NonFinitePose { context: "rigid body" })
    } else if is_blank(s.bodies@[i].label@) {
        Some(LinkageError::EmptyLabel("rigid body"))
    } else {
        None
    }
}

proof fn lemma_first_of_stable<T>(f: spec_fn(int) -> Option<T>, m: int, n: int)
    requires
        0 <= m <= n,
        first_of(f, m) is Some,
    ensures
        first_of(f, n) == first_of(f, m),
    decreases n,
{
    if n > m {
        lemma_first_of_stable(f, m, n - 1);
    }
}

/// Body `i` of the document stands in the linkage under the runtime body
/// `entry` pairs it with, with its label, accepted pose and grounding.
pub open spec fn body_lowered(s: PlanarStructure, v: PlanarLoweringValues, linkage: Linkage, entry: (PlanarBodyId, BodyId), i: int) -> bool {
    &&& entry.0 == s.bodies@[i].id
    &&& linkage.body_map().contains_key(entry.1.0)
    &&& linkage.body_map()[entry.1.0].label@ == s.bodies@[i].label@
    &&& linkage.body_map()[entry.1.0].pose == v.body_poses@[i]
    &&& linkage.body_map()[entry.1.0].grounded == grounded_in(s.sources@, s.bodies@[i].id)
}

/// The runtime keys of a list of identity pairs.
pub open spec fn body_keys_of(entries: Seq<(PlanarBodyId, BodyId)>) -> Seq<u64> {
    entries.map_values(|e: (PlanarBodyId, BodyId)| e.1.0)
}

/// The first `n` bodies of the document stand in the linkage, in order, and
/// nothing else does.
pub open spec fn bodies_lowered(s: PlanarStructure, v: PlanarLoweringValues, linkage: Linkage, entries: Seq<(PlanarBodyId, BodyId)>, n: int) -> bool {
    &&& entries.len() == n
    &&& linkage.body_keys() == body_keys_of(entries)
    &&& forall|i: int| 0 <= i < n ==> body_lowered(s, v, linkage, #[trigger] entries[i], i)
    &&& forall|i: int, j: int| 0 <= i < n && 0 <= j < n && i != j ==> #[trigger] entries[i].1 != #[trigger] entries[j].1
}

/// Whether a physical ground source grounds the body.
fn is_grounded(s: &PlanarStructure, body: PlanarBodyId) -> (grounded: bool)
    ensures
        grounded == grounded_in(s.sources@, body),
{
    let mut j: usize = 0;
    while j < s.sources.len()
        invariant
            j <= s.sources@.len(),
            forall|k: int| 0 <= k < j ==> s.sources@[k].definition != (PlanarSourceTopology::PhysicalGround { body }),
        decreases s.sources@.len() - j,
    {
        if let PlanarSourceTopology::PhysicalGround { body: b } = s.sources[j].definition {
            if b == body {
                return true;
            }
        }
        j = j + 1;
    }
    false
}

/// Adds every body of the document, in order, pairing each with its runtime
/// body; stops at the first rejected body.
fn lower_bodies(linkage: &mut Linkage, map: &mut PlanarLinkageRuntimeMap, s: &PlanarStructure, v: &PlanarLoweringValues) -> (result: Result<(), PlanarLinkageError>)
    requires
        old(linkage).wf(),
        old(linkage).body_map().is_empty(),
        old(linkage).body_keys().len() == 0,
        old(map).bodies@.len() == 0,
        values_fit(*s, *v),
        s.bodies@.len() < u32::MAX - 2,
    ensures
        first_of(body_rejections(*s, *v), s.bodies@.len() as int) matches Some(e) ==> result == Err::<(), _>(PlanarLinkageError::Linkage(e)),
        first_of(body_rejections(*s, *v), s.bodies@.len() as int) is None ==> {
            &&& result is Ok
            &&& final(linkage).wf()
            &&& old(linkage).only_bodies_differ(*final(linkage))
            &&& bodies_lowered(*s, *v, *final(linkage), final(map).bodies@, s.bodies@.len() as int)
            &&& final(map).features@ == old(map).features@
            &&& final(map).sources@ == old(map).sources@
        },
{
    let ghost start = *linkage;
    proof {
        assert(body_keys_of(map.bodies@) =~= linkage.body_keys());
    }
    let mut i: usize = 0;
    while i < s.bodies.len()
        invariant
            values_fit(*s, *v),
            s.bodies@.len() < u32::MAX - 2,
            i <= s.bodies@.len(),
            linkage.wf(),
            start.only_bodies_differ(*linkage),
            first_of(body_rejections(*s, *v), i as int) is None,
            bodies_lowered(*s, *v, *linkage, map.bodies@, i as int),
            linkage.body_map().dom().len() <= i,
            map.features@ == old(map).features@,
            map.sources@ == old(map).sources@,
        decreases s.bodies@.len() - i,
    {
        let body = &s.bodies[i];
        let grounded = is_grounded(s, body.id);
        let ghost before = *linkage;
        let ghost entries = map.bodies@;
        proof {
            assert(linkage.body_map().len() < u32::MAX - 1);
        }
        match linkage.add_body(body.label.as_str(), v.body_poses[i], grounded) {
            Ok(runtime) => {
                map.push_body(body.id, runtime);
                proof {
                    assert(body_rejections(*s, *v)(i as int) is None);
                    assert(first_of(body_rejections(*s, *v), i + 1) is None);
                    assert(body_keys_of(map.bodies@) =~= body_keys_of(entries).push(runtime.0));
                    assert forall|j: int| 0 <= j < i + 1 implies body_lowered(*s, *v, *linkage, #[trigger] map.bodies@[j], j) by {
                        if j < i {
                            assert(map.bodies@[j] == entries[j]);
                            assert(body_lowered(*s, *v, before, entries[j], j));
                        }
                    }
                    assert(linkage.body_map().dom() =~= before.body_map().dom().insert(runtime.0));
                    assert forall|a: int, b: int| 0 <= a < i + 1 && 0 <= b < i + 1 && a != b implies #[trigger] map.bodies@[a].1 != #[trigger] map.bodies@[b].1 by {
                        if a < i && b < i {
                            assert(map.bodies@[a] == entries[a]);
                            assert(map.bodies@[b] == entries[b]);
                        } else if a < i {
                            assert(body_lowered(*s, *v, before, entries[a], a));
                            assert(map.bodies@[a] == entries[a]);
                        } else {
                            assert(body_lowered(*s, *v, before, entries[b], b));
                            assert(map.bodies@[b] == entries[b]);
                        }
                    }
                }
            },
            Err(e) => {
                proof {
                    assert(first_of(body_rejections(*s, *v), i + 1) == Some(e));
                    lemma_first_of_stable(body_rejections(*s, *v), i + 1, s.bodies@.len() as int);
                }
                return Err(PlanarLinkageError::Linkage(e));
            },
        }
        i = i + 1;
    }
    Ok(())
}

/// The identities of a valid structure are distinct, and every feature is
/// owned by one of its bodies.
proof fn lemma_lowering_facts(s: PlanarStructure)
    requires
        structure_valid(s),
    ensures
        forall|i: int, j: int| 0 <= i < s.bodies@.len() && 0 <= j < s.bodies@.len() && i != j ==> #[trigger] s.bodies@[i].id != #[trigger] s.bodies@[j].id,
        forall|i: int, j: int| 0 <= i < s.point_features@.len() && 0 <= j < s.point_features@.len() && i != j ==> #[trigger] s.point_features@[i].id != #[trigger] s.point_features@[j].id,
        forall|i: int, j: int| 0 <= i < s.axis_features@.len() && 0 <= j < s.axis_features@.len() && i != j ==> #[trigger] s.axis_features@[i].id != #[trigger] s.axis_features@[j].id,
        forall|i: int, j: int| 0 <= i < s.point_features@.len() && 0 <= j < s.axis_features@.len() ==> #[trigger] s.point_features@[i].id.0 != #[trigger] s.axis_features@[j].id.0,
        forall|k: int| 0 <= k < s.point_features@.len() ==> body_ids(s).contains(#[trigger] s.point_features@[k].body.0),
        forall|k: int| 0 <= k < s.axis_features@.len() ==> body_ids(s).contains(#[trigger] s.axis_features@[k].body.0),
{
    let keys = structure_keys(s);
    lemma_identities_accepted(set![s.id.0], keys);
    let nb = s.bodies@.len() as int;
    let np = s.point_features@.len() as int;
    assert forall|i: int| 0 <= i < nb implies #[trigger] keys[i].0 == s.bodies@[i].id.0 by {}
    assert forall|i: int| 0 <= i < np implies #[trigger] keys[nb + i].0 == s.point_features@[i].id.0 by {}
    assert forall|i: int| 0 <= i < s.axis_features@.len() implies #[trigger] keys[nb + np + i].0 == s.axis_features@[i].id.0 by {}
    assert forall|i: int, j: int| 0 <= i < nb && 0 <= j < nb && i != j implies #[trigger] s.bodies@[i].id != #[trigger] s.bodies@[j].id by {
        assert(keys[i].0 == s.bodies@[i].id.0);
        assert(keys[j].0 == s.bodies@[j].id.0);
    }
    assert forall|i: int, j: int| 0 <= i < np && 0 <= j < np && i != j implies #[trigger] s.point_features@[i].id != #[trigger] s.point_features@[j].id by {
        assert(keys[nb + i].0 == s.point_features@[i].id.0);
        assert(keys[nb + j].0 == s.point_features@[j].id.0);
    }
    assert forall|i: int, j: int| 0 <= i < s.axis_features@.len() && 0 <= j < s.axis_features@.len() && i != j implies #[trigger] s.axis_features@[i].id != #[trigger] s.axis_features@[j].id by {
        assert(keys[nb + np + i].0 == s.axis_features@[i].id.0);
        assert(keys[nb + np + j].0 == s.axis_features@[j].id.0);
    }
    assert forall|i: int, j: int| 0 <= i < np && 0 <= j < s.axis_features@.len() implies #[trigger] s.point_features@[i].id.0 != #[trigger] s.axis_features@[j].id.0 by {
        assert(keys[nb + i].0 == s.point_features@[i].id.0);
        assert(keys[nb + np + j].0 == s.axis_features@[j].id.0);
    }
    lemma_owners_known(body_ids(s), s.point_features@);
    lemma_owners_known(body_ids(s), s.axis_features@);
}

/// The runtime key of a feature entry.
pub open spec fn feature_key(entry: (PlanarFeatureId, PlanarRuntimeFeature)) -> u64 {
    match entry.1 {
        PlanarRuntimeFeature::Point(p) => p.0,
        PlanarRuntimeFeature::Axis(a) => a.0,
    }
}

/// The runtime keys of a list of feature entries.
pub open spec fn feature_keys_of(entries: Seq<(PlanarFeatureId, PlanarRuntimeFeature)>) -> Seq<u64> {
    entries.map_values(|e: (PlanarFeatureId, PlanarRuntimeFeature)| feature_key(e))
}

/// The rejection of point feature `i`: a non-finite point, then a blank label.
pub open spec fn point_rejections(s: PlanarStructure, v: PlanarLoweringValues) -> spec_fn(int) -> Option<LinkageError> {
    |i: int| if !point_finite(v.point_locals@[i]) {
        Some(LinkageError::NonFinitePoint { context: "point feature" })
    } else if is_blank(s.point_features@[i].label@) {
        Some(LinkageError::EmptyLabel("point feature"))
    } else {
        None
    }
}

/// The rejection of axis feature `i`: an axis that is not finite and
/// nonzero, then a blank label.
pub open spec fn axis_rejections(s: PlanarStructure, v: PlanarLoweringValues) -> spec_fn(int) -> Option<LinkageError> {
    |i: int| if v.axis_locals@[i] is None {
        Some(LinkageError::InvalidAxis { context: "axis feature" })
    } else if is_blank(s.axis_features@[i].label@) {
        Some(LinkageError::EmptyLabel("axis feature"))
    } else {
        None
    }
}

/// Point feature `i` of the document stands in the linkage under the runtime
/// feature `entry` pairs it with, on the runtime body of its owner.
pub open spec fn point_lowered(
    s: PlanarStructure,
    v: PlanarLoweringValues,
    linkage: Linkage,
    bodies: Seq<(PlanarBodyId, BodyId)>,
    entry: (PlanarFeatureId, PlanarRuntimeFeature),
    i: int,
) -> bool {
    &&& entry.0 == s.point_features@[i].id
    &&& entry.1 is Point
    &&& linkage.point_map().contains_key(feature_key(entry))
    &&& linkage.point_map()[feature_key(entry)].label@ == s.point_features@[i].label@
    &&& runtime_of(bodies, s.point_features@[i].body) == Some(linkage.point_map()[feature_key(entry)].body)
    &&& linkage.point_map()[feature_key(entry)].local_point == v.point_locals@[i]
}

/// Axis feature `i` of the document stands in the linkage under the runtime
/// feature `entry` pairs it with, on the runtime body of its owner.
pub open spec fn axis_lowered(
    s: PlanarStructure,
    v: PlanarLoweringValues,
    linkage: Linkage,
    bodies: Seq<(PlanarBodyId, BodyId)>,
    entry: (PlanarFeatureId, PlanarRuntimeFeature),
    i: int,
) -> bool {
    &&& entry.0 == s.axis_features@[i].id
    &&& entry.1 is Axis
    &&& linkage.axis_map().contains_key(feature_key(entry))
    &&& linkage.axis_map()[feature_key(entry)].label@ == s.axis_features@[i].label@
    &&& runtime_of(bodies, s.axis_features@[i].body) == Some(linkage.axis_map()[feature_key(entry)].body)
    &&& Some(linkage.axis_map()[feature_key(entry)].local_axis) == v.axis_locals@[i]
}

/// The first `n` point features stand in the linkage, in order, as the
/// first `n` feature entries, and no other point feature does.
pub open spec fn points_lowered(
    s: PlanarStructure,
    v: PlanarLoweringValues,
    linkage: Linkage,
    bodies: Seq<(PlanarBodyId, BodyId)>,
    entries: Seq<(PlanarFeatureId, PlanarRuntimeFeature)>,
    n: int,
) -> bool {
    &&& entries.len() >= n
    &&& linkage.point_keys() == feature_keys_of(entries.take(n))
    &&& forall|i: int| 0 <= i < n ==> point_lowered(s, v, linkage, bodies, #[trigger] entries[i], i)
    &&& forall|a: int, b: int| 0 <= a < b < n ==> feature_key(#[trigger] entries[a]) != feature_key(#[trigger] entries[b])
}

/// The first `n` axis features stand in the linkage, in order, as the feature
/// entries after the `offset` point features, and no other axis feature does.
pub open spec fn axes_lowered(
    s: PlanarStructure,
    v: PlanarLoweringValues,
    linkage: Linkage,
    bodies: Seq<(PlanarBodyId, BodyId)>,
    entries: Seq<(PlanarFeatureId, PlanarRuntimeFeature)>,
    offset: int,
    n: int,
) -> bool {
    &&& entries.len() == offset + n
    &&& linkage.axis_keys() == feature_keys_of(entries.skip(offset))
    &&& forall|i: int| 0 <= i < n ==> axis_lowered(s, v, linkage, bodies, #[trigger] entries[offset + i], i)
    &&& forall|a: int, b: int| 0 <= a < b < n ==> feature_key(#[trigger] entries[offset + a]) != feature_key(#[trigger] entries[offset + b])
}

/// The runtime body of a persistent body of the document, and that the
/// linkage holds it.
proof fn lemma_runtime_body(s: PlanarStructure, v: PlanarLoweringValues, linkage: Linkage, bodies: Seq<(PlanarBodyId, BodyId)>, id: PlanarBodyId)
    requires
        linkage.wf(),
        bodies_lowered(s, v, linkage, bodies, s.bodies@.len() as int),
        body_ids(s).contains(id.0),
    ensures
        runtime_of(bodies, id) is Some,
        linkage.body_map().contains_key((runtime_of(bodies, id)->0).0),
        crate::slots::slot_key((runtime_of(bodies, id)->0).0) == (runtime_of(bodies, id)->0).0,
{
    let j = choose|j: int| 0 <= j < body_ids(s).len() && body_ids(s)[j] == id.0;
    assert(bodies[j].0 == s.bodies@[j].id);
    assert(body_lowered(s, v, linkage, bodies[j], j));
    lemma_runtime_of_first(bodies, id);
    let r = runtime_of(bodies, id)->0;
    let k = choose|k: int| 0 <= k < bodies.len() && bodies[k].0 == id && bodies[k].1 == r && forall|m: int| 0 <= m < k ==> bodies[m].0 != id;
    assert(body_lowered(s, v, linkage, bodies[k], k));
    assert(linkage.body_keys()[k] == r.0);
}

/// Adds every point feature of the document, in order, on the runtime body of
/// its owner; stops at the first rejected feature.
fn lower_points(linkage: &mut Linkage, map: &mut PlanarLinkageRuntimeMap, s: &PlanarStructure, v: &PlanarLoweringValues) -> (result: Result<(), PlanarLinkageError>)
    requires
        old(linkage).wf(),
        old(linkage).point_map().is_empty(),
        old(linkage).point_keys().len() == 0,
        old(map).features@.len() == 0,
        bodies_lowered(*s, *v, *old(linkage), old(map).bodies@, s.bodies@.len() as int),
        forall|k: int| 0 <= k < s.point_features@.len() ==> body_ids(*s).contains(#[trigger] s.point_features@[k].body.0),
        values_fit(*s, *v),
        s.point_features@.len() < u32::MAX - 2,
    ensures
        first_of(point_rejections(*s, *v), s.point_features@.len() as int) matches Some(e) ==> result == Err::<(), _>(PlanarLinkageError::Linkage(e)),
        first_of(point_rejections(*s, *v), s.point_features@.len() as int) is None ==> {
            &&& result is Ok
            &&& final(linkage).wf()
            &&& old(linkage).only_points_differ(*final(linkage))
            &&& points_lowered(*s, *v, *final(linkage), final(map).bodies@, final(map).features@, s.point_features@.len() as int)
            &&& bodies_lowered(*s, *v, *final(linkage), final(map).bodies@, s.bodies@.len() as int)
            &&& final(map).features@.len() == s.point_features@.len()
            &&& final(map).bodies@ == old(map).bodies@
            &&& final(map).sources@ == old(map).sources@
        },
{
    let ghost start = *linkage;
    proof {
        assert(feature_keys_of(map.features@.take(0)) =~= linkage.point_keys());
    }
    let mut i: usize = 0;
    while i < s.point_features.len()
        invariant
            values_fit(*s, *v),
            s.point_features@.len() < u32::MAX - 2,
            forall|k: int| 0 <= k < s.point_features@.len() ==> body_ids(*s).contains(#[trigger] s.point_features@[k].body.0),
            i <= s.point_features@.len(),
            linkage.wf(),
            start.only_points_differ(*linkage),
            bodies_lowered(*s, *v, *linkage, map.bodies@, s.bodies@.len() as int),
            first_of(point_rejections(*s, *v), i as int) is None,
            map.features@.len() == i,
            points_lowered(*s, *v, *linkage, map.bodies@, map.features@, i as int),
            linkage.point_map().dom().len() <= i,
            map.bodies@ == old(map).bodies@,
            map.sources@ == old(map).sources@,
        decreases s.point_features@.len() - i,
    {
        let feature = &s.point_features[i];
        let ghost before = *linkage;
        let ghost entries = map.features@;
        proof {
            lemma_runtime_body(*s, *v, *linkage, map.bodies@, feature.body);
            assert(linkage.point_map().len() < u32::MAX - 1);
        }
        let body = match map.runtime_body(feature.body) {
            Some(body) => body,
            None => {
                return Err(PlanarLinkageError::UnknownReference { kind: PlanarReferenceKind::Body, id: feature.body.0 });
            },
        };
        match linkage.add_point_feature(feature.label.as_str(), body, v.point_locals[i]) {
            Ok(runtime) => {
                map.push_feature(feature.id, PlanarRuntimeFeature::Point(runtime));
                proof {
                    assert(point_rejections(*s, *v)(i as int) is None);
                    assert(first_of(point_rejections(*s, *v), i + 1) is None);
                    assert(map.features@.take(i + 1) == map.features@);
                    assert(entries.take(i as int) == entries);
                    assert(feature_keys_of(map.features@) =~= feature_keys_of(entries).push(runtime.0));
                    assert forall|j: int| 0 <= j < i + 1 implies point_lowered(*s, *v, *linkage, map.bodies@, #[trigger] map.features@[j], j) by {
                        if j < i {
                            assert(map.features@[j] == entries[j]);
                            assert(point_lowered(*s, *v, before, map.bodies@, entries[j], j));
                        }
                    }
                    assert forall|a: int, b: int| 0 <= a < b < i + 1 implies feature_key(#[trigger] map.features@[a]) != feature_key(#[trigger] map.features@[b]) by {
                        assert(map.features@[a] == entries[a]);
                        assert(point_lowered(*s, *v, before, map.bodies@, entries[a], a));
                        if b < i {
                            assert(map.features@[b] == entries[b]);
                        }
                    }
                    assert(linkage.point_map().dom() =~= before.point_map().dom().insert(runtime.0));
                    assert forall|j: int| 0 <= j < s.bodies@.len() implies body_lowered(*s, *v, *linkage, #[trigger] map.bodies@[j], j) by {
                        assert(body_lowered(*s, *v, before, map.bodies@[j], j));
                    }
                }
            },
            Err(e) => {
                proof {
                    assert(first_of(point_rejections(*s, *v), i + 1) == Some(e));
                    lemma_first_of_stable(point_rejections(*s, *v), i + 1, s.point_features@.len() as int);
                }
                return Err(PlanarLinkageError::Linkage(e));
            },
        }
        i = i + 1;
    }
    proof {
        assert(map.features@.take(i as int) == map.features@);
    }
    Ok(())
}

/// Adds every axis feature of the document, in order, on the runtime body of
/// its owner, after the point features; stops at the first rejected feature.
fn lower_axes(linkage: &mut Linkage, map: &mut PlanarLinkageRuntimeMap, s: &PlanarStructure, v: &PlanarLoweringValues) -> (result: Result<(), PlanarLinkageError>)
    requires
        old(linkage).wf(),
        old(linkage).axis_map().is_empty(),
        old(linkage).axis_keys().len() == 0,
        old(map).features@.len() == s.point_features@.len(),
        bodies_lowered(*s, *v, *old(linkage), old(map).bodies@, s.bodies@.len() as int),
        points_lowered(*s, *v, *old(linkage), old(map).bodies@, old(map).features@, s.point_features@.len() as int),
        forall|k: int| 0 <= k < s.axis_features@.len() ==> body_ids(*s).contains(#[trigger] s.axis_features@[k].body.0),
        values_fit(*s, *v),
        s.axis_features@.len() < u32::MAX - 2,
    ensures
        first_of(axis_rejections(*s, *v), s.axis_features@.len() as int) matches Some(e) ==> result == Err::<(), _>(PlanarLinkageError::Linkage(e)),
        first_of(axis_rejections(*s, *v), s.axis_features@.len() as int) is None ==> {
            &&& result is Ok
            &&& final(linkage).wf()
            &&& old(linkage).only_axes_differ(*final(linkage))
            &&& points_lowered(*s, *v, *final(linkage), final(map).bodies@, final(map).features@, s.point_features@.len() as int)
            &&& axes_lowered(*s, *v, *final(linkage), final(map).bodies@, final(map).features@, s.point_features@.len() as int, s.axis_features@.len() as int)
            &&& bodies_lowered(*s, *v, *final(linkage), final(map).bodies@, s.bodies@.len() as int)
            &&& final(map).bodies@ == old(map).bodies@
            &&& final(map).sources@ == old(map).sources@
        },
{
    let ghost start = *linkage;
    let ghost np = s.point_features@.len() as int;
    proof {
        assert(feature_keys_of(map.features@.skip(np)) =~= linkage.axis_keys());
    }
    let mut i: usize = 0;
    while i < s.axis_features.len()
        invariant
            values_fit(*s, *v),
            np == s.point_features@.len(),
            s.axis_features@.len() < u32::MAX - 2,
            forall|k: int| 0 <= k < s.axis_features@.len() ==> body_ids(*s).contains(#[trigger] s.axis_features@[k].body.0),
            i <= s.axis_features@.len(),
            linkage.wf(),
            start.only_axes_differ(*linkage),
            bodies_lowered(*s, *v, *linkage, map.bodies@, s.bodies@.len() as int),
            points_lowered(*s, *v, *linkage, map.bodies@, map.features@, np),
            first_of(axis_rejections(*s, *v), i as int) is None,
            axes_lowered(*s, *v, *linkage, map.bodies@, map.features@, np, i as int),
            linkage.axis_map().dom().len() <= i,
            map.bodies@ == old(map).bodies@,
            map.sources@ == old(map).sources@,
        decreases s.axis_features@.len() - i,
    {
        let feature = &s.axis_features[i];
        let ghost before = *linkage;
        let ghost entries = map.features@;
        proof {
            lemma_runtime_body(*s, *v, *linkage, map.bodies@, feature.body);
            assert(linkage.axis_map().len() < u32::MAX - 1);
        }
        let body = match map.runtime_body(feature.body) {
            Some(body) => body,
            None => {
                return Err(PlanarLinkageError::UnknownReference { kind: PlanarReferenceKind::Body, id: feature.body.0 });
            },
        };
        match linkage.add_axis_feature(feature.label.as_str(), body, v.axis_locals[i]) {
            Ok(runtime) => {
                map.push_feature(feature.id, PlanarRuntimeFeature::Axis(runtime));
                proof {
                    assert(axis_rejections(*s, *v)(i as int) is None);
                    assert(first_of(axis_rejections(*s, *v), i + 1) is None);
                    assert(map.features@.skip(np) =~= entries.skip(np).push(map.features@[np + i]));
                    assert(feature_keys_of(map.features@.skip(np)) =~= feature_keys_of(entries.skip(np)).push(runtime.0));
                    assert(map.features@.take(np) =~= entries.take(np));
                    assert forall|j: int| 0 <= j < i + 1 implies axis_lowered(*s, *v, *linkage, map.bodies@, #[trigger] map.features@[np + j], j) by {
                        if j < i {
                            assert(map.features@[np + j] == entries[np + j]);
                            assert(axis_lowered(*s, *v, before, map.bodies@, entries[np + j], j));
                        }
                    }
                    assert forall|a: int, b: int| 0 <= a < b < i + 1 implies feature_key(#[trigger] map.features@[np + a]) != feature_key(#[trigger] map.features@[np + b]) by {
                        assert(map.features@[np + a] == entries[np + a]);
                        assert(axis_lowered(*s, *v, before, map.bodies@, entries[np + a], a));
                        if b < i {
                            assert(map.features@[np + b] == entries[np + b]);
                        }
                    }
                    assert forall|j: int| 0 <= j < np implies point_lowered(*s, *v, *linkage, map.bodies@, #[trigger] map.features@[j], j) by {
                        assert(map.features@[j] == entries[j]);
                        assert(point_lowered(*s, *v, before, map.bodies@, entries[j], j));
                    }
                    assert forall|a: int, b: int| 0 <= a < b < np implies feature_key(#[trigger] map.features@[a]) != feature_key(#[trigger] map.features@[b]) by {
                        assert(map.features@[a] == entries[a]);
                        assert(map.features@[b] == entries[b]);
                    }
                    assert(linkage.axis_map().dom() =~= before.axis_map().dom().insert(runtime.0));
                    assert forall|j: int| 0 <= j < s.bodies@.len() implies body_lowered(*s, *v, *linkage, #[trigger] map.bodies@[j], j) by {
                        assert(body_lowered(*s, *v, before, map.bodies@[j], j));
                    }
                }
            },
            Err(e) => {
                proof {
                    assert(first_of(axis_rejections(*s, *v), i + 1) == Some(e));
                    lemma_first_of_stable(axis_rejections(*s, *v), i + 1, s.axis_features@.len() as int);
                }
                return Err(PlanarLinkageError::Linkage(e));
            },
        }
        i = i + 1;
    }
    Ok(())
}

/// The runtime body that the lowering pairs with persistent body `b`.
pub open spec fn runtime_body_of(map: PlanarLinkageRuntimeMap, b: u128) -> BodyId {
    runtime_of(map.bodies@, PlanarBodyId(b))->0
}

/// What a valid structure guarantees the lowering: distinct identities, and
/// features owned by bodies of the structure.
pub open spec fn lowering_facts(s: PlanarStructure) -> bool {
    &&& forall|i: int, j: int| 0 <= i < s.bodies@.len() && 0 <= j < s.bodies@.len() && i != j ==> #[trigger] s.bodies@[i].id != #[trigger] s.bodies@[j].id
    &&& forall|i: int, j: int| 0 <= i < s.point_features@.len() && 0 <= j < s.point_features@.len() && i != j ==> #[trigger] s.point_features@[i].id != #[trigger] s.point_features@[j].id
    &&& forall|i: int, j: int| 0 <= i < s.axis_features@.len() && 0 <= j < s.axis_features@.len() && i != j ==> #[trigger] s.axis_features@[i].id != #[trigger] s.axis_features@[j].id
    &&& forall|i: int, j: int| 0 <= i < s.point_features@.len() && 0 <= j < s.axis_features@.len() ==> #[trigger] s.point_features@[i].id.0 != #[trigger] s.axis_features@[j].id.0
    &&& forall|k: int| 0 <= k < s.point_features@.len() ==> body_ids(s).contains(#[trigger] s.point_features@[k].body.0)
    &&& forall|k: int| 0 <= k < s.axis_features@.len() ==> body_ids(s).contains(#[trigger] s.axis_features@[k].body.0)
}

/// Every body and feature of the document stands in the linkage.
pub open spec fn base_lowered(s: PlanarStructure, v: PlanarLoweringValues, linkage: Linkage, map: PlanarLinkageRuntimeMap) -> bool {
    &&& linkage.wf()
    &&& bodies_lowered(s, v, linkage, map.bodies@, s.bodies@.len() as int)
    &&& points_lowered(s, v, linkage, map.bodies@, map.features@, s.point_features@.len() as int)
    &&& axes_lowered(s, v, linkage, map.bodies@, map.features@, s.point_features@.len() as int, s.axis_features@.len() as int)
}

proof fn lemma_body_ref(s: PlanarStructure, v: PlanarLoweringValues, linkage: Linkage, map: PlanarLinkageRuntimeMap, b: u128)
    requires
        base_lowered(s, v, linkage, map),
        body_ids(s).contains(b),
    ensures
        lowered_body(map, PlanarBodyId(b)) == Ok::<BodyId, PlanarLinkageError>(runtime_body_of(map, b)),
        linkage.body_map().contains_key(runtime_body_of(map, b).0),
        crate::slots::slot_key(runtime_body_of(map, b).0) == runtime_body_of(map, b).0,
{
    lemma_runtime_body(s, v, linkage, map.bodies@, PlanarBodyId(b));
}

proof fn lemma_body_injective(s: PlanarStructure, v: PlanarLoweringValues, linkage: Linkage, map: PlanarLinkageRuntimeMap, b1: u128, b2: u128)
    requires
        base_lowered(s, v, linkage, map),
        body_ids(s).contains(b1),
        body_ids(s).contains(b2),
        runtime_body_of(map, b1) == runtime_body_of(map, b2),
    ensures
        b1 == b2,
{
    let entries = map.bodies@;
    lemma_runtime_body(s, v, linkage, entries, PlanarBodyId(b1));
    lemma_runtime_body(s, v, linkage, entries, PlanarBodyId(b2));
    lemma_runtime_of_first(entries, PlanarBodyId(b1));
    lemma_runtime_of_first(entries, PlanarBodyId(b2));
    let k1 = choose|k: int| 0 <= k < entries.len() && entries[k].0 == PlanarBodyId(b1) && entries[k].1 == runtime_body_of(map, b1) && forall|m: int| 0 <= m < k ==> entries[m].0 != PlanarBodyId(b1);
    let k2 = choose|k: int| 0 <= k < entries.len() && entries[k].0 == PlanarBodyId(b2) && entries[k].1 == runtime_body_of(map, b2) && forall|m: int| 0 <= m < k ==> entries[m].0 != PlanarBodyId(b2);
    if k1 != k2 {
        assert(entries[k1].1 != entries[k2].1);
    }
}

proof fn lemma_feature_owner_at(features: Seq<crate::planar::PlanarFeatureRecord>, i: int)
    requires
        0 <= i < features.len(),
        forall|j: int| 0 <= j < i ==> features[j].id.0 != features[i].id.0,
    ensures
        feature_owner(features, features[i].id.0) == Some(features[i].body.0),
    decreases i,
{
    if i > 0 {
        assert forall|j: int| 0 <= j < i - 1 implies (#[trigger] features.drop_first()[j]).id.0 != features.drop_first()[i - 1].id.0 by {
            assert(features.drop_first()[j] == features[j + 1]);
        }
        lemma_feature_owner_at(features.drop_first(), i - 1);
        assert(features[0].id.0 != features[i].id.0);
    }
}

proof fn lemma_point_ref(s: PlanarStructure, v: PlanarLoweringValues, linkage: Linkage, map: PlanarLinkageRuntimeMap, f: u128)
    requires
        base_lowered(s, v, linkage, map),
        lowering_facts(s),
        feature_ids(s.point_features@).contains(f),
    ensures
        lowered_point(map, PlanarFeatureId(f)) is Ok,
        linkage.point_map().contains_key((lowered_point(map, PlanarFeatureId(f))->Ok_0).0),
        crate::slots::slot_key((lowered_point(map, PlanarFeatureId(f))->Ok_0).0) == (lowered_point(map, PlanarFeatureId(f))->Ok_0).0,
        body_ids(s).contains(reference_body(s, (PlanarReferenceKind::PointFeature, f))),
        linkage.point_map()[(lowered_point(map, PlanarFeatureId(f))->Ok_0).0].body == runtime_body_of(map, reference_body(s, (PlanarReferenceKind::PointFeature, f))),
{
    let points = s.point_features@;
    let entries = map.features@;
    let np = points.len() as int;
    let i = choose|i: int| 0 <= i < feature_ids(points).len() && feature_ids(points)[i] == f;
    assert(points[i].id.0 == f);
    assert(point_lowered(s, v, linkage, map.bodies@, entries[i], i));
    assert forall|j: int| 0 <= j < i implies points[j].id.0 != points[i].id.0 by {
        assert(points[j].id != points[i].id);
    }
    lemma_feature_owner_at(points, i);
    lemma_runtime_of_first(entries, PlanarFeatureId(f));
    let k = choose|k: int| 0 <= k < entries.len() && entries[k].0 == PlanarFeatureId(f) && entries[k].1 == runtime_of(entries, PlanarFeatureId(f))->0 && forall|m: int| 0 <= m < k ==> entries[m].0 != PlanarFeatureId(f);
    if k < i {
        assert(point_lowered(s, v, linkage, map.bodies@, entries[k], k));
        assert(points[k].id != points[i].id);
    }
    assert(k == i);
    let key = feature_key(entries[i]);
    assert(linkage.point_keys()[i] == feature_keys_of(entries.take(np))[i]);
    assert(feature_keys_of(entries.take(np))[i] == key);
    assert(PlanarBodyId(points[i].body.0) == points[i].body);
}

proof fn lemma_axis_ref(s: PlanarStructure, v: PlanarLoweringValues, linkage: Linkage, map: PlanarLinkageRuntimeMap, f: u128)
    requires
        base_lowered(s, v, linkage, map),
        lowering_facts(s),
        feature_ids(s.axis_features@).contains(f),
    ensures
        lowered_axis(map, PlanarFeatureId(f)) is Ok,
        linkage.axis_map().contains_key((lowered_axis(map, PlanarFeatureId(f))->Ok_0).0),
        crate::slots::slot_key((lowered_axis(map, PlanarFeatureId(f))->Ok_0).0) == (lowered_axis(map, PlanarFeatureId(f))->Ok_0).0,
        body_ids(s).contains(reference_body(s, (PlanarReferenceKind::AxisFeature, f))),
        linkage.axis_map()[(lowered_axis(map, PlanarFeatureId(f))->Ok_0).0].body == runtime_body_of(map, reference_body(s, (PlanarReferenceKind::AxisFeature, f))),
{
    let axes = s.axis_features@;
    let points = s.point_features@;
    let entries = map.features@;
    let np = points.len() as int;
    let i = choose|i: int| 0 <= i < feature_ids(axes).len() && feature_ids(axes)[i] == f;
    assert(axes[i].id.0 == f);
    assert(axis_lowered(s, v, linkage, map.bodies@, entries[np + i], i));
    assert forall|j: int| 0 <= j < i implies axes[j].id.0 != axes[i].id.0 by {
        assert(axes[j].id != axes[i].id);
    }
    lemma_feature_owner_at(axes, i);
    lemma_runtime_of_first(entries, PlanarFeatureId(f));
    let k = choose|k: int| 0 <= k < entries.len() && entries[k].0 == PlanarFeatureId(f) && entries[k].1 == runtime_of(entries, PlanarFeatureId(f))->0 && forall|m: int| 0 <= m < k ==> entries[m].0 != PlanarFeatureId(f);
    if k < np {
        assert(point_lowered(s, v, linkage, map.bodies@, entries[k], k));
        assert(points[k].id.0 != axes[i].id.0);
    } else if k < np + i {
        let m = k - np;
        assert(axis_lowered(s, v, linkage, map.bodies@, entries[np + m], m));
        assert(np + m == k);
        assert(axes[m].id != axes[i].id);
    }
    assert(k == np + i);
    let key = feature_key(entries[np + i]);
    assert(entries.skip(np)[i] == entries[np + i]);
    assert(linkage.axis_keys()[i] == feature_keys_of(entries.skip(np))[i]);
    assert(PlanarBodyId(axes[i].body.0) == axes[i].body);
}

/// Position of the first source with identity `id`.
pub open spec fn source_index(sources: Seq<PlanarSourceRecord>, id: PlanarSourceId) -> int
    decreases sources.len(),
{
    if sources.len() == 0 {
        0
    } else if sources[0].id == id {
        0
    } else {
        1 + source_index(sources.drop_first(), id)
    }
}

pub(crate) proof fn lemma_source_index(sources: Seq<PlanarSourceRecord>, id: PlanarSourceId, j: int)
    requires
        0 <= j < sources.len(),
        sources[j].id == id,
    ensures
        0 <= source_index(sources, id) <= j,
        sources[source_index(sources, id)].id == id,
    decreases sources.len(),
{
    if sources[0].id != id {
        lemma_source_index(sources.drop_first(), id, j - 1);
        assert(sources.drop_first()[source_index(sources.drop_first(), id)] == sources[source_index(sources, id)]);
    }
}

/// The rejection of a source of the document, from its own references,
/// values, label and accepted target: a driver without a target, then the
/// bodies its references stand for (one body twice, or a feature on another
/// body than it must be), then its values and label.
pub open spec fn source_rejection(s: PlanarStructure, record: PlanarSourceRecord, values: PlanarSourceValues, target: Option<u64>) -> Option<PlanarLinkageError> {
    let b = incident_bodies(s, record.definition);
    let label = record.label@;
    match record.definition {
        PlanarSourceTopology::PhysicalGround { .. } => None,
        PlanarSourceTopology::Revolute { .. } => if b[0] == b[1] {
            Some(PlanarLinkageError::Linkage(LinkageError::RepeatedBody))
        } else if is_blank(label) {
            Some(PlanarLinkageError::Linkage(LinkageError::EmptyLabel("joint")))
        } else {
            None
        },
        PlanarSourceTopology::Weld { .. } => if b[0] == b[1] {
            Some(PlanarLinkageError::Linkage(LinkageError::RepeatedBody))
        } else if !finite_bits(values.relative_angle) {
            Some(PlanarLinkageError::Linkage(LinkageError::NonFiniteValue { context: "weld relative angle", value: values.relative_angle }))
        } else if is_blank(label) {
            Some(PlanarLinkageError::Linkage(LinkageError::EmptyLabel("joint")))
        } else {
            None
        },
        PlanarSourceTopology::Prismatic { .. } => if b[0] != b[1] || b[2] != b[3] {
            Some(PlanarLinkageError::Linkage(LinkageError::PrismaticFeatureBodyMismatch))
        } else if b[0] == b[2] {
            Some(PlanarLinkageError::Linkage(LinkageError::RepeatedBody))
        } else if is_blank(label) {
            Some(PlanarLinkageError::Linkage(LinkageError::EmptyLabel("joint")))
        } else {
            None
        },
        PlanarSourceTopology::AngularDriver { .. } => match target {
            None => Some(PlanarLinkageError::IncompleteAcceptedState),
            Some(t) => if b[0] == b[1] {
                Some(PlanarLinkageError::Linkage(LinkageError::RepeatedBody))
            } else {
                match driver_values_error(t, values.max_continuation_step, label) {
                    Some(e) => Some(PlanarLinkageError::Linkage(e)),
                    None => None,
                }
            },
        },
        PlanarSourceTopology::LinearDriver { .. } => match target {
            None => Some(PlanarLinkageError::IncompleteAcceptedState),
            Some(t) => if b[0] != b[2] {
                Some(PlanarLinkageError::Linkage(LinkageError::LinearDriverFeatureBodyMismatch))
            } else if b[0] == b[1] {
                Some(PlanarLinkageError::Linkage(LinkageError::RepeatedBody))
            } else {
                match driver_values_error(t, values.max_continuation_step, label) {
                    Some(e) => Some(PlanarLinkageError::Linkage(e)),
                    None => None,
                }
            },
        },
        PlanarSourceTopology::OrientationBranch { .. } => None,
        PlanarSourceTopology::DirectedDisplacementBranch { .. } => if b[2] != b[0] {
            Some(PlanarLinkageError::Linkage(LinkageError::LinearDriverFeatureBodyMismatch))
        } else {
            None
        },
    }
}

/// `after` is `before` with the source of resolved references `t` added
/// under `label`, as `runtime` names it: a physical ground adds nothing.
pub open spec fn source_added(
    before: Linkage,
    after: Linkage,
    label: Seq<char>,
    t: PlanarRuntimeSourceTopology,
    values: PlanarSourceValues,
    target: u64,
    runtime: PlanarRuntimeSource,
) -> bool {
    match t {
        PlanarRuntimeSourceTopology::PhysicalGround { body } => runtime == PlanarRuntimeSource::Ground(body) && after == before,
        PlanarRuntimeSourceTopology::Revolute { first, second } => runtime matches PlanarRuntimeSource::Joint(j)
            && before.joint_added(after, j.0, label, JointKind::Revolute { first, second }),
        PlanarRuntimeSourceTopology::Prismatic { first_anchor, first_axis, second_anchor, second_axis, axis_branch } => runtime
            matches PlanarRuntimeSource::Joint(j) && before.joint_added(
            after,
            j.0,
            label,
            JointKind::Prismatic { first_anchor, first_axis, second_anchor, second_axis, axis_branch },
        ),
        PlanarRuntimeSourceTopology::Weld { first, second } => runtime matches PlanarRuntimeSource::Joint(j)
            && before.joint_added(after, j.0, label, JointKind::Weld { first, second, relative_angle: values.relative_angle }),
        PlanarRuntimeSourceTopology::AngularDriver { reference, driven } => runtime matches PlanarRuntimeSource::Driver(d)
            && before.driver_added(after, d.0, label, DriverKind::Angular { reference, driven }, target, values.max_continuation_step),
        PlanarRuntimeSourceTopology::LinearDriver { origin, measured, guide_axis } => runtime matches PlanarRuntimeSource::Driver(d)
            && before.driver_added(
            after,
            d.0,
            label,
            DriverKind::Linear { origin, measured, guide_axis },
            target,
            values.max_continuation_step,
        ),
        PlanarRuntimeSourceTopology::OrientationBranch { line_start, line_end, observed, sign } => runtime
            matches PlanarRuntimeSource::BranchMonitor(m) && before.monitor_added(
            after,
            m.0,
            BranchMonitor::Orientation { line_start, line_end, observed, sign },
        ),
        PlanarRuntimeSourceTopology::DirectedDisplacementBranch { origin, measured, axis, sign } => runtime
            matches PlanarRuntimeSource::BranchMonitor(m) && before.monitor_added(
            after,
            m.0,
            BranchMonitor::DirectedDisplacement { origin, measured, axis, sign },
        ),
    }
}

proof fn lemma_source_step(
    s: PlanarStructure,
    v: PlanarLoweringValues,
    before: Linkage,
    after: Linkage,
    map: PlanarLinkageRuntimeMap,
    record: PlanarSourceRecord,
    values: PlanarSourceValues,
    target: Option<u64>,
    result: Result<PlanarRuntimeSource, PlanarLinkageError>,
)
    requires
        base_lowered(s, v, before, map),
        lowering_facts(s),
        forall|m: int| 0 <= m < source_references(record.definition).len() ==> reference_resolves(s, #[trigger] source_references(record.definition)[m]),
        source_lowering(map, record.definition, target is Some) matches Err(e) ==> result == Err::<PlanarRuntimeSource, _>(e) && after == before,
        source_lowering(map, record.definition, target is Some) matches Ok(t) ==> lowered_into(
            before,
            after,
            record.label@,
            t,
            values,
            target.unwrap_or(0),
            result,
        ),
    ensures
        source_rejection(s, record, values, target) matches Some(e) ==> result == Err::<PlanarRuntimeSource, _>(e),
        source_rejection(s, record, values, target) is None ==> {
            &&& result is Ok
            &&& source_lowering(map, record.definition, target is Some) is Ok
            &&& source_added(
                before,
                after,
                record.label@,
                source_lowering(map, record.definition, target is Some)->Ok_0,
                values,
                target.unwrap_or(0),
                result->Ok_0,
            )
        },
{
    let d = record.definition;
    let refs = source_references(d);
    let b = incident_bodies(s, d);
    assert forall|m: int| 0 <= m < refs.len() implies b[m] == reference_body(s, #[trigger] refs[m]) by {}
    match d {
        PlanarSourceTopology::PhysicalGround { body } => {
            assert(reference_resolves(s, refs[0]));
            lemma_body_ref(s, v, before, map, body.0);
        },
        PlanarSourceTopology::Revolute { first, second } => {
            assert(reference_resolves(s, refs[0]));
            assert(reference_resolves(s, refs[1]));
            lemma_point_ref(s, v, before, map, first.0);
            lemma_point_ref(s, v, before, map, second.0);
            if b[0] != b[1] && before.point_map()[(lowered_point(map, first)->Ok_0).0].body == before.point_map()[(lowered_point(map, second)->Ok_0).0].body {
                lemma_body_injective(s, v, before, map, b[0], b[1]);
            }
        },
        PlanarSourceTopology::Weld { first, second } => {
            assert(reference_resolves(s, refs[0]));
            assert(reference_resolves(s, refs[1]));
            lemma_point_ref(s, v, before, map, first.0);
            lemma_point_ref(s, v, before, map, second.0);
            if b[0] != b[1] && before.point_map()[(lowered_point(map, first)->Ok_0).0].body == before.point_map()[(lowered_point(map, second)->Ok_0).0].body {
                lemma_body_injective(s, v, before, map, b[0], b[1]);
            }
        },
        PlanarSourceTopology::Prismatic { first_anchor, first_axis, second_anchor, second_axis, .. } => {
            assert(reference_resolves(s, refs[0]));
            assert(reference_resolves(s, refs[1]));
            assert(reference_resolves(s, refs[2]));
            assert(reference_resolves(s, refs[3]));
            lemma_point_ref(s, v, before, map, first_anchor.0);
            lemma_axis_ref(s, v, before, map, first_axis.0);
            lemma_point_ref(s, v, before, map, second_anchor.0);
            lemma_axis_ref(s, v, before, map, second_axis.0);
            let pa = before.point_map()[(lowered_point(map, first_anchor)->Ok_0).0].body;
            let xa = before.axis_map()[(lowered_axis(map, first_axis)->Ok_0).0].body;
            let pb = before.point_map()[(lowered_point(map, second_anchor)->Ok_0).0].body;
            let xb = before.axis_map()[(lowered_axis(map, second_axis)->Ok_0).0].body;
            if b[0] != b[1] && pa == xa {
                lemma_body_injective(s, v, before, map, b[0], b[1]);
            }
            if b[2] != b[3] && pb == xb {
                lemma_body_injective(s, v, before, map, b[2], b[3]);
            }
            if b[0] != b[2] && pa == pb {
                lemma_body_injective(s, v, before, map, b[0], b[2]);
            }
        },
        PlanarSourceTopology::AngularDriver { reference, driven } => {
            assert(reference_resolves(s, refs[0]));
            assert(reference_resolves(s, refs[1]));
            lemma_body_ref(s, v, before, map, reference.0);
            lemma_body_ref(s, v, before, map, driven.0);
            if b[0] != b[1] && runtime_body_of(map, b[0]) == runtime_body_of(map, b[1]) {
                lemma_body_injective(s, v, before, map, b[0], b[1]);
            }
        },
        PlanarSourceTopology::LinearDriver { origin, measured, guide_axis } => {
            assert(reference_resolves(s, refs[0]));
            assert(reference_resolves(s, refs[1]));
            assert(reference_resolves(s, refs[2]));
            lemma_point_ref(s, v, before, map, origin.0);
            lemma_point_ref(s, v, before, map, measured.0);
            lemma_axis_ref(s, v, before, map, guide_axis.0);
            let po = before.point_map()[(lowered_point(map, origin)->Ok_0).0].body;
            let pm = before.point_map()[(lowered_point(map, measured)->Ok_0).0].body;
            let xg = before.axis_map()[(lowered_axis(map, guide_axis)->Ok_0).0].body;
            if b[0] != b[2] && po == xg {
                lemma_body_injective(s, v, before, map, b[0], b[2]);
            }
            if b[0] != b[1] && po == pm {
                lemma_body_injective(s, v, before, map, b[0], b[1]);
            }
        },
        PlanarSourceTopology::OrientationBranch { line_start, line_end, observed, .. } => {
            assert(reference_resolves(s, refs[0]));
            assert(reference_resolves(s, refs[1]));
            assert(reference_resolves(s, refs[2]));
            lemma_point_ref(s, v, before, map, line_start.0);
            lemma_point_ref(s, v, before, map, line_end.0);
            lemma_point_ref(s, v, before, map, observed.0);
        },
        PlanarSourceTopology::DirectedDisplacementBranch { origin, measured, axis, .. } => {
            assert(reference_resolves(s, refs[0]));
            assert(reference_resolves(s, refs[1]));
            assert(reference_resolves(s, refs[2]));
            lemma_point_ref(s, v, before, map, origin.0);
            lemma_point_ref(s, v, before, map, measured.0);
            lemma_axis_ref(s, v, before, map, axis.0);
            let po = before.point_map()[(lowered_point(map, origin)->Ok_0).0].body;
            let xa = before.axis_map()[(lowered_axis(map, axis)->Ok_0).0].body;
            if b[2] != b[0] && xa == po {
                lemma_body_injective(s, v, before, map, b[2], b[0]);
            }
        },
    }
}

proof fn lemma_source_index_first(sources: Seq<PlanarSourceRecord>, id: PlanarSourceId, i: int)
    requires
        0 <= i < sources.len(),
        sources[i].id == id,
        forall|j: int| 0 <= j < i ==> sources[j].id != id,
    ensures
        source_index(sources, id) == i,
        source_definition(sources, id) == Some(sources[i].definition),
    decreases i,
{
    if i > 0 {
        assert forall|j: int| 0 <= j < i - 1 implies (#[trigger] sources.drop_first()[j]).id != id by {
            assert(sources.drop_first()[j] == sources[j + 1]);
        }
        lemma_source_index_first(sources.drop_first(), id, i - 1);
    }
}

/// Position of the first source with identity `id`.
fn find_source(sources: &Vec<PlanarSourceRecord>, id: PlanarSourceId) -> (index: usize)
    requires
        exists|j: int| 0 <= j < sources@.len() && sources@[j].id == id,
    ensures
        index == source_index(sources@, id),
        index < sources@.len(),
        sources@[index as int].id == id,
        source_definition(sources@, id) == Some(sources@[index as int].definition),
{
    let mut i: usize = 0;
    while i < sources.len()
        invariant
            i <= sources@.len(),
            exists|j: int| 0 <= j < sources@.len() && sources@[j].id == id,
            forall|j: int| 0 <= j < i ==> sources@[j].id != id,
        decreases sources@.len() - i,
    {
        if sources[i].id == id {
            proof {
                lemma_source_index_first(sources@, id, i as int);
            }
            return i;
        }
        i = i + 1;
    }
    proof {
        let j = choose|j: int| 0 <= j < sources@.len() && sources@[j].id == id;
        assert(sources@[j].id != id);
    }
    0
}

/// The rejection of the source at position `k` of the source order.
pub open spec fn source_rejections(s: PlanarStructure, v: PlanarLoweringValues) -> spec_fn(int) -> Option<PlanarLinkageError> {
    |k: int| {
        let r = source_index(s.sources@, s.source_order@[k]);
        source_rejection(s, s.sources@[r], v.source_values@[r], v.source_targets@[r])
    }
}

/// The source of resolved references `t` stands in the linkage as `runtime`
/// names it, with its label, kind and values.
pub open spec fn source_stands(
    linkage: Linkage,
    label: Seq<char>,
    t: PlanarRuntimeSourceTopology,
    values: PlanarSourceValues,
    target: u64,
    runtime: PlanarRuntimeSource,
) -> bool {
    match t {
        PlanarRuntimeSourceTopology::PhysicalGround { body } => runtime == PlanarRuntimeSource::Ground(body),
        PlanarRuntimeSourceTopology::Revolute { first, second } => runtime matches PlanarRuntimeSource::Joint(j) && {
            &&& linkage.joint_map().contains_key(j.0)
            &&& linkage.joint_map()[j.0].label@ == label
            &&& linkage.joint_map()[j.0].kind == JointKind::Revolute { first, second }
        },
        PlanarRuntimeSourceTopology::Prismatic { first_anchor, first_axis, second_anchor, second_axis, axis_branch } => runtime
            matches PlanarRuntimeSource::Joint(j) && {
            &&& linkage.joint_map().contains_key(j.0)
            &&& linkage.joint_map()[j.0].label@ == label
            &&& linkage.joint_map()[j.0].kind == JointKind::Prismatic { first_anchor, first_axis, second_anchor, second_axis, axis_branch }
        },
        PlanarRuntimeSourceTopology::Weld { first, second } => runtime matches PlanarRuntimeSource::Joint(j) && {
            &&& linkage.joint_map().contains_key(j.0)
            &&& linkage.joint_map()[j.0].label@ == label
            &&& linkage.joint_map()[j.0].kind == JointKind::Weld { first, second, relative_angle: values.relative_angle }
        },
        PlanarRuntimeSourceTopology::AngularDriver { reference, driven } => runtime matches PlanarRuntimeSource::Driver(d) && {
            &&& linkage.driver_map().contains_key(d.0)
            &&& linkage.driver_map()[d.0].label@ == label
            &&& linkage.driver_map()[d.0].kind == DriverKind::Angular { reference, driven }
            &&& linkage.driver_map()[d.0].target == target
            &&& linkage.driver_map()[d.0].max_continuation_step == values.max_continuation_step
        },
        PlanarRuntimeSourceTopology::LinearDriver { origin, measured, guide_axis } => runtime matches PlanarRuntimeSource::Driver(d) && {
            &&& linkage.driver_map().contains_key(d.0)
            &&& linkage.driver_map()[d.0].label@ == label
            &&& linkage.driver_map()[d.0].kind == DriverKind::Linear { origin, measured, guide_axis }
            &&& linkage.driver_map()[d.0].target == target
            &&& linkage.driver_map()[d.0].max_continuation_step == values.max_continuation_step
        },
        PlanarRuntimeSourceTopology::OrientationBranch { line_start, line_end, observed, sign } => runtime
            matches PlanarRuntimeSource::BranchMonitor(m) && {
            &&& linkage.monitor_map().contains_key(m.0)
            &&& linkage.monitor_map()[m.0] == BranchMonitor::Orientation { line_start, line_end, observed, sign }
        },
        PlanarRuntimeSourceTopology::DirectedDisplacementBranch { origin, measured, axis, sign } => runtime
            matches PlanarRuntimeSource::BranchMonitor(m) && {
            &&& linkage.monitor_map().contains_key(m.0)
            &&& linkage.monitor_map()[m.0] == BranchMonitor::DirectedDisplacement { origin, measured, axis, sign }
        },
    }
}

/// The source at position `k` of the source order stands in the linkage,
/// with the runtime references its persistent references resolve to.
pub open spec fn source_lowered(s: PlanarStructure, v: PlanarLoweringValues, linkage: Linkage, map: PlanarLinkageRuntimeMap, k: int) -> bool {
    let r = source_index(s.sources@, s.source_order@[k]);
    &&& map.sources@[k].0 == s.source_order@[k]
    &&& source_lowering(map, s.sources@[r].definition, v.source_targets@[r] is Some) matches Ok(t) && source_stands(
        linkage,
        s.sources@[r].label@,
        t,
        v.source_values@[r],
        v.source_targets@[r].unwrap_or(0),
        map.sources@[k].1,
    )
}

/// The runtime joints named by source entries, in order.
pub open spec fn joint_keys_of(entries: Seq<(PlanarSourceId, PlanarRuntimeSource)>) -> Seq<u64>
    decreases entries.len(),
{
    if entries.len() == 0 {
        seq![]
    } else {
        joint_keys_of(entries.drop_last()) + match entries.last().1 {
            PlanarRuntimeSource::Joint(j) => seq![j.0],
            _ => seq![],
        }
    }
}

/// The runtime drivers named by source entries, in order.
pub open spec fn driver_keys_of(entries: Seq<(PlanarSourceId, PlanarRuntimeSource)>) -> Seq<u64>
    decreases entries.len(),
{
    if entries.len() == 0 {
        seq![]
    } else {
        driver_keys_of(entries.drop_last()) + match entries.last().1 {
            PlanarRuntimeSource::Driver(d) => seq![d.0],
            _ => seq![],
        }
    }
}

/// The runtime branch monitors named by source entries, in order.
pub open spec fn monitor_keys_of(entries: Seq<(PlanarSourceId, PlanarRuntimeSource)>) -> Seq<u64>
    decreases entries.len(),
{
    if entries.len() == 0 {
        seq![]
    } else {
        monitor_keys_of(entries.drop_last()) + match entries.last().1 {
            PlanarRuntimeSource::BranchMonitor(m) => seq![m.0],
            _ => seq![],
        }
    }
}

/// The first `n` sources of the source order stand in the linkage, and the
/// linkage's joints, drivers and monitors are exactly theirs, in that order,
/// with joints and drivers numbered from one; joints, drivers and monitors are
/// each added once.
pub open spec fn sources_lowered(s: PlanarStructure, v: PlanarLoweringValues, linkage: Linkage, map: PlanarLinkageRuntimeMap, n: int) -> bool {
    &&& map.sources@.len() == n
    &&& forall|k: int| 0 <= k < n ==> #[trigger] source_lowered(s, v, linkage, map, k)
    &&& forall|a: int, b: int| #![trigger map.sources@[a], map.sources@[b]]
        0 <= a < b < n && !(map.sources@[a].1 is Ground) ==> map.sources@[a].1 != map.sources@[b].1
    &&& linkage.joint_keys() == joint_keys_of(map.sources@)
    &&& linkage.driver_keys() == driver_keys_of(map.sources@)
    &&& linkage.monitor_keys() == monitor_keys_of(map.sources@)
    &&& forall|i: int| 0 <= i < linkage.joint_keys().len() ==> linkage.joint_map().contains_key(#[trigger] linkage.joint_keys()[i])
        && linkage.joint_map()[linkage.joint_keys()[i]].ordinal == i + 1
    &&& forall|i: int| 0 <= i < linkage.driver_keys().len() ==> linkage.driver_map().contains_key(#[trigger] linkage.driver_keys()[i])
        && linkage.driver_map()[linkage.driver_keys()[i]].ordinal == i + 1
    &&& forall|i: int| 0 <= i < linkage.monitor_keys().len() ==> linkage.monitor_map().contains_key(#[trigger] linkage.monitor_keys()[i])
}

/// `a` and `b` hold the same bodies and features.
pub open spec fn same_base(a: Linkage, b: Linkage) -> bool {
    &&& a.body_map() == b.body_map() && a.body_keys() == b.body_keys()
    &&& a.point_map() == b.point_map() && a.point_keys() == b.point_keys()
    &&& a.axis_map() == b.axis_map() && a.axis_keys() == b.axis_keys()
    &&& a.scale() == b.scale() && a.frame() == b.frame()
}

proof fn lemma_base_kept(s: PlanarStructure, v: PlanarLoweringValues, a: Linkage, b: Linkage, map: PlanarLinkageRuntimeMap)
    requires
        base_lowered(s, v, a, map),
        b.wf(),
        same_base(a, b),
    ensures
        base_lowered(s, v, b, map),
{
    assert forall|i: int| 0 <= i < s.bodies@.len() implies body_lowered(s, v, b, #[trigger] map.bodies@[i], i) by {
        assert(body_lowered(s, v, a, map.bodies@[i], i));
    }
    assert forall|i: int| 0 <= i < s.point_features@.len() implies point_lowered(s, v, b, map.bodies@, #[trigger] map.features@[i], i) by {
        assert(point_lowered(s, v, a, map.bodies@, map.features@[i], i));
    }
    let np = s.point_features@.len() as int;
    assert forall|i: int| 0 <= i < s.axis_features@.len() implies axis_lowered(s, v, b, map.bodies@, #[trigger] map.features@[np + i], i) by {
        assert(axis_lowered(s, v, a, map.bodies@, map.features@[np + i], i));
    }
}

proof fn lemma_lowering_ignores_sources(m1: PlanarLinkageRuntimeMap, m2: PlanarLinkageRuntimeMap, d: PlanarSourceTopology, has_target: bool)
    requires
        m1.bodies@ == m2.bodies@,
        m1.features@ == m2.features@,
    ensures
        source_lowering(m1, d, has_target) == source_lowering(m2, d, has_target),
{
    assert(forall|b: PlanarBodyId| lowered_body(m1, b) == lowered_body(m2, b));
    assert(forall|f: PlanarFeatureId| lowered_point(m1, f) == lowered_point(m2, f));
    assert(forall|f: PlanarFeatureId| lowered_axis(m1, f) == lowered_axis(m2, f));
}

/// `b` holds every joint, driver and monitor of `a`, unchanged.
pub open spec fn grows(a: Linkage, b: Linkage) -> bool {
    &&& forall|key: u64| #[trigger] a.joint_map().contains_key(key) ==> b.joint_map().contains_key(key) && b.joint_map()[key] == a.joint_map()[key]
    &&& forall|key: u64| #[trigger] a.driver_map().contains_key(key) ==> b.driver_map().contains_key(key) && b.driver_map()[key] == a.driver_map()[key]
    &&& forall|key: u64| #[trigger] a.monitor_map().contains_key(key) ==> b.monitor_map().contains_key(key) && b.monitor_map()[key] == a.monitor_map()[key]
}

proof fn lemma_stands_kept(a: Linkage, b: Linkage, label: Seq<char>, t: PlanarRuntimeSourceTopology, values: PlanarSourceValues, target: u64, runtime: PlanarRuntimeSource)
    requires
        source_stands(a, label, t, values, target, runtime),
        grows(a, b),
    ensures
        source_stands(b, label, t, values, target, runtime),
{
    match runtime {
        PlanarRuntimeSource::Joint(j) => {
            assert(a.joint_map().contains_key(j.0));
        },
        PlanarRuntimeSource::Driver(d) => {
            assert(a.driver_map().contains_key(d.0));
        },
        PlanarRuntimeSource::BranchMonitor(m) => {
            assert(a.monitor_map().contains_key(m.0));
        },
        _ => {},
    }
}

proof fn lemma_stands_held(linkage: Linkage, label: Seq<char>, t: PlanarRuntimeSourceTopology, values: PlanarSourceValues, target: u64, runtime: PlanarRuntimeSource)
    requires
        source_stands(linkage, label, t, values, target, runtime),
    ensures
        runtime matches PlanarRuntimeSource::Joint(j) ==> linkage.joint_map().contains_key(j.0),
        runtime matches PlanarRuntimeSource::Driver(d) ==> linkage.driver_map().contains_key(d.0),
        runtime matches PlanarRuntimeSource::BranchMonitor(m) ==> linkage.monitor_map().contains_key(m.0),
{
    match t {
        PlanarRuntimeSourceTopology::PhysicalGround { .. } => {},
        PlanarRuntimeSourceTopology::Revolute { .. } => {},
        PlanarRuntimeSourceTopology::Prismatic { .. } => {},
        PlanarRuntimeSourceTopology::Weld { .. } => {},
        PlanarRuntimeSourceTopology::AngularDriver { .. } => {},
        PlanarRuntimeSourceTopology::LinearDriver { .. } => {},
        PlanarRuntimeSourceTopology::OrientationBranch { .. } => {},
        PlanarRuntimeSourceTopology::DirectedDisplacementBranch { .. } => {},
    }
}

proof fn lemma_added_fresh(before: Linkage, after: Linkage, label: Seq<char>, t: PlanarRuntimeSourceTopology, values: PlanarSourceValues, target: u64, runtime: PlanarRuntimeSource)
    requires
        source_added(before, after, label, t, values, target, runtime),
    ensures
        runtime matches PlanarRuntimeSource::Joint(j) ==> !before.joint_map().contains_key(j.0),
        runtime matches PlanarRuntimeSource::Driver(d) ==> !before.driver_map().contains_key(d.0),
        runtime matches PlanarRuntimeSource::BranchMonitor(m) ==> !before.monitor_map().contains_key(m.0),
{
    match t {
        PlanarRuntimeSourceTopology::PhysicalGround { .. } => {},
        PlanarRuntimeSourceTopology::Revolute { .. } => {},
        PlanarRuntimeSourceTopology::Prismatic { .. } => {},
        PlanarRuntimeSourceTopology::Weld { .. } => {},
        PlanarRuntimeSourceTopology::AngularDriver { .. } => {},
        PlanarRuntimeSourceTopology::LinearDriver { .. } => {},
        PlanarRuntimeSourceTopology::OrientationBranch { .. } => {},
        PlanarRuntimeSourceTopology::DirectedDisplacementBranch { .. } => {},
    }
}

proof fn lemma_sources_step(
    s: PlanarStructure,
    v: PlanarLoweringValues,
    before: Linkage,
    after: Linkage,
    map_before: PlanarLinkageRuntimeMap,
    map_after: PlanarLinkageRuntimeMap,
    k: int,
    t: PlanarRuntimeSourceTopology,
    runtime: PlanarRuntimeSource,
)
    requires
        0 <= k < s.source_order@.len(),
        values_fit(s, v),
        0 <= source_index(s.sources@, s.source_order@[k]) < s.sources@.len(),
        sources_lowered(s, v, before, map_before, k),
        map_after.bodies@ == map_before.bodies@,
        map_after.features@ == map_before.features@,
        map_after.sources@ == map_before.sources@.push((s.source_order@[k], runtime)),
        source_lowering(
            map_before,
            s.sources@[source_index(s.sources@, s.source_order@[k])].definition,
            v.source_targets@[source_index(s.sources@, s.source_order@[k])] is Some,
        ) == Ok::<PlanarRuntimeSourceTopology, PlanarLinkageError>(t),
        source_added(
            before,
            after,
            s.sources@[source_index(s.sources@, s.source_order@[k])].label@,
            t,
            v.source_values@[source_index(s.sources@, s.source_order@[k])],
            v.source_targets@[source_index(s.sources@, s.source_order@[k])].unwrap_or(0),
            runtime,
        ),
    ensures
        sources_lowered(s, v, after, map_after, k + 1),
        grows(before, after),
{
    let r = source_index(s.sources@, s.source_order@[k]);
    let label = s.sources@[r].label@;
    let values = v.source_values@[r];
    let target = v.source_targets@[r].unwrap_or(0);
    let entries = map_before.sources@;
    let pushed = map_after.sources@;
    assert(pushed.drop_last() == entries);
    assert(pushed.last() == (s.source_order@[k], runtime));
    assert(grows(before, after)) by {
        match runtime {
            PlanarRuntimeSource::Joint(j) => {
                assert forall|key: u64| #[trigger] before.joint_map().contains_key(key) implies after.joint_map().contains_key(key) && after.joint_map()[key] == before.joint_map()[key] by {
                    assert(key != j.0);
                }
            },
            PlanarRuntimeSource::Driver(d) => {
                assert forall|key: u64| #[trigger] before.driver_map().contains_key(key) implies after.driver_map().contains_key(key) && after.driver_map()[key] == before.driver_map()[key] by {
                    assert(key != d.0);
                }
            },
            PlanarRuntimeSource::BranchMonitor(m) => {
                assert forall|key: u64| #[trigger] before.monitor_map().contains_key(key) implies after.monitor_map().contains_key(key) && after.monitor_map()[key] == before.monitor_map()[key] by {
                    assert(key != m.0);
                }
            },
            _ => {},
        }
    }
    assert(source_stands(after, label, t, values, target, runtime));
    lemma_added_fresh(before, after, label, t, values, target, runtime);
    assert forall|a: int, b: int| 0 <= a < b < k + 1 && !(pushed[a].1 is Ground) implies pushed[a].1 != pushed[b].1 by {
        assert(pushed[a] == entries[a]);
        if b < k {
            assert(pushed[b] == entries[b]);
        } else {
            assert(source_lowered(s, v, before, map_before, a));
            let ra = source_index(s.sources@, s.source_order@[a]);
            let ta = source_lowering(map_before, s.sources@[ra].definition, v.source_targets@[ra] is Some)->Ok_0;
            lemma_stands_held(before, s.sources@[ra].label@, ta, v.source_values@[ra], v.source_targets@[ra].unwrap_or(0), entries[a].1);
        }
    }
    assert forall|q: int| 0 <= q < k + 1 implies #[trigger] source_lowered(s, v, after, map_after, q) by {
        let rq = source_index(s.sources@, s.source_order@[q]);
        lemma_lowering_ignores_sources(map_before, map_after, s.sources@[rq].definition, v.source_targets@[rq] is Some);
        if q < k {
            assert(source_lowered(s, v, before, map_before, q));
            assert(pushed[q] == entries[q]);
            let tq = source_lowering(map_before, s.sources@[rq].definition, v.source_targets@[rq] is Some)->Ok_0;
            lemma_stands_kept(before, after, s.sources@[rq].label@, tq, v.source_values@[rq], v.source_targets@[rq].unwrap_or(0), entries[q].1);
        }
    }
    let old_joints = before.joint_keys();
    let old_drivers = before.driver_keys();
    let old_monitors = before.monitor_keys();
    match runtime {
        PlanarRuntimeSource::Joint(j) => {
            assert(joint_keys_of(pushed) == joint_keys_of(entries).push(j.0));
            assert(driver_keys_of(pushed) == driver_keys_of(entries));
            assert(monitor_keys_of(pushed) == monitor_keys_of(entries));
            assert forall|i: int| 0 <= i < after.joint_keys().len() implies after.joint_map().contains_key(#[trigger] after.joint_keys()[i])
                && after.joint_map()[after.joint_keys()[i]].ordinal == i + 1 by {
                if i < old_joints.len() {
                    assert(after.joint_keys()[i] == old_joints[i]);
                    assert(before.joint_map().contains_key(old_joints[i]));
                }
            }
        },
        PlanarRuntimeSource::Driver(d) => {
            assert(joint_keys_of(pushed) == joint_keys_of(entries));
            assert(driver_keys_of(pushed) == driver_keys_of(entries).push(d.0));
            assert(monitor_keys_of(pushed) == monitor_keys_of(entries));
            assert forall|i: int| 0 <= i < after.driver_keys().len() implies after.driver_map().contains_key(#[trigger] after.driver_keys()[i])
                && after.driver_map()[after.driver_keys()[i]].ordinal == i + 1 by {
                if i < old_drivers.len() {
                    assert(after.driver_keys()[i] == old_drivers[i]);
                    assert(before.driver_map().contains_key(old_drivers[i]));
                }
            }
        },
        PlanarRuntimeSource::BranchMonitor(m) => {
            assert(joint_keys_of(pushed) == joint_keys_of(entries));
            assert(driver_keys_of(pushed) == driver_keys_of(entries));
            assert(monitor_keys_of(pushed) == monitor_keys_of(entries).push(m.0));
            assert forall|i: int| 0 <= i < after.monitor_keys().len() implies after.monitor_map().contains_key(#[trigger] after.monitor_keys()[i]) by {
                if i < old_monitors.len() {
                    assert(after.monitor_keys()[i] == old_monitors[i]);
                    assert(before.monitor_map().contains_key(old_monitors[i]));
                }
            }
        },
        PlanarRuntimeSource::Ground(_) => {
            assert(joint_keys_of(pushed) == joint_keys_of(entries));
            assert(driver_keys_of(pushed) == driver_keys_of(entries));
            assert(monitor_keys_of(pushed) == monitor_keys_of(entries));
        },
    }
}

proof fn lemma_source_definition_found(sources: Seq<PlanarSourceRecord>, id: PlanarSourceId)
    requires
        source_definition(sources, id) is Some,
    ensures
        exists|j: int| 0 <= j < sources.len() && sources[j].id == id,
    decreases sources.len(),
{
    if sources[0].id != id {
        lemma_source_definition_found(sources.drop_first(), id);
        let j = choose|j: int| 0 <= j < sources.drop_first().len() && sources.drop_first()[j].id == id;
        assert(sources[j + 1] == sources.drop_first()[j]);
    }
}

/// Lowers every source in the source order; stops at the first rejection.
fn lower_sources(linkage: &mut Linkage, map: &mut PlanarLinkageRuntimeMap, s: &PlanarStructure, v: &PlanarLoweringValues) -> (result: Result<(), PlanarLinkageError>)
    requires
        structure_valid(*s),
        lowering_facts(*s),
        values_fit(*s, *v),
        base_lowered(*s, *v, *old(linkage), *old(map)),
        old(map).sources@.len() == 0,
        old(linkage).joint_map().is_empty(),
        old(linkage).joint_keys().len() == 0,
        old(linkage).driver_map().is_empty(),
        old(linkage).driver_keys().len() == 0,
        old(linkage).monitor_map().is_empty(),
        old(linkage).monitor_keys().len() == 0,
        s.source_order@.len() < u32::MAX - 2,
    ensures
        first_of(source_rejections(*s, *v), s.source_order@.len() as int) matches Some(e) ==> result == Err::<(), _>(e),
        first_of(source_rejections(*s, *v), s.source_order@.len() as int) is None ==> {
            &&& result is Ok
            &&& final(linkage).wf()
            &&& same_base(*old(linkage), *final(linkage))
            &&& base_lowered(*s, *v, *final(linkage), *final(map))
            &&& sources_lowered(*s, *v, *final(linkage), *final(map), s.source_order@.len() as int)
            &&& final(map).bodies@ == old(map).bodies@
            &&& final(map).features@ == old(map).features@
        },
{
    let ghost start = *linkage;
    proof {
        lemma_valid_structure(*s);
        assert(joint_keys_of(map.sources@) =~= linkage.joint_keys());
        assert(driver_keys_of(map.sources@) =~= linkage.driver_keys());
        assert(monitor_keys_of(map.sources@) =~= linkage.monitor_keys());
    }
    let mut k: usize = 0;
    while k < s.source_order.len()
        invariant
            structure_valid(*s),
            lowering_facts(*s),
            values_fit(*s, *v),
            s.source_order@.len() < u32::MAX - 2,
            forall|q: int| 0 <= q < s.source_order@.len() ==> source_definition(s.sources@, #[trigger] s.source_order@[q]) is Some,
            forall|q: int| 0 <= q < s.source_order@.len() ==> {
                let d = source_definition(s.sources@, #[trigger] s.source_order@[q])->0;
                forall|m: int| 0 <= m < source_references(d).len() ==> reference_resolves(*s, #[trigger] source_references(d)[m])
            },
            k <= s.source_order@.len(),
            linkage.wf(),
            same_base(start, *linkage),
            base_lowered(*s, *v, *linkage, *map),
            first_of(source_rejections(*s, *v), k as int) is None,
            sources_lowered(*s, *v, *linkage, *map, k as int),
            linkage.joint_map().dom().len() <= k,
            linkage.driver_map().dom().len() <= k,
            linkage.monitor_map().dom().len() <= k,
            linkage.joint_keys().len() <= k,
            linkage.driver_keys().len() <= k,
            map.bodies@ == old(map).bodies@,
            map.features@ == old(map).features@,
        decreases s.source_order@.len() - k,
    {
        let id = s.source_order[k];
        proof {
            lemma_source_definition_found(s.sources@, id);
        }
        let r = find_source(&s.sources, id);
        let record = &s.sources[r];
        let ghost before = *linkage;
        let ghost map_before = *map;
        proof {
            assert(source_definition(s.sources@, s.source_order@[k as int]) is Some);
            assert(linkage.joint_map().len() < u32::MAX - 1);
            assert(linkage.driver_map().len() < u32::MAX - 1);
            assert(linkage.monitor_map().len() < u32::MAX - 1);
        }
        let lowered = lower_source_into(linkage, map, record.label.as_str(), record.definition, v.source_values[r], v.source_targets[r]);
        proof {
            lemma_source_step(*s, *v, before, *linkage, map_before, *record, v.source_values@[r as int], v.source_targets@[r as int], lowered);
        }
        match lowered {
            Ok(runtime) => {
                map.push_source(id, runtime);
                proof {
                    let t = source_lowering(map_before, record.definition, v.source_targets@[r as int] is Some)->Ok_0;
                    lemma_sources_step(*s, *v, before, *linkage, map_before, *map, k as int, t, runtime);
                    assert(source_rejections(*s, *v)(k as int) is None);
                    assert(first_of(source_rejections(*s, *v), k + 1) is None);
                    assert(same_base(before, *linkage)) by {
                        match runtime {
                            PlanarRuntimeSource::Ground(_) => {},
                            _ => {},
                        }
                    }
                    lemma_base_kept(*s, *v, before, *linkage, map_before);
                    assert(base_lowered(*s, *v, *linkage, *map));
                    match runtime {
                        PlanarRuntimeSource::Joint(j) => {
                            assert(linkage.joint_map().dom() =~= before.joint_map().dom().insert(j.0));
                        },
                        PlanarRuntimeSource::Driver(d) => {
                            assert(linkage.driver_map().dom() =~= before.driver_map().dom().insert(d.0));
                        },
                        PlanarRuntimeSource::BranchMonitor(m) => {
                            assert(linkage.monitor_map().dom() =~= before.monitor_map().dom().insert(m.0));
                        },
                        _ => {},
                    }
                }
            },
            Err(e) => {
                proof {
                    assert(first_of(source_rejections(*s, *v), k + 1) == Some(e));
                    lemma_first_of_stable(source_rejections(*s, *v), k + 1, s.source_order@.len() as int);
                }
                return Err(e);
            },
        }
        k = k + 1;
    }
    Ok(())
}

/// The first rejection met lowering the document: its model scale and work
/// plane, then its bodies, point features, axis features and sources, each in
/// order (see the rejections of each).
pub open spec fn document_lowering_error(s: PlanarStructure, v: PlanarLoweringValues) -> Option<PlanarLinkageError> {
    if !positive_finite_bits(v.model_scale) {
        Some(PlanarLinkageError::Linkage(LinkageError::InvalidModelScale(v.model_scale)))
    } else {
        match v.frame_rejection {
            Some(message) => Some(PlanarLinkageError::Linkage(LinkageError::InvalidPlaneFrame(message))),
            None => match first_of(body_rejections(s, v), s.bodies@.len() as int) {
                Some(e) => Some(PlanarLinkageError::Linkage(e)),
                None => match first_of(point_rejections(s, v), s.point_features@.len() as int) {
                    Some(e) => Some(PlanarLinkageError::Linkage(e)),
                    None => match first_of(axis_rejections(s, v), s.axis_features@.len() as int) {
                        Some(e) => Some(PlanarLinkageError::Linkage(e)),
                        None => first_of(source_rejections(s, v), s.source_order@.len() as int),
                    },
                },
            },
        }
    }
}

/// `linkage` and `map` are the lowering of the document: the linkage has its
/// scale and work plane, holds its bodies, features and sources and nothing
/// else, and the map pairs each persistent identity with its runtime one, in
/// document order (sources in the source order).
pub open spec fn document_lowered(s: PlanarStructure, v: PlanarLoweringValues, linkage: Linkage, map: PlanarLinkageRuntimeMap) -> bool {
    &&& linkage.scale() == v.model_scale
    &&& linkage.frame() == v.plane_frame
    &&& base_lowered(s, v, linkage, map)
    &&& sources_lowered(s, v, linkage, map, s.source_order@.len() as int)
}

/// Lowers a validated persistent document into a runtime linkage, with the
/// map from its persistent identities to the runtime ones.
pub fn lower_document(s: &PlanarStructure, v: &PlanarLoweringValues) -> (result: Result<(Linkage, PlanarLinkageRuntimeMap), PlanarLinkageError>)
    requires
        structure_valid(*s),
        values_fit(*s, *v),
    ensures
        document_lowering_error(*s, *v) matches Some(e) ==> result == Err::<(Linkage, PlanarLinkageRuntimeMap), _>(e),
        document_lowering_error(*s, *v) is None ==> (result matches Ok((linkage, map)) && document_lowered(*s, *v, linkage, map)),
{
    proof {
        lemma_lowering_facts(*s);
        crate::planar::lemma_valid_structure(*s);
    }
    let mut linkage = match Linkage::new(v.model_scale, v.plane_frame, v.frame_rejection) {
        Ok(linkage) => linkage,
        Err(e) => {
            return Err(PlanarLinkageError::Linkage(e));
        },
    };
    let mut map = PlanarLinkageRuntimeMap::new();
    match lower_bodies(&mut linkage, &mut map, s, v) {
        Ok(()) => {},
        Err(e) => {
            return Err(e);
        },
    }
    match lower_points(&mut linkage, &mut map, s, v) {
        Ok(()) => {},
        Err(e) => {
            return Err(e);
        },
    }
    match lower_axes(&mut linkage, &mut map, s, v) {
        Ok(()) => {},
        Err(e) => {
            return Err(e);
        },
    }
    proof {
        assert(base_lowered(*s, *v, linkage, map));
    }
    match lower_sources(&mut linkage, &mut map, s, v) {
        Ok(()) => {},
        Err(e) => {
            return Err(e);
        },
    }
    Ok((linkage, map))
}

/// Reading the accepted state back from a lowered document gives the
/// document's own: the pose of every body, and the accepted target of every
/// driver that has one.
pub proof fn lemma_lowered_state_reads_back(s: PlanarStructure, v: PlanarLoweringValues, linkage: Linkage, map: PlanarLinkageRuntimeMap)
    requires
        structure_valid(s),
        values_fit(s, v),
        document_lowered(s, v, linkage, map),
    ensures
        forall|i: int| 0 <= i < s.bodies@.len() ==> body_projection(linkage, map, #[trigger] s.bodies@[i].id)
            == Ok::<PoseBits, PlanarLinkageError>(v.body_poses@[i]),
        forall|k: int| 0 <= k < s.source_order@.len() ==> {
            let r = source_index(s.sources@, #[trigger] s.source_order@[k]);
            is_driver(s.sources@[r].definition) && v.source_targets@[r] is Some ==> driver_projection(linkage, map, s.source_order@[k])
                == Ok::<u64, PlanarLinkageError>(v.source_targets@[r]->0)
        },
{
    lemma_lowering_facts(s);
    let entries = map.bodies@;
    assert forall|i: int| 0 <= i < s.bodies@.len() implies body_projection(linkage, map, #[trigger] s.bodies@[i].id)
        == Ok::<PoseBits, PlanarLinkageError>(v.body_poses@[i]) by {
        let id = s.bodies@[i].id;
        assert(body_lowered(s, v, linkage, entries[i], i));
        lemma_runtime_of_first(entries, id);
        let k = choose|k: int| 0 <= k < entries.len() && entries[k].0 == id && entries[k].1 == runtime_of(entries, id)->0 && forall|m: int| 0 <= m < k ==> entries[m].0 != id;
        if k < i {
            assert(body_lowered(s, v, linkage, entries[k], k));
            assert(s.bodies@[k].id != s.bodies@[i].id);
        } else if k > i {
            assert(entries[i].0 == id);
        }
        assert(k == i);
        assert(linkage.body_keys()[i] == entries[i].1.0);
    }
    let order_ids = s.source_order@.map_values(|id: PlanarSourceId| id.0);
    assert(order_ids.no_duplicates());
    let sources = map.sources@;
    assert forall|k: int| 0 <= k < s.source_order@.len() implies {
        let r = source_index(s.sources@, #[trigger] s.source_order@[k]);
        is_driver(s.sources@[r].definition) && v.source_targets@[r] is Some ==> driver_projection(linkage, map, s.source_order@[k])
            == Ok::<u64, PlanarLinkageError>(v.source_targets@[r]->0)
    } by {
        let r = source_index(s.sources@, s.source_order@[k]);
        let id = s.source_order@[k];
        if is_driver(s.sources@[r].definition) && v.source_targets@[r] is Some {
            assert(source_lowered(s, v, linkage, map, k));
            lemma_runtime_of_first(sources, id);
            let q = choose|q: int| 0 <= q < sources.len() && sources[q].0 == id && sources[q].1 == runtime_of(sources, id)->0 && forall|m: int| 0 <= m < q ==> sources[m].0 != id;
            if q != k {
                assert(source_lowered(s, v, linkage, map, q));
                assert(order_ids[q] == order_ids[k]);
            }
            assert(q == k);
            match sources[k].1 {
                PlanarRuntimeSource::Driver(d) => {
                    assert(linkage.driver_map().contains_key(d.0));
                    assert(linkage.driver_keys().contains(d.0));
                    let j = choose|j: int| 0 <= j < linkage.driver_keys().len() && linkage.driver_keys()[j] == d.0;
                    assert(crate::slots::slot_key(linkage.driver_keys()[j]) == linkage.driver_keys()[j]);
                },
                _ => {
                    match s.sources@[r].definition {
                        PlanarSourceTopology::AngularDriver { .. } => {},
                        PlanarSourceTopology::LinearDriver { .. } => {},
                        _ => {},
                    }
                },
            }
        }
    }
}

/// The map a validated document lowers to pairs its bodies one to one, both
/// ways: a persistent body finds a runtime body exactly when that body finds
/// it back.
pub proof fn lemma_lowered_bodies_one_to_one(s: PlanarStructure, v: PlanarLoweringValues, linkage: Linkage, map: PlanarLinkageRuntimeMap)
    requires
        structure_valid(s),
        document_lowered(s, v, linkage, map),
    ensures
        crate::spatial_document::pairs_one_to_one(map.bodies@),
        forall|p: PlanarBodyId, r: BodyId| #![trigger runtime_of(map.bodies@, p), crate::idmap::persistent_of(map.bodies@, r)]
            runtime_of(map.bodies@, p) == Some(r) <==> crate::idmap::persistent_of(map.bodies@, r) == Some(p),
{
    crate::planar::lemma_valid_structure(s);
    let entries = map.bodies@;
    let ids = crate::planar::body_ids(s);
    assert forall|i: int, j: int| 0 <= i < entries.len() && 0 <= j < entries.len() && i != j implies
        #[trigger] entries[i].0 != #[trigger] entries[j].0 && entries[i].1 != entries[j].1 by {
        assert(body_lowered(s, v, linkage, entries[i], i));
        assert(body_lowered(s, v, linkage, entries[j], j));
        assert(ids[i] == s.bodies@[i].id.0 && ids[j] == s.bodies@[j].id.0);
    }
    crate::spatial_document::lemma_one_to_one_bijective(map.bodies@);
}


/// The map a validated document lowers to pairs its point and axis features
/// one to one, both ways: a persistent feature finds a runtime feature exactly
/// when that feature finds it back.
pub proof fn lemma_lowered_features_one_to_one(s: PlanarStructure, v: PlanarLoweringValues, linkage: Linkage, map: PlanarLinkageRuntimeMap)
    requires
        structure_valid(s),
        document_lowered(s, v, linkage, map),
    ensures
        crate::spatial_document::pairs_one_to_one(map.features@),
        forall|p: PlanarFeatureId, r: PlanarRuntimeFeature| #![trigger runtime_of(map.features@, p), crate::idmap::persistent_of(map.features@, r)]
            runtime_of(map.features@, p) == Some(r) <==> crate::idmap::persistent_of(map.features@, r) == Some(p),
{
    lemma_lowering_facts(s);
    let entries = map.features@;
    let np = s.point_features@.len() as int;
    let na = s.axis_features@.len() as int;
    assert forall|i: int, j: int| 0 <= i < entries.len() && 0 <= j < entries.len() && i != j implies
        #[trigger] entries[i].0 != #[trigger] entries[j].0 && entries[i].1 != entries[j].1 by {
        if i < np {
            assert(point_lowered(s, v, linkage, map.bodies@, entries[i], i));
        } else {
            assert(axis_lowered(s, v, linkage, map.bodies@, entries[np + (i - np)], i - np));
        }
        if j < np {
            assert(point_lowered(s, v, linkage, map.bodies@, entries[j], j));
        } else {
            assert(axis_lowered(s, v, linkage, map.bodies@, entries[np + (j - np)], j - np));
        }
        if i < np && j < np {
            assert(s.point_features@[i].id != s.point_features@[j].id);
            if i < j {
                assert(feature_key(entries[i]) != feature_key(entries[j]));
            } else {
                assert(feature_key(entries[j]) != feature_key(entries[i]));
            }
        } else if i >= np && j >= np {
            assert(s.axis_features@[i - np].id != s.axis_features@[j - np].id);
            if i < j {
                assert(feature_key(entries[np + (i - np)]) != feature_key(entries[np + (j - np)]));
            } else {
                assert(feature_key(entries[np + (j - np)]) != feature_key(entries[np + (i - np)]));
            }
        } else if i < np {
            assert(s.point_features@[i].id.0 != s.axis_features@[j - np].id.0);
        } else {
            assert(s.point_features@[j].id.0 != s.axis_features@[i - np].id.0);
        }
    }
    crate::spatial_document::lemma_one_to_one_bijective(map.features@);
}


proof fn lemma_grounds_apart(s: PlanarStructure, grounded: Set<u128>, sources: Seq<PlanarSourceRecord>)
    requires
        crate::planar::source_check_error(s, grounded, sources) is None,
    ensures
        forall|i: int| 0 <= i < sources.len() && (#[trigger] sources[i]).definition is PhysicalGround
            ==> !grounded.contains(sources[i].definition->PhysicalGround_body.0),
        forall|i: int, j: int| 0 <= i < j < sources.len() && (#[trigger] sources[i]).definition is PhysicalGround
            && (#[trigger] sources[j]).definition is PhysicalGround
            ==> sources[i].definition->PhysicalGround_body != sources[j].definition->PhysicalGround_body,
    decreases sources.len(),
{
    if sources.len() > 0 {
        let rest = sources.drop_first();
        let next = match sources[0].definition {
            PlanarSourceTopology::PhysicalGround { body } => grounded.insert(body.0),
            _ => grounded,
        };
        lemma_grounds_apart(s, next, rest);
        assert forall|i: int| 0 < i < sources.len() implies sources[i] == rest[i - 1] by {}
    }
}

proof fn lemma_definition_at_index(sources: Seq<PlanarSourceRecord>, id: PlanarSourceId)
    requires
        source_definition(sources, id) is Some,
    ensures
        source_definition(sources, id) == Some(sources[source_index(sources, id)].definition),
    decreases sources.len(),
{
    if sources[0].id != id {
        let rest = sources.drop_first();
        lemma_definition_at_index(rest, id);
        lemma_source_definition_found(rest, id);
        let j = choose|j: int| 0 <= j < rest.len() && rest[j].id == id;
        lemma_source_index(rest, id, j);
        assert(rest[source_index(rest, id)] == sources[source_index(sources, id)]);
    }
}

/// The map a validated document lowers to pairs its sources one to one, both
/// ways: a persistent source finds a runtime source exactly when that source
/// finds it back.
pub proof fn lemma_lowered_sources_one_to_one(s: PlanarStructure, v: PlanarLoweringValues, linkage: Linkage, map: PlanarLinkageRuntimeMap)
    requires
        structure_valid(s),
        values_fit(s, v),
        document_lowered(s, v, linkage, map),
    ensures
        crate::spatial_document::pairs_one_to_one(map.sources@),
        forall|p: PlanarSourceId, r: PlanarRuntimeSource| #![trigger runtime_of(map.sources@, p), crate::idmap::persistent_of(map.sources@, r)]
            runtime_of(map.sources@, p) == Some(r) <==> crate::idmap::persistent_of(map.sources@, r) == Some(p),
{
    lemma_lowering_facts(s);
    crate::planar::lemma_valid_structure(s);
    lemma_grounds_apart(s, Set::empty(), s.sources@);
    let entries = map.sources@;
    let order_ids = s.source_order@.map_values(|id: PlanarSourceId| id.0);
    assert(order_ids.no_duplicates());
    assert forall|i: int, j: int| 0 <= i < entries.len() && 0 <= j < entries.len() && i != j implies
        #[trigger] entries[i].0 != #[trigger] entries[j].0 && entries[i].1 != entries[j].1 by {
        assert(source_lowered(s, v, linkage, map, i));
        assert(source_lowered(s, v, linkage, map, j));
        assert(order_ids[i] == s.source_order@[i].0 && order_ids[j] == s.source_order@[j].0);
        let (a, b) = if i < j { (i, j) } else { (j, i) };
        if entries[a].1 is Ground && entries[b].1 is Ground {
            let ra = source_index(s.sources@, s.source_order@[a]);
            let rb = source_index(s.sources@, s.source_order@[b]);
            assert(source_definition(s.sources@, s.source_order@[a]) is Some);
            assert(source_definition(s.sources@, s.source_order@[b]) is Some);
            lemma_source_definition_found(s.sources@, s.source_order@[a]);
            lemma_source_definition_found(s.sources@, s.source_order@[b]);
            let ja = choose|j: int| 0 <= j < s.sources@.len() && s.sources@[j].id == s.source_order@[a];
            let jb = choose|j: int| 0 <= j < s.sources@.len() && s.sources@[j].id == s.source_order@[b];
            lemma_source_index(s.sources@, s.source_order@[a], ja);
            lemma_source_index(s.sources@, s.source_order@[b], jb);
            assert(ra != rb);
            assert(source_lowered(s, v, linkage, map, a));
            assert(source_lowered(s, v, linkage, map, b));
            let da = s.sources@[ra].definition;
            let db = s.sources@[rb].definition;
            let ta = source_lowering(map, da, v.source_targets@[ra] is Some)->Ok_0;
            let tb = source_lowering(map, db, v.source_targets@[rb] is Some)->Ok_0;
            assert(ta is PhysicalGround);
            assert(tb is PhysicalGround);
            assert(da is PhysicalGround);
            assert(db is PhysicalGround);
            let pa = da->PhysicalGround_body;
            let pb = db->PhysicalGround_body;
            if ra < rb {
                assert(pa != pb);
            } else {
                assert(pb != pa);
            }
            lemma_definition_at_index(s.sources@, s.source_order@[a]);
            lemma_definition_at_index(s.sources@, s.source_order@[b]);
            assert(incident_bodies(s, da)[0] == pa.0);
            assert(incident_bodies(s, db)[0] == pb.0);
            assert(body_ids(s).contains(incident_bodies(s, da)[0]));
            assert(body_ids(s).contains(incident_bodies(s, db)[0]));
            if entries[a].1 == entries[b].1 {
                lemma_body_injective(s, v, linkage, map, pa.0, pb.0);
            }
        }
    }
    crate::spatial_document::lemma_one_to_one_bijective(map.sources@);
}

} // verus!
