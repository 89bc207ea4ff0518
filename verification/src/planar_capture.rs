//! Capturing a runtime planar linkage as a persistent document: identities are
//! allocated in a fixed order (bodies, point features, axis features, physical
//! grounds, joints, drivers, branch monitors), every runtime reference is
//! translated, and the persistent-to-runtime identity map is recorded.

use vstd::prelude::*;
use vstd::string::StringExecFns;
use crate::ids::{PlanarBodyId, PlanarDocumentId, PlanarFeatureId, PlanarSourceId};
use crate::model::{AxisDirectionBranch, BranchMonitor, DriverKind};
use crate::planar::{
    capture_source, body_id, captured, source_capture, IdAllocator, PlanarBody,
    PlanarFeatureRecord, PlanarField, PlanarLinkageError, PlanarLinkageRuntimeMap, PlanarRuntimeFeature,
    PlanarRuntimeSource, PlanarRuntimeSourceTopology, PlanarSourceRecord, PlanarSourceTopology,
    PlanarStructure, PLANAR_LINKAGE_DOCUMENT_VERSION,
};
use crate::linkage::{live_keys, JointKind, Linkage, PlanarBits, PlaneFrameBits, PoseBits};
use crate::planar_document_lowering::{
    body_lowered, document_lowered, document_lowering_error, feature_key, lemma_source_index, lower_document, point_lowered, axis_lowered,
    source_index, source_lowered, values_fit, PlanarLoweringValues,
};
use crate::planar_lowering::PlanarSourceValues;
use crate::planar::{
    certifies_components, certify_gauge, component_groups, component_grounded, explicit_list, planar_gauge_error,
    structure_error, validate_topology, CertifiedPlanarComponent, PlanarGaugePolicy,
};
use crate::gauge::reference_choices;
use crate::components::{key_position_before, stable_ascending_order};
use crate::idmap::{lemma_runtime_of_first, persistent_of, runtime_of};
use crate::spatial_document::{lemma_one_to_one_bijective, pairs_one_to_one};
use crate::runtime_ids::{AxisFeatureId, BodyId, BranchMonitorId, DriverId, JointId, PointFeatureId};

verus! {

/// One runtime body: its key, label, accepted pose, whether it is physically
/// grounded, and the label of its ground, if it has one of its own.
#[derive(Clone, Debug, PartialEq, Eq)]
pub struct CapturedBody {
    pub runtime: BodyId,
    pub label: String,
    pub pose: PoseBits,
    pub grounded: bool,
    pub ground_label: Option<String>,
}

/// One runtime point or axis feature: its key, label, owning body and local
/// point or axis.
#[derive(Clone, Debug, PartialEq, Eq)]
pub struct CapturedFeature<R> {
    pub runtime: R,
    pub label: String,
    pub body: BodyId,
    pub local: PlanarBits,
}

/// The references of a runtime joint.
#[derive(Clone, Copy, Debug, PartialEq, Eq)]
pub enum JointTopology {
    Revolute { first: PointFeatureId, second: PointFeatureId },
    Prismatic {
        first_anchor: PointFeatureId,
        first_axis: AxisFeatureId,
        second_anchor: PointFeatureId,
        second_axis: AxisFeatureId,
        axis_branch: AxisDirectionBranch,
    },
    Weld { first: PointFeatureId, second: PointFeatureId },
}

/// One runtime joint, with the relative angle of a weld.
#[derive(Clone, Debug, PartialEq, Eq)]
pub struct CapturedJoint {
    pub runtime: JointId,
    pub label: String,
    pub kind: JointTopology,
    pub weld_angle: Option<u64>,
}

/// One runtime driver, with its accepted target and maximum continuation step.
#[derive(Clone, Debug, PartialEq, Eq)]
pub struct CapturedDriver {
    pub runtime: DriverId,
    pub label: String,
    pub kind: DriverKind,
    pub target: u64,
    pub max_continuation_step: u64,
}

/// One runtime branch monitor; its persistent label is generated.
#[derive(Clone, Copy, Debug, PartialEq, Eq)]
pub struct CapturedMonitor {
    pub runtime: BranchMonitorId,
    pub monitor: BranchMonitor,
}

/// Everything a runtime linkage holds that its persistent document records,
/// each list in runtime iteration order.
#[derive(Clone, Debug, PartialEq, Eq)]
pub struct PlanarLinkageInventory {
    pub bodies: Vec<CapturedBody>,
    pub point_features: Vec<CapturedFeature<PointFeatureId>>,
    pub axis_features: Vec<CapturedFeature<AxisFeatureId>>,
    pub joints: Vec<CapturedJoint>,
    pub drivers: Vec<CapturedDriver>,
    pub monitors: Vec<CapturedMonitor>,
}

/// The decimal digits of `n`, most significant first.
pub open spec fn decimal_digits(n: nat) -> Seq<char>
    decreases n,
{
    if n < 10 {
        seq![(48 + n) as char]
    } else {
        decimal_digits(n / 10).push((48 + n % 10) as char)
    }
}

/// `first` followed by `second`.
fn joined(first: &str, second: &str) -> (text: String)
    ensures
        text@ == first@ + second@,
{
    let mut text = String::from_str(first);
    text.append(second);
    text
}

/// The decimal digit `d`.
fn digit_text(d: usize) -> (text: &'static str)
    requires
        d < 10,
    ensures
        text@ == seq![(48 + d) as char],
{
    proof {
        reveal_strlit("0");
        reveal_strlit("1");
        reveal_strlit("2");
        reveal_strlit("3");
        reveal_strlit("4");
        reveal_strlit("5");
        reveal_strlit("6");
        reveal_strlit("7");
        reveal_strlit("8");
        reveal_strlit("9");
    }
    match d {
        0 => "0",
        1 => "1",
        2 => "2",
        3 => "3",
        4 => "4",
        5 => "5",
        6 => "6",
        7 => "7",
        8 => "8",
        _ => "9",
    }
}

/// Appends `n` in decimal.
fn append_decimal(text: &mut String, n: usize)
    ensures
        final(text)@ == old(text)@ + decimal_digits(n as nat),
    decreases n,
{
    if n >= 10 {
        append_decimal(text, n / 10);
    }
    let digit = digit_text(n % 10);
    let ghost before = text@;
    text.append(digit);
    proof {
        if n >= 10 {
            assert(old(text)@ + decimal_digits(n as nat) =~= old(text)@ + decimal_digits((n / 10) as nat) + digit@);
        } else {
            assert(decimal_digits(n as nat) == digit@);
        }
    }
}

/// `prefix` followed by `number` in decimal.
fn numbered(prefix: &str, number: usize) -> (text: String)
    ensures
        text@ == prefix@ + decimal_digits(number as nat),
{
    let mut text = String::from_str(prefix);
    append_decimal(&mut text, number);
    text
}

/// The physically grounded bodies, in order.
pub open spec fn grounded_bodies(bodies: Seq<CapturedBody>) -> Seq<CapturedBody>
    decreases bodies.len(),
{
    if bodies.len() == 0 {
        Seq::empty()
    } else if bodies.last().grounded {
        grounded_bodies(bodies.drop_last()).push(bodies.last())
    } else {
        grounded_bodies(bodies.drop_last())
    }
}

/// The label of the physical ground of a body: its own, or one naming the body.
pub open spec fn ground_label_text(body: CapturedBody) -> Seq<char> {
    match body.ground_label {
        Some(label) => label@,
        None => "grounded body "@ + body.label@,
    }
}

/// The generated label of the branch monitor at position `index`.
pub open spec fn monitor_label_text(monitor: BranchMonitor, index: int) -> Seq<char> {
    match monitor {
        BranchMonitor::Orientation { .. } => "orientation branch monitor "@ + decimal_digits((index + 1) as nat),
        BranchMonitor::DirectedDisplacement { .. } => "directed displacement branch monitor "@ + decimal_digits((index + 1) as nat),
    }
}

/// The runtime references of a joint.
pub open spec fn joint_topology(kind: JointTopology) -> PlanarRuntimeSourceTopology {
    match kind {
        JointTopology::Revolute { first, second } => PlanarRuntimeSourceTopology::Revolute { first, second },
        JointTopology::Prismatic { first_anchor, first_axis, second_anchor, second_axis, axis_branch } =>
            PlanarRuntimeSourceTopology::Prismatic { first_anchor, first_axis, second_anchor, second_axis, axis_branch },
        JointTopology::Weld { first, second } => PlanarRuntimeSourceTopology::Weld { first, second },
    }
}

/// The runtime references of a driver.
pub open spec fn driver_topology(kind: DriverKind) -> PlanarRuntimeSourceTopology {
    match kind {
        DriverKind::Angular { reference, driven } => PlanarRuntimeSourceTopology::AngularDriver { reference, driven },
        DriverKind::Linear { origin, measured, guide_axis } => PlanarRuntimeSourceTopology::LinearDriver { origin, measured, guide_axis },
    }
}

/// The runtime references of a branch monitor.
pub open spec fn monitor_topology(monitor: BranchMonitor) -> PlanarRuntimeSourceTopology {
    match monitor {
        BranchMonitor::Orientation { line_start, line_end, observed, sign } =>
            PlanarRuntimeSourceTopology::OrientationBranch { line_start, line_end, observed, sign },
        BranchMonitor::DirectedDisplacement { origin, measured, axis, sign } =>
            PlanarRuntimeSourceTopology::DirectedDisplacementBranch { origin, measured, axis, sign },
    }
}

fn joint_references(kind: JointTopology) -> (topology: PlanarRuntimeSourceTopology)
    ensures
        topology == joint_topology(kind),
{
    match kind {
        JointTopology::Revolute { first, second } => PlanarRuntimeSourceTopology::Revolute { first, second },
        JointTopology::Prismatic { first_anchor, first_axis, second_anchor, second_axis, axis_branch } =>
            PlanarRuntimeSourceTopology::Prismatic { first_anchor, first_axis, second_anchor, second_axis, axis_branch },
        JointTopology::Weld { first, second } => PlanarRuntimeSourceTopology::Weld { first, second },
    }
}

fn driver_references(kind: DriverKind) -> (topology: PlanarRuntimeSourceTopology)
    ensures
        topology == driver_topology(kind),
{
    match kind {
        DriverKind::Angular { reference, driven } => PlanarRuntimeSourceTopology::AngularDriver { reference, driven },
        DriverKind::Linear { origin, measured, guide_axis } => PlanarRuntimeSourceTopology::LinearDriver { origin, measured, guide_axis },
    }
}

fn monitor_references(monitor: BranchMonitor) -> (topology: PlanarRuntimeSourceTopology)
    ensures
        topology == monitor_topology(monitor),
{
    match monitor {
        BranchMonitor::Orientation { line_start, line_end, observed, sign } =>
            PlanarRuntimeSourceTopology::OrientationBranch { line_start, line_end, observed, sign },
        BranchMonitor::DirectedDisplacement { origin, measured, axis, sign } =>
            PlanarRuntimeSourceTopology::DirectedDisplacementBranch { origin, measured, axis, sign },
    }
}

/// The number of identities a capture allocates.
pub open spec fn capture_count(inv: PlanarLinkageInventory) -> int {
    (inv.bodies@.len() + inv.point_features@.len() + inv.axis_features@.len() + grounded_bodies(inv.bodies@).len()
        + inv.joints@.len() + inv.drivers@.len() + inv.monitors@.len()) as int
}

/// Runtime bodies paired with the identities allocated to them from `base`.
pub open spec fn body_pairs(inv: PlanarLinkageInventory, base: int) -> Seq<(BodyId, PlanarBodyId)> {
    Seq::new(inv.bodies@.len(), |k: int| (inv.bodies@[k].runtime, PlanarBodyId((base + k) as u128)))
}

/// Runtime point features paired with their allocated identities.
pub open spec fn point_pairs(inv: PlanarLinkageInventory, base: int) -> Seq<(PointFeatureId, PlanarFeatureId)> {
    let first = base + inv.bodies@.len();
    Seq::new(inv.point_features@.len(), |k: int| (inv.point_features@[k].runtime, PlanarFeatureId((first + k) as u128)))
}

/// Runtime axis features paired with their allocated identities.
pub open spec fn axis_pairs(inv: PlanarLinkageInventory, base: int) -> Seq<(AxisFeatureId, PlanarFeatureId)> {
    let first = base + inv.bodies@.len() + inv.point_features@.len();
    Seq::new(inv.axis_features@.len(), |k: int| (inv.axis_features@[k].runtime, PlanarFeatureId((first + k) as u128)))
}

/// The rejection carried by a result.
pub open spec fn rejection<T>(result: Result<T, PlanarLinkageError>) -> Option<PlanarLinkageError> {
    match result {
        Ok(_) => None,
        Err(error) => Some(error),
    }
}

/// The persistent references of the runtime source captured at source
/// position `q` (grounds, then joints, drivers, monitors).
pub open spec fn source_definition(inv: PlanarLinkageInventory, base: int, q: int) -> Result<PlanarSourceTopology, PlanarLinkageError> {
    let grounds = grounded_bodies(inv.bodies@);
    let ng = grounds.len() as int;
    let nj = inv.joints@.len() as int;
    let nd = inv.drivers@.len() as int;
    let bodies = body_pairs(inv, base);
    let points = point_pairs(inv, base);
    let axes = axis_pairs(inv, base);
    if q < ng {
        source_capture(bodies, points, axes, PlanarRuntimeSourceTopology::PhysicalGround { body: grounds[q].runtime })
    } else if q < ng + nj {
        source_capture(bodies, points, axes, joint_topology(inv.joints@[q - ng].kind))
    } else if q < ng + nj + nd {
        source_capture(bodies, points, axes, driver_topology(inv.drivers@[q - ng - nj].kind))
    } else {
        source_capture(bodies, points, axes, monitor_topology(inv.monitors@[q - ng - nj - nd].monitor))
    }
}

/// The label of the source captured at source position `q`.
pub open spec fn source_label(inv: PlanarLinkageInventory, q: int) -> Seq<char> {
    let grounds = grounded_bodies(inv.bodies@);
    let ng = grounds.len() as int;
    let nj = inv.joints@.len() as int;
    let nd = inv.drivers@.len() as int;
    if q < ng {
        ground_label_text(grounds[q])
    } else if q < ng + nj {
        inv.joints@[q - ng].label@
    } else if q < ng + nj + nd {
        inv.drivers@[q - ng - nj].label@
    } else {
        monitor_label_text(inv.monitors@[q - ng - nj - nd].monitor, q - ng - nj - nd)
    }
}

/// The runtime object of the source captured at source position `q`.
pub open spec fn source_runtime(inv: PlanarLinkageInventory, q: int) -> PlanarRuntimeSource {
    let grounds = grounded_bodies(inv.bodies@);
    let ng = grounds.len() as int;
    let nj = inv.joints@.len() as int;
    let nd = inv.drivers@.len() as int;
    if q < ng {
        PlanarRuntimeSource::Ground(grounds[q].runtime)
    } else if q < ng + nj {
        PlanarRuntimeSource::Joint(inv.joints@[q - ng].runtime)
    } else if q < ng + nj + nd {
        PlanarRuntimeSource::Driver(inv.drivers@[q - ng - nj].runtime)
    } else {
        PlanarRuntimeSource::BranchMonitor(inv.monitors@[q - ng - nj - nd].runtime)
    }
}

/// What can fail at allocation step `k` besides exhaustion: the owning body of
/// a feature, or a reference of a source, without a captured counterpart.
pub open spec fn step_error(inv: PlanarLinkageInventory, base: int, k: int) -> Option<PlanarLinkageError> {
    let nb = inv.bodies@.len() as int;
    let np = inv.point_features@.len() as int;
    let na = inv.axis_features@.len() as int;
    if k < nb {
        None
    } else if k < nb + np {
        rejection(captured(body_pairs(inv, base), inv.point_features@[k - nb].body, PlanarField::RuntimeBodyMapping))
    } else if k < nb + np + na {
        rejection(captured(body_pairs(inv, base), inv.axis_features@[k - nb - np].body, PlanarField::RuntimeBodyMapping))
    } else {
        rejection(source_definition(inv, base, k - nb - np - na))
    }
}

/// The first failure from allocation step `k` on, identities being allocated
/// from `base`.
pub open spec fn first_capture_error(inv: PlanarLinkageInventory, base: int, k: int) -> Option<PlanarLinkageError>
    decreases capture_count(inv) - k,
{
    if k < 0 || k >= capture_count(inv) {
        None
    } else if base + k >= u128::MAX {
        Some(PlanarLinkageError::IdExhausted)
    } else if step_error(inv, base, k) is Some {
        step_error(inv, base, k)
    } else {
        first_capture_error(inv, base, k + 1)
    }
}

/// Why capturing `inv` under document `id` fails, if it does.
pub open spec fn capture_error(inv: PlanarLinkageInventory, id: PlanarDocumentId) -> Option<PlanarLinkageError> {
    if id.0 == 0 {
        Some(PlanarLinkageError::InvalidId(0))
    } else if id.0 == u128::MAX {
        Some(PlanarLinkageError::IdExhausted)
    } else {
        first_capture_error(inv, id.0 + 1, 0)
    }
}

proof fn lemma_grounded_prefix(bodies: Seq<CapturedBody>, i: int)
    requires
        0 <= i <= bodies.len(),
    ensures
        grounded_bodies(bodies.take(i)).len() <= grounded_bodies(bodies).len(),
        forall|q: int| 0 <= q < grounded_bodies(bodies.take(i)).len() ==> #[trigger] grounded_bodies(bodies.take(i))[q] == grounded_bodies(bodies)[q],
    decreases bodies.len(),
{
    if i == bodies.len() {
        assert(bodies.take(i) =~= bodies);
    } else {
        let shorter = bodies.drop_last();
        assert(bodies.take(i) =~= shorter.take(i));
        lemma_grounded_prefix(shorter, i);
    }
}

proof fn lemma_grounded_step(bodies: Seq<CapturedBody>, i: int)
    requires
        0 <= i < bodies.len(),
    ensures
        grounded_bodies(bodies.take(i + 1)) == if bodies[i].grounded {
            grounded_bodies(bodies.take(i)).push(bodies[i])
        } else {
            grounded_bodies(bodies.take(i))
        },
{
    assert(bodies.take(i + 1).drop_last() =~= bodies.take(i));
    assert(bodies.take(i + 1).last() == bodies[i]);
}

/// The allocation failure at step `k`, or the step completes and the walk
/// continues from `k + 1`.
proof fn lemma_step(inv: PlanarLinkageInventory, base: int, k: int)
    requires
        0 <= k < capture_count(inv),
        base + k < u128::MAX,
        step_error(inv, base, k) is None,
    ensures
        first_capture_error(inv, base, k) == first_capture_error(inv, base, k + 1),
{
}

fn capture_bodies(inv: &PlanarLinkageInventory, allocator: &mut IdAllocator, Ghost(base): Ghost<int>)
    -> (result: Result<(Vec<(BodyId, PlanarBodyId)>, Vec<PlanarBody>, Vec<(PlanarBodyId, BodyId)>), PlanarLinkageError>)
    requires
        old(allocator).next == base,
        1 <= base <= u128::MAX,
    ensures
        match result {
            Err(error) => first_capture_error(*inv, base, 0) == Some(error),
            Ok((pairs, bodies, map_bodies)) => {
                &&& first_capture_error(*inv, base, 0) == first_capture_error(*inv, base, inv.bodies@.len() as int)
                &&& final(allocator).next == base + inv.bodies@.len()
                &&& pairs@ == body_pairs(*inv, base)
                &&& bodies@.len() == inv.bodies@.len()
                &&& forall|k: int| 0 <= k < bodies@.len() ==> #[trigger] bodies@[k].id == PlanarBodyId((base + k) as u128)
                    && bodies@[k].label == inv.bodies@[k].label
                &&& map_bodies@ == Seq::new(inv.bodies@.len(), |k: int| (PlanarBodyId((base + k) as u128), inv.bodies@[k].runtime))
            },
        },
{
    let mut pairs: Vec<(BodyId, PlanarBodyId)> = Vec::new();
    let mut bodies: Vec<PlanarBody> = Vec::new();
    let mut map_bodies: Vec<(PlanarBodyId, BodyId)> = Vec::new();
    let mut i: usize = 0;
    while i < inv.bodies.len()
        invariant
            i <= inv.bodies@.len(),
            allocator.next == base + i,
            1 <= base,
            base + i <= u128::MAX,
            first_capture_error(*inv, base, 0) == first_capture_error(*inv, base, i as int),
            pairs@ == body_pairs(*inv, base).take(i as int),
            bodies@.len() == i,
            forall|k: int| 0 <= k < i ==> #[trigger] bodies@[k].id == PlanarBodyId((base + k) as u128)
                && bodies@[k].label == inv.bodies@[k].label,
            map_bodies@ == Seq::new(inv.bodies@.len(), |k: int| (PlanarBodyId((base + k) as u128), inv.bodies@[k].runtime)).take(i as int),
        decreases inv.bodies@.len() - i,
    {
        let value = allocator.allocate()?;
        proof {
            lemma_step(*inv, base, i as int);
        }
        let persistent = PlanarBodyId(value);
        let runtime = inv.bodies[i].runtime;
        pairs.push((runtime, persistent));
        map_bodies.push((persistent, runtime));
        bodies.push(PlanarBody { id: persistent, label: inv.bodies[i].label.clone() });
        proof {
            assert(pairs@ =~= body_pairs(*inv, base).take(i + 1));
            assert(map_bodies@ =~= Seq::new(inv.bodies@.len(), |k: int| (PlanarBodyId((base + k) as u128), inv.bodies@[k].runtime)).take(i + 1));
        }
        i = i + 1;
    }
    proof {
        assert(pairs@ =~= body_pairs(*inv, base));
        assert(map_bodies@ =~= Seq::new(inv.bodies@.len(), |k: int| (PlanarBodyId((base + k) as u128), inv.bodies@[k].runtime)));
    }
    Ok((pairs, bodies, map_bodies))
}


fn capture_points(inv: &PlanarLinkageInventory, body_map: &Vec<(BodyId, PlanarBodyId)>, allocator: &mut IdAllocator, Ghost(base): Ghost<int>)
    -> (result: Result<(Vec<(PointFeatureId, PlanarFeatureId)>, Vec<PlanarFeatureRecord>, Vec<(PlanarFeatureId, PlanarRuntimeFeature)>), PlanarLinkageError>)
    requires
        old(allocator).next == base + inv.bodies@.len(),
        1 <= base,
        base + inv.bodies@.len() <= u128::MAX,
        body_map@ == body_pairs(*inv, base),
    ensures
        match result {
            Err(error) => first_capture_error(*inv, base, inv.bodies@.len() as int) == Some(error),
            Ok((pairs, features, map_features)) => {
                &&& first_capture_error(*inv, base, inv.bodies@.len() as int) == first_capture_error(*inv, base, (inv.bodies@.len() + inv.point_features@.len()) as int)
                &&& final(allocator).next == base + inv.bodies@.len() + inv.point_features@.len()
                &&& pairs@ == point_pairs(*inv, base)
                &&& features@.len() == inv.point_features@.len()
                &&& forall|k: int| 0 <= k < features@.len() ==> {
                    &&& (#[trigger] features@[k]).id == PlanarFeatureId((base + inv.bodies@.len() + k) as u128)
                    &&& features@[k].label == inv.point_features@[k].label
                    &&& Ok::<PlanarBodyId, PlanarLinkageError>(features@[k].body) == captured(body_pairs(*inv, base), inv.point_features@[k].body, PlanarField::RuntimeBodyMapping)
                }
                &&& map_features@ == Seq::new(inv.point_features@.len(), |k: int| (PlanarFeatureId((base + inv.bodies@.len() + k) as u128), PlanarRuntimeFeature::Point(inv.point_features@[k].runtime)))
            },
        },
{
    let mut pairs: Vec<(PointFeatureId, PlanarFeatureId)> = Vec::new();
    let mut features: Vec<PlanarFeatureRecord> = Vec::new();
    let mut map_features: Vec<(PlanarFeatureId, PlanarRuntimeFeature)> = Vec::new();
    let mut i: usize = 0;
    while i < inv.point_features.len()
        invariant
            i <= inv.point_features@.len(),
            allocator.next == base + inv.bodies@.len() + i,
            1 <= base,
            base + inv.bodies@.len() + i <= u128::MAX,
            body_map@ == body_pairs(*inv, base),
            first_capture_error(*inv, base, inv.bodies@.len() as int) == first_capture_error(*inv, base, (inv.bodies@.len() + i) as int),
            pairs@ == point_pairs(*inv, base).take(i as int),
            features@.len() == i,
            forall|k: int| 0 <= k < i ==> {
                &&& (#[trigger] features@[k]).id == PlanarFeatureId((base + inv.bodies@.len() + k) as u128)
                &&& features@[k].label == inv.point_features@[k].label
                &&& Ok::<PlanarBodyId, PlanarLinkageError>(features@[k].body) == captured(body_pairs(*inv, base), inv.point_features@[k].body, PlanarField::RuntimeBodyMapping)
            },
            map_features@ == Seq::new(inv.point_features@.len(), |k: int| (PlanarFeatureId((base + inv.bodies@.len() + k) as u128), PlanarRuntimeFeature::Point(inv.point_features@[k].runtime))).take(i as int),
        decreases inv.point_features@.len() - i,
    {
        let value = allocator.allocate()?;
        let feature = &inv.point_features[i];
        let body = body_id(body_map, feature.body)?;
        proof {
            lemma_step(*inv, base, (inv.bodies@.len() + i) as int);
        }
        let persistent = PlanarFeatureId(value);
        pairs.push((feature.runtime, persistent));
        map_features.push((persistent, PlanarRuntimeFeature::Point(feature.runtime)));
        features.push(PlanarFeatureRecord { id: persistent, label: feature.label.clone(), body });
        proof {
            assert(pairs@ =~= point_pairs(*inv, base).take(i + 1));
            assert(map_features@ =~= Seq::new(inv.point_features@.len(), |k: int| (PlanarFeatureId((base + inv.bodies@.len() + k) as u128), PlanarRuntimeFeature::Point(inv.point_features@[k].runtime))).take(i + 1));
        }
        i = i + 1;
    }
    proof {
        assert(pairs@ =~= point_pairs(*inv, base));
        assert(map_features@ =~= Seq::new(inv.point_features@.len(), |k: int| (PlanarFeatureId((base + inv.bodies@.len() + k) as u128), PlanarRuntimeFeature::Point(inv.point_features@[k].runtime))));
    }
    Ok((pairs, features, map_features))
}

fn capture_axes(inv: &PlanarLinkageInventory, body_map: &Vec<(BodyId, PlanarBodyId)>, allocator: &mut IdAllocator, Ghost(base): Ghost<int>)
    -> (result: Result<(Vec<(AxisFeatureId, PlanarFeatureId)>, Vec<PlanarFeatureRecord>, Vec<(PlanarFeatureId, PlanarRuntimeFeature)>), PlanarLinkageError>)
    requires
        old(allocator).next == base + (inv.bodies@.len() + inv.point_features@.len()),
        1 <= base,
        base + (inv.bodies@.len() + inv.point_features@.len()) <= u128::MAX,
        body_map@ == body_pairs(*inv, base),
    ensures
        match result {
            Err(error) => first_capture_error(*inv, base, (inv.bodies@.len() + inv.point_features@.len()) as int) == Some(error),
            Ok((pairs, features, map_features)) => {
                &&& first_capture_error(*inv, base, (inv.bodies@.len() + inv.point_features@.len()) as int) == first_capture_error(*inv, base, (inv.bodies@.len() + inv.point_features@.len() + inv.axis_features@.len()) as int)
                &&& final(allocator).next == base + (inv.bodies@.len() + inv.point_features@.len()) + inv.axis_features@.len()
                &&& pairs@ == axis_pairs(*inv, base)
                &&& features@.len() == inv.axis_features@.len()
                &&& forall|k: int| 0 <= k < features@.len() ==> {
                    &&& (#[trigger] features@[k]).id == PlanarFeatureId((base + (inv.bodies@.len() + inv.point_features@.len()) + k) as u128)
                    &&& features@[k].label == inv.axis_features@[k].label
                    &&& Ok::<PlanarBodyId, PlanarLinkageError>(features@[k].body) == captured(body_pairs(*inv, base), inv.axis_features@[k].body, PlanarField::RuntimeBodyMapping)
                }
                &&& map_features@ == Seq::new(inv.axis_features@.len(), |k: int| (PlanarFeatureId((base + (inv.bodies@.len() + inv.point_features@.len()) + k) as u128), PlanarRuntimeFeature::Axis(inv.axis_features@[k].runtime)))
            },
        },
{
    let mut pairs: Vec<(AxisFeatureId, PlanarFeatureId)> = Vec::new();
    let mut features: Vec<PlanarFeatureRecord> = Vec::new();
    let mut map_features: Vec<(PlanarFeatureId, PlanarRuntimeFeature)> = Vec::new();
    let mut i: usize = 0;
    while i < inv.axis_features.len()
        invariant
            i <= inv.axis_features@.len(),
            allocator.next == base + (inv.bodies@.len() + inv.point_features@.len()) + i,
            1 <= base,
            base + (inv.bodies@.len() + inv.point_features@.len()) + i <= u128::MAX,
            body_map@ == body_pairs(*inv, base),
            first_capture_error(*inv, base, (inv.bodies@.len() + inv.point_features@.len()) as int) == first_capture_error(*inv, base, (inv.bodies@.len() + inv.point_features@.len() + i) as int),
            pairs@ == axis_pairs(*inv, base).take(i as int),
            features@.len() == i,
            forall|k: int| 0 <= k < i ==> {
                &&& (#[trigger] features@[k]).id == PlanarFeatureId((base + (inv.bodies@.len() + inv.point_features@.len()) + k) as u128)
                &&& features@[k].label == inv.axis_features@[k].label
                &&& Ok::<PlanarBodyId, PlanarLinkageError>(features@[k].body) == captured(body_pairs(*inv, base), inv.axis_features@[k].body, PlanarField::RuntimeBodyMapping)
            },
            map_features@ == Seq::new(inv.axis_features@.len(), |k: int| (PlanarFeatureId((base + (inv.bodies@.len() + inv.point_features@.len()) + k) as u128), PlanarRuntimeFeature::Axis(inv.axis_features@[k].runtime))).take(i as int),
        decreases inv.axis_features@.len() - i,
    {
        let value = allocator.allocate()?;
        let feature = &inv.axis_features[i];
        let body = body_id(body_map, feature.body)?;
        proof {
            lemma_step(*inv, base, (inv.bodies@.len() + inv.point_features@.len() + i) as int);
        }
        let persistent = PlanarFeatureId(value);
        pairs.push((feature.runtime, persistent));
        map_features.push((persistent, PlanarRuntimeFeature::Axis(feature.runtime)));
        features.push(PlanarFeatureRecord { id: persistent, label: feature.label.clone(), body });
        proof {
            assert(pairs@ =~= axis_pairs(*inv, base).take(i + 1));
            assert(map_features@ =~= Seq::new(inv.axis_features@.len(), |k: int| (PlanarFeatureId((base + (inv.bodies@.len() + inv.point_features@.len()) + k) as u128), PlanarRuntimeFeature::Axis(inv.axis_features@[k].runtime))).take(i + 1));
        }
        i = i + 1;
    }
    proof {
        assert(pairs@ =~= axis_pairs(*inv, base));
        assert(map_features@ =~= Seq::new(inv.axis_features@.len(), |k: int| (PlanarFeatureId((base + (inv.bodies@.len() + inv.point_features@.len()) + k) as u128), PlanarRuntimeFeature::Axis(inv.axis_features@[k].runtime))));
    }
    Ok((pairs, features, map_features))
}

/// Position of the first source among the allocation steps.
pub open spec fn first_source_step(inv: PlanarLinkageInventory) -> int {
    (inv.bodies@.len() + inv.point_features@.len() + inv.axis_features@.len()) as int
}

/// The number of captured sources.
pub open spec fn source_count(inv: PlanarLinkageInventory) -> int {
    (grounded_bodies(inv.bodies@).len() + inv.joints@.len() + inv.drivers@.len() + inv.monitors@.len()) as int
}

/// The first `count` sources and their map entries are the captured ones.
pub open spec fn sources_captured(
    inv: PlanarLinkageInventory,
    base: int,
    sources: Seq<PlanarSourceRecord>,
    map_sources: Seq<(PlanarSourceId, PlanarRuntimeSource)>,
    count: int,
) -> bool {
    &&& sources.len() == count
    &&& map_sources.len() == count
    &&& forall|q: int| 0 <= q < count ==> {
        &&& (#[trigger] sources[q]).id == PlanarSourceId((base + first_source_step(inv) + q) as u128)
        &&& sources[q].label@ == source_label(inv, q)
        &&& Ok::<PlanarSourceTopology, PlanarLinkageError>(sources[q].definition) == source_definition(inv, base, q)
        &&& map_sources[q] == (sources[q].id, source_runtime(inv, q))
    }
}

fn capture_one_source(
    inv: &PlanarLinkageInventory,
    body_map: &Vec<(BodyId, PlanarBodyId)>,
    point_map: &Vec<(PointFeatureId, PlanarFeatureId)>,
    axis_map: &Vec<(AxisFeatureId, PlanarFeatureId)>,
    allocator: &mut IdAllocator,
    topology: PlanarRuntimeSourceTopology,
    label: String,
    Ghost(base): Ghost<int>,
    Ghost(q): Ghost<int>,
) -> (result: Result<PlanarSourceRecord, PlanarLinkageError>)
    requires
        old(allocator).next == base + first_source_step(*inv) + q,
        1 <= base,
        base + first_source_step(*inv) + q <= u128::MAX,
        0 <= q < source_count(*inv),
        body_map@ == body_pairs(*inv, base),
        point_map@ == point_pairs(*inv, base),
        axis_map@ == axis_pairs(*inv, base),
        source_definition(*inv, base, q) == source_capture(body_pairs(*inv, base), point_pairs(*inv, base), axis_pairs(*inv, base), topology),
    ensures
        match result {
            Err(error) => first_capture_error(*inv, base, first_source_step(*inv) + q) == Some(error),
            Ok(record) => {
                &&& first_capture_error(*inv, base, first_source_step(*inv) + q) == first_capture_error(*inv, base, first_source_step(*inv) + q + 1)
                &&& final(allocator).next == base + first_source_step(*inv) + q + 1
                &&& record.id == PlanarSourceId((base + first_source_step(*inv) + q) as u128)
                &&& record.label == label
                &&& Ok::<PlanarSourceTopology, PlanarLinkageError>(record.definition) == source_definition(*inv, base, q)
            },
        },
{
    let value = allocator.allocate()?;
    let definition = capture_source(body_map, point_map, axis_map, topology)?;
    proof {
        lemma_step(*inv, base, first_source_step(*inv) + q);
    }
    Ok(PlanarSourceRecord { id: PlanarSourceId(value), label, definition })
}

fn capture_grounds(
    inv: &PlanarLinkageInventory,
    body_map: &Vec<(BodyId, PlanarBodyId)>,
    point_map: &Vec<(PointFeatureId, PlanarFeatureId)>,
    axis_map: &Vec<(AxisFeatureId, PlanarFeatureId)>,
    allocator: &mut IdAllocator,
    sources: &mut Vec<PlanarSourceRecord>,
    map_sources: &mut Vec<(PlanarSourceId, PlanarRuntimeSource)>,
    Ghost(base): Ghost<int>,
) -> (result: Result<(), PlanarLinkageError>)
    requires
        old(allocator).next == base + first_source_step(*inv) + 0,
        base + first_source_step(*inv) + 0 <= u128::MAX,
        1 <= base,
        body_map@ == body_pairs(*inv, base),
        point_map@ == point_pairs(*inv, base),
        axis_map@ == axis_pairs(*inv, base),
        sources_captured(*inv, base, old(sources)@, old(map_sources)@, 0),
    ensures
        match result {
            Err(error) => first_capture_error(*inv, base, first_source_step(*inv) + 0) == Some(error),
            Ok(()) => {
                &&& first_capture_error(*inv, base, first_source_step(*inv) + 0) == first_capture_error(*inv, base, first_source_step(*inv) + grounded_bodies(inv.bodies@).len())
                &&& final(allocator).next == base + first_source_step(*inv) + grounded_bodies(inv.bodies@).len()
                &&& base + first_source_step(*inv) + grounded_bodies(inv.bodies@).len() <= u128::MAX
                &&& sources_captured(*inv, base, final(sources)@, final(map_sources)@, (grounded_bodies(inv.bodies@).len()) as int)
            },
        },
{
    let ghost f = first_source_step(*inv);
    let ghost grounds = grounded_bodies(inv.bodies@);
    let mut i: usize = 0;
    let mut g: usize = 0;
    proof {
        assert(inv.bodies@.take(0) =~= Seq::<CapturedBody>::empty());
    }
    while i < inv.bodies.len()
        invariant
            i <= inv.bodies@.len(),
            g <= i,
            f == first_source_step(*inv),
            grounds == grounded_bodies(inv.bodies@),
            g == grounded_bodies(inv.bodies@.take(i as int)).len(),
            g <= grounds.len(),
            allocator.next == base + f + g,
            1 <= base,
            base + f + g <= u128::MAX,
            body_map@ == body_pairs(*inv, base),
            point_map@ == point_pairs(*inv, base),
            axis_map@ == axis_pairs(*inv, base),
            first_capture_error(*inv, base, f) == first_capture_error(*inv, base, f + g),
            sources_captured(*inv, base, sources@, map_sources@, g as int),
        decreases inv.bodies@.len() - i,
    {
        let body = &inv.bodies[i];
        proof {
            lemma_grounded_step(inv.bodies@, i as int);
            lemma_grounded_prefix(inv.bodies@, i + 1);
        }
        if body.grounded {
            proof {
                assert(grounded_bodies(inv.bodies@.take(i + 1))[g as int] == inv.bodies@[i as int]);
                assert(grounds[g as int] == inv.bodies@[i as int]);
            }
            let label = match &body.ground_label {
                Some(label) => label.clone(),
                None => joined("grounded body ", body.label.as_str()),
            };
            let topology = PlanarRuntimeSourceTopology::PhysicalGround { body: body.runtime };
            let record = capture_one_source(inv, body_map, point_map, axis_map, allocator, topology, label, Ghost(base), Ghost(g as int))?;
            map_sources.push((record.id, PlanarRuntimeSource::Ground(body.runtime)));
            sources.push(record);
            g = g + 1;
        }
        i = i + 1;
    }
    proof {
        assert(inv.bodies@.take(i as int) =~= inv.bodies@);
    }
    Ok(())
}

fn capture_joints(
    inv: &PlanarLinkageInventory,
    body_map: &Vec<(BodyId, PlanarBodyId)>,
    point_map: &Vec<(PointFeatureId, PlanarFeatureId)>,
    axis_map: &Vec<(AxisFeatureId, PlanarFeatureId)>,
    allocator: &mut IdAllocator,
    sources: &mut Vec<PlanarSourceRecord>,
    map_sources: &mut Vec<(PlanarSourceId, PlanarRuntimeSource)>,
    Ghost(base): Ghost<int>,
) -> (result: Result<(), PlanarLinkageError>)
    requires
        old(allocator).next == base + first_source_step(*inv) + grounded_bodies(inv.bodies@).len(),
        base + first_source_step(*inv) + grounded_bodies(inv.bodies@).len() <= u128::MAX,
        1 <= base,
        body_map@ == body_pairs(*inv, base),
        point_map@ == point_pairs(*inv, base),
        axis_map@ == axis_pairs(*inv, base),
        sources_captured(*inv, base, old(sources)@, old(map_sources)@, (grounded_bodies(inv.bodies@).len()) as int),
    ensures
        match result {
            Err(error) => first_capture_error(*inv, base, first_source_step(*inv) + grounded_bodies(inv.bodies@).len()) == Some(error),
            Ok(()) => {
                &&& first_capture_error(*inv, base, first_source_step(*inv) + grounded_bodies(inv.bodies@).len()) == first_capture_error(*inv, base, first_source_step(*inv) + grounded_bodies(inv.bodies@).len() + inv.joints@.len())
                &&& final(allocator).next == base + first_source_step(*inv) + grounded_bodies(inv.bodies@).len() + inv.joints@.len()
                &&& base + first_source_step(*inv) + grounded_bodies(inv.bodies@).len() + inv.joints@.len() <= u128::MAX
                &&& sources_captured(*inv, base, final(sources)@, final(map_sources)@, (grounded_bodies(inv.bodies@).len() + inv.joints@.len()) as int)
            },
        },
{
    let ghost f = first_source_step(*inv);
    let ghost ng = grounded_bodies(inv.bodies@).len() as int;
    let mut j: usize = 0;
    while j < inv.joints.len()
        invariant
            j <= inv.joints@.len(),
            f == first_source_step(*inv),
            ng == grounded_bodies(inv.bodies@).len(),
            allocator.next == base + f + ng + j,
            1 <= base,
            base + f + ng + j <= u128::MAX,
            body_map@ == body_pairs(*inv, base),
            point_map@ == point_pairs(*inv, base),
            axis_map@ == axis_pairs(*inv, base),
            first_capture_error(*inv, base, f + ng) == first_capture_error(*inv, base, f + ng + j),
            sources_captured(*inv, base, sources@, map_sources@, ng + j),
        decreases inv.joints@.len() - j,
    {
        let joint = &inv.joints[j];
        let topology = joint_references(joint.kind);
        let record = capture_one_source(inv, body_map, point_map, axis_map, allocator, topology, joint.label.clone(), Ghost(base), Ghost(ng + j))?;
        map_sources.push((record.id, PlanarRuntimeSource::Joint(joint.runtime)));
        sources.push(record);
        j = j + 1;
    }
    Ok(())
}

fn capture_drivers(
    inv: &PlanarLinkageInventory,
    body_map: &Vec<(BodyId, PlanarBodyId)>,
    point_map: &Vec<(PointFeatureId, PlanarFeatureId)>,
    axis_map: &Vec<(AxisFeatureId, PlanarFeatureId)>,
    allocator: &mut IdAllocator,
    sources: &mut Vec<PlanarSourceRecord>,
    map_sources: &mut Vec<(PlanarSourceId, PlanarRuntimeSource)>,
    Ghost(base): Ghost<int>,
    drivers: &mut Vec<PlanarSourceId>,
) -> (result: Result<(), PlanarLinkageError>)
    requires
        old(allocator).next == base + first_source_step(*inv) + grounded_bodies(inv.bodies@).len() + inv.joints@.len(),
        base + first_source_step(*inv) + grounded_bodies(inv.bodies@).len() + inv.joints@.len() <= u128::MAX,
        1 <= base,
        body_map@ == body_pairs(*inv, base),
        point_map@ == point_pairs(*inv, base),
        axis_map@ == axis_pairs(*inv, base),
        sources_captured(*inv, base, old(sources)@, old(map_sources)@, (grounded_bodies(inv.bodies@).len() + inv.joints@.len()) as int),
        old(drivers)@.len() == 0,
    ensures
        match result {
            Err(error) => first_capture_error(*inv, base, first_source_step(*inv) + grounded_bodies(inv.bodies@).len() + inv.joints@.len()) == Some(error),
            Ok(()) => {
                &&& first_capture_error(*inv, base, first_source_step(*inv) + grounded_bodies(inv.bodies@).len() + inv.joints@.len()) == first_capture_error(*inv, base, first_source_step(*inv) + grounded_bodies(inv.bodies@).len() + inv.joints@.len() + inv.drivers@.len())
                &&& final(allocator).next == base + first_source_step(*inv) + grounded_bodies(inv.bodies@).len() + inv.joints@.len() + inv.drivers@.len()
                &&& base + first_source_step(*inv) + grounded_bodies(inv.bodies@).len() + inv.joints@.len() + inv.drivers@.len() <= u128::MAX
                &&& sources_captured(*inv, base, final(sources)@, final(map_sources)@, (grounded_bodies(inv.bodies@).len() + inv.joints@.len() + inv.drivers@.len()) as int)
                &&& final(drivers)@ == Seq::new(inv.drivers@.len(), |e: int| PlanarSourceId((base + first_source_step(*inv) + grounded_bodies(inv.bodies@).len() + inv.joints@.len() + e) as u128))
            },
        },
{
    let ghost f = first_source_step(*inv);
    let ghost first = grounded_bodies(inv.bodies@).len() + inv.joints@.len();
    let mut d: usize = 0;
    while d < inv.drivers.len()
        invariant
            d <= inv.drivers@.len(),
            f == first_source_step(*inv),
            first == grounded_bodies(inv.bodies@).len() + inv.joints@.len(),
            allocator.next == base + f + first + d,
            1 <= base,
            base + f + first + d <= u128::MAX,
            body_map@ == body_pairs(*inv, base),
            point_map@ == point_pairs(*inv, base),
            axis_map@ == axis_pairs(*inv, base),
            first_capture_error(*inv, base, f + first) == first_capture_error(*inv, base, f + first + d),
            sources_captured(*inv, base, sources@, map_sources@, first + d),
            drivers@ == Seq::new(inv.drivers@.len(), |e: int| PlanarSourceId((base + f + first + e) as u128)).take(d as int),
        decreases inv.drivers@.len() - d,
    {
        let driver = &inv.drivers[d];
        let topology = driver_references(driver.kind);
        let record = capture_one_source(inv, body_map, point_map, axis_map, allocator, topology, driver.label.clone(), Ghost(base), Ghost(first + d))?;
        map_sources.push((record.id, PlanarRuntimeSource::Driver(driver.runtime)));
        drivers.push(record.id);
        sources.push(record);
        proof {
            assert(drivers@ =~= Seq::new(inv.drivers@.len(), |e: int| PlanarSourceId((base + f + first + e) as u128)).take(d + 1));
        }
        d = d + 1;
    }
    proof {
        assert(drivers@ =~= Seq::new(inv.drivers@.len(), |e: int| PlanarSourceId((base + f + first + e) as u128)));
    }
    Ok(())
}

fn capture_monitors(
    inv: &PlanarLinkageInventory,
    body_map: &Vec<(BodyId, PlanarBodyId)>,
    point_map: &Vec<(PointFeatureId, PlanarFeatureId)>,
    axis_map: &Vec<(AxisFeatureId, PlanarFeatureId)>,
    allocator: &mut IdAllocator,
    sources: &mut Vec<PlanarSourceRecord>,
    map_sources: &mut Vec<(PlanarSourceId, PlanarRuntimeSource)>,
    Ghost(base): Ghost<int>,
) -> (result: Result<(), PlanarLinkageError>)
    requires
        old(allocator).next == base + first_source_step(*inv) + grounded_bodies(inv.bodies@).len() + inv.joints@.len() + inv.drivers@.len(),
        base + first_source_step(*inv) + grounded_bodies(inv.bodies@).len() + inv.joints@.len() + inv.drivers@.len() <= u128::MAX,
        1 <= base,
        body_map@ == body_pairs(*inv, base),
        point_map@ == point_pairs(*inv, base),
        axis_map@ == axis_pairs(*inv, base),
        sources_captured(*inv, base, old(sources)@, old(map_sources)@, (grounded_bodies(inv.bodies@).len() + inv.joints@.len() + inv.drivers@.len()) as int),
        inv.monitors@.len() < usize::MAX,
    ensures
        match result {
            Err(error) => first_capture_error(*inv, base, first_source_step(*inv) + grounded_bodies(inv.bodies@).len() + inv.joints@.len() + inv.drivers@.len()) == Some(error),
            Ok(()) => {
                &&& first_capture_error(*inv, base, first_source_step(*inv) + grounded_bodies(inv.bodies@).len() + inv.joints@.len() + inv.drivers@.len()) == first_capture_error(*inv, base, first_source_step(*inv) + grounded_bodies(inv.bodies@).len() + inv.joints@.len() + inv.drivers@.len() + inv.monitors@.len())
                &&& final(allocator).next == base + first_source_step(*inv) + grounded_bodies(inv.bodies@).len() + inv.joints@.len() + inv.drivers@.len() + inv.monitors@.len()
                &&& base + first_source_step(*inv) + grounded_bodies(inv.bodies@).len() + inv.joints@.len() + inv.drivers@.len() + inv.monitors@.len() <= u128::MAX
                &&& sources_captured(*inv, base, final(sources)@, final(map_sources)@, (grounded_bodies(inv.bodies@).len() + inv.joints@.len() + inv.drivers@.len() + inv.monitors@.len()) as int)
            },
        },
{
    let ghost f = first_source_step(*inv);
    let ghost first = grounded_bodies(inv.bodies@).len() + inv.joints@.len() + inv.drivers@.len();
    let mut m: usize = 0;
    while m < inv.monitors.len()
        invariant
            m <= inv.monitors@.len(),
            inv.monitors@.len() < usize::MAX,
            f == first_source_step(*inv),
            first == grounded_bodies(inv.bodies@).len() + inv.joints@.len() + inv.drivers@.len(),
            allocator.next == base + f + first + m,
            1 <= base,
            base + f + first + m <= u128::MAX,
            body_map@ == body_pairs(*inv, base),
            point_map@ == point_pairs(*inv, base),
            axis_map@ == axis_pairs(*inv, base),
            first_capture_error(*inv, base, f + first) == first_capture_error(*inv, base, f + first + m),
            sources_captured(*inv, base, sources@, map_sources@, first + m),
        decreases inv.monitors@.len() - m,
    {
        let monitor = inv.monitors[m];
        let topology = monitor_references(monitor.monitor);
        let label = match monitor.monitor {
            BranchMonitor::Orientation { .. } => numbered("orientation branch monitor ", m + 1),
            BranchMonitor::DirectedDisplacement { .. } => numbered("directed displacement branch monitor ", m + 1),
        };
        let record = capture_one_source(inv, body_map, point_map, axis_map, allocator, topology, label, Ghost(base), Ghost(first + m))?;
        map_sources.push((record.id, PlanarRuntimeSource::BranchMonitor(monitor.runtime)));
        sources.push(record);
        m = m + 1;
    }
    Ok(())
}

/// The captured structure and identity map follow the allocation order from
/// the identity after the document's.
pub open spec fn captured_as(inv: PlanarLinkageInventory, id: PlanarDocumentId, s: PlanarStructure, map: PlanarLinkageRuntimeMap) -> bool {
    let base = id.0 + 1;
    let nb = inv.bodies@.len() as int;
    let np = inv.point_features@.len() as int;
    let na = inv.axis_features@.len() as int;
    &&& s.version == PLANAR_LINKAGE_DOCUMENT_VERSION
    &&& s.id == id
    &&& s.next_id == base + capture_count(inv)
    &&& s.bodies@.len() == nb
    &&& forall|k: int| 0 <= k < nb ==> #[trigger] s.bodies@[k].id == PlanarBodyId((base + k) as u128)
        && s.bodies@[k].label == inv.bodies@[k].label
    &&& s.point_features@.len() == np
    &&& forall|k: int| 0 <= k < np ==> {
        &&& (#[trigger] s.point_features@[k]).id == PlanarFeatureId((base + nb + k) as u128)
        &&& s.point_features@[k].label == inv.point_features@[k].label
        &&& Ok::<PlanarBodyId, PlanarLinkageError>(s.point_features@[k].body) == captured(body_pairs(inv, base), inv.point_features@[k].body, PlanarField::RuntimeBodyMapping)
    }
    &&& s.axis_features@.len() == na
    &&& forall|k: int| 0 <= k < na ==> {
        &&& (#[trigger] s.axis_features@[k]).id == PlanarFeatureId((base + nb + np + k) as u128)
        &&& s.axis_features@[k].label == inv.axis_features@[k].label
        &&& Ok::<PlanarBodyId, PlanarLinkageError>(s.axis_features@[k].body) == captured(body_pairs(inv, base), inv.axis_features@[k].body, PlanarField::RuntimeBodyMapping)
    }
    &&& sources_captured(inv, base, s.sources@, map.sources@, source_count(inv))
    &&& s.source_order@ == s.sources@.map_values(|r: PlanarSourceRecord| r.id)
    &&& s.body_states@ == s.bodies@.map_values(|b: PlanarBody| b.id)
    &&& s.driver_states@ == Seq::new(inv.drivers@.len(), |d: int| PlanarSourceId((base + first_source_step(inv)
        + grounded_bodies(inv.bodies@).len() + inv.joints@.len() + d) as u128))
    &&& map.bodies@ == Seq::new(inv.bodies@.len(), |k: int| (PlanarBodyId((base + k) as u128), inv.bodies@[k].runtime))
    &&& map.features@ == Seq::new(inv.point_features@.len(), |k: int| (PlanarFeatureId((base + nb + k) as u128), PlanarRuntimeFeature::Point(inv.point_features@[k].runtime)))
        + Seq::new(inv.axis_features@.len(), |k: int| (PlanarFeatureId((base + nb + np + k) as u128), PlanarRuntimeFeature::Axis(inv.axis_features@[k].runtime)))
}

fn source_ids_of(sources: &Vec<PlanarSourceRecord>) -> (ids: Vec<PlanarSourceId>)
    ensures
        ids@ == sources@.map_values(|r: PlanarSourceRecord| r.id),
{
    let mut ids: Vec<PlanarSourceId> = Vec::new();
    let mut i: usize = 0;
    while i < sources.len()
        invariant
            i <= sources@.len(),
            ids@ == sources@.take(i as int).map_values(|r: PlanarSourceRecord| r.id),
        decreases sources@.len() - i,
    {
        proof {
            assert(sources@.take(i + 1).map_values(|r: PlanarSourceRecord| r.id) =~= sources@.take(i as int).map_values(|r: PlanarSourceRecord| r.id).push(sources@[i as int].id));
        }
        ids.push(sources[i].id);
        i = i + 1;
    }
    proof {
        assert(sources@.take(i as int) =~= sources@);
    }
    ids
}

fn body_ids_of(bodies: &Vec<PlanarBody>) -> (ids: Vec<PlanarBodyId>)
    ensures
        ids@ == bodies@.map_values(|b: PlanarBody| b.id),
{
    let mut ids: Vec<PlanarBodyId> = Vec::new();
    let mut i: usize = 0;
    while i < bodies.len()
        invariant
            i <= bodies@.len(),
            ids@ == bodies@.take(i as int).map_values(|b: PlanarBody| b.id),
        decreases bodies@.len() - i,
    {
        proof {
            assert(bodies@.take(i + 1).map_values(|b: PlanarBody| b.id) =~= bodies@.take(i as int).map_values(|b: PlanarBody| b.id).push(bodies@[i as int].id));
        }
        ids.push(bodies[i].id);
        i = i + 1;
    }
    proof {
        assert(bodies@.take(i as int) =~= bodies@);
    }
    ids
}

/// Captures a runtime linkage as the structure of a new persistent document
/// `id` and its identity map. Identities are allocated from the one after the
/// document's, in the order bodies, point features, axis features, physical
/// grounds (of grounded bodies, in body order), joints, drivers, branch
/// monitors; each source is captured in that order and listed in the source
/// order; every body and driver has accepted state. Rejects a zero document
/// identity, an exhausted identity space, and a runtime reference without a
/// captured counterpart, the first in allocation order.
pub fn capture_structure(id: PlanarDocumentId, inv: &PlanarLinkageInventory) -> (result: Result<(PlanarStructure, PlanarLinkageRuntimeMap), PlanarLinkageError>)
    requires
        inv.monitors@.len() < usize::MAX,
    ensures
        match capture_error(*inv, id) {
            Some(error) => result == Err::<(PlanarStructure, PlanarLinkageRuntimeMap), _>(error),
            None => result matches Ok((s, map)) && captured_as(*inv, id, s, map),
        },
{
    let mut allocator = IdAllocator::new(id)?;
    let ghost base = id.0 + 1;
    let (body_map, bodies, map_bodies) = capture_bodies(inv, &mut allocator, Ghost(base))?;
    let (point_map, point_features, map_points) = capture_points(inv, &body_map, &mut allocator, Ghost(base))?;
    let (axis_map, axis_features, map_axes) = capture_axes(inv, &body_map, &mut allocator, Ghost(base))?;
    let mut sources: Vec<PlanarSourceRecord> = Vec::new();
    let mut map_sources: Vec<(PlanarSourceId, PlanarRuntimeSource)> = Vec::new();
    let mut driver_states: Vec<PlanarSourceId> = Vec::new();
    capture_grounds(inv, &body_map, &point_map, &axis_map, &mut allocator, &mut sources, &mut map_sources, Ghost(base))?;
    capture_joints(inv, &body_map, &point_map, &axis_map, &mut allocator, &mut sources, &mut map_sources, Ghost(base))?;
    capture_drivers(inv, &body_map, &point_map, &axis_map, &mut allocator, &mut sources, &mut map_sources, Ghost(base), &mut driver_states)?;
    capture_monitors(inv, &body_map, &point_map, &axis_map, &mut allocator, &mut sources, &mut map_sources, Ghost(base))?;
    let mut map_features = map_points;
    let mut axes_entries = map_axes;
    map_features.append(&mut axes_entries);
    let source_order = source_ids_of(&sources);
    let body_states = body_ids_of(&bodies);
    let structure = PlanarStructure {
        version: PLANAR_LINKAGE_DOCUMENT_VERSION,
        id,
        next_id: allocator.next,
        bodies,
        point_features,
        axis_features,
        sources,
        source_order,
        body_states,
        driver_states,
    };
    let map = PlanarLinkageRuntimeMap { bodies: map_bodies, features: map_features, sources: map_sources };
    proof {
        assert(first_capture_error(*inv, base, capture_count(*inv)) is None);
    }
    Ok((structure, map))
}

/// The references of a joint, without its weld angle.
pub open spec fn joint_shape(kind: JointKind) -> JointTopology {
    match kind {
        JointKind::Revolute { first, second } => JointTopology::Revolute { first, second },
        JointKind::Prismatic { first_anchor, first_axis, second_anchor, second_axis, axis_branch } => JointTopology::Prismatic {
            first_anchor,
            first_axis,
            second_anchor,
            second_axis,
            axis_branch,
        },
        JointKind::Weld { first, second, .. } => JointTopology::Weld { first, second },
    }
}

/// The relative angle of a weld; other joints have none.
pub open spec fn weld_angle_of(kind: JointKind) -> Option<u64> {
    match kind {
        JointKind::Weld { relative_angle, .. } => Some(relative_angle),
        _ => None,
    }
}

fn weld_angle(kind: JointKind) -> (angle: Option<u64>)
    ensures
        angle == weld_angle_of(kind),
{
    match kind {
        JointKind::Weld { relative_angle, .. } => Some(relative_angle),
        _ => None,
    }
}

fn topology_of(kind: JointKind) -> (topology: JointTopology)
    ensures
        topology == joint_shape(kind),
{
    match kind {
        JointKind::Revolute { first, second } => JointTopology::Revolute { first, second },
        JointKind::Prismatic { first_anchor, first_axis, second_anchor, second_axis, axis_branch } => JointTopology::Prismatic {
            first_anchor,
            first_axis,
            second_anchor,
            second_axis,
            axis_branch,
        },
        JointKind::Weld { first, second, .. } => JointTopology::Weld { first, second },
    }
}

/// `inv` records what `linkage` holds: each list follows the linkage's held
/// objects in the order they were added, with their keys, labels and
/// references; no body has a ground label of its own.
pub open spec fn inventory_of(linkage: Linkage, inv: PlanarLinkageInventory) -> bool {
    let bodies = live_keys(linkage.body_keys(), linkage.body_map());
    let points = live_keys(linkage.point_keys(), linkage.point_map());
    let axes = live_keys(linkage.axis_keys(), linkage.axis_map());
    let joints = live_keys(linkage.joint_keys(), linkage.joint_map());
    let drivers = live_keys(linkage.driver_keys(), linkage.driver_map());
    let monitors = live_keys(linkage.monitor_keys(), linkage.monitor_map());
    &&& inv.bodies@.len() == bodies.len()
    &&& forall|i: int| 0 <= i < bodies.len() ==> {
        let b = #[trigger] inv.bodies@[i];
        &&& b.runtime == BodyId(bodies[i])
        &&& b.label@ == linkage.body_map()[bodies[i]].label@
        &&& b.pose == linkage.body_map()[bodies[i]].pose
        &&& b.grounded == linkage.body_map()[bodies[i]].grounded
        &&& b.ground_label is None
    }
    &&& inv.point_features@.len() == points.len()
    &&& forall|i: int| 0 <= i < points.len() ==> {
        let f = #[trigger] inv.point_features@[i];
        &&& f.runtime == PointFeatureId(points[i])
        &&& f.label@ == linkage.point_map()[points[i]].label@
        &&& f.body == linkage.point_map()[points[i]].body
        &&& f.local == linkage.point_map()[points[i]].local_point
    }
    &&& inv.axis_features@.len() == axes.len()
    &&& forall|i: int| 0 <= i < axes.len() ==> {
        let f = #[trigger] inv.axis_features@[i];
        &&& f.runtime == AxisFeatureId(axes[i])
        &&& f.label@ == linkage.axis_map()[axes[i]].label@
        &&& f.body == linkage.axis_map()[axes[i]].body
        &&& f.local == linkage.axis_map()[axes[i]].local_axis
    }
    &&& inv.joints@.len() == joints.len()
    &&& forall|i: int| 0 <= i < joints.len() ==> {
        let j = #[trigger] inv.joints@[i];
        &&& j.runtime == JointId(joints[i])
        &&& j.label@ == linkage.joint_map()[joints[i]].label@
        &&& j.kind == joint_shape(linkage.joint_map()[joints[i]].kind)
        &&& j.weld_angle == weld_angle_of(linkage.joint_map()[joints[i]].kind)
    }
    &&& inv.drivers@.len() == drivers.len()
    &&& forall|i: int| 0 <= i < drivers.len() ==> {
        let d = #[trigger] inv.drivers@[i];
        &&& d.runtime == DriverId(drivers[i])
        &&& d.label@ == linkage.driver_map()[drivers[i]].label@
        &&& d.kind == linkage.driver_map()[drivers[i]].kind
        &&& d.target == linkage.driver_map()[drivers[i]].target
        &&& d.max_continuation_step == linkage.driver_map()[drivers[i]].max_continuation_step
    }
    &&& inv.monitors@.len() == monitors.len()
    &&& forall|i: int| 0 <= i < monitors.len() ==> {
        let m = #[trigger] inv.monitors@[i];
        &&& m.runtime == BranchMonitorId(monitors[i])
        &&& m.monitor == linkage.monitor_map()[monitors[i]]
    }
}

/// What a runtime linkage holds that its persistent document records.
pub fn linkage_inventory(linkage: &Linkage) -> (inv: PlanarLinkageInventory)
    requires
        linkage.wf(),
    ensures
        inventory_of(*linkage, inv),
{
    let listed = linkage.bodies();
    let mut bodies: Vec<CapturedBody> = Vec::new();
    let mut i: usize = 0;
    while i < listed.len()
        invariant
            i <= listed@.len(),
            bodies@.len() == i,
            forall|j: int| 0 <= j < i ==> {
                let b = #[trigger] bodies@[j];
                &&& b.runtime == listed@[j].0
                &&& b.label@ == listed@[j].1.label@
                &&& b.pose == listed@[j].1.pose
                &&& b.grounded == listed@[j].1.grounded
                &&& b.ground_label is None
            },
        decreases listed@.len() - i,
    {
        let (runtime, body) = listed[i];
        bodies.push(CapturedBody { runtime, label: body.label.clone(), pose: body.pose, grounded: body.grounded, ground_label: None });
        i = i + 1;
    }
    let listed = linkage.point_features();
    let mut point_features: Vec<CapturedFeature<PointFeatureId>> = Vec::new();
    let mut i: usize = 0;
    while i < listed.len()
        invariant
            i <= listed@.len(),
            point_features@.len() == i,
            forall|j: int| 0 <= j < i ==> {
                let f = #[trigger] point_features@[j];
                &&& f.runtime == listed@[j].0
                &&& f.label@ == listed@[j].1.label@
                &&& f.body == listed@[j].1.body
                &&& f.local == listed@[j].1.local_point
            },
        decreases listed@.len() - i,
    {
        let (runtime, feature) = listed[i];
        point_features.push(CapturedFeature { runtime, label: feature.label.clone(), body: feature.body, local: feature.local_point });
        i = i + 1;
    }
    let listed = linkage.axis_features();
    let mut axis_features: Vec<CapturedFeature<AxisFeatureId>> = Vec::new();
    let mut i: usize = 0;
    while i < listed.len()
        invariant
            i <= listed@.len(),
            axis_features@.len() == i,
            forall|j: int| 0 <= j < i ==> {
                let f = #[trigger] axis_features@[j];
                &&& f.runtime == listed@[j].0
                &&& f.label@ == listed@[j].1.label@
                &&& f.body == listed@[j].1.body
                &&& f.local == listed@[j].1.local_axis
            },
        decreases listed@.len() - i,
    {
        let (runtime, feature) = listed[i];
        axis_features.push(CapturedFeature { runtime, label: feature.label.clone(), body: feature.body, local: feature.local_axis });
        i = i + 1;
    }
    let listed = linkage.joints();
    let mut joints: Vec<CapturedJoint> = Vec::new();
    let mut i: usize = 0;
    while i < listed.len()
        invariant
            i <= listed@.len(),
            joints@.len() == i,
            forall|j: int| 0 <= j < i ==> {
                let c = #[trigger] joints@[j];
                &&& c.runtime == listed@[j].0
                &&& c.label@ == listed@[j].1.label@
                &&& c.kind == joint_shape(listed@[j].1.kind)
                &&& c.weld_angle == weld_angle_of(listed@[j].1.kind)
            },
        decreases listed@.len() - i,
    {
        let (runtime, joint) = listed[i];
        joints.push(CapturedJoint { runtime, label: joint.label.clone(), kind: topology_of(joint.kind), weld_angle: weld_angle(joint.kind) });
        i = i + 1;
    }
    let listed = linkage.drivers();
    let mut drivers: Vec<CapturedDriver> = Vec::new();
    let mut i: usize = 0;
    while i < listed.len()
        invariant
            i <= listed@.len(),
            drivers@.len() == i,
            forall|j: int| 0 <= j < i ==> {
                let d = #[trigger] drivers@[j];
                &&& d.runtime == listed@[j].0
                &&& d.label@ == listed@[j].1.label@
                &&& d.kind == listed@[j].1.kind
                &&& d.target == listed@[j].1.target
                &&& d.max_continuation_step == listed@[j].1.max_continuation_step
            },
        decreases listed@.len() - i,
    {
        let (runtime, driver) = listed[i];
        drivers.push(CapturedDriver {
            runtime,
            label: driver.label.clone(),
            kind: driver.kind,
            target: driver.target,
            max_continuation_step: driver.max_continuation_step,
        });
        i = i + 1;
    }
    let listed = linkage.branch_monitors();
    let mut monitors: Vec<CapturedMonitor> = Vec::new();
    let mut i: usize = 0;
    while i < listed.len()
        invariant
            i <= listed@.len(),
            monitors@.len() == i,
            forall|j: int| 0 <= j < i ==> {
                let m = #[trigger] monitors@[j];
                &&& m.runtime == listed@[j].0
                &&& m.monitor == *listed@[j].1
            },
        decreases listed@.len() - i,
    {
        let (runtime, monitor) = listed[i];
        monitors.push(CapturedMonitor { runtime, monitor: *monitor });
        i = i + 1;
    }
    PlanarLinkageInventory { bodies, point_features, axis_features, joints, drivers, monitors }
}

proof fn lemma_live_keys_len<V>(order: Seq<u64>, held: Map<u64, V>)
    ensures
        live_keys(order, held).len() <= order.len(),
    decreases order.len(),
{
    if order.len() > 0 {
        lemma_live_keys_len(order.drop_last(), held);
    }
}

/// Captures a runtime linkage as a persistent document structure, from what
/// the linkage holds (see [`capture_structure`]).
pub fn capture_linkage(id: PlanarDocumentId, linkage: &Linkage) -> (result: Result<(PlanarStructure, PlanarLinkageRuntimeMap), PlanarLinkageError>)
    requires
        linkage.wf(),
        linkage.monitor_keys().len() < usize::MAX,
    ensures
        exists|inv: PlanarLinkageInventory| {
            &&& inventory_of(*linkage, inv)
            &&& match capture_error(inv, id) {
                Some(error) => result == Err::<(PlanarStructure, PlanarLinkageRuntimeMap), _>(error),
                None => result matches Ok((s, map)) && captured_as(inv, id, s, map),
            }
        },
{
    let inv = linkage_inventory(linkage);
    proof {
        lemma_live_keys_len(linkage.monitor_keys(), linkage.monitor_map());
    }
    capture_structure(id, &inv)
}

/// The continuous parameters of the source captured at source position `q`:
/// the relative angle of a weld, the maximum continuation step of a driver,
/// zero where a source has no such parameter.
pub open spec fn captured_source_values(inv: PlanarLinkageInventory, q: int) -> PlanarSourceValues {
    let ng = grounded_bodies(inv.bodies@).len() as int;
    let nj = inv.joints@.len() as int;
    let nd = inv.drivers@.len() as int;
    if ng <= q < ng + nj {
        PlanarSourceValues {
            relative_angle: match inv.joints@[q - ng].weld_angle {
                Some(angle) => angle,
                None => 0,
            },
            max_continuation_step: 0,
        }
    } else if ng + nj <= q < ng + nj + nd {
        PlanarSourceValues { relative_angle: 0, max_continuation_step: inv.drivers@[q - ng - nj].max_continuation_step }
    } else {
        PlanarSourceValues { relative_angle: 0, max_continuation_step: 0 }
    }
}

/// The accepted target of the source captured at source position `q`: a
/// driver's target; other sources have none.
pub open spec fn captured_source_target(inv: PlanarLinkageInventory, q: int) -> Option<u64> {
    let ng = grounded_bodies(inv.bodies@).len() as int;
    let nj = inv.joints@.len() as int;
    let nd = inv.drivers@.len() as int;
    if ng + nj <= q < ng + nj + nd {
        Some(inv.drivers@[q - ng - nj].target)
    } else {
        None
    }
}

/// `v` holds the continuous state of the inventory in the captured document's
/// order: the model scale and accepted work plane, each body's accepted pose,
/// each point's local point, each axis's local (already normalized) axis, and
/// per captured source its parameters and accepted target.
pub open spec fn captured_values(inv: PlanarLinkageInventory, model_scale: u64, plane_frame: PlaneFrameBits, v: PlanarLoweringValues) -> bool {
    &&& v.model_scale == model_scale
    &&& v.plane_frame == plane_frame
    &&& v.frame_rejection is None
    &&& v.body_poses@ == inv.bodies@.map_values(|b: CapturedBody| b.pose)
    &&& v.point_locals@ == inv.point_features@.map_values(|f: CapturedFeature<PointFeatureId>| f.local)
    &&& v.axis_locals@ == inv.axis_features@.map_values(|f: CapturedFeature<AxisFeatureId>| Some(f.local))
    &&& v.source_values@ == Seq::new(source_count(inv) as nat, |q: int| captured_source_values(inv, q))
    &&& v.source_targets@ == Seq::new(source_count(inv) as nat, |q: int| captured_source_target(inv, q))
}

/// The continuous state of an inventory, in the order its document captures it.
pub fn capture_values(inv: &PlanarLinkageInventory, model_scale: u64, plane_frame: PlaneFrameBits) -> (v: PlanarLoweringValues)
    requires
        source_count(*inv) <= usize::MAX,
    ensures
        captured_values(*inv, model_scale, plane_frame, v),
{
    let mut point_locals: Vec<PlanarBits> = Vec::new();
    let mut i: usize = 0;
    while i < inv.point_features.len()
        invariant
            i <= inv.point_features@.len(),
            point_locals@.len() == i,
            forall|k: int| 0 <= k < i ==> #[trigger] point_locals@[k] == inv.point_features@[k].local,
        decreases inv.point_features@.len() - i,
    {
        point_locals.push(inv.point_features[i].local);
        i = i + 1;
    }
    let mut axis_locals: Vec<Option<PlanarBits>> = Vec::new();
    let mut i: usize = 0;
    while i < inv.axis_features.len()
        invariant
            i <= inv.axis_features@.len(),
            axis_locals@.len() == i,
            forall|k: int| 0 <= k < i ==> #[trigger] axis_locals@[k] == Some(inv.axis_features@[k].local),
        decreases inv.axis_features@.len() - i,
    {
        axis_locals.push(Some(inv.axis_features[i].local));
        i = i + 1;
    }
    let mut body_poses: Vec<PoseBits> = Vec::new();
    let mut source_values: Vec<PlanarSourceValues> = Vec::new();
    let mut source_targets: Vec<Option<u64>> = Vec::new();
    let none = PlanarSourceValues { relative_angle: 0, max_continuation_step: 0 };
    let ghost ng = grounded_bodies(inv.bodies@).len() as int;
    let mut i: usize = 0;
    while i < inv.bodies.len()
        invariant
            i <= inv.bodies@.len(),
            none == (PlanarSourceValues { relative_angle: 0, max_continuation_step: 0 }),
            body_poses@.len() == i,
            forall|k: int| 0 <= k < i ==> #[trigger] body_poses@[k] == inv.bodies@[k].pose,
            source_values@.len() == grounded_bodies(inv.bodies@.take(i as int)).len(),
            source_targets@.len() == source_values@.len(),
            forall|q: int| 0 <= q < source_values@.len() ==> #[trigger] source_values@[q] == none,
            forall|q: int| 0 <= q < source_targets@.len() ==> #[trigger] source_targets@[q] is None,
        decreases inv.bodies@.len() - i,
    {
        proof {
            lemma_grounded_step(inv.bodies@, i as int);
        }
        body_poses.push(inv.bodies[i].pose);
        if inv.bodies[i].grounded {
            source_values.push(none);
            source_targets.push(None);
        }
        i = i + 1;
    }
    proof {
        assert(inv.bodies@.take(i as int) =~= inv.bodies@);
        assert(body_poses@ =~= inv.bodies@.map_values(|b: CapturedBody| b.pose));
        assert forall|q: int| 0 <= q < ng implies #[trigger] source_values@[q] == captured_source_values(*inv, q) by {}
        assert forall|q: int| 0 <= q < ng implies #[trigger] source_targets@[q] == captured_source_target(*inv, q) by {}
    }
    let mut i: usize = 0;
    while i < inv.joints.len()
        invariant
            i <= inv.joints@.len(),
            source_count(*inv) <= usize::MAX,
            ng == grounded_bodies(inv.bodies@).len(),
            source_values@.len() == ng + i,
            source_targets@.len() == source_values@.len(),
            forall|q: int| 0 <= q < source_values@.len() ==> #[trigger] source_values@[q] == captured_source_values(*inv, q),
            forall|q: int| 0 <= q < source_targets@.len() ==> #[trigger] source_targets@[q] == captured_source_target(*inv, q),
        decreases inv.joints@.len() - i,
    {
        let relative_angle = match inv.joints[i].weld_angle {
            Some(angle) => angle,
            None => 0,
        };
        source_values.push(PlanarSourceValues { relative_angle, max_continuation_step: 0 });
        source_targets.push(None);
        i = i + 1;
    }
    let mut i: usize = 0;
    while i < inv.drivers.len()
        invariant
            i <= inv.drivers@.len(),
            source_count(*inv) <= usize::MAX,
            ng == grounded_bodies(inv.bodies@).len(),
            source_values@.len() == ng + inv.joints@.len() + i,
            source_targets@.len() == source_values@.len(),
            forall|q: int| 0 <= q < source_values@.len() ==> #[trigger] source_values@[q] == captured_source_values(*inv, q),
            forall|q: int| 0 <= q < source_targets@.len() ==> #[trigger] source_targets@[q] == captured_source_target(*inv, q),
        decreases inv.drivers@.len() - i,
    {
        source_values.push(PlanarSourceValues { relative_angle: 0, max_continuation_step: inv.drivers[i].max_continuation_step });
        source_targets.push(Some(inv.drivers[i].target));
        i = i + 1;
    }
    let mut i: usize = 0;
    while i < inv.monitors.len()
        invariant
            i <= inv.monitors@.len(),
            source_count(*inv) <= usize::MAX,
            ng == grounded_bodies(inv.bodies@).len(),
            source_values@.len() == ng + inv.joints@.len() + inv.drivers@.len() + i,
            source_targets@.len() == source_values@.len(),
            forall|q: int| 0 <= q < source_values@.len() ==> #[trigger] source_values@[q] == captured_source_values(*inv, q),
            forall|q: int| 0 <= q < source_targets@.len() ==> #[trigger] source_targets@[q] == captured_source_target(*inv, q),
        decreases inv.monitors@.len() - i,
    {
        source_values.push(PlanarSourceValues { relative_angle: 0, max_continuation_step: 0 });
        source_targets.push(None);
        i = i + 1;
    }
    proof {
        assert(point_locals@ =~= inv.point_features@.map_values(|f: CapturedFeature<PointFeatureId>| f.local));
        assert(axis_locals@ =~= inv.axis_features@.map_values(|f: CapturedFeature<AxisFeatureId>| Some(f.local)));
        assert(source_values@ =~= Seq::new(source_count(*inv) as nat, |q: int| captured_source_values(*inv, q)));
        assert(source_targets@ =~= Seq::new(source_count(*inv) as nat, |q: int| captured_source_target(*inv, q)));
    }
    PlanarLoweringValues {
        model_scale,
        plane_frame,
        frame_rejection: None,
        body_poses,
        point_locals,
        axis_locals,
        source_values,
        source_targets,
    }
}

/// A persistent planar linkage document: its discrete structure, its
/// continuous values as bit patterns (model scale, work plane, accepted poses,
/// local points and axes, source parameters and accepted targets), the
/// revision of its accepted state and its gauge policy.
#[derive(Clone, Debug, PartialEq, Eq)]
pub struct PlanarLinkageDocument {
    pub structure: PlanarStructure,
    pub values: PlanarLoweringValues,
    pub revision: u64,
    pub gauge_policy: PlanarGaugePolicy,
}

/// `sorted` holds the identities of `bodies` in ascending order: each entry
/// is the entry of `bodies` at its own position, the positions taken once each.
pub open spec fn sorted_references(bodies: Seq<PlanarBodyId>, sorted: Seq<PlanarBodyId>) -> bool {
    &&& sorted.len() == bodies.len()
    &&& forall|i: int, j: int| 0 <= i < j < sorted.len() ==> #[trigger] sorted[i].0 <= #[trigger] sorted[j].0
    &&& exists|order: Seq<int>| {
        &&& #[trigger] order.len() == bodies.len()
        &&& forall|k: int| 0 <= k < order.len() ==> 0 <= #[trigger] order[k] < bodies.len() && sorted[k] == bodies[order[k]]
        &&& forall|k: int, l: int| 0 <= k < l < order.len() ==> #[trigger] order[k] != #[trigger] order[l]
    }
}

/// `canonical` is `policy` with its explicit references in ascending order.
pub open spec fn canonical_policy(policy: PlanarGaugePolicy, canonical: PlanarGaugePolicy) -> bool {
    match policy {
        PlanarGaugePolicy::LowestPersistentBody => canonical == PlanarGaugePolicy::LowestPersistentBody,
        PlanarGaugePolicy::ExplicitReferences { bodies } => canonical matches PlanarGaugePolicy::ExplicitReferences { bodies: sorted }
            && sorted_references(bodies@, sorted@),
    }
}

fn canonicalize_policy(policy: PlanarGaugePolicy) -> (canonical: PlanarGaugePolicy)
    ensures
        canonical_policy(policy, canonical),
{
    match policy {
        PlanarGaugePolicy::LowestPersistentBody => PlanarGaugePolicy::LowestPersistentBody,
        PlanarGaugePolicy::ExplicitReferences { bodies } => {
            let mut keys: Vec<u128> = Vec::new();
            let mut i: usize = 0;
            while i < bodies.len()
                invariant
                    i <= bodies@.len(),
                    keys@.len() == i,
                    forall|k: int| 0 <= k < i ==> keys@[k] == (#[trigger] bodies@[k]).0,
                decreases bodies@.len() - i,
            {
                keys.push(bodies[i].0);
                i = i + 1;
            }
            let order = stable_ascending_order(&keys);
            let mut sorted: Vec<PlanarBodyId> = Vec::new();
            let mut k: usize = 0;
            while k < order.len()
                invariant
                    k <= order@.len(),
                    order@.len() == bodies@.len(),
                    keys@.len() == bodies@.len(),
                    forall|q: int| 0 <= q < keys@.len() ==> keys@[q] == (#[trigger] bodies@[q]).0,
                    forall|q: int| 0 <= q < order@.len() ==> #[trigger] order@[q] < keys@.len(),
                    sorted@.len() == k,
                    forall|q: int| 0 <= q < k ==> #[trigger] sorted@[q] == bodies@[order@[q] as int],
                decreases order@.len() - k,
            {
                sorted.push(bodies[order[k]]);
                k = k + 1;
            }
            proof {
                let witness = order@.map_values(|q: usize| q as int);
                assert forall|a: int, b: int| 0 <= a < b < sorted@.len() implies #[trigger] sorted@[a].0 <= #[trigger] sorted@[b].0 by {
                    assert(key_position_before(keys@, order@[a] as int, order@[b] as int));
                }
                assert forall|a: int, b: int| 0 <= a < b < witness.len() implies #[trigger] witness[a] != #[trigger] witness[b] by {
                    assert(key_position_before(keys@, order@[a] as int, order@[b] as int));
                }
                assert(witness.len() == bodies@.len());
                assert forall|q: int| 0 <= q < witness.len() implies 0 <= #[trigger] witness[q] < bodies@.len() && sorted@[q] == bodies@[witness[q]] by {
                    assert(order@[q] < keys@.len());
                }
            }
            PlanarGaugePolicy::ExplicitReferences { bodies: sorted }
        },
    }
}

impl PlanarLinkageDocument {
    /// Replaces the gauge policy (its explicit references put in ascending
    /// order) where the document with it passes validation and gauge
    /// certification; otherwise rejects it and keeps the document.
    pub fn set_gauge_policy(&mut self, policy: PlanarGaugePolicy) -> (result: Result<(), PlanarLinkageError>)
        ensures
            match structure_error(old(self).structure) {
                Some(error) => result == Err::<(), _>(error) && *final(self) == *old(self),
                None => match result {
                    Ok(()) => {
                        &&& canonical_policy(policy, final(self).gauge_policy)
                        &&& final(self).structure == old(self).structure
                        &&& final(self).values == old(self).values
                        &&& final(self).revision == old(self).revision
                        &&& exists|components: Seq<CertifiedPlanarComponent>| #[trigger] certifies_components(old(self).structure, components)
                            && reference_choices(component_grounded(components), component_groups(components), explicit_list(final(self).gauge_policy)) is Ok
                    },
                    Err(error) => {
                        &&& *final(self) == *old(self)
                        &&& exists|canonical: PlanarGaugePolicy, components: Seq<CertifiedPlanarComponent>| {
                            &&& #[trigger] canonical_policy(policy, canonical)
                            &&& #[trigger] certifies_components(old(self).structure, components)
                            &&& reference_choices(component_grounded(components), component_groups(components), explicit_list(canonical)) matches Err(violation)
                            &&& error == planar_gauge_error(violation)
                        }
                    },
                },
            },
    {
        validate_topology(&self.structure)?;
        let canonical = canonicalize_policy(policy);
        match certify_gauge(&self.structure, &canonical) {
            Ok(_) => {
                self.gauge_policy = canonical;
                Ok(())
            },
            Err(error) => Err(error),
        }
    }

    /// Captures a runtime linkage as a fresh document: the captured structure,
    /// the linkage's continuous state (model scale, work plane, body poses,
    /// local feature values, weld angles, driver steps and targets, in the
    /// document's order), accepted-state revision zero and the default gauge
    /// policy; the structure must pass validation and gauge certification.
    pub fn from_linkage(id: PlanarDocumentId, linkage: &Linkage) -> (result: Result<(PlanarLinkageDocument, PlanarLinkageRuntimeMap), PlanarLinkageError>)
        requires
            linkage.wf(),
            linkage.monitor_keys().len() < usize::MAX,
        ensures
            exists|inv: PlanarLinkageInventory| {
                &&& inventory_of(*linkage, inv)
                &&& match capture_error(inv, id) {
                    Some(error) => result == Err::<(PlanarLinkageDocument, PlanarLinkageRuntimeMap), _>(error),
                    None => match result {
                        Ok((d, map)) => {
                            &&& captured_as(inv, id, d.structure, map)
                            &&& structure_error(d.structure) is None
                            &&& d.revision == 0
                            &&& d.gauge_policy == PlanarGaugePolicy::LowestPersistentBody
                            &&& captured_values(inv, linkage.scale(), linkage.frame(), d.values)
                        },
                        Err(error) => exists|s: PlanarStructure, map: PlanarLinkageRuntimeMap| {
                            &&& captured_as(inv, id, s, map)
                            &&& (structure_error(s) == Some(error) || (structure_error(s) is None
                                && exists|components: Seq<CertifiedPlanarComponent>| #[trigger] certifies_components(s, components)
                                    && (reference_choices(component_grounded(components), component_groups(components), explicit_list(PlanarGaugePolicy::LowestPersistentBody))
                                        matches Err(violation) && error == planar_gauge_error(violation))))
                        },
                    },
                }
            },
    {
        let inv = linkage_inventory(linkage);
        proof {
            lemma_live_keys_len(linkage.monitor_keys(), linkage.monitor_map());
        }
        let (structure, map) = capture_structure(id, &inv)?;
        validate_topology(&structure)?;
        let policy = PlanarGaugePolicy::LowestPersistentBody;
        certify_gauge(&structure, &policy)?;
        proof {
            assert(structure.sources@.len() == source_count(inv));
        }
        let values = capture_values(&inv, linkage.model_scale(), linkage.plane_frame());
        Ok((
            PlanarLinkageDocument {
                structure,
                values,
                revision: 0,
                gauge_policy: PlanarGaugePolicy::LowestPersistentBody,
            },
            map,
        ))
    }
}

proof fn lemma_gauge_verdict_unique(s: PlanarStructure, first: Seq<CertifiedPlanarComponent>, second: Seq<CertifiedPlanarComponent>, policy: PlanarGaugePolicy)
    requires
        certifies_components(s, first),
        certifies_components(s, second),
    ensures
        reference_choices(component_grounded(first), component_groups(first), explicit_list(policy))
            == reference_choices(component_grounded(second), component_groups(second), explicit_list(policy)),
{
    crate::planar::lemma_certified_components_unique(s, first, second);
    assert(component_grounded(first) =~= component_grounded(second));
    assert(component_groups(first) =~= component_groups(second));
}

impl PlanarLinkageDocument {
    /// Lowers the document into a runtime linkage, with the map from its
    /// persistent identities to the runtime ones: the structure must pass
    /// validation and gauge certification under the document's policy, and its
    /// values must list one entry per object, before the lowering proper (see
    /// [`lower_document`]).
    pub fn lower(&self) -> (result: Result<(Linkage, PlanarLinkageRuntimeMap), PlanarLinkageError>)
        ensures
            match structure_error(self.structure) {
                Some(error) => result == Err::<(Linkage, PlanarLinkageRuntimeMap), _>(error),
                None => {
                    let gauge = exists|components: Seq<CertifiedPlanarComponent>| #[trigger] certifies_components(self.structure, components)
                        && reference_choices(component_grounded(components), component_groups(components), explicit_list(self.gauge_policy)) is Ok;
                    &&& !gauge ==> exists|components: Seq<CertifiedPlanarComponent>| #[trigger] certifies_components(self.structure, components)
                        && (reference_choices(component_grounded(components), component_groups(components), explicit_list(self.gauge_policy))
                            matches Err(violation) && result == Err::<(Linkage, PlanarLinkageRuntimeMap), _>(planar_gauge_error(violation)))
                    &&& gauge && !values_fit(self.structure, self.values) ==> result
                        == Err::<(Linkage, PlanarLinkageRuntimeMap), _>(PlanarLinkageError::IncompleteAcceptedState)
                    &&& gauge && values_fit(self.structure, self.values) ==> match document_lowering_error(self.structure, self.values) {
                        Some(error) => result == Err::<(Linkage, PlanarLinkageRuntimeMap), _>(error),
                        None => result matches Ok((linkage, map)) && document_lowered(self.structure, self.values, linkage, map),
                    }
                },
            },
    {
        validate_topology(&self.structure)?;
        match certify_gauge(&self.structure, &self.gauge_policy) {
            Ok(_) => {},
            Err(error) => {
                proof {
                    let second = choose|components: Seq<CertifiedPlanarComponent>| #[trigger] certifies_components(self.structure, components)
                        && (reference_choices(component_grounded(components), component_groups(components), explicit_list(self.gauge_policy))
                            matches Err(violation) && error == planar_gauge_error(violation));
                    assert forall|first: Seq<CertifiedPlanarComponent>| #[trigger] certifies_components(self.structure, first) implies
                        reference_choices(component_grounded(first), component_groups(first), explicit_list(self.gauge_policy)) is Err by {
                        lemma_gauge_verdict_unique(self.structure, first, second, self.gauge_policy);
                    }
                }
                return Err(error);
            },
        }
        let v = &self.values;
        let s = &self.structure;
        if v.body_poses.len() != s.bodies.len() || v.point_locals.len() != s.point_features.len()
            || v.axis_locals.len() != s.axis_features.len() || v.source_values.len() != s.sources.len()
            || v.source_targets.len() != s.sources.len() {
            return Err(PlanarLinkageError::IncompleteAcceptedState);
        }
        lower_document(s, v)
    }
}

/// The runtime objects of an inventory are keyed apart within each kind.
pub open spec fn keys_apart(inv: PlanarLinkageInventory) -> bool {
    &&& forall|i: int, j: int| 0 <= i < j < inv.bodies@.len() ==> #[trigger] inv.bodies@[i].runtime != #[trigger] inv.bodies@[j].runtime
    &&& forall|i: int, j: int| 0 <= i < j < inv.joints@.len() ==> #[trigger] inv.joints@[i].runtime != #[trigger] inv.joints@[j].runtime
    &&& forall|i: int, j: int| 0 <= i < j < inv.drivers@.len() ==> #[trigger] inv.drivers@[i].runtime != #[trigger] inv.drivers@[j].runtime
    &&& forall|i: int, j: int| 0 <= i < j < inv.monitors@.len() ==> #[trigger] inv.monitors@[i].runtime != #[trigger] inv.monitors@[j].runtime
    &&& forall|i: int, j: int| 0 <= i < j < inv.point_features@.len() ==> #[trigger] inv.point_features@[i].runtime != #[trigger] inv.point_features@[j].runtime
    &&& forall|i: int, j: int| 0 <= i < j < inv.axis_features@.len() ==> #[trigger] inv.axis_features@[i].runtime != #[trigger] inv.axis_features@[j].runtime
}

proof fn lemma_grounded_members(bodies: Seq<CapturedBody>)
    ensures
        forall|k: int| 0 <= k < grounded_bodies(bodies).len() ==> exists|i: int|
            0 <= i < bodies.len() && #[trigger] grounded_bodies(bodies)[k] == bodies[i],
    decreases bodies.len(),
{
    if bodies.len() > 0 {
        let prefix = bodies.drop_last();
        lemma_grounded_members(prefix);
        let g = grounded_bodies(bodies);
        assert forall|k: int| 0 <= k < g.len() implies exists|i: int| 0 <= i < bodies.len() && #[trigger] g[k] == bodies[i] by {
            if k < grounded_bodies(prefix).len() {
                let i = choose|i: int| 0 <= i < prefix.len() && grounded_bodies(prefix)[k] == prefix[i];
                assert(prefix[i] == bodies[i]);
                assert(g[k] == grounded_bodies(prefix)[k]);
            } else {
                assert(g[k] == bodies[bodies.len() - 1]);
            }
        }
    }
}

proof fn lemma_grounded_apart(bodies: Seq<CapturedBody>)
    requires
        forall|i: int, j: int| 0 <= i < j < bodies.len() ==> #[trigger] bodies[i].runtime != #[trigger] bodies[j].runtime,
    ensures
        forall|i: int, j: int| 0 <= i < j < grounded_bodies(bodies).len()
            ==> #[trigger] grounded_bodies(bodies)[i].runtime != #[trigger] grounded_bodies(bodies)[j].runtime,
    decreases bodies.len(),
{
    if bodies.len() > 0 {
        let prefix = bodies.drop_last();
        assert forall|i: int, j: int| 0 <= i < j < prefix.len() implies #[trigger] prefix[i].runtime != #[trigger] prefix[j].runtime by {
            assert(prefix[i] == bodies[i] && prefix[j] == bodies[j]);
        }
        lemma_grounded_apart(prefix);
        lemma_grounded_members(prefix);
        let gp = grounded_bodies(prefix);
        let g = grounded_bodies(bodies);
        let last = bodies[bodies.len() - 1];
        assert forall|i: int, j: int| 0 <= i < j < g.len() implies #[trigger] g[i].runtime != #[trigger] g[j].runtime by {
            if j < gp.len() {
                assert(g[i] == gp[i] && g[j] == gp[j]);
            } else {
                assert(g[j] == last);
                assert(g[i] == gp[i]);
                let a = choose|a: int| 0 <= a < prefix.len() && gp[i] == prefix[a];
                assert(prefix[a] == bodies[a]);
            }
        }
    }
}

/// The identity map captured from an inventory whose objects are keyed apart
/// pairs bodies, features and sources one to one, both ways: a persistent identity
/// finds a runtime object exactly when that object finds it back, and a point
/// identity never answers for an axis.
pub proof fn lemma_captured_map_pairs_one_to_one(inv: PlanarLinkageInventory, id: PlanarDocumentId, s: PlanarStructure, map: PlanarLinkageRuntimeMap)
    requires
        captured_as(inv, id, s, map),
        keys_apart(inv),
    ensures
        pairs_one_to_one(map.bodies@),
        pairs_one_to_one(map.features@),
        pairs_one_to_one(map.sources@),
        forall|p: PlanarSourceId, r: PlanarRuntimeSource| #![trigger runtime_of(map.sources@, p), persistent_of(map.sources@, r)]
            runtime_of(map.sources@, p) == Some(r) <==> persistent_of(map.sources@, r) == Some(p),
        forall|p: PlanarBodyId, r: BodyId| #![trigger runtime_of(map.bodies@, p), persistent_of(map.bodies@, r)]
            runtime_of(map.bodies@, p) == Some(r) <==> persistent_of(map.bodies@, r) == Some(p),
        forall|p: PlanarFeatureId, r: PlanarRuntimeFeature| #![trigger runtime_of(map.features@, p), persistent_of(map.features@, r)]
            runtime_of(map.features@, p) == Some(r) <==> persistent_of(map.features@, r) == Some(p),
{
    let base = id.0 + 1;
    let nb = inv.bodies@.len() as int;
    let np = inv.point_features@.len() as int;
    assert(base + capture_count(inv) <= u128::MAX);
    let bodies = map.bodies@;
    assert forall|i: int, j: int| 0 <= i < bodies.len() && 0 <= j < bodies.len() && i != j implies
        #[trigger] bodies[i].0 != #[trigger] bodies[j].0 && bodies[i].1 != bodies[j].1 by {
        if i < j {
            assert(inv.bodies@[i].runtime != inv.bodies@[j].runtime);
        } else {
            assert(inv.bodies@[j].runtime != inv.bodies@[i].runtime);
        }
    }
    let features = map.features@;
    let points = Seq::new(inv.point_features@.len(), |k: int| (PlanarFeatureId((base + nb + k) as u128), PlanarRuntimeFeature::Point(inv.point_features@[k].runtime)));
    let axes = Seq::new(inv.axis_features@.len(), |k: int| (PlanarFeatureId((base + nb + np + k) as u128), PlanarRuntimeFeature::Axis(inv.axis_features@[k].runtime)));
    assert(features == points + axes);
    assert forall|i: int, j: int| 0 <= i < features.len() && 0 <= j < features.len() && i != j implies
        #[trigger] features[i].0 != #[trigger] features[j].0 && features[i].1 != features[j].1 by {
        if i < np && j < np {
            assert(features[i] == points[i] && features[j] == points[j]);
            if i < j {
                assert(inv.point_features@[i].runtime != inv.point_features@[j].runtime);
            } else {
                assert(inv.point_features@[j].runtime != inv.point_features@[i].runtime);
            }
        } else if i >= np && j >= np {
            assert(features[i] == axes[i - np] && features[j] == axes[j - np]);
            if i < j {
                assert(inv.axis_features@[i - np].runtime != inv.axis_features@[j - np].runtime);
            } else {
                assert(inv.axis_features@[j - np].runtime != inv.axis_features@[i - np].runtime);
            }
        } else if i < np {
            assert(features[i] == points[i] && features[j] == axes[j - np]);
        } else {
            assert(features[i] == axes[i - np] && features[j] == points[j]);
        }
    }
    lemma_grounded_apart(inv.bodies@);
    let sources = map.sources@;
    let ng = grounded_bodies(inv.bodies@).len() as int;
    let nj = inv.joints@.len() as int;
    let nd = inv.drivers@.len() as int;
    assert forall|i: int, j: int| 0 <= i < sources.len() && 0 <= j < sources.len() && i != j implies
        #[trigger] sources[i].0 != #[trigger] sources[j].0 && sources[i].1 != sources[j].1 by {
        assert(sources[i] == (s.sources@[i].id, source_runtime(inv, i)));
        assert(sources[j] == (s.sources@[j].id, source_runtime(inv, j)));
        let (a, b) = if i < j { (i, j) } else { (j, i) };
        if b < ng {
            assert(grounded_bodies(inv.bodies@)[a].runtime != grounded_bodies(inv.bodies@)[b].runtime);
        } else if a >= ng && b < ng + nj {
            assert(inv.joints@[a - ng].runtime != inv.joints@[b - ng].runtime);
        } else if a >= ng + nj && b < ng + nj + nd {
            assert(inv.drivers@[a - ng - nj].runtime != inv.drivers@[b - ng - nj].runtime);
        } else if a >= ng + nj + nd {
            assert(inv.monitors@[a - ng - nj - nd].runtime != inv.monitors@[b - ng - nj - nd].runtime);
        }
    }
    lemma_one_to_one_bijective(map.bodies@);
    lemma_one_to_one_bijective(map.features@);
    lemma_one_to_one_bijective(map.sources@);
}


/// The source at position `k` of a captured structure is the one its source
/// order lists at `k`.
proof fn lemma_captured_source_index(inv: PlanarLinkageInventory, id: PlanarDocumentId, s: PlanarStructure, map: PlanarLinkageRuntimeMap, k: int)
    requires
        captured_as(inv, id, s, map),
        0 <= k < s.sources@.len(),
    ensures
        s.source_order@[k] == s.sources@[k].id,
        source_index(s.sources@, s.source_order@[k]) == k,
{
    let base = id.0 + 1;
    assert(s.source_order@[k] == s.sources@[k].id);
    lemma_source_index(s.sources@, s.sources@[k].id, k);
    let r = source_index(s.sources@, s.sources@[k].id);
    assert(s.sources@[r].id == PlanarSourceId((base + first_source_step(inv) + r) as u128));
    assert(s.sources@[k].id == PlanarSourceId((base + first_source_step(inv) + k) as u128));
}

/// Lowering the document captured from a linkage gives the linkage back, where
/// the lowering succeeds: the same model scale and work plane; in the
/// linkage's order, its bodies with their labels and accepted poses, its point
/// and axis features with their labels and local values, its joints with their
/// labels and weld angles, and its drivers with their labels, accepted targets
/// and maximum continuation steps.
pub proof fn lemma_captured_document_lowers_back(
    linkage: Linkage,
    inv: PlanarLinkageInventory,
    id: PlanarDocumentId,
    s: PlanarStructure,
    captured_map: PlanarLinkageRuntimeMap,
    v: PlanarLoweringValues,
    lowered: Linkage,
    map: PlanarLinkageRuntimeMap,
)
    requires
        inventory_of(linkage, inv),
        captured_as(inv, id, s, captured_map),
        captured_values(inv, linkage.scale(), linkage.frame(), v),
        document_lowered(s, v, lowered, map),
    ensures
        lowered.scale() == linkage.scale(),
        lowered.frame() == linkage.frame(),
        map.bodies@.len() == inv.bodies@.len(),
        forall|i: int| 0 <= i < inv.bodies@.len() ==> {
            let key = (#[trigger] map.bodies@[i]).1.0;
            let original = linkage.body_map()[inv.bodies@[i].runtime.0];
            &&& lowered.body_map().contains_key(key)
            &&& lowered.body_map()[key].label@ == original.label@
            &&& lowered.body_map()[key].pose == original.pose
        },
        forall|i: int| 0 <= i < inv.point_features@.len() ==> {
            let key = feature_key(#[trigger] map.features@[i]);
            let original = linkage.point_map()[inv.point_features@[i].runtime.0];
            &&& lowered.point_map().contains_key(key)
            &&& lowered.point_map()[key].label@ == original.label@
            &&& lowered.point_map()[key].local_point == original.local_point
        },
        forall|i: int| 0 <= i < inv.axis_features@.len() ==> {
            let key = feature_key(#[trigger] map.features@[inv.point_features@.len() + i]);
            let original = linkage.axis_map()[inv.axis_features@[i].runtime.0];
            &&& lowered.axis_map().contains_key(key)
            &&& lowered.axis_map()[key].label@ == original.label@
            &&& lowered.axis_map()[key].local_axis == original.local_axis
        },
        forall|j: int| 0 <= j < inv.joints@.len() ==> {
            let original = linkage.joint_map()[inv.joints@[j].runtime.0];
            (#[trigger] map.sources@[grounded_bodies(inv.bodies@).len() + j]).1 matches PlanarRuntimeSource::Joint(joint) && {
                &&& lowered.joint_map().contains_key(joint.0)
                &&& lowered.joint_map()[joint.0].label@ == original.label@
                &&& weld_angle_of(lowered.joint_map()[joint.0].kind) == weld_angle_of(original.kind)
            }
        },
        forall|d: int| 0 <= d < inv.drivers@.len() ==> {
            let original = linkage.driver_map()[inv.drivers@[d].runtime.0];
            (#[trigger] map.sources@[grounded_bodies(inv.bodies@).len() + inv.joints@.len() + d]).1 matches PlanarRuntimeSource::Driver(driver) && {
                &&& lowered.driver_map().contains_key(driver.0)
                &&& lowered.driver_map()[driver.0].label@ == original.label@
                &&& lowered.driver_map()[driver.0].target == original.target
                &&& lowered.driver_map()[driver.0].max_continuation_step == original.max_continuation_step
            }
        },
{
    let nb = inv.bodies@.len() as int;
    let np = inv.point_features@.len() as int;
    let ng = grounded_bodies(inv.bodies@).len() as int;
    let nj = inv.joints@.len() as int;
    let nd = inv.drivers@.len() as int;
    let base = id.0 + 1;
    assert forall|i: int| 0 <= i < nb implies {
        let key = (#[trigger] map.bodies@[i]).1.0;
        let original = linkage.body_map()[inv.bodies@[i].runtime.0];
        &&& lowered.body_map().contains_key(key)
        &&& lowered.body_map()[key].label@ == original.label@
        &&& lowered.body_map()[key].pose == original.pose
    } by {
        assert(body_lowered(s, v, lowered, map.bodies@[i], i));
        assert(inv.bodies@[i] == inv.bodies@[i]);
        assert(v.body_poses@[i] == inv.bodies@[i].pose);
    }
    assert forall|i: int| 0 <= i < np implies {
        let key = feature_key(#[trigger] map.features@[i]);
        let original = linkage.point_map()[inv.point_features@[i].runtime.0];
        &&& lowered.point_map().contains_key(key)
        &&& lowered.point_map()[key].label@ == original.label@
        &&& lowered.point_map()[key].local_point == original.local_point
    } by {
        assert(point_lowered(s, v, lowered, map.bodies@, map.features@[i], i));
        assert(inv.point_features@[i] == inv.point_features@[i]);
        assert(v.point_locals@[i] == inv.point_features@[i].local);
    }
    assert forall|i: int| 0 <= i < inv.axis_features@.len() implies {
        let key = feature_key(#[trigger] map.features@[inv.point_features@.len() + i]);
        let original = linkage.axis_map()[inv.axis_features@[i].runtime.0];
        &&& lowered.axis_map().contains_key(key)
        &&& lowered.axis_map()[key].label@ == original.label@
        &&& lowered.axis_map()[key].local_axis == original.local_axis
    } by {
        assert(axis_lowered(s, v, lowered, map.bodies@, map.features@[np + i], i));
        assert(inv.axis_features@[i] == inv.axis_features@[i]);
        assert(v.axis_locals@[i] == Some(inv.axis_features@[i].local));
    }
    assert forall|j: int| 0 <= j < nj implies {
        let original = linkage.joint_map()[inv.joints@[j].runtime.0];
        (#[trigger] map.sources@[grounded_bodies(inv.bodies@).len() + j]).1 matches PlanarRuntimeSource::Joint(joint) && {
            &&& lowered.joint_map().contains_key(joint.0)
            &&& lowered.joint_map()[joint.0].label@ == original.label@
            &&& weld_angle_of(lowered.joint_map()[joint.0].kind) == weld_angle_of(original.kind)
        }
    } by {
        let k = ng + j;
        lemma_captured_source_index(inv, id, s, captured_map, k);
        assert(source_lowered(s, v, lowered, map, k));
        assert(inv.joints@[j] == inv.joints@[j]);
        assert(s.sources@[k] == s.sources@[k]);
        assert(v.source_values@[k] == captured_source_values(inv, k));
        assert(v.source_targets@[k] == captured_source_target(inv, k));
        let original = linkage.joint_map()[inv.joints@[j].runtime.0];
        match original.kind {
            JointKind::Weld { .. } => {},
            JointKind::Revolute { .. } => {},
            JointKind::Prismatic { .. } => {},
        }
    }
    assert forall|d: int| 0 <= d < nd implies {
        let original = linkage.driver_map()[inv.drivers@[d].runtime.0];
        (#[trigger] map.sources@[grounded_bodies(inv.bodies@).len() + inv.joints@.len() + d]).1 matches PlanarRuntimeSource::Driver(driver) && {
            &&& lowered.driver_map().contains_key(driver.0)
            &&& lowered.driver_map()[driver.0].label@ == original.label@
            &&& lowered.driver_map()[driver.0].target == original.target
            &&& lowered.driver_map()[driver.0].max_continuation_step == original.max_continuation_step
        }
    } by {
        let k = ng + nj + d;
        lemma_captured_source_index(inv, id, s, captured_map, k);
        assert(source_lowered(s, v, lowered, map, k));
        assert(inv.drivers@[d] == inv.drivers@[d]);
        assert(s.sources@[k] == s.sources@[k]);
        assert(v.source_values@[k] == captured_source_values(inv, k));
        assert(v.source_targets@[k] == captured_source_target(inv, k));
        match inv.drivers@[d].kind {
            DriverKind::Angular { .. } => {},
            DriverKind::Linear { .. } => {},
        }
    }
}


proof fn lemma_grounded_includes(bodies: Seq<CapturedBody>, i: int)
    requires
        0 <= i < bodies.len(),
        bodies[i].grounded,
    ensures
        exists|q: int| 0 <= q < grounded_bodies(bodies).len() && #[trigger] grounded_bodies(bodies)[q] == bodies[i],
    decreases bodies.len(),
{
    let prefix = bodies.drop_last();
    if i == bodies.len() - 1 {
        let q = grounded_bodies(prefix).len() as int;
        assert(grounded_bodies(bodies)[q] == bodies[i]);
    } else {
        assert(prefix[i] == bodies[i]);
        lemma_grounded_includes(prefix, i);
        let q = choose|q: int| 0 <= q < grounded_bodies(prefix).len() && #[trigger] grounded_bodies(prefix)[q] == prefix[i];
        assert(grounded_bodies(bodies)[q] == grounded_bodies(prefix)[q]);
    }
}

/// The body identity a captured runtime body key resolves to, in an inventory
/// keyed apart, is the one allocated at the body's position.
proof fn lemma_captured_body_at(inv: PlanarLinkageInventory, base: int, i: int)
    requires
        keys_apart(inv),
        0 <= i < inv.bodies@.len(),
    ensures
        captured(body_pairs(inv, base), inv.bodies@[i].runtime, PlanarField::RuntimeBodyMapping)
            == Ok::<PlanarBodyId, PlanarLinkageError>(PlanarBodyId((base + i) as u128)),
{
    let pairs = body_pairs(inv, base);
    let r = inv.bodies@[i].runtime;
    lemma_runtime_of_first(pairs, r);
    assert(pairs[i].0 == r);
    let k = choose|k: int| 0 <= k < pairs.len() && pairs[k].0 == r && pairs[k].1 == runtime_of(pairs, r)->0
        && forall|j: int| 0 <= j < k ==> pairs[j].0 != r;
    if k < i {
        assert(inv.bodies@[k].runtime != inv.bodies@[i].runtime);
    } else if k > i {
        assert(pairs[i].0 == r);
    }
}

/// In the lowering of a document captured from a linkage whose objects are
/// keyed apart, each body is physically grounded exactly when the linkage's
/// body in its place is.
pub proof fn lemma_captured_document_lowers_grounding(
    linkage: Linkage,
    inv: PlanarLinkageInventory,
    id: PlanarDocumentId,
    s: PlanarStructure,
    captured_map: PlanarLinkageRuntimeMap,
    v: PlanarLoweringValues,
    lowered: Linkage,
    map: PlanarLinkageRuntimeMap,
)
    requires
        inventory_of(linkage, inv),
        keys_apart(inv),
        captured_as(inv, id, s, captured_map),
        document_lowered(s, v, lowered, map),
    ensures
        forall|i: int| 0 <= i < inv.bodies@.len() ==> lowered.body_map()[(#[trigger] map.bodies@[i]).1.0].grounded
            == linkage.body_map()[inv.bodies@[i].runtime.0].grounded,
{
    let base = id.0 + 1;
    let ng = grounded_bodies(inv.bodies@).len() as int;
    let nj = inv.joints@.len() as int;
    let nd = inv.drivers@.len() as int;
    let grounds = grounded_bodies(inv.bodies@);
    assert(base + capture_count(inv) <= u128::MAX);
    lemma_grounded_members(inv.bodies@);
    assert forall|i: int| 0 <= i < inv.bodies@.len() implies lowered.body_map()[(#[trigger] map.bodies@[i]).1.0].grounded
        == linkage.body_map()[inv.bodies@[i].runtime.0].grounded by {
        assert(body_lowered(s, v, lowered, map.bodies@[i], i));
        assert(inv.bodies@[i] == inv.bodies@[i]);
        let target = PlanarBodyId((base + i) as u128);
        assert(s.bodies@[i].id == target);
        lemma_captured_body_at(inv, base, i);
        if inv.bodies@[i].grounded {
            lemma_grounded_includes(inv.bodies@, i);
            let q = choose|q: int| 0 <= q < grounds.len() && #[trigger] grounds[q] == inv.bodies@[i];
            assert(s.sources@[q] == s.sources@[q]);
            assert(s.sources@[q].definition == (PlanarSourceTopology::PhysicalGround { body: target }));
        } else {
            assert forall|j: int| 0 <= j < s.sources@.len() implies s.sources@[j].definition != (PlanarSourceTopology::PhysicalGround { body: target }) by {
                assert(s.sources@[j] == s.sources@[j]);
                if j < ng {
                    let a = choose|a: int| 0 <= a < inv.bodies@.len() && #[trigger] grounds[j] == inv.bodies@[a];
                    lemma_captured_body_at(inv, base, a);
                    assert(inv.bodies@[a].grounded) by {
                        lemma_grounded_flag(inv.bodies@, j);
                    }
                } else if j < ng + nj {
                    match inv.joints@[j - ng].kind {
                        JointTopology::Revolute { .. } => {},
                        JointTopology::Prismatic { .. } => {},
                        JointTopology::Weld { .. } => {},
                    }
                } else if j < ng + nj + nd {
                    match inv.drivers@[j - ng - nj].kind {
                        DriverKind::Angular { .. } => {},
                        DriverKind::Linear { .. } => {},
                    }
                } else {
                    match inv.monitors@[j - ng - nj - nd].monitor {
                        BranchMonitor::Orientation { .. } => {},
                        BranchMonitor::DirectedDisplacement { .. } => {},
                    }
                }
            }
        }
    }
}

proof fn lemma_grounded_flag(bodies: Seq<CapturedBody>, q: int)
    requires
        0 <= q < grounded_bodies(bodies).len(),
    ensures
        grounded_bodies(bodies)[q].grounded,
    decreases bodies.len(),
{
    let prefix = bodies.drop_last();
    if bodies.last().grounded && q == grounded_bodies(prefix).len() {
    } else {
        lemma_grounded_flag(prefix, q);
    }
}

} // verus!
