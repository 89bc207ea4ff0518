//! The editable planar linkage model: rigid bodies, body-local features,
//! joints, drivers and branch monitors in stable stores.
//!
//! Every store is a slot map plus the order in which its keys were issued; a
//! removed object leaves its identity stale. References between objects are
//! kept resolvable: an object is only added when everything it names is
//! present, and only removed when nothing present names it.
//!
//! Floating-point quantities (poses, local points and axes, angles, targets,
//! steps) are carried as their IEEE 754 bit patterns. Their finiteness and
//! sign are read from the bits; normalizing an axis and checking a work plane
//! take floating-point arithmetic and are handed in as verdicts.

use vstd::prelude::*;
use crate::model::{
    driver_references_axis, driver_references_point, monitor_references_axis,
    monitor_references_point, AxisDirectionBranch, BranchMonitor, BranchSign, DriverKind,
    DriverUnit, LinkageError,
};
use crate::runtime_ids::{AxisFeatureId, BodyId, BranchMonitorId, DriverId, JointId, PointFeatureId};
use crate::slots::{
    axis_slots, body_slot_mut, body_slots, driver_slot_mut, driver_slots, get_axis_slot,
    get_body_slot, get_driver_slot, get_joint_slot, get_monitor_slot, get_point_slot,
    insert_axis_slot, insert_body_slot, insert_driver_slot, insert_joint_slot,
    insert_monitor_slot, insert_point_slot, joint_slots,
    monitor_slots, new_axis_slots, new_body_slots, new_driver_slots, new_joint_slots,
    new_monitor_slots, new_point_slots, point_slots, remove_axis_slot, remove_body_slot,
    remove_driver_slot, remove_joint_slot, remove_monitor_slot, remove_point_slot, slot_id,
    slot_key, Slots,
};
use crate::text::{is_blank, trims_to_empty};

verus! {

/// Whether the IEEE 754 double with these bits is finite: below the sign bit,
/// its exponent field is not all ones.
pub open spec fn finite_bits(bits: u64) -> bool {
    bits % 0x8000_0000_0000_0000u64 < 0x7ff0_0000_0000_0000u64
}

/// Whether the IEEE 754 double with these bits is finite and greater than
/// zero: its sign bit is clear, it is not zero and its exponent field is not
/// all ones.
pub open spec fn positive_finite_bits(bits: u64) -> bool {
    0 < bits < 0x7ff0_0000_0000_0000u64
}

/// Whether the double with these bits is finite.
pub fn is_finite_bits(bits: u64) -> (finite: bool)
    ensures
        finite == finite_bits(bits),
{
    assert(bits & 0x7fff_ffff_ffff_ffffu64 == bits % 0x8000_0000_0000_0000u64) by (bit_vector);
    bits & 0x7fff_ffff_ffff_ffffu64 < 0x7ff0_0000_0000_0000u64
}

/// Whether the double with these bits is finite and greater than zero.
pub fn is_positive_finite_bits(bits: u64) -> (positive: bool)
    ensures
        positive == positive_finite_bits(bits),
{
    0 < bits && bits < 0x7ff0_0000_0000_0000u64
}

/// A planar pose: the bits of its translation and of its unwrapped angle.
#[derive(Clone, Copy, Debug, PartialEq, Eq, Structural)]
pub struct PoseBits {
    pub x: u64,
    pub y: u64,
    pub angle: u64,
}

/// A planar point or vector as the bits of its two coordinates.
#[derive(Clone, Copy, Debug, PartialEq, Eq, Structural)]
pub struct PlanarBits {
    pub x: u64,
    pub y: u64,
}

/// A spatial point or vector as the bits of its three coordinates.
#[derive(Clone, Copy, Debug, PartialEq, Eq, Structural)]
pub struct SpatialBits {
    pub x: u64,
    pub y: u64,
    pub z: u64,
}

/// The work plane: its origin and its two in-plane axes.
#[derive(Clone, Copy, Debug, PartialEq, Eq, Structural)]
pub struct PlaneFrameBits {
    pub origin: SpatialBits,
    pub u: SpatialBits,
    pub v: SpatialBits,
}

/// Whether every component of a pose is finite.
pub open spec fn pose_finite(pose: PoseBits) -> bool {
    finite_bits(pose.x) && finite_bits(pose.y) && finite_bits(pose.angle)
}

/// Whether both coordinates of a point are finite.
pub open spec fn point_finite(point: PlanarBits) -> bool {
    finite_bits(point.x) && finite_bits(point.y)
}

/// One accepted planar pose and its fixed/free role in the mechanism.
#[derive(Clone, Debug, PartialEq, Eq)]
pub struct RigidBody {
    pub label: String,
    pub pose: PoseBits,
    pub grounded: bool,
}

impl RigidBody {
    pub fn label(&self) -> (label: &str)
        ensures
            label@ == self.label@,
    {
        self.label.as_str()
    }

    pub fn pose(&self) -> (pose: PoseBits)
        ensures
            pose == self.pose,
    {
        self.pose
    }

    pub fn grounded(&self) -> (grounded: bool)
        ensures
            grounded == self.grounded,
    {
        self.grounded
    }
}

/// A finite point expressed in its owning body's coordinates.
#[derive(Clone, Debug, PartialEq, Eq)]
pub struct PointFeature {
    pub label: String,
    pub body: BodyId,
    pub local_point: PlanarBits,
}

impl PointFeature {
    pub fn label(&self) -> (label: &str)
        ensures
            label@ == self.label@,
    {
        self.label.as_str()
    }

    pub fn body(&self) -> (body: BodyId)
        ensures
            body == self.body,
    {
        self.body
    }

    pub fn local_point(&self) -> (point: PlanarBits)
        ensures
            point == self.local_point,
    {
        self.local_point
    }
}

/// A normalized directed axis expressed in its owning body's coordinates.
#[derive(Clone, Debug, PartialEq, Eq)]
pub struct AxisFeature {
    pub label: String,
    pub body: BodyId,
    pub local_axis: PlanarBits,
}

impl AxisFeature {
    pub fn label(&self) -> (label: &str)
        ensures
            label@ == self.label@,
    {
        self.label.as_str()
    }

    pub fn body(&self) -> (body: BodyId)
        ensures
            body == self.body,
    {
        self.body
    }

    pub fn local_axis(&self) -> (axis: PlanarBits)
        ensures
            axis == self.local_axis,
    {
        self.local_axis
    }
}

/// Supported planar joint equations.
#[derive(Clone, Copy, Debug, PartialEq, Eq, Structural)]
pub enum JointKind {
    Revolute { first: PointFeatureId, second: PointFeatureId },
    Prismatic {
        first_anchor: PointFeatureId,
        first_axis: AxisFeatureId,
        second_anchor: PointFeatureId,
        second_axis: AxisFeatureId,
        axis_branch: AxisDirectionBranch,
    },
    Weld { first: PointFeatureId, second: PointFeatureId, relative_angle: u64 },
}

/// One stable high-level linkage joint.
#[derive(Clone, Debug, PartialEq, Eq)]
pub struct Joint {
    pub label: String,
    pub kind: JointKind,
    pub ordinal: usize,
}

impl Joint {
    pub fn label(&self) -> (label: &str)
        ensures
            label@ == self.label@,
    {
        self.label.as_str()
    }

    pub fn kind(&self) -> (kind: JointKind)
        ensures
            kind == self.kind,
    {
        self.kind
    }

    pub fn ordinal(&self) -> (ordinal: usize)
        ensures
            ordinal == self.ordinal,
    {
        self.ordinal
    }
}

/// One stable hard driver with a bounded continuation policy.
#[derive(Clone, Debug, PartialEq, Eq)]
pub struct Driver {
    pub label: String,
    pub kind: DriverKind,
    pub target: u64,
    pub max_continuation_step: u64,
    pub ordinal: usize,
}

impl Driver {
    pub fn label(&self) -> (label: &str)
        ensures
            label@ == self.label@,
    {
        self.label.as_str()
    }

    pub fn kind(&self) -> (kind: DriverKind)
        ensures
            kind == self.kind,
    {
        self.kind
    }

    pub fn target(&self) -> (target: u64)
        ensures
            target == self.target,
    {
        self.target
    }

    pub fn max_continuation_step(&self) -> (step: u64)
        ensures
            step == self.max_continuation_step,
    {
        self.max_continuation_step
    }

    /// Radians for an angular driver, model units for a linear one.
    pub fn unit(&self) -> (unit: DriverUnit)
        ensures
            self.kind is Angular ==> unit == DriverUnit::Radian,
            self.kind is Linear ==> unit == DriverUnit::ModelUnit,
    {
        match self.kind {
            DriverKind::Angular { .. } => DriverUnit::Radian,
            DriverKind::Linear { .. } => DriverUnit::ModelUnit,
        }
    }

    pub fn ordinal(&self) -> (ordinal: usize)
        ensures
            ordinal == self.ordinal,
    {
        self.ordinal
    }
}

/// Whether a joint of this kind anchors at the point feature.
pub open spec fn joint_references_point(kind: JointKind, point: PointFeatureId) -> bool {
    match kind {
        JointKind::Revolute { first, second } => first == point || second == point,
        JointKind::Weld { first, second, .. } => first == point || second == point,
        JointKind::Prismatic { first_anchor, second_anchor, .. } => first_anchor == point
            || second_anchor == point,
    }
}

/// Whether a joint of this kind slides along the axis feature.
pub open spec fn joint_references_axis(kind: JointKind, axis: AxisFeatureId) -> bool {
    match kind {
        JointKind::Prismatic { first_axis, second_axis, .. } => first_axis == axis || second_axis
            == axis,
        _ => false,
    }
}

fn joint_uses_point(kind: JointKind, point: PointFeatureId) -> (used: bool)
    ensures
        used == joint_references_point(kind, point),
{
    match kind {
        JointKind::Revolute { first, second } => first == point || second == point,
        JointKind::Weld { first, second, .. } => first == point || second == point,
        JointKind::Prismatic { first_anchor, second_anchor, .. } => first_anchor == point
            || second_anchor == point,
    }
}

fn joint_uses_axis(kind: JointKind, axis: AxisFeatureId) -> (used: bool)
    ensures
        used == joint_references_axis(kind, axis),
{
    match kind {
        JointKind::Prismatic { first_axis, second_axis, .. } => first_axis == axis || second_axis
            == axis,
        _ => false,
    }
}

/// Whether a driver of this kind measures the relative angle of the body.
pub open spec fn driver_references_body(kind: DriverKind, body: BodyId) -> bool {
    kind matches DriverKind::Angular { reference, driven } && (reference == body || driven == body)
}

/// Whether a linear driver measures the point feature.
pub open spec fn driver_names_point(kind: DriverKind, point: PointFeatureId) -> bool {
    kind matches DriverKind::Linear { origin, measured, .. } && (origin == point || measured == point)
}

/// Whether a linear driver measures along the axis feature.
pub open spec fn driver_names_axis(kind: DriverKind, axis: AxisFeatureId) -> bool {
    kind matches DriverKind::Linear { guide_axis, .. } && guide_axis == axis
}

/// Whether a branch monitor observes the point feature.
pub open spec fn monitor_names_point(monitor: BranchMonitor, point: PointFeatureId) -> bool {
    match monitor {
        BranchMonitor::Orientation { line_start, line_end, observed, .. } => line_start == point
            || line_end == point || observed == point,
        BranchMonitor::DirectedDisplacement { origin, measured, .. } => origin == point || measured
            == point,
    }
}

/// Whether a branch monitor measures along the axis feature.
pub open spec fn monitor_names_axis(monitor: BranchMonitor, axis: AxisFeatureId) -> bool {
    monitor matches BranchMonitor::DirectedDisplacement { axis: id, .. } && id == axis
}


fn driver_uses_body(kind: DriverKind, body: BodyId) -> (used: bool)
    ensures
        used == driver_references_body(kind, body),
{
    match kind {
        DriverKind::Angular { reference, driven } => reference == body || driven == body,
        DriverKind::Linear { .. } => false,
    }
}

/// The keys of `order` whose values are still held, in order.
pub open spec fn live_keys<V>(order: Seq<u64>, held: Map<u64, V>) -> Seq<u64>
    decreases order.len(),
{
    if order.len() == 0 {
        seq![]
    } else {
        live_keys(order.drop_last(), held) + if held.contains_key(order.last()) {
            seq![order.last()]
        } else {
            seq![]
        }
    }
}

/// Every held key was issued in `order`, and the held values are finitely many.
pub open spec fn store_wf<V>(order: Seq<u64>, held: Map<u64, V>) -> bool {
    &&& held.dom().finite()
    &&& forall|k: u64| #[trigger] held.contains_key(k) ==> order.contains(k)
    &&& forall|i: int| 0 <= i < order.len() ==> slot_key(#[trigger] order[i]) == order[i]
}

/// Every reference of a joint names a held feature.
pub open spec fn joint_resolves(kind: JointKind, points: Map<u64, PointFeature>, axes: Map<u64, AxisFeature>) -> bool {
    match kind {
        JointKind::Revolute { first, second } => points.contains_key(first.0) && points.contains_key(second.0),
        JointKind::Weld { first, second, .. } => points.contains_key(first.0) && points.contains_key(second.0),
        JointKind::Prismatic { first_anchor, first_axis, second_anchor, second_axis, .. } => {
            &&& points.contains_key(first_anchor.0)
            &&& points.contains_key(second_anchor.0)
            &&& axes.contains_key(first_axis.0)
            &&& axes.contains_key(second_axis.0)
        },
    }
}

/// Every reference of a driver names a held body or feature.
pub open spec fn driver_resolves(
    kind: DriverKind,
    bodies: Map<u64, RigidBody>,
    points: Map<u64, PointFeature>,
    axes: Map<u64, AxisFeature>,
) -> bool {
    match kind {
        DriverKind::Angular { reference, driven } => bodies.contains_key(reference.0) && bodies.contains_key(driven.0),
        DriverKind::Linear { origin, measured, guide_axis } => {
            &&& points.contains_key(origin.0)
            &&& points.contains_key(measured.0)
            &&& axes.contains_key(guide_axis.0)
        },
    }
}

/// Every reference of a branch monitor names a held feature.
pub open spec fn monitor_resolves(monitor: BranchMonitor, points: Map<u64, PointFeature>, axes: Map<u64, AxisFeature>) -> bool {
    match monitor {
        BranchMonitor::Orientation { line_start, line_end, observed, .. } => {
            &&& points.contains_key(line_start.0)
            &&& points.contains_key(line_end.0)
            &&& points.contains_key(observed.0)
        },
        BranchMonitor::DirectedDisplacement { origin, measured, axis, .. } => {
            &&& points.contains_key(origin.0)
            &&& points.contains_key(measured.0)
            &&& axes.contains_key(axis.0)
        },
    }
}

/// The body a lookup of `id` resolves to (see [`slot_key`]).
pub open spec fn canonical_body(id: BodyId) -> BodyId {
    BodyId(slot_key(id.0))
}

/// The point feature a lookup of `id` resolves to.
pub open spec fn canonical_point(id: PointFeatureId) -> PointFeatureId {
    PointFeatureId(slot_key(id.0))
}

/// The axis feature a lookup of `id` resolves to.
pub open spec fn canonical_axis(id: AxisFeatureId) -> AxisFeatureId {
    AxisFeatureId(slot_key(id.0))
}

/// The joint a lookup of `id` resolves to.
pub open spec fn canonical_joint(id: JointId) -> JointId {
    JointId(slot_key(id.0))
}

/// The driver a lookup of `id` resolves to.
pub open spec fn canonical_driver(id: DriverId) -> DriverId {
    DriverId(slot_key(id.0))
}

/// The branch monitor a lookup of `id` resolves to.
pub open spec fn canonical_monitor(id: BranchMonitorId) -> BranchMonitorId {
    BranchMonitorId(slot_key(id.0))
}

proof fn lemma_store_push<V>(order: Seq<u64>, held: Map<u64, V>, key: u64, value: V)
    requires
        store_wf(order, held),
        slot_key(key) == key,
    ensures
        store_wf(order.push(key), held.insert(key, value)),
{
    let pushed = order.push(key);
    assert forall|k: u64| #[trigger] held.insert(key, value).contains_key(k) implies pushed.contains(k) by {
        if k == key {
            assert(pushed[order.len() as int] == key);
        } else {
            let j = choose|j: int| 0 <= j < order.len() && order[j] == k;
            assert(pushed[j] == k);
        }
    }
    assert forall|i: int| 0 <= i < pushed.len() implies slot_key(#[trigger] pushed[i]) == pushed[i] by {
        if i < order.len() {
            assert(pushed[i] == order[i]);
        }
    }
}

proof fn lemma_store_remove<V>(order: Seq<u64>, held: Map<u64, V>, key: u64)
    requires
        store_wf(order, held),
    ensures
        store_wf(order, held.remove(key)),
{
}

proof fn lemma_store_update<V>(order: Seq<u64>, held: Map<u64, V>, key: u64, value: V)
    requires
        store_wf(order, held),
        held.contains_key(key),
    ensures
        store_wf(order, held.insert(key, value)),
{
}

proof fn lemma_live_keys_step<V>(order: Seq<u64>, held: Map<u64, V>, i: int)
    requires
        0 <= i < order.len(),
    ensures
        live_keys(order.take(i + 1), held) == live_keys(order.take(i), held) + if held.contains_key(order[i]) {
            seq![order[i]]
        } else {
            seq![]
        },
{
    assert(order.take(i + 1).drop_last() =~= order.take(i));
}

/// The rejection of a driver's values: a non-finite target, then a maximum
/// step that is not finite and positive, then a blank label.
pub open spec fn driver_values_error(target: u64, max_continuation_step: u64, label: Seq<char>) -> Option<LinkageError> {
    if !finite_bits(target) {
        Some(LinkageError::NonFiniteValue { context: "driver target", value: target })
    } else if !positive_finite_bits(max_continuation_step) {
        Some(LinkageError::InvalidContinuationStep(max_continuation_step))
    } else if is_blank(label) {
        Some(LinkageError::EmptyLabel("driver"))
    } else {
        None
    }
}

/// Ordered linkage domain model. Stored poses and driver targets are accepted state.
pub struct Linkage {
    model_scale: u64,
    plane_frame: PlaneFrameBits,
    bodies: Slots<RigidBody>,
    body_order: Vec<u64>,
    point_features: Slots<PointFeature>,
    point_order: Vec<u64>,
    axis_features: Slots<AxisFeature>,
    axis_order: Vec<u64>,
    joints: Slots<Joint>,
    joint_order: Vec<u64>,
    drivers: Slots<Driver>,
    driver_order: Vec<u64>,
    branch_monitors: Slots<BranchMonitor>,
    monitor_order: Vec<u64>,
}

impl Linkage {
    /// The bodies held, by packed key.
    pub closed spec fn body_map(&self) -> Map<u64, RigidBody> {
        body_slots(self.bodies)
    }

    /// The point features held, by packed key.
    pub closed spec fn point_map(&self) -> Map<u64, PointFeature> {
        point_slots(self.point_features)
    }

    /// The axis features held, by packed key.
    pub closed spec fn axis_map(&self) -> Map<u64, AxisFeature> {
        axis_slots(self.axis_features)
    }

    /// The joints held, by packed key.
    pub closed spec fn joint_map(&self) -> Map<u64, Joint> {
        joint_slots(self.joints)
    }

    /// The drivers held, by packed key.
    pub closed spec fn driver_map(&self) -> Map<u64, Driver> {
        driver_slots(self.drivers)
    }

    /// The branch monitors held, by packed key.
    pub closed spec fn monitor_map(&self) -> Map<u64, BranchMonitor> {
        monitor_slots(self.branch_monitors)
    }

    /// Every body key issued, in order.
    pub closed spec fn body_keys(&self) -> Seq<u64> {
        self.body_order@
    }

    /// Every point-feature key issued, in order.
    pub closed spec fn point_keys(&self) -> Seq<u64> {
        self.point_order@
    }

    /// Every axis-feature key issued, in order.
    pub closed spec fn axis_keys(&self) -> Seq<u64> {
        self.axis_order@
    }

    /// Every joint key issued, in order.
    pub closed spec fn joint_keys(&self) -> Seq<u64> {
        self.joint_order@
    }

    /// Every driver key issued, in order.
    pub closed spec fn driver_keys(&self) -> Seq<u64> {
        self.driver_order@
    }

    /// Every branch-monitor key issued, in order.
    pub closed spec fn monitor_keys(&self) -> Seq<u64> {
        self.monitor_order@
    }

    /// The accepted model scale.
    pub closed spec fn scale(&self) -> u64 {
        self.model_scale
    }

    /// The accepted work plane.
    pub closed spec fn frame(&self) -> PlaneFrameBits {
        self.plane_frame
    }

    /// This linkage with another model scale.
    pub closed spec fn with_scale(self, model_scale: u64) -> Linkage {
        Linkage { model_scale, ..self }
    }

    /// This linkage with another work plane.
    pub closed spec fn with_frame(self, plane_frame: PlaneFrameBits) -> Linkage {
        Linkage { plane_frame, ..self }
    }

    /// `after` holds what this linkage holds, but for its bodies.
    pub open spec fn only_bodies_differ(self, after: Linkage) -> bool {
        &&& after.point_map() == self.point_map() && after.point_keys() == self.point_keys()
        &&& after.axis_map() == self.axis_map() && after.axis_keys() == self.axis_keys()
        &&& after.joint_map() == self.joint_map() && after.joint_keys() == self.joint_keys()
        &&& after.driver_map() == self.driver_map() && after.driver_keys() == self.driver_keys()
        &&& after.monitor_map() == self.monitor_map() && after.monitor_keys() == self.monitor_keys()
        &&& after.scale() == self.scale() && after.frame() == self.frame()
    }

    /// `after` holds what this linkage holds, but for its point features.
    pub open spec fn only_points_differ(self, after: Linkage) -> bool {
        &&& after.body_map() == self.body_map() && after.body_keys() == self.body_keys()
        &&& after.axis_map() == self.axis_map() && after.axis_keys() == self.axis_keys()
        &&& after.joint_map() == self.joint_map() && after.joint_keys() == self.joint_keys()
        &&& after.driver_map() == self.driver_map() && after.driver_keys() == self.driver_keys()
        &&& after.monitor_map() == self.monitor_map() && after.monitor_keys() == self.monitor_keys()
        &&& after.scale() == self.scale() && after.frame() == self.frame()
    }

    /// `after` holds what this linkage holds, but for its axis features.
    pub open spec fn only_axes_differ(self, after: Linkage) -> bool {
        &&& after.body_map() == self.body_map() && after.body_keys() == self.body_keys()
        &&& after.point_map() == self.point_map() && after.point_keys() == self.point_keys()
        &&& after.joint_map() == self.joint_map() && after.joint_keys() == self.joint_keys()
        &&& after.driver_map() == self.driver_map() && after.driver_keys() == self.driver_keys()
        &&& after.monitor_map() == self.monitor_map() && after.monitor_keys() == self.monitor_keys()
        &&& after.scale() == self.scale() && after.frame() == self.frame()
    }

    /// `after` holds what this linkage holds, but for its joints.
    pub open spec fn only_joints_differ(self, after: Linkage) -> bool {
        &&& after.body_map() == self.body_map() && after.body_keys() == self.body_keys()
        &&& after.point_map() == self.point_map() && after.point_keys() == self.point_keys()
        &&& after.axis_map() == self.axis_map() && after.axis_keys() == self.axis_keys()
        &&& after.driver_map() == self.driver_map() && after.driver_keys() == self.driver_keys()
        &&& after.monitor_map() == self.monitor_map() && after.monitor_keys() == self.monitor_keys()
        &&& after.scale() == self.scale() && after.frame() == self.frame()
    }

    /// `after` holds what this linkage holds, but for its drivers.
    pub open spec fn only_drivers_differ(self, after: Linkage) -> bool {
        &&& after.body_map() == self.body_map() && after.body_keys() == self.body_keys()
        &&& after.point_map() == self.point_map() && after.point_keys() == self.point_keys()
        &&& after.axis_map() == self.axis_map() && after.axis_keys() == self.axis_keys()
        &&& after.joint_map() == self.joint_map() && after.joint_keys() == self.joint_keys()
        &&& after.monitor_map() == self.monitor_map() && after.monitor_keys() == self.monitor_keys()
        &&& after.scale() == self.scale() && after.frame() == self.frame()
    }

    /// `after` holds what this linkage holds, but for its branch monitors.
    pub open spec fn only_monitors_differ(self, after: Linkage) -> bool {
        &&& after.body_map() == self.body_map() && after.body_keys() == self.body_keys()
        &&& after.point_map() == self.point_map() && after.point_keys() == self.point_keys()
        &&& after.axis_map() == self.axis_map() && after.axis_keys() == self.axis_keys()
        &&& after.joint_map() == self.joint_map() && after.joint_keys() == self.joint_keys()
        &&& after.driver_map() == self.driver_map() && after.driver_keys() == self.driver_keys()
        &&& after.scale() == self.scale() && after.frame() == self.frame()
    }

    /// Whether a held feature or angular driver names the body.
    pub open spec fn body_in_use(&self, body: BodyId) -> bool {
        ||| exists|k: u64| #[trigger] self.point_map().contains_key(k) && self.point_map()[k].body == body
        ||| exists|k: u64| #[trigger] self.axis_map().contains_key(k) && self.axis_map()[k].body == body
        ||| exists|k: u64| #[trigger] self.driver_map().contains_key(k) && driver_references_body(self.driver_map()[k].kind, body)
    }

    /// Whether a held joint, driver or monitor names the point feature.
    pub open spec fn point_in_use(&self, point: PointFeatureId) -> bool {
        ||| exists|k: u64| #[trigger] self.joint_map().contains_key(k) && joint_references_point(self.joint_map()[k].kind, point)
        ||| exists|k: u64| #[trigger] self.driver_map().contains_key(k) && driver_names_point(self.driver_map()[k].kind, point)
        ||| exists|k: u64| #[trigger] self.monitor_map().contains_key(k) && monitor_names_point(self.monitor_map()[k], point)
    }

    /// Whether a held joint, driver or monitor names the axis feature.
    pub open spec fn axis_in_use(&self, axis: AxisFeatureId) -> bool {
        ||| exists|k: u64| #[trigger] self.joint_map().contains_key(k) && joint_references_axis(self.joint_map()[k].kind, axis)
        ||| exists|k: u64| #[trigger] self.driver_map().contains_key(k) && driver_names_axis(self.driver_map()[k].kind, axis)
        ||| exists|k: u64| #[trigger] self.monitor_map().contains_key(k) && monitor_names_axis(self.monitor_map()[k], axis)
    }

    /// The rejection of two point features whose bodies must differ: the
    /// first missing feature, then a repeated body.
    pub open spec fn distinct_bodies_error(&self, first: PointFeatureId, second: PointFeatureId) -> Option<LinkageError> {
        if !self.point_map().contains_key(first.0) {
            Some(LinkageError::UnknownPointFeature(first))
        } else if !self.point_map().contains_key(second.0) {
            Some(LinkageError::UnknownPointFeature(second))
        } else if self.point_map()[first.0].body == self.point_map()[second.0].body {
            Some(LinkageError::RepeatedBody)
        } else {
            None
        }
    }

    /// The rejection of a prismatic joint's features: the first missing
    /// anchor, then the first missing axis, then an axis on another body than
    /// its anchor, then anchors on one body.
    pub open spec fn prismatic_error(
        &self,
        first_anchor: PointFeatureId,
        first_axis: AxisFeatureId,
        second_anchor: PointFeatureId,
        second_axis: AxisFeatureId,
    ) -> Option<LinkageError> {
        if !self.point_map().contains_key(first_anchor.0) {
            Some(LinkageError::UnknownPointFeature(first_anchor))
        } else if !self.point_map().contains_key(second_anchor.0) {
            Some(LinkageError::UnknownPointFeature(second_anchor))
        } else if !self.axis_map().contains_key(first_axis.0) {
            Some(LinkageError::UnknownAxisFeature(first_axis))
        } else if !self.axis_map().contains_key(second_axis.0) {
            Some(LinkageError::UnknownAxisFeature(second_axis))
        } else if self.point_map()[first_anchor.0].body != self.axis_map()[first_axis.0].body
            || self.point_map()[second_anchor.0].body != self.axis_map()[second_axis.0].body {
            Some(LinkageError::PrismaticFeatureBodyMismatch)
        } else if self.point_map()[first_anchor.0].body == self.point_map()[second_anchor.0].body {
            Some(LinkageError::RepeatedBody)
        } else {
            None
        }
    }

    /// The rejection of an angular driver's bodies: the first missing body,
    /// then one body twice.
    pub open spec fn angular_driver_error(&self, reference: BodyId, driven: BodyId) -> Option<LinkageError> {
        if !self.body_map().contains_key(reference.0) {
            Some(LinkageError::UnknownBody(reference))
        } else if !self.body_map().contains_key(driven.0) {
            Some(LinkageError::UnknownBody(driven))
        } else if reference == driven {
            Some(LinkageError::RepeatedBody)
        } else {
            None
        }
    }

    /// The rejection of a linear driver's features: the first missing
    /// feature, then a guide axis on another body than the origin, then an
    /// origin and measured point on one body.
    pub open spec fn linear_driver_error(&self, origin: PointFeatureId, measured: PointFeatureId, guide_axis: AxisFeatureId) -> Option<LinkageError> {
        if !self.point_map().contains_key(origin.0) {
            Some(LinkageError::UnknownPointFeature(origin))
        } else if !self.point_map().contains_key(measured.0) {
            Some(LinkageError::UnknownPointFeature(measured))
        } else if !self.axis_map().contains_key(guide_axis.0) {
            Some(LinkageError::UnknownAxisFeature(guide_axis))
        } else if self.point_map()[origin.0].body != self.axis_map()[guide_axis.0].body {
            Some(LinkageError::LinearDriverFeatureBodyMismatch)
        } else if self.point_map()[origin.0].body == self.point_map()[measured.0].body {
            Some(LinkageError::RepeatedBody)
        } else {
            None
        }
    }

    /// The rejection of an orientation monitor's points: the first missing one.
    pub open spec fn orientation_monitor_error(&self, line_start: PointFeatureId, line_end: PointFeatureId, observed: PointFeatureId) -> Option<LinkageError> {
        if !self.point_map().contains_key(line_start.0) {
            Some(LinkageError::UnknownPointFeature(line_start))
        } else if !self.point_map().contains_key(line_end.0) {
            Some(LinkageError::UnknownPointFeature(line_end))
        } else if !self.point_map().contains_key(observed.0) {
            Some(LinkageError::UnknownPointFeature(observed))
        } else {
            None
        }
    }

    /// The rejection of a displacement monitor's features: the first missing
    /// one, then an axis on another body than the origin.
    pub open spec fn displacement_monitor_error(&self, origin: PointFeatureId, measured: PointFeatureId, axis: AxisFeatureId) -> Option<LinkageError> {
        if !self.point_map().contains_key(origin.0) {
            Some(LinkageError::UnknownPointFeature(origin))
        } else if !self.point_map().contains_key(measured.0) {
            Some(LinkageError::UnknownPointFeature(measured))
        } else if !self.axis_map().contains_key(axis.0) {
            Some(LinkageError::UnknownAxisFeature(axis))
        } else if self.axis_map()[axis.0].body != self.point_map()[origin.0].body {
            Some(LinkageError::LinearDriverFeatureBodyMismatch)
        } else {
            None
        }
    }

    /// `after` holds one more joint than this linkage, under the fresh key
    /// `key`, with the label, kind and next ordinal.
    pub open spec fn joint_added(&self, after: Linkage, key: u64, label: Seq<char>, kind: JointKind) -> bool {
        &&& slot_key(key) == key
        &&& !self.joint_map().contains_key(key)
        &&& after.joint_map() == self.joint_map().insert(key, after.joint_map()[key])
        &&& after.joint_map()[key].label@ == label
        &&& after.joint_map()[key].kind == kind
        &&& after.joint_map()[key].ordinal == self.joint_keys().len() + 1
        &&& after.joint_keys() == self.joint_keys().push(key)
        &&& self.only_joints_differ(after)
    }

    /// `after` holds one more driver than this linkage, under the fresh key
    /// `key`, with the given fields and the next ordinal.
    pub open spec fn driver_added(&self, after: Linkage, key: u64, label: Seq<char>, kind: DriverKind, target: u64, max_continuation_step: u64) -> bool {
        &&& slot_key(key) == key
        &&& !self.driver_map().contains_key(key)
        &&& after.driver_map() == self.driver_map().insert(key, after.driver_map()[key])
        &&& after.driver_map()[key].label@ == label
        &&& after.driver_map()[key].kind == kind
        &&& after.driver_map()[key].target == target
        &&& after.driver_map()[key].max_continuation_step == max_continuation_step
        &&& after.driver_map()[key].ordinal == self.driver_keys().len() + 1
        &&& after.driver_keys() == self.driver_keys().push(key)
        &&& self.only_drivers_differ(after)
    }

    /// `after` holds one more branch monitor than this linkage, under the
    /// fresh key `key`.
    pub open spec fn monitor_added(&self, after: Linkage, key: u64, monitor: BranchMonitor) -> bool {
        &&& slot_key(key) == key
        &&& !self.monitor_map().contains_key(key)
        &&& after.monitor_map() == self.monitor_map().insert(key, monitor)
        &&& after.monitor_keys() == self.monitor_keys().push(key)
        &&& self.only_monitors_differ(after)
    }

    /// Every reference held by a feature, joint, driver or monitor resolves.
    pub open spec fn references_resolve(&self) -> bool {
        &&& forall|k: u64| #[trigger] self.point_map().contains_key(k) ==> self.body_map().contains_key(self.point_map()[k].body.0)
        &&& forall|k: u64| #[trigger] self.axis_map().contains_key(k) ==> self.body_map().contains_key(self.axis_map()[k].body.0)
        &&& forall|k: u64| #[trigger] self.joint_map().contains_key(k) ==> joint_resolves(self.joint_map()[k].kind, self.point_map(), self.axis_map())
        &&& forall|k: u64| #[trigger] self.driver_map().contains_key(k) ==> driver_resolves(self.driver_map()[k].kind, self.body_map(), self.point_map(), self.axis_map())
        &&& forall|k: u64| #[trigger] self.monitor_map().contains_key(k) ==> monitor_resolves(self.monitor_map()[k], self.point_map(), self.axis_map())
    }

    /// The stores are consistent with their issue orders and every reference
    /// resolves.
    pub open spec fn wf(&self) -> bool {
        &&& store_wf(self.body_keys(), self.body_map())
        &&& store_wf(self.point_keys(), self.point_map())
        &&& store_wf(self.axis_keys(), self.axis_map())
        &&& store_wf(self.joint_keys(), self.joint_map())
        &&& store_wf(self.driver_keys(), self.driver_map())
        &&& store_wf(self.monitor_keys(), self.monitor_map())
        &&& self.references_resolve()
    }

    /// Creates an empty linkage with a validated model scale and work plane.
    ///
    /// The scale must be finite and positive; `frame_rejection` is the
    /// verdict on the work plane (finite, unit and orthogonal axes), `None`
    /// when it is accepted.
    pub fn new(model_scale: u64, plane_frame: PlaneFrameBits, frame_rejection: Option<&'static str>) -> (result: Result<Linkage, LinkageError>)
        ensures
            !positive_finite_bits(model_scale) ==> result == Err::<Linkage, _>(LinkageError::InvalidModelScale(model_scale)),
            positive_finite_bits(model_scale) ==> match frame_rejection {
                Some(message) => result == Err::<Linkage, _>(LinkageError::InvalidPlaneFrame(message)),
                None => result matches Ok(linkage) && {
                    &&& linkage.wf()
                    &&& linkage.scale() == model_scale
                    &&& linkage.frame() == plane_frame
                    &&& linkage.body_map().is_empty() && linkage.body_keys().len() == 0
                    &&& linkage.point_map().is_empty() && linkage.point_keys().len() == 0
                    &&& linkage.axis_map().is_empty() && linkage.axis_keys().len() == 0
                    &&& linkage.joint_map().is_empty() && linkage.joint_keys().len() == 0
                    &&& linkage.driver_map().is_empty() && linkage.driver_keys().len() == 0
                    &&& linkage.monitor_map().is_empty() && linkage.monitor_keys().len() == 0
                },
            },
    {
        if !is_positive_finite_bits(model_scale) {
            return Err(LinkageError::InvalidModelScale(model_scale));
        }
        if let Some(message) = frame_rejection {
            return Err(LinkageError::InvalidPlaneFrame(message));
        }
        let linkage = Linkage {
            model_scale,
            plane_frame,
            bodies: new_body_slots(),
            body_order: Vec::new(),
            point_features: new_point_slots(),
            point_order: Vec::new(),
            axis_features: new_axis_slots(),
            axis_order: Vec::new(),
            joints: new_joint_slots(),
            joint_order: Vec::new(),
            drivers: new_driver_slots(),
            driver_order: Vec::new(),
            branch_monitors: new_monitor_slots(),
            monitor_order: Vec::new(),
        };
        Ok(linkage)
    }

    /// The accepted model scale.
    pub fn model_scale(&self) -> (scale: u64)
        ensures
            scale == self.scale(),
    {
        self.model_scale
    }

    /// The accepted work plane.
    pub fn plane_frame(&self) -> (frame: PlaneFrameBits)
        ensures
            frame == self.frame(),
    {
        self.plane_frame
    }


    /// Whether a held point feature belongs to the body.
    fn scan_points_on_body(&self, body: BodyId) -> (found: bool)
        requires
            store_wf(self.point_keys(), self.point_map()),
        ensures
            found == exists|k: u64| #[trigger] self.point_map().contains_key(k) && self.point_map()[k].body == body,
    {
        let mut i: usize = 0;
        while i < self.point_order.len()
            invariant
                store_wf(self.point_keys(), self.point_map()),
                i <= self.point_order@.len(),
                forall|j: int| 0 <= j < i && #[trigger] self.point_map().contains_key(self.point_order@[j]) ==> !(self.point_map()[self.point_order@[j]].body == body),
            decreases self.point_order@.len() - i,
        {
            let key = self.point_order[i];
            if let Some(value) = get_point_slot(&self.point_features, key) {
                if value.body == body {
                    assert(self.point_map().contains_key(key) && self.point_map()[key].body == body);
                    return true;
                }
            }
            i = i + 1;
        }
        proof {
            assert forall|k: u64| #[trigger] self.point_map().contains_key(k) implies !(self.point_map()[k].body == body) by {
                assert(self.point_keys().contains(k));
                let j = choose|j: int| 0 <= j < self.point_order@.len() && self.point_order@[j] == k;
                assert(self.point_map().contains_key(self.point_order@[j]));
            }
        }
        false
    }

    /// Whether a held axis feature belongs to the body.
    fn scan_axes_on_body(&self, body: BodyId) -> (found: bool)
        requires
            store_wf(self.axis_keys(), self.axis_map()),
        ensures
            found == exists|k: u64| #[trigger] self.axis_map().contains_key(k) && self.axis_map()[k].body == body,
    {
        let mut i: usize = 0;
        while i < self.axis_order.len()
            invariant
                store_wf(self.axis_keys(), self.axis_map()),
                i <= self.axis_order@.len(),
                forall|j: int| 0 <= j < i && #[trigger] self.axis_map().contains_key(self.axis_order@[j]) ==> !(self.axis_map()[self.axis_order@[j]].body == body),
            decreases self.axis_order@.len() - i,
        {
            let key = self.axis_order[i];
            if let Some(value) = get_axis_slot(&self.axis_features, key) {
                if value.body == body {
                    assert(self.axis_map().contains_key(key) && self.axis_map()[key].body == body);
                    return true;
                }
            }
            i = i + 1;
        }
        proof {
            assert forall|k: u64| #[trigger] self.axis_map().contains_key(k) implies !(self.axis_map()[k].body == body) by {
                assert(self.axis_keys().contains(k));
                let j = choose|j: int| 0 <= j < self.axis_order@.len() && self.axis_order@[j] == k;
                assert(self.axis_map().contains_key(self.axis_order@[j]));
            }
        }
        false
    }

    /// Whether a held angular driver measures the body.
    fn scan_drivers_on_body(&self, body: BodyId) -> (found: bool)
        requires
            store_wf(self.driver_keys(), self.driver_map()),
        ensures
            found == exists|k: u64| #[trigger] self.driver_map().contains_key(k) && driver_references_body(self.driver_map()[k].kind, body),
    {
        let mut i: usize = 0;
        while i < self.driver_order.len()
            invariant
                store_wf(self.driver_keys(), self.driver_map()),
                i <= self.driver_order@.len(),
                forall|j: int| 0 <= j < i && #[trigger] self.driver_map().contains_key(self.driver_order@[j]) ==> !(driver_references_body(self.driver_map()[self.driver_order@[j]].kind, body)),
            decreases self.driver_order@.len() - i,
        {
            let key = self.driver_order[i];
            if let Some(value) = get_driver_slot(&self.drivers, key) {
                if driver_uses_body(value.kind, body) {
                    assert(self.driver_map().contains_key(key) && driver_references_body(self.driver_map()[key].kind, body));
                    return true;
                }
            }
            i = i + 1;
        }
        proof {
            assert forall|k: u64| #[trigger] self.driver_map().contains_key(k) implies !(driver_references_body(self.driver_map()[k].kind, body)) by {
                assert(self.driver_keys().contains(k));
                let j = choose|j: int| 0 <= j < self.driver_order@.len() && self.driver_order@[j] == k;
                assert(self.driver_map().contains_key(self.driver_order@[j]));
            }
        }
        false
    }

    /// Whether a held joint anchors at the point feature.
    fn scan_joints_at_point(&self, point: PointFeatureId) -> (found: bool)
        requires
            store_wf(self.joint_keys(), self.joint_map()),
        ensures
            found == exists|k: u64| #[trigger] self.joint_map().contains_key(k) && joint_references_point(self.joint_map()[k].kind, point),
    {
        let mut i: usize = 0;
        while i < self.joint_order.len()
            invariant
                store_wf(self.joint_keys(), self.joint_map()),
                i <= self.joint_order@.len(),
                forall|j: int| 0 <= j < i && #[trigger] self.joint_map().contains_key(self.joint_order@[j]) ==> !(joint_references_point(self.joint_map()[self.joint_order@[j]].kind, point)),
            decreases self.joint_order@.len() - i,
        {
            let key = self.joint_order[i];
            if let Some(value) = get_joint_slot(&self.joints, key) {
                if joint_uses_point(value.kind, point) {
                    assert(self.joint_map().contains_key(key) && joint_references_point(self.joint_map()[key].kind, point));
                    return true;
                }
            }
            i = i + 1;
        }
        proof {
            assert forall|k: u64| #[trigger] self.joint_map().contains_key(k) implies !(joint_references_point(self.joint_map()[k].kind, point)) by {
                assert(self.joint_keys().contains(k));
                let j = choose|j: int| 0 <= j < self.joint_order@.len() && self.joint_order@[j] == k;
                assert(self.joint_map().contains_key(self.joint_order@[j]));
            }
        }
        false
    }

    /// Whether a held driver measures the point feature.
    fn scan_drivers_at_point(&self, point: PointFeatureId) -> (found: bool)
        requires
            store_wf(self.driver_keys(), self.driver_map()),
        ensures
            found == exists|k: u64| #[trigger] self.driver_map().contains_key(k) && driver_names_point(self.driver_map()[k].kind, point),
    {
        let mut i: usize = 0;
        while i < self.driver_order.len()
            invariant
                store_wf(self.driver_keys(), self.driver_map()),
                i <= self.driver_order@.len(),
                forall|j: int| 0 <= j < i && #[trigger] self.driver_map().contains_key(self.driver_order@[j]) ==> !(driver_names_point(self.driver_map()[self.driver_order@[j]].kind, point)),
            decreases self.driver_order@.len() - i,
        {
            let key = self.driver_order[i];
            if let Some(value) = get_driver_slot(&self.drivers, key) {
                if driver_references_point(value.kind, point) {
                    assert(self.driver_map().contains_key(key) && driver_names_point(self.driver_map()[key].kind, point));
                    return true;
                }
            }
            i = i + 1;
        }
        proof {
            assert forall|k: u64| #[trigger] self.driver_map().contains_key(k) implies !(driver_names_point(self.driver_map()[k].kind, point)) by {
                assert(self.driver_keys().contains(k));
                let j = choose|j: int| 0 <= j < self.driver_order@.len() && self.driver_order@[j] == k;
                assert(self.driver_map().contains_key(self.driver_order@[j]));
            }
        }
        false
    }

    /// Whether a held branch monitor observes the point feature.
    fn scan_monitors_at_point(&self, point: PointFeatureId) -> (found: bool)
        requires
            store_wf(self.monitor_keys(), self.monitor_map()),
        ensures
            found == exists|k: u64| #[trigger] self.monitor_map().contains_key(k) && monitor_names_point(self.monitor_map()[k], point),
    {
        let mut i: usize = 0;
        while i < self.monitor_order.len()
            invariant
                store_wf(self.monitor_keys(), self.monitor_map()),
                i <= self.monitor_order@.len(),
                forall|j: int| 0 <= j < i && #[trigger] self.monitor_map().contains_key(self.monitor_order@[j]) ==> !(monitor_names_point(self.monitor_map()[self.monitor_order@[j]], point)),
            decreases self.monitor_order@.len() - i,
        {
            let key = self.monitor_order[i];
            if let Some(value) = get_monitor_slot(&self.branch_monitors, key) {
                if monitor_references_point(*value, point) {
                    assert(self.monitor_map().contains_key(key) && monitor_names_point(self.monitor_map()[key], point));
                    return true;
                }
            }
            i = i + 1;
        }
        proof {
            assert forall|k: u64| #[trigger] self.monitor_map().contains_key(k) implies !(monitor_names_point(self.monitor_map()[k], point)) by {
                assert(self.monitor_keys().contains(k));
                let j = choose|j: int| 0 <= j < self.monitor_order@.len() && self.monitor_order@[j] == k;
                assert(self.monitor_map().contains_key(self.monitor_order@[j]));
            }
        }
        false
    }

    /// Whether a held joint slides along the axis feature.
    fn scan_joints_on_axis(&self, axis: AxisFeatureId) -> (found: bool)
        requires
            store_wf(self.joint_keys(), self.joint_map()),
        ensures
            found == exists|k: u64| #[trigger] self.joint_map().contains_key(k) && joint_references_axis(self.joint_map()[k].kind, axis),
    {
        let mut i: usize = 0;
        while i < self.joint_order.len()
            invariant
                store_wf(self.joint_keys(), self.joint_map()),
                i <= self.joint_order@.len(),
                forall|j: int| 0 <= j < i && #[trigger] self.joint_map().contains_key(self.joint_order@[j]) ==> !(joint_references_axis(self.joint_map()[self.joint_order@[j]].kind, axis)),
            decreases self.joint_order@.len() - i,
        {
            let key = self.joint_order[i];
            if let Some(value) = get_joint_slot(&self.joints, key) {
                if joint_uses_axis(value.kind, axis) {
                    assert(self.joint_map().contains_key(key) && joint_references_axis(self.joint_map()[key].kind, axis));
                    return true;
                }
            }
            i = i + 1;
        }
        proof {
            assert forall|k: u64| #[trigger] self.joint_map().contains_key(k) implies !(joint_references_axis(self.joint_map()[k].kind, axis)) by {
                assert(self.joint_keys().contains(k));
                let j = choose|j: int| 0 <= j < self.joint_order@.len() && self.joint_order@[j] == k;
                assert(self.joint_map().contains_key(self.joint_order@[j]));
            }
        }
        false
    }

    /// Whether a held driver measures along the axis feature.
    fn scan_drivers_on_axis(&self, axis: AxisFeatureId) -> (found: bool)
        requires
            store_wf(self.driver_keys(), self.driver_map()),
        ensures
            found == exists|k: u64| #[trigger] self.driver_map().contains_key(k) && driver_names_axis(self.driver_map()[k].kind, axis),
    {
        let mut i: usize = 0;
        while i < self.driver_order.len()
            invariant
                store_wf(self.driver_keys(), self.driver_map()),
                i <= self.driver_order@.len(),
                forall|j: int| 0 <= j < i && #[trigger] self.driver_map().contains_key(self.driver_order@[j]) ==> !(driver_names_axis(self.driver_map()[self.driver_order@[j]].kind, axis)),
            decreases self.driver_order@.len() - i,
        {
            let key = self.driver_order[i];
            if let Some(value) = get_driver_slot(&self.drivers, key) {
                if driver_references_axis(value.kind, axis) {
                    assert(self.driver_map().contains_key(key) && driver_names_axis(self.driver_map()[key].kind, axis));
                    return true;
                }
            }
            i = i + 1;
        }
        proof {
            assert forall|k: u64| #[trigger] self.driver_map().contains_key(k) implies !(driver_names_axis(self.driver_map()[k].kind, axis)) by {
                assert(self.driver_keys().contains(k));
                let j = choose|j: int| 0 <= j < self.driver_order@.len() && self.driver_order@[j] == k;
                assert(self.driver_map().contains_key(self.driver_order@[j]));
            }
        }
        false
    }

    /// Whether a held branch monitor measures along the axis feature.
    fn scan_monitors_on_axis(&self, axis: AxisFeatureId) -> (found: bool)
        requires
            store_wf(self.monitor_keys(), self.monitor_map()),
        ensures
            found == exists|k: u64| #[trigger] self.monitor_map().contains_key(k) && monitor_names_axis(self.monitor_map()[k], axis),
    {
        let mut i: usize = 0;
        while i < self.monitor_order.len()
            invariant
                store_wf(self.monitor_keys(), self.monitor_map()),
                i <= self.monitor_order@.len(),
                forall|j: int| 0 <= j < i && #[trigger] self.monitor_map().contains_key(self.monitor_order@[j]) ==> !(monitor_names_axis(self.monitor_map()[self.monitor_order@[j]], axis)),
            decreases self.monitor_order@.len() - i,
        {
            let key = self.monitor_order[i];
            if let Some(value) = get_monitor_slot(&self.branch_monitors, key) {
                if monitor_references_axis(*value, axis) {
                    assert(self.monitor_map().contains_key(key) && monitor_names_axis(self.monitor_map()[key], axis));
                    return true;
                }
            }
            i = i + 1;
        }
        proof {
            assert forall|k: u64| #[trigger] self.monitor_map().contains_key(k) implies !(monitor_names_axis(self.monitor_map()[k], axis)) by {
                assert(self.monitor_keys().contains(k));
                let j = choose|j: int| 0 <= j < self.monitor_order@.len() && self.monitor_order@[j] == k;
                assert(self.monitor_map().contains_key(self.monitor_order@[j]));
            }
        }
        false
    }

    /// The held body that a lookup of `body` finds, if any.
    pub fn body(&self, body: BodyId) -> (found: Option<&RigidBody>)
        ensures
            found matches Some(v) ==> self.body_map().contains_key(slot_key(body.0)) && *v == self.body_map()[slot_key(body.0)],
            found is None ==> !self.body_map().contains_key(slot_key(body.0)),
    {
        get_body_slot(&self.bodies, body.0)
    }

    /// The held body that a lookup of `body` finds, or `UnknownBody`.
    pub fn require_body(&self, body: BodyId) -> (found: Result<&RigidBody, LinkageError>)
        ensures
            found matches Ok(v) ==> self.body_map().contains_key(slot_key(body.0)) && *v == self.body_map()[slot_key(body.0)],
            found is Err ==> !self.body_map().contains_key(slot_key(body.0)) && found == Err::<&RigidBody, _>(LinkageError::UnknownBody(body)),
    {
        match get_body_slot(&self.bodies, body.0) {
            Some(v) => Ok(v),
            None => Err(LinkageError::UnknownBody(body)),
        }
    }

    /// The held bodies, in the order they were added.
    pub fn bodies(&self) -> (listed: Vec<(BodyId, &RigidBody)>)
        requires
            store_wf(self.body_keys(), self.body_map()),
        ensures
            listed@.len() == live_keys(self.body_keys(), self.body_map()).len(),
            forall|i: int| 0 <= i < listed@.len() ==> {
                let key = live_keys(self.body_keys(), self.body_map())[i];
                &&& (#[trigger] listed@[i]).0 == BodyId(key)
                &&& *listed@[i].1 == self.body_map()[key]
            },
    {
        let mut listed: Vec<(BodyId, &RigidBody)> = Vec::new();
        let mut i: usize = 0;
        while i < self.body_order.len()
            invariant
                store_wf(self.body_keys(), self.body_map()),
                i <= self.body_order@.len(),
                listed@.len() == live_keys(self.body_order@.take(i as int), self.body_map()).len(),
                forall|j: int| 0 <= j < listed@.len() ==> {
                    let key = live_keys(self.body_order@.take(i as int), self.body_map())[j];
                    &&& (#[trigger] listed@[j]).0 == BodyId(key)
                    &&& *listed@[j].1 == self.body_map()[key]
                },
            decreases self.body_order@.len() - i,
        {
            let key = self.body_order[i];
            proof {
                lemma_live_keys_step(self.body_order@, self.body_map(), i as int);
            }
            if let Some(value) = get_body_slot(&self.bodies, key) {
                listed.push((BodyId(key), value));
            }
            i = i + 1;
        }
        proof {
            assert(self.body_order@.take(self.body_order@.len() as int) =~= self.body_order@);
        }
        listed
    }

    /// Adds a rigid body with a finite accepted pose.
    pub fn add_body(&mut self, label: &str, pose: PoseBits, grounded: bool) -> (result: Result<BodyId, LinkageError>)
        requires
            old(self).wf(),
            old(self).body_map().len() < u32::MAX - 1,
        ensures
            final(self).wf(),
            !pose_finite(pose) ==> result == Err::<BodyId, _>(LinkageError::NonFinitePose { context: "rigid body" }),
            pose_finite(pose) && is_blank(label@) ==> result == Err::<BodyId, _>(LinkageError::EmptyLabel("rigid body")),
            result is Err ==> *final(self) == *old(self),
            pose_finite(pose) && !is_blank(label@) ==> (result matches Ok(id) && {
                &&& canonical_body(id) == id
                &&& !old(self).body_map().contains_key(id.0)
                &&& final(self).body_map() == old(self).body_map().insert(id.0, final(self).body_map()[id.0])
                &&& final(self).body_map()[id.0].label@ == label@
                &&& final(self).body_map()[id.0].pose == pose
                &&& final(self).body_map()[id.0].grounded == grounded
                &&& final(self).body_keys() == old(self).body_keys().push(id.0)
                &&& old(self).only_bodies_differ(*final(self))
            }),
    {
        if !(is_finite_bits(pose.x) && is_finite_bits(pose.y) && is_finite_bits(pose.angle)) {
            return Err(LinkageError::NonFinitePose { context: "rigid body" });
        }
        if trims_to_empty(label) {
            return Err(LinkageError::EmptyLabel("rigid body"));
        }
        let ghost before = *self;
        let body = RigidBody { label: label.to_owned(), pose, grounded };
        let key = insert_body_slot(&mut self.bodies, body);
        self.body_order.push(key);
        proof {
            lemma_store_push(before.body_keys(), before.body_map(), key, body);
        }
        Ok(BodyId(key))
    }

    /// Replaces the accepted pose of a body, which must be finite.
    pub fn set_body_pose(&mut self, body: BodyId, pose: PoseBits) -> (result: Result<(), LinkageError>)
        requires
            old(self).wf(),
        ensures
            final(self).wf(),
            !pose_finite(pose) ==> result == Err::<(), _>(LinkageError::NonFinitePose { context: "rigid body" }),
            pose_finite(pose) && !old(self).body_map().contains_key(slot_key(body.0)) ==> result == Err::<(), _>(
                LinkageError::UnknownBody(canonical_body(body)),
            ),
            result is Err ==> *final(self) == *old(self),
            pose_finite(pose) && old(self).body_map().contains_key(slot_key(body.0)) ==> {
                &&& result is Ok
                &&& final(self).body_map() == old(self).body_map().insert(
                    slot_key(body.0),
                    RigidBody { pose, ..old(self).body_map()[slot_key(body.0)] },
                )
                &&& final(self).body_keys() == old(self).body_keys()
                &&& old(self).only_bodies_differ(*final(self))
            },
    {
        if !(is_finite_bits(pose.x) && is_finite_bits(pose.y) && is_finite_bits(pose.angle)) {
            return Err(LinkageError::NonFinitePose { context: "rigid body" });
        }
        let body = BodyId(slot_id(body.0));
        if get_body_slot(&self.bodies, body.0).is_none() {
            return Err(LinkageError::UnknownBody(body));
        }
        let ghost before = *self;
        let slot = body_slot_mut(&mut self.bodies, body.0);
        slot.pose = pose;
        proof {
            lemma_store_update(before.body_keys(), before.body_map(), body.0, self.body_map()[body.0]);
        }
        Ok(())
    }

    /// Removes a body that no feature or angular driver names, leaving its
    /// identity stale.
    pub fn remove_body(&mut self, body: BodyId) -> (result: Result<RigidBody, LinkageError>)
        requires
            old(self).wf(),
        ensures
            final(self).wf(),
            old(self).body_in_use(canonical_body(body)) ==> result == Err::<RigidBody, _>(
                LinkageError::BodyInUse(canonical_body(body)),
            ),
            !old(self).body_in_use(canonical_body(body)) && !old(self).body_map().contains_key(slot_key(body.0))
                ==> result == Err::<RigidBody, _>(LinkageError::UnknownBody(canonical_body(body))),
            result is Err ==> *final(self) == *old(self),
            !old(self).body_in_use(canonical_body(body)) && old(self).body_map().contains_key(slot_key(body.0)) ==> {
                &&& result matches Ok(removed) && removed == old(self).body_map()[slot_key(body.0)]
                &&& final(self).body_map() == old(self).body_map().remove(slot_key(body.0))
                &&& final(self).body_keys() == old(self).body_keys()
                &&& old(self).only_bodies_differ(*final(self))
            },
    {
        let body = BodyId(slot_id(body.0));
        if self.scan_points_on_body(body) || self.scan_axes_on_body(body) || self.scan_drivers_on_body(body) {
            return Err(LinkageError::BodyInUse(body));
        }
        if get_body_slot(&self.bodies, body.0).is_none() {
            return Err(LinkageError::UnknownBody(body));
        }
        let ghost before = *self;
        match remove_body_slot(&mut self.bodies, body.0) {
            Some(removed) => {
                proof {
                    lemma_store_remove(before.body_keys(), before.body_map(), body.0);
                }
                Ok(removed)
            },
            None => Err(LinkageError::UnknownBody(body)),
        }
    }

    /// The held point feature that a lookup of `feature` finds, if any.
    pub fn point_feature(&self, feature: PointFeatureId) -> (found: Option<&PointFeature>)
        ensures
            found matches Some(v) ==> self.point_map().contains_key(slot_key(feature.0)) && *v == self.point_map()[slot_key(feature.0)],
            found is None ==> !self.point_map().contains_key(slot_key(feature.0)),
    {
        get_point_slot(&self.point_features, feature.0)
    }

    /// The held point feature that a lookup of `feature` finds, or `UnknownPointFeature`.
    pub fn require_point_feature(&self, feature: PointFeatureId) -> (found: Result<&PointFeature, LinkageError>)
        ensures
            found matches Ok(v) ==> self.point_map().contains_key(slot_key(feature.0)) && *v == self.point_map()[slot_key(feature.0)],
            found is Err ==> !self.point_map().contains_key(slot_key(feature.0)) && found == Err::<&PointFeature, _>(LinkageError::UnknownPointFeature(feature)),
    {
        match get_point_slot(&self.point_features, feature.0) {
            Some(v) => Ok(v),
            None => Err(LinkageError::UnknownPointFeature(feature)),
        }
    }

    /// The held point features, in the order they were added.
    pub fn point_features(&self) -> (listed: Vec<(PointFeatureId, &PointFeature)>)
        requires
            store_wf(self.point_keys(), self.point_map()),
        ensures
            listed@.len() == live_keys(self.point_keys(), self.point_map()).len(),
            forall|i: int| 0 <= i < listed@.len() ==> {
                let key = live_keys(self.point_keys(), self.point_map())[i];
                &&& (#[trigger] listed@[i]).0 == PointFeatureId(key)
                &&& *listed@[i].1 == self.point_map()[key]
            },
    {
        let mut listed: Vec<(PointFeatureId, &PointFeature)> = Vec::new();
        let mut i: usize = 0;
        while i < self.point_order.len()
            invariant
                store_wf(self.point_keys(), self.point_map()),
                i <= self.point_order@.len(),
                listed@.len() == live_keys(self.point_order@.take(i as int), self.point_map()).len(),
                forall|j: int| 0 <= j < listed@.len() ==> {
                    let key = live_keys(self.point_order@.take(i as int), self.point_map())[j];
                    &&& (#[trigger] listed@[j]).0 == PointFeatureId(key)
                    &&& *listed@[j].1 == self.point_map()[key]
                },
            decreases self.point_order@.len() - i,
        {
            let key = self.point_order[i];
            proof {
                lemma_live_keys_step(self.point_order@, self.point_map(), i as int);
            }
            if let Some(value) = get_point_slot(&self.point_features, key) {
                listed.push((PointFeatureId(key), value));
            }
            i = i + 1;
        }
        proof {
            assert(self.point_order@.take(self.point_order@.len() as int) =~= self.point_order@);
        }
        listed
    }

    /// The held axis feature that a lookup of `feature` finds, if any.
    pub fn axis_feature(&self, feature: AxisFeatureId) -> (found: Option<&AxisFeature>)
        ensures
            found matches Some(v) ==> self.axis_map().contains_key(slot_key(feature.0)) && *v == self.axis_map()[slot_key(feature.0)],
            found is None ==> !self.axis_map().contains_key(slot_key(feature.0)),
    {
        get_axis_slot(&self.axis_features, feature.0)
    }

    /// The held axis feature that a lookup of `feature` finds, or `UnknownAxisFeature`.
    pub fn require_axis_feature(&self, feature: AxisFeatureId) -> (found: Result<&AxisFeature, LinkageError>)
        ensures
            found matches Ok(v) ==> self.axis_map().contains_key(slot_key(feature.0)) && *v == self.axis_map()[slot_key(feature.0)],
            found is Err ==> !self.axis_map().contains_key(slot_key(feature.0)) && found == Err::<&AxisFeature, _>(LinkageError::UnknownAxisFeature(feature)),
    {
        match get_axis_slot(&self.axis_features, feature.0) {
            Some(v) => Ok(v),
            None => Err(LinkageError::UnknownAxisFeature(feature)),
        }
    }

    /// The held axis features, in the order they were added.
    pub fn axis_features(&self) -> (listed: Vec<(AxisFeatureId, &AxisFeature)>)
        requires
            store_wf(self.axis_keys(), self.axis_map()),
        ensures
            listed@.len() == live_keys(self.axis_keys(), self.axis_map()).len(),
            forall|i: int| 0 <= i < listed@.len() ==> {
                let key = live_keys(self.axis_keys(), self.axis_map())[i];
                &&& (#[trigger] listed@[i]).0 == AxisFeatureId(key)
                &&& *listed@[i].1 == self.axis_map()[key]
            },
    {
        let mut listed: Vec<(AxisFeatureId, &AxisFeature)> = Vec::new();
        let mut i: usize = 0;
        while i < self.axis_order.len()
            invariant
                store_wf(self.axis_keys(), self.axis_map()),
                i <= self.axis_order@.len(),
                listed@.len() == live_keys(self.axis_order@.take(i as int), self.axis_map()).len(),
                forall|j: int| 0 <= j < listed@.len() ==> {
                    let key = live_keys(self.axis_order@.take(i as int), self.axis_map())[j];
                    &&& (#[trigger] listed@[j]).0 == AxisFeatureId(key)
                    &&& *listed@[j].1 == self.axis_map()[key]
                },
            decreases self.axis_order@.len() - i,
        {
            let key = self.axis_order[i];
            proof {
                lemma_live_keys_step(self.axis_order@, self.axis_map(), i as int);
            }
            if let Some(value) = get_axis_slot(&self.axis_features, key) {
                listed.push((AxisFeatureId(key), value));
            }
            i = i + 1;
        }
        proof {
            assert(self.axis_order@.take(self.axis_order@.len() as int) =~= self.axis_order@);
        }
        listed
    }


    /// Adds a finite point expressed in the coordinates of a held body.
    pub fn add_point_feature(&mut self, label: &str, body: BodyId, local_point: PlanarBits) -> (result: Result<PointFeatureId, LinkageError>)
        requires
            old(self).wf(),
            old(self).point_map().len() < u32::MAX - 1,
        ensures
            final(self).wf(),
            !old(self).body_map().contains_key(slot_key(body.0)) ==> result == Err::<PointFeatureId, _>(
                LinkageError::UnknownBody(canonical_body(body)),
            ),
            old(self).body_map().contains_key(slot_key(body.0)) && !point_finite(local_point) ==> result == Err::<PointFeatureId, _>(
                LinkageError::NonFinitePoint { context: "point feature" },
            ),
            old(self).body_map().contains_key(slot_key(body.0)) && point_finite(local_point) && is_blank(label@) ==> result
                == Err::<PointFeatureId, _>(LinkageError::EmptyLabel("point feature")),
            result is Err ==> *final(self) == *old(self),
            old(self).body_map().contains_key(slot_key(body.0)) && point_finite(local_point) && !is_blank(label@) ==> (result matches Ok(id) && {
                &&& canonical_point(id) == id
                &&& !old(self).point_map().contains_key(id.0)
                &&& final(self).point_map() == old(self).point_map().insert(id.0, final(self).point_map()[id.0])
                &&& final(self).point_map()[id.0].label@ == label@
                &&& final(self).point_map()[id.0].body == canonical_body(body)
                &&& final(self).point_map()[id.0].local_point == local_point
                &&& final(self).point_keys() == old(self).point_keys().push(id.0)
                &&& old(self).only_points_differ(*final(self))
            }),
    {
        let body = BodyId(slot_id(body.0));
        self.require_body(body)?;
        if !(is_finite_bits(local_point.x) && is_finite_bits(local_point.y)) {
            return Err(LinkageError::NonFinitePoint { context: "point feature" });
        }
        if trims_to_empty(label) {
            return Err(LinkageError::EmptyLabel("point feature"));
        }
        let ghost before = *self;
        let feature = PointFeature { label: label.to_owned(), body, local_point };
        let key = insert_point_slot(&mut self.point_features, feature);
        self.point_order.push(key);
        proof {
            lemma_store_push(before.point_keys(), before.point_map(), key, feature);
        }
        Ok(PointFeatureId(key))
    }

    /// Removes a point feature that no joint, driver or monitor names,
    /// leaving its identity stale.
    pub fn remove_point_feature(&mut self, feature: PointFeatureId) -> (result: Result<PointFeature, LinkageError>)
        requires
            old(self).wf(),
        ensures
            final(self).wf(),
            old(self).point_in_use(canonical_point(feature)) ==> result == Err::<PointFeature, _>(
                LinkageError::PointFeatureInUse(canonical_point(feature)),
            ),
            !old(self).point_in_use(canonical_point(feature)) && !old(self).point_map().contains_key(slot_key(feature.0))
                ==> result == Err::<PointFeature, _>(LinkageError::UnknownPointFeature(canonical_point(feature))),
            result is Err ==> *final(self) == *old(self),
            !old(self).point_in_use(canonical_point(feature)) && old(self).point_map().contains_key(slot_key(feature.0)) ==> {
                &&& result matches Ok(removed) && removed == old(self).point_map()[slot_key(feature.0)]
                &&& final(self).point_map() == old(self).point_map().remove(slot_key(feature.0))
                &&& final(self).point_keys() == old(self).point_keys()
                &&& old(self).only_points_differ(*final(self))
            },
    {
        let feature = PointFeatureId(slot_id(feature.0));
        if self.scan_joints_at_point(feature) || self.scan_drivers_at_point(feature) || self.scan_monitors_at_point(feature) {
            return Err(LinkageError::PointFeatureInUse(feature));
        }
        if get_point_slot(&self.point_features, feature.0).is_none() {
            return Err(LinkageError::UnknownPointFeature(feature));
        }
        let ghost before = *self;
        match remove_point_slot(&mut self.point_features, feature.0) {
            Some(removed) => {
                proof {
                    lemma_store_remove(before.point_keys(), before.point_map(), feature.0);
                }
                Ok(removed)
            },
            None => Err(LinkageError::UnknownPointFeature(feature)),
        }
    }

    /// Adds a directed axis in the coordinates of a held body. `normalized`
    /// is the given axis divided by its length, or `None` when the axis is
    /// not finite and nonzero.
    pub fn add_axis_feature(&mut self, label: &str, body: BodyId, normalized: Option<PlanarBits>) -> (result: Result<AxisFeatureId, LinkageError>)
        requires
            old(self).wf(),
            old(self).axis_map().len() < u32::MAX - 1,
        ensures
            final(self).wf(),
            !old(self).body_map().contains_key(slot_key(body.0)) ==> result == Err::<AxisFeatureId, _>(
                LinkageError::UnknownBody(canonical_body(body)),
            ),
            old(self).body_map().contains_key(slot_key(body.0)) && normalized is None ==> result == Err::<AxisFeatureId, _>(
                LinkageError::InvalidAxis { context: "axis feature" },
            ),
            old(self).body_map().contains_key(slot_key(body.0)) && normalized is Some && is_blank(label@) ==> result
                == Err::<AxisFeatureId, _>(LinkageError::EmptyLabel("axis feature")),
            result is Err ==> *final(self) == *old(self),
            old(self).body_map().contains_key(slot_key(body.0)) && normalized is Some && !is_blank(label@) ==> (result matches Ok(id) && {
                &&& canonical_axis(id) == id
                &&& !old(self).axis_map().contains_key(id.0)
                &&& final(self).axis_map() == old(self).axis_map().insert(id.0, final(self).axis_map()[id.0])
                &&& final(self).axis_map()[id.0].label@ == label@
                &&& final(self).axis_map()[id.0].body == canonical_body(body)
                &&& Some(final(self).axis_map()[id.0].local_axis) == normalized
                &&& final(self).axis_keys() == old(self).axis_keys().push(id.0)
                &&& old(self).only_axes_differ(*final(self))
            }),
    {
        let body = BodyId(slot_id(body.0));
        self.require_body(body)?;
        let local_axis = match normalized {
            Some(axis) => axis,
            None => {
                return Err(LinkageError::InvalidAxis { context: "axis feature" });
            },
        };
        if trims_to_empty(label) {
            return Err(LinkageError::EmptyLabel("axis feature"));
        }
        let ghost before = *self;
        let feature = AxisFeature { label: label.to_owned(), body, local_axis };
        let key = insert_axis_slot(&mut self.axis_features, feature);
        self.axis_order.push(key);
        proof {
            lemma_store_push(before.axis_keys(), before.axis_map(), key, feature);
        }
        Ok(AxisFeatureId(key))
    }

    /// Removes an axis feature that no joint, driver or monitor names,
    /// leaving its identity stale.
    pub fn remove_axis_feature(&mut self, feature: AxisFeatureId) -> (result: Result<AxisFeature, LinkageError>)
        requires
            old(self).wf(),
        ensures
            final(self).wf(),
            old(self).axis_in_use(canonical_axis(feature)) ==> result == Err::<AxisFeature, _>(
                LinkageError::AxisFeatureInUse(canonical_axis(feature)),
            ),
            !old(self).axis_in_use(canonical_axis(feature)) && !old(self).axis_map().contains_key(slot_key(feature.0))
                ==> result == Err::<AxisFeature, _>(LinkageError::UnknownAxisFeature(canonical_axis(feature))),
            result is Err ==> *final(self) == *old(self),
            !old(self).axis_in_use(canonical_axis(feature)) && old(self).axis_map().contains_key(slot_key(feature.0)) ==> {
                &&& result matches Ok(removed) && removed == old(self).axis_map()[slot_key(feature.0)]
                &&& final(self).axis_map() == old(self).axis_map().remove(slot_key(feature.0))
                &&& final(self).axis_keys() == old(self).axis_keys()
                &&& old(self).only_axes_differ(*final(self))
            },
    {
        let feature = AxisFeatureId(slot_id(feature.0));
        if self.scan_joints_on_axis(feature) || self.scan_drivers_on_axis(feature) || self.scan_monitors_on_axis(feature) {
            return Err(LinkageError::AxisFeatureInUse(feature));
        }
        if get_axis_slot(&self.axis_features, feature.0).is_none() {
            return Err(LinkageError::UnknownAxisFeature(feature));
        }
        let ghost before = *self;
        match remove_axis_slot(&mut self.axis_features, feature.0) {
            Some(removed) => {
                proof {
                    lemma_store_remove(before.axis_keys(), before.axis_map(), feature.0);
                }
                Ok(removed)
            },
            None => Err(LinkageError::UnknownAxisFeature(feature)),
        }
    }


    /// The bodies owning two held point features, which must differ.
    pub fn require_distinct_point_bodies(&self, first: PointFeatureId, second: PointFeatureId) -> (result: Result<(BodyId, BodyId), LinkageError>)
        requires
            slot_key(first.0) == first.0,
            slot_key(second.0) == second.0,
        ensures
            self.distinct_bodies_error(first, second) matches Some(e) ==> result == Err::<(BodyId, BodyId), _>(e),
            self.distinct_bodies_error(first, second) is None ==> result == Ok::<_, LinkageError>(
                (self.point_map()[first.0].body, self.point_map()[second.0].body),
            ),
    {
        let first_body = self.require_point_feature(first)?.body;
        let second_body = self.require_point_feature(second)?.body;
        if first_body == second_body {
            Err(LinkageError::RepeatedBody)
        } else {
            Ok((first_body, second_body))
        }
    }

    fn insert_joint(&mut self, label: &str, kind: JointKind) -> (result: Result<JointId, LinkageError>)
        requires
            old(self).wf(),
            joint_resolves(kind, old(self).point_map(), old(self).axis_map()),
            old(self).joint_map().len() < u32::MAX - 1,
            old(self).joint_keys().len() < usize::MAX,
        ensures
            final(self).wf(),
            is_blank(label@) ==> result == Err::<JointId, _>(LinkageError::EmptyLabel("joint")) && *final(self) == *old(self),
            !is_blank(label@) ==> (result matches Ok(id) && old(self).joint_added(*final(self), id.0, label@, kind)),
    {
        if trims_to_empty(label) {
            return Err(LinkageError::EmptyLabel("joint"));
        }
        let ghost before = *self;
        let ordinal = self.joint_order.len() + 1;
        let joint = Joint { label: label.to_owned(), kind, ordinal };
        let key = insert_joint_slot(&mut self.joints, joint);
        self.joint_order.push(key);
        proof {
            lemma_store_push(before.joint_keys(), before.joint_map(), key, joint);
        }
        Ok(JointId(key))
    }

    /// Adds a revolute joint between point features on two different bodies.
    pub fn add_revolute_joint(&mut self, label: &str, first: PointFeatureId, second: PointFeatureId) -> (result: Result<JointId, LinkageError>)
        requires
            old(self).wf(),
            old(self).joint_map().len() < u32::MAX - 1,
            old(self).joint_keys().len() < usize::MAX,
        ensures
            final(self).wf(),
            result is Err ==> *final(self) == *old(self),
            old(self).distinct_bodies_error(canonical_point(first), canonical_point(second)) matches Some(e) ==> result
                == Err::<JointId, _>(e),
            old(self).distinct_bodies_error(canonical_point(first), canonical_point(second)) is None ==> {
                &&& is_blank(label@) ==> result == Err::<JointId, _>(LinkageError::EmptyLabel("joint"))
                &&& !is_blank(label@) ==> (result matches Ok(id) && old(self).joint_added(
                    *final(self),
                    id.0,
                    label@,
                    JointKind::Revolute { first: canonical_point(first), second: canonical_point(second) },
                ))
            },
    {
        let first = PointFeatureId(slot_id(first.0));
        let second = PointFeatureId(slot_id(second.0));
        self.require_distinct_point_bodies(first, second)?;
        self.insert_joint(label, JointKind::Revolute { first, second })
    }

    /// Adds a prismatic joint: each anchor point and its axis on one body,
    /// the two sides on different bodies.
    pub fn add_prismatic_joint(
        &mut self,
        label: &str,
        first_anchor: PointFeatureId,
        first_axis: AxisFeatureId,
        second_anchor: PointFeatureId,
        second_axis: AxisFeatureId,
        axis_branch: AxisDirectionBranch,
    ) -> (result: Result<JointId, LinkageError>)
        requires
            old(self).wf(),
            old(self).joint_map().len() < u32::MAX - 1,
            old(self).joint_keys().len() < usize::MAX,
        ensures
            final(self).wf(),
            result is Err ==> *final(self) == *old(self),
            old(self).prismatic_error(
                canonical_point(first_anchor),
                canonical_axis(first_axis),
                canonical_point(second_anchor),
                canonical_axis(second_axis),
            ) matches Some(e) ==> result == Err::<JointId, _>(e),
            old(self).prismatic_error(
                canonical_point(first_anchor),
                canonical_axis(first_axis),
                canonical_point(second_anchor),
                canonical_axis(second_axis),
            ) is None ==> {
                &&& is_blank(label@) ==> result == Err::<JointId, _>(LinkageError::EmptyLabel("joint"))
                &&& !is_blank(label@) ==> (result matches Ok(id) && old(self).joint_added(
                    *final(self),
                    id.0,
                    label@,
                    JointKind::Prismatic {
                        first_anchor: canonical_point(first_anchor),
                        first_axis: canonical_axis(first_axis),
                        second_anchor: canonical_point(second_anchor),
                        second_axis: canonical_axis(second_axis),
                        axis_branch,
                    },
                ))
            },
    {
        let first_anchor = PointFeatureId(slot_id(first_anchor.0));
        let first_axis = AxisFeatureId(slot_id(first_axis.0));
        let second_anchor = PointFeatureId(slot_id(second_anchor.0));
        let second_axis = AxisFeatureId(slot_id(second_axis.0));
        let first_point_body = self.require_point_feature(first_anchor)?.body;
        let second_point_body = self.require_point_feature(second_anchor)?.body;
        let first_axis_body = self.require_axis_feature(first_axis)?.body;
        let second_axis_body = self.require_axis_feature(second_axis)?.body;
        if first_point_body != first_axis_body || second_point_body != second_axis_body {
            return Err(LinkageError::PrismaticFeatureBodyMismatch);
        }
        if first_point_body == second_point_body {
            return Err(LinkageError::RepeatedBody);
        }
        self.insert_joint(label, JointKind::Prismatic { first_anchor, first_axis, second_anchor, second_axis, axis_branch })
    }

    /// Adds a weld between point features on two different bodies, with an
    /// explicit finite unwrapped relative angle.
    pub fn add_weld_joint_with_angle(&mut self, label: &str, first: PointFeatureId, second: PointFeatureId, relative_angle: u64) -> (result: Result<JointId, LinkageError>)
        requires
            old(self).wf(),
            old(self).joint_map().len() < u32::MAX - 1,
            old(self).joint_keys().len() < usize::MAX,
        ensures
            final(self).wf(),
            result is Err ==> *final(self) == *old(self),
            old(self).distinct_bodies_error(canonical_point(first), canonical_point(second)) matches Some(e) ==> result
                == Err::<JointId, _>(e),
            old(self).distinct_bodies_error(canonical_point(first), canonical_point(second)) is None ==> {
                &&& !finite_bits(relative_angle) ==> result == Err::<JointId, _>(
                    LinkageError::NonFiniteValue { context: "weld relative angle", value: relative_angle },
                )
                &&& finite_bits(relative_angle) && is_blank(label@) ==> result == Err::<JointId, _>(LinkageError::EmptyLabel("joint"))
                &&& finite_bits(relative_angle) && !is_blank(label@) ==> (result matches Ok(id) && old(self).joint_added(
                    *final(self),
                    id.0,
                    label@,
                    JointKind::Weld { first: canonical_point(first), second: canonical_point(second), relative_angle },
                ))
            },
    {
        let first = PointFeatureId(slot_id(first.0));
        let second = PointFeatureId(slot_id(second.0));
        self.require_distinct_point_bodies(first, second)?;
        if !is_finite_bits(relative_angle) {
            return Err(LinkageError::NonFiniteValue { context: "weld relative angle", value: relative_angle });
        }
        self.insert_joint(label, JointKind::Weld { first, second, relative_angle })
    }

    fn insert_driver(&mut self, label: &str, kind: DriverKind, target: u64, max_continuation_step: u64) -> (result: Result<DriverId, LinkageError>)
        requires
            old(self).wf(),
            driver_resolves(kind, old(self).body_map(), old(self).point_map(), old(self).axis_map()),
            old(self).driver_map().len() < u32::MAX - 1,
            old(self).driver_keys().len() < usize::MAX,
        ensures
            final(self).wf(),
            result is Err ==> *final(self) == *old(self),
            driver_values_error(target, max_continuation_step, label@) matches Some(e) ==> result == Err::<DriverId, _>(e),
            driver_values_error(target, max_continuation_step, label@) is None ==> (result matches Ok(id)
                && old(self).driver_added(*final(self), id.0, label@, kind, target, max_continuation_step)),
    {
        if !is_finite_bits(target) {
            return Err(LinkageError::NonFiniteValue { context: "driver target", value: target });
        }
        if !is_positive_finite_bits(max_continuation_step) {
            return Err(LinkageError::InvalidContinuationStep(max_continuation_step));
        }
        if trims_to_empty(label) {
            return Err(LinkageError::EmptyLabel("driver"));
        }
        let ghost before = *self;
        let ordinal = self.driver_order.len() + 1;
        let driver = Driver { label: label.to_owned(), kind, target, max_continuation_step, ordinal };
        let key = insert_driver_slot(&mut self.drivers, driver);
        self.driver_order.push(key);
        proof {
            lemma_store_push(before.driver_keys(), before.driver_map(), key, driver);
        }
        Ok(DriverId(key))
    }

    /// Adds a hard unwrapped relative-angle driver between two different bodies.
    pub fn add_angular_driver(&mut self, label: &str, reference: BodyId, driven: BodyId, target: u64, max_continuation_step: u64) -> (result: Result<DriverId, LinkageError>)
        requires
            old(self).wf(),
            old(self).driver_map().len() < u32::MAX - 1,
            old(self).driver_keys().len() < usize::MAX,
        ensures
            final(self).wf(),
            result is Err ==> *final(self) == *old(self),
            old(self).angular_driver_error(canonical_body(reference), canonical_body(driven)) matches Some(e) ==> result
                == Err::<DriverId, _>(e),
            old(self).angular_driver_error(canonical_body(reference), canonical_body(driven)) is None ==> {
                &&& driver_values_error(target, max_continuation_step, label@) matches Some(e) ==> result == Err::<DriverId, _>(e)
                &&& driver_values_error(target, max_continuation_step, label@) is None ==> (result matches Ok(id)
                    && old(self).driver_added(
                    *final(self),
                    id.0,
                    label@,
                    DriverKind::Angular { reference: canonical_body(reference), driven: canonical_body(driven) },
                    target,
                    max_continuation_step,
                ))
            },
    {
        let reference = BodyId(slot_id(reference.0));
        let driven = BodyId(slot_id(driven.0));
        self.require_body(reference)?;
        self.require_body(driven)?;
        if reference == driven {
            return Err(LinkageError::RepeatedBody);
        }
        self.insert_driver(label, DriverKind::Angular { reference, driven }, target, max_continuation_step)
    }

    /// Adds a hard directed displacement driver along a body-local guide axis.
    pub fn add_linear_driver(
        &mut self,
        label: &str,
        origin: PointFeatureId,
        measured: PointFeatureId,
        guide_axis: AxisFeatureId,
        target: u64,
        max_continuation_step: u64,
    ) -> (result: Result<DriverId, LinkageError>)
        requires
            old(self).wf(),
            old(self).driver_map().len() < u32::MAX - 1,
            old(self).driver_keys().len() < usize::MAX,
        ensures
            final(self).wf(),
            result is Err ==> *final(self) == *old(self),
            old(self).linear_driver_error(canonical_point(origin), canonical_point(measured), canonical_axis(guide_axis))
                matches Some(e) ==> result == Err::<DriverId, _>(e),
            old(self).linear_driver_error(canonical_point(origin), canonical_point(measured), canonical_axis(guide_axis))
                is None ==> {
                &&& driver_values_error(target, max_continuation_step, label@) matches Some(e) ==> result == Err::<DriverId, _>(e)
                &&& driver_values_error(target, max_continuation_step, label@) is None ==> (result matches Ok(id)
                    && old(self).driver_added(
                    *final(self),
                    id.0,
                    label@,
                    DriverKind::Linear {
                        origin: canonical_point(origin),
                        measured: canonical_point(measured),
                        guide_axis: canonical_axis(guide_axis),
                    },
                    target,
                    max_continuation_step,
                ))
            },
    {
        let origin = PointFeatureId(slot_id(origin.0));
        let measured = PointFeatureId(slot_id(measured.0));
        let guide_axis = AxisFeatureId(slot_id(guide_axis.0));
        let origin_body = self.require_point_feature(origin)?.body;
        let measured_body = self.require_point_feature(measured)?.body;
        let guide_body = self.require_axis_feature(guide_axis)?.body;
        if origin_body != guide_body {
            return Err(LinkageError::LinearDriverFeatureBodyMismatch);
        }
        if origin_body == measured_body {
            return Err(LinkageError::RepeatedBody);
        }
        self.insert_driver(label, DriverKind::Linear { origin, measured, guide_axis }, target, max_continuation_step)
    }

    /// Replaces the accepted target of a held driver, which must be finite.
    pub fn set_driver_target_accepted(&mut self, driver: DriverId, target: u64) -> (result: Result<(), LinkageError>)
        requires
            old(self).wf(),
        ensures
            final(self).wf(),
            !finite_bits(target) ==> result == Err::<(), _>(LinkageError::NonFiniteValue { context: "driver target", value: target }),
            finite_bits(target) && !old(self).driver_map().contains_key(slot_key(driver.0)) ==> result == Err::<(), _>(
                LinkageError::UnknownDriver(canonical_driver(driver)),
            ),
            result is Err ==> *final(self) == *old(self),
            finite_bits(target) && old(self).driver_map().contains_key(slot_key(driver.0)) ==> {
                &&& result is Ok
                &&& final(self).driver_map() == old(self).driver_map().insert(
                    slot_key(driver.0),
                    Driver { target, ..old(self).driver_map()[slot_key(driver.0)] },
                )
                &&& final(self).driver_keys() == old(self).driver_keys()
                &&& old(self).only_drivers_differ(*final(self))
            },
    {
        if !is_finite_bits(target) {
            return Err(LinkageError::NonFiniteValue { context: "driver target", value: target });
        }
        let driver = DriverId(slot_id(driver.0));
        if get_driver_slot(&self.drivers, driver.0).is_none() {
            return Err(LinkageError::UnknownDriver(driver));
        }
        let ghost before = *self;
        let slot = driver_slot_mut(&mut self.drivers, driver.0);
        slot.target = target;
        proof {
            lemma_store_update(before.driver_keys(), before.driver_map(), driver.0, self.driver_map()[driver.0]);
        }
        Ok(())
    }

    fn insert_monitor(&mut self, monitor: BranchMonitor) -> (id: BranchMonitorId)
        requires
            old(self).wf(),
            monitor_resolves(monitor, old(self).point_map(), old(self).axis_map()),
            old(self).monitor_map().len() < u32::MAX - 1,
        ensures
            final(self).wf(),
            old(self).monitor_added(*final(self), id.0, monitor),
    {
        let ghost before = *self;
        let key = insert_monitor_slot(&mut self.branch_monitors, monitor);
        self.monitor_order.push(key);
        proof {
            lemma_store_push(before.monitor_keys(), before.monitor_map(), key, monitor);
        }
        BranchMonitorId(key)
    }

    /// Adds a signed side-of-directed-line assembly monitor over three held
    /// point features.
    pub fn add_orientation_branch_monitor(
        &mut self,
        line_start: PointFeatureId,
        line_end: PointFeatureId,
        observed: PointFeatureId,
        sign: BranchSign,
    ) -> (result: Result<BranchMonitorId, LinkageError>)
        requires
            old(self).wf(),
            old(self).monitor_map().len() < u32::MAX - 1,
        ensures
            final(self).wf(),
            old(self).orientation_monitor_error(canonical_point(line_start), canonical_point(line_end), canonical_point(observed))
                matches Some(e) ==> result == Err::<BranchMonitorId, _>(e) && *final(self) == *old(self),
            old(self).orientation_monitor_error(canonical_point(line_start), canonical_point(line_end), canonical_point(observed))
                is None ==> (result matches Ok(id) && old(self).monitor_added(
                *final(self),
                id.0,
                BranchMonitor::Orientation {
                    line_start: canonical_point(line_start),
                    line_end: canonical_point(line_end),
                    observed: canonical_point(observed),
                    sign,
                },
            )),
    {
        let line_start = PointFeatureId(slot_id(line_start.0));
        let line_end = PointFeatureId(slot_id(line_end.0));
        let observed = PointFeatureId(slot_id(observed.0));
        self.require_point_feature(line_start)?;
        self.require_point_feature(line_end)?;
        self.require_point_feature(observed)?;
        Ok(self.insert_monitor(BranchMonitor::Orientation { line_start, line_end, observed, sign }))
    }

    /// Adds a signed displacement monitor along an axis of the origin's body.
    pub fn add_directed_displacement_branch_monitor(
        &mut self,
        origin: PointFeatureId,
        measured: PointFeatureId,
        axis: AxisFeatureId,
        sign: BranchSign,
    ) -> (result: Result<BranchMonitorId, LinkageError>)
        requires
            old(self).wf(),
            old(self).monitor_map().len() < u32::MAX - 1,
        ensures
            final(self).wf(),
            old(self).displacement_monitor_error(canonical_point(origin), canonical_point(measured), canonical_axis(axis))
                matches Some(e) ==> result == Err::<BranchMonitorId, _>(e) && *final(self) == *old(self),
            old(self).displacement_monitor_error(canonical_point(origin), canonical_point(measured), canonical_axis(axis))
                is None ==> (result matches Ok(id) && old(self).monitor_added(
                *final(self),
                id.0,
                BranchMonitor::DirectedDisplacement {
                    origin: canonical_point(origin),
                    measured: canonical_point(measured),
                    axis: canonical_axis(axis),
                    sign,
                },
            )),
    {
        let origin = PointFeatureId(slot_id(origin.0));
        let measured = PointFeatureId(slot_id(measured.0));
        let axis = AxisFeatureId(slot_id(axis.0));
        let origin_body = self.require_point_feature(origin)?.body;
        self.require_point_feature(measured)?;
        if self.require_axis_feature(axis)?.body != origin_body {
            return Err(LinkageError::LinearDriverFeatureBodyMismatch);
        }
        Ok(self.insert_monitor(BranchMonitor::DirectedDisplacement { origin, measured, axis, sign }))
    }
    /// The held joint that a lookup of `joint` finds, if any.
    pub fn joint(&self, joint: JointId) -> (found: Option<&Joint>)
        ensures
            found matches Some(v) ==> self.joint_map().contains_key(slot_key(joint.0)) && *v == self.joint_map()[slot_key(joint.0)],
            found is None ==> !self.joint_map().contains_key(slot_key(joint.0)),
    {
        get_joint_slot(&self.joints, joint.0)
    }

    /// The held joints, in the order they were added.
    pub fn joints(&self) -> (listed: Vec<(JointId, &Joint)>)
        requires
            store_wf(self.joint_keys(), self.joint_map()),
        ensures
            listed@.len() == live_keys(self.joint_keys(), self.joint_map()).len(),
            forall|i: int| 0 <= i < listed@.len() ==> {
                let key = live_keys(self.joint_keys(), self.joint_map())[i];
                &&& (#[trigger] listed@[i]).0 == JointId(key)
                &&& *listed@[i].1 == self.joint_map()[key]
            },
    {
        let mut listed: Vec<(JointId, &Joint)> = Vec::new();
        let mut i: usize = 0;
        while i < self.joint_order.len()
            invariant
                store_wf(self.joint_keys(), self.joint_map()),
                i <= self.joint_order@.len(),
                listed@.len() == live_keys(self.joint_order@.take(i as int), self.joint_map()).len(),
                forall|j: int| 0 <= j < listed@.len() ==> {
                    let key = live_keys(self.joint_order@.take(i as int), self.joint_map())[j];
                    &&& (#[trigger] listed@[j]).0 == JointId(key)
                    &&& *listed@[j].1 == self.joint_map()[key]
                },
            decreases self.joint_order@.len() - i,
        {
            let key = self.joint_order[i];
            proof {
                lemma_live_keys_step(self.joint_order@, self.joint_map(), i as int);
            }
            if let Some(value) = get_joint_slot(&self.joints, key) {
                listed.push((JointId(key), value));
            }
            i = i + 1;
        }
        proof {
            assert(self.joint_order@.take(self.joint_order@.len() as int) =~= self.joint_order@);
        }
        listed
    }


    /// Removes a joint, leaving its identity stale.
    pub fn remove_joint(&mut self, joint: JointId) -> (result: Result<Joint, LinkageError>)
        requires
            old(self).wf(),
        ensures
            final(self).wf(),
            !old(self).joint_map().contains_key(slot_key(joint.0)) ==> result == Err::<Joint, _>(
                LinkageError::UnknownJoint(canonical_joint(joint)),
            ) && *final(self) == *old(self),
            old(self).joint_map().contains_key(slot_key(joint.0)) ==> {
                &&& result matches Ok(removed) && removed == old(self).joint_map()[slot_key(joint.0)]
                &&& final(self).joint_map() == old(self).joint_map().remove(slot_key(joint.0))
                &&& final(self).joint_keys() == old(self).joint_keys()
                &&& old(self).only_joints_differ(*final(self))
            },
    {
        let joint = JointId(slot_id(joint.0));
        if get_joint_slot(&self.joints, joint.0).is_none() {
            return Err(LinkageError::UnknownJoint(joint));
        }
        let ghost before = *self;
        match remove_joint_slot(&mut self.joints, joint.0) {
            Some(removed) => {
                proof {
                    lemma_store_remove(before.joint_keys(), before.joint_map(), joint.0);
                }
                Ok(removed)
            },
            None => Err(LinkageError::UnknownJoint(joint)),
        }
    }
    /// The held driver that a lookup of `driver` finds, if any.
    pub fn driver(&self, driver: DriverId) -> (found: Option<&Driver>)
        ensures
            found matches Some(v) ==> self.driver_map().contains_key(slot_key(driver.0)) && *v == self.driver_map()[slot_key(driver.0)],
            found is None ==> !self.driver_map().contains_key(slot_key(driver.0)),
    {
        get_driver_slot(&self.drivers, driver.0)
    }

    /// The held drivers, in the order they were added.
    pub fn drivers(&self) -> (listed: Vec<(DriverId, &Driver)>)
        requires
            store_wf(self.driver_keys(), self.driver_map()),
        ensures
            listed@.len() == live_keys(self.driver_keys(), self.driver_map()).len(),
            forall|i: int| 0 <= i < listed@.len() ==> {
                let key = live_keys(self.driver_keys(), self.driver_map())[i];
                &&& (#[trigger] listed@[i]).0 == DriverId(key)
                &&& *listed@[i].1 == self.driver_map()[key]
            },
    {
        let mut listed: Vec<(DriverId, &Driver)> = Vec::new();
        let mut i: usize = 0;
        while i < self.driver_order.len()
            invariant
                store_wf(self.driver_keys(), self.driver_map()),
                i <= self.driver_order@.len(),
                listed@.len() == live_keys(self.driver_order@.take(i as int), self.driver_map()).len(),
                forall|j: int| 0 <= j < listed@.len() ==> {
                    let key = live_keys(self.driver_order@.take(i as int), self.driver_map())[j];
                    &&& (#[trigger] listed@[j]).0 == DriverId(key)
                    &&& *listed@[j].1 == self.driver_map()[key]
                },
            decreases self.driver_order@.len() - i,
        {
            let key = self.driver_order[i];
            proof {
                lemma_live_keys_step(self.driver_order@, self.driver_map(), i as int);
            }
            if let Some(value) = get_driver_slot(&self.drivers, key) {
                listed.push((DriverId(key), value));
            }
            i = i + 1;
        }
        proof {
            assert(self.driver_order@.take(self.driver_order@.len() as int) =~= self.driver_order@);
        }
        listed
    }


    /// Removes a driver, leaving its identity stale.
    pub fn remove_driver(&mut self, driver: DriverId) -> (result: Result<Driver, LinkageError>)
        requires
            old(self).wf(),
        ensures
            final(self).wf(),
            !old(self).driver_map().contains_key(slot_key(driver.0)) ==> result == Err::<Driver, _>(
                LinkageError::UnknownDriver(canonical_driver(driver)),
            ) && *final(self) == *old(self),
            old(self).driver_map().contains_key(slot_key(driver.0)) ==> {
                &&& result matches Ok(removed) && removed == old(self).driver_map()[slot_key(driver.0)]
                &&& final(self).driver_map() == old(self).driver_map().remove(slot_key(driver.0))
                &&& final(self).driver_keys() == old(self).driver_keys()
                &&& old(self).only_drivers_differ(*final(self))
            },
    {
        let driver = DriverId(slot_id(driver.0));
        if get_driver_slot(&self.drivers, driver.0).is_none() {
            return Err(LinkageError::UnknownDriver(driver));
        }
        let ghost before = *self;
        match remove_driver_slot(&mut self.drivers, driver.0) {
            Some(removed) => {
                proof {
                    lemma_store_remove(before.driver_keys(), before.driver_map(), driver.0);
                }
                Ok(removed)
            },
            None => Err(LinkageError::UnknownDriver(driver)),
        }
    }
    /// The held branch monitor that a lookup of `monitor` finds, if any.
    pub fn branch_monitor(&self, monitor: BranchMonitorId) -> (found: Option<&BranchMonitor>)
        ensures
            found matches Some(v) ==> self.monitor_map().contains_key(slot_key(monitor.0)) && *v == self.monitor_map()[slot_key(monitor.0)],
            found is None ==> !self.monitor_map().contains_key(slot_key(monitor.0)),
    {
        get_monitor_slot(&self.branch_monitors, monitor.0)
    }

    /// The held branch monitors, in the order they were added.
    pub fn branch_monitors(&self) -> (listed: Vec<(BranchMonitorId, &BranchMonitor)>)
        requires
            store_wf(self.monitor_keys(), self.monitor_map()),
        ensures
            listed@.len() == live_keys(self.monitor_keys(), self.monitor_map()).len(),
            forall|i: int| 0 <= i < listed@.len() ==> {
                let key = live_keys(self.monitor_keys(), self.monitor_map())[i];
                &&& (#[trigger] listed@[i]).0 == BranchMonitorId(key)
                &&& *listed@[i].1 == self.monitor_map()[key]
            },
    {
        let mut listed: Vec<(BranchMonitorId, &BranchMonitor)> = Vec::new();
        let mut i: usize = 0;
        while i < self.monitor_order.len()
            invariant
                store_wf(self.monitor_keys(), self.monitor_map()),
                i <= self.monitor_order@.len(),
                listed@.len() == live_keys(self.monitor_order@.take(i as int), self.monitor_map()).len(),
                forall|j: int| 0 <= j < listed@.len() ==> {
                    let key = live_keys(self.monitor_order@.take(i as int), self.monitor_map())[j];
                    &&& (#[trigger] listed@[j]).0 == BranchMonitorId(key)
                    &&& *listed@[j].1 == self.monitor_map()[key]
                },
            decreases self.monitor_order@.len() - i,
        {
            let key = self.monitor_order[i];
            proof {
                lemma_live_keys_step(self.monitor_order@, self.monitor_map(), i as int);
            }
            if let Some(value) = get_monitor_slot(&self.branch_monitors, key) {
                listed.push((BranchMonitorId(key), value));
            }
            i = i + 1;
        }
        proof {
            assert(self.monitor_order@.take(self.monitor_order@.len() as int) =~= self.monitor_order@);
        }
        listed
    }


    /// Removes a branch monitor, leaving its identity stale.
    pub fn remove_branch_monitor(&mut self, monitor: BranchMonitorId) -> (result: Result<BranchMonitor, LinkageError>)
        requires
            old(self).wf(),
        ensures
            final(self).wf(),
            !old(self).monitor_map().contains_key(slot_key(monitor.0)) ==> result == Err::<BranchMonitor, _>(
                LinkageError::UnknownBranchMonitor(canonical_monitor(monitor)),
            ) && *final(self) == *old(self),
            old(self).monitor_map().contains_key(slot_key(monitor.0)) ==> {
                &&& result matches Ok(removed) && removed == old(self).monitor_map()[slot_key(monitor.0)]
                &&& final(self).monitor_map() == old(self).monitor_map().remove(slot_key(monitor.0))
                &&& final(self).monitor_keys() == old(self).monitor_keys()
                &&& old(self).only_monitors_differ(*final(self))
            },
    {
        let monitor = BranchMonitorId(slot_id(monitor.0));
        if get_monitor_slot(&self.branch_monitors, monitor.0).is_none() {
            return Err(LinkageError::UnknownBranchMonitor(monitor));
        }
        let ghost before = *self;
        match remove_monitor_slot(&mut self.branch_monitors, monitor.0) {
            Some(removed) => {
                proof {
                    lemma_store_remove(before.monitor_keys(), before.monitor_map(), monitor.0);
                }
                Ok(removed)
            },
            None => Err(LinkageError::UnknownBranchMonitor(monitor)),
        }
    }

    /// Replaces the model scale, which must be finite and positive.
    pub fn set_model_scale(&mut self, model_scale: u64) -> (result: Result<(), LinkageError>)
        requires
            old(self).wf(),
        ensures
            final(self).wf(),
            !positive_finite_bits(model_scale) ==> result == Err::<(), _>(LinkageError::InvalidModelScale(model_scale))
                && *final(self) == *old(self),
            positive_finite_bits(model_scale) ==> result is Ok && *final(self) == old(self).with_scale(model_scale),
    {
        if !is_positive_finite_bits(model_scale) {
            return Err(LinkageError::InvalidModelScale(model_scale));
        }
        self.model_scale = model_scale;
        Ok(())
    }

    /// Replaces the work plane; `frame_rejection` is the verdict on it
    /// (finite, unit and orthogonal axes), `None` when it is accepted.
    pub fn set_plane_frame(&mut self, plane_frame: PlaneFrameBits, frame_rejection: Option<&'static str>) -> (result: Result<(), LinkageError>)
        requires
            old(self).wf(),
        ensures
            final(self).wf(),
            frame_rejection matches Some(message) ==> result == Err::<(), _>(LinkageError::InvalidPlaneFrame(message))
                && *final(self) == *old(self),
            frame_rejection is None ==> result is Ok && *final(self) == old(self).with_frame(plane_frame),
    {
        if let Some(message) = frame_rejection {
            return Err(LinkageError::InvalidPlaneFrame(message));
        }
        self.plane_frame = plane_frame;
        Ok(())
    }
}


/// A body just added is named by nothing, so it can be removed again.
pub proof fn lemma_added_body_unused(before: Linkage, after: Linkage, id: BodyId)
    requires
        before.wf(),
        !before.body_map().contains_key(id.0),
        before.only_bodies_differ(after),
    ensures
        !after.body_in_use(id),
{
    assert(after.point_map() == before.point_map());
    assert(after.axis_map() == before.axis_map());
    assert(after.driver_map() == before.driver_map());
    assert forall|k: u64| #[trigger] after.point_map().contains_key(k) implies after.point_map()[k].body != id by {
        assert(before.body_map().contains_key(before.point_map()[k].body.0));
    }
    assert forall|k: u64| #[trigger] after.axis_map().contains_key(k) implies after.axis_map()[k].body != id by {
        assert(before.body_map().contains_key(before.axis_map()[k].body.0));
    }
    assert forall|k: u64| #[trigger] after.driver_map().contains_key(k) implies !driver_references_body(after.driver_map()[k].kind, id) by {
        assert(driver_resolves(before.driver_map()[k].kind, before.body_map(), before.point_map(), before.axis_map()));
    }
}

/// A point feature just added is named by nothing, so it can be removed again.
pub proof fn lemma_added_point_unused(before: Linkage, after: Linkage, id: PointFeatureId)
    requires
        before.wf(),
        !before.point_map().contains_key(id.0),
        before.only_points_differ(after),
    ensures
        !after.point_in_use(id),
{
    assert(after.joint_map() == before.joint_map());
    assert(after.driver_map() == before.driver_map());
    assert(after.monitor_map() == before.monitor_map());
    assert forall|k: u64| #[trigger] after.joint_map().contains_key(k) implies !joint_references_point(after.joint_map()[k].kind, id) by {
        assert(joint_resolves(before.joint_map()[k].kind, before.point_map(), before.axis_map()));
    }
    assert forall|k: u64| #[trigger] after.driver_map().contains_key(k) implies !driver_names_point(after.driver_map()[k].kind, id) by {
        assert(driver_resolves(before.driver_map()[k].kind, before.body_map(), before.point_map(), before.axis_map()));
    }
    assert forall|k: u64| #[trigger] after.monitor_map().contains_key(k) implies !monitor_names_point(after.monitor_map()[k], id) by {
        assert(monitor_resolves(before.monitor_map()[k], before.point_map(), before.axis_map()));
    }
}

/// An axis feature just added is named by nothing, so it can be removed again.
pub proof fn lemma_added_axis_unused(before: Linkage, after: Linkage, id: AxisFeatureId)
    requires
        before.wf(),
        !before.axis_map().contains_key(id.0),
        before.only_axes_differ(after),
    ensures
        !after.axis_in_use(id),
{
    assert(after.joint_map() == before.joint_map());
    assert(after.driver_map() == before.driver_map());
    assert(after.monitor_map() == before.monitor_map());
    assert forall|k: u64| #[trigger] after.joint_map().contains_key(k) implies !joint_references_axis(after.joint_map()[k].kind, id) by {
        assert(joint_resolves(before.joint_map()[k].kind, before.point_map(), before.axis_map()));
    }
    assert forall|k: u64| #[trigger] after.driver_map().contains_key(k) implies !driver_names_axis(after.driver_map()[k].kind, id) by {
        assert(driver_resolves(before.driver_map()[k].kind, before.body_map(), before.point_map(), before.axis_map()));
    }
    assert forall|k: u64| #[trigger] after.monitor_map().contains_key(k) implies !monitor_names_axis(after.monitor_map()[k], id) by {
        assert(monitor_resolves(before.monitor_map()[k], before.point_map(), before.axis_map()));
    }
}

/// A held body that something names cannot be removed while it is named:
/// every feature's body and every angular driver's bodies stay held.
pub proof fn lemma_named_body_held(linkage: Linkage, body: BodyId)
    requires
        linkage.wf(),
        linkage.body_in_use(body),
    ensures
        linkage.body_map().contains_key(body.0),
{
    if exists|k: u64| #[trigger] linkage.point_map().contains_key(k) && linkage.point_map()[k].body == body {
        let k = choose|k: u64| #[trigger] linkage.point_map().contains_key(k) && linkage.point_map()[k].body == body;
        assert(linkage.body_map().contains_key(linkage.point_map()[k].body.0));
    } else if exists|k: u64| #[trigger] linkage.axis_map().contains_key(k) && linkage.axis_map()[k].body == body {
        let k = choose|k: u64| #[trigger] linkage.axis_map().contains_key(k) && linkage.axis_map()[k].body == body;
        assert(linkage.body_map().contains_key(linkage.axis_map()[k].body.0));
    } else {
        let k = choose|k: u64| #[trigger] linkage.driver_map().contains_key(k) && driver_references_body(linkage.driver_map()[k].kind, body);
        assert(driver_resolves(linkage.driver_map()[k].kind, linkage.body_map(), linkage.point_map(), linkage.axis_map()));
    }
}

/// Removing a body just added gives back the bodies held before.
pub proof fn lemma_remove_undoes_add_body(before: Linkage, added: Linkage, removed: Linkage, id: BodyId)
    requires
        !before.body_map().contains_key(id.0),
        added.body_map() == before.body_map().insert(id.0, added.body_map()[id.0]),
        removed.body_map() == added.body_map().remove(id.0),
    ensures
        removed.body_map() == before.body_map(),
{
    assert(removed.body_map() =~= before.body_map());
}

} // verus!
