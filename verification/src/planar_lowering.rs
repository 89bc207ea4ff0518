//! Lowering persistent planar sources into the runtime linkage model.

use vstd::prelude::*;
use crate::idmap::runtime_of;
use crate::ids::{PlanarBodyId, PlanarFeatureId, PlanarSourceId};
use crate::runtime_ids::{AxisFeatureId, BodyId, PointFeatureId};
use crate::linkage::{
    canonical_axis, canonical_body, canonical_point, driver_values_error, finite_bits, JointKind,
    Linkage, PoseBits,
};
use crate::slots::slot_key;
use crate::model::{BranchMonitor, DriverKind, LinkageError};
use crate::planar::{
    lower_source, source_lowering, PlanarField, PlanarLinkageError, PlanarLinkageRuntimeMap,
    PlanarReferenceKind, PlanarRuntimeSource, PlanarRuntimeSourceTopology, PlanarSourceTopology,
};
use crate::text::is_blank;

verus! {

/// The continuous parameters of a persistent source, as the bits of their
/// doubles: the relative angle of a weld and the maximum continuation step of
/// a driver. Other sources read neither.
#[derive(Clone, Copy, Debug, PartialEq, Eq, Structural)]
pub struct PlanarSourceValues {
    pub relative_angle: u64,
    pub max_continuation_step: u64,
}

/// What adding a joint did: refused with `check` (or a blank label) and left
/// the linkage alone, or added the joint of `kind`.
pub open spec fn joint_outcome(
    before: Linkage,
    after: Linkage,
    label: Seq<char>,
    check: Option<LinkageError>,
    kind: JointKind,
    result: Result<PlanarRuntimeSource, PlanarLinkageError>,
) -> bool {
    match check {
        Some(e) => result == Err::<PlanarRuntimeSource, _>(PlanarLinkageError::Linkage(e)) && after == before,
        None => if is_blank(label) {
            result == Err::<PlanarRuntimeSource, _>(PlanarLinkageError::Linkage(LinkageError::EmptyLabel("joint")))
                && after == before
        } else {
            result matches Ok(PlanarRuntimeSource::Joint(id)) && before.joint_added(after, id.0, label, kind)
        },
    }
}

/// What adding a driver did: refused with `check` or for its values and left
/// the linkage alone, or added the driver of `kind`.
pub open spec fn driver_outcome(
    before: Linkage,
    after: Linkage,
    label: Seq<char>,
    check: Option<LinkageError>,
    kind: DriverKind,
    target: u64,
    max_continuation_step: u64,
    result: Result<PlanarRuntimeSource, PlanarLinkageError>,
) -> bool {
    match check {
        Some(e) => result == Err::<PlanarRuntimeSource, _>(PlanarLinkageError::Linkage(e)) && after == before,
        None => match driver_values_error(target, max_continuation_step, label) {
            Some(e) => result == Err::<PlanarRuntimeSource, _>(PlanarLinkageError::Linkage(e)) && after == before,
            None => result matches Ok(PlanarRuntimeSource::Driver(id)) && before.driver_added(
                after,
                id.0,
                label,
                kind,
                target,
                max_continuation_step,
            ),
        },
    }
}

/// What adding a branch monitor did: refused with `check` and left the
/// linkage alone, or added `monitor`.
pub open spec fn monitor_outcome(
    before: Linkage,
    after: Linkage,
    check: Option<LinkageError>,
    monitor: BranchMonitor,
    result: Result<PlanarRuntimeSource, PlanarLinkageError>,
) -> bool {
    match check {
        Some(e) => result == Err::<PlanarRuntimeSource, _>(PlanarLinkageError::Linkage(e)) && after == before,
        None => result matches Ok(PlanarRuntimeSource::BranchMonitor(id)) && before.monitor_added(after, id.0, monitor),
    }
}

/// The check of a weld: its features, then the finiteness of its angle.
pub open spec fn weld_check(linkage: Linkage, first: crate::runtime_ids::PointFeatureId, second: crate::runtime_ids::PointFeatureId, relative_angle: u64) -> Option<LinkageError> {
    match linkage.distinct_bodies_error(first, second) {
        Some(e) => Some(e),
        None => if !finite_bits(relative_angle) {
            Some(LinkageError::NonFiniteValue { context: "weld relative angle", value: relative_angle })
        } else {
            None
        },
    }
}

/// What lowering a source with resolved references did to the linkage: a
/// physical ground names its body and adds nothing; every other source adds
/// its joint, driver or monitor under the source's label, as the linkage's
/// own operations do.
pub open spec fn lowered_into(
    before: Linkage,
    after: Linkage,
    label: Seq<char>,
    runtime: PlanarRuntimeSourceTopology,
    values: PlanarSourceValues,
    target: u64,
    result: Result<PlanarRuntimeSource, PlanarLinkageError>,
) -> bool {
    match runtime {
        PlanarRuntimeSourceTopology::PhysicalGround { body } => result == Ok::<_, PlanarLinkageError>(
            PlanarRuntimeSource::Ground(body),
        ) && after == before,
        PlanarRuntimeSourceTopology::Revolute { first, second } => joint_outcome(
            before,
            after,
            label,
            before.distinct_bodies_error(canonical_point(first), canonical_point(second)),
            JointKind::Revolute { first: canonical_point(first), second: canonical_point(second) },
            result,
        ),
        PlanarRuntimeSourceTopology::Prismatic { first_anchor, first_axis, second_anchor, second_axis, axis_branch } => joint_outcome(
            before,
            after,
            label,
            before.prismatic_error(
                canonical_point(first_anchor),
                canonical_axis(first_axis),
                canonical_point(second_anchor),
                canonical_axis(second_axis),
            ),
            JointKind::Prismatic {
                first_anchor: canonical_point(first_anchor),
                first_axis: canonical_axis(first_axis),
                second_anchor: canonical_point(second_anchor),
                second_axis: canonical_axis(second_axis),
                axis_branch,
            },
            result,
        ),
        PlanarRuntimeSourceTopology::Weld { first, second } => joint_outcome(
            before,
            after,
            label,
            weld_check(before, canonical_point(first), canonical_point(second), values.relative_angle),
            JointKind::Weld {
                first: canonical_point(first),
                second: canonical_point(second),
                relative_angle: values.relative_angle,
            },
            result,
        ),
        PlanarRuntimeSourceTopology::AngularDriver { reference, driven } => driver_outcome(
            before,
            after,
            label,
            before.angular_driver_error(canonical_body(reference), canonical_body(driven)),
            DriverKind::Angular { reference: canonical_body(reference), driven: canonical_body(driven) },
            target,
            values.max_continuation_step,
            result,
        ),
        PlanarRuntimeSourceTopology::LinearDriver { origin, measured, guide_axis } => driver_outcome(
            before,
            after,
            label,
            before.linear_driver_error(canonical_point(origin), canonical_point(measured), canonical_axis(guide_axis)),
            DriverKind::Linear {
                origin: canonical_point(origin),
                measured: canonical_point(measured),
                guide_axis: canonical_axis(guide_axis),
            },
            target,
            values.max_continuation_step,
            result,
        ),
        PlanarRuntimeSourceTopology::OrientationBranch { line_start, line_end, observed, sign } => monitor_outcome(
            before,
            after,
            before.orientation_monitor_error(canonical_point(line_start), canonical_point(line_end), canonical_point(observed)),
            BranchMonitor::Orientation {
                line_start: canonical_point(line_start),
                line_end: canonical_point(line_end),
                observed: canonical_point(observed),
                sign,
            },
            result,
        ),
        PlanarRuntimeSourceTopology::DirectedDisplacementBranch { origin, measured, axis, sign } => monitor_outcome(
            before,
            after,
            before.displacement_monitor_error(canonical_point(origin), canonical_point(measured), canonical_axis(axis)),
            BranchMonitor::DirectedDisplacement {
                origin: canonical_point(origin),
                measured: canonical_point(measured),
                axis: canonical_axis(axis),
                sign,
            },
            result,
        ),
    }
}

fn joint_source(result: Result<crate::runtime_ids::JointId, LinkageError>) -> (source: Result<PlanarRuntimeSource, PlanarLinkageError>)
    ensures
        result matches Ok(id) ==> source == Ok::<_, PlanarLinkageError>(PlanarRuntimeSource::Joint(id)),
        result matches Err(e) ==> source == Err::<PlanarRuntimeSource, _>(PlanarLinkageError::Linkage(e)),
{
    match result {
        Ok(id) => Ok(PlanarRuntimeSource::Joint(id)),
        Err(e) => Err(PlanarLinkageError::Linkage(e)),
    }
}

fn driver_source(result: Result<crate::runtime_ids::DriverId, LinkageError>) -> (source: Result<PlanarRuntimeSource, PlanarLinkageError>)
    ensures
        result matches Ok(id) ==> source == Ok::<_, PlanarLinkageError>(PlanarRuntimeSource::Driver(id)),
        result matches Err(e) ==> source == Err::<PlanarRuntimeSource, _>(PlanarLinkageError::Linkage(e)),
{
    match result {
        Ok(id) => Ok(PlanarRuntimeSource::Driver(id)),
        Err(e) => Err(PlanarLinkageError::Linkage(e)),
    }
}

fn monitor_source(result: Result<crate::runtime_ids::BranchMonitorId, LinkageError>) -> (source: Result<PlanarRuntimeSource, PlanarLinkageError>)
    ensures
        result matches Ok(id) ==> source == Ok::<_, PlanarLinkageError>(PlanarRuntimeSource::BranchMonitor(id)),
        result matches Err(e) ==> source == Err::<PlanarRuntimeSource, _>(PlanarLinkageError::Linkage(e)),
{
    match result {
        Ok(id) => Ok(PlanarRuntimeSource::BranchMonitor(id)),
        Err(e) => Err(PlanarLinkageError::Linkage(e)),
    }
}

/// The runtime body the map pairs with a persistent body.
pub open spec fn paired_body(map: PlanarLinkageRuntimeMap, body: PlanarBodyId) -> BodyId {
    runtime_of(map.bodies@, body)->0
}

/// The runtime point the map pairs with a persistent feature.
pub open spec fn paired_point(map: PlanarLinkageRuntimeMap, feature: PlanarFeatureId) -> PointFeatureId {
    runtime_of(map.features@, feature)->0->Point_0
}

/// The runtime axis the map pairs with a persistent feature.
pub open spec fn paired_axis(map: PlanarLinkageRuntimeMap, feature: PlanarFeatureId) -> AxisFeatureId {
    runtime_of(map.features@, feature)->0->Axis_0
}

/// When lowering a persistent source succeeds, the linkage holds the object it
/// stands for, built field by field from the runtime objects the map pairs
/// with the definition's own fields, under the source's label and with its
/// values: a physical ground names its body and changes nothing, a joint,
/// driver or monitor is added with exactly those references.
pub proof fn lemma_lowered_source_follows_fields(
    before: Linkage,
    after: Linkage,
    map: PlanarLinkageRuntimeMap,
    label: Seq<char>,
    definition: PlanarSourceTopology,
    values: PlanarSourceValues,
    target: Option<u64>,
    result: Result<PlanarRuntimeSource, PlanarLinkageError>,
)
    requires
        source_lowering(map, definition, target is Some) matches Err(e) ==> result == Err::<PlanarRuntimeSource, _>(e) && after == before,
        source_lowering(map, definition, target is Some) matches Ok(runtime) ==> lowered_into(
            before, after, label, runtime, values, target.unwrap_or(0), result,
        ),
    ensures
        result matches Ok(r) ==> match definition {
            PlanarSourceTopology::PhysicalGround { body } => r == PlanarRuntimeSource::Ground(paired_body(map, body)) && after == before,
            PlanarSourceTopology::Revolute { first, second } => r matches PlanarRuntimeSource::Joint(j) && {
                &&& after.joint_map().contains_key(j.0)
                &&& after.joint_map()[j.0].label@ == label
                &&& after.joint_map()[j.0].kind == (JointKind::Revolute {
                    first: canonical_point(paired_point(map, first)),
                    second: canonical_point(paired_point(map, second)),
                })
            },
            PlanarSourceTopology::Weld { first, second } => r matches PlanarRuntimeSource::Joint(j) && {
                &&& after.joint_map().contains_key(j.0)
                &&& after.joint_map()[j.0].label@ == label
                &&& after.joint_map()[j.0].kind == (JointKind::Weld {
                    first: canonical_point(paired_point(map, first)),
                    second: canonical_point(paired_point(map, second)),
                    relative_angle: values.relative_angle,
                })
            },
            PlanarSourceTopology::Prismatic { first_anchor, first_axis, second_anchor, second_axis, axis_branch } => r
                matches PlanarRuntimeSource::Joint(j) && {
                &&& after.joint_map().contains_key(j.0)
                &&& after.joint_map()[j.0].label@ == label
                &&& after.joint_map()[j.0].kind == (JointKind::Prismatic {
                    first_anchor: canonical_point(paired_point(map, first_anchor)),
                    first_axis: canonical_axis(paired_axis(map, first_axis)),
                    second_anchor: canonical_point(paired_point(map, second_anchor)),
                    second_axis: canonical_axis(paired_axis(map, second_axis)),
                    axis_branch,
                })
            },
            PlanarSourceTopology::AngularDriver { reference, driven } => r matches PlanarRuntimeSource::Driver(d) && {
                &&& after.driver_map().contains_key(d.0)
                &&& after.driver_map()[d.0].label@ == label
                &&& after.driver_map()[d.0].kind == (DriverKind::Angular {
                    reference: canonical_body(paired_body(map, reference)),
                    driven: canonical_body(paired_body(map, driven)),
                })
                &&& target == Some(after.driver_map()[d.0].target)
                &&& after.driver_map()[d.0].max_continuation_step == values.max_continuation_step
            },
            PlanarSourceTopology::LinearDriver { origin, measured, guide_axis } => r matches PlanarRuntimeSource::Driver(d) && {
                &&& after.driver_map().contains_key(d.0)
                &&& after.driver_map()[d.0].label@ == label
                &&& after.driver_map()[d.0].kind == (DriverKind::Linear {
                    origin: canonical_point(paired_point(map, origin)),
                    measured: canonical_point(paired_point(map, measured)),
                    guide_axis: canonical_axis(paired_axis(map, guide_axis)),
                })
                &&& target == Some(after.driver_map()[d.0].target)
                &&& after.driver_map()[d.0].max_continuation_step == values.max_continuation_step
            },
            PlanarSourceTopology::OrientationBranch { line_start, line_end, observed, sign } => r
                matches PlanarRuntimeSource::BranchMonitor(m) && {
                &&& after.monitor_map().contains_key(m.0)
                &&& after.monitor_map()[m.0] == (BranchMonitor::Orientation {
                    line_start: canonical_point(paired_point(map, line_start)),
                    line_end: canonical_point(paired_point(map, line_end)),
                    observed: canonical_point(paired_point(map, observed)),
                    sign,
                })
            },
            PlanarSourceTopology::DirectedDisplacementBranch { origin, measured, axis, sign } => r
                matches PlanarRuntimeSource::BranchMonitor(m) && {
                &&& after.monitor_map().contains_key(m.0)
                &&& after.monitor_map()[m.0] == (BranchMonitor::DirectedDisplacement {
                    origin: canonical_point(paired_point(map, origin)),
                    measured: canonical_point(paired_point(map, measured)),
                    axis: canonical_axis(paired_axis(map, axis)),
                    sign,
                })
            },
        },
{
    crate::planar::lemma_lowering_follows_fields(map, definition, target is Some);
}

/// Lowers one persistent source into the linkage: its references are
/// resolved through the runtime map in field order (a driver then needs its
/// accepted `target`), and the joint, driver or monitor is added under the
/// source's label. A physical ground only resolves its body.
pub fn lower_source_into(
    linkage: &mut Linkage,
    mappings: &PlanarLinkageRuntimeMap,
    label: &str,
    definition: PlanarSourceTopology,
    values: PlanarSourceValues,
    target: Option<u64>,
) -> (result: Result<PlanarRuntimeSource, PlanarLinkageError>)
    requires
        old(linkage).wf(),
        old(linkage).joint_map().len() < u32::MAX - 1,
        old(linkage).joint_keys().len() < usize::MAX,
        old(linkage).driver_map().len() < u32::MAX - 1,
        old(linkage).driver_keys().len() < usize::MAX,
        old(linkage).monitor_map().len() < u32::MAX - 1,
    ensures
        final(linkage).wf(),
        source_lowering(*mappings, definition, target is Some) matches Err(e) ==> result == Err::<PlanarRuntimeSource, _>(e)
            && *final(linkage) == *old(linkage),
        source_lowering(*mappings, definition, target is Some) matches Ok(runtime) ==> lowered_into(
            *old(linkage),
            *final(linkage),
            label@,
            runtime,
            values,
            target.unwrap_or(0),
            result,
        ),
{
    let runtime = lower_source(mappings, definition, target.is_some())?;
    let target = match target {
        Some(value) => value,
        None => 0,
    };
    match runtime {
        PlanarRuntimeSourceTopology::PhysicalGround { body } => Ok(PlanarRuntimeSource::Ground(body)),
        PlanarRuntimeSourceTopology::Revolute { first, second } => joint_source(linkage.add_revolute_joint(label, first, second)),
        PlanarRuntimeSourceTopology::Prismatic { first_anchor, first_axis, second_anchor, second_axis, axis_branch } => joint_source(
            linkage.add_prismatic_joint(label, first_anchor, first_axis, second_anchor, second_axis, axis_branch),
        ),
        PlanarRuntimeSourceTopology::Weld { first, second } => joint_source(
            linkage.add_weld_joint_with_angle(label, first, second, values.relative_angle),
        ),
        PlanarRuntimeSourceTopology::AngularDriver { reference, driven } => driver_source(
            linkage.add_angular_driver(label, reference, driven, target, values.max_continuation_step),
        ),
        PlanarRuntimeSourceTopology::LinearDriver { origin, measured, guide_axis } => driver_source(
            linkage.add_linear_driver(label, origin, measured, guide_axis, target, values.max_continuation_step),
        ),
        PlanarRuntimeSourceTopology::OrientationBranch { line_start, line_end, observed, sign } => monitor_source(
            linkage.add_orientation_branch_monitor(line_start, line_end, observed, sign),
        ),
        PlanarRuntimeSourceTopology::DirectedDisplacementBranch { origin, measured, axis, sign } => monitor_source(
            linkage.add_directed_displacement_branch_monitor(origin, measured, axis, sign),
        ),
    }
}

/// The accepted pose of a persistent body read back from the linkage: its
/// runtime body must be mapped and held.
pub open spec fn body_projection(linkage: Linkage, mappings: PlanarLinkageRuntimeMap, id: PlanarBodyId) -> Result<PoseBits, PlanarLinkageError> {
    match runtime_of(mappings.bodies@, id) {
        None => Err(PlanarLinkageError::UnknownReference { kind: PlanarReferenceKind::Body, id: id.0 }),
        Some(runtime) => if linkage.body_map().contains_key(slot_key(runtime.0)) {
            Ok(linkage.body_map()[slot_key(runtime.0)].pose)
        } else {
            Err(PlanarLinkageError::Linkage(LinkageError::UnknownBody(runtime)))
        },
    }
}

/// The accepted target of a persistent driver read back from the linkage: its
/// source must be mapped to a held runtime driver.
pub open spec fn driver_projection(linkage: Linkage, mappings: PlanarLinkageRuntimeMap, id: PlanarSourceId) -> Result<u64, PlanarLinkageError> {
    match runtime_of(mappings.sources@, id) {
        None => Err(PlanarLinkageError::UnknownReference { kind: PlanarReferenceKind::Source, id: id.0 }),
        Some(PlanarRuntimeSource::Driver(runtime)) => if linkage.driver_map().contains_key(slot_key(runtime.0)) {
            Ok(linkage.driver_map()[slot_key(runtime.0)].target)
        } else {
            Err(PlanarLinkageError::Linkage(LinkageError::UnknownDriver(runtime)))
        },
        Some(_) => Err(PlanarLinkageError::InvalidField(PlanarField::DriverStateSource)),
    }
}

/// The first failing body projection among `bodies`, in order.
pub open spec fn first_body_projection_error(linkage: Linkage, mappings: PlanarLinkageRuntimeMap, bodies: Seq<PlanarBodyId>) -> Option<PlanarLinkageError>
    decreases bodies.len(),
{
    if bodies.len() == 0 {
        None
    } else {
        match first_body_projection_error(linkage, mappings, bodies.drop_last()) {
            Some(e) => Some(e),
            None => match body_projection(linkage, mappings, bodies.last()) {
                Err(e) => Some(e),
                Ok(_) => None,
            },
        }
    }
}

/// The first failing driver projection among `drivers`, in order.
pub open spec fn first_driver_projection_error(linkage: Linkage, mappings: PlanarLinkageRuntimeMap, drivers: Seq<PlanarSourceId>) -> Option<PlanarLinkageError>
    decreases drivers.len(),
{
    if drivers.len() == 0 {
        None
    } else {
        match first_driver_projection_error(linkage, mappings, drivers.drop_last()) {
            Some(e) => Some(e),
            None => match driver_projection(linkage, mappings, drivers.last()) {
                Err(e) => Some(e),
                Ok(_) => None,
            },
        }
    }
}

/// Reads the accepted state of a document back from the runtime linkage: the
/// pose of every listed body, then the target of every listed driver, each
/// through the runtime map. Stops at the first body, then driver, that cannot
/// be read.
pub fn project_runtime_state(
    linkage: &Linkage,
    mappings: &PlanarLinkageRuntimeMap,
    bodies: &Vec<PlanarBodyId>,
    drivers: &Vec<PlanarSourceId>,
) -> (result: Result<(Vec<PoseBits>, Vec<u64>), PlanarLinkageError>)
    ensures
        first_body_projection_error(*linkage, *mappings, bodies@) matches Some(e) ==> result == Err::<(Vec<PoseBits>, Vec<u64>), _>(e),
        first_body_projection_error(*linkage, *mappings, bodies@) is None ==> (first_driver_projection_error(*linkage, *mappings, drivers@)
            matches Some(e) ==> result == Err::<(Vec<PoseBits>, Vec<u64>), _>(e)),
        first_body_projection_error(*linkage, *mappings, bodies@) is None && first_driver_projection_error(*linkage, *mappings, drivers@)
            is None ==> (result matches Ok((poses, targets)) && {
            &&& poses@.len() == bodies@.len()
            &&& forall|i: int| 0 <= i < bodies@.len() ==> Ok::<PoseBits, PlanarLinkageError>(#[trigger] poses@[i]) == body_projection(*linkage, *mappings, bodies@[i])
            &&& targets@.len() == drivers@.len()
            &&& forall|j: int| 0 <= j < drivers@.len() ==> Ok::<u64, PlanarLinkageError>(#[trigger] targets@[j]) == driver_projection(*linkage, *mappings, drivers@[j])
        }),
{
    let mut poses: Vec<PoseBits> = Vec::new();
    let mut i: usize = 0;
    while i < bodies.len()
        invariant
            i <= bodies@.len(),
            first_body_projection_error(*linkage, *mappings, bodies@.take(i as int)) is None,
            poses@.len() == i,
            forall|k: int| 0 <= k < i ==> Ok::<PoseBits, PlanarLinkageError>(#[trigger] poses@[k]) == body_projection(*linkage, *mappings, bodies@[k]),
        decreases bodies@.len() - i,
    {
        let id = bodies[i];
        proof {
            assert(bodies@.take(i + 1).drop_last() =~= bodies@.take(i as int));
            assert(bodies@.take(i + 1).last() == id);
        }
        let runtime = match mappings.runtime_body(id) {
            Some(runtime) => runtime,
            None => {
                proof {
                    lemma_first_body_error_stays(*linkage, *mappings, bodies@, i + 1);
                }
                return Err(PlanarLinkageError::UnknownReference { kind: PlanarReferenceKind::Body, id: id.0 });
            },
        };
        match linkage.body(runtime) {
            Some(body) => {
                poses.push(body.pose);
            },
            None => {
                proof {
                    lemma_first_body_error_stays(*linkage, *mappings, bodies@, i + 1);
                }
                return Err(PlanarLinkageError::Linkage(LinkageError::UnknownBody(runtime)));
            },
        }
        i = i + 1;
    }
    proof {
        assert(bodies@.take(bodies@.len() as int) =~= bodies@);
    }
    let mut targets: Vec<u64> = Vec::new();
    let mut j: usize = 0;
    while j < drivers.len()
        invariant
            j <= drivers@.len(),
            first_body_projection_error(*linkage, *mappings, bodies@) is None,
            first_driver_projection_error(*linkage, *mappings, drivers@.take(j as int)) is None,
            targets@.len() == j,
            forall|k: int| 0 <= k < j ==> Ok::<u64, PlanarLinkageError>(#[trigger] targets@[k]) == driver_projection(*linkage, *mappings, drivers@[k]),
        decreases drivers@.len() - j,
    {
        let id = drivers[j];
        proof {
            assert(drivers@.take(j + 1).drop_last() =~= drivers@.take(j as int));
            assert(drivers@.take(j + 1).last() == id);
        }
        let runtime = match mappings.runtime_source(id) {
            Some(PlanarRuntimeSource::Driver(runtime)) => runtime,
            Some(_) => {
                proof {
                    lemma_first_driver_error_stays(*linkage, *mappings, drivers@, j + 1);
                }
                return Err(PlanarLinkageError::InvalidField(PlanarField::DriverStateSource));
            },
            None => {
                proof {
                    lemma_first_driver_error_stays(*linkage, *mappings, drivers@, j + 1);
                }
                return Err(PlanarLinkageError::UnknownReference { kind: PlanarReferenceKind::Source, id: id.0 });
            },
        };
        match linkage.driver(runtime) {
            Some(driver) => {
                targets.push(driver.target);
            },
            None => {
                proof {
                    lemma_first_driver_error_stays(*linkage, *mappings, drivers@, j + 1);
                }
                return Err(PlanarLinkageError::Linkage(LinkageError::UnknownDriver(runtime)));
            },
        }
        j = j + 1;
    }
    proof {
        assert(drivers@.take(drivers@.len() as int) =~= drivers@);
    }
    Ok((poses, targets))
}

proof fn lemma_first_body_error_stays(linkage: Linkage, mappings: PlanarLinkageRuntimeMap, bodies: Seq<PlanarBodyId>, n: int)
    requires
        0 <= n <= bodies.len(),
        first_body_projection_error(linkage, mappings, bodies.take(n)) is Some,
    ensures
        first_body_projection_error(linkage, mappings, bodies) == first_body_projection_error(linkage, mappings, bodies.take(n)),
    decreases bodies.len() - n,
{
    if n < bodies.len() {
        assert(bodies.take(n + 1).drop_last() =~= bodies.take(n));
        lemma_first_body_error_stays(linkage, mappings, bodies, n + 1);
    } else {
        assert(bodies.take(n) =~= bodies);
    }
}

proof fn lemma_first_driver_error_stays(linkage: Linkage, mappings: PlanarLinkageRuntimeMap, drivers: Seq<PlanarSourceId>, n: int)
    requires
        0 <= n <= drivers.len(),
        first_driver_projection_error(linkage, mappings, drivers.take(n)) is Some,
    ensures
        first_driver_projection_error(linkage, mappings, drivers) == first_driver_projection_error(linkage, mappings, drivers.take(n)),
    decreases drivers.len() - n,
{
    if n < drivers.len() {
        assert(drivers.take(n + 1).drop_last() =~= drivers.take(n));
        lemma_first_driver_error_stays(linkage, mappings, drivers, n + 1);
    } else {
        assert(drivers.take(n) =~= drivers);
    }
}

} // verus!
