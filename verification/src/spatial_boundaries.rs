//! The branch boundaries a spatial topology implies: diagonal false roots of
//! fixed frames and frame offsets, axis parities of jointed and aligned axes,
//! the clock root of prismatic joints, the positive root of hinge drivers, the
//! principal cut of hinge coordinates, and the watched signs of mode monitors.

use vstd::prelude::*;
use crate::runtime_ids::{SpatialCoordinateId, SpatialModeMonitorId, SpatialSourceId};
use crate::spatial::{
    SpatialBranchBoundary, SpatialCoordinate, SpatialCoordinateKind, SpatialFrameAxis, SpatialModeMonitor,
    SpatialModeMonitorKind,
};
use crate::ids::SpatialDocumentId;
use crate::spatial::SpatialBoundaryHysteresisState;
use crate::spatial_capture::{
    body_runtimes, coordinate_runtimes, distinct, feature_runtimes, lemma_allocated_finds,
    lemma_captured_map_one_to_one, lemma_concat_distinct, lemma_coordinate_captured, lemma_records_pass,
    lemma_segments_distinct, map_captured, monitor_runtimes, object_count, source_runtimes,
};
use crate::spatial_document::{boundary_capture, captured_coordinate, captured_monitor, captured_source, SpatialAssemblyRuntimeMap};
use crate::spatial_lowering::{latch_records, latch_state, latches_complete, lemma_latches_restore, persisted_latches};
use crate::spatial_structure::{hinge_reference_error, source_error};
use crate::spatial::SpatialAxisParity;
use crate::spatial_structure::{
    coordinate_checks, monitor_checks, source_checks, structure_error, SpatialSourceRecord, SpatialSourceShape,
    SpatialStructure,
};

verus! {

/// The boundaries one source implies.
pub open spec fn source_boundaries(r: SpatialSourceRecord) -> Seq<SpatialBranchBoundary> {
    match r.shape {
        SpatialSourceShape::FixedFrame { .. } => seq![
            SpatialBranchBoundary::FixedFrameDiagonal { source: r.id, axis: SpatialFrameAxis::X },
            SpatialBranchBoundary::FixedFrameDiagonal { source: r.id, axis: SpatialFrameAxis::Y },
            SpatialBranchBoundary::FixedFrameDiagonal { source: r.id, axis: SpatialFrameAxis::Z },
        ],
        SpatialSourceShape::FrameOffsetMate { .. } => seq![
            SpatialBranchBoundary::FrameOffsetDiagonal { source: r.id, axis: SpatialFrameAxis::X },
            SpatialBranchBoundary::FrameOffsetDiagonal { source: r.id, axis: SpatialFrameAxis::Y },
            SpatialBranchBoundary::FrameOffsetDiagonal { source: r.id, axis: SpatialFrameAxis::Z },
        ],
        SpatialSourceShape::RevoluteJoint { parity, .. } => seq![SpatialBranchBoundary::SourceAxisParity { source: r.id, parity }],
        SpatialSourceShape::PrismaticJoint { parity, .. } => seq![
            SpatialBranchBoundary::SourceAxisParity { source: r.id, parity },
            SpatialBranchBoundary::PrismaticClockRoot { source: r.id },
        ],
        SpatialSourceShape::CylindricalJoint { parity, .. } => seq![SpatialBranchBoundary::SourceAxisParity { source: r.id, parity }],
        SpatialSourceShape::PlanarJoint { parity, .. } => seq![SpatialBranchBoundary::SourceAxisParity { source: r.id, parity }],
        SpatialSourceShape::AxisAlignmentMate { parity, .. } => seq![SpatialBranchBoundary::SourceAxisParity { source: r.id, parity }],
        SpatialSourceShape::HingePositionDriver { coordinate, .. } => seq![
            SpatialBranchBoundary::HingeDriverPositiveRoot { source: r.id, coordinate },
        ],
        _ => Seq::empty(),
    }
}

/// The boundaries of sources, in source order.
pub open spec fn sources_boundaries(sources: Seq<SpatialSourceRecord>) -> Seq<SpatialBranchBoundary>
    decreases sources.len(),
{
    if sources.len() == 0 {
        Seq::empty()
    } else {
        sources_boundaries(sources.drop_last()) + source_boundaries(sources.last())
    }
}

/// The boundary a coordinate implies: the principal cut of a hinge.
pub open spec fn coordinate_boundaries(c: SpatialCoordinate) -> Seq<SpatialBranchBoundary> {
    match c.kind {
        SpatialCoordinateKind::Hinge { winding, .. } => seq![SpatialBranchBoundary::HingePrincipalCut { coordinate: c.id, winding }],
        _ => Seq::empty(),
    }
}

/// The boundaries of coordinates, in order.
pub open spec fn coordinates_boundaries(coordinates: Seq<SpatialCoordinate>) -> Seq<SpatialBranchBoundary>
    decreases coordinates.len(),
{
    if coordinates.len() == 0 {
        Seq::empty()
    } else {
        coordinates_boundaries(coordinates.drop_last()) + coordinate_boundaries(coordinates.last())
    }
}

/// The boundary a mode monitor implies: its watched parity or sign; a winding
/// monitor implies none.
pub open spec fn monitor_boundaries(m: SpatialModeMonitor) -> Seq<SpatialBranchBoundary> {
    match m.kind {
        SpatialModeMonitorKind::AxisParity { parity, .. } => seq![SpatialBranchBoundary::MonitorAxisParity { monitor: m.id, parity }],
        SpatialModeMonitorKind::PlaneSide { side, .. } => seq![SpatialBranchBoundary::MonitorPlaneSide { monitor: m.id, side }],
        SpatialModeMonitorKind::SignedVolume { orientation, .. } => seq![SpatialBranchBoundary::MonitorSignedVolume { monitor: m.id, orientation }],
        SpatialModeMonitorKind::HingeWinding { .. } => Seq::empty(),
    }
}

/// The boundaries of mode monitors, in order.
pub open spec fn monitors_boundaries(monitors: Seq<SpatialModeMonitor>) -> Seq<SpatialBranchBoundary>
    decreases monitors.len(),
{
    if monitors.len() == 0 {
        Seq::empty()
    } else {
        monitors_boundaries(monitors.drop_last()) + monitor_boundaries(monitors.last())
    }
}

/// Every boundary a structure implies: those of its sources, then of its
/// coordinates, then of its mode monitors.
pub open spec fn branch_boundaries(s: SpatialStructure) -> Seq<SpatialBranchBoundary> {
    sources_boundaries(s.sources@) + coordinates_boundaries(s.coordinates@) + monitors_boundaries(s.mode_monitors@)
}

fn push_source_boundaries(boundaries: &mut Vec<SpatialBranchBoundary>, r: &SpatialSourceRecord)
    ensures
        final(boundaries)@ == old(boundaries)@ + source_boundaries(*r),
{
    let ghost before = boundaries@;
    match r.shape {
        SpatialSourceShape::FixedFrame { .. } => {
            boundaries.push(SpatialBranchBoundary::FixedFrameDiagonal { source: r.id, axis: SpatialFrameAxis::X });
            boundaries.push(SpatialBranchBoundary::FixedFrameDiagonal { source: r.id, axis: SpatialFrameAxis::Y });
            boundaries.push(SpatialBranchBoundary::FixedFrameDiagonal { source: r.id, axis: SpatialFrameAxis::Z });
        },
        SpatialSourceShape::FrameOffsetMate { .. } => {
            boundaries.push(SpatialBranchBoundary::FrameOffsetDiagonal { source: r.id, axis: SpatialFrameAxis::X });
            boundaries.push(SpatialBranchBoundary::FrameOffsetDiagonal { source: r.id, axis: SpatialFrameAxis::Y });
            boundaries.push(SpatialBranchBoundary::FrameOffsetDiagonal { source: r.id, axis: SpatialFrameAxis::Z });
        },
        SpatialSourceShape::RevoluteJoint { parity, .. } => {
            boundaries.push(SpatialBranchBoundary::SourceAxisParity { source: r.id, parity });
        },
        SpatialSourceShape::PrismaticJoint { parity, .. } => {
            boundaries.push(SpatialBranchBoundary::SourceAxisParity { source: r.id, parity });
            boundaries.push(SpatialBranchBoundary::PrismaticClockRoot { source: r.id });
        },
        SpatialSourceShape::CylindricalJoint { parity, .. } => {
            boundaries.push(SpatialBranchBoundary::SourceAxisParity { source: r.id, parity });
        },
        SpatialSourceShape::PlanarJoint { parity, .. } => {
            boundaries.push(SpatialBranchBoundary::SourceAxisParity { source: r.id, parity });
        },
        SpatialSourceShape::AxisAlignmentMate { parity, .. } => {
            boundaries.push(SpatialBranchBoundary::SourceAxisParity { source: r.id, parity });
        },
        SpatialSourceShape::HingePositionDriver { coordinate, .. } => {
            boundaries.push(SpatialBranchBoundary::HingeDriverPositiveRoot { source: r.id, coordinate });
        },
        _ => {},
    }
    proof {
        assert(boundaries@ =~= before + source_boundaries(*r));
    }
}

/// The branch boundaries the topology of `s` implies, in order: per source,
/// then per coordinate, then per mode monitor.
pub fn spatial_branch_boundaries(s: &SpatialStructure) -> (boundaries: Vec<SpatialBranchBoundary>)
    ensures
        boundaries@ == branch_boundaries(*s),
{
    let mut boundaries: Vec<SpatialBranchBoundary> = Vec::new();
    let mut i: usize = 0;
    while i < s.sources.len()
        invariant
            i <= s.sources@.len(),
            boundaries@ == sources_boundaries(s.sources@.take(i as int)),
        decreases s.sources@.len() - i,
    {
        proof {
            assert(s.sources@.take(i as int + 1).drop_last() =~= s.sources@.take(i as int));
        }
        push_source_boundaries(&mut boundaries, &s.sources[i]);
        i = i + 1;
    }
    proof {
        assert(s.sources@.take(i as int) =~= s.sources@);
    }
    let ghost after_sources = boundaries@;
    let mut i: usize = 0;
    while i < s.coordinates.len()
        invariant
            i <= s.coordinates@.len(),
            after_sources == sources_boundaries(s.sources@),
            boundaries@ == after_sources + coordinates_boundaries(s.coordinates@.take(i as int)),
        decreases s.coordinates@.len() - i,
    {
        proof {
            assert(s.coordinates@.take(i as int + 1).drop_last() =~= s.coordinates@.take(i as int));
        }
        let c = &s.coordinates[i];
        let ghost before = boundaries@;
        match c.kind {
            SpatialCoordinateKind::Hinge { winding, .. } => {
                boundaries.push(SpatialBranchBoundary::HingePrincipalCut { coordinate: c.id, winding });
            },
            _ => {},
        }
        proof {
            assert(boundaries@ =~= before + coordinate_boundaries(*c));
            assert(after_sources + coordinates_boundaries(s.coordinates@.take(i as int + 1))
                =~= after_sources + coordinates_boundaries(s.coordinates@.take(i as int)) + coordinate_boundaries(*c));
        }
        i = i + 1;
    }
    proof {
        assert(s.coordinates@.take(i as int) =~= s.coordinates@);
    }
    let ghost after_coordinates = boundaries@;
    let mut i: usize = 0;
    while i < s.mode_monitors.len()
        invariant
            i <= s.mode_monitors@.len(),
            after_coordinates == sources_boundaries(s.sources@) + coordinates_boundaries(s.coordinates@),
            boundaries@ == after_coordinates + monitors_boundaries(s.mode_monitors@.take(i as int)),
        decreases s.mode_monitors@.len() - i,
    {
        proof {
            assert(s.mode_monitors@.take(i as int + 1).drop_last() =~= s.mode_monitors@.take(i as int));
        }
        let m = &s.mode_monitors[i];
        let ghost before = boundaries@;
        match m.kind {
            SpatialModeMonitorKind::AxisParity { parity, .. } => {
                boundaries.push(SpatialBranchBoundary::MonitorAxisParity { monitor: m.id, parity });
            },
            SpatialModeMonitorKind::PlaneSide { side, .. } => {
                boundaries.push(SpatialBranchBoundary::MonitorPlaneSide { monitor: m.id, side });
            },
            SpatialModeMonitorKind::SignedVolume { orientation, .. } => {
                boundaries.push(SpatialBranchBoundary::MonitorSignedVolume { monitor: m.id, orientation });
            },
            SpatialModeMonitorKind::HingeWinding { .. } => {},
        }
        proof {
            assert(boundaries@ =~= before + monitor_boundaries(*m));
            assert(after_coordinates + monitors_boundaries(s.mode_monitors@.take(i as int + 1))
                =~= after_coordinates + monitors_boundaries(s.mode_monitors@.take(i as int)) + monitor_boundaries(*m));
        }
        i = i + 1;
    }
    proof {
        assert(s.mode_monitors@.take(i as int) =~= s.mode_monitors@);
    }
    boundaries
}

proof fn lemma_sources_members(items: Seq<SpatialSourceRecord>)
    ensures
        forall|k: int, j: int| 0 <= k < items.len() && 0 <= j < source_boundaries(items[k]).len()
            ==> sources_boundaries(items).contains(#[trigger] source_boundaries(items[k])[j]),
        forall|b: SpatialBranchBoundary| sources_boundaries(items).contains(b)
            ==> exists|k: int| 0 <= k < items.len() && #[trigger] source_boundaries(items[k]).contains(b),
    decreases items.len(),
{
    if items.len() > 0 {
        let prefix = items.drop_last();
        lemma_sources_members(prefix);
        let whole = sources_boundaries(items);
        let pre = sources_boundaries(prefix);
        let last = source_boundaries(items.last());
        assert(whole == pre + last);
        assert forall|k: int, j: int| 0 <= k < items.len() && 0 <= j < source_boundaries(items[k]).len()
            implies whole.contains(#[trigger] source_boundaries(items[k])[j]) by {
            if k < prefix.len() {
                assert(prefix[k] == items[k]);
                let x = source_boundaries(prefix[k])[j];
                assert(pre.contains(x));
                let i = choose|i: int| 0 <= i < pre.len() && pre[i] == x;
                assert(whole[i] == x);
            } else {
                assert(whole[pre.len() + j] == last[j]);
            }
        }
        assert forall|b: SpatialBranchBoundary| whole.contains(b)
            implies exists|k: int| 0 <= k < items.len() && #[trigger] source_boundaries(items[k]).contains(b) by {
            let i = choose|i: int| 0 <= i < whole.len() && whole[i] == b;
            if i < pre.len() {
                assert(pre[i] == b);
                assert(pre.contains(b));
                let k = choose|k: int| 0 <= k < prefix.len() && #[trigger] source_boundaries(prefix[k]).contains(b);
                assert(prefix[k] == items[k]);
            } else {
                assert(last[i - pre.len()] == b);
                assert(source_boundaries(items[items.len() - 1]).contains(b));
            }
        }
    }
}

proof fn lemma_coordinates_members(items: Seq<SpatialCoordinate>)
    ensures
        forall|k: int, j: int| 0 <= k < items.len() && 0 <= j < coordinate_boundaries(items[k]).len()
            ==> coordinates_boundaries(items).contains(#[trigger] coordinate_boundaries(items[k])[j]),
        forall|b: SpatialBranchBoundary| coordinates_boundaries(items).contains(b)
            ==> exists|k: int| 0 <= k < items.len() && #[trigger] coordinate_boundaries(items[k]).contains(b),
    decreases items.len(),
{
    if items.len() > 0 {
        let prefix = items.drop_last();
        lemma_coordinates_members(prefix);
        let whole = coordinates_boundaries(items);
        let pre = coordinates_boundaries(prefix);
        let last = coordinate_boundaries(items.last());
        assert(whole == pre + last);
        assert forall|k: int, j: int| 0 <= k < items.len() && 0 <= j < coordinate_boundaries(items[k]).len()
            implies whole.contains(#[trigger] coordinate_boundaries(items[k])[j]) by {
            if k < prefix.len() {
                assert(prefix[k] == items[k]);
                let x = coordinate_boundaries(prefix[k])[j];
                assert(pre.contains(x));
                let i = choose|i: int| 0 <= i < pre.len() && pre[i] == x;
                assert(whole[i] == x);
            } else {
                assert(whole[pre.len() + j] == last[j]);
            }
        }
        assert forall|b: SpatialBranchBoundary| whole.contains(b)
            implies exists|k: int| 0 <= k < items.len() && #[trigger] coordinate_boundaries(items[k]).contains(b) by {
            let i = choose|i: int| 0 <= i < whole.len() && whole[i] == b;
            if i < pre.len() {
                assert(pre[i] == b);
                assert(pre.contains(b));
                let k = choose|k: int| 0 <= k < prefix.len() && #[trigger] coordinate_boundaries(prefix[k]).contains(b);
                assert(prefix[k] == items[k]);
            } else {
                assert(last[i - pre.len()] == b);
                assert(coordinate_boundaries(items[items.len() - 1]).contains(b));
            }
        }
    }
}

proof fn lemma_monitors_members(items: Seq<SpatialModeMonitor>)
    ensures
        forall|k: int, j: int| 0 <= k < items.len() && 0 <= j < monitor_boundaries(items[k]).len()
            ==> monitors_boundaries(items).contains(#[trigger] monitor_boundaries(items[k])[j]),
        forall|b: SpatialBranchBoundary| monitors_boundaries(items).contains(b)
            ==> exists|k: int| 0 <= k < items.len() && #[trigger] monitor_boundaries(items[k]).contains(b),
    decreases items.len(),
{
    if items.len() > 0 {
        let prefix = items.drop_last();
        lemma_monitors_members(prefix);
        let whole = monitors_boundaries(items);
        let pre = monitors_boundaries(prefix);
        let last = monitor_boundaries(items.last());
        assert(whole == pre + last);
        assert forall|k: int, j: int| 0 <= k < items.len() && 0 <= j < monitor_boundaries(items[k]).len()
            implies whole.contains(#[trigger] monitor_boundaries(items[k])[j]) by {
            if k < prefix.len() {
                assert(prefix[k] == items[k]);
                let x = monitor_boundaries(prefix[k])[j];
                assert(pre.contains(x));
                let i = choose|i: int| 0 <= i < pre.len() && pre[i] == x;
                assert(whole[i] == x);
            } else {
                assert(whole[pre.len() + j] == last[j]);
            }
        }
        assert forall|b: SpatialBranchBoundary| whole.contains(b)
            implies exists|k: int| 0 <= k < items.len() && #[trigger] monitor_boundaries(items[k]).contains(b) by {
            let i = choose|i: int| 0 <= i < whole.len() && whole[i] == b;
            if i < pre.len() {
                assert(pre[i] == b);
                assert(pre.contains(b));
                let k = choose|k: int| 0 <= k < prefix.len() && #[trigger] monitor_boundaries(prefix[k]).contains(b);
                assert(prefix[k] == items[k]);
            } else {
                assert(last[i - pre.len()] == b);
                assert(monitor_boundaries(items[items.len() - 1]).contains(b));
            }
        }
    }
}

/// The axis parity a jointed or aligned source carries, if it carries one.
pub open spec fn source_axis_parity(shape: SpatialSourceShape) -> Option<SpatialAxisParity> {
    match shape {
        SpatialSourceShape::RevoluteJoint { parity, .. } => Some(parity),
        SpatialSourceShape::PrismaticJoint { parity, .. } => Some(parity),
        SpatialSourceShape::CylindricalJoint { parity, .. } => Some(parity),
        SpatialSourceShape::PlanarJoint { parity, .. } => Some(parity),
        SpatialSourceShape::AxisAlignmentMate { parity, .. } => Some(parity),
        _ => None,
    }
}

proof fn lemma_source_boundary_origin(r: SpatialSourceRecord, b: SpatialBranchBoundary)
    requires
        source_boundaries(r).contains(b),
    ensures
        match b {
            SpatialBranchBoundary::FixedFrameDiagonal { source, .. } => source == r.id && r.shape is FixedFrame,
            SpatialBranchBoundary::FrameOffsetDiagonal { source, .. } => source == r.id && r.shape is FrameOffsetMate,
            SpatialBranchBoundary::SourceAxisParity { source, parity } => source == r.id && source_axis_parity(r.shape) == Some(parity),
            SpatialBranchBoundary::PrismaticClockRoot { source } => source == r.id && r.shape is PrismaticJoint,
            SpatialBranchBoundary::HingeDriverPositiveRoot { source, coordinate } => source == r.id && r.shape is HingePositionDriver
                && r.shape->HingePositionDriver_coordinate == coordinate,
            _ => false,
        },
{
    let i = choose|i: int| 0 <= i < source_boundaries(r).len() && source_boundaries(r)[i] == b;
}

proof fn lemma_coordinate_boundary_origin(c: SpatialCoordinate, b: SpatialBranchBoundary)
    requires
        coordinate_boundaries(c).contains(b),
    ensures
        match b {
            SpatialBranchBoundary::HingePrincipalCut { coordinate, winding } => coordinate == c.id && c.kind is Hinge
                && c.kind->Hinge_winding == winding,
            _ => false,
        },
{
    let i = choose|i: int| 0 <= i < coordinate_boundaries(c).len() && coordinate_boundaries(c)[i] == b;
}

proof fn lemma_monitor_boundary_origin(m: SpatialModeMonitor, b: SpatialBranchBoundary)
    requires
        monitor_boundaries(m).contains(b),
    ensures
        match b {
            SpatialBranchBoundary::MonitorAxisParity { monitor, parity } => monitor == m.id && m.kind is AxisParity
                && m.kind->AxisParity_parity == parity,
            SpatialBranchBoundary::MonitorPlaneSide { monitor, side } => monitor == m.id && m.kind is PlaneSide
                && m.kind->PlaneSide_side == side,
            SpatialBranchBoundary::MonitorSignedVolume { monitor, orientation } => monitor == m.id && m.kind is SignedVolume
                && m.kind->SignedVolume_orientation == orientation,
            _ => false,
        },
{
    let i = choose|i: int| 0 <= i < monitor_boundaries(m).len() && monitor_boundaries(m)[i] == b;
}

proof fn lemma_parts_listed(s: SpatialStructure)
    ensures
        forall|x: SpatialBranchBoundary| sources_boundaries(s.sources@).contains(x) ==> #[trigger] branch_boundaries(s).contains(x),
        forall|x: SpatialBranchBoundary| coordinates_boundaries(s.coordinates@).contains(x) ==> #[trigger] branch_boundaries(s).contains(x),
        forall|x: SpatialBranchBoundary| monitors_boundaries(s.mode_monitors@).contains(x) ==> #[trigger] branch_boundaries(s).contains(x),
{
    let sb = sources_boundaries(s.sources@);
    let cb = coordinates_boundaries(s.coordinates@);
    let mb = monitors_boundaries(s.mode_monitors@);
    let bs = branch_boundaries(s);
    lemma_sources_members(s.sources@);
    lemma_coordinates_members(s.coordinates@);
    lemma_monitors_members(s.mode_monitors@);
    assert(bs == sb + cb + mb);
    assert forall|x: SpatialBranchBoundary| sb.contains(x) implies #[trigger] bs.contains(x) by {
        let i = choose|i: int| 0 <= i < sb.len() && sb[i] == x;
        assert(bs[i] == x);
    }
    assert forall|x: SpatialBranchBoundary| cb.contains(x) implies #[trigger] bs.contains(x) by {
        let i = choose|i: int| 0 <= i < cb.len() && cb[i] == x;
        assert(bs[sb.len() + i] == x);
    }
    assert forall|x: SpatialBranchBoundary| mb.contains(x) implies #[trigger] bs.contains(x) by {
        let i = choose|i: int| 0 <= i < mb.len() && mb[i] == x;
        assert(bs[sb.len() + cb.len() + i] == x);
    }
}

/// Every source implies the boundaries its kind calls for: a fixed frame and a
/// frame offset their three diagonal roots, a jointed or aligned source its
/// axis parity, a prismatic joint also its clock root, a hinge driver its
/// positive root.
pub proof fn lemma_sources_imply_boundaries(s: SpatialStructure)
    ensures
        forall|k: int| 0 <= k < s.sources@.len() && (#[trigger] s.sources@[k]).shape is FixedFrame ==> {
            &&& branch_boundaries(s).contains(SpatialBranchBoundary::FixedFrameDiagonal { source: s.sources@[k].id, axis: SpatialFrameAxis::X })
            &&& branch_boundaries(s).contains(SpatialBranchBoundary::FixedFrameDiagonal { source: s.sources@[k].id, axis: SpatialFrameAxis::Y })
            &&& branch_boundaries(s).contains(SpatialBranchBoundary::FixedFrameDiagonal { source: s.sources@[k].id, axis: SpatialFrameAxis::Z })
        },
        forall|k: int| 0 <= k < s.sources@.len() && (#[trigger] s.sources@[k]).shape is FrameOffsetMate ==> {
            &&& branch_boundaries(s).contains(SpatialBranchBoundary::FrameOffsetDiagonal { source: s.sources@[k].id, axis: SpatialFrameAxis::X })
            &&& branch_boundaries(s).contains(SpatialBranchBoundary::FrameOffsetDiagonal { source: s.sources@[k].id, axis: SpatialFrameAxis::Y })
            &&& branch_boundaries(s).contains(SpatialBranchBoundary::FrameOffsetDiagonal { source: s.sources@[k].id, axis: SpatialFrameAxis::Z })
        },
        forall|k: int| 0 <= k < s.sources@.len() && source_axis_parity((#[trigger] s.sources@[k]).shape) is Some ==> branch_boundaries(s).contains(
            SpatialBranchBoundary::SourceAxisParity { source: s.sources@[k].id, parity: source_axis_parity(s.sources@[k].shape)->0 },
        ),
        forall|k: int| 0 <= k < s.sources@.len() && (#[trigger] s.sources@[k]).shape is PrismaticJoint ==> branch_boundaries(s).contains(
            SpatialBranchBoundary::PrismaticClockRoot { source: s.sources@[k].id },
        ),
        forall|k: int| 0 <= k < s.sources@.len() && (#[trigger] s.sources@[k]).shape is HingePositionDriver ==> branch_boundaries(s).contains(
            SpatialBranchBoundary::HingeDriverPositiveRoot {
                source: s.sources@[k].id,
                coordinate: s.sources@[k].shape->HingePositionDriver_coordinate,
            },
        ),
{
    let sb = sources_boundaries(s.sources@);
    let bs = branch_boundaries(s);
    lemma_sources_members(s.sources@);
    lemma_parts_listed(s);
    assert forall|k: int| 0 <= k < s.sources@.len() implies {
        let r = #[trigger] s.sources@[k];
        forall|j: int| 0 <= j < source_boundaries(r).len() ==> bs.contains(#[trigger] source_boundaries(r)[j])
    } by {
        assert forall|j: int| 0 <= j < source_boundaries(s.sources@[k]).len() implies bs.contains(#[trigger] source_boundaries(s.sources@[k])[j]) by {
            assert(sb.contains(source_boundaries(s.sources@[k])[j]));
        }
    }
    assert forall|k: int| 0 <= k < s.sources@.len() && ((#[trigger] s.sources@[k]).shape is FixedFrame || s.sources@[k].shape is FrameOffsetMate)
        implies {
            &&& bs.contains(source_boundaries(s.sources@[k])[0])
            &&& bs.contains(source_boundaries(s.sources@[k])[1])
            &&& bs.contains(source_boundaries(s.sources@[k])[2])
        } by {
        assert(sb.contains(source_boundaries(s.sources@[k])[0]));
        assert(sb.contains(source_boundaries(s.sources@[k])[1]));
        assert(sb.contains(source_boundaries(s.sources@[k])[2]));
    }
    assert forall|k: int| 0 <= k < s.sources@.len()
        && (source_axis_parity((#[trigger] s.sources@[k]).shape) is Some || s.sources@[k].shape is HingePositionDriver)
        implies bs.contains(source_boundaries(s.sources@[k])[0]) by {
        assert(sb.contains(source_boundaries(s.sources@[k])[0]));
    }
    assert forall|k: int| 0 <= k < s.sources@.len() && (#[trigger] s.sources@[k]).shape is PrismaticJoint
        implies bs.contains(source_boundaries(s.sources@[k])[1]) by {
        assert(sb.contains(source_boundaries(s.sources@[k])[1]));
    }
}

/// Every hinge coordinate implies its principal cut, and every parity,
/// plane-side and signed-volume monitor its watched value.
pub proof fn lemma_coordinates_and_monitors_imply_boundaries(s: SpatialStructure)
    ensures
        forall|k: int| 0 <= k < s.coordinates@.len() && (#[trigger] s.coordinates@[k]).kind is Hinge ==> branch_boundaries(s).contains(
            SpatialBranchBoundary::HingePrincipalCut { coordinate: s.coordinates@[k].id, winding: s.coordinates@[k].kind->Hinge_winding },
        ),
        forall|k: int| 0 <= k < s.mode_monitors@.len() && (#[trigger] s.mode_monitors@[k]).kind is AxisParity ==> branch_boundaries(s).contains(
            SpatialBranchBoundary::MonitorAxisParity { monitor: s.mode_monitors@[k].id, parity: s.mode_monitors@[k].kind->AxisParity_parity },
        ),
        forall|k: int| 0 <= k < s.mode_monitors@.len() && (#[trigger] s.mode_monitors@[k]).kind is PlaneSide ==> branch_boundaries(s).contains(
            SpatialBranchBoundary::MonitorPlaneSide { monitor: s.mode_monitors@[k].id, side: s.mode_monitors@[k].kind->PlaneSide_side },
        ),
        forall|k: int| 0 <= k < s.mode_monitors@.len() && (#[trigger] s.mode_monitors@[k]).kind is SignedVolume ==> branch_boundaries(s).contains(
            SpatialBranchBoundary::MonitorSignedVolume {
                monitor: s.mode_monitors@[k].id,
                orientation: s.mode_monitors@[k].kind->SignedVolume_orientation,
            },
        ),
{
    let cb = coordinates_boundaries(s.coordinates@);
    let mb = monitors_boundaries(s.mode_monitors@);
    let bs = branch_boundaries(s);
    lemma_coordinates_members(s.coordinates@);
    lemma_monitors_members(s.mode_monitors@);
    lemma_parts_listed(s);
    assert forall|k: int| 0 <= k < s.coordinates@.len() && (#[trigger] s.coordinates@[k]).kind is Hinge implies bs.contains(
        SpatialBranchBoundary::HingePrincipalCut { coordinate: s.coordinates@[k].id, winding: s.coordinates@[k].kind->Hinge_winding },
    ) by {
        assert(cb.contains(coordinate_boundaries(s.coordinates@[k])[0]));
    }
    assert forall|k: int| 0 <= k < s.mode_monitors@.len() && !((#[trigger] s.mode_monitors@[k]).kind is HingeWinding) implies
        bs.contains(monitor_boundaries(s.mode_monitors@[k])[0]) by {
        assert(mb.contains(monitor_boundaries(s.mode_monitors@[k])[0]));
    }
}

/// Every boundary a structure lists belongs to one of its objects, of the kind
/// the boundary calls for and with the value it carries.
pub proof fn lemma_boundaries_come_from_topology(s: SpatialStructure)
    ensures
        forall|b: SpatialBranchBoundary| #[trigger] branch_boundaries(s).contains(b) ==> match b {
            SpatialBranchBoundary::FixedFrameDiagonal { source, .. } => exists|k: int|
                0 <= k < s.sources@.len() && (#[trigger] s.sources@[k]).id == source && s.sources@[k].shape is FixedFrame,
            SpatialBranchBoundary::FrameOffsetDiagonal { source, .. } => exists|k: int|
                0 <= k < s.sources@.len() && (#[trigger] s.sources@[k]).id == source && s.sources@[k].shape is FrameOffsetMate,
            SpatialBranchBoundary::SourceAxisParity { source, parity } => exists|k: int|
                0 <= k < s.sources@.len() && (#[trigger] s.sources@[k]).id == source && source_axis_parity(s.sources@[k].shape) == Some(parity),
            SpatialBranchBoundary::PrismaticClockRoot { source } => exists|k: int|
                0 <= k < s.sources@.len() && (#[trigger] s.sources@[k]).id == source && s.sources@[k].shape is PrismaticJoint,
            SpatialBranchBoundary::HingeDriverPositiveRoot { source, coordinate } => exists|k: int|
                0 <= k < s.sources@.len() && (#[trigger] s.sources@[k]).id == source && s.sources@[k].shape is HingePositionDriver
                    && s.sources@[k].shape->HingePositionDriver_coordinate == coordinate,
            SpatialBranchBoundary::HingePrincipalCut { coordinate, winding } => exists|k: int|
                0 <= k < s.coordinates@.len() && (#[trigger] s.coordinates@[k]).id == coordinate && s.coordinates@[k].kind is Hinge
                    && s.coordinates@[k].kind->Hinge_winding == winding,
            SpatialBranchBoundary::MonitorAxisParity { monitor, parity } => exists|k: int|
                0 <= k < s.mode_monitors@.len() && (#[trigger] s.mode_monitors@[k]).id == monitor && s.mode_monitors@[k].kind is AxisParity
                    && s.mode_monitors@[k].kind->AxisParity_parity == parity,
            SpatialBranchBoundary::MonitorPlaneSide { monitor, side } => exists|k: int|
                0 <= k < s.mode_monitors@.len() && (#[trigger] s.mode_monitors@[k]).id == monitor && s.mode_monitors@[k].kind is PlaneSide
                    && s.mode_monitors@[k].kind->PlaneSide_side == side,
            SpatialBranchBoundary::MonitorSignedVolume { monitor, orientation } => exists|k: int|
                0 <= k < s.mode_monitors@.len() && (#[trigger] s.mode_monitors@[k]).id == monitor && s.mode_monitors@[k].kind is SignedVolume
                    && s.mode_monitors@[k].kind->SignedVolume_orientation == orientation,
        },
{
    let sb = sources_boundaries(s.sources@);
    let cb = coordinates_boundaries(s.coordinates@);
    let mb = monitors_boundaries(s.mode_monitors@);
    let bs = branch_boundaries(s);
    lemma_sources_members(s.sources@);
    lemma_coordinates_members(s.coordinates@);
    lemma_monitors_members(s.mode_monitors@);
    assert(bs == sb + cb + mb);
    assert forall|b: SpatialBranchBoundary| #[trigger] bs.contains(b) implies match b {
        SpatialBranchBoundary::FixedFrameDiagonal { source, .. } => exists|k: int|
            0 <= k < s.sources@.len() && (#[trigger] s.sources@[k]).id == source && s.sources@[k].shape is FixedFrame,
        SpatialBranchBoundary::FrameOffsetDiagonal { source, .. } => exists|k: int|
            0 <= k < s.sources@.len() && (#[trigger] s.sources@[k]).id == source && s.sources@[k].shape is FrameOffsetMate,
        SpatialBranchBoundary::SourceAxisParity { source, parity } => exists|k: int|
            0 <= k < s.sources@.len() && (#[trigger] s.sources@[k]).id == source && source_axis_parity(s.sources@[k].shape) == Some(parity),
        SpatialBranchBoundary::PrismaticClockRoot { source } => exists|k: int|
            0 <= k < s.sources@.len() && (#[trigger] s.sources@[k]).id == source && s.sources@[k].shape is PrismaticJoint,
        SpatialBranchBoundary::HingeDriverPositiveRoot { source, coordinate } => exists|k: int|
            0 <= k < s.sources@.len() && (#[trigger] s.sources@[k]).id == source && s.sources@[k].shape is HingePositionDriver
                && s.sources@[k].shape->HingePositionDriver_coordinate == coordinate,
        SpatialBranchBoundary::HingePrincipalCut { coordinate, winding } => exists|k: int|
            0 <= k < s.coordinates@.len() && (#[trigger] s.coordinates@[k]).id == coordinate && s.coordinates@[k].kind is Hinge
                && s.coordinates@[k].kind->Hinge_winding == winding,
        SpatialBranchBoundary::MonitorAxisParity { monitor, parity } => exists|k: int|
            0 <= k < s.mode_monitors@.len() && (#[trigger] s.mode_monitors@[k]).id == monitor && s.mode_monitors@[k].kind is AxisParity
                && s.mode_monitors@[k].kind->AxisParity_parity == parity,
        SpatialBranchBoundary::MonitorPlaneSide { monitor, side } => exists|k: int|
            0 <= k < s.mode_monitors@.len() && (#[trigger] s.mode_monitors@[k]).id == monitor && s.mode_monitors@[k].kind is PlaneSide
                && s.mode_monitors@[k].kind->PlaneSide_side == side,
        SpatialBranchBoundary::MonitorSignedVolume { monitor, orientation } => exists|k: int|
            0 <= k < s.mode_monitors@.len() && (#[trigger] s.mode_monitors@[k]).id == monitor && s.mode_monitors@[k].kind is SignedVolume
                && s.mode_monitors@[k].kind->SignedVolume_orientation == orientation,
    } by {
        let i = choose|i: int| 0 <= i < bs.len() && bs[i] == b;
        if i < sb.len() {
            assert(sb[i] == b);
            assert(sb.contains(b));
            let k = choose|k: int| 0 <= k < s.sources@.len() && #[trigger] source_boundaries(s.sources@[k]).contains(b);
            lemma_source_boundary_origin(s.sources@[k], b);
        } else if i < sb.len() + cb.len() {
            assert(cb[i - sb.len()] == b);
            assert(cb.contains(b));
            let k = choose|k: int| 0 <= k < s.coordinates@.len() && #[trigger] coordinate_boundaries(s.coordinates@[k]).contains(b);
            lemma_coordinate_boundary_origin(s.coordinates@[k], b);
        } else {
            assert(mb[i - sb.len() - cb.len()] == b);
            assert(mb.contains(b));
            let k = choose|k: int| 0 <= k < s.mode_monitors@.len() && #[trigger] monitor_boundaries(s.mode_monitors@[k]).contains(b);
            lemma_monitor_boundary_origin(s.mode_monitors@[k], b);
        }
    }
}

// ---------------------------------------------------------------------------
// Each implied boundary occurs once.

/// The source a boundary belongs to, if it is a source boundary.
pub open spec fn boundary_source(b: SpatialBranchBoundary) -> Option<SpatialSourceId> {
    match b {
        SpatialBranchBoundary::FixedFrameDiagonal { source, .. } => Some(source),
        SpatialBranchBoundary::FrameOffsetDiagonal { source, .. } => Some(source),
        SpatialBranchBoundary::SourceAxisParity { source, .. } => Some(source),
        SpatialBranchBoundary::PrismaticClockRoot { source } => Some(source),
        SpatialBranchBoundary::HingeDriverPositiveRoot { source, .. } => Some(source),
        _ => None,
    }
}

/// The coordinate a boundary belongs to, if it is a principal cut.
pub open spec fn boundary_coordinate(b: SpatialBranchBoundary) -> Option<SpatialCoordinateId> {
    match b {
        SpatialBranchBoundary::HingePrincipalCut { coordinate, .. } => Some(coordinate),
        _ => None,
    }
}

/// The mode monitor a boundary belongs to, if it is a monitor boundary.
pub open spec fn boundary_monitor(b: SpatialBranchBoundary) -> Option<SpatialModeMonitorId> {
    match b {
        SpatialBranchBoundary::MonitorAxisParity { monitor, .. } => Some(monitor),
        SpatialBranchBoundary::MonitorPlaneSide { monitor, .. } => Some(monitor),
        SpatialBranchBoundary::MonitorSignedVolume { monitor, .. } => Some(monitor),
        _ => None,
    }
}

proof fn lemma_sources_boundaries(sources: Seq<SpatialSourceRecord>)
    requires
        forall|i: int, j: int| 0 <= i < j < sources.len() ==> #[trigger] sources[i].id != #[trigger] sources[j].id,
    ensures
        distinct(sources_boundaries(sources)),
        forall|k: int| 0 <= k < sources_boundaries(sources).len() ==> exists|i: int|
            0 <= i < sources.len() && boundary_source(#[trigger] sources_boundaries(sources)[k]) == Some(sources[i].id),
    decreases sources.len(),
{
    if sources.len() > 0 {
        let prefix = sources.drop_last();
        let last = sources.last();
        assert forall|i: int, j: int| 0 <= i < j < prefix.len() implies #[trigger] prefix[i].id != #[trigger] prefix[j].id by {
            assert(prefix[i] == sources[i] && prefix[j] == sources[j]);
        }
        lemma_sources_boundaries(prefix);
        let a = sources_boundaries(prefix);
        let b = source_boundaries(last);
        assert(forall|k: int| 0 <= k < b.len() ==> boundary_source(#[trigger] b[k]) == Some(last.id));
        assert(distinct(b));
        assert forall|x: int, y: int| 0 <= x < a.len() && 0 <= y < b.len() implies #[trigger] a[x] != #[trigger] b[y] by {
            let i = choose|i: int| 0 <= i < prefix.len() && boundary_source(a[x]) == Some(prefix[i].id);
            assert(prefix[i] == sources[i]);
            assert(sources[i].id != sources[sources.len() - 1].id);
        }
        lemma_concat_distinct(a, b);
        let all = sources_boundaries(sources);
        assert(all == a + b);
        assert forall|k: int| 0 <= k < all.len() implies exists|i: int|
            0 <= i < sources.len() && boundary_source(#[trigger] all[k]) == Some(sources[i].id) by {
            if k < a.len() {
                let i = choose|i: int| 0 <= i < prefix.len() && boundary_source(a[k]) == Some(prefix[i].id);
                assert(prefix[i] == sources[i]);
            } else {
                assert(all[k] == b[k - a.len()]);
                assert(boundary_source(all[k]) == Some(sources[sources.len() - 1].id));
            }
        }
    }
}

proof fn lemma_coordinates_boundaries(coordinates: Seq<SpatialCoordinate>)
    requires
        forall|i: int, j: int| 0 <= i < j < coordinates.len() ==> #[trigger] coordinates[i].id != #[trigger] coordinates[j].id,
    ensures
        distinct(coordinates_boundaries(coordinates)),
        forall|k: int| 0 <= k < coordinates_boundaries(coordinates).len() ==> exists|i: int|
            0 <= i < coordinates.len() && boundary_coordinate(#[trigger] coordinates_boundaries(coordinates)[k]) == Some(coordinates[i].id),
    decreases coordinates.len(),
{
    if coordinates.len() > 0 {
        let prefix = coordinates.drop_last();
        let last = coordinates.last();
        assert forall|i: int, j: int| 0 <= i < j < prefix.len() implies #[trigger] prefix[i].id != #[trigger] prefix[j].id by {
            assert(prefix[i] == coordinates[i] && prefix[j] == coordinates[j]);
        }
        lemma_coordinates_boundaries(prefix);
        let a = coordinates_boundaries(prefix);
        let b = coordinate_boundaries(last);
        assert(forall|k: int| 0 <= k < b.len() ==> boundary_coordinate(#[trigger] b[k]) == Some(last.id));
        assert forall|x: int, y: int| 0 <= x < a.len() && 0 <= y < b.len() implies #[trigger] a[x] != #[trigger] b[y] by {
            let i = choose|i: int| 0 <= i < prefix.len() && boundary_coordinate(a[x]) == Some(prefix[i].id);
            assert(prefix[i] == coordinates[i]);
            assert(coordinates[i].id != coordinates[coordinates.len() - 1].id);
        }
        lemma_concat_distinct(a, b);
        let all = coordinates_boundaries(coordinates);
        assert forall|k: int| 0 <= k < all.len() implies exists|i: int|
            0 <= i < coordinates.len() && boundary_coordinate(#[trigger] all[k]) == Some(coordinates[i].id) by {
            if k < a.len() {
                let i = choose|i: int| 0 <= i < prefix.len() && boundary_coordinate(a[k]) == Some(prefix[i].id);
                assert(prefix[i] == coordinates[i]);
                assert(all[k] == a[k]);
            } else {
                assert(all[k] == b[k - a.len()]);
                assert(boundary_coordinate(all[k]) == Some(coordinates[coordinates.len() - 1].id));
            }
        }
    }
}

proof fn lemma_monitors_boundaries(monitors: Seq<SpatialModeMonitor>)
    requires
        forall|i: int, j: int| 0 <= i < j < monitors.len() ==> #[trigger] monitors[i].id != #[trigger] monitors[j].id,
    ensures
        distinct(monitors_boundaries(monitors)),
        forall|k: int| 0 <= k < monitors_boundaries(monitors).len() ==> exists|i: int|
            0 <= i < monitors.len() && boundary_monitor(#[trigger] monitors_boundaries(monitors)[k]) == Some(monitors[i].id),
    decreases monitors.len(),
{
    if monitors.len() > 0 {
        let prefix = monitors.drop_last();
        let last = monitors.last();
        assert forall|i: int, j: int| 0 <= i < j < prefix.len() implies #[trigger] prefix[i].id != #[trigger] prefix[j].id by {
            assert(prefix[i] == monitors[i] && prefix[j] == monitors[j]);
        }
        lemma_monitors_boundaries(prefix);
        let a = monitors_boundaries(prefix);
        let b = monitor_boundaries(last);
        assert(forall|k: int| 0 <= k < b.len() ==> boundary_monitor(#[trigger] b[k]) == Some(last.id));
        assert forall|x: int, y: int| 0 <= x < a.len() && 0 <= y < b.len() implies #[trigger] a[x] != #[trigger] b[y] by {
            let i = choose|i: int| 0 <= i < prefix.len() && boundary_monitor(a[x]) == Some(prefix[i].id);
            assert(prefix[i] == monitors[i]);
            assert(monitors[i].id != monitors[monitors.len() - 1].id);
        }
        lemma_concat_distinct(a, b);
        let all = monitors_boundaries(monitors);
        assert forall|k: int| 0 <= k < all.len() implies exists|i: int|
            0 <= i < monitors.len() && boundary_monitor(#[trigger] all[k]) == Some(monitors[i].id) by {
            if k < a.len() {
                let i = choose|i: int| 0 <= i < prefix.len() && boundary_monitor(a[k]) == Some(prefix[i].id);
                assert(prefix[i] == monitors[i]);
                assert(all[k] == a[k]);
            } else {
                assert(all[k] == b[k - a.len()]);
                assert(boundary_monitor(all[k]) == Some(monitors[monitors.len() - 1].id));
            }
        }
    }
}

/// A structure that passes its checks implies each branch boundary once.
pub proof fn lemma_branch_boundaries_distinct(s: SpatialStructure)
    requires
        structure_error(s) is None,
    ensures
        distinct(branch_boundaries(s)),
{
    lemma_segments_distinct(s);
    assert forall|i: int, j: int| 0 <= i < j < s.sources@.len() implies #[trigger] s.sources@[i].id != #[trigger] s.sources@[j].id by {
        assert(source_checks(s)[i].ordinal != source_checks(s)[j].ordinal);
    }
    assert forall|i: int, j: int| 0 <= i < j < s.coordinates@.len() implies #[trigger] s.coordinates@[i].id != #[trigger] s.coordinates@[j].id by {
        assert(coordinate_checks(s)[i].ordinal != coordinate_checks(s)[j].ordinal);
    }
    assert forall|i: int, j: int| 0 <= i < j < s.mode_monitors@.len() implies #[trigger] s.mode_monitors@[i].id != #[trigger] s.mode_monitors@[j].id by {
        assert(monitor_checks(s)[i].ordinal != monitor_checks(s)[j].ordinal);
    }
    lemma_sources_boundaries(s.sources@);
    lemma_coordinates_boundaries(s.coordinates@);
    lemma_monitors_boundaries(s.mode_monitors@);
    let a = sources_boundaries(s.sources@);
    let b = coordinates_boundaries(s.coordinates@);
    let c = monitors_boundaries(s.mode_monitors@);
    assert forall|x: int, y: int| 0 <= x < a.len() && 0 <= y < b.len() implies #[trigger] a[x] != #[trigger] b[y] by {
        let i = choose|i: int| 0 <= i < s.sources@.len() && boundary_source(a[x]) == Some(s.sources@[i].id);
        let j = choose|j: int| 0 <= j < s.coordinates@.len() && boundary_coordinate(b[y]) == Some(s.coordinates@[j].id);
    }
    lemma_concat_distinct(a, b);
    let ab = a + b;
    assert forall|x: int, y: int| 0 <= x < ab.len() && 0 <= y < c.len() implies #[trigger] ab[x] != #[trigger] c[y] by {
        let j = choose|j: int| 0 <= j < s.mode_monitors@.len() && boundary_monitor(c[y]) == Some(s.mode_monitors@[j].id);
        if x < a.len() {
            let i = choose|i: int| 0 <= i < s.sources@.len() && boundary_source(a[x]) == Some(s.sources@[i].id);
            assert(ab[x] == a[x]);
        } else {
            let i = choose|i: int| 0 <= i < s.coordinates@.len() && boundary_coordinate(b[x - a.len()]) == Some(s.coordinates@[i].id);
            assert(ab[x] == b[x - a.len()]);
        }
    }
    lemma_concat_distinct(ab, c);
}

// ---------------------------------------------------------------------------
// Accepted latches survive saving and loading.

proof fn lemma_source_boundary_owner(sources: Seq<SpatialSourceRecord>, k: int) -> (i: int)
    requires
        0 <= k < sources_boundaries(sources).len(),
    ensures
        0 <= i < sources.len(),
        source_boundaries(sources[i]).contains(sources_boundaries(sources)[k]),
    decreases sources.len(),
{
    let prefix = sources.drop_last();
    let a = sources_boundaries(prefix);
    let b = source_boundaries(sources.last());
    assert(sources_boundaries(sources) == a + b);
    if k < a.len() {
        let i = lemma_source_boundary_owner(prefix, k);
        assert(prefix[i] == sources[i]);
        i
    } else {
        assert(b[k - a.len()] == sources_boundaries(sources)[k]);
        sources.len() - 1
    }
}

proof fn lemma_coordinate_boundary_owner(coordinates: Seq<SpatialCoordinate>, k: int) -> (i: int)
    requires
        0 <= k < coordinates_boundaries(coordinates).len(),
    ensures
        0 <= i < coordinates.len(),
        boundary_coordinate(coordinates_boundaries(coordinates)[k]) == Some(coordinates[i].id),
    decreases coordinates.len(),
{
    let prefix = coordinates.drop_last();
    let a = coordinates_boundaries(prefix);
    let b = coordinate_boundaries(coordinates.last());
    assert(coordinates_boundaries(coordinates) == a + b);
    if k < a.len() {
        let i = lemma_coordinate_boundary_owner(prefix, k);
        assert(prefix[i] == coordinates[i]);
        i
    } else {
        assert(b[k - a.len()] == coordinates_boundaries(coordinates)[k]);
        coordinates.len() - 1
    }
}

proof fn lemma_monitor_boundary_owner(monitors: Seq<SpatialModeMonitor>, k: int) -> (i: int)
    requires
        0 <= k < monitors_boundaries(monitors).len(),
    ensures
        0 <= i < monitors.len(),
        boundary_monitor(monitors_boundaries(monitors)[k]) == Some(monitors[i].id),
    decreases monitors.len(),
{
    let prefix = monitors.drop_last();
    let a = monitors_boundaries(prefix);
    let b = monitor_boundaries(monitors.last());
    assert(monitors_boundaries(monitors) == a + b);
    if k < a.len() {
        let i = lemma_monitor_boundary_owner(prefix, k);
        assert(prefix[i] == monitors[i]);
        i
    } else {
        assert(b[k - a.len()] == monitors_boundaries(monitors)[k]);
        monitors.len() - 1
    }
}

/// Every boundary a checked structure implies can be captured through the map
/// captured from it.
proof fn lemma_boundaries_capturable(id: SpatialDocumentId, s: SpatialStructure, map: SpatialAssemblyRuntimeMap, k: int)
    requires
        structure_error(s) is None,
        map_captured(id, s, map),
        0 <= k < branch_boundaries(s).len(),
    ensures
        boundary_capture(map, branch_boundaries(s)[k]) is Ok,
{
    let a = sources_boundaries(s.sources@);
    let b = coordinates_boundaries(s.coordinates@);
    let c = monitors_boundaries(s.mode_monitors@);
    let all = branch_boundaries(s);
    assert(all == a + b + c);
    let start = id.0 + 1;
    let sources_start = start + body_runtimes(s).len() + feature_runtimes(s).len();
    let coordinates_start = sources_start + source_runtimes(s).len();
    let monitors_start = coordinates_start + coordinate_runtimes(s).len();
    if k < a.len() {
        assert(all[k] == a[k]);
        let i = lemma_source_boundary_owner(s.sources@, k);
        let r = s.sources@[i];
        assert(source_runtimes(s)[i] == r.id);
        lemma_allocated_finds(sources_start, source_runtimes(s), r.id);
        assert(captured_source(map, r.id) is Ok);
        lemma_records_pass(s);
        assert(source_error(s, r) is None);
        if let SpatialSourceShape::HingePositionDriver { coordinate, winding, .. } = r.shape {
            assert(hinge_reference_error(s, coordinate, winding) is None);
            lemma_coordinate_captured(id, s, map, coordinate);
        }
        let j = choose|j: int| 0 <= j < source_boundaries(r).len() && source_boundaries(r)[j] == a[k];
    } else if k < a.len() + b.len() {
        assert(all[k] == b[k - a.len()]);
        let i = lemma_coordinate_boundary_owner(s.coordinates@, k - a.len());
        let cid = s.coordinates@[i].id;
        assert(coordinate_runtimes(s)[i] == cid);
        lemma_allocated_finds(coordinates_start, coordinate_runtimes(s), cid);
        assert(captured_coordinate(map, cid) is Ok);
    } else {
        assert(all[k] == c[k - a.len() - b.len()]);
        let i = lemma_monitor_boundary_owner(s.mode_monitors@, k - a.len() - b.len());
        let mid = s.mode_monitors@[i].id;
        assert(monitor_runtimes(s)[i] == mid);
        lemma_allocated_finds(monitors_start, monitor_runtimes(s), mid);
        assert(captured_monitor(map, mid) is Ok);
    }
}

/// Saving accepted latches for the boundaries a checked structure implies,
/// through the map captured from it, and restoring them, gives every boundary
/// its latch back.
pub proof fn lemma_boundary_latches_survive_capture(
    id: SpatialDocumentId,
    s: SpatialStructure,
    map: SpatialAssemblyRuntimeMap,
    states: Seq<SpatialBoundaryHysteresisState>,
)
    requires
        structure_error(s) is None,
        id.0 + object_count(s) < u128::MAX,
        map_captured(id, s, map),
        states.len() == branch_boundaries(s).len(),
    ensures
        ({
            let evaluations = Seq::new(states.len(), |i: int| (branch_boundaries(s)[i], states[i]));
            &&& persisted_latches(map, latch_records(map, evaluations))
                == Ok::<Seq<(SpatialBranchBoundary, SpatialBoundaryHysteresisState)>, crate::spatial_document::SpatialDocumentError>(evaluations)
            &&& latches_complete(evaluations, branch_boundaries(s))
            &&& forall|i: int| 0 <= i < states.len() ==> latch_state(evaluations, #[trigger] branch_boundaries(s)[i]) == states[i]
        }),
{
    let boundaries = branch_boundaries(s);
    let evaluations = Seq::new(states.len(), |i: int| (boundaries[i], states[i]));
    lemma_captured_map_one_to_one(id, s, map);
    lemma_branch_boundaries_distinct(s);
    assert forall|i: int| 0 <= i < evaluations.len() implies boundary_capture(map, (#[trigger] evaluations[i]).0) is Ok by {
        lemma_boundaries_capturable(id, s, map, i);
    }
    assert forall|x: int, y: int| 0 <= x < y < evaluations.len() implies #[trigger] evaluations[x].0 != #[trigger] evaluations[y].0 by {
        assert(boundaries[x] != boundaries[y]);
    }
    lemma_latches_restore(map, evaluations);
    assert(evaluations.map_values(|e: (SpatialBranchBoundary, SpatialBoundaryHysteresisState)| e.0) =~= boundaries);
    assert forall|i: int| 0 <= i < states.len() implies latch_state(evaluations, #[trigger] boundaries[i]) == states[i] by {
        assert(evaluations[i].0 == boundaries[i]);
    }
}

} // verus!
