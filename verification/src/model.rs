//! Discrete vocabulary of the planar linkage model: branch selections, driver
//! kinds and units, branch monitors, and which features they reference.

use vstd::prelude::*;
use crate::runtime_ids::{AxisFeatureId, BodyId, BranchMonitorId, DriverId, JointId, PointFeatureId};
use crate::text::{is_blank, trims_to_empty};

verus! {

/// Explicit relative direction selected for the two axes of a prismatic joint.
#[derive(Clone, Copy, Debug, PartialEq, Eq, Structural)]
pub enum AxisDirectionBranch {
    Same,
    Opposite,
}

/// Physical unit exposed by a driver target and rate.
#[derive(Clone, Copy, Debug, PartialEq, Eq, Structural)]
pub enum DriverUnit {
    Radian,
    ModelUnit,
}

impl DriverUnit {
    /// The unit's symbol: `rad` for radians, `model-unit` for model units.
    pub fn symbol(self) -> (symbol: &'static str)
        ensures
            self == DriverUnit::Radian ==> symbol@ == "rad"@,
            self == DriverUnit::ModelUnit ==> symbol@ == "model-unit"@,
    {
        match self {
            DriverUnit::Radian => "rad",
            DriverUnit::ModelUnit => "model-unit",
        }
    }
}

/// Supported hard position drivers.
#[derive(Clone, Copy, Debug, PartialEq, Eq, Structural)]
pub enum DriverKind {
    Angular { reference: BodyId, driven: BodyId },
    Linear { origin: PointFeatureId, measured: PointFeatureId, guide_axis: AxisFeatureId },
}

/// The unit of a driver of the given kind: radians for angular drivers, model
/// units for linear ones.
pub fn driver_unit(kind: DriverKind) -> (unit: DriverUnit)
    ensures
        kind is Angular ==> unit == DriverUnit::Radian,
        kind is Linear ==> unit == DriverUnit::ModelUnit,
{
    match kind {
        DriverKind::Angular { .. } => DriverUnit::Radian,
        DriverKind::Linear { .. } => DriverUnit::ModelUnit,
    }
}

/// Sign retained by an explicit branch monitor.
#[derive(Clone, Copy, Debug, PartialEq, Eq, Structural)]
pub enum BranchSign {
    Positive,
    Negative,
}

/// Explicit non-equation branch state checked after every attempted solve.
#[derive(Clone, Copy, Debug, PartialEq, Eq, Structural)]
pub enum BranchMonitor {
    Orientation {
        line_start: PointFeatureId,
        line_end: PointFeatureId,
        observed: PointFeatureId,
        sign: BranchSign,
    },
    DirectedDisplacement {
        origin: PointFeatureId,
        measured: PointFeatureId,
        axis: AxisFeatureId,
        sign: BranchSign,
    },
}

/// The exact discrete branch check that rejected a candidate state.
#[derive(Clone, Copy, Debug, PartialEq, Eq, Structural)]
pub enum BranchViolation {
    PrismaticAxis(JointId),
    Monitor(BranchMonitorId),
}

/// Domain identity corresponding to one deterministic compiled source.
#[derive(Clone, Copy, Debug, PartialEq, Eq, Structural)]
pub enum LinkageSource {
    Ground(BodyId),
    Joint(JointId),
    Driver(DriverId),
}

/// The geometric operation used by an explicit branch monitor.
#[derive(Clone, Copy, Debug, PartialEq, Eq, Structural)]
pub enum BranchMonitorKind {
    Orientation,
    DirectedDisplacement,
}

/// The geometric operation of a monitor.
pub fn branch_monitor_kind(monitor: BranchMonitor) -> (kind: BranchMonitorKind)
    ensures
        monitor is Orientation <==> kind == BranchMonitorKind::Orientation,
        monitor is DirectedDisplacement <==> kind == BranchMonitorKind::DirectedDisplacement,
{
    match monitor {
        BranchMonitor::Orientation { .. } => BranchMonitorKind::Orientation,
        BranchMonitor::DirectedDisplacement { .. } => BranchMonitorKind::DirectedDisplacement,
    }
}

/// Explicit orientation of the first linkage continuation tangent.
#[derive(Clone, Copy, Debug, PartialEq, Eq, Structural)]
pub enum ContinuationDirection {
    IncreasingParameter,
    DecreasingParameter,
}

/// Hardcoded scenarios required by native tests and the browser demonstration.
#[derive(Clone, Copy, Debug, PartialEq, Eq, Structural)]
pub enum LinkageScenario {
    FourBarOpen,
    FourBarCrossed,
    SliderCrank,
}

/// Explicit four-bar circle-intersection root.
#[derive(Clone, Copy, Debug, PartialEq, Eq, Structural)]
pub enum FourBarAssemblyMode {
    Open,
    Crossed,
}

/// Stable IDs needed to inspect, drive, and render canonical L1/L2.
#[derive(Clone, Copy, Debug, PartialEq, Eq, Structural)]
pub struct FourBarIds {
    pub ground: BodyId,
    pub input: BodyId,
    pub coupler: BodyId,
    pub rocker: BodyId,
    pub ground_o2: PointFeatureId,
    pub ground_o4: PointFeatureId,
    pub input_o2: PointFeatureId,
    pub input_a: PointFeatureId,
    pub coupler_a: PointFeatureId,
    pub coupler_b: PointFeatureId,
    pub rocker_b: PointFeatureId,
    pub rocker_o4: PointFeatureId,
    pub o2_joint: JointId,
    pub a_joint: JointId,
    pub b_joint: JointId,
    pub o4_joint: JointId,
    pub driver: DriverId,
    pub orientation_monitor: BranchMonitorId,
    pub assembly_mode: FourBarAssemblyMode,
    pub orientation_sign: BranchSign,
}

/// Explicit slider-crank assembly choice retained independently of coordinates.
#[derive(Clone, Copy, Debug, PartialEq, Eq, Structural)]
pub enum SliderCrankAssemblyMode {
    PositiveX,
}

/// Stable IDs needed to inspect, drive, and render canonical L3.
#[derive(Clone, Copy, Debug, PartialEq, Eq, Structural)]
pub struct SliderCrankIds {
    pub ground: BodyId,
    pub crank: BodyId,
    pub rod: BodyId,
    pub slider: BodyId,
    pub ground_o: PointFeatureId,
    pub ground_guide_origin: PointFeatureId,
    pub crank_o: PointFeatureId,
    pub crank_a: PointFeatureId,
    pub rod_a: PointFeatureId,
    pub rod_slider: PointFeatureId,
    pub slider_pin: PointFeatureId,
    pub ground_guide_axis: AxisFeatureId,
    pub slider_axis: AxisFeatureId,
    pub o_joint: JointId,
    pub a_joint: JointId,
    pub slider_joint: JointId,
    pub guide_joint: JointId,
    pub driver: DriverId,
    pub positive_x_monitor: BranchMonitorId,
    pub assembly_mode: SliderCrankAssemblyMode,
}

/// Whether a driver of this kind measures the point feature.
pub fn driver_references_point(kind: DriverKind, point: PointFeatureId) -> (referenced: bool)
    ensures
        referenced <==> (kind matches DriverKind::Linear { origin, measured, .. } && (origin
            == point || measured == point)),
{
    match kind {
        DriverKind::Linear { origin, measured, .. } => origin == point || measured == point,
        DriverKind::Angular { .. } => false,
    }
}

/// Whether a driver of this kind measures along the axis feature.
pub fn driver_references_axis(kind: DriverKind, axis: AxisFeatureId) -> (referenced: bool)
    ensures
        referenced <==> (kind matches DriverKind::Linear { guide_axis, .. } && guide_axis == axis),
{
    match kind {
        DriverKind::Linear { guide_axis, .. } => guide_axis == axis,
        DriverKind::Angular { .. } => false,
    }
}

/// Whether a branch monitor observes the point feature.
pub fn monitor_references_point(monitor: BranchMonitor, point: PointFeatureId) -> (referenced: bool)
    ensures
        referenced <==> match monitor {
            BranchMonitor::Orientation { line_start, line_end, observed, .. } => line_start == point
                || line_end == point || observed == point,
            BranchMonitor::DirectedDisplacement { origin, measured, .. } => origin == point
                || measured == point,
        },
{
    match monitor {
        BranchMonitor::Orientation { line_start, line_end, observed, .. } => line_start == point
            || line_end == point || observed == point,
        BranchMonitor::DirectedDisplacement { origin, measured, .. } => origin == point
            || measured == point,
    }
}

/// Whether a branch monitor measures along the axis feature.
pub fn monitor_references_axis(monitor: BranchMonitor, axis: AxisFeatureId) -> (referenced: bool)
    ensures
        referenced <==> (monitor matches BranchMonitor::DirectedDisplacement { axis: id, .. } && id
            == axis),
{
    match monitor {
        BranchMonitor::DirectedDisplacement { axis: id, .. } => id == axis,
        BranchMonitor::Orientation { .. } => false,
    }
}


/// Rejection while building or editing the planar linkage model. Values are
/// carried as the bits of the rejected double.
#[derive(Clone, Copy, Debug, PartialEq, Eq)]
pub enum LinkageError {
    /// The model scale is not finite and positive.
    InvalidModelScale(u64),
    /// The work plane is not finite with orthonormal axes.
    InvalidPlaneFrame(&'static str),
    /// A pose with a non-finite component.
    NonFinitePose { context: &'static str },
    /// A point with a non-finite coordinate.
    NonFinitePoint { context: &'static str },
    /// An axis that is not finite and nonzero.
    InvalidAxis { context: &'static str },
    /// A value that must be finite is not.
    NonFiniteValue { context: &'static str, value: u64 },
    /// A maximum continuation step that is not finite and positive.
    InvalidContinuationStep(u64),
    /// The label of the named kind of object is empty once trimmed.
    EmptyLabel(&'static str),
    UnknownBody(BodyId),
    UnknownPointFeature(PointFeatureId),
    UnknownAxisFeature(AxisFeatureId),
    UnknownJoint(JointId),
    UnknownDriver(DriverId),
    UnknownBranchMonitor(BranchMonitorId),
    /// The body is still referenced by a feature or an angular driver.
    BodyInUse(BodyId),
    /// The point feature is still referenced.
    PointFeatureInUse(PointFeatureId),
    /// The axis feature is still referenced.
    AxisFeatureInUse(AxisFeatureId),
    /// A joint or relative driver names one body twice.
    RepeatedBody,
    /// A prismatic joint's anchor and axis belong to different bodies.
    PrismaticFeatureBodyMismatch,
    /// A guide axis and its origin point belong to different bodies.
    LinearDriverFeatureBodyMismatch,
}

/// Accepts a label that keeps some non-whitespace character.
pub fn nonempty_label(label: String, kind: &'static str) -> (result: Result<String, LinkageError>)
    ensures
        is_blank(label@) ==> result == Err::<String, _>(LinkageError::EmptyLabel(kind)),
        !is_blank(label@) ==> (result matches Ok(accepted) && accepted@ == label@),
{
    if trims_to_empty(label.as_str()) {
        Err(LinkageError::EmptyLabel(kind))
    } else {
        Ok(label)
    }
}

} // verus!
