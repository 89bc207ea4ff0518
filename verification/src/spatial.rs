//! Discrete vocabulary and structural rules of spatial assemblies: coordinate
//! and mode-monitor definitions, branch boundaries, identity ownership,
//! namespaces, and the numerical gauge policy.

use vstd::prelude::*;
use crate::runtime_ids::{
    SpatialAxisFeatureId, SpatialBodyId, SpatialCoordinateId, SpatialFrameFeatureId,
    SpatialIdValue, SpatialModeMonitorId, SpatialPlaneFeatureId, SpatialPointFeatureId,
    SpatialSourceId,
};
use crate::text::{is_blank, trims_to_empty};
use crate::components::{
    classes_by, lemma_classes_unique, distinct_ids, group_by_root, groups_view, in_some_group, is_root_grouping, select_in_group,
    select_sources_in_group, strictly_increasing,
};
use crate::connectivity::{connected, link_roots, link_view, links_in_range};
use crate::gauge::{
    explicit_choices, first_unlisted, lemma_explicit_choices_shape, lemma_first_unlisted_is_listed,
    reference_choices, resolve_reference_choices, GaugeRuleViolation,
};

verus! {

/// Explicit directed-axis or plane-normal relationship retained by a spatial source.
#[derive(Clone, Copy, Debug, PartialEq, Eq, Structural, Hash)]
pub enum SpatialAxisParity {
    Aligned,
    Opposed,
}

/// Explicit positive or negative side/orientation state for a spatial mode monitor.
#[derive(Clone, Copy, Debug, PartialEq, Eq, Structural, Hash)]
pub enum SpatialModeSign {
    Positive,
    Negative,
}

/// First-plane in-plane axis selected by a planar translation coordinate.
#[derive(Clone, Copy, Debug, PartialEq, Eq, Structural, Hash)]
pub enum SpatialPlanarTranslationAxis {
    X,
    Y,
}

/// One topology-only coordinate definition. Coordinates add no core rows.
#[derive(Clone, Copy, Debug, PartialEq, Eq, Structural)]
pub enum SpatialCoordinateKind {
    Hinge { parent: SpatialSourceId, winding: i64 },
    AxialTranslation { parent: SpatialSourceId },
    PlanarTranslation { parent: SpatialSourceId, axis: SpatialPlanarTranslationAxis },
}

/// One spatial coordinate in deterministic insertion order.
#[derive(Clone, Debug, PartialEq, Eq)]
pub struct SpatialCoordinate {
    pub id: SpatialCoordinateId,
    pub label: String,
    pub kind: SpatialCoordinateKind,
}

impl SpatialCoordinate {
    pub fn id(&self) -> (id: SpatialCoordinateId)
        ensures
            id == self.id,
    {
        self.id
    }

    pub fn label(&self) -> (label: &str)
        ensures
            label@ == self.label@,
    {
        self.label.as_str()
    }

    pub fn kind(&self) -> (kind: SpatialCoordinateKind)
        ensures
            kind == self.kind,
    {
        self.kind
    }

    pub fn definition(&self) -> (definition: SpatialCoordinateKind)
        ensures
            definition == self.kind,
    {
        self.kind
    }
}

/// One explicit monitor-only spatial assembly-mode definition.
#[derive(Clone, Copy, Debug, PartialEq, Eq)]
pub enum SpatialModeMonitorKind {
    AxisParity { first: SpatialAxisFeatureId, second: SpatialAxisFeatureId, parity: SpatialAxisParity },
    HingeWinding { coordinate: SpatialCoordinateId, winding: i64 },
    PlaneSide { plane: SpatialPlaneFeatureId, point: SpatialPointFeatureId, side: SpatialModeSign },
    SignedVolume { points: [SpatialPointFeatureId; 4], orientation: SpatialModeSign },
}

/// One explicit monitor-only spatial assembly mode in deterministic insertion order.
#[derive(Clone, Debug, PartialEq, Eq)]
pub struct SpatialModeMonitor {
    pub id: SpatialModeMonitorId,
    pub label: String,
    pub kind: SpatialModeMonitorKind,
}

impl SpatialModeMonitor {
    pub fn id(&self) -> (id: SpatialModeMonitorId)
        ensures
            id == self.id,
    {
        self.id
    }

    pub fn label(&self) -> (label: &str)
        ensures
            label@ == self.label@,
    {
        self.label.as_str()
    }

    pub fn kind(&self) -> (kind: SpatialModeMonitorKind)
        ensures
            kind == self.kind,
    {
        self.kind
    }

    pub fn definition(&self) -> (definition: SpatialModeMonitorKind)
        ensures
            definition == self.kind,
    {
        self.kind
    }
}

/// Typed feature identity involved in an accepted spatial mode evaluation.
#[derive(Clone, Copy, Debug, PartialEq, Eq, Structural)]
pub enum SpatialModeFeature {
    Point(SpatialPointFeatureId),
    Frame(SpatialFrameFeatureId),
    Axis(SpatialAxisFeatureId),
    Plane(SpatialPlaneFeatureId),
}

/// Accepted hysteresis latch for one finite spatial branch-boundary metric.
#[derive(Clone, Copy, Debug, PartialEq, Eq, Structural)]
pub enum SpatialBoundaryHysteresisState {
    Clear,
    Near,
}

/// One local frame axis used to identify an orientation false-root boundary.
#[derive(Clone, Copy, Debug, PartialEq, Eq, Structural)]
pub enum SpatialFrameAxis {
    X,
    Y,
    Z,
}

/// Typed spatial branch or false-root boundary monitored without adding equations.
#[derive(Clone, Copy, Debug, PartialEq, Eq, Structural)]
pub enum SpatialBranchBoundary {
    FixedFrameDiagonal { source: SpatialSourceId, axis: SpatialFrameAxis },
    FrameOffsetDiagonal { source: SpatialSourceId, axis: SpatialFrameAxis },
    SourceAxisParity { source: SpatialSourceId, parity: SpatialAxisParity },
    PrismaticClockRoot { source: SpatialSourceId },
    HingeDriverPositiveRoot { source: SpatialSourceId, coordinate: SpatialCoordinateId },
    HingePrincipalCut { coordinate: SpatialCoordinateId, winding: i64 },
    MonitorAxisParity { monitor: SpatialModeMonitorId, parity: SpatialAxisParity },
    MonitorPlaneSide { monitor: SpatialModeMonitorId, side: SpatialModeSign },
    MonitorSignedVolume { monitor: SpatialModeMonitorId, orientation: SpatialModeSign },
}

/// Kind of one spatial branch-boundary event.
#[derive(Clone, Copy, Debug, PartialEq, Eq, Structural)]
pub enum SpatialBoundaryTransition {
    Entered,
    Left,
    /// A predictor attempted to cross a known periodic cut without a mode change.
    CrossingAttempted,
}

/// Endpoint at which one spatial boundary transition was observed.
#[derive(Clone, Copy, Debug, PartialEq, Eq, Structural)]
pub enum SpatialBoundaryObservation {
    PredictorEndpoint,
    CorrectedPhysicalEndpoint,
}

/// Numerical coordinate policy, separate from physical grounding.
#[derive(Clone, Debug, PartialEq, Eq)]
pub enum SpatialGaugePolicy {
    /// Fix the lowest body ID in each certified floating component privately.
    LowestPersistentBody,
    /// Select exactly one reference for every floating component.
    ExplicitReferences { bodies: Vec<SpatialBodyId> },
}

/// Certification of the common-left world action for one domain component.
#[derive(Clone, Copy, Debug, PartialEq, Eq, Structural)]
pub enum SpatialWorldActionCertification {
    FloatingSe3,
    PhysicallyGrounded,
}

/// Explicit direction of a periodic hinge principal-phase transition.
#[derive(Clone, Copy, Debug, PartialEq, Eq, Structural)]
pub enum SpatialPrincipalCutDirection {
    PositiveToNegative,
    NegativeToPositive,
}

/// Why a spatial field was rejected.
#[derive(Clone, Copy, Debug, PartialEq, Eq)]
pub enum SpatialFieldReason {
    /// The identity with this ordinal belongs to another assembly.
    ForeignId(u64),
    /// The identity with this ordinal is zero or repeated.
    ZeroOrDuplicateId(u64),
    /// A signed-volume monitor names a point feature more than once.
    RepeatedVolumePoints,
    /// The assembly namespace is zero.
    ZeroNamespace,
    /// The next identity does not exceed every allocated identity.
    NextIdNotAbove,
    /// A numerical value was rejected, for this reason.
    Rejected(&'static str),
}

/// Why an explicit spatial gauge policy was rejected.
#[derive(Clone, Copy, Debug, PartialEq, Eq, Structural)]
pub enum SpatialGaugeViolation {
    /// A body is listed more than once.
    DuplicateReferences,
    /// The floating component beginning at this body has no or several references.
    FloatingComponentReferences(SpatialBodyId),
    /// The physically grounded component beginning at this body has a reference.
    GroundedComponentReference(SpatialBodyId),
}

/// Structural rejection of a spatial assembly.
#[derive(Clone, Debug, PartialEq, Eq)]
pub enum SpatialAssemblyError {
    InvalidLabel { field: &'static str },
    InvalidField { field: &'static str, reason: SpatialFieldReason },
    UnknownBody(SpatialBodyId),
    UnknownPointFeature(SpatialPointFeatureId),
    UnknownFrameFeature(SpatialFrameFeatureId),
    UnknownAxisFeature(SpatialAxisFeatureId),
    UnknownPlaneFeature(SpatialPlaneFeatureId),
    UnknownSource(SpatialSourceId),
    UnknownCoordinate(SpatialCoordinateId),
    WrongCoordinateParent { source_id: SpatialSourceId, expected: &'static str },
    WrongCoordinateKind { coordinate: SpatialCoordinateId, expected: &'static str },
    IncompatibleDriverTargets { coordinate: SpatialCoordinateId },
    DuplicateGround(SpatialBodyId),
    WindingMismatch { coordinate: SpatialCoordinateId, coordinate_winding: i64, target_winding: i64 },
    SameBodyJointEndpoints(SpatialBodyId),
    IdExhausted,
    InvalidGaugePolicy(SpatialGaugeViolation),
    GaugeCertification(String),
    IndependentValidation(String),
    UnknownModeMonitor(SpatialModeMonitorId),
    WrongSourceKind { source_id: SpatialSourceId, expected: &'static str },
    WrongModeMonitorKind { monitor_id: SpatialModeMonitorId, expected: &'static str },
    /// Two edits of one transaction address the same value.
    DuplicateEdit { role: &'static str, key: SpatialEditKey },
}

/// The value one transaction edit addresses; a transaction edits each at most once.
#[derive(Clone, Copy, Debug, PartialEq, Eq, Structural)]
pub enum SpatialEditKey {
    BodyPose(SpatialBodyId),
    PointLocal(SpatialPointFeatureId),
    FrameLocal(SpatialFrameFeatureId),
    AxisLocal(SpatialAxisFeatureId),
    PlaneLocal(SpatialPlaneFeatureId),
    HingeWinding(SpatialCoordinateId),
    HingeDriverTarget(SpatialSourceId),
    TranslationDriverTarget(SpatialSourceId),
    SourceAxisParity(SpatialSourceId),
    ModeMonitor(SpatialModeMonitorId),
}

/// Accepts a hinge target whose winding equals the coordinate's.
pub fn require_matching_winding(coordinate: SpatialCoordinateId, coordinate_winding: i64, target_winding: i64) -> (result: Result<(), SpatialAssemblyError>)
    ensures
        coordinate_winding == target_winding ==> result is Ok,
        coordinate_winding != target_winding ==> result == Err::<(), _>(
            SpatialAssemblyError::WindingMismatch { coordinate, coordinate_winding, target_winding },
        ),
{
    if coordinate_winding == target_winding {
        Ok(())
    } else {
        Err(SpatialAssemblyError::WindingMismatch { coordinate, coordinate_winding, target_winding })
    }
}

/// Accepts a label that keeps some non-whitespace character.
pub fn validate_label(label: &str, field: &'static str) -> (result: Result<(), SpatialAssemblyError>)
    ensures
        is_blank(label@) ==> result == Err::<(), _>(SpatialAssemblyError::InvalidLabel { field }),
        !is_blank(label@) ==> result is Ok,
{
    if trims_to_empty(label) {
        Err(SpatialAssemblyError::InvalidLabel { field })
    } else {
        Ok(())
    }
}

/// Accepts joint endpoints on two different bodies.
pub fn require_distinct_bodies(first: SpatialBodyId, second: SpatialBodyId) -> (result: Result<(), SpatialAssemblyError>)
    ensures
        first != second ==> result is Ok,
        first == second ==> result == Err::<(), _>(SpatialAssemblyError::SameBodyJointEndpoints(first)),
{
    if first == second {
        Err(SpatialAssemblyError::SameBodyJointEndpoints(first))
    } else {
        Ok(())
    }
}

/// Accepts four pairwise distinct signed-volume points.
pub fn require_distinct_volume_points(points: [SpatialPointFeatureId; 4]) -> (result: Result<(), SpatialAssemblyError>)
    ensures
        points@.no_duplicates() ==> result is Ok,
        !points@.no_duplicates() ==> result == Err::<(), _>(
            SpatialAssemblyError::InvalidField { field: "signed_volume_monitor.points", reason: SpatialFieldReason::RepeatedVolumePoints },
        ),
{
    let a = points[0];
    let b = points[1];
    let c = points[2];
    let d = points[3];
    if a != b && a != c && a != d && b != c && b != d && c != d {
        proof {
            assert forall|i: int, j: int| 0 <= i < 4 && 0 <= j < 4 && i != j implies points@[i] != points@[j] by {
                assert(points@[0] == a && points@[1] == b && points@[2] == c && points@[3] == d);
            }
        }
        Ok(())
    } else {
        proof {
            assert(points@[0] == a && points@[1] == b && points@[2] == c && points@[3] == d);
        }
        Err(SpatialAssemblyError::InvalidField { field: "signed_volume_monitor.points", reason: SpatialFieldReason::RepeatedVolumePoints })
    }
}

/// Records a nonzero identity of this assembly's namespace, rejecting a foreign,
/// zero or repeated one.
pub fn require_owned_unique_id<T: SpatialIdValue>(ids: &mut std::collections::BTreeSet<u64>, namespace: u64, id: T) -> (result: Result<(), SpatialAssemblyError>)
    ensures
        id.spec_namespace() != namespace ==> result == Err::<(), _>(
            SpatialAssemblyError::InvalidField { field: "id", reason: SpatialFieldReason::ForeignId(id.spec_ordinal()) },
        ) && final(ids)@ == old(ids)@,
        id.spec_namespace() == namespace && (id.spec_ordinal() == 0 || old(ids)@.contains(id.spec_ordinal())) ==> result
            == Err::<(), _>(
            SpatialAssemblyError::InvalidField { field: "id", reason: SpatialFieldReason::ZeroOrDuplicateId(id.spec_ordinal()) },
        ) && final(ids)@ == (if id.spec_ordinal() == 0 { old(ids)@ } else { old(ids)@.insert(id.spec_ordinal()) }),
        id.spec_namespace() == namespace && id.spec_ordinal() != 0 && !old(ids)@.contains(id.spec_ordinal()) ==> result is Ok
            && final(ids)@ == old(ids)@.insert(id.spec_ordinal()),
{
    let ordinal = id.ordinal();
    if !id.belongs_to_namespace(namespace) {
        Err(SpatialAssemblyError::InvalidField { field: "id", reason: SpatialFieldReason::ForeignId(ordinal) })
    } else if ordinal == 0 || !ids.insert(ordinal) {
        Err(SpatialAssemblyError::InvalidField { field: "id", reason: SpatialFieldReason::ZeroOrDuplicateId(ordinal) })
    } else {
        Ok(())
    }
}

/// Takes the next assembly namespace from `counter`, failing once the space is exhausted.
pub fn allocate_spatial_assembly_namespace(counter: &mut u64) -> (result: Result<u64, SpatialAssemblyError>)
    ensures
        *old(counter) < u64::MAX ==> result == Ok::<u64, SpatialAssemblyError>(*old(counter)) && *final(counter) == *old(counter) + 1,
        *old(counter) == u64::MAX ==> result == Err::<u64, _>(SpatialAssemblyError::IdExhausted) && *final(counter) == *old(counter),
{
    match counter.checked_add(1) {
        Some(next) => {
            let namespace = *counter;
            *counter = next;
            Ok(namespace)
        },
        None => Err(SpatialAssemblyError::IdExhausted),
    }
}

/// The sum of a sequence of counts.
pub open spec fn total(values: Seq<usize>) -> int
    decreases values.len(),
{
    if values.len() == 0 {
        0
    } else {
        total(values.drop_last()) + values.last()
    }
}

proof fn lemma_total_monotone(values: Seq<usize>, k: int)
    requires
        0 <= k <= values.len(),
    ensures
        total(values.take(k)) <= total(values),
    decreases values.len() - k,
{
    if k < values.len() {
        lemma_total_monotone(values, k + 1);
        assert(values.take(k + 1).drop_last() =~= values.take(k));
    } else {
        assert(values.take(k) =~= values);
    }
}

/// Adds counts, rejecting a total that does not fit in `usize` with a gauge
/// certification failure carrying `message`.
pub fn checked_sum(values: &Vec<usize>, message: &'static str) -> (result: Result<usize, SpatialAssemblyError>)
    ensures
        total(values@) <= usize::MAX ==> result == Ok::<usize, SpatialAssemblyError>(total(values@) as usize),
        total(values@) > usize::MAX ==> (result matches Err(SpatialAssemblyError::GaugeCertification(text)) && text@ == message@),
{
    let mut sum: usize = 0;
    let mut i: usize = 0;
    while i < values.len()
        invariant
            i <= values@.len(),
            sum == total(values@.take(i as int)),
        decreases values@.len() - i,
    {
        proof {
            assert(values@.take(i + 1).drop_last() =~= values@.take(i as int));
            assert(values@.take(i + 1).last() == values@[i as int]);
        }
        match sum.checked_add(values[i]) {
            Some(next) => {
                sum = next;
            },
            None => {
                proof {
                    lemma_total_monotone(values@, i + 1);
                }
                return Err(SpatialAssemblyError::GaugeCertification(message.to_owned()));
            },
        }
        i = i + 1;
    }
    proof {
        assert(values@.take(values@.len() as int) =~= values@);
    }
    Ok(sum)
}

/// An `InvalidField` rejection.
pub fn invalid_field<T>(field: &'static str, reason: SpatialFieldReason) -> (result: Result<T, SpatialAssemblyError>)
    ensures
        result == Err::<T, _>(SpatialAssemblyError::InvalidField { field, reason }),
{
    Err(SpatialAssemblyError::InvalidField { field, reason })
}

/// An independent-validation rejection.
pub fn independent<T>(message: String) -> (result: Result<T, SpatialAssemblyError>)
    ensures
        result == Err::<T, _>(SpatialAssemblyError::IndependentValidation(message)),
{
    Err(SpatialAssemblyError::IndependentValidation(message))
}


/// Sort key of a spatial body identity: namespace first, then ordinal.
pub open spec fn body_key(body: SpatialBodyId) -> u128 {
    (body.namespace as int * 0x1_0000_0000_0000_0000 + body.ordinal) as u128
}

pub(crate) proof fn lemma_body_key_injective(a: SpatialBodyId, b: SpatialBodyId)
    ensures
        body_key(a) == body_key(b) <==> a == b,
        body_key(a) < body_key(b) <==> (a.namespace < b.namespace || (a.namespace == b.namespace && a.ordinal < b.ordinal)),
{
    assert(a.namespace as int * 0x1_0000_0000_0000_0000 + a.ordinal < 0x1_0000_0000_0000_0000_0000_0000_0000_0000) by (nonlinear_arith)
        requires a.namespace < 0x1_0000_0000_0000_0000, a.ordinal < 0x1_0000_0000_0000_0000;
    assert(b.namespace as int * 0x1_0000_0000_0000_0000 + b.ordinal < 0x1_0000_0000_0000_0000_0000_0000_0000_0000) by (nonlinear_arith)
        requires b.namespace < 0x1_0000_0000_0000_0000, b.ordinal < 0x1_0000_0000_0000_0000;
    if a.namespace < b.namespace {
        assert(a.namespace as int * 0x1_0000_0000_0000_0000 + a.ordinal < b.namespace as int * 0x1_0000_0000_0000_0000 + b.ordinal) by (nonlinear_arith)
            requires a.namespace < b.namespace, a.ordinal < 0x1_0000_0000_0000_0000;
    } else if b.namespace < a.namespace {
        assert(b.namespace as int * 0x1_0000_0000_0000_0000 + b.ordinal < a.namespace as int * 0x1_0000_0000_0000_0000 + a.ordinal) by (nonlinear_arith)
            requires b.namespace < a.namespace, b.ordinal < 0x1_0000_0000_0000_0000;
    }
}

/// Sort key of a spatial body identity.
pub(crate) fn body_key_of(body: SpatialBodyId) -> (key: u128)
    ensures
        key == body_key(body),
{
    proof {
        lemma_body_key_injective(body, body);
    }
    body.namespace as u128 * 0x1_0000_0000_0000_0000 + body.ordinal as u128
}

/// Sort keys of bodies, in order.
pub open spec fn body_keys(bodies: Seq<SpatialBodyId>) -> Seq<u128> {
    bodies.map_values(|b: SpatialBodyId| body_key(b))
}

/// The bodies one source or monitor touches, ascending by identity.
#[derive(Clone, Debug, PartialEq, Eq)]
pub struct SpatialIncidence<Id> {
    pub id: Id,
    pub bodies: Vec<SpatialBodyId>,
    pub ground: bool,
}

/// One certified physical component: its bodies in ascending order and the
/// sources, monitors and ground sources attributed to it by least incident body.
#[derive(Clone, Debug, PartialEq, Eq)]
pub struct CertifiedSpatialComponent {
    pub bodies: Vec<SpatialBodyId>,
    pub sources: Vec<SpatialSourceId>,
    pub mode_monitors: Vec<SpatialModeMonitorId>,
    pub physical_ground_sources: Vec<SpatialSourceId>,
}

/// The incidence lists of sources then monitors, as positions in `bodies`.
pub open spec fn incidence_links(
    bodies: Seq<SpatialBodyId>,
    sources: Seq<SpatialIncidence<SpatialSourceId>>,
    monitors: Seq<SpatialIncidence<SpatialModeMonitorId>>,
) -> Seq<Seq<usize>> {
    sources.map_values(|i: SpatialIncidence<SpatialSourceId>| i.bodies@.map_values(|b: SpatialBodyId| position_of_body(bodies, b) as usize))
        + monitors.map_values(|i: SpatialIncidence<SpatialModeMonitorId>| i.bodies@.map_values(|b: SpatialBodyId| position_of_body(bodies, b) as usize))
}

/// Position of the first occurrence of `body`.
pub open spec fn position_of_body(bodies: Seq<SpatialBodyId>, body: SpatialBodyId) -> int
    decreases bodies.len(),
{
    if bodies.len() == 0 {
        0
    } else if bodies[0] == body {
        0
    } else {
        1 + position_of_body(bodies.drop_first(), body)
    }
}

/// The first incident body, over sources then monitors in order, that is not one of `bodies`.
pub open spec fn first_unknown_body<Id>(bodies: Seq<SpatialBodyId>, incidences: Seq<SpatialIncidence<Id>>) -> Option<SpatialBodyId>
    decreases incidences.len(),
{
    if incidences.len() == 0 {
        None
    } else {
        let unknown = first_missing(bodies, incidences[0].bodies@);
        if unknown is Some {
            unknown
        } else {
            first_unknown_body(bodies, incidences.drop_first())
        }
    }
}

/// The first member of `wanted` that is not one of `bodies`.
pub open spec fn first_missing(bodies: Seq<SpatialBodyId>, wanted: Seq<SpatialBodyId>) -> Option<SpatialBodyId>
    decreases wanted.len(),
{
    if wanted.len() == 0 {
        None
    } else if !bodies.contains(wanted[0]) {
        Some(wanted[0])
    } else {
        first_missing(bodies, wanted.drop_first())
    }
}

/// Least incident body key of each incidence.
pub open spec fn first_keys<Id>(incidences: Seq<SpatialIncidence<Id>>) -> Seq<u128> {
    incidences.map_values(|i: SpatialIncidence<Id>| body_key(i.bodies@[0]))
}

/// Identities of the incidences, in order.
pub open spec fn incidence_ids<Id>(incidences: Seq<SpatialIncidence<Id>>) -> Seq<Id> {
    incidences.map_values(|i: SpatialIncidence<Id>| i.id)
}

/// Ground flags of the incidences, in order.
pub open spec fn ground_flags<Id>(incidences: Seq<SpatialIncidence<Id>>) -> Seq<bool> {
    incidences.map_values(|i: SpatialIncidence<Id>| i.ground)
}

/// The components exactly partition the bodies into classes of source and
/// monitor connectivity, ascending inside and ordered by least body, with the
/// sources, ground sources and monitors attributed by least incident body.
pub open spec fn certifies_spatial_components(
    bodies: Seq<SpatialBodyId>,
    sources: Seq<SpatialIncidence<SpatialSourceId>>,
    monitors: Seq<SpatialIncidence<SpatialModeMonitorId>>,
    components: Seq<CertifiedSpatialComponent>,
) -> bool {
    let ids = body_keys(bodies);
    let groups = components.map_values(|c: CertifiedSpatialComponent| body_keys(c.bodies@));
    &&& forall|c: int|
        0 <= c < groups.len() ==> #[trigger] groups[c].len() > 0 && strictly_increasing(groups[c])
    &&& forall|c: int, d: int| 0 <= c < d < groups.len() ==> #[trigger] groups[c][0] < #[trigger] groups[d][0]
    &&& forall|c: int, m: int|
        0 <= c < groups.len() && 0 <= m < groups[c].len() ==> ids.contains(#[trigger] groups[c][m])
    &&& forall|i: int| 0 <= i < ids.len() ==> in_some_group(groups, #[trigger] ids[i])
    &&& forall|c: int, m: int, d: int, l: int, i: int, j: int|
        0 <= c < groups.len() && 0 <= m < groups[c].len() && 0 <= d < groups.len() && 0 <= l
            < groups[d].len() && 0 <= i < ids.len() && 0 <= j < ids.len() && #[trigger] groups[c][m]
            == #[trigger] ids[i] && #[trigger] groups[d][l] == #[trigger] ids[j] ==> (c == d
            <==> connected(incidence_links(bodies, sources, monitors), ids.len(), i, j))
    &&& forall|c: int|
        0 <= c < components.len() ==> {
            &&& (#[trigger] components[c]).sources@ == select_in_group(incidence_ids(sources), first_keys(sources), Seq::new(sources.len(), |k: int| true), groups[c])
            &&& components[c].physical_ground_sources@ == select_in_group(incidence_ids(sources), first_keys(sources), ground_flags(sources), groups[c])
            &&& components[c].mode_monitors@ == select_in_group(incidence_ids(monitors), first_keys(monitors), Seq::new(monitors.len(), |k: int| true), groups[c])
        }
}


/// Positions of the listed bodies, or the first one that is not among `bodies`.
fn incidence_positions(bodies: &Vec<SpatialBodyId>, wanted: &Vec<SpatialBodyId>) -> (result: Result<Vec<usize>, SpatialBodyId>)
    ensures
        match first_missing(bodies@, wanted@) {
            Some(b) => result == Err::<Vec<usize>, _>(b),
            None => result matches Ok(positions) && positions@ == wanted@.map_values(|b: SpatialBodyId| position_of_body(bodies@, b) as usize)
                && forall|m: int| 0 <= m < positions@.len() ==> #[trigger] positions@[m] < bodies@.len(),
        },
{
    let mut positions: Vec<usize> = Vec::new();
    let mut m: usize = 0;
    proof {
        assert(wanted@.skip(0) =~= wanted@);
    }
    while m < wanted.len()
        invariant
            m <= wanted@.len(),
            first_missing(bodies@, wanted@) == first_missing(bodies@, wanted@.skip(m as int)),
            positions@ == wanted@.take(m as int).map_values(|b: SpatialBodyId| position_of_body(bodies@, b) as usize),
            forall|q: int| 0 <= q < positions@.len() ==> #[trigger] positions@[q] < bodies@.len(),
        decreases wanted@.len() - m,
    {
        let b = wanted[m];
        proof {
            assert(wanted@.skip(m as int)[0] == b);
            assert(wanted@.skip(m as int).drop_first() =~= wanted@.skip(m + 1));
            assert(bodies@.skip(0) =~= bodies@);
        }
        let mut j: usize = 0;
        while j < bodies.len() && bodies[j] != b
            invariant
                j <= bodies@.len(),
                forall|q: int| 0 <= q < j ==> bodies@[q] != b,
                position_of_body(bodies@, b) == j + position_of_body(bodies@.skip(j as int), b),
            decreases bodies@.len() - j,
        {
            proof {
                assert(bodies@.skip(j as int)[0] == bodies@[j as int]);
                assert(bodies@.skip(j as int).drop_first() =~= bodies@.skip(j + 1));
            }
            j = j + 1;
        }
        if j == bodies.len() {
            proof {
                assert(!bodies@.contains(b)) by {
                    if bodies@.contains(b) {
                        let q = choose|q: int| 0 <= q < bodies@.len() && bodies@[q] == b;
                        assert(bodies@[q] != b);
                    }
                }
            }
            return Err(b);
        }
        proof {
            assert(bodies@.skip(j as int)[0] == b);
            assert(bodies@.contains(b));
            assert(wanted@.take(m + 1).map_values(|b: SpatialBodyId| position_of_body(bodies@, b) as usize)
                =~= wanted@.take(m as int).map_values(|b: SpatialBodyId| position_of_body(bodies@, b) as usize).push(j));
        }
        positions.push(j);
        m = m + 1;
    }
    proof {
        assert(wanted@.take(wanted@.len() as int) =~= wanted@);
    }
    Ok(positions)
}

/// Position of a listed key.
fn key_position(keys: &Vec<u128>, x: u128) -> (position: usize)
    requires
        keys@.contains(x),
    ensures
        position < keys@.len(),
        keys@[position as int] == x,
{
    let mut i: usize = 0;
    while i < keys.len()
        invariant
            i <= keys@.len(),
            keys@.contains(x),
            forall|k: int| 0 <= k < i ==> keys@[k] != x,
        decreases keys@.len() - i,
    {
        if keys[i] == x {
            return i;
        }
        i = i + 1;
    }
    proof {
        let k = choose|k: int| 0 <= k < keys@.len() && keys@[k] == x;
        assert(keys@[k] != x);
    }
    0
}

/// Certifies the physical components of an assembly from the incidence of its
/// sources and mode monitors: bodies joined by a chain of sources or monitors
/// form one component; each source and monitor is attributed to the component
/// of its first listed body. An incident body that is not an assembly body is
/// rejected, the first one met in source-then-monitor order.
pub fn certified_components(
    bodies: &Vec<SpatialBodyId>,
    sources: &Vec<SpatialIncidence<SpatialSourceId>>,
    monitors: &Vec<SpatialIncidence<SpatialModeMonitorId>>,
) -> (result: Result<Vec<CertifiedSpatialComponent>, SpatialAssemblyError>)
    requires
        bodies@.no_duplicates(),
        forall|k: int| 0 <= k < sources@.len() ==> (#[trigger] sources@[k]).bodies@.len() > 0,
        forall|k: int| 0 <= k < monitors@.len() ==> (#[trigger] monitors@[k]).bodies@.len() > 0,
    ensures
        first_unknown_body(bodies@, sources@) matches Some(b) ==> result == Err::<Vec<CertifiedSpatialComponent>, _>(SpatialAssemblyError::UnknownBody(b)),
        first_unknown_body(bodies@, sources@) is None ==> (first_unknown_body(bodies@, monitors@) matches Some(b) ==> result == Err::<Vec<CertifiedSpatialComponent>, _>(SpatialAssemblyError::UnknownBody(b))),
        first_unknown_body(bodies@, sources@) is None && first_unknown_body(bodies@, monitors@) is None ==> (result matches Ok(components)
            && certifies_spatial_components(bodies@, sources@, monitors@, components@)),
{
    let n = bodies.len();
    let mut keys: Vec<u128> = Vec::new();
    let mut i: usize = 0;
    while i < n
        invariant
            n == bodies@.len(),
            i <= n,
            keys@ == body_keys(bodies@.take(i as int)),
        decreases n - i,
    {
        let key = body_key_of(bodies[i]);
        proof {
            assert(body_keys(bodies@.take(i + 1)) =~= body_keys(bodies@.take(i as int)).push(key));
        }
        keys.push(key);
        i = i + 1;
    }
    proof {
        assert(bodies@.take(n as int) =~= bodies@);
        assert forall|a: int, b: int| 0 <= a < n && 0 <= b < n && a != b implies keys@[a] != keys@[b] by {
            lemma_body_key_injective(bodies@[a], bodies@[b]);
        }
    }
    let ghost links_spec = incidence_links(bodies@, sources@, monitors@);
    let mut links: Vec<Vec<usize>> = Vec::new();
    let mut source_ids: Vec<SpatialSourceId> = Vec::new();
    let mut source_firsts: Vec<u128> = Vec::new();
    let mut source_grounds: Vec<bool> = Vec::new();
    let mut source_trues: Vec<bool> = Vec::new();
    let mut k: usize = 0;
    proof {
        assert(sources@.skip(0) =~= sources@);
    }
    while k < sources.len()
        invariant
            n == bodies@.len(),
            k <= sources@.len(),
            forall|q: int| 0 <= q < sources@.len() ==> (#[trigger] sources@[q]).bodies@.len() > 0,
            first_unknown_body(bodies@, sources@) == first_unknown_body(bodies@, sources@.skip(k as int)),
            link_view(links@) == links_spec.take(k as int),
            links_in_range(link_view(links@), n as nat),
            links_spec == incidence_links(bodies@, sources@, monitors@),
            source_ids@ == incidence_ids(sources@).take(k as int),
            source_firsts@ == first_keys(sources@).take(k as int),
            source_grounds@ == ground_flags(sources@).take(k as int),
            source_trues@ == Seq::new(k as nat, |q: int| true),
        decreases sources@.len() - k,
    {
        proof {
            assert(sources@.skip(k as int)[0] == sources@[k as int]);
            assert(sources@.skip(k as int).drop_first() =~= sources@.skip(k + 1));
        }
        let incidence = &sources[k];
        let positions = match incidence_positions(bodies, &incidence.bodies) {
            Ok(positions) => positions,
            Err(b) => {
                return Err(SpatialAssemblyError::UnknownBody(b));
            },
        };
        let first = body_key_of(incidence.bodies[0]);
        let ghost old_links = links@;
        links.push(positions);
        source_ids.push(incidence.id);
        source_firsts.push(first);
        source_grounds.push(incidence.ground);
        source_trues.push(true);
        proof {
            assert(link_view(links@) =~= link_view(old_links).push(positions@));
            assert(links_spec[k as int] == positions@);
            assert(link_view(links@) =~= links_spec.take(k + 1));
            assert(source_ids@ =~= incidence_ids(sources@).take(k + 1));
            assert(source_firsts@ =~= first_keys(sources@).take(k + 1));
            assert(source_grounds@ =~= ground_flags(sources@).take(k + 1));
            assert(source_trues@ =~= Seq::new((k + 1) as nat, |q: int| true));
            assert forall|t: int, m: int| 0 <= t < link_view(links@).len() && 0 <= m < link_view(links@)[t].len() implies #[trigger] link_view(links@)[t][m] < n as nat by {
                if t < k {
                    assert(link_view(links@)[t] == link_view(old_links)[t]);
                }
            }
        }
        k = k + 1;
    }
    let ns = sources.len();
    let mut monitor_ids: Vec<SpatialModeMonitorId> = Vec::new();
    let mut monitor_firsts: Vec<u128> = Vec::new();
    let mut monitor_trues: Vec<bool> = Vec::new();
    let mut k: usize = 0;
    proof {
        assert(monitors@.skip(0) =~= monitors@);
    }
    while k < monitors.len()
        invariant
            n == bodies@.len(),
            ns == sources@.len(),
            k <= monitors@.len(),
            forall|q: int| 0 <= q < monitors@.len() ==> (#[trigger] monitors@[q]).bodies@.len() > 0,
            first_unknown_body(bodies@, sources@) is None,
            first_unknown_body(bodies@, monitors@) == first_unknown_body(bodies@, monitors@.skip(k as int)),
            link_view(links@) == links_spec.take(ns + k),
            links_in_range(link_view(links@), n as nat),
            links_spec == incidence_links(bodies@, sources@, monitors@),
            monitor_ids@ == incidence_ids(monitors@).take(k as int),
            monitor_firsts@ == first_keys(monitors@).take(k as int),
            monitor_trues@ == Seq::new(k as nat, |q: int| true),
        decreases monitors@.len() - k,
    {
        proof {
            assert(monitors@.skip(k as int)[0] == monitors@[k as int]);
            assert(monitors@.skip(k as int).drop_first() =~= monitors@.skip(k + 1));
        }
        let incidence = &monitors[k];
        let positions = match incidence_positions(bodies, &incidence.bodies) {
            Ok(positions) => positions,
            Err(b) => {
                return Err(SpatialAssemblyError::UnknownBody(b));
            },
        };
        let first = body_key_of(incidence.bodies[0]);
        let ghost old_links = links@;
        links.push(positions);
        monitor_ids.push(incidence.id);
        monitor_firsts.push(first);
        monitor_trues.push(true);
        proof {
            assert(link_view(links@) =~= link_view(old_links).push(positions@));
            assert(links_spec[ns + k] == positions@);
            assert(link_view(links@) =~= links_spec.take(ns + k + 1));
            assert(monitor_ids@ =~= incidence_ids(monitors@).take(k + 1));
            assert(monitor_firsts@ =~= first_keys(monitors@).take(k + 1));
            assert(monitor_trues@ =~= Seq::new((k + 1) as nat, |q: int| true));
            assert forall|t: int, m: int| 0 <= t < link_view(links@).len() && 0 <= m < link_view(links@)[t].len() implies #[trigger] link_view(links@)[t][m] < n as nat by {
                if t < ns + k {
                    assert(link_view(links@)[t] == link_view(old_links)[t]);
                }
            }
        }
        k = k + 1;
    }
    proof {
        assert(links_spec.take(ns + monitors@.len()) =~= links_spec);
        assert(incidence_ids(sources@).take(ns as int) =~= incidence_ids(sources@));
        assert(first_keys(sources@).take(ns as int) =~= first_keys(sources@));
        assert(ground_flags(sources@).take(ns as int) =~= ground_flags(sources@));
        assert(incidence_ids(monitors@).take(monitors@.len() as int) =~= incidence_ids(monitors@));
        assert(first_keys(monitors@).take(monitors@.len() as int) =~= first_keys(monitors@));
    }
    let roots = link_roots(n, &links);
    let groups = group_by_root(&keys, &roots);
    let mut components: Vec<CertifiedSpatialComponent> = Vec::new();
    let mut c: usize = 0;
    while c < groups.len()
        invariant
            c <= groups@.len(),
            components@.len() == c,
            keys@ == body_keys(bodies@),
            n == bodies@.len(),
            is_root_grouping(keys@, roots@, groups_view(groups@)),
            source_ids@ == incidence_ids(sources@),
            source_firsts@ == first_keys(sources@),
            source_grounds@ == ground_flags(sources@),
            source_trues@ == Seq::new(ns as nat, |q: int| true),
            ns == sources@.len(),
            monitor_ids@ == incidence_ids(monitors@),
            monitor_firsts@ == first_keys(monitors@),
            monitor_trues@ == Seq::new(monitors@.len(), |q: int| true),
            forall|e: int| 0 <= e < c ==> body_keys((#[trigger] components@[e]).bodies@) == groups@[e]@,
            forall|e: int| 0 <= e < c ==> {
                &&& (#[trigger] components@[e]).sources@ == select_in_group(incidence_ids(sources@), first_keys(sources@), Seq::new(sources@.len(), |k: int| true), groups@[e]@)
                &&& components@[e].physical_ground_sources@ == select_in_group(incidence_ids(sources@), first_keys(sources@), ground_flags(sources@), groups@[e]@)
                &&& components@[e].mode_monitors@ == select_in_group(incidence_ids(monitors@), first_keys(monitors@), Seq::new(monitors@.len(), |k: int| true), groups@[e]@)
            },
        decreases groups@.len() - c,
    {
        let group = &groups[c];
        proof {
            assert forall|q: int| 0 <= q < group@.len() implies keys@.contains(#[trigger] group@[q]) by {
                assert(groups_view(groups@)[c as int][q] == group@[q]);
            }
        }
        let mut members: Vec<SpatialBodyId> = Vec::new();
        let mut m: usize = 0;
        while m < group.len()
            invariant
                m <= group@.len(),
                keys@ == body_keys(bodies@),
                n == bodies@.len(),
                forall|q: int| 0 <= q < group@.len() ==> keys@.contains(#[trigger] group@[q]),
                members@.len() == m,
                body_keys(members@) == group@.take(m as int),
            decreases group@.len() - m,
        {
            let j = key_position(&keys, group[m]);
            let ghost before = members@;
            members.push(bodies[j]);
            proof {
                let mapped = body_keys(members@);
                assert forall|q: int| 0 <= q < m + 1 implies #[trigger] mapped[q] == group@.take(m + 1)[q] by {
                    if q < m {
                        assert(members@[q] == before[q]);
                        assert(body_keys(before)[q] == group@.take(m as int)[q]);
                    } else {
                        assert(keys@[j as int] == body_key(bodies@[j as int]));
                    }
                }
                assert(mapped =~= group@.take(m + 1));
            }
            m = m + 1;
        }
        proof {
            assert(group@.take(group@.len() as int) =~= group@);
        }
        let member_sources = select_sources_in_group(&source_ids, &source_firsts, &source_trues, group);
        let ground_sources = select_sources_in_group(&source_ids, &source_firsts, &source_grounds, group);
        let member_monitors = select_sources_in_group(&monitor_ids, &monitor_firsts, &monitor_trues, group);
        components.push(CertifiedSpatialComponent {
            bodies: members,
            sources: member_sources,
            mode_monitors: member_monitors,
            physical_ground_sources: ground_sources,
        });
        c = c + 1;
    }
    proof {
        let gv = groups_view(groups@);
        let cv = components@.map_values(|c: CertifiedSpatialComponent| body_keys(c.bodies@));
        assert(cv =~= gv);
        assert forall|c: int, m: int, d: int, l: int, i: int, j: int|
            0 <= c < cv.len() && 0 <= m < cv[c].len() && 0 <= d < cv.len() && 0 <= l
                < cv[d].len() && 0 <= i < keys@.len() && 0 <= j < keys@.len() && #[trigger] cv[c][m]
                == #[trigger] keys@[i] && #[trigger] cv[d][l] == #[trigger] keys@[j] implies (c == d
                <==> connected(incidence_links(bodies@, sources@, monitors@), keys@.len(), i, j)) by {
            assert(gv[c][m] == keys@[i] && gv[d][l] == keys@[j]);
            assert(roots@[i] == roots@[j] <==> connected(link_view(links@), n as nat, i, j));
        }
        assert forall|c: int| 0 <= c < components@.len() implies {
            &&& (#[trigger] components@[c]).sources@ == select_in_group(incidence_ids(sources@), first_keys(sources@), Seq::new(sources@.len(), |k: int| true), cv[c])
            &&& components@[c].physical_ground_sources@ == select_in_group(incidence_ids(sources@), first_keys(sources@), ground_flags(sources@), cv[c])
            &&& components@[c].mode_monitors@ == select_in_group(incidence_ids(monitors@), first_keys(monitors@), Seq::new(monitors@.len(), |k: int| true), cv[c])
        } by {
            assert(cv[c] == groups@[c]@);
        }
    }
    Ok(components)
}


/// The body groups (as keys) of the components.
pub open spec fn spatial_groups(components: Seq<CertifiedSpatialComponent>) -> Seq<Seq<u128>> {
    components.map_values(|c: CertifiedSpatialComponent| body_keys(c.bodies@))
}

/// Which components hold a physical ground source.
pub open spec fn spatial_grounded(components: Seq<CertifiedSpatialComponent>) -> Seq<bool> {
    components.map_values(|c: CertifiedSpatialComponent| c.physical_ground_sources@.len() > 0)
}

/// The explicit reference keys of a policy, if it has them.
pub open spec fn spatial_explicit(policy: SpatialGaugePolicy) -> Option<Seq<u128>> {
    match policy {
        SpatialGaugePolicy::LowestPersistentBody => None,
        SpatialGaugePolicy::ExplicitReferences { bodies } => Some(body_keys(bodies@)),
    }
}

/// Keys of optional body references.
pub open spec fn reference_keys(references: Seq<Option<SpatialBodyId>>) -> Seq<Option<u128>> {
    references.map_values(|r: Option<SpatialBodyId>| match r {
        Some(b) => Some(body_key(b)),
        None => None,
    })
}

/// Whether `error` is the spatial rejection for a gauge rule violation.
pub open spec fn is_spatial_gauge_error(error: SpatialAssemblyError, violation: GaugeRuleViolation) -> bool {
    match violation {
        GaugeRuleViolation::DuplicateReferences => error == SpatialAssemblyError::InvalidGaugePolicy(SpatialGaugeViolation::DuplicateReferences),
        GaugeRuleViolation::UnknownReference(k) => error matches SpatialAssemblyError::UnknownBody(b) && body_key(b) == k,
        GaugeRuleViolation::FloatingComponentReferences(k) => error matches SpatialAssemblyError::InvalidGaugePolicy(SpatialGaugeViolation::FloatingComponentReferences(b)) && body_key(b) == k,
        GaugeRuleViolation::GroundedComponentReference(k) => error matches SpatialAssemblyError::InvalidGaugePolicy(SpatialGaugeViolation::GroundedComponentReference(b)) && body_key(b) == k,
    }
}

/// Keys of bodies, in order.
fn body_key_list(bodies: &Vec<SpatialBodyId>) -> (keys: Vec<u128>)
    ensures
        keys@ == body_keys(bodies@),
{
    let mut keys: Vec<u128> = Vec::new();
    let mut i: usize = 0;
    while i < bodies.len()
        invariant
            i <= bodies@.len(),
            keys@ == body_keys(bodies@.take(i as int)),
        decreases bodies@.len() - i,
    {
        let key = body_key_of(bodies[i]);
        proof {
            assert(body_keys(bodies@.take(i + 1)) =~= body_keys(bodies@.take(i as int)).push(key));
        }
        keys.push(key);
        i = i + 1;
    }
    proof {
        assert(bodies@.take(bodies@.len() as int) =~= bodies@);
    }
    keys
}

/// The body of `bodies` whose key is `key`, when `key` is one of their keys.
fn body_with_key(bodies: &Vec<SpatialBodyId>, key: u128) -> (body: SpatialBodyId)
    requires
        body_keys(bodies@).contains(key),
    ensures
        body_key(body) == key,
{
    let keys = body_key_list(bodies);
    let j = key_position(&keys, key);
    proof {
        assert(keys@[j as int] == body_key(bodies@[j as int]));
    }
    bodies[j]
}

/// The least body of the first component whose least key is `key`.
fn first_body_with_key(components: &Vec<CertifiedSpatialComponent>, key: u128, Ghost(groups): Ghost<Seq<Seq<u128>>>) -> (body: SpatialBodyId)
    requires
        groups == spatial_groups(components@),
        exists|c: int| 0 <= c < groups.len() && groups[c].len() > 0 && #[trigger] groups[c][0] == key,
    ensures
        body_key(body) == key,
{
    let mut c: usize = 0;
    while c < components.len()
        invariant
            c <= components@.len(),
            groups == spatial_groups(components@),
            forall|e: int| 0 <= e < c ==> !(groups[e].len() > 0 && #[trigger] groups[e][0] == key),
            exists|e: int| 0 <= e < groups.len() && groups[e].len() > 0 && #[trigger] groups[e][0] == key,
        decreases components@.len() - c,
    {
        if components[c].bodies.len() > 0 {
            let first = components[c].bodies[0];
            proof {
                assert(groups[c as int] == body_keys(components@[c as int].bodies@));
            }
            if body_key_of(first) == key {
                return first;
            }
        }
        proof {
            assert(groups[c as int] == body_keys(components@[c as int].bodies@));
        }
        c = c + 1;
    }
    proof {
        let e = choose|e: int| 0 <= e < groups.len() && groups[e].len() > 0 && #[trigger] groups[e][0] == key;
        assert(!(groups[e].len() > 0 && groups[e][0] == key));
    }
    SpatialBodyId { namespace: 0, ordinal: 0 }
}

/// Chooses the numerical gauge reference of every component under the policy;
/// an explicit reference to no body of the assembly is an unknown body.
pub fn resolve_gauge_references(policy: &SpatialGaugePolicy, components: &Vec<CertifiedSpatialComponent>) -> (result: Result<Vec<Option<SpatialBodyId>>, SpatialAssemblyError>)
    requires
        forall|c: int| 0 <= c < components@.len() ==> (#[trigger] components@[c]).bodies@.len() > 0,
    ensures
        match reference_choices(spatial_grounded(components@), spatial_groups(components@), spatial_explicit(*policy)) {
            Ok(choices) => result matches Ok(references) && reference_keys(references@) == choices,
            Err(violation) => result matches Err(error) && is_spatial_gauge_error(error, violation),
        },
{
    let mut grounded: Vec<bool> = Vec::new();
    let mut groups: Vec<Vec<u128>> = Vec::new();
    let mut c: usize = 0;
    while c < components.len()
        invariant
            c <= components@.len(),
            forall|e: int| 0 <= e < components@.len() ==> (#[trigger] components@[e]).bodies@.len() > 0,
            grounded@ == spatial_grounded(components@).take(c as int),
            groups@.map_values(|g: Vec<u128>| g@) == spatial_groups(components@).take(c as int),
        decreases components@.len() - c,
    {
        grounded.push(components[c].physical_ground_sources.len() > 0);
        let keys = body_key_list(&components[c].bodies);
        let ghost before = groups@;
        groups.push(keys);
        proof {
            assert(grounded@ =~= spatial_grounded(components@).take(c + 1));
            assert(groups@.map_values(|g: Vec<u128>| g@) =~= before.map_values(|g: Vec<u128>| g@).push(keys@));
            assert(groups@.map_values(|g: Vec<u128>| g@) =~= spatial_groups(components@).take(c + 1));
        }
        c = c + 1;
    }
    proof {
        assert(spatial_grounded(components@).take(components@.len() as int) =~= spatial_grounded(components@));
        assert(spatial_groups(components@).take(components@.len() as int) =~= spatial_groups(components@));
        assert forall|e: int| 0 <= e < groups@.len() implies (#[trigger] groups@[e])@.len() > 0 by {
            assert(groups@.map_values(|g: Vec<u128>| g@)[e] == spatial_groups(components@)[e]);
        }
    }
    let gv = Ghost(groups@.map_values(|g: Vec<u128>| g@));
    match policy {
        SpatialGaugePolicy::LowestPersistentBody => {
            match resolve_reference_choices(&grounded, &groups, None) {
                Err(violation) => {
                    proof {
                        assert(false);
                    }
                    Err(SpatialAssemblyError::InvalidGaugePolicy(SpatialGaugeViolation::DuplicateReferences))
                },
                Ok(found) => {
                    let mut references: Vec<Option<SpatialBodyId>> = Vec::new();
                    let mut k: usize = 0;
                    while k < found.len()
                        invariant
                            k <= found@.len(),
                            found@.len() == components@.len(),
                            found@ == crate::gauge::lowest_choices(grounded@, gv@),
                            grounded@ == spatial_grounded(components@),
                            gv@ == spatial_groups(components@),
                            forall|e: int| 0 <= e < components@.len() ==> (#[trigger] components@[e]).bodies@.len() > 0,
                            reference_keys(references@) == found@.take(k as int),
                        decreases found@.len() - k,
                    {
                        let reference = if components[k].physical_ground_sources.len() > 0 {
                            None
                        } else {
                            Some(components[k].bodies[0])
                        };
                        let ghost before = references@;
                        references.push(reference);
                        proof {
                            assert(reference_keys(references@) =~= reference_keys(before).push(found@[k as int]));
                            assert(found@.take(k + 1) =~= found@.take(k as int).push(found@[k as int]));
                        }
                        k = k + 1;
                    }
                    proof {
                        assert(found@.take(found@.len() as int) =~= found@);
                    }
                    Ok(references)
                },
            }
        },
        SpatialGaugePolicy::ExplicitReferences { bodies } => {
            let keys = body_key_list(bodies);
            match resolve_reference_choices(&grounded, &groups, Some(&keys)) {
                Err(violation) => {
                    proof {
                        let refs = body_keys(bodies@);
                        lemma_first_unlisted_is_listed(refs, gv@);
                        lemma_explicit_choices_shape(grounded@, gv@, refs);
                    }
                    match violation {
                        GaugeRuleViolation::DuplicateReferences => Err(SpatialAssemblyError::InvalidGaugePolicy(SpatialGaugeViolation::DuplicateReferences)),
                        GaugeRuleViolation::UnknownReference(k) => Err(SpatialAssemblyError::UnknownBody(body_with_key(bodies, k))),
                        GaugeRuleViolation::FloatingComponentReferences(k) => {
                            Err(SpatialAssemblyError::InvalidGaugePolicy(SpatialGaugeViolation::FloatingComponentReferences(first_body_with_key(components, k, Ghost(gv@)))))
                        },
                        GaugeRuleViolation::GroundedComponentReference(k) => {
                            Err(SpatialAssemblyError::InvalidGaugePolicy(SpatialGaugeViolation::GroundedComponentReference(first_body_with_key(components, k, Ghost(gv@)))))
                        },
                    }
                },
                Ok(found) => {
                    proof {
                        lemma_explicit_choices_shape(grounded@, gv@, keys@);
                    }
                    let mut references: Vec<Option<SpatialBodyId>> = Vec::new();
                    let mut k: usize = 0;
                    while k < found.len()
                        invariant
                            k <= found@.len(),
                            keys@ == body_keys(bodies@),
                            forall|q: int| 0 <= q < found@.len() ==> (#[trigger] found@[q] matches Some(x) ==> keys@.contains(x)),
                            reference_keys(references@) == found@.take(k as int),
                        decreases found@.len() - k,
                    {
                        let reference = match found[k] {
                            Some(x) => Some(body_with_key(bodies, x)),
                            None => None,
                        };
                        let ghost before = references@;
                        references.push(reference);
                        proof {
                            assert(reference_keys(references@) =~= reference_keys(before).push(found@[k as int]));
                            assert(found@.take(k + 1) =~= found@.take(k as int).push(found@[k as int]));
                        }
                        k = k + 1;
                    }
                    proof {
                        assert(found@.take(found@.len() as int) =~= found@);
                    }
                    Ok(references)
                },
            }
        },
    }
}

/// Certified spatial components are unique: two certifications of the same
/// bodies under the same source and monitor incidences have the same body
/// groups in the same order and attribute the same sources, physical ground
/// sources and mode monitors to each.
pub proof fn lemma_certified_spatial_components_unique(
    bodies: Seq<SpatialBodyId>,
    sources: Seq<SpatialIncidence<SpatialSourceId>>,
    monitors: Seq<SpatialIncidence<SpatialModeMonitorId>>,
    first: Seq<CertifiedSpatialComponent>,
    second: Seq<CertifiedSpatialComponent>,
)
    requires
        certifies_spatial_components(bodies, sources, monitors, first),
        certifies_spatial_components(bodies, sources, monitors, second),
    ensures
        spatial_groups(first) == spatial_groups(second),
        spatial_grounded(first) == spatial_grounded(second),
        first.len() == second.len(),
        forall|c: int| 0 <= c < first.len() ==> {
            &&& (#[trigger] first[c]).sources@ == second[c].sources@
            &&& first[c].physical_ground_sources@ == second[c].physical_ground_sources@
            &&& first[c].mode_monitors@ == second[c].mode_monitors@
        },
{
    let ids = body_keys(bodies);
    let links = incidence_links(bodies, sources, monitors);
    let related = |i: int, j: int| connected(links, ids.len(), i, j);
    assert(classes_by(ids, related, spatial_groups(first)));
    assert(classes_by(ids, related, spatial_groups(second)));
    lemma_classes_unique(ids, related, spatial_groups(first), spatial_groups(second));
    assert(first.len() == spatial_groups(first).len());
    assert(second.len() == spatial_groups(second).len());
    assert forall|c: int| 0 <= c < first.len() implies {
        &&& (#[trigger] first[c]).sources@ == second[c].sources@
        &&& first[c].physical_ground_sources@ == second[c].physical_ground_sources@
        &&& first[c].mode_monitors@ == second[c].mode_monitors@
    } by {
        assert(spatial_groups(first)[c] == spatial_groups(second)[c]);
    }
    assert(spatial_grounded(first) =~= spatial_grounded(second));
}

} // verus!
