//! Growing a valid spatial structure: every record a builder accepts keeps the
//! structure passing the discrete structural checks.

use vstd::prelude::*;
use crate::runtime_ids::{
    SpatialAxisFeatureId, SpatialBodyId, SpatialCoordinateId, SpatialFrameFeatureId, SpatialModeMonitorId,
    SpatialPlaneFeatureId, SpatialPointFeatureId, SpatialSourceId,
};
use crate::spatial::{
    body_key, lemma_body_key_injective, SpatialAssemblyError, SpatialCoordinate, SpatialCoordinateKind,
    SpatialModeMonitor, SpatialModeMonitorKind, CertifiedSpatialComponent, SpatialGaugePolicy,
};
use crate::spatial_builder::{
    body_added, coordinate_added, exhausted, feature_error, monitor_added, monitor_kind_error, point_feature_added,
    frame_feature_added, axis_feature_added, plane_feature_added, shape_error, source_added, already_grounded,
    hinge_winding_error, translation_kind_error, driver_target_error,
};
use crate::spatial_structure::{gauge_verdict, SpatialLocalGeometry, SpatialSourceNumbers};
use crate::spatial_structure::{
    axis_pair, body_listed, coordinate_kind, coordinate_parent_error, feature_body, frame_pair, hinge_bodies,
    body_check, body_checks, coordinate_check, coordinate_checks, feature_check, feature_checks, label_error, SpatialValueRejection, grounded_body, endpoint_error, value_error, identity_step, identity_walk,
    lemma_structure_valid, lemma_walk_append, lemma_walk_ok, lemma_walk_split, monitor_check, monitor_checks, monitor_error, source_check,
    source_checks, structure_checks, structure_error, driver_conflict, driver_conflict_from, targets_conflict, plane_pair, point_pair, source_error, source_shape,
    translation_bodies, unknown_point_error, IdentityCheck,
    SpatialBodyRecord, SpatialFeatureRecord, SpatialSourceRecord, SpatialSourceShape, SpatialStructure,
};

verus! {

/// The ordinals of the checks, in order.
pub open spec fn check_ordinals(checks: Seq<IdentityCheck>) -> Seq<u64> {
    checks.map_values(|c: IdentityCheck| c.ordinal)
}

/// The check grounds the body with this key.
pub open spec fn grounds_key(check: IdentityCheck, key: u128) -> bool {
    match check.ground {
        Some(body) => body_key(body) == key,
        None => false,
    }
}

proof fn lemma_walk_records(seen: Set<u64>, grounded: Set<u128>, checks: Seq<IdentityCheck>)
    requires
        identity_walk(seen, grounded, checks) is Ok,
    ensures
        forall|x: u64| #[trigger] identity_walk(seen, grounded, checks)->Ok_0.0.contains(x)
            <==> (seen.contains(x) || check_ordinals(checks).contains(x)),
        forall|key: u128| #[trigger] identity_walk(seen, grounded, checks)->Ok_0.1.contains(key)
            <==> (grounded.contains(key) || exists|k: int| 0 <= k < checks.len() && grounds_key(#[trigger] checks[k], key)),
    decreases checks.len(),
{
    if checks.len() > 0 {
        let (next_seen, next_grounded) = identity_step(seen, grounded, checks[0])->Ok_0;
        let rest = checks.drop_first();
        lemma_walk_records(next_seen, next_grounded, rest);
        let last = identity_walk(seen, grounded, checks)->Ok_0;
        assert(last == identity_walk(next_seen, next_grounded, rest)->Ok_0);
        assert(next_seen == seen.insert(checks[0].ordinal));
        assert forall|x: u64| #[trigger] last.0.contains(x) <==> (seen.contains(x) || check_ordinals(checks).contains(x)) by {
            if x == checks[0].ordinal {
                assert(check_ordinals(checks)[0] == x);
            }
            if check_ordinals(rest).contains(x) {
                let k = choose|k: int| 0 <= k < check_ordinals(rest).len() && check_ordinals(rest)[k] == x;
                assert(check_ordinals(checks)[k + 1] == x);
            }
            if check_ordinals(checks).contains(x) {
                let k = choose|k: int| 0 <= k < check_ordinals(checks).len() && check_ordinals(checks)[k] == x;
                if k > 0 {
                    assert(check_ordinals(rest)[k - 1] == x);
                }
            }
        }
        assert forall|key: u128| #[trigger] last.1.contains(key)
            <==> (grounded.contains(key) || exists|k: int| 0 <= k < checks.len() && grounds_key(#[trigger] checks[k], key)) by {
            if exists|k: int| 0 <= k < rest.len() && grounds_key(#[trigger] rest[k], key) {
                let k = choose|k: int| 0 <= k < rest.len() && grounds_key(#[trigger] rest[k], key);
                assert(checks[k + 1] == rest[k]);
            }
            if exists|k: int| 0 <= k < checks.len() && grounds_key(#[trigger] checks[k], key) {
                let k = choose|k: int| 0 <= k < checks.len() && grounds_key(#[trigger] checks[k], key);
                if k > 0 {
                    assert(rest[k - 1] == checks[k]);
                }
            }
        }
    }
}

/// Walking from one more recorded ordinal that none of the checks carries.
proof fn lemma_walk_frame(seen: Set<u64>, grounded: Set<u128>, checks: Seq<IdentityCheck>, ordinal: u64)
    requires
        identity_walk(seen, grounded, checks) is Ok,
        !check_ordinals(checks).contains(ordinal),
    ensures
        identity_walk(seen.insert(ordinal), grounded, checks) == Ok::<(Set<u64>, Set<u128>), SpatialAssemblyError>((
            identity_walk(seen, grounded, checks)->Ok_0.0.insert(ordinal),
            identity_walk(seen, grounded, checks)->Ok_0.1,
        )),
    decreases checks.len(),
{
    if checks.len() == 0 {
    } else {
        let (next_seen, next_grounded) = identity_step(seen, grounded, checks[0])->Ok_0;
        assert(check_ordinals(checks)[0] == checks[0].ordinal);
        assert(checks[0].ordinal != ordinal);
        assert(seen.insert(ordinal).insert(checks[0].ordinal) =~= next_seen.insert(ordinal));
        let rest = checks.drop_first();
        assert forall|k: int| 0 <= k < check_ordinals(rest).len() implies check_ordinals(rest)[k] != ordinal by {
            assert(check_ordinals(rest)[k] == check_ordinals(checks)[k + 1]);
        }
        lemma_walk_frame(next_seen, next_grounded, rest, ordinal);
    }
}

/// Checks with the same identities and grounds walk alike once both pass.
proof fn lemma_walk_alike(seen: Set<u64>, grounded: Set<u128>, first: Seq<IdentityCheck>, second: Seq<IdentityCheck>)
    requires
        identity_walk(seen, grounded, first) is Ok,
        first.len() == second.len(),
        forall|k: int| 0 <= k < first.len() ==> {
            &&& (#[trigger] second[k]).before is None
            &&& second[k].after is None
            &&& second[k].owned == first[k].owned
            &&& second[k].ordinal == first[k].ordinal
            &&& second[k].ground == first[k].ground
        },
    ensures
        identity_walk(seen, grounded, second) == identity_walk(seen, grounded, first),
    decreases first.len(),
{
    if first.len() > 0 {
        let (next_seen, next_grounded) = identity_step(seen, grounded, first[0])->Ok_0;
        assert(second[0].before is None);
        let rest1 = first.drop_first();
        let rest2 = second.drop_first();
        assert forall|k: int| 0 <= k < rest1.len() implies {
            &&& (#[trigger] rest2[k]).before is None
            &&& rest2[k].after is None
            &&& rest2[k].owned == rest1[k].owned
            &&& rest2[k].ordinal == rest1[k].ordinal
            &&& rest2[k].ground == rest1[k].ground
        } by {
            assert(rest2[k] == second[k + 1]);
            assert(rest1[k] == first[k + 1]);
        }
        lemma_walk_alike(next_seen, next_grounded, rest1, rest2);
    }
}

// ---------------------------------------------------------------------------
// Lookups only grow as records are appended.

/// Every list of `new` begins with the corresponding list of `old`.
pub open spec fn extends(old: SpatialStructure, new: SpatialStructure) -> bool {
    &&& new.namespace == old.namespace
    &&& old.bodies@.is_prefix_of(new.bodies@)
    &&& old.point_features@.is_prefix_of(new.point_features@)
    &&& old.frame_features@.is_prefix_of(new.frame_features@)
    &&& old.axis_features@.is_prefix_of(new.axis_features@)
    &&& old.plane_features@.is_prefix_of(new.plane_features@)
    &&& old.coordinates@.is_prefix_of(new.coordinates@)
    &&& old.mode_monitors@.is_prefix_of(new.mode_monitors@)
    &&& old.sources@.is_prefix_of(new.sources@)
}

proof fn lemma_body_listed_grows(old: Seq<SpatialBodyRecord>, new: Seq<SpatialBodyRecord>, id: SpatialBodyId)
    requires
        old.is_prefix_of(new),
        body_listed(old, id),
    ensures
        body_listed(new, id),
    decreases old.len(),
{
    assert(new[0] == old[0]);
    if old[0].id != id {
        assert(old.drop_first().is_prefix_of(new.drop_first())) by {
            assert forall|k: int| 0 <= k < old.drop_first().len() implies old.drop_first()[k] == new.drop_first()[k] by {
                assert(old[k + 1] == new[k + 1]);
            }
        }
        lemma_body_listed_grows(old.drop_first(), new.drop_first(), id);
    }
}

proof fn lemma_feature_body_grows<Id>(old: Seq<SpatialFeatureRecord<Id>>, new: Seq<SpatialFeatureRecord<Id>>, id: Id)
    requires
        old.is_prefix_of(new),
        feature_body(old, id) is Some,
    ensures
        feature_body(new, id) == feature_body(old, id),
    decreases old.len(),
{
    assert(new[0] == old[0]);
    if old[0].id != id {
        assert(old.drop_first().is_prefix_of(new.drop_first())) by {
            assert forall|k: int| 0 <= k < old.drop_first().len() implies old.drop_first()[k] == new.drop_first()[k] by {
                assert(old[k + 1] == new[k + 1]);
            }
        }
        lemma_feature_body_grows(old.drop_first(), new.drop_first(), id);
    }
}

proof fn lemma_source_shape_grows(old: Seq<SpatialSourceRecord>, new: Seq<SpatialSourceRecord>, id: SpatialSourceId)
    requires
        old.is_prefix_of(new),
        source_shape(old, id) is Some,
    ensures
        source_shape(new, id) == source_shape(old, id),
    decreases old.len(),
{
    assert(new[0] == old[0]);
    if old[0].id != id {
        assert(old.drop_first().is_prefix_of(new.drop_first())) by {
            assert forall|k: int| 0 <= k < old.drop_first().len() implies old.drop_first()[k] == new.drop_first()[k] by {
                assert(old[k + 1] == new[k + 1]);
            }
        }
        lemma_source_shape_grows(old.drop_first(), new.drop_first(), id);
    }
}

proof fn lemma_coordinate_kind_grows(old: Seq<SpatialCoordinate>, new: Seq<SpatialCoordinate>, id: SpatialCoordinateId)
    requires
        old.is_prefix_of(new),
        coordinate_kind(old, id) is Some,
    ensures
        coordinate_kind(new, id) == coordinate_kind(old, id),
    decreases old.len(),
{
    assert(new[0] == old[0]);
    if old[0].id != id {
        assert(old.drop_first().is_prefix_of(new.drop_first())) by {
            assert forall|k: int| 0 <= k < old.drop_first().len() implies old.drop_first()[k] == new.drop_first()[k] by {
                assert(old[k + 1] == new[k + 1]);
            }
        }
        lemma_coordinate_kind_grows(old.drop_first(), new.drop_first(), id);
    }
}

/// What the lookups of `old` find, those of `new` find alike.
proof fn lemma_lookups_grow(old: SpatialStructure, new: SpatialStructure)
    requires
        extends(old, new),
    ensures
        forall|id: SpatialBodyId| #[trigger] body_listed(old.bodies@, id) ==> body_listed(new.bodies@, id),
        forall|id: SpatialPointFeatureId| #[trigger] feature_body(old.point_features@, id) is Some
            ==> feature_body(new.point_features@, id) == feature_body(old.point_features@, id),
        forall|id: SpatialFrameFeatureId| #[trigger] feature_body(old.frame_features@, id) is Some
            ==> feature_body(new.frame_features@, id) == feature_body(old.frame_features@, id),
        forall|id: SpatialAxisFeatureId| #[trigger] feature_body(old.axis_features@, id) is Some
            ==> feature_body(new.axis_features@, id) == feature_body(old.axis_features@, id),
        forall|id: SpatialPlaneFeatureId| #[trigger] feature_body(old.plane_features@, id) is Some
            ==> feature_body(new.plane_features@, id) == feature_body(old.plane_features@, id),
        forall|id: SpatialSourceId| #[trigger] source_shape(old.sources@, id) is Some
            ==> source_shape(new.sources@, id) == source_shape(old.sources@, id),
        forall|id: SpatialCoordinateId| #[trigger] coordinate_kind(old.coordinates@, id) is Some
            ==> coordinate_kind(new.coordinates@, id) == coordinate_kind(old.coordinates@, id),
{
    assert forall|id: SpatialBodyId| #[trigger] body_listed(old.bodies@, id) implies body_listed(new.bodies@, id) by {
        lemma_body_listed_grows(old.bodies@, new.bodies@, id);
    }
    assert forall|id: SpatialPointFeatureId| #[trigger] feature_body(old.point_features@, id) is Some
        implies feature_body(new.point_features@, id) == feature_body(old.point_features@, id) by {
        lemma_feature_body_grows(old.point_features@, new.point_features@, id);
    }
    assert forall|id: SpatialFrameFeatureId| #[trigger] feature_body(old.frame_features@, id) is Some
        implies feature_body(new.frame_features@, id) == feature_body(old.frame_features@, id) by {
        lemma_feature_body_grows(old.frame_features@, new.frame_features@, id);
    }
    assert forall|id: SpatialAxisFeatureId| #[trigger] feature_body(old.axis_features@, id) is Some
        implies feature_body(new.axis_features@, id) == feature_body(old.axis_features@, id) by {
        lemma_feature_body_grows(old.axis_features@, new.axis_features@, id);
    }
    assert forall|id: SpatialPlaneFeatureId| #[trigger] feature_body(old.plane_features@, id) is Some
        implies feature_body(new.plane_features@, id) == feature_body(old.plane_features@, id) by {
        lemma_feature_body_grows(old.plane_features@, new.plane_features@, id);
    }
    assert forall|id: SpatialSourceId| #[trigger] source_shape(old.sources@, id) is Some
        implies source_shape(new.sources@, id) == source_shape(old.sources@, id) by {
        lemma_source_shape_grows(old.sources@, new.sources@, id);
    }
    assert forall|id: SpatialCoordinateId| #[trigger] coordinate_kind(old.coordinates@, id) is Some
        implies coordinate_kind(new.coordinates@, id) == coordinate_kind(old.coordinates@, id) by {
        lemma_coordinate_kind_grows(old.coordinates@, new.coordinates@, id);
    }
}

proof fn lemma_pairs_grow(old: SpatialStructure, new: SpatialStructure)
    requires
        extends(old, new),
    ensures
        forall|a: SpatialPointFeatureId, b: SpatialPointFeatureId| #[trigger] point_pair(old, a, b) is Ok ==> point_pair(new, a, b) == point_pair(old, a, b),
        forall|a: SpatialFrameFeatureId, b: SpatialFrameFeatureId| #[trigger] frame_pair(old, a, b) is Ok ==> frame_pair(new, a, b) == frame_pair(old, a, b),
        forall|a: SpatialAxisFeatureId, b: SpatialAxisFeatureId| #[trigger] axis_pair(old, a, b) is Ok ==> axis_pair(new, a, b) == axis_pair(old, a, b),
        forall|a: SpatialPlaneFeatureId, b: SpatialPlaneFeatureId| #[trigger] plane_pair(old, a, b) is Ok ==> plane_pair(new, a, b) == plane_pair(old, a, b),
{
    lemma_lookups_grow(old, new);
    assert forall|a: SpatialPointFeatureId, b: SpatialPointFeatureId| #[trigger] point_pair(old, a, b) is Ok implies point_pair(new, a, b) == point_pair(old, a, b) by {
        assert(feature_body(old.point_features@, a) is Some);
        assert(feature_body(old.point_features@, b) is Some);
    }
    assert forall|a: SpatialFrameFeatureId, b: SpatialFrameFeatureId| #[trigger] frame_pair(old, a, b) is Ok implies frame_pair(new, a, b) == frame_pair(old, a, b) by {
        assert(feature_body(old.frame_features@, a) is Some);
        assert(feature_body(old.frame_features@, b) is Some);
    }
    assert forall|a: SpatialAxisFeatureId, b: SpatialAxisFeatureId| #[trigger] axis_pair(old, a, b) is Ok implies axis_pair(new, a, b) == axis_pair(old, a, b) by {
        assert(feature_body(old.axis_features@, a) is Some);
        assert(feature_body(old.axis_features@, b) is Some);
    }
    assert forall|a: SpatialPlaneFeatureId, b: SpatialPlaneFeatureId| #[trigger] plane_pair(old, a, b) is Ok implies plane_pair(new, a, b) == plane_pair(old, a, b) by {
        assert(feature_body(old.plane_features@, a) is Some);
        assert(feature_body(old.plane_features@, b) is Some);
    }
}

proof fn lemma_resolutions_grow(old: SpatialStructure, new: SpatialStructure)
    requires
        extends(old, new),
    ensures
        forall|c: SpatialCoordinateId, kind: SpatialCoordinateKind| #[trigger] hinge_bodies(old, c, kind) is Ok ==> hinge_bodies(new, c, kind) == hinge_bodies(old, c, kind),
        forall|c: SpatialCoordinateId, kind: SpatialCoordinateKind| #[trigger] translation_bodies(old, c, kind) is Ok ==> translation_bodies(new, c, kind) == translation_bodies(old, c, kind),
        forall|kind: SpatialCoordinateKind| #[trigger] coordinate_parent_error(old, kind) is None ==> coordinate_parent_error(new, kind) is None,
{
    lemma_lookups_grow(old, new);
    lemma_pairs_grow(old, new);
    assert forall|c: SpatialCoordinateId, kind: SpatialCoordinateKind| #[trigger] hinge_bodies(old, c, kind) is Ok implies hinge_bodies(new, c, kind) == hinge_bodies(old, c, kind) by {
        match kind {
            SpatialCoordinateKind::Hinge { parent, .. } => {
                assert(source_shape(old.sources@, parent) is Some);
            },
            _ => {},
        }
    }
    assert forall|c: SpatialCoordinateId, kind: SpatialCoordinateKind| #[trigger] translation_bodies(old, c, kind) is Ok implies translation_bodies(new, c, kind) == translation_bodies(old, c, kind) by {
        match kind {
            SpatialCoordinateKind::AxialTranslation { parent } => {
                assert(source_shape(old.sources@, parent) is Some);
            },
            SpatialCoordinateKind::PlanarTranslation { parent, .. } => {
                assert(source_shape(old.sources@, parent) is Some);
            },
            _ => {},
        }
    }
    assert forall|kind: SpatialCoordinateKind| #[trigger] coordinate_parent_error(old, kind) is None implies coordinate_parent_error(new, kind) is None by {
        match kind {
            SpatialCoordinateKind::Hinge { parent, .. } => {
                assert(source_shape(old.sources@, parent) is Some);
            },
            SpatialCoordinateKind::AxialTranslation { parent } => {
                assert(source_shape(old.sources@, parent) is Some);
            },
            SpatialCoordinateKind::PlanarTranslation { parent, .. } => {
                assert(source_shape(old.sources@, parent) is Some);
            },
        }
    }
}

proof fn lemma_unknown_points_grow(old: SpatialStructure, new: SpatialStructure, points: Seq<SpatialPointFeatureId>)
    requires
        extends(old, new),
        unknown_point_error(old, points) is None,
    ensures
        unknown_point_error(new, points) is None,
    decreases points.len(),
{
    if points.len() > 0 {
        lemma_lookups_grow(old, new);
        assert(feature_body(old.point_features@, points[0]) is Some);
        lemma_unknown_points_grow(old, new, points.drop_first());
    }
}

/// Checks that pass on `old` pass on any structure that extends it.
proof fn lemma_acceptance_grows(old: SpatialStructure, new: SpatialStructure)
    requires
        extends(old, new),
    ensures
        forall|kind: SpatialCoordinateKind| #[trigger] coordinate_parent_error(old, kind) is None ==> coordinate_parent_error(new, kind) is None,
        forall|kind: SpatialModeMonitorKind| #[trigger] monitor_error(old, kind) is None ==> monitor_error(new, kind) is None,
        forall|r: SpatialSourceRecord| #[trigger] source_error(old, r) is None ==> source_error(new, r) is None,
{
    lemma_lookups_grow(old, new);
    lemma_pairs_grow(old, new);
    lemma_resolutions_grow(old, new);
    assert forall|kind: SpatialModeMonitorKind| #[trigger] monitor_error(old, kind) is None implies monitor_error(new, kind) is None by {
        match kind {
            SpatialModeMonitorKind::AxisParity { first, second, .. } => {
                assert(axis_pair(old, first, second) is Ok);
            },
            SpatialModeMonitorKind::HingeWinding { coordinate, winding } => {
                assert(coordinate_kind(old.coordinates@, coordinate) is Some);
                let k = coordinate_kind(old.coordinates@, coordinate)->0;
                assert(hinge_bodies(old, coordinate, k) is Ok);
            },
            SpatialModeMonitorKind::PlaneSide { plane, point, .. } => {
                assert(feature_body(old.plane_features@, plane) is Some);
                assert(feature_body(old.point_features@, point) is Some);
            },
            SpatialModeMonitorKind::SignedVolume { points, .. } => {
                lemma_unknown_points_grow(old, new, points@);
            },
        }
    }
    assert forall|r: SpatialSourceRecord| #[trigger] source_error(old, r) is None implies source_error(new, r) is None by {
        match r.shape {
            SpatialSourceShape::PhysicalGround { body } => {},
            SpatialSourceShape::BallJoint { first, second } => { assert(point_pair(old, first, second) is Ok); },
            SpatialSourceShape::PointDistanceMate { first, second } => { assert(point_pair(old, first, second) is Ok); },
            SpatialSourceShape::FixedFrame { first, second } => { assert(frame_pair(old, first, second) is Ok); },
            SpatialSourceShape::RevoluteJoint { first, second, .. } => { assert(frame_pair(old, first, second) is Ok); },
            SpatialSourceShape::FrameOffsetMate { first, second } => { assert(frame_pair(old, first, second) is Ok); },
            SpatialSourceShape::PrismaticJoint { first, second, .. } => { assert(axis_pair(old, first, second) is Ok); },
            SpatialSourceShape::CylindricalJoint { first, second, .. } => { assert(axis_pair(old, first, second) is Ok); },
            SpatialSourceShape::UniversalJoint { first, second } => { assert(axis_pair(old, first, second) is Ok); },
            SpatialSourceShape::AxisAlignmentMate { first, second, .. } => { assert(axis_pair(old, first, second) is Ok); },
            SpatialSourceShape::AxisAngleMate { first, second } => { assert(axis_pair(old, first, second) is Ok); },
            SpatialSourceShape::PlanarJoint { first, second, .. } => { assert(plane_pair(old, first, second) is Ok); },
            SpatialSourceShape::HingePositionDriver { coordinate, winding, .. } => {
                assert(coordinate_kind(old.coordinates@, coordinate) is Some);
                let k = coordinate_kind(old.coordinates@, coordinate)->0;
                assert(hinge_bodies(old, coordinate, k) is Ok);
            },
            SpatialSourceShape::TranslationPositionDriver { coordinate, .. } => {
                assert(coordinate_kind(old.coordinates@, coordinate) is Some);
                let k = coordinate_kind(old.coordinates@, coordinate)->0;
                assert(translation_bodies(old, coordinate, k) is Ok);
            },
        }
    }
}

/// `second` carries the identities and grounds of `first`, and every check of
/// it passes.
pub open spec fn alike(first: Seq<IdentityCheck>, second: Seq<IdentityCheck>) -> bool {
    &&& first.len() == second.len()
    &&& forall|k: int| 0 <= k < first.len() ==> {
        &&& (#[trigger] second[k]).before is None
        &&& second[k].after is None
        &&& second[k].owned == first[k].owned
        &&& second[k].ordinal == first[k].ordinal
        &&& second[k].ground == first[k].ground
    }
}

/// The walk over checks that pass, with one more passing check of a fresh
/// ordinal appended to a middle segment, records that ordinal (and its ground)
/// besides what it recorded before.
proof fn lemma_walk_insert(
    p: Seq<IdentityCheck>,
    x: Seq<IdentityCheck>,
    q: Seq<IdentityCheck>,
    p2: Seq<IdentityCheck>,
    x2: Seq<IdentityCheck>,
    q2: Seq<IdentityCheck>,
    c: IdentityCheck,
)
    requires
        identity_walk(Set::empty(), Set::empty(), p + (x + q)) is Ok,
        alike(p, p2),
        alike(x, x2),
        alike(q, q2),
        c.before is None,
        c.after is None,
        c.owned,
        c.ordinal != 0,
        !identity_walk(Set::empty(), Set::empty(), p + (x + q))->Ok_0.0.contains(c.ordinal),
        c.ground is Some ==> q.len() == 0 && !identity_walk(Set::empty(), Set::empty(), p + (x + q))->Ok_0.1.contains(body_key(c.ground->0)),
    ensures
        identity_walk(Set::empty(), Set::empty(), p2 + (x2.push(c) + q2)) is Ok,
        identity_walk(Set::empty(), Set::empty(), p2 + (x2.push(c) + q2))->Ok_0.0
            == identity_walk(Set::empty(), Set::empty(), p + (x + q))->Ok_0.0.insert(c.ordinal),
{
    let empty_seen = Set::<u64>::empty();
    let empty_grounded = Set::<u128>::empty();
    let all = identity_walk(empty_seen, empty_grounded, p + (x + q))->Ok_0;
    lemma_walk_append(empty_seen, empty_grounded, p, x + q);
    let s1 = identity_walk(empty_seen, empty_grounded, p)->Ok_0;
    lemma_walk_append(s1.0, s1.1, x, q);
    let s2 = identity_walk(s1.0, s1.1, x)->Ok_0;
    assert(identity_walk(s2.0, s2.1, q) == Ok::<(Set<u64>, Set<u128>), SpatialAssemblyError>(all));
    lemma_walk_alike(empty_seen, empty_grounded, p, p2);
    lemma_walk_alike(s1.0, s1.1, x, x2);
    lemma_walk_records(s2.0, s2.1, q);
    assert(!s2.0.contains(c.ordinal));
    let stepped = identity_step(s2.0, s2.1, c);
    assert(stepped is Ok);
    let s3 = stepped->Ok_0;
    assert(s3.0 == s2.0.insert(c.ordinal));
    assert(!check_ordinals(q).contains(c.ordinal));
    lemma_walk_frame(s2.0, s2.1, q, c.ordinal);
    if c.ground is Some {
        assert(q.len() == 0);
        assert(q2.len() == 0);
        assert(all == s2);
        assert(identity_walk(s3.0, s3.1, q2) == Ok::<(Set<u64>, Set<u128>), SpatialAssemblyError>(s3)) by {
            assert(q2 =~= Seq::<IdentityCheck>::empty());
        }
    } else {
        assert(s3.1 == s2.1);
        lemma_walk_alike(s3.0, s3.1, q, q2);
    }
    let single = seq![c];
    assert(identity_walk(s2.0, s2.1, single) == Ok::<(Set<u64>, Set<u128>), SpatialAssemblyError>(s3)) by {
        assert(single[0] == c);
        assert(single.drop_first() =~= Seq::<IdentityCheck>::empty());
        assert(identity_walk(s3.0, s3.1, Seq::<IdentityCheck>::empty()) == Ok::<(Set<u64>, Set<u128>), SpatialAssemblyError>(s3));
    }
    lemma_walk_append(s2.0, s2.1, single, q2);
    assert(x2.push(c) + q2 =~= x2 + (single + q2));
    lemma_walk_append(s1.0, s1.1, x2, single + q2);
    lemma_walk_append(empty_seen, empty_grounded, p2, x2.push(c) + q2);
}

/// Every check of every segment passes.
pub open spec fn passes(checks: Seq<IdentityCheck>) -> bool {
    forall|k: int| 0 <= k < checks.len() ==> (#[trigger] checks[k]).before is None && checks[k].after is None
}

proof fn lemma_checks_pass(s: SpatialStructure)
    requires
        structure_error(s) is None,
    ensures
        passes(body_checks(s)),
        passes(feature_checks(s, s.point_features@, "point feature")),
        passes(feature_checks(s, s.frame_features@, "frame feature")),
        passes(feature_checks(s, s.axis_features@, "axis feature")),
        passes(feature_checks(s, s.plane_features@, "plane feature")),
        passes(coordinate_checks(s)),
        passes(monitor_checks(s)),
        passes(source_checks(s)),
{
    let a = body_checks(s);
    let b = feature_checks(s, s.point_features@, "point feature");
    let c = feature_checks(s, s.frame_features@, "frame feature");
    let d = feature_checks(s, s.axis_features@, "axis feature");
    let e = feature_checks(s, s.plane_features@, "plane feature");
    let f = coordinate_checks(s);
    let g = monitor_checks(s);
    let h = source_checks(s);
    let s0 = lemma_walk_split(Set::empty(), Set::empty(), a, b + (c + (d + (e + (f + (g + h))))));
    let s1 = lemma_walk_split(s0.0, s0.1, b, c + (d + (e + (f + (g + h)))));
    let s2 = lemma_walk_split(s1.0, s1.1, c, d + (e + (f + (g + h))));
    let s3 = lemma_walk_split(s2.0, s2.1, d, e + (f + (g + h)));
    let s4 = lemma_walk_split(s3.0, s3.1, e, f + (g + h));
    let s5 = lemma_walk_split(s4.0, s4.1, f, g + h);
    let s6 = lemma_walk_split(s5.0, s5.1, g, h);
    lemma_walk_ok(Set::empty(), Set::empty(), a);
    lemma_walk_ok(s0.0, s0.1, b);
    lemma_walk_ok(s1.0, s1.1, c);
    lemma_walk_ok(s2.0, s2.1, d);
    lemma_walk_ok(s3.0, s3.1, e);
    lemma_walk_ok(s4.0, s4.1, f);
    lemma_walk_ok(s5.0, s5.1, g);
    lemma_walk_ok(s6.0, s6.1, h);
}

/// The checks of `old`'s records, each evaluated against `new`, carry the
/// same identities and still pass.
proof fn lemma_segments_alike(old: SpatialStructure, new: SpatialStructure)
    requires
        structure_error(old) is None,
        extends(old, new),
    ensures
        alike(body_checks(old), old.bodies@.map_values(|r: SpatialBodyRecord| body_check(new, r))),
        alike(feature_checks(old, old.point_features@, "point feature"), feature_checks(new, old.point_features@, "point feature")),
        alike(feature_checks(old, old.frame_features@, "frame feature"), feature_checks(new, old.frame_features@, "frame feature")),
        alike(feature_checks(old, old.axis_features@, "axis feature"), feature_checks(new, old.axis_features@, "axis feature")),
        alike(feature_checks(old, old.plane_features@, "plane feature"), feature_checks(new, old.plane_features@, "plane feature")),
        alike(coordinate_checks(old), old.coordinates@.map_values(|c: SpatialCoordinate| coordinate_check(new, c))),
        alike(monitor_checks(old), old.mode_monitors@.map_values(|m: SpatialModeMonitor| monitor_check(new, m))),
        alike(source_checks(old), old.sources@.map_values(|r: SpatialSourceRecord| source_check(new, r))),
{
    lemma_checks_pass(old);
    lemma_lookups_grow(old, new);
    lemma_acceptance_grows(old, new);
    let b_old = feature_checks(old, old.point_features@, "point feature");
    let b_new = feature_checks(new, old.point_features@, "point feature");
    assert forall|k: int| 0 <= k < b_old.len() implies (#[trigger] b_new[k]).before is None by {
        assert(b_old[k].before is None);
    }
    let c_old = feature_checks(old, old.frame_features@, "frame feature");
    let c_new = feature_checks(new, old.frame_features@, "frame feature");
    assert forall|k: int| 0 <= k < c_old.len() implies (#[trigger] c_new[k]).before is None by {
        assert(c_old[k].before is None);
    }
    let d_old = feature_checks(old, old.axis_features@, "axis feature");
    let d_new = feature_checks(new, old.axis_features@, "axis feature");
    assert forall|k: int| 0 <= k < d_old.len() implies (#[trigger] d_new[k]).before is None by {
        assert(d_old[k].before is None);
    }
    let e_old = feature_checks(old, old.plane_features@, "plane feature");
    let e_new = feature_checks(new, old.plane_features@, "plane feature");
    assert forall|k: int| 0 <= k < e_old.len() implies (#[trigger] e_new[k]).before is None by {
        assert(e_old[k].before is None);
    }
    let f_old = coordinate_checks(old);
    let f_new = old.coordinates@.map_values(|c: SpatialCoordinate| coordinate_check(new, c));
    assert forall|k: int| 0 <= k < f_old.len() implies (#[trigger] f_new[k]).after is None by {
        assert(f_old[k].after is None);
    }
    let g_old = monitor_checks(old);
    let g_new = old.mode_monitors@.map_values(|m: SpatialModeMonitor| monitor_check(new, m));
    assert forall|k: int| 0 <= k < g_old.len() implies (#[trigger] g_new[k]).after is None by {
        assert(g_old[k].after is None);
    }
    let h_old = source_checks(old);
    let h_new = old.sources@.map_values(|r: SpatialSourceRecord| source_check(new, r));
    assert forall|k: int| 0 <= k < h_old.len() implies (#[trigger] h_new[k]).after is None by {
        assert(h_old[k].after is None);
    }
}

proof fn lemma_alike_concat(x: Seq<IdentityCheck>, y: Seq<IdentityCheck>, x2: Seq<IdentityCheck>, y2: Seq<IdentityCheck>)
    requires
        alike(x, x2),
        alike(y, y2),
    ensures
        alike(x + y, x2 + y2),
{
    assert forall|k: int| 0 <= k < (x + y).len() implies {
        &&& (#[trigger] (x2 + y2)[k]).before is None
        &&& (x2 + y2)[k].after is None
        &&& (x2 + y2)[k].owned == (x + y)[k].owned
        &&& (x2 + y2)[k].ordinal == (x + y)[k].ordinal
        &&& (x2 + y2)[k].ground == (x + y)[k].ground
    } by {
        if k < x.len() {
            assert((x2 + y2)[k] == x2[k]);
            assert((x + y)[k] == x[k]);
        } else {
            assert((x2 + y2)[k] == y2[k - x.len()]);
            assert((x + y)[k] == y[k - x.len()]);
        }
    }
}

proof fn lemma_conflict_push(sources: Seq<SpatialSourceRecord>, record: SpatialSourceRecord, j: int)
    requires
        0 <= j <= sources.len(),
        driver_conflict_from(sources, j) is None,
        forall|k: int| 0 <= k < sources.len() ==> !targets_conflict(#[trigger] sources[k].shape, record.shape),
    ensures
        driver_conflict_from(sources.push(record), j) is None,
    decreases sources.len() + 1 - j,
{
    let grown = sources.push(record);
    if j == sources.len() {
        assert(grown[j] == record);
        assert forall|i: int| 0 <= i < j implies !#[trigger] targets_conflict(grown[i].shape, grown[j].shape) by {
            assert(grown[i] == sources[i]);
        }
        assert(driver_conflict_from(grown, j + 1) is None);
    } else {
        assert forall|i: int| 0 <= i < j implies (#[trigger] targets_conflict(grown[i].shape, grown[j].shape)) == targets_conflict(sources[i].shape, sources[j].shape) by {
            assert(grown[i] == sources[i]);
            assert(grown[j] == sources[j]);
        }
        lemma_conflict_push(sources, record, j + 1);
    }
}

/// A structure that passes the discrete checks still passes them with one more
/// passing record of the next identity, when its checks are those of the old
/// structure with the new check appended to one segment.
proof fn lemma_growth(
    old: SpatialStructure,
    new: SpatialStructure,
    p: Seq<IdentityCheck>,
    x: Seq<IdentityCheck>,
    q: Seq<IdentityCheck>,
    p2: Seq<IdentityCheck>,
    x2: Seq<IdentityCheck>,
    q2: Seq<IdentityCheck>,
    c: IdentityCheck,
)
    requires
        structure_error(old) is None,
        structure_checks(old) == p + (x + q),
        structure_checks(new) == p2 + (x2.push(c) + q2),
        alike(p, p2),
        alike(x, x2),
        alike(q, q2),
        c.before is None,
        c.after is None,
        c.owned,
        c.ordinal == old.next_id,
        old.next_id > 0,
        new.next_id == old.next_id + 1,
        new.namespace == old.namespace,
        c.ground is Some ==> q.len() == 0 && !identity_walk(Set::empty(), Set::empty(), p + (x + q))->Ok_0.1.contains(body_key(c.ground->0)),
        driver_conflict(new.sources@) is None,
    ensures
        structure_error(new) is None,
{
    let before = identity_walk(Set::empty(), Set::empty(), structure_checks(old))->Ok_0;
    assert(!before.0.contains(c.ordinal)) by {
        if before.0.contains(c.ordinal) {
            assert(exists|v: u64| before.0.contains(v) && old.next_id <= v);
        }
    }
    lemma_walk_insert(p, x, q, p2, x2, q2, c);
    let after = identity_walk(Set::empty(), Set::empty(), structure_checks(new))->Ok_0;
    assert(after.0 == before.0.insert(c.ordinal));
    assert(!exists|v: u64| after.0.contains(v) && new.next_id <= v) by {
        if exists|v: u64| after.0.contains(v) && new.next_id <= v {
            let v = choose|v: u64| after.0.contains(v) && new.next_id <= v;
            if v != c.ordinal {
                assert(before.0.contains(v));
                assert(!(old.next_id <= v));
            }
        }
    }
}

proof fn lemma_coordinate_kind_member(coordinates: Seq<SpatialCoordinate>, id: SpatialCoordinateId)
    requires
        coordinate_kind(coordinates, id) is Some,
    ensures
        exists|q: int| 0 <= q < coordinates.len() && (#[trigger] coordinates[q]).kind == coordinate_kind(coordinates, id)->0,
    decreases coordinates.len(),
{
    if coordinates[0].id != id {
        lemma_coordinate_kind_member(coordinates.drop_first(), id);
        let q = choose|q: int| 0 <= q < coordinates.drop_first().len() && (#[trigger] coordinates.drop_first()[q]).kind == coordinate_kind(coordinates, id)->0;
        assert(coordinates[q + 1] == coordinates.drop_first()[q]);
    } else {
        assert(coordinates[0].kind == coordinate_kind(coordinates, id)->0);
    }
}

proof fn lemma_source_shape_member(sources: Seq<SpatialSourceRecord>, id: SpatialSourceId)
    requires
        source_shape(sources, id) is Some,
    ensures
        exists|q: int| 0 <= q < sources.len() && (#[trigger] sources[q]).shape == source_shape(sources, id)->0,
    decreases sources.len(),
{
    if sources[0].id != id {
        lemma_source_shape_member(sources.drop_first(), id);
        let q = choose|q: int| 0 <= q < sources.drop_first().len() && (#[trigger] sources.drop_first()[q]).shape == source_shape(sources, id)->0;
        assert(sources[q + 1] == sources.drop_first()[q]);
    } else {
        assert(sources[0].shape == source_shape(sources, id)->0);
    }
}

/// In a structure that passes the discrete checks, every coordinate resolves
/// to the two bodies of its parent joint.
proof fn lemma_coordinates_resolve(s: SpatialStructure, id: SpatialCoordinateId)
    requires
        structure_error(s) is None,
        coordinate_kind(s.coordinates@, id) is Some,
    ensures
        coordinate_kind(s.coordinates@, id)->0 is Hinge ==> hinge_bodies(s, id, coordinate_kind(s.coordinates@, id)->0) is Ok,
        !(coordinate_kind(s.coordinates@, id)->0 is Hinge) ==> translation_bodies(s, id, coordinate_kind(s.coordinates@, id)->0) is Ok,
{
    let kind = coordinate_kind(s.coordinates@, id)->0;
    lemma_checks_pass(s);
    lemma_structure_valid(s);
    lemma_coordinate_kind_member(s.coordinates@, id);
    let q = choose|q: int| 0 <= q < s.coordinates@.len() && (#[trigger] s.coordinates@[q]).kind == kind;
    assert(coordinate_checks(s)[q] == coordinate_check(s, s.coordinates@[q]));
    assert(coordinate_parent_error(s, kind) is None);
    let parent = match kind {
        SpatialCoordinateKind::Hinge { parent, .. } => parent,
        SpatialCoordinateKind::AxialTranslation { parent } => parent,
        SpatialCoordinateKind::PlanarTranslation { parent, .. } => parent,
    };
    assert(source_shape(s.sources@, parent) is Some);
    lemma_source_shape_member(s.sources@, parent);
    let k = choose|k: int| 0 <= k < s.sources@.len() && (#[trigger] s.sources@[k]).shape == source_shape(s.sources@, parent)->0;
    assert(source_error(s, s.sources@[k]) is None);
}


/// A body that `add_body` accepts keeps a structure passing the discrete checks.
pub proof fn lemma_added_body_keeps_structure(old: SpatialStructure, new: SpatialStructure, label: String, pose_guess: [u64; 7])
    requires
        structure_error(old) is None,
        old.next_id > 0,
        exhausted(old) is None,
        label_error(label@, "body") is None,
        body_added(old, new, SpatialBodyRecord { id: SpatialBodyId { namespace: old.namespace, ordinal: old.next_id }, label, pose_guess, pose: None }),
    ensures
        structure_error(new) is None,
{
    let record = SpatialBodyRecord { id: SpatialBodyId { namespace: old.namespace, ordinal: old.next_id }, label, pose_guess, pose: None };
    let c = body_check(new, record);
    assert(extends(old, new)) by {
        assert(old.bodies@ =~= new.bodies@.subrange(0, old.bodies@.len() as int));
        assert(old.point_features@ =~= new.point_features@.subrange(0, old.point_features@.len() as int));
        assert(old.frame_features@ =~= new.frame_features@.subrange(0, old.frame_features@.len() as int));
        assert(old.axis_features@ =~= new.axis_features@.subrange(0, old.axis_features@.len() as int));
        assert(old.plane_features@ =~= new.plane_features@.subrange(0, old.plane_features@.len() as int));
        assert(old.coordinates@ =~= new.coordinates@.subrange(0, old.coordinates@.len() as int));
        assert(old.mode_monitors@ =~= new.mode_monitors@.subrange(0, old.mode_monitors@.len() as int));
        assert(old.sources@ =~= new.sources@.subrange(0, old.sources@.len() as int));
    }
    lemma_segments_alike(old, new);
    let p = Seq::<IdentityCheck>::empty();
    let p2 = Seq::<IdentityCheck>::empty();
    assert(alike(p, p2));
    let q = source_checks(old);
    let q2 = old.sources@.map_values(|r: SpatialSourceRecord| source_check(new, r));
    lemma_alike_concat(monitor_checks(old), q, old.mode_monitors@.map_values(|m: SpatialModeMonitor| monitor_check(new, m)), q2);
    let q = monitor_checks(old) + q;
    let q2 = old.mode_monitors@.map_values(|m: SpatialModeMonitor| monitor_check(new, m)) + q2;
    lemma_alike_concat(coordinate_checks(old), q, old.coordinates@.map_values(|c: SpatialCoordinate| coordinate_check(new, c)), q2);
    let q = coordinate_checks(old) + q;
    let q2 = old.coordinates@.map_values(|c: SpatialCoordinate| coordinate_check(new, c)) + q2;
    lemma_alike_concat(feature_checks(old, old.plane_features@, "plane feature"), q, feature_checks(new, old.plane_features@, "plane feature"), q2);
    let q = feature_checks(old, old.plane_features@, "plane feature") + q;
    let q2 = feature_checks(new, old.plane_features@, "plane feature") + q2;
    lemma_alike_concat(feature_checks(old, old.axis_features@, "axis feature"), q, feature_checks(new, old.axis_features@, "axis feature"), q2);
    let q = feature_checks(old, old.axis_features@, "axis feature") + q;
    let q2 = feature_checks(new, old.axis_features@, "axis feature") + q2;
    lemma_alike_concat(feature_checks(old, old.frame_features@, "frame feature"), q, feature_checks(new, old.frame_features@, "frame feature"), q2);
    let q = feature_checks(old, old.frame_features@, "frame feature") + q;
    let q2 = feature_checks(new, old.frame_features@, "frame feature") + q2;
    lemma_alike_concat(feature_checks(old, old.point_features@, "point feature"), q, feature_checks(new, old.point_features@, "point feature"), q2);
    let q = feature_checks(old, old.point_features@, "point feature") + q;
    let q2 = feature_checks(new, old.point_features@, "point feature") + q2;
    let x = body_checks(old);
    let x2 = old.bodies@.map_values(|r: SpatialBodyRecord| body_check(new, r));
    assert(structure_checks(old) =~= p + (x + q));
    assert(body_checks(new) =~= x2.push(c));
    assert(structure_checks(new) =~= p2 + (x2.push(c) + q2));
    lemma_growth(old, new, p, x, q, p2, x2, q2, c);
}

/// A point feature that `add_point_feature` accepts keeps a structure passing the discrete checks.
pub proof fn lemma_added_point_feature_keeps_structure(old: SpatialStructure, new: SpatialStructure, label: String, body: SpatialBodyId, local: SpatialLocalGeometry)
    requires
        structure_error(old) is None,
        old.next_id > 0,
        exhausted(old) is None,
        feature_error(old, label@, "point feature", body, None) is None,
        point_feature_added(old, new, SpatialFeatureRecord { id: SpatialPointFeatureId { namespace: old.namespace, ordinal: old.next_id }, label, body, local, geometry: None }),
    ensures
        structure_error(new) is None,
{
    let record = SpatialFeatureRecord { id: SpatialPointFeatureId { namespace: old.namespace, ordinal: old.next_id }, label, body, local, geometry: None };
    let c = feature_check(new, record, "point feature");
    assert(extends(old, new)) by {
        assert(old.bodies@ =~= new.bodies@.subrange(0, old.bodies@.len() as int));
        assert(old.point_features@ =~= new.point_features@.subrange(0, old.point_features@.len() as int));
        assert(old.frame_features@ =~= new.frame_features@.subrange(0, old.frame_features@.len() as int));
        assert(old.axis_features@ =~= new.axis_features@.subrange(0, old.axis_features@.len() as int));
        assert(old.plane_features@ =~= new.plane_features@.subrange(0, old.plane_features@.len() as int));
        assert(old.coordinates@ =~= new.coordinates@.subrange(0, old.coordinates@.len() as int));
        assert(old.mode_monitors@ =~= new.mode_monitors@.subrange(0, old.mode_monitors@.len() as int));
        assert(old.sources@ =~= new.sources@.subrange(0, old.sources@.len() as int));
    }
    lemma_segments_alike(old, new);
    let p = body_checks(old);
    let p2 = old.bodies@.map_values(|r: SpatialBodyRecord| body_check(new, r));
    let q = source_checks(old);
    let q2 = old.sources@.map_values(|r: SpatialSourceRecord| source_check(new, r));
    lemma_alike_concat(monitor_checks(old), q, old.mode_monitors@.map_values(|m: SpatialModeMonitor| monitor_check(new, m)), q2);
    let q = monitor_checks(old) + q;
    let q2 = old.mode_monitors@.map_values(|m: SpatialModeMonitor| monitor_check(new, m)) + q2;
    lemma_alike_concat(coordinate_checks(old), q, old.coordinates@.map_values(|c: SpatialCoordinate| coordinate_check(new, c)), q2);
    let q = coordinate_checks(old) + q;
    let q2 = old.coordinates@.map_values(|c: SpatialCoordinate| coordinate_check(new, c)) + q2;
    lemma_alike_concat(feature_checks(old, old.plane_features@, "plane feature"), q, feature_checks(new, old.plane_features@, "plane feature"), q2);
    let q = feature_checks(old, old.plane_features@, "plane feature") + q;
    let q2 = feature_checks(new, old.plane_features@, "plane feature") + q2;
    lemma_alike_concat(feature_checks(old, old.axis_features@, "axis feature"), q, feature_checks(new, old.axis_features@, "axis feature"), q2);
    let q = feature_checks(old, old.axis_features@, "axis feature") + q;
    let q2 = feature_checks(new, old.axis_features@, "axis feature") + q2;
    lemma_alike_concat(feature_checks(old, old.frame_features@, "frame feature"), q, feature_checks(new, old.frame_features@, "frame feature"), q2);
    let q = feature_checks(old, old.frame_features@, "frame feature") + q;
    let q2 = feature_checks(new, old.frame_features@, "frame feature") + q2;
    let x = feature_checks(old, old.point_features@, "point feature");
    let x2 = feature_checks(new, old.point_features@, "point feature");
    assert(structure_checks(old) =~= p + (x + q));
    assert(feature_checks(new, new.point_features@, "point feature") =~= x2.push(c));
    assert(structure_checks(new) =~= p2 + (x2.push(c) + q2));
    lemma_growth(old, new, p, x, q, p2, x2, q2, c);
}

/// A frame feature that `add_frame_feature` accepts keeps a structure passing the discrete checks.
pub proof fn lemma_added_frame_feature_keeps_structure(old: SpatialStructure, new: SpatialStructure, label: String, body: SpatialBodyId, local: SpatialLocalGeometry)
    requires
        structure_error(old) is None,
        old.next_id > 0,
        exhausted(old) is None,
        feature_error(old, label@, "frame feature", body, None) is None,
        frame_feature_added(old, new, SpatialFeatureRecord { id: SpatialFrameFeatureId { namespace: old.namespace, ordinal: old.next_id }, label, body, local, geometry: None }),
    ensures
        structure_error(new) is None,
{
    let record = SpatialFeatureRecord { id: SpatialFrameFeatureId { namespace: old.namespace, ordinal: old.next_id }, label, body, local, geometry: None };
    let c = feature_check(new, record, "frame feature");
    assert(extends(old, new)) by {
        assert(old.bodies@ =~= new.bodies@.subrange(0, old.bodies@.len() as int));
        assert(old.point_features@ =~= new.point_features@.subrange(0, old.point_features@.len() as int));
        assert(old.frame_features@ =~= new.frame_features@.subrange(0, old.frame_features@.len() as int));
        assert(old.axis_features@ =~= new.axis_features@.subrange(0, old.axis_features@.len() as int));
        assert(old.plane_features@ =~= new.plane_features@.subrange(0, old.plane_features@.len() as int));
        assert(old.coordinates@ =~= new.coordinates@.subrange(0, old.coordinates@.len() as int));
        assert(old.mode_monitors@ =~= new.mode_monitors@.subrange(0, old.mode_monitors@.len() as int));
        assert(old.sources@ =~= new.sources@.subrange(0, old.sources@.len() as int));
    }
    lemma_segments_alike(old, new);
    let p = body_checks(old);
    let p2 = old.bodies@.map_values(|r: SpatialBodyRecord| body_check(new, r));
    lemma_alike_concat(p, feature_checks(old, old.point_features@, "point feature"), p2, feature_checks(new, old.point_features@, "point feature"));
    let p = p + feature_checks(old, old.point_features@, "point feature");
    let p2 = p2 + feature_checks(new, old.point_features@, "point feature");
    let q = source_checks(old);
    let q2 = old.sources@.map_values(|r: SpatialSourceRecord| source_check(new, r));
    lemma_alike_concat(monitor_checks(old), q, old.mode_monitors@.map_values(|m: SpatialModeMonitor| monitor_check(new, m)), q2);
    let q = monitor_checks(old) + q;
    let q2 = old.mode_monitors@.map_values(|m: SpatialModeMonitor| monitor_check(new, m)) + q2;
    lemma_alike_concat(coordinate_checks(old), q, old.coordinates@.map_values(|c: SpatialCoordinate| coordinate_check(new, c)), q2);
    let q = coordinate_checks(old) + q;
    let q2 = old.coordinates@.map_values(|c: SpatialCoordinate| coordinate_check(new, c)) + q2;
    lemma_alike_concat(feature_checks(old, old.plane_features@, "plane feature"), q, feature_checks(new, old.plane_features@, "plane feature"), q2);
    let q = feature_checks(old, old.plane_features@, "plane feature") + q;
    let q2 = feature_checks(new, old.plane_features@, "plane feature") + q2;
    lemma_alike_concat(feature_checks(old, old.axis_features@, "axis feature"), q, feature_checks(new, old.axis_features@, "axis feature"), q2);
    let q = feature_checks(old, old.axis_features@, "axis feature") + q;
    let q2 = feature_checks(new, old.axis_features@, "axis feature") + q2;
    let x = feature_checks(old, old.frame_features@, "frame feature");
    let x2 = feature_checks(new, old.frame_features@, "frame feature");
    assert(structure_checks(old) =~= p + (x + q));
    assert(feature_checks(new, new.frame_features@, "frame feature") =~= x2.push(c));
    assert(structure_checks(new) =~= p2 + (x2.push(c) + q2));
    lemma_growth(old, new, p, x, q, p2, x2, q2, c);
}

/// A axis feature that `add_axis_feature` accepts keeps a structure passing the discrete checks.
pub proof fn lemma_added_axis_feature_keeps_structure(old: SpatialStructure, new: SpatialStructure, label: String, body: SpatialBodyId, local: SpatialLocalGeometry)
    requires
        structure_error(old) is None,
        old.next_id > 0,
        exhausted(old) is None,
        feature_error(old, label@, "axis feature", body, None) is None,
        axis_feature_added(old, new, SpatialFeatureRecord { id: SpatialAxisFeatureId { namespace: old.namespace, ordinal: old.next_id }, label, body, local, geometry: None }),
    ensures
        structure_error(new) is None,
{
    let record = SpatialFeatureRecord { id: SpatialAxisFeatureId { namespace: old.namespace, ordinal: old.next_id }, label, body, local, geometry: None };
    let c = feature_check(new, record, "axis feature");
    assert(extends(old, new)) by {
        assert(old.bodies@ =~= new.bodies@.subrange(0, old.bodies@.len() as int));
        assert(old.point_features@ =~= new.point_features@.subrange(0, old.point_features@.len() as int));
        assert(old.frame_features@ =~= new.frame_features@.subrange(0, old.frame_features@.len() as int));
        assert(old.axis_features@ =~= new.axis_features@.subrange(0, old.axis_features@.len() as int));
        assert(old.plane_features@ =~= new.plane_features@.subrange(0, old.plane_features@.len() as int));
        assert(old.coordinates@ =~= new.coordinates@.subrange(0, old.coordinates@.len() as int));
        assert(old.mode_monitors@ =~= new.mode_monitors@.subrange(0, old.mode_monitors@.len() as int));
        assert(old.sources@ =~= new.sources@.subrange(0, old.sources@.len() as int));
    }
    lemma_segments_alike(old, new);
    let p = body_checks(old);
    let p2 = old.bodies@.map_values(|r: SpatialBodyRecord| body_check(new, r));
    lemma_alike_concat(p, feature_checks(old, old.point_features@, "point feature"), p2, feature_checks(new, old.point_features@, "point feature"));
    let p = p + feature_checks(old, old.point_features@, "point feature");
    let p2 = p2 + feature_checks(new, old.point_features@, "point feature");
    lemma_alike_concat(p, feature_checks(old, old.frame_features@, "frame feature"), p2, feature_checks(new, old.frame_features@, "frame feature"));
    let p = p + feature_checks(old, old.frame_features@, "frame feature");
    let p2 = p2 + feature_checks(new, old.frame_features@, "frame feature");
    let q = source_checks(old);
    let q2 = old.sources@.map_values(|r: SpatialSourceRecord| source_check(new, r));
    lemma_alike_concat(monitor_checks(old), q, old.mode_monitors@.map_values(|m: SpatialModeMonitor| monitor_check(new, m)), q2);
    let q = monitor_checks(old) + q;
    let q2 = old.mode_monitors@.map_values(|m: SpatialModeMonitor| monitor_check(new, m)) + q2;
    lemma_alike_concat(coordinate_checks(old), q, old.coordinates@.map_values(|c: SpatialCoordinate| coordinate_check(new, c)), q2);
    let q = coordinate_checks(old) + q;
    let q2 = old.coordinates@.map_values(|c: SpatialCoordinate| coordinate_check(new, c)) + q2;
    lemma_alike_concat(feature_checks(old, old.plane_features@, "plane feature"), q, feature_checks(new, old.plane_features@, "plane feature"), q2);
    let q = feature_checks(old, old.plane_features@, "plane feature") + q;
    let q2 = feature_checks(new, old.plane_features@, "plane feature") + q2;
    let x = feature_checks(old, old.axis_features@, "axis feature");
    let x2 = feature_checks(new, old.axis_features@, "axis feature");
    assert(structure_checks(old) =~= p + (x + q));
    assert(feature_checks(new, new.axis_features@, "axis feature") =~= x2.push(c));
    assert(structure_checks(new) =~= p2 + (x2.push(c) + q2));
    lemma_growth(old, new, p, x, q, p2, x2, q2, c);
}

/// A plane feature that `add_plane_feature` accepts keeps a structure passing the discrete checks.
pub proof fn lemma_added_plane_feature_keeps_structure(old: SpatialStructure, new: SpatialStructure, label: String, body: SpatialBodyId, local: SpatialLocalGeometry)
    requires
        structure_error(old) is None,
        old.next_id > 0,
        exhausted(old) is None,
        feature_error(old, label@, "plane feature", body, None) is None,
        plane_feature_added(old, new, SpatialFeatureRecord { id: SpatialPlaneFeatureId { namespace: old.namespace, ordinal: old.next_id }, label, body, local, geometry: None }),
    ensures
        structure_error(new) is None,
{
    let record = SpatialFeatureRecord { id: SpatialPlaneFeatureId { namespace: old.namespace, ordinal: old.next_id }, label, body, local, geometry: None };
    let c = feature_check(new, record, "plane feature");
    assert(extends(old, new)) by {
        assert(old.bodies@ =~= new.bodies@.subrange(0, old.bodies@.len() as int));
        assert(old.point_features@ =~= new.point_features@.subrange(0, old.point_features@.len() as int));
        assert(old.frame_features@ =~= new.frame_features@.subrange(0, old.frame_features@.len() as int));
        assert(old.axis_features@ =~= new.axis_features@.subrange(0, old.axis_features@.len() as int));
        assert(old.plane_features@ =~= new.plane_features@.subrange(0, old.plane_features@.len() as int));
        assert(old.coordinates@ =~= new.coordinates@.subrange(0, old.coordinates@.len() as int));
        assert(old.mode_monitors@ =~= new.mode_monitors@.subrange(0, old.mode_monitors@.len() as int));
        assert(old.sources@ =~= new.sources@.subrange(0, old.sources@.len() as int));
    }
    lemma_segments_alike(old, new);
    let p = body_checks(old);
    let p2 = old.bodies@.map_values(|r: SpatialBodyRecord| body_check(new, r));
    lemma_alike_concat(p, feature_checks(old, old.point_features@, "point feature"), p2, feature_checks(new, old.point_features@, "point feature"));
    let p = p + feature_checks(old, old.point_features@, "point feature");
    let p2 = p2 + feature_checks(new, old.point_features@, "point feature");
    lemma_alike_concat(p, feature_checks(old, old.frame_features@, "frame feature"), p2, feature_checks(new, old.frame_features@, "frame feature"));
    let p = p + feature_checks(old, old.frame_features@, "frame feature");
    let p2 = p2 + feature_checks(new, old.frame_features@, "frame feature");
    lemma_alike_concat(p, feature_checks(old, old.axis_features@, "axis feature"), p2, feature_checks(new, old.axis_features@, "axis feature"));
    let p = p + feature_checks(old, old.axis_features@, "axis feature");
    let p2 = p2 + feature_checks(new, old.axis_features@, "axis feature");
    let q = source_checks(old);
    let q2 = old.sources@.map_values(|r: SpatialSourceRecord| source_check(new, r));
    lemma_alike_concat(monitor_checks(old), q, old.mode_monitors@.map_values(|m: SpatialModeMonitor| monitor_check(new, m)), q2);
    let q = monitor_checks(old) + q;
    let q2 = old.mode_monitors@.map_values(|m: SpatialModeMonitor| monitor_check(new, m)) + q2;
    lemma_alike_concat(coordinate_checks(old), q, old.coordinates@.map_values(|c: SpatialCoordinate| coordinate_check(new, c)), q2);
    let q = coordinate_checks(old) + q;
    let q2 = old.coordinates@.map_values(|c: SpatialCoordinate| coordinate_check(new, c)) + q2;
    let x = feature_checks(old, old.plane_features@, "plane feature");
    let x2 = feature_checks(new, old.plane_features@, "plane feature");
    assert(structure_checks(old) =~= p + (x + q));
    assert(feature_checks(new, new.plane_features@, "plane feature") =~= x2.push(c));
    assert(structure_checks(new) =~= p2 + (x2.push(c) + q2));
    lemma_growth(old, new, p, x, q, p2, x2, q2, c);
}

/// A coordinate that a coordinate builder accepts, its label checked as `field`, keeps a structure passing the discrete checks.
pub proof fn lemma_added_coordinate_keeps_structure(old: SpatialStructure, new: SpatialStructure, label: String, field: &'static str, kind: SpatialCoordinateKind)
    requires
        structure_error(old) is None,
        old.next_id > 0,
        exhausted(old) is None,
        label_error(label@, field) is None,
        coordinate_parent_error(old, kind) is None,
        coordinate_added(old, new, SpatialCoordinate { id: SpatialCoordinateId { namespace: old.namespace, ordinal: old.next_id }, label, kind }),
    ensures
        structure_error(new) is None,
{
    let record = SpatialCoordinate { id: SpatialCoordinateId { namespace: old.namespace, ordinal: old.next_id }, label, kind };
    let c = coordinate_check(new, record);
    assert(extends(old, new)) by {
        assert(old.bodies@ =~= new.bodies@.subrange(0, old.bodies@.len() as int));
        assert(old.point_features@ =~= new.point_features@.subrange(0, old.point_features@.len() as int));
        assert(old.frame_features@ =~= new.frame_features@.subrange(0, old.frame_features@.len() as int));
        assert(old.axis_features@ =~= new.axis_features@.subrange(0, old.axis_features@.len() as int));
        assert(old.plane_features@ =~= new.plane_features@.subrange(0, old.plane_features@.len() as int));
        assert(old.coordinates@ =~= new.coordinates@.subrange(0, old.coordinates@.len() as int));
        assert(old.mode_monitors@ =~= new.mode_monitors@.subrange(0, old.mode_monitors@.len() as int));
        assert(old.sources@ =~= new.sources@.subrange(0, old.sources@.len() as int));
    }
    lemma_segments_alike(old, new);
    let p = body_checks(old);
    let p2 = old.bodies@.map_values(|r: SpatialBodyRecord| body_check(new, r));
    lemma_alike_concat(p, feature_checks(old, old.point_features@, "point feature"), p2, feature_checks(new, old.point_features@, "point feature"));
    let p = p + feature_checks(old, old.point_features@, "point feature");
    let p2 = p2 + feature_checks(new, old.point_features@, "point feature");
    lemma_alike_concat(p, feature_checks(old, old.frame_features@, "frame feature"), p2, feature_checks(new, old.frame_features@, "frame feature"));
    let p = p + feature_checks(old, old.frame_features@, "frame feature");
    let p2 = p2 + feature_checks(new, old.frame_features@, "frame feature");
    lemma_alike_concat(p, feature_checks(old, old.axis_features@, "axis feature"), p2, feature_checks(new, old.axis_features@, "axis feature"));
    let p = p + feature_checks(old, old.axis_features@, "axis feature");
    let p2 = p2 + feature_checks(new, old.axis_features@, "axis feature");
    lemma_alike_concat(p, feature_checks(old, old.plane_features@, "plane feature"), p2, feature_checks(new, old.plane_features@, "plane feature"));
    let p = p + feature_checks(old, old.plane_features@, "plane feature");
    let p2 = p2 + feature_checks(new, old.plane_features@, "plane feature");
    let q = source_checks(old);
    let q2 = old.sources@.map_values(|r: SpatialSourceRecord| source_check(new, r));
    lemma_alike_concat(monitor_checks(old), q, old.mode_monitors@.map_values(|m: SpatialModeMonitor| monitor_check(new, m)), q2);
    let q = monitor_checks(old) + q;
    let q2 = old.mode_monitors@.map_values(|m: SpatialModeMonitor| monitor_check(new, m)) + q2;
    let x = coordinate_checks(old);
    let x2 = old.coordinates@.map_values(|c: SpatialCoordinate| coordinate_check(new, c));
    assert(structure_checks(old) =~= p + (x + q));
    assert(coordinate_checks(new) =~= x2.push(c));
    assert(structure_checks(new) =~= p2 + (x2.push(c) + q2));
    lemma_acceptance_grows(old, new);
    lemma_growth(old, new, p, x, q, p2, x2, q2, c);
}

/// A mode monitor that a monitor builder accepts, its label checked as `field`, keeps a structure passing the discrete checks.
pub proof fn lemma_added_monitor_keeps_structure(old: SpatialStructure, new: SpatialStructure, label: String, field: &'static str, kind: SpatialModeMonitorKind)
    requires
        structure_error(old) is None,
        old.next_id > 0,
        exhausted(old) is None,
        label_error(label@, field) is None,
        monitor_kind_error(old, kind) is None,
        monitor_added(old, new, SpatialModeMonitor { id: SpatialModeMonitorId { namespace: old.namespace, ordinal: old.next_id }, label, kind }),
    ensures
        structure_error(new) is None,
{
    let record = SpatialModeMonitor { id: SpatialModeMonitorId { namespace: old.namespace, ordinal: old.next_id }, label, kind };
    let c = monitor_check(new, record);
    assert(extends(old, new)) by {
        assert(old.bodies@ =~= new.bodies@.subrange(0, old.bodies@.len() as int));
        assert(old.point_features@ =~= new.point_features@.subrange(0, old.point_features@.len() as int));
        assert(old.frame_features@ =~= new.frame_features@.subrange(0, old.frame_features@.len() as int));
        assert(old.axis_features@ =~= new.axis_features@.subrange(0, old.axis_features@.len() as int));
        assert(old.plane_features@ =~= new.plane_features@.subrange(0, old.plane_features@.len() as int));
        assert(old.coordinates@ =~= new.coordinates@.subrange(0, old.coordinates@.len() as int));
        assert(old.mode_monitors@ =~= new.mode_monitors@.subrange(0, old.mode_monitors@.len() as int));
        assert(old.sources@ =~= new.sources@.subrange(0, old.sources@.len() as int));
    }
    lemma_segments_alike(old, new);
    let p = body_checks(old);
    let p2 = old.bodies@.map_values(|r: SpatialBodyRecord| body_check(new, r));
    lemma_alike_concat(p, feature_checks(old, old.point_features@, "point feature"), p2, feature_checks(new, old.point_features@, "point feature"));
    let p = p + feature_checks(old, old.point_features@, "point feature");
    let p2 = p2 + feature_checks(new, old.point_features@, "point feature");
    lemma_alike_concat(p, feature_checks(old, old.frame_features@, "frame feature"), p2, feature_checks(new, old.frame_features@, "frame feature"));
    let p = p + feature_checks(old, old.frame_features@, "frame feature");
    let p2 = p2 + feature_checks(new, old.frame_features@, "frame feature");
    lemma_alike_concat(p, feature_checks(old, old.axis_features@, "axis feature"), p2, feature_checks(new, old.axis_features@, "axis feature"));
    let p = p + feature_checks(old, old.axis_features@, "axis feature");
    let p2 = p2 + feature_checks(new, old.axis_features@, "axis feature");
    lemma_alike_concat(p, feature_checks(old, old.plane_features@, "plane feature"), p2, feature_checks(new, old.plane_features@, "plane feature"));
    let p = p + feature_checks(old, old.plane_features@, "plane feature");
    let p2 = p2 + feature_checks(new, old.plane_features@, "plane feature");
    lemma_alike_concat(p, coordinate_checks(old), p2, old.coordinates@.map_values(|c: SpatialCoordinate| coordinate_check(new, c)));
    let p = p + coordinate_checks(old);
    let p2 = p2 + old.coordinates@.map_values(|c: SpatialCoordinate| coordinate_check(new, c));
    let q = source_checks(old);
    let q2 = old.sources@.map_values(|r: SpatialSourceRecord| source_check(new, r));
    let x = monitor_checks(old);
    let x2 = old.mode_monitors@.map_values(|m: SpatialModeMonitor| monitor_check(new, m));
    assert(structure_checks(old) =~= p + (x + q));
    assert(monitor_checks(new) =~= x2.push(c));
    assert(structure_checks(new) =~= p2 + (x2.push(c) + q2));
    lemma_acceptance_grows(old, new);
    match kind {
        SpatialModeMonitorKind::HingeWinding { coordinate, .. } => {
            lemma_coordinates_resolve(old, coordinate);
            lemma_resolutions_grow(old, new);
            assert(monitor_error(old, kind) is None);
        },
        _ => {},
    }
    lemma_growth(old, new, p, x, q, p2, x2, q2, c);
}

/// A source that a source builder accepts, its label checked as `field`, keeps a structure passing the discrete checks.
pub proof fn lemma_added_source_keeps_structure(
    old: SpatialStructure,
    new: SpatialStructure,
    label: String,
    field: &'static str,
    shape: SpatialSourceShape,
    values: Option<SpatialValueRejection>,
    numbers: SpatialSourceNumbers,
)
    requires
        structure_error(old) is None,
        old.next_id > 0,
        exhausted(old) is None,
        label_error(label@, field) is None,
        shape_error(old, shape, values) is None,
        source_added(old, new, SpatialSourceRecord { id: SpatialSourceId { namespace: old.namespace, ordinal: old.next_id }, label, shape, numbers, values: None }),
    ensures
        structure_error(new) is None,
{
    let record = SpatialSourceRecord { id: SpatialSourceId { namespace: old.namespace, ordinal: old.next_id }, label, shape, numbers, values: None };
    let c = source_check(new, record);
    assert(extends(old, new)) by {
        assert(old.bodies@ =~= new.bodies@.subrange(0, old.bodies@.len() as int));
        assert(old.point_features@ =~= new.point_features@.subrange(0, old.point_features@.len() as int));
        assert(old.frame_features@ =~= new.frame_features@.subrange(0, old.frame_features@.len() as int));
        assert(old.axis_features@ =~= new.axis_features@.subrange(0, old.axis_features@.len() as int));
        assert(old.plane_features@ =~= new.plane_features@.subrange(0, old.plane_features@.len() as int));
        assert(old.coordinates@ =~= new.coordinates@.subrange(0, old.coordinates@.len() as int));
        assert(old.mode_monitors@ =~= new.mode_monitors@.subrange(0, old.mode_monitors@.len() as int));
        assert(old.sources@ =~= new.sources@.subrange(0, old.sources@.len() as int));
    }
    lemma_segments_alike(old, new);
    let p = body_checks(old);
    let p2 = old.bodies@.map_values(|r: SpatialBodyRecord| body_check(new, r));
    lemma_alike_concat(p, feature_checks(old, old.point_features@, "point feature"), p2, feature_checks(new, old.point_features@, "point feature"));
    let p = p + feature_checks(old, old.point_features@, "point feature");
    let p2 = p2 + feature_checks(new, old.point_features@, "point feature");
    lemma_alike_concat(p, feature_checks(old, old.frame_features@, "frame feature"), p2, feature_checks(new, old.frame_features@, "frame feature"));
    let p = p + feature_checks(old, old.frame_features@, "frame feature");
    let p2 = p2 + feature_checks(new, old.frame_features@, "frame feature");
    lemma_alike_concat(p, feature_checks(old, old.axis_features@, "axis feature"), p2, feature_checks(new, old.axis_features@, "axis feature"));
    let p = p + feature_checks(old, old.axis_features@, "axis feature");
    let p2 = p2 + feature_checks(new, old.axis_features@, "axis feature");
    lemma_alike_concat(p, feature_checks(old, old.plane_features@, "plane feature"), p2, feature_checks(new, old.plane_features@, "plane feature"));
    let p = p + feature_checks(old, old.plane_features@, "plane feature");
    let p2 = p2 + feature_checks(new, old.plane_features@, "plane feature");
    lemma_alike_concat(p, coordinate_checks(old), p2, old.coordinates@.map_values(|c: SpatialCoordinate| coordinate_check(new, c)));
    let p = p + coordinate_checks(old);
    let p2 = p2 + old.coordinates@.map_values(|c: SpatialCoordinate| coordinate_check(new, c));
    lemma_alike_concat(p, monitor_checks(old), p2, old.mode_monitors@.map_values(|m: SpatialModeMonitor| monitor_check(new, m)));
    let p = p + monitor_checks(old);
    let p2 = p2 + old.mode_monitors@.map_values(|m: SpatialModeMonitor| monitor_check(new, m));
    let q = Seq::<IdentityCheck>::empty();
    let q2 = Seq::<IdentityCheck>::empty();
    assert(alike(q, q2));
    let x = source_checks(old);
    let x2 = old.sources@.map_values(|r: SpatialSourceRecord| source_check(new, r));
    assert(structure_checks(old) =~= p + (x + q));
    assert(source_checks(new) =~= x2.push(c));
    assert(structure_checks(new) =~= p2 + (x2.push(c) + q2));
    lemma_acceptance_grows(old, new);
    lemma_pairs_grow(old, new);
    lemma_lookups_grow(old, new);
    lemma_source_accepted(old, new, record, values);
    lemma_conflict_push(old.sources@, record, 0);
    if shape is PhysicalGround {
        lemma_ground_fresh(old, shape->body);
    }
    lemma_growth(old, new, p, x, q, p2, x2, q2, c);
}

/// A source that its builder accepts passes its definition check in any
/// extension of a structure that passes the discrete checks, and its target
/// agrees with every existing driver.
proof fn lemma_source_accepted(old: SpatialStructure, new: SpatialStructure, record: SpatialSourceRecord, values: Option<SpatialValueRejection>)
    requires
        structure_error(old) is None,
        extends(old, new),
        shape_error(old, record.shape, values) is None,
        record.values is None,
    ensures
        source_error(new, record) is None,
        forall|k: int| 0 <= k < old.sources@.len() ==> !targets_conflict(#[trigger] old.sources@[k].shape, record.shape),
{
    lemma_lookups_grow(old, new);
    lemma_pairs_grow(old, new);
    lemma_resolutions_grow(old, new);
    match record.shape {
        SpatialSourceShape::BallJoint { first, second } => { assert(point_pair(old, first, second) is Ok); },
        SpatialSourceShape::PointDistanceMate { first, second } => { assert(point_pair(old, first, second) is Ok); },
        SpatialSourceShape::FixedFrame { first, second } => { assert(frame_pair(old, first, second) is Ok); },
        SpatialSourceShape::RevoluteJoint { first, second, .. } => { assert(frame_pair(old, first, second) is Ok); },
        SpatialSourceShape::FrameOffsetMate { first, second } => { assert(frame_pair(old, first, second) is Ok); },
        SpatialSourceShape::PrismaticJoint { first, second, .. } => { assert(axis_pair(old, first, second) is Ok); },
        SpatialSourceShape::CylindricalJoint { first, second, .. } => { assert(axis_pair(old, first, second) is Ok); },
        SpatialSourceShape::UniversalJoint { first, second } => { assert(axis_pair(old, first, second) is Ok); },
        SpatialSourceShape::AxisAlignmentMate { first, second, .. } => { assert(axis_pair(old, first, second) is Ok); },
        SpatialSourceShape::AxisAngleMate { first, second } => { assert(axis_pair(old, first, second) is Ok); },
        SpatialSourceShape::PlanarJoint { first, second, .. } => { assert(plane_pair(old, first, second) is Ok); },
        SpatialSourceShape::HingePositionDriver { coordinate, .. } => {
            assert(coordinate_kind(old.coordinates@, coordinate) is Some);
            lemma_coordinates_resolve(old, coordinate);
            assert(driver_target_error(old, record.shape) is None);
        },
        SpatialSourceShape::TranslationPositionDriver { coordinate, .. } => {
            assert(coordinate_kind(old.coordinates@, coordinate) is Some);
            lemma_coordinates_resolve(old, coordinate);
            assert(driver_target_error(old, record.shape) is None);
        },
        SpatialSourceShape::PhysicalGround { .. } => {},
    }
}

/// No check of the segment grounds a body.
pub open spec fn grounds_nothing(checks: Seq<IdentityCheck>) -> bool {
    forall|k: int| 0 <= k < checks.len() ==> (#[trigger] checks[k]).ground is None
}

proof fn lemma_walk_keeps_grounded(seen: Set<u64>, grounded: Set<u128>, checks: Seq<IdentityCheck>)
    requires
        identity_walk(seen, grounded, checks) is Ok,
        grounds_nothing(checks),
    ensures
        identity_walk(seen, grounded, checks)->Ok_0.1 =~= grounded,
{
    lemma_walk_records(seen, grounded, checks);
    assert forall|key: u128| identity_walk(seen, grounded, checks)->Ok_0.1.contains(key) <==> grounded.contains(key) by {
        if exists|k: int| 0 <= k < checks.len() && grounds_key(#[trigger] checks[k], key) {
            let k = choose|k: int| 0 <= k < checks.len() && grounds_key(#[trigger] checks[k], key);
            assert(checks[k].ground is None);
        }
    }
}

/// A body that no source grounds is not among the grounded bodies the walk
/// of a passing structure records.
proof fn lemma_ground_fresh(s: SpatialStructure, body: SpatialBodyId)
    requires
        structure_error(s) is None,
        !already_grounded(s, body),
    ensures
        !identity_walk(Set::empty(), Set::empty(), structure_checks(s))->Ok_0.1.contains(body_key(body)),
{
    let a = body_checks(s);
    let b = feature_checks(s, s.point_features@, "point feature");
    let c = feature_checks(s, s.frame_features@, "frame feature");
    let d = feature_checks(s, s.axis_features@, "axis feature");
    let e = feature_checks(s, s.plane_features@, "plane feature");
    let f = coordinate_checks(s);
    let g = monitor_checks(s);
    let h = source_checks(s);
    let s0 = lemma_walk_split(Set::empty(), Set::empty(), a, b + (c + (d + (e + (f + (g + h))))));
    let s1 = lemma_walk_split(s0.0, s0.1, b, c + (d + (e + (f + (g + h)))));
    let s2 = lemma_walk_split(s1.0, s1.1, c, d + (e + (f + (g + h))));
    let s3 = lemma_walk_split(s2.0, s2.1, d, e + (f + (g + h)));
    let s4 = lemma_walk_split(s3.0, s3.1, e, f + (g + h));
    let s5 = lemma_walk_split(s4.0, s4.1, f, g + h);
    let s6 = lemma_walk_split(s5.0, s5.1, g, h);
    lemma_walk_append(Set::empty(), Set::empty(), a, b + (c + (d + (e + (f + (g + h))))));
    lemma_walk_append(s0.0, s0.1, b, c + (d + (e + (f + (g + h)))));
    lemma_walk_append(s1.0, s1.1, c, d + (e + (f + (g + h))));
    lemma_walk_append(s2.0, s2.1, d, e + (f + (g + h)));
    lemma_walk_append(s3.0, s3.1, e, f + (g + h));
    lemma_walk_append(s4.0, s4.1, f, g + h);
    lemma_walk_append(s5.0, s5.1, g, h);
    lemma_walk_keeps_grounded(Set::empty(), Set::empty(), a);
    lemma_walk_keeps_grounded(s0.0, s0.1, b);
    lemma_walk_keeps_grounded(s1.0, s1.1, c);
    lemma_walk_keeps_grounded(s2.0, s2.1, d);
    lemma_walk_keeps_grounded(s3.0, s3.1, e);
    lemma_walk_keeps_grounded(s4.0, s4.1, f);
    lemma_walk_keeps_grounded(s5.0, s5.1, g);
    assert(s6.1 =~= Set::<u128>::empty());
    lemma_walk_records(s6.0, s6.1, h);
    let key = body_key(body);
    if exists|k: int| 0 <= k < h.len() && grounds_key(#[trigger] h[k], key) {
        let k = choose|k: int| 0 <= k < h.len() && grounds_key(#[trigger] h[k], key);
        assert(h[k] == source_check(s, s.sources@[k]));
        let other = h[k].ground->0;
        lemma_body_key_injective(other, body);
        assert(s.sources@[k].shape == (SpatialSourceShape::PhysicalGround { body }));
    }
}

/// A structure with no records and a nonzero namespace passes the discrete
/// checks; so every structure grown from `SpatialStructure::new` of a nonzero
/// namespace by accepted builder calls does.
pub proof fn lemma_empty_structure_passes(s: SpatialStructure)
    requires
        s.namespace != 0,
        s.bodies@.len() == 0,
        s.point_features@.len() == 0,
        s.frame_features@.len() == 0,
        s.axis_features@.len() == 0,
        s.plane_features@.len() == 0,
        s.coordinates@.len() == 0,
        s.mode_monitors@.len() == 0,
        s.sources@.len() == 0,
    ensures
        structure_error(s) is None,
{
    assert(structure_checks(s) =~= Seq::<IdentityCheck>::empty());
    assert(identity_walk(Set::empty(), Set::empty(), structure_checks(s)) == Ok::<(Set<u64>, Set<u128>), SpatialAssemblyError>((Set::empty(), Set::empty())));
    assert(driver_conflict(s.sources@) is None);
}

// ---------------------------------------------------------------------------
// Whole builder sequences.

/// `new` is what one builder call leaves of `old`: `old` itself (a rejected
/// call), or `old` with one object added whose checks pass (an accepted call).
pub open spec fn builder_step(old: SpatialStructure, new: SpatialStructure) -> bool {
    ||| new == old
    ||| exists|label: String, pose_guess: [u64; 7]| {
        &&& #[trigger] body_added(old, new, SpatialBodyRecord { id: SpatialBodyId { namespace: old.namespace, ordinal: old.next_id }, label, pose_guess, pose: None })
        &&& exhausted(old) is None
        &&& label_error(label@, "body") is None
    }
    ||| exists|label: String, body: SpatialBodyId, local: SpatialLocalGeometry| {
        &&& #[trigger] point_feature_added(old, new, SpatialFeatureRecord { id: SpatialPointFeatureId { namespace: old.namespace, ordinal: old.next_id }, label, body, local, geometry: None })
        &&& exhausted(old) is None
        &&& feature_error(old, label@, "point feature", body, None) is None
    }
    ||| exists|label: String, body: SpatialBodyId, local: SpatialLocalGeometry| {
        &&& #[trigger] frame_feature_added(old, new, SpatialFeatureRecord { id: SpatialFrameFeatureId { namespace: old.namespace, ordinal: old.next_id }, label, body, local, geometry: None })
        &&& exhausted(old) is None
        &&& feature_error(old, label@, "frame feature", body, None) is None
    }
    ||| exists|label: String, body: SpatialBodyId, local: SpatialLocalGeometry| {
        &&& #[trigger] axis_feature_added(old, new, SpatialFeatureRecord { id: SpatialAxisFeatureId { namespace: old.namespace, ordinal: old.next_id }, label, body, local, geometry: None })
        &&& exhausted(old) is None
        &&& feature_error(old, label@, "axis feature", body, None) is None
    }
    ||| exists|label: String, body: SpatialBodyId, local: SpatialLocalGeometry| {
        &&& #[trigger] plane_feature_added(old, new, SpatialFeatureRecord { id: SpatialPlaneFeatureId { namespace: old.namespace, ordinal: old.next_id }, label, body, local, geometry: None })
        &&& exhausted(old) is None
        &&& feature_error(old, label@, "plane feature", body, None) is None
    }
    ||| exists|label: String, field: &'static str, kind: SpatialCoordinateKind| {
        &&& #[trigger] coordinate_added(old, new, SpatialCoordinate { id: SpatialCoordinateId { namespace: old.namespace, ordinal: old.next_id }, label, kind })
        &&& exhausted(old) is None
        &&& #[trigger] label_error(label@, field) is None
        &&& coordinate_parent_error(old, kind) is None
    }
    ||| exists|label: String, field: &'static str, kind: SpatialModeMonitorKind| {
        &&& #[trigger] monitor_added(old, new, SpatialModeMonitor { id: SpatialModeMonitorId { namespace: old.namespace, ordinal: old.next_id }, label, kind })
        &&& exhausted(old) is None
        &&& #[trigger] label_error(label@, field) is None
        &&& monitor_kind_error(old, kind) is None
    }
    ||| exists|label: String, field: &'static str, shape: SpatialSourceShape, values: Option<SpatialValueRejection>, numbers: SpatialSourceNumbers| {
        &&& #[trigger] source_added(old, new, SpatialSourceRecord { id: SpatialSourceId { namespace: old.namespace, ordinal: old.next_id }, label, shape, numbers, values: None })
        &&& exhausted(old) is None
        &&& #[trigger] label_error(label@, field) is None
        &&& #[trigger] shape_error(old, shape, values) is None
    }
}

/// One builder call keeps a structure that passes its checks passing.
pub proof fn lemma_builder_step_keeps_structure(old: SpatialStructure, new: SpatialStructure)
    requires
        structure_error(old) is None,
        old.next_id > 0,
        builder_step(old, new),
    ensures
        structure_error(new) is None,
        new.next_id > 0,
{
    if new == old {
    } else if exists|label: String, pose_guess: [u64; 7]| {
        &&& #[trigger] body_added(old, new, SpatialBodyRecord { id: SpatialBodyId { namespace: old.namespace, ordinal: old.next_id }, label, pose_guess, pose: None })
        &&& exhausted(old) is None
        &&& label_error(label@, "body") is None
    } {
        let (label, pose_guess) = choose|label: String, pose_guess: [u64; 7]| {
            &&& #[trigger] body_added(old, new, SpatialBodyRecord { id: SpatialBodyId { namespace: old.namespace, ordinal: old.next_id }, label, pose_guess, pose: None })
            &&& exhausted(old) is None
            &&& label_error(label@, "body") is None
        };
        lemma_added_body_keeps_structure(old, new, label, pose_guess);
    } else if exists|label: String, body: SpatialBodyId, local: SpatialLocalGeometry| {
        &&& #[trigger] point_feature_added(old, new, SpatialFeatureRecord { id: SpatialPointFeatureId { namespace: old.namespace, ordinal: old.next_id }, label, body, local, geometry: None })
        &&& exhausted(old) is None
        &&& feature_error(old, label@, "point feature", body, None) is None
    } {
        let (label, body, local) = choose|label: String, body: SpatialBodyId, local: SpatialLocalGeometry| {
            &&& #[trigger] point_feature_added(old, new, SpatialFeatureRecord { id: SpatialPointFeatureId { namespace: old.namespace, ordinal: old.next_id }, label, body, local, geometry: None })
            &&& exhausted(old) is None
            &&& feature_error(old, label@, "point feature", body, None) is None
        };
        lemma_added_point_feature_keeps_structure(old, new, label, body, local);
    } else if exists|label: String, body: SpatialBodyId, local: SpatialLocalGeometry| {
        &&& #[trigger] frame_feature_added(old, new, SpatialFeatureRecord { id: SpatialFrameFeatureId { namespace: old.namespace, ordinal: old.next_id }, label, body, local, geometry: None })
        &&& exhausted(old) is None
        &&& feature_error(old, label@, "frame feature", body, None) is None
    } {
        let (label, body, local) = choose|label: String, body: SpatialBodyId, local: SpatialLocalGeometry| {
            &&& #[trigger] frame_feature_added(old, new, SpatialFeatureRecord { id: SpatialFrameFeatureId { namespace: old.namespace, ordinal: old.next_id }, label, body, local, geometry: None })
            &&& exhausted(old) is None
            &&& feature_error(old, label@, "frame feature", body, None) is None
        };
        lemma_added_frame_feature_keeps_structure(old, new, label, body, local);
    } else if exists|label: String, body: SpatialBodyId, local: SpatialLocalGeometry| {
        &&& #[trigger] axis_feature_added(old, new, SpatialFeatureRecord { id: SpatialAxisFeatureId { namespace: old.namespace, ordinal: old.next_id }, label, body, local, geometry: None })
        &&& exhausted(old) is None
        &&& feature_error(old, label@, "axis feature", body, None) is None
    } {
        let (label, body, local) = choose|label: String, body: SpatialBodyId, local: SpatialLocalGeometry| {
            &&& #[trigger] axis_feature_added(old, new, SpatialFeatureRecord { id: SpatialAxisFeatureId { namespace: old.namespace, ordinal: old.next_id }, label, body, local, geometry: None })
            &&& exhausted(old) is None
            &&& feature_error(old, label@, "axis feature", body, None) is None
        };
        lemma_added_axis_feature_keeps_structure(old, new, label, body, local);
    } else if exists|label: String, body: SpatialBodyId, local: SpatialLocalGeometry| {
        &&& #[trigger] plane_feature_added(old, new, SpatialFeatureRecord { id: SpatialPlaneFeatureId { namespace: old.namespace, ordinal: old.next_id }, label, body, local, geometry: None })
        &&& exhausted(old) is None
        &&& feature_error(old, label@, "plane feature", body, None) is None
    } {
        let (label, body, local) = choose|label: String, body: SpatialBodyId, local: SpatialLocalGeometry| {
            &&& #[trigger] plane_feature_added(old, new, SpatialFeatureRecord { id: SpatialPlaneFeatureId { namespace: old.namespace, ordinal: old.next_id }, label, body, local, geometry: None })
            &&& exhausted(old) is None
            &&& feature_error(old, label@, "plane feature", body, None) is None
        };
        lemma_added_plane_feature_keeps_structure(old, new, label, body, local);
    } else if exists|label: String, field: &'static str, kind: SpatialCoordinateKind| {
        &&& #[trigger] coordinate_added(old, new, SpatialCoordinate { id: SpatialCoordinateId { namespace: old.namespace, ordinal: old.next_id }, label, kind })
        &&& exhausted(old) is None
        &&& #[trigger] label_error(label@, field) is None
        &&& coordinate_parent_error(old, kind) is None
    } {
        let (label, field, kind) = choose|label: String, field: &'static str, kind: SpatialCoordinateKind| {
            &&& #[trigger] coordinate_added(old, new, SpatialCoordinate { id: SpatialCoordinateId { namespace: old.namespace, ordinal: old.next_id }, label, kind })
            &&& exhausted(old) is None
            &&& #[trigger] label_error(label@, field) is None
            &&& coordinate_parent_error(old, kind) is None
        };
        lemma_added_coordinate_keeps_structure(old, new, label, field, kind);
    } else if exists|label: String, field: &'static str, kind: SpatialModeMonitorKind| {
        &&& #[trigger] monitor_added(old, new, SpatialModeMonitor { id: SpatialModeMonitorId { namespace: old.namespace, ordinal: old.next_id }, label, kind })
        &&& exhausted(old) is None
        &&& #[trigger] label_error(label@, field) is None
        &&& monitor_kind_error(old, kind) is None
    } {
        let (label, field, kind) = choose|label: String, field: &'static str, kind: SpatialModeMonitorKind| {
            &&& #[trigger] monitor_added(old, new, SpatialModeMonitor { id: SpatialModeMonitorId { namespace: old.namespace, ordinal: old.next_id }, label, kind })
            &&& exhausted(old) is None
            &&& #[trigger] label_error(label@, field) is None
            &&& monitor_kind_error(old, kind) is None
        };
        lemma_added_monitor_keeps_structure(old, new, label, field, kind);
    } else {
        let (label, field, shape, values, numbers) = choose|label: String, field: &'static str, shape: SpatialSourceShape, values: Option<SpatialValueRejection>, numbers: SpatialSourceNumbers| {
            &&& #[trigger] source_added(old, new, SpatialSourceRecord { id: SpatialSourceId { namespace: old.namespace, ordinal: old.next_id }, label, shape, numbers, values: None })
            &&& exhausted(old) is None
            &&& #[trigger] label_error(label@, field) is None
            &&& #[trigger] shape_error(old, shape, values) is None
        };
        lemma_added_source_keeps_structure(old, new, label, field, shape, values, numbers);
    }
}

proof fn lemma_steps_keep_structure(states: Seq<SpatialStructure>, k: int)
    requires
        0 <= k < states.len(),
        structure_error(states[0]) is None,
        states[0].next_id > 0,
        forall|j: int| 0 <= j < states.len() - 1 ==> builder_step(#[trigger] states[j], states[j + 1]),
    ensures
        structure_error(states[k]) is None,
        states[k].next_id > 0,
    decreases k,
{
    if k > 0 {
        lemma_steps_keep_structure(states, k - 1);
        assert(builder_step(states[k - 1], states[k]));
        lemma_builder_step_keeps_structure(states[k - 1], states[k]);
    }
}

/// A structure built from a fresh one (nonzero namespace, first identity one,
/// nothing listed) by any sequence of builder calls, each accepted or
/// rejected, passes the discrete structural checks.
pub proof fn lemma_builder_sequence_passes(states: Seq<SpatialStructure>)
    requires
        states.len() > 0,
        states[0].namespace != 0,
        states[0].next_id == 1,
        states[0].bodies@.len() == 0,
        states[0].point_features@.len() == 0,
        states[0].frame_features@.len() == 0,
        states[0].axis_features@.len() == 0,
        states[0].plane_features@.len() == 0,
        states[0].coordinates@.len() == 0,
        states[0].mode_monitors@.len() == 0,
        states[0].sources@.len() == 0,
        forall|j: int| 0 <= j < states.len() - 1 ==> builder_step(#[trigger] states[j], states[j + 1]),
    ensures
        structure_error(states.last()) is None,
{
    lemma_empty_structure_passes(states[0]);
    lemma_steps_keep_structure(states, states.len() - 1);
}


proof fn lemma_steps_keep_policy(states: Seq<SpatialStructure>, k: int)
    requires
        0 <= k < states.len(),
        forall|j: int| 0 <= j < states.len() - 1 ==> builder_step(#[trigger] states[j], states[j + 1]),
    ensures
        states[k].gauge_policy == states[0].gauge_policy,
    decreases k,
{
    if k > 0 {
        lemma_steps_keep_policy(states, k - 1);
        assert(builder_step(states[k - 1], states[k]));
    }
}

/// A structure built from a fresh one by any sequence of builder calls, each
/// accepted or rejected, keeps the default gauge policy, under which the gauge
/// check accepts every certification of its components: with the discrete
/// checks passing, `validate_spatial_structure` accepts it.
pub proof fn lemma_builder_sequence_validates(states: Seq<SpatialStructure>)
    requires
        states.len() > 0,
        states[0].namespace != 0,
        states[0].next_id == 1,
        states[0].gauge_policy == SpatialGaugePolicy::LowestPersistentBody,
        states[0].bodies@.len() == 0,
        states[0].point_features@.len() == 0,
        states[0].frame_features@.len() == 0,
        states[0].axis_features@.len() == 0,
        states[0].plane_features@.len() == 0,
        states[0].coordinates@.len() == 0,
        states[0].mode_monitors@.len() == 0,
        states[0].sources@.len() == 0,
        forall|j: int| 0 <= j < states.len() - 1 ==> builder_step(#[trigger] states[j], states[j + 1]),
    ensures
        structure_error(states.last()) is None,
        states.last().gauge_policy == SpatialGaugePolicy::LowestPersistentBody,
        forall|components: Seq<CertifiedSpatialComponent>, result: Result<(), SpatialAssemblyError>|
            #[trigger] gauge_verdict(states.last(), components, result) ==> result is Ok,
{
    lemma_builder_sequence_passes(states);
    lemma_steps_keep_policy(states, states.len() - 1);
}

} // verus!
