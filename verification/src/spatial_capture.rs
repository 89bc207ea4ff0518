//! Capturing an accepted spatial assembly into a persistent document: every
//! runtime object receives the next persistent identity, in the order bodies,
//! point, frame, axis and plane features, sources, coordinates, mode monitors;
//! records are then translated through that map.

use vstd::prelude::*;
use crate::idmap::{lemma_persistent_of_first, persistent_of, runtime_of};
use crate::ids::{SpatialDocumentId, SpatialPersistentId};
use crate::runtime_ids::{
    SpatialAxisFeatureId, SpatialBodyId, SpatialCoordinateId, SpatialFrameFeatureId, SpatialModeMonitorId,
    SpatialPlaneFeatureId, SpatialPointFeatureId, SpatialSourceId,
};
use crate::spatial::{SpatialCoordinate, SpatialCoordinateKind, SpatialModeMonitor, SpatialModeMonitorKind};
use crate::spatial_document::{
    capture_coordinate, capture_monitor, captured_coordinate, captured_feature, captured_monitor, captured_source,
    coordinate_capture, lemma_one_to_one_bijective, lemma_one_to_one_inverse, monitor_capture, pairs_one_to_one, persistent_body,
    persistent_coordinate, persistent_feature, persistent_monitor, persistent_source, SpatialAssemblyRuntimeMap,
    SpatialDocumentError, SpatialRuntimeFeature,
};
use crate::spatial_document_structure::SpatialDocumentRecord;
use crate::spatial_lowering::{
    accepting_verdicts, capture_source, captured_body, coordinate_lowering, driver_target_of,
    lemma_coordinate_capture_round_trip, lemma_monitor_capture_round_trip, lemma_source_capture_round_trip,
    monitor_lowering, source_capture, source_lowering, CoordinateRecord, MonitorRecord, SourceRecord,
};
use crate::spatial_structure::SpatialLocalGeometry;
use crate::spatial_structure::{
    body_checks, body_listed, coordinate_check, coordinate_checks, coordinate_kind, coordinate_parent_error,
    feature_body, feature_check, feature_checks, identity_walk, lemma_body_listed, lemma_walk_ok,
    lemma_walk_split, monitor_check, monitor_checks, monitor_error, source_check, source_checks, source_error,
    source_shape, structure_checks, structure_error, unknown_point_error, IdentityCheck, SpatialBodyRecord,
    SpatialFeatureRecord, SpatialSourceRecord, SpatialSourceShape, SpatialStructure,
};

verus! {

/// Consecutive persistent identities from `start`, paired in order with `runtimes`.
pub open spec fn allocated<R>(start: int, runtimes: Seq<R>) -> Seq<(SpatialPersistentId, R)> {
    Seq::new(runtimes.len(), |i: int| (SpatialPersistentId((start + i) as u128), runtimes[i]))
}

/// Runtime identities of the bodies, in order.
pub open spec fn body_runtimes(s: SpatialStructure) -> Seq<SpatialBodyId> {
    s.bodies@.map_values(|r: SpatialBodyRecord| r.id)
}

/// Runtime identities of the point, frame, axis and plane features, in that order.
pub open spec fn feature_runtimes(s: SpatialStructure) -> Seq<SpatialRuntimeFeature> {
    s.point_features@.map_values(|r: SpatialFeatureRecord<SpatialPointFeatureId>| SpatialRuntimeFeature::Point(r.id))
        + s.frame_features@.map_values(|r: SpatialFeatureRecord<SpatialFrameFeatureId>| SpatialRuntimeFeature::Frame(r.id))
        + s.axis_features@.map_values(|r: SpatialFeatureRecord<SpatialAxisFeatureId>| SpatialRuntimeFeature::Axis(r.id))
        + s.plane_features@.map_values(|r: SpatialFeatureRecord<SpatialPlaneFeatureId>| SpatialRuntimeFeature::Plane(r.id))
}

/// Runtime identities of the sources, in order.
pub open spec fn source_runtimes(s: SpatialStructure) -> Seq<SpatialSourceId> {
    s.sources@.map_values(|r: SpatialSourceRecord| r.id)
}

/// Runtime identities of the coordinates, in order.
pub open spec fn coordinate_runtimes(s: SpatialStructure) -> Seq<SpatialCoordinateId> {
    s.coordinates@.map_values(|c: SpatialCoordinate| c.id)
}

/// Runtime identities of the mode monitors, in order.
pub open spec fn monitor_runtimes(s: SpatialStructure) -> Seq<SpatialModeMonitorId> {
    s.mode_monitors@.map_values(|m: SpatialModeMonitor| m.id)
}

/// Number of objects that receive a persistent identity.
pub open spec fn object_count(s: SpatialStructure) -> int {
    (body_runtimes(s).len() + feature_runtimes(s).len() + source_runtimes(s).len()
        + coordinate_runtimes(s).len() + monitor_runtimes(s).len()) as int
}

/// `map` gives the objects of `s` consecutive identities after the document
/// identity, in the order bodies, features, sources, coordinates, monitors.
pub open spec fn map_captured(id: SpatialDocumentId, s: SpatialStructure, map: SpatialAssemblyRuntimeMap) -> bool {
    let bodies = id.0 + 1;
    let features = bodies + body_runtimes(s).len();
    let sources = features + feature_runtimes(s).len();
    let coordinates = sources + source_runtimes(s).len();
    let monitors = coordinates + coordinate_runtimes(s).len();
    &&& map.document == id
    &&& map.bodies@ == allocated(bodies, body_runtimes(s))
    &&& map.features@ == allocated(features, feature_runtimes(s))
    &&& map.sources@ == allocated(sources, source_runtimes(s))
    &&& map.coordinates@ == allocated(coordinates, coordinate_runtimes(s))
    &&& map.monitors@ == allocated(monitors, monitor_runtimes(s))
}

fn allocate_from<R: Copy>(start: u128, runtimes: &Vec<R>) -> (pairs: Vec<(SpatialPersistentId, R)>)
    requires
        start + runtimes@.len() <= u128::MAX,
    ensures
        pairs@ == allocated(start as int, runtimes@),
{
    let mut pairs: Vec<(SpatialPersistentId, R)> = Vec::new();
    let mut i: usize = 0;
    while i < runtimes.len()
        invariant
            i <= runtimes@.len(),
            start + runtimes@.len() <= u128::MAX,
            pairs@ == allocated(start as int, runtimes@.take(i as int)),
        decreases runtimes@.len() - i,
    {
        let id = SpatialPersistentId(start + i as u128);
        pairs.push((id, runtimes[i]));
        i = i + 1;
        proof {
            assert(pairs@ =~= allocated(start as int, runtimes@.take(i as int)));
        }
    }
    proof {
        assert(runtimes@.take(i as int) =~= runtimes@);
    }
    pairs
}

fn body_ids(records: &Vec<SpatialBodyRecord>) -> (ids: Vec<SpatialBodyId>)
    ensures
        ids@ == records@.map_values(|r: SpatialBodyRecord| r.id),
{
    let mut ids: Vec<SpatialBodyId> = Vec::new();
    let mut i: usize = 0;
    while i < records.len()
        invariant
            i <= records@.len(),
            ids@ == records@.take(i as int).map_values(|r: SpatialBodyRecord| r.id),
        decreases records@.len() - i,
    {
        ids.push(records[i].id);
        i = i + 1;
        proof {
            assert(ids@ =~= records@.take(i as int).map_values(|r: SpatialBodyRecord| r.id));
        }
    }
    proof {
        assert(records@.take(i as int) =~= records@);
    }
    ids
}

fn source_ids(records: &Vec<SpatialSourceRecord>) -> (ids: Vec<SpatialSourceId>)
    ensures
        ids@ == records@.map_values(|r: SpatialSourceRecord| r.id),
{
    let mut ids: Vec<SpatialSourceId> = Vec::new();
    let mut i: usize = 0;
    while i < records.len()
        invariant
            i <= records@.len(),
            ids@ == records@.take(i as int).map_values(|r: SpatialSourceRecord| r.id),
        decreases records@.len() - i,
    {
        ids.push(records[i].id);
        i = i + 1;
        proof {
            assert(ids@ =~= records@.take(i as int).map_values(|r: SpatialSourceRecord| r.id));
        }
    }
    proof {
        assert(records@.take(i as int) =~= records@);
    }
    ids
}

fn coordinate_ids(records: &Vec<SpatialCoordinate>) -> (ids: Vec<SpatialCoordinateId>)
    ensures
        ids@ == records@.map_values(|c: SpatialCoordinate| c.id),
{
    let mut ids: Vec<SpatialCoordinateId> = Vec::new();
    let mut i: usize = 0;
    while i < records.len()
        invariant
            i <= records@.len(),
            ids@ == records@.take(i as int).map_values(|c: SpatialCoordinate| c.id),
        decreases records@.len() - i,
    {
        ids.push(records[i].id);
        i = i + 1;
        proof {
            assert(ids@ =~= records@.take(i as int).map_values(|c: SpatialCoordinate| c.id));
        }
    }
    proof {
        assert(records@.take(i as int) =~= records@);
    }
    ids
}

fn monitor_ids(records: &Vec<SpatialModeMonitor>) -> (ids: Vec<SpatialModeMonitorId>)
    ensures
        ids@ == records@.map_values(|m: SpatialModeMonitor| m.id),
{
    let mut ids: Vec<SpatialModeMonitorId> = Vec::new();
    let mut i: usize = 0;
    while i < records.len()
        invariant
            i <= records@.len(),
            ids@ == records@.take(i as int).map_values(|m: SpatialModeMonitor| m.id),
        decreases records@.len() - i,
    {
        ids.push(records[i].id);
        i = i + 1;
        proof {
            assert(ids@ =~= records@.take(i as int).map_values(|m: SpatialModeMonitor| m.id));
        }
    }
    proof {
        assert(records@.take(i as int) =~= records@);
    }
    ids
}

fn feature_ids(s: &SpatialStructure) -> (ids: Vec<SpatialRuntimeFeature>)
    ensures
        ids@ == feature_runtimes(*s),
{
    let ghost points = s.point_features@.map_values(|r: SpatialFeatureRecord<SpatialPointFeatureId>| SpatialRuntimeFeature::Point(r.id));
    let ghost frames = s.frame_features@.map_values(|r: SpatialFeatureRecord<SpatialFrameFeatureId>| SpatialRuntimeFeature::Frame(r.id));
    let ghost axes = s.axis_features@.map_values(|r: SpatialFeatureRecord<SpatialAxisFeatureId>| SpatialRuntimeFeature::Axis(r.id));
    let ghost planes = s.plane_features@.map_values(|r: SpatialFeatureRecord<SpatialPlaneFeatureId>| SpatialRuntimeFeature::Plane(r.id));
    let mut ids: Vec<SpatialRuntimeFeature> = Vec::new();
    let mut i: usize = 0;
    while i < s.point_features.len()
        invariant
            i <= s.point_features@.len(),
            points == s.point_features@.map_values(|r: SpatialFeatureRecord<SpatialPointFeatureId>| SpatialRuntimeFeature::Point(r.id)),
            ids@ == points.take(i as int),
        decreases s.point_features@.len() - i,
    {
        ids.push(SpatialRuntimeFeature::Point(s.point_features[i].id));
        i = i + 1;
        proof {
            assert(ids@ =~= points.take(i as int));
        }
    }
    proof {
        assert(points.take(i as int) =~= points);
    }
    let ghost before = ids@;
    let mut i: usize = 0;
    while i < s.frame_features.len()
        invariant
            i <= s.frame_features@.len(),
            frames == s.frame_features@.map_values(|r: SpatialFeatureRecord<SpatialFrameFeatureId>| SpatialRuntimeFeature::Frame(r.id)),
            ids@ == before + frames.take(i as int),
        decreases s.frame_features@.len() - i,
    {
        ids.push(SpatialRuntimeFeature::Frame(s.frame_features[i].id));
        i = i + 1;
        proof {
            assert(ids@ =~= before + frames.take(i as int));
        }
    }
    proof {
        assert(frames.take(i as int) =~= frames);
    }
    let ghost before = ids@;
    let mut i: usize = 0;
    while i < s.axis_features.len()
        invariant
            i <= s.axis_features@.len(),
            axes == s.axis_features@.map_values(|r: SpatialFeatureRecord<SpatialAxisFeatureId>| SpatialRuntimeFeature::Axis(r.id)),
            ids@ == before + axes.take(i as int),
        decreases s.axis_features@.len() - i,
    {
        ids.push(SpatialRuntimeFeature::Axis(s.axis_features[i].id));
        i = i + 1;
        proof {
            assert(ids@ =~= before + axes.take(i as int));
        }
    }
    proof {
        assert(axes.take(i as int) =~= axes);
    }
    let ghost before = ids@;
    let mut i: usize = 0;
    while i < s.plane_features.len()
        invariant
            i <= s.plane_features@.len(),
            planes == s.plane_features@.map_values(|r: SpatialFeatureRecord<SpatialPlaneFeatureId>| SpatialRuntimeFeature::Plane(r.id)),
            ids@ == before + planes.take(i as int),
        decreases s.plane_features@.len() - i,
    {
        ids.push(SpatialRuntimeFeature::Plane(s.plane_features[i].id));
        i = i + 1;
        proof {
            assert(ids@ =~= before + planes.take(i as int));
        }
    }
    proof {
        assert(planes.take(i as int) =~= planes);
    }
    ids
}

/// Gives every runtime object of `s` the next persistent identity of document
/// `id`, in the order bodies, features, sources, coordinates, monitors; also
/// returns the next identity left to allocate.
pub fn capture_runtime_map(id: SpatialDocumentId, s: &SpatialStructure) -> (result: Result<(SpatialAssemblyRuntimeMap, SpatialPersistentId), SpatialDocumentError>)
    ensures
        id.0 == 0 ==> result == Err::<(SpatialAssemblyRuntimeMap, SpatialPersistentId), _>(SpatialDocumentError::InvalidId(0)),
        id.0 != 0 && id.0 + object_count(*s) >= u128::MAX
            ==> result == Err::<(SpatialAssemblyRuntimeMap, SpatialPersistentId), _>(SpatialDocumentError::IdExhausted),
        id.0 != 0 && id.0 + object_count(*s) < u128::MAX ==> (result matches Ok((map, next))
            && map_captured(id, *s, map)
            && next.0 == id.0 + 1 + object_count(*s)),
{
    if id.0 == 0 {
        return Err(SpatialDocumentError::InvalidId(0));
    }
    let bodies = body_ids(&s.bodies);
    let features = feature_ids(s);
    let sources = source_ids(&s.sources);
    let coordinates = coordinate_ids(&s.coordinates);
    let monitors = monitor_ids(&s.mode_monitors);
    proof {
        assert(bodies@.len() == body_runtimes(*s).len());
        assert(sources@.len() == source_runtimes(*s).len());
        assert(coordinates@.len() == coordinate_runtimes(*s).len());
        assert(monitors@.len() == monitor_runtimes(*s).len());
    }
    let room: u128 = u128::MAX - id.0;
    let nb = bodies.len() as u128;
    let nf = features.len() as u128;
    let ns = sources.len() as u128;
    let nc = coordinates.len() as u128;
    let nm = monitors.len() as u128;
    if nb >= room || nf >= room - nb || ns >= room - nb - nf || nc >= room - nb - nf - ns || nm >= room - nb - nf - ns - nc {
        return Err(SpatialDocumentError::IdExhausted);
    }
    let start = id.0 + 1;
    let body_pairs = allocate_from(start, &bodies);
    let feature_pairs = allocate_from(start + nb, &features);
    let source_pairs = allocate_from(start + nb + nf, &sources);
    let coordinate_pairs = allocate_from(start + nb + nf + ns, &coordinates);
    let monitor_pairs = allocate_from(start + nb + nf + ns + nc, &monitors);
    let map = SpatialAssemblyRuntimeMap {
        document: id,
        bodies: body_pairs,
        features: feature_pairs,
        sources: source_pairs,
        coordinates: coordinate_pairs,
        monitors: monitor_pairs,
    };
    Ok((map, SpatialPersistentId(start + nb + nf + ns + nc + nm)))
}

// ---------------------------------------------------------------------------
// The captured map is one-to-one.

/// No value occurs twice in `items`.
pub open spec fn distinct<R>(items: Seq<R>) -> bool {
    forall|i: int, j: int| 0 <= i < j < items.len() ==> #[trigger] items[i] != #[trigger] items[j]
}

proof fn lemma_allocated_one_to_one<R>(start: int, runtimes: Seq<R>)
    requires
        0 <= start,
        start + runtimes.len() <= u128::MAX,
        distinct(runtimes),
    ensures
        pairs_one_to_one(allocated(start, runtimes)),
{
    let pairs = allocated(start, runtimes);
    assert forall|i: int, j: int| 0 <= i < pairs.len() && 0 <= j < pairs.len() && i != j implies
        #[trigger] pairs[i].0 != #[trigger] pairs[j].0 && pairs[i].1 != pairs[j].1 by {
        if i < j {
            assert(runtimes[i] != runtimes[j]);
        } else {
            assert(runtimes[j] != runtimes[i]);
        }
    }
}

pub(crate) proof fn lemma_concat_distinct<R>(a: Seq<R>, b: Seq<R>)
    requires
        distinct(a),
        distinct(b),
        forall|i: int, j: int| 0 <= i < a.len() && 0 <= j < b.len() ==> #[trigger] a[i] != #[trigger] b[j],
    ensures
        distinct(a + b),
{
    let c = a + b;
    assert forall|i: int, j: int| 0 <= i < j < c.len() implies #[trigger] c[i] != #[trigger] c[j] by {
        if j < a.len() {
            assert(c[i] == a[i] && c[j] == a[j]);
        } else if i < a.len() {
            assert(c[i] == a[i] && c[j] == b[j - a.len()]);
        } else {
            assert(c[i] == b[i - a.len()] && c[j] == b[j - a.len()]);
        }
    }
}

/// Distinct check ordinals of a passing walk.
proof fn lemma_checks_distinct(seen: Set<u64>, grounded: Set<u128>, checks: Seq<IdentityCheck>)
    requires
        identity_walk(seen, grounded, checks) is Ok,
    ensures
        forall|j: int, k: int| 0 <= j < k < checks.len() ==> #[trigger] checks[j].ordinal != #[trigger] checks[k].ordinal,
{
    lemma_walk_ok(seen, grounded, checks);
}

/// Every segment of the checks of a structure that passes has distinct ordinals.
pub(crate) proof fn lemma_segments_distinct(s: SpatialStructure)
    requires
        structure_error(s) is None,
    ensures
        forall|j: int, k: int| 0 <= j < k < body_checks(s).len() ==> #[trigger] body_checks(s)[j].ordinal != #[trigger] body_checks(s)[k].ordinal,
        forall|j: int, k: int| 0 <= j < k < s.point_features@.len() ==> #[trigger] feature_checks(s, s.point_features@, "point feature")[j].ordinal != #[trigger] feature_checks(s, s.point_features@, "point feature")[k].ordinal,
        forall|j: int, k: int| 0 <= j < k < s.frame_features@.len() ==> #[trigger] feature_checks(s, s.frame_features@, "frame feature")[j].ordinal != #[trigger] feature_checks(s, s.frame_features@, "frame feature")[k].ordinal,
        forall|j: int, k: int| 0 <= j < k < s.axis_features@.len() ==> #[trigger] feature_checks(s, s.axis_features@, "axis feature")[j].ordinal != #[trigger] feature_checks(s, s.axis_features@, "axis feature")[k].ordinal,
        forall|j: int, k: int| 0 <= j < k < s.plane_features@.len() ==> #[trigger] feature_checks(s, s.plane_features@, "plane feature")[j].ordinal != #[trigger] feature_checks(s, s.plane_features@, "plane feature")[k].ordinal,
        forall|j: int, k: int| 0 <= j < k < coordinate_checks(s).len() ==> #[trigger] coordinate_checks(s)[j].ordinal != #[trigger] coordinate_checks(s)[k].ordinal,
        forall|j: int, k: int| 0 <= j < k < monitor_checks(s).len() ==> #[trigger] monitor_checks(s)[j].ordinal != #[trigger] monitor_checks(s)[k].ordinal,
        forall|j: int, k: int| 0 <= j < k < source_checks(s).len() ==> #[trigger] source_checks(s)[j].ordinal != #[trigger] source_checks(s)[k].ordinal,
{
    let b = body_checks(s);
    let p = feature_checks(s, s.point_features@, "point feature");
    let f = feature_checks(s, s.frame_features@, "frame feature");
    let a = feature_checks(s, s.axis_features@, "axis feature");
    let l = feature_checks(s, s.plane_features@, "plane feature");
    let c = coordinate_checks(s);
    let m = monitor_checks(s);
    let r = source_checks(s);
    assert(structure_checks(s) == b + (p + (f + (a + (l + (c + (m + r)))))));
    let e0: Set<u64> = Set::empty();
    let g0: Set<u128> = Set::empty();
    let s1 = lemma_walk_split(e0, g0, b, p + (f + (a + (l + (c + (m + r))))));
    lemma_checks_distinct(e0, g0, b);
    let s2 = lemma_walk_split(s1.0, s1.1, p, f + (a + (l + (c + (m + r)))));
    lemma_checks_distinct(s1.0, s1.1, p);
    let s3 = lemma_walk_split(s2.0, s2.1, f, a + (l + (c + (m + r))));
    lemma_checks_distinct(s2.0, s2.1, f);
    let s4 = lemma_walk_split(s3.0, s3.1, a, l + (c + (m + r)));
    lemma_checks_distinct(s3.0, s3.1, a);
    let s5 = lemma_walk_split(s4.0, s4.1, l, c + (m + r));
    lemma_checks_distinct(s4.0, s4.1, l);
    let s6 = lemma_walk_split(s5.0, s5.1, c, m + r);
    lemma_checks_distinct(s5.0, s5.1, c);
    let s7 = lemma_walk_split(s6.0, s6.1, m, r);
    lemma_checks_distinct(s6.0, s6.1, m);
    lemma_checks_distinct(s7.0, s7.1, r);
}

/// The persistent-to-runtime map captured from a structure that passes its
/// checks pairs every persistent identity with one runtime object and every
/// runtime object with one persistent identity.
pub proof fn lemma_captured_map_one_to_one(id: SpatialDocumentId, s: SpatialStructure, map: SpatialAssemblyRuntimeMap)
    requires
        structure_error(s) is None,
        id.0 + object_count(s) < u128::MAX,
        map_captured(id, s, map),
    ensures
        pairs_one_to_one(map.bodies@),
        pairs_one_to_one(map.features@),
        pairs_one_to_one(map.sources@),
        pairs_one_to_one(map.coordinates@),
        pairs_one_to_one(map.monitors@),
{
    lemma_segments_distinct(s);
    let bodies = body_runtimes(s);
    assert forall|i: int, j: int| 0 <= i < j < bodies.len() implies #[trigger] bodies[i] != #[trigger] bodies[j] by {
        assert(body_checks(s)[i].ordinal != body_checks(s)[j].ordinal);
    }
    let points = s.point_features@.map_values(|r: SpatialFeatureRecord<SpatialPointFeatureId>| SpatialRuntimeFeature::Point(r.id));
    let frames = s.frame_features@.map_values(|r: SpatialFeatureRecord<SpatialFrameFeatureId>| SpatialRuntimeFeature::Frame(r.id));
    let axes = s.axis_features@.map_values(|r: SpatialFeatureRecord<SpatialAxisFeatureId>| SpatialRuntimeFeature::Axis(r.id));
    let planes = s.plane_features@.map_values(|r: SpatialFeatureRecord<SpatialPlaneFeatureId>| SpatialRuntimeFeature::Plane(r.id));
    assert forall|i: int, j: int| 0 <= i < j < points.len() implies #[trigger] points[i] != #[trigger] points[j] by {
        assert(feature_checks(s, s.point_features@, "point feature")[i].ordinal != feature_checks(s, s.point_features@, "point feature")[j].ordinal);
    }
    assert forall|i: int, j: int| 0 <= i < j < frames.len() implies #[trigger] frames[i] != #[trigger] frames[j] by {
        assert(feature_checks(s, s.frame_features@, "frame feature")[i].ordinal != feature_checks(s, s.frame_features@, "frame feature")[j].ordinal);
    }
    assert forall|i: int, j: int| 0 <= i < j < axes.len() implies #[trigger] axes[i] != #[trigger] axes[j] by {
        assert(feature_checks(s, s.axis_features@, "axis feature")[i].ordinal != feature_checks(s, s.axis_features@, "axis feature")[j].ordinal);
    }
    assert forall|i: int, j: int| 0 <= i < j < planes.len() implies #[trigger] planes[i] != #[trigger] planes[j] by {
        assert(feature_checks(s, s.plane_features@, "plane feature")[i].ordinal != feature_checks(s, s.plane_features@, "plane feature")[j].ordinal);
    }
    lemma_concat_distinct(points, frames);
    lemma_concat_distinct(points + frames, axes);
    lemma_concat_distinct(points + frames + axes, planes);
    let sources = source_runtimes(s);
    assert forall|i: int, j: int| 0 <= i < j < sources.len() implies #[trigger] sources[i] != #[trigger] sources[j] by {
        assert(source_checks(s)[i].ordinal != source_checks(s)[j].ordinal);
    }
    let coordinates = coordinate_runtimes(s);
    assert forall|i: int, j: int| 0 <= i < j < coordinates.len() implies #[trigger] coordinates[i] != #[trigger] coordinates[j] by {
        assert(coordinate_checks(s)[i].ordinal != coordinate_checks(s)[j].ordinal);
    }
    let monitors = monitor_runtimes(s);
    assert forall|i: int, j: int| 0 <= i < j < monitors.len() implies #[trigger] monitors[i] != #[trigger] monitors[j] by {
        assert(monitor_checks(s)[i].ordinal != monitor_checks(s)[j].ordinal);
    }
    let start = id.0 + 1;
    lemma_allocated_one_to_one(start, bodies);
    lemma_allocated_one_to_one(start + bodies.len(), feature_runtimes(s));
    lemma_allocated_one_to_one(start + bodies.len() + feature_runtimes(s).len(), sources);
    lemma_allocated_one_to_one(start + bodies.len() + feature_runtimes(s).len() + sources.len(), coordinates);
    lemma_allocated_one_to_one(start + bodies.len() + feature_runtimes(s).len() + sources.len() + coordinates.len(), monitors);
}

// ---------------------------------------------------------------------------
// Capture of source, coordinate and monitor records.

/// The persistent record of a runtime source: its identity, then its definition.
pub open spec fn source_record_capture(map: SpatialAssemblyRuntimeMap, r: SpatialSourceRecord) -> Result<SourceRecord, SpatialDocumentError> {
    match captured_source(map, r.id) {
        Err(e) => Err(e),
        Ok(id) => match source_capture(map, r.shape) {
            Err(e) => Err(e),
            Ok(definition) => Ok(SourceRecord { id, label: r.label, definition, numbers: r.numbers }),
        },
    }
}

/// The persistent records of runtime sources, in order, or the first rejection.
pub open spec fn sources_capture(map: SpatialAssemblyRuntimeMap, records: Seq<SpatialSourceRecord>) -> Result<Seq<SourceRecord>, SpatialDocumentError>
    decreases records.len(),
{
    if records.len() == 0 {
        Ok(Seq::empty())
    } else {
        match sources_capture(map, records.drop_last()) {
            Err(e) => Err(e),
            Ok(done) => match source_record_capture(map, records.last()) {
                Err(e) => Err(e),
                Ok(r) => Ok(done.push(r)),
            },
        }
    }
}

/// The persistent record of a runtime coordinate: its identity, then its definition.
pub open spec fn coordinate_record_capture(map: SpatialAssemblyRuntimeMap, c: SpatialCoordinate) -> Result<CoordinateRecord, SpatialDocumentError> {
    match captured_coordinate(map, c.id) {
        Err(e) => Err(e),
        Ok(id) => match coordinate_capture(map, c.kind) {
            Err(e) => Err(e),
            Ok(definition) => Ok(CoordinateRecord { id, label: c.label, definition }),
        },
    }
}

/// The persistent records of runtime coordinates, in order, or the first rejection.
pub open spec fn coordinates_capture(map: SpatialAssemblyRuntimeMap, records: Seq<SpatialCoordinate>) -> Result<Seq<CoordinateRecord>, SpatialDocumentError>
    decreases records.len(),
{
    if records.len() == 0 {
        Ok(Seq::empty())
    } else {
        match coordinates_capture(map, records.drop_last()) {
            Err(e) => Err(e),
            Ok(done) => match coordinate_record_capture(map, records.last()) {
                Err(e) => Err(e),
                Ok(r) => Ok(done.push(r)),
            },
        }
    }
}

/// The persistent record of a runtime mode monitor: its identity, then its definition.
pub open spec fn monitor_record_capture(map: SpatialAssemblyRuntimeMap, m: SpatialModeMonitor) -> Result<MonitorRecord, SpatialDocumentError> {
    match captured_monitor(map, m.id) {
        Err(e) => Err(e),
        Ok(id) => match monitor_capture(map, m.kind) {
            Err(e) => Err(e),
            Ok(definition) => Ok(MonitorRecord { id, label: m.label, definition }),
        },
    }
}

/// The persistent records of runtime mode monitors, in order, or the first rejection.
pub open spec fn monitors_capture(map: SpatialAssemblyRuntimeMap, records: Seq<SpatialModeMonitor>) -> Result<Seq<MonitorRecord>, SpatialDocumentError>
    decreases records.len(),
{
    if records.len() == 0 {
        Ok(Seq::empty())
    } else {
        match monitors_capture(map, records.drop_last()) {
            Err(e) => Err(e),
            Ok(done) => match monitor_record_capture(map, records.last()) {
                Err(e) => Err(e),
                Ok(r) => Ok(done.push(r)),
            },
        }
    }
}

/// A rejection of a prefix is the rejection of the whole list.
proof fn lemma_sources_prefix_error(map: SpatialAssemblyRuntimeMap, records: Seq<SpatialSourceRecord>, k: int)
    requires
        0 <= k <= records.len(),
        sources_capture(map, records.take(k)) is Err,
    ensures
        sources_capture(map, records) == sources_capture(map, records.take(k)),
    decreases records.len() - k,
{
    if k == records.len() {
        assert(records.take(k) =~= records);
    } else {
        assert(records.take(k + 1).drop_last() =~= records.take(k));
        lemma_sources_prefix_error(map, records, k + 1);
    }
}

/// Translates the sources of an assembly into persistent records.
pub fn capture_sources(map: &SpatialAssemblyRuntimeMap, records: &Vec<SpatialSourceRecord>) -> (result: Result<Vec<SourceRecord>, SpatialDocumentError>)
    ensures
        match sources_capture(*map, records@) {
            Ok(captured) => result matches Ok(out) && out@ == captured,
            Err(e) => result == Err::<Vec<SourceRecord>, _>(e),
        },
{
    let mut out: Vec<SourceRecord> = Vec::new();
    let mut i: usize = 0;
    while i < records.len()
        invariant
            i <= records@.len(),
            sources_capture(*map, records@.take(i as int)) == Ok::<Seq<SourceRecord>, SpatialDocumentError>(out@),
        decreases records@.len() - i,
    {
        proof {
            assert(records@.take(i as int + 1).drop_last() =~= records@.take(i as int));
        }
        let record = &records[i];
        let id = match persistent_source(map, record.id) {
            Ok(id) => id,
            Err(e) => {
                proof {
                    lemma_sources_prefix_error(*map, records@, i as int + 1);
                }
                return Err(e);
            },
        };
        let definition = match capture_source(record.shape, map) {
            Ok(definition) => definition,
            Err(e) => {
                proof {
                    lemma_sources_prefix_error(*map, records@, i as int + 1);
                }
                return Err(e);
            },
        };
        out.push(SourceRecord { id, label: record.label.clone(), definition, numbers: record.numbers });
        i = i + 1;
    }
    proof {
        assert(records@.take(i as int) =~= records@);
    }
    Ok(out)
}

/// A rejection of a prefix is the rejection of the whole list.
proof fn lemma_coordinates_prefix_error(map: SpatialAssemblyRuntimeMap, records: Seq<SpatialCoordinate>, k: int)
    requires
        0 <= k <= records.len(),
        coordinates_capture(map, records.take(k)) is Err,
    ensures
        coordinates_capture(map, records) == coordinates_capture(map, records.take(k)),
    decreases records.len() - k,
{
    if k == records.len() {
        assert(records.take(k) =~= records);
    } else {
        assert(records.take(k + 1).drop_last() =~= records.take(k));
        lemma_coordinates_prefix_error(map, records, k + 1);
    }
}

/// Translates the coordinates of an assembly into persistent records.
pub fn capture_coordinates(map: &SpatialAssemblyRuntimeMap, records: &Vec<SpatialCoordinate>) -> (result: Result<Vec<CoordinateRecord>, SpatialDocumentError>)
    ensures
        match coordinates_capture(*map, records@) {
            Ok(captured) => result matches Ok(out) && out@ == captured,
            Err(e) => result == Err::<Vec<CoordinateRecord>, _>(e),
        },
{
    let mut out: Vec<CoordinateRecord> = Vec::new();
    let mut i: usize = 0;
    while i < records.len()
        invariant
            i <= records@.len(),
            coordinates_capture(*map, records@.take(i as int)) == Ok::<Seq<CoordinateRecord>, SpatialDocumentError>(out@),
        decreases records@.len() - i,
    {
        proof {
            assert(records@.take(i as int + 1).drop_last() =~= records@.take(i as int));
        }
        let record = &records[i];
        let id = match persistent_coordinate(map, record.id) {
            Ok(id) => id,
            Err(e) => {
                proof {
                    lemma_coordinates_prefix_error(*map, records@, i as int + 1);
                }
                return Err(e);
            },
        };
        let definition = match capture_coordinate(record.kind, map) {
            Ok(definition) => definition,
            Err(e) => {
                proof {
                    lemma_coordinates_prefix_error(*map, records@, i as int + 1);
                }
                return Err(e);
            },
        };
        out.push(CoordinateRecord { id, label: record.label.clone(), definition });
        i = i + 1;
    }
    proof {
        assert(records@.take(i as int) =~= records@);
    }
    Ok(out)
}

/// A rejection of a prefix is the rejection of the whole list.
proof fn lemma_monitors_prefix_error(map: SpatialAssemblyRuntimeMap, records: Seq<SpatialModeMonitor>, k: int)
    requires
        0 <= k <= records.len(),
        monitors_capture(map, records.take(k)) is Err,
    ensures
        monitors_capture(map, records) == monitors_capture(map, records.take(k)),
    decreases records.len() - k,
{
    if k == records.len() {
        assert(records.take(k) =~= records);
    } else {
        assert(records.take(k + 1).drop_last() =~= records.take(k));
        lemma_monitors_prefix_error(map, records, k + 1);
    }
}

/// Translates the mode monitors of an assembly into persistent records.
pub fn capture_monitors(map: &SpatialAssemblyRuntimeMap, records: &Vec<SpatialModeMonitor>) -> (result: Result<Vec<MonitorRecord>, SpatialDocumentError>)
    ensures
        match monitors_capture(*map, records@) {
            Ok(captured) => result matches Ok(out) && out@ == captured,
            Err(e) => result == Err::<Vec<MonitorRecord>, _>(e),
        },
{
    let mut out: Vec<MonitorRecord> = Vec::new();
    let mut i: usize = 0;
    while i < records.len()
        invariant
            i <= records@.len(),
            monitors_capture(*map, records@.take(i as int)) == Ok::<Seq<MonitorRecord>, SpatialDocumentError>(out@),
        decreases records@.len() - i,
    {
        proof {
            assert(records@.take(i as int + 1).drop_last() =~= records@.take(i as int));
        }
        let record = &records[i];
        let id = match persistent_monitor(map, record.id) {
            Ok(id) => id,
            Err(e) => {
                proof {
                    lemma_monitors_prefix_error(*map, records@, i as int + 1);
                }
                return Err(e);
            },
        };
        let definition = match capture_monitor(record.kind, map) {
            Ok(definition) => definition,
            Err(e) => {
                proof {
                    lemma_monitors_prefix_error(*map, records@, i as int + 1);
                }
                return Err(e);
            },
        };
        out.push(MonitorRecord { id, label: record.label.clone(), definition });
        i = i + 1;
    }
    proof {
        assert(records@.take(i as int) =~= records@);
    }
    Ok(out)
}

proof fn lemma_sources_elements(map: SpatialAssemblyRuntimeMap, records: Seq<SpatialSourceRecord>)
    requires
        sources_capture(map, records) is Ok,
    ensures
        sources_capture(map, records)->Ok_0.len() == records.len(),
        forall|i: int| 0 <= i < records.len() ==> source_record_capture(map, #[trigger] records[i])
            == Ok::<SourceRecord, SpatialDocumentError>(sources_capture(map, records)->Ok_0[i]),
    decreases records.len(),
{
    if records.len() > 0 {
        lemma_sources_elements(map, records.drop_last());
        assert forall|i: int| 0 <= i < records.len() implies source_record_capture(map, #[trigger] records[i])
            == Ok::<SourceRecord, SpatialDocumentError>(sources_capture(map, records)->Ok_0[i]) by {
            if i < records.len() - 1 {
                assert(records[i] == records.drop_last()[i]);
            }
        }
    }
}

proof fn lemma_coordinates_elements(map: SpatialAssemblyRuntimeMap, records: Seq<SpatialCoordinate>)
    requires
        coordinates_capture(map, records) is Ok,
    ensures
        coordinates_capture(map, records)->Ok_0.len() == records.len(),
        forall|i: int| 0 <= i < records.len() ==> coordinate_record_capture(map, #[trigger] records[i])
            == Ok::<CoordinateRecord, SpatialDocumentError>(coordinates_capture(map, records)->Ok_0[i]),
    decreases records.len(),
{
    if records.len() > 0 {
        lemma_coordinates_elements(map, records.drop_last());
        assert forall|i: int| 0 <= i < records.len() implies coordinate_record_capture(map, #[trigger] records[i])
            == Ok::<CoordinateRecord, SpatialDocumentError>(coordinates_capture(map, records)->Ok_0[i]) by {
            if i < records.len() - 1 {
                assert(records[i] == records.drop_last()[i]);
            }
        }
    }
}

proof fn lemma_monitors_elements(map: SpatialAssemblyRuntimeMap, records: Seq<SpatialModeMonitor>)
    requires
        monitors_capture(map, records) is Ok,
    ensures
        monitors_capture(map, records)->Ok_0.len() == records.len(),
        forall|i: int| 0 <= i < records.len() ==> monitor_record_capture(map, #[trigger] records[i])
            == Ok::<MonitorRecord, SpatialDocumentError>(monitors_capture(map, records)->Ok_0[i]),
    decreases records.len(),
{
    if records.len() > 0 {
        lemma_monitors_elements(map, records.drop_last());
        assert forall|i: int| 0 <= i < records.len() implies monitor_record_capture(map, #[trigger] records[i])
            == Ok::<MonitorRecord, SpatialDocumentError>(monitors_capture(map, records)->Ok_0[i]) by {
            if i < records.len() - 1 {
                assert(records[i] == records.drop_last()[i]);
            }
        }
    }
}

/// Capturing the source, coordinate and mode-monitor records of a structure
/// that passes its checks, through the map captured from it, succeeds; each
/// record names the runtime object it was captured from, keeps its label, and
/// lowers back to that object's runtime definition (a driver with its own
/// accepted target, every value passing).
pub proof fn lemma_captured_records_lower_back(id: SpatialDocumentId, s: SpatialStructure, map: SpatialAssemblyRuntimeMap)
    requires
        structure_error(s) is None,
        id.0 + object_count(s) < u128::MAX,
        map_captured(id, s, map),
    ensures
        sources_capture(map, s.sources@) is Ok,
        coordinates_capture(map, s.coordinates@) is Ok,
        monitors_capture(map, s.mode_monitors@) is Ok,
        forall|i: int| 0 <= i < s.sources@.len() ==> {
            let r = #[trigger] sources_capture(map, s.sources@)->Ok_0[i];
            &&& r.label == s.sources@[i].label
            &&& runtime_of(map.sources@, r.id) == Some(s.sources@[i].id)
            &&& source_lowering(map, r.id, r.definition, driver_target_of(s.sources@[i].shape), accepting_verdicts())
                == Ok::<SpatialSourceShape, SpatialDocumentError>(s.sources@[i].shape)
        },
        forall|i: int| 0 <= i < s.coordinates@.len() ==> {
            let r = #[trigger] coordinates_capture(map, s.coordinates@)->Ok_0[i];
            &&& r.label == s.coordinates@[i].label
            &&& runtime_of(map.coordinates@, r.id) == Some(s.coordinates@[i].id)
            &&& coordinate_lowering(map, r.definition) == Ok::<SpatialCoordinateKind, SpatialDocumentError>(s.coordinates@[i].kind)
        },
        forall|i: int| 0 <= i < s.mode_monitors@.len() ==> {
            let r = #[trigger] monitors_capture(map, s.mode_monitors@)->Ok_0[i];
            &&& r.label == s.mode_monitors@[i].label
            &&& runtime_of(map.monitors@, r.id) == Some(s.mode_monitors@[i].id)
            &&& monitor_lowering(map, r.definition) == Ok::<SpatialModeMonitorKind, SpatialDocumentError>(s.mode_monitors@[i].kind)
        },
{
    lemma_capture_succeeds(id, s, map);
    lemma_captured_map_one_to_one(id, s, map);
    lemma_sources_elements(map, s.sources@);
    lemma_coordinates_elements(map, s.coordinates@);
    lemma_monitors_elements(map, s.mode_monitors@);
    assert forall|i: int| 0 <= i < s.sources@.len() implies {
        let r = #[trigger] sources_capture(map, s.sources@)->Ok_0[i];
        &&& r.label == s.sources@[i].label
        &&& runtime_of(map.sources@, r.id) == Some(s.sources@[i].id)
        &&& source_lowering(map, r.id, r.definition, driver_target_of(s.sources@[i].shape), accepting_verdicts())
            == Ok::<SpatialSourceShape, SpatialDocumentError>(s.sources@[i].shape)
    } by {
        let record = s.sources@[i];
        assert(source_record_capture(map, record) is Ok);
        lemma_one_to_one_inverse(map.sources@, record.id);
        lemma_source_capture_round_trip(map, captured_source(map, record.id)->Ok_0, record.shape);
    }
    assert forall|i: int| 0 <= i < s.coordinates@.len() implies {
        let r = #[trigger] coordinates_capture(map, s.coordinates@)->Ok_0[i];
        &&& r.label == s.coordinates@[i].label
        &&& runtime_of(map.coordinates@, r.id) == Some(s.coordinates@[i].id)
        &&& coordinate_lowering(map, r.definition) == Ok::<SpatialCoordinateKind, SpatialDocumentError>(s.coordinates@[i].kind)
    } by {
        let record = s.coordinates@[i];
        assert(coordinate_record_capture(map, record) is Ok);
        lemma_one_to_one_inverse(map.coordinates@, record.id);
        lemma_coordinate_capture_round_trip(map, record.kind);
    }
    assert forall|i: int| 0 <= i < s.mode_monitors@.len() implies {
        let r = #[trigger] monitors_capture(map, s.mode_monitors@)->Ok_0[i];
        &&& r.label == s.mode_monitors@[i].label
        &&& runtime_of(map.monitors@, r.id) == Some(s.mode_monitors@[i].id)
        &&& monitor_lowering(map, r.definition) == Ok::<SpatialModeMonitorKind, SpatialDocumentError>(s.mode_monitors@[i].kind)
    } by {
        let record = s.mode_monitors@[i];
        assert(monitor_record_capture(map, record) is Ok);
        lemma_one_to_one_inverse(map.monitors@, record.id);
        lemma_monitor_capture_round_trip(map, record.kind);
    }
}

// ---------------------------------------------------------------------------
// Capture succeeds on a structure that passes its checks.

pub(crate) proof fn lemma_allocated_finds<R>(start: int, runtimes: Seq<R>, x: R)
    requires
        runtimes.contains(x),
    ensures
        persistent_of(allocated(start, runtimes), x) is Some,
{
    let pairs = allocated(start, runtimes);
    lemma_persistent_of_first(pairs, x);
    let k = choose|k: int| 0 <= k < runtimes.len() && runtimes[k] == x;
    assert(pairs[k].1 == x);
}

proof fn lemma_feature_member<Id>(features: Seq<SpatialFeatureRecord<Id>>, id: Id)
    requires
        feature_body(features, id) is Some,
    ensures
        exists|k: int| 0 <= k < features.len() && (#[trigger] features[k]).id == id,
    decreases features.len(),
{
    if features[0].id != id {
        lemma_feature_member(features.drop_first(), id);
        let k = choose|k: int| 0 <= k < features.drop_first().len() && (#[trigger] features.drop_first()[k]).id == id;
        assert(features[k + 1] == features.drop_first()[k]);
    } else {
        assert(features[0].id == id);
    }
}

proof fn lemma_source_member(sources: Seq<SpatialSourceRecord>, id: SpatialSourceId)
    requires
        source_shape(sources, id) is Some,
    ensures
        sources.map_values(|r: SpatialSourceRecord| r.id).contains(id),
    decreases sources.len(),
{
    let ids = sources.map_values(|r: SpatialSourceRecord| r.id);
    if sources[0].id != id {
        lemma_source_member(sources.drop_first(), id);
        let rest = sources.drop_first().map_values(|r: SpatialSourceRecord| r.id);
        let k = choose|k: int| 0 <= k < rest.len() && rest[k] == id;
        assert(ids[k + 1] == id);
    } else {
        assert(ids[0] == id);
    }
}

proof fn lemma_coordinate_member(coordinates: Seq<SpatialCoordinate>, id: SpatialCoordinateId)
    requires
        coordinate_kind(coordinates, id) is Some,
    ensures
        coordinates.map_values(|c: SpatialCoordinate| c.id).contains(id),
    decreases coordinates.len(),
{
    let ids = coordinates.map_values(|c: SpatialCoordinate| c.id);
    if coordinates[0].id != id {
        lemma_coordinate_member(coordinates.drop_first(), id);
        let rest = coordinates.drop_first().map_values(|c: SpatialCoordinate| c.id);
        let k = choose|k: int| 0 <= k < rest.len() && rest[k] == id;
        assert(ids[k + 1] == id);
    } else {
        assert(ids[0] == id);
    }
}

/// Each listed feature has a persistent identity in the captured map.
proof fn lemma_features_captured(id: SpatialDocumentId, s: SpatialStructure, map: SpatialAssemblyRuntimeMap, feature: SpatialRuntimeFeature)
    requires
        map_captured(id, s, map),
        match feature {
            SpatialRuntimeFeature::Point(x) => feature_body(s.point_features@, x) is Some,
            SpatialRuntimeFeature::Frame(x) => feature_body(s.frame_features@, x) is Some,
            SpatialRuntimeFeature::Axis(x) => feature_body(s.axis_features@, x) is Some,
            SpatialRuntimeFeature::Plane(x) => feature_body(s.plane_features@, x) is Some,
        },
    ensures
        captured_feature(map, feature) is Ok,
{
    let points = s.point_features@.map_values(|r: SpatialFeatureRecord<SpatialPointFeatureId>| SpatialRuntimeFeature::Point(r.id));
    let frames = s.frame_features@.map_values(|r: SpatialFeatureRecord<SpatialFrameFeatureId>| SpatialRuntimeFeature::Frame(r.id));
    let axes = s.axis_features@.map_values(|r: SpatialFeatureRecord<SpatialAxisFeatureId>| SpatialRuntimeFeature::Axis(r.id));
    let planes = s.plane_features@.map_values(|r: SpatialFeatureRecord<SpatialPlaneFeatureId>| SpatialRuntimeFeature::Plane(r.id));
    let all = feature_runtimes(s);
    assert(all == points + frames + axes + planes);
    match feature {
        SpatialRuntimeFeature::Point(x) => {
            lemma_feature_member(s.point_features@, x);
            let k = choose|k: int| 0 <= k < s.point_features@.len() && (#[trigger] s.point_features@[k]).id == x;
            assert(all[k] == feature);
        },
        SpatialRuntimeFeature::Frame(x) => {
            lemma_feature_member(s.frame_features@, x);
            let k = choose|k: int| 0 <= k < s.frame_features@.len() && (#[trigger] s.frame_features@[k]).id == x;
            assert(all[points.len() + k] == feature);
        },
        SpatialRuntimeFeature::Axis(x) => {
            lemma_feature_member(s.axis_features@, x);
            let k = choose|k: int| 0 <= k < s.axis_features@.len() && (#[trigger] s.axis_features@[k]).id == x;
            assert(all[points.len() + frames.len() + k] == feature);
        },
        SpatialRuntimeFeature::Plane(x) => {
            lemma_feature_member(s.plane_features@, x);
            let k = choose|k: int| 0 <= k < s.plane_features@.len() && (#[trigger] s.plane_features@[k]).id == x;
            assert(all[points.len() + frames.len() + axes.len() + k] == feature);
        },
    }
    lemma_allocated_finds(id.0 + 1 + body_runtimes(s).len(), all, feature);
}

/// The coordinate, monitor and source checks of a structure that passes all
/// find nothing to reject.
pub(crate) proof fn lemma_records_pass(s: SpatialStructure)
    requires
        structure_error(s) is None,
    ensures
        forall|k: int| 0 <= k < s.point_features@.len() ==> body_listed(s.bodies@, (#[trigger] s.point_features@[k]).body),
        forall|k: int| 0 <= k < s.frame_features@.len() ==> body_listed(s.bodies@, (#[trigger] s.frame_features@[k]).body),
        forall|k: int| 0 <= k < s.axis_features@.len() ==> body_listed(s.bodies@, (#[trigger] s.axis_features@[k]).body),
        forall|k: int| 0 <= k < s.plane_features@.len() ==> body_listed(s.bodies@, (#[trigger] s.plane_features@[k]).body),
        forall|k: int| 0 <= k < s.coordinates@.len() ==> coordinate_parent_error(s, (#[trigger] s.coordinates@[k]).kind) is None,
        forall|k: int| 0 <= k < s.mode_monitors@.len() ==> monitor_error(s, (#[trigger] s.mode_monitors@[k]).kind) is None,
        forall|k: int| 0 <= k < s.sources@.len() ==> source_error(s, #[trigger] s.sources@[k]) is None,
{
    let b = body_checks(s);
    let p = feature_checks(s, s.point_features@, "point feature");
    let f = feature_checks(s, s.frame_features@, "frame feature");
    let a = feature_checks(s, s.axis_features@, "axis feature");
    let l = feature_checks(s, s.plane_features@, "plane feature");
    let c = coordinate_checks(s);
    let m = monitor_checks(s);
    let r = source_checks(s);
    assert(structure_checks(s) == b + (p + (f + (a + (l + (c + (m + r)))))));
    let e0: Set<u64> = Set::empty();
    let g0: Set<u128> = Set::empty();
    let s1 = lemma_walk_split(e0, g0, b, p + (f + (a + (l + (c + (m + r))))));
    let s2 = lemma_walk_split(s1.0, s1.1, p, f + (a + (l + (c + (m + r)))));
    lemma_walk_ok(s1.0, s1.1, p);
    let s3 = lemma_walk_split(s2.0, s2.1, f, a + (l + (c + (m + r))));
    lemma_walk_ok(s2.0, s2.1, f);
    let s4 = lemma_walk_split(s3.0, s3.1, a, l + (c + (m + r)));
    lemma_walk_ok(s3.0, s3.1, a);
    let s5 = lemma_walk_split(s4.0, s4.1, l, c + (m + r));
    lemma_walk_ok(s4.0, s4.1, l);
    let s6 = lemma_walk_split(s5.0, s5.1, c, m + r);
    lemma_walk_ok(s5.0, s5.1, c);
    let s7 = lemma_walk_split(s6.0, s6.1, m, r);
    lemma_walk_ok(s6.0, s6.1, m);
    lemma_walk_ok(s7.0, s7.1, r);
    assert forall|k: int| 0 <= k < s.point_features@.len() implies body_listed(s.bodies@, (#[trigger] s.point_features@[k]).body) by {
        assert(p[k] == feature_check(s, s.point_features@[k], "point feature"));
    }
    assert forall|k: int| 0 <= k < s.frame_features@.len() implies body_listed(s.bodies@, (#[trigger] s.frame_features@[k]).body) by {
        assert(f[k] == feature_check(s, s.frame_features@[k], "frame feature"));
    }
    assert forall|k: int| 0 <= k < s.axis_features@.len() implies body_listed(s.bodies@, (#[trigger] s.axis_features@[k]).body) by {
        assert(a[k] == feature_check(s, s.axis_features@[k], "axis feature"));
    }
    assert forall|k: int| 0 <= k < s.plane_features@.len() implies body_listed(s.bodies@, (#[trigger] s.plane_features@[k]).body) by {
        assert(l[k] == feature_check(s, s.plane_features@[k], "plane feature"));
    }
    assert forall|k: int| 0 <= k < s.coordinates@.len() implies coordinate_parent_error(s, (#[trigger] s.coordinates@[k]).kind) is None by {
        assert(c[k] == coordinate_check(s, s.coordinates@[k]));
    }
    assert forall|k: int| 0 <= k < s.mode_monitors@.len() implies monitor_error(s, (#[trigger] s.mode_monitors@[k]).kind) is None by {
        assert(m[k] == monitor_check(s, s.mode_monitors@[k]));
    }
    assert forall|k: int| 0 <= k < s.sources@.len() implies source_error(s, #[trigger] s.sources@[k]) is None by {
        assert(r[k] == source_check(s, s.sources@[k]));
    }
}

pub(crate) proof fn lemma_coordinate_captured(id: SpatialDocumentId, s: SpatialStructure, map: SpatialAssemblyRuntimeMap, coordinate: SpatialCoordinateId)
    requires
        map_captured(id, s, map),
        coordinate_kind(s.coordinates@, coordinate) is Some,
    ensures
        captured_coordinate(map, coordinate) is Ok,
{
    lemma_coordinate_member(s.coordinates@, coordinate);
    lemma_allocated_finds(
        id.0 + 1 + body_runtimes(s).len() + feature_runtimes(s).len() + source_runtimes(s).len(),
        coordinate_runtimes(s), coordinate);
}

proof fn lemma_unknown_points_none(s: SpatialStructure, points: Seq<SpatialPointFeatureId>)
    requires
        unknown_point_error(s, points) is None,
    ensures
        forall|k: int| 0 <= k < points.len() ==> feature_body(s.point_features@, #[trigger] points[k]) is Some,
    decreases points.len(),
{
    if points.len() > 0 {
        lemma_unknown_points_none(s, points.drop_first());
        assert forall|k: int| 0 <= k < points.len() implies feature_body(s.point_features@, #[trigger] points[k]) is Some by {
            if k > 0 {
                assert(points[k] == points.drop_first()[k - 1]);
            }
        }
    }
}

proof fn lemma_sources_all_ok(map: SpatialAssemblyRuntimeMap, records: Seq<SpatialSourceRecord>)
    requires
        forall|k: int| 0 <= k < records.len() ==> source_record_capture(map, #[trigger] records[k]) is Ok,
    ensures
        sources_capture(map, records) is Ok,
    decreases records.len(),
{
    if records.len() > 0 {
        assert forall|k: int| 0 <= k < records.drop_last().len() implies source_record_capture(map, #[trigger] records.drop_last()[k]) is Ok by {
            assert(records.drop_last()[k] == records[k]);
        }
        lemma_sources_all_ok(map, records.drop_last());
        assert(source_record_capture(map, records[records.len() - 1]) is Ok);
    }
}

proof fn lemma_coordinates_all_ok(map: SpatialAssemblyRuntimeMap, records: Seq<SpatialCoordinate>)
    requires
        forall|k: int| 0 <= k < records.len() ==> coordinate_record_capture(map, #[trigger] records[k]) is Ok,
    ensures
        coordinates_capture(map, records) is Ok,
    decreases records.len(),
{
    if records.len() > 0 {
        assert forall|k: int| 0 <= k < records.drop_last().len() implies coordinate_record_capture(map, #[trigger] records.drop_last()[k]) is Ok by {
            assert(records.drop_last()[k] == records[k]);
        }
        lemma_coordinates_all_ok(map, records.drop_last());
        assert(coordinate_record_capture(map, records[records.len() - 1]) is Ok);
    }
}

proof fn lemma_monitors_all_ok(map: SpatialAssemblyRuntimeMap, records: Seq<SpatialModeMonitor>)
    requires
        forall|k: int| 0 <= k < records.len() ==> monitor_record_capture(map, #[trigger] records[k]) is Ok,
    ensures
        monitors_capture(map, records) is Ok,
    decreases records.len(),
{
    if records.len() > 0 {
        assert forall|k: int| 0 <= k < records.drop_last().len() implies monitor_record_capture(map, #[trigger] records.drop_last()[k]) is Ok by {
            assert(records.drop_last()[k] == records[k]);
        }
        lemma_monitors_all_ok(map, records.drop_last());
        assert(monitor_record_capture(map, records[records.len() - 1]) is Ok);
    }
}

proof fn lemma_bodies_all_ok(map: SpatialAssemblyRuntimeMap, records: Seq<SpatialBodyRecord>)
    requires
        forall|k: int| 0 <= k < records.len() ==> body_record_capture(map, #[trigger] records[k]) is Ok,
    ensures
        bodies_capture(map, records) is Ok,
    decreases records.len(),
{
    if records.len() > 0 {
        assert forall|k: int| 0 <= k < records.drop_last().len() implies body_record_capture(map, #[trigger] records.drop_last()[k]) is Ok by {
            assert(records.drop_last()[k] == records[k]);
        }
        lemma_bodies_all_ok(map, records.drop_last());
        assert(body_record_capture(map, records[records.len() - 1]) is Ok);
    }
}

proof fn lemma_features_all_ok<Id: FeatureIdentity>(map: SpatialAssemblyRuntimeMap, records: Seq<SpatialFeatureRecord<Id>>)
    requires
        forall|k: int| 0 <= k < records.len() ==> feature_record_capture(map, #[trigger] records[k]) is Ok,
    ensures
        features_capture(map, records) is Ok,
    decreases records.len(),
{
    if records.len() > 0 {
        assert forall|k: int| 0 <= k < records.drop_last().len() implies feature_record_capture(map, #[trigger] records.drop_last()[k]) is Ok by {
            assert(records.drop_last()[k] == records[k]);
        }
        lemma_features_all_ok(map, records.drop_last());
        assert(feature_record_capture(map, records[records.len() - 1]) is Ok);
    }
}

/// Capturing the records of a structure that passes its checks, through the
/// map captured from it, meets no rejection.
pub proof fn lemma_structure_capture_succeeds(id: SpatialDocumentId, s: SpatialStructure, map: SpatialAssemblyRuntimeMap)
    requires
        structure_error(s) is None,
        map_captured(id, s, map),
    ensures
        records_capture_error(map, s) is None,
{
    lemma_capture_succeeds(id, s, map);
    lemma_records_pass(s);
    let start = id.0 + 1;
    assert forall|k: int| 0 <= k < s.bodies@.len() implies body_record_capture(map, #[trigger] s.bodies@[k]) is Ok by {
        assert(body_runtimes(s)[k] == s.bodies@[k].id);
        lemma_allocated_finds(start, body_runtimes(s), s.bodies@[k].id);
    }
    lemma_bodies_all_ok(map, s.bodies@);
    assert forall|k: int| 0 <= k < s.point_features@.len() implies feature_record_capture(map, #[trigger] s.point_features@[k]) is Ok by {
        let r = s.point_features@[k];
        assert(feature_body(s.point_features@, r.id) is Some) by { lemma_feature_listed(s.point_features@, k); }
        lemma_features_captured(id, s, map, SpatialRuntimeFeature::Point(r.id));
        lemma_body_listed(s.bodies@, r.body);
        lemma_allocated_finds(start, body_runtimes(s), r.body);
    }
    lemma_features_all_ok(map, s.point_features@);
    assert forall|k: int| 0 <= k < s.frame_features@.len() implies feature_record_capture(map, #[trigger] s.frame_features@[k]) is Ok by {
        let r = s.frame_features@[k];
        assert(feature_body(s.frame_features@, r.id) is Some) by { lemma_feature_listed(s.frame_features@, k); }
        lemma_features_captured(id, s, map, SpatialRuntimeFeature::Frame(r.id));
        lemma_body_listed(s.bodies@, r.body);
        lemma_allocated_finds(start, body_runtimes(s), r.body);
    }
    lemma_features_all_ok(map, s.frame_features@);
    assert forall|k: int| 0 <= k < s.axis_features@.len() implies feature_record_capture(map, #[trigger] s.axis_features@[k]) is Ok by {
        let r = s.axis_features@[k];
        assert(feature_body(s.axis_features@, r.id) is Some) by { lemma_feature_listed(s.axis_features@, k); }
        lemma_features_captured(id, s, map, SpatialRuntimeFeature::Axis(r.id));
        lemma_body_listed(s.bodies@, r.body);
        lemma_allocated_finds(start, body_runtimes(s), r.body);
    }
    lemma_features_all_ok(map, s.axis_features@);
    assert forall|k: int| 0 <= k < s.plane_features@.len() implies feature_record_capture(map, #[trigger] s.plane_features@[k]) is Ok by {
        let r = s.plane_features@[k];
        assert(feature_body(s.plane_features@, r.id) is Some) by { lemma_feature_listed(s.plane_features@, k); }
        lemma_features_captured(id, s, map, SpatialRuntimeFeature::Plane(r.id));
        lemma_body_listed(s.bodies@, r.body);
        lemma_allocated_finds(start, body_runtimes(s), r.body);
    }
    lemma_features_all_ok(map, s.plane_features@);
}

proof fn lemma_feature_listed<Id>(features: Seq<SpatialFeatureRecord<Id>>, k: int)
    requires
        0 <= k < features.len(),
    ensures
        feature_body(features, features[k].id) is Some,
    decreases k,
{
    if k > 0 && features[0].id != features[k].id {
        lemma_feature_listed(features.drop_first(), k - 1);
        assert(features.drop_first()[k - 1] == features[k]);
    }
}

/// Capturing the sources, coordinates and mode monitors of a structure that
/// passes its checks, through the map captured from it, succeeds.
pub proof fn lemma_capture_succeeds(id: SpatialDocumentId, s: SpatialStructure, map: SpatialAssemblyRuntimeMap)
    requires
        structure_error(s) is None,
        map_captured(id, s, map),
    ensures
        sources_capture(map, s.sources@) is Ok,
        coordinates_capture(map, s.coordinates@) is Ok,
        monitors_capture(map, s.mode_monitors@) is Ok,
{
    lemma_records_pass(s);
    let start = id.0 + 1;
    let sources_start = start + body_runtimes(s).len() + feature_runtimes(s).len();
    assert forall|k: int| 0 <= k < s.sources@.len() implies source_record_capture(map, #[trigger] s.sources@[k]) is Ok by {
        let r = s.sources@[k];
        assert(source_runtimes(s)[k] == r.id);
        lemma_allocated_finds(sources_start, source_runtimes(s), r.id);
        assert(source_error(s, r) is None);
        match r.shape {
            SpatialSourceShape::PhysicalGround { body } => {
                lemma_body_listed(s.bodies@, body);
                lemma_allocated_finds(start, body_runtimes(s), body);
            },
            SpatialSourceShape::BallJoint { first, second } => {
                lemma_features_captured(id, s, map, SpatialRuntimeFeature::Point(first));
                lemma_features_captured(id, s, map, SpatialRuntimeFeature::Point(second));
            },
            SpatialSourceShape::PointDistanceMate { first, second } => {
                lemma_features_captured(id, s, map, SpatialRuntimeFeature::Point(first));
                lemma_features_captured(id, s, map, SpatialRuntimeFeature::Point(second));
            },
            SpatialSourceShape::FixedFrame { first, second } => {
                lemma_features_captured(id, s, map, SpatialRuntimeFeature::Frame(first));
                lemma_features_captured(id, s, map, SpatialRuntimeFeature::Frame(second));
            },
            SpatialSourceShape::RevoluteJoint { first, second, .. } => {
                lemma_features_captured(id, s, map, SpatialRuntimeFeature::Frame(first));
                lemma_features_captured(id, s, map, SpatialRuntimeFeature::Frame(second));
            },
            SpatialSourceShape::FrameOffsetMate { first, second } => {
                lemma_features_captured(id, s, map, SpatialRuntimeFeature::Frame(first));
                lemma_features_captured(id, s, map, SpatialRuntimeFeature::Frame(second));
            },
            SpatialSourceShape::PrismaticJoint { first, second, .. } => {
                lemma_features_captured(id, s, map, SpatialRuntimeFeature::Axis(first));
                lemma_features_captured(id, s, map, SpatialRuntimeFeature::Axis(second));
            },
            SpatialSourceShape::CylindricalJoint { first, second, .. } => {
                lemma_features_captured(id, s, map, SpatialRuntimeFeature::Axis(first));
                lemma_features_captured(id, s, map, SpatialRuntimeFeature::Axis(second));
            },
            SpatialSourceShape::UniversalJoint { first, second } => {
                lemma_features_captured(id, s, map, SpatialRuntimeFeature::Axis(first));
                lemma_features_captured(id, s, map, SpatialRuntimeFeature::Axis(second));
            },
            SpatialSourceShape::AxisAlignmentMate { first, second, .. } => {
                lemma_features_captured(id, s, map, SpatialRuntimeFeature::Axis(first));
                lemma_features_captured(id, s, map, SpatialRuntimeFeature::Axis(second));
            },
            SpatialSourceShape::AxisAngleMate { first, second } => {
                lemma_features_captured(id, s, map, SpatialRuntimeFeature::Axis(first));
                lemma_features_captured(id, s, map, SpatialRuntimeFeature::Axis(second));
            },
            SpatialSourceShape::PlanarJoint { first, second, .. } => {
                lemma_features_captured(id, s, map, SpatialRuntimeFeature::Plane(first));
                lemma_features_captured(id, s, map, SpatialRuntimeFeature::Plane(second));
            },
            SpatialSourceShape::HingePositionDriver { coordinate, .. } => {
                lemma_coordinate_captured(id, s, map, coordinate);
            },
            SpatialSourceShape::TranslationPositionDriver { coordinate, .. } => {
                lemma_coordinate_captured(id, s, map, coordinate);
            },
        }
    }
    lemma_sources_all_ok(map, s.sources@);
    let coordinates_start = sources_start + source_runtimes(s).len();
    assert forall|k: int| 0 <= k < s.coordinates@.len() implies coordinate_record_capture(map, #[trigger] s.coordinates@[k]) is Ok by {
        let c = s.coordinates@[k];
        assert(coordinate_runtimes(s)[k] == c.id);
        lemma_allocated_finds(coordinates_start, coordinate_runtimes(s), c.id);
        assert(coordinate_parent_error(s, c.kind) is None);
        let parent = match c.kind {
            SpatialCoordinateKind::Hinge { parent, .. } => parent,
            SpatialCoordinateKind::AxialTranslation { parent } => parent,
            SpatialCoordinateKind::PlanarTranslation { parent, .. } => parent,
        };
        lemma_source_member(s.sources@, parent);
        lemma_allocated_finds(sources_start, source_runtimes(s), parent);
    }
    lemma_coordinates_all_ok(map, s.coordinates@);
    let monitors_start = coordinates_start + coordinate_runtimes(s).len();
    assert forall|k: int| 0 <= k < s.mode_monitors@.len() implies monitor_record_capture(map, #[trigger] s.mode_monitors@[k]) is Ok by {
        let m = s.mode_monitors@[k];
        assert(monitor_runtimes(s)[k] == m.id);
        lemma_allocated_finds(monitors_start, monitor_runtimes(s), m.id);
        assert(monitor_error(s, m.kind) is None);
        match m.kind {
            SpatialModeMonitorKind::AxisParity { first, second, .. } => {
                lemma_features_captured(id, s, map, SpatialRuntimeFeature::Axis(first));
                lemma_features_captured(id, s, map, SpatialRuntimeFeature::Axis(second));
            },
            SpatialModeMonitorKind::HingeWinding { coordinate, .. } => {
                lemma_coordinate_captured(id, s, map, coordinate);
            },
            SpatialModeMonitorKind::PlaneSide { plane, point, .. } => {
                lemma_features_captured(id, s, map, SpatialRuntimeFeature::Plane(plane));
                lemma_features_captured(id, s, map, SpatialRuntimeFeature::Point(point));
            },
            SpatialModeMonitorKind::SignedVolume { points, .. } => {
                lemma_unknown_points_none(s, points@);
                assert(feature_body(s.point_features@, points@[0]) is Some);
                assert(feature_body(s.point_features@, points@[1]) is Some);
                assert(feature_body(s.point_features@, points@[2]) is Some);
                assert(feature_body(s.point_features@, points@[3]) is Some);
                lemma_features_captured(id, s, map, SpatialRuntimeFeature::Point(points[0]));
                lemma_features_captured(id, s, map, SpatialRuntimeFeature::Point(points[1]));
                lemma_features_captured(id, s, map, SpatialRuntimeFeature::Point(points[2]));
                lemma_features_captured(id, s, map, SpatialRuntimeFeature::Point(points[3]));
            },
        }
    }
    lemma_monitors_all_ok(map, s.mode_monitors@);
}

// ---------------------------------------------------------------------------
// Body and feature records.

/// A feature identity of one of the four kinds.
pub trait FeatureIdentity: Copy {
    /// The runtime feature this identity names.
    spec fn spec_feature(self) -> SpatialRuntimeFeature;

    fn feature(self) -> (feature: SpatialRuntimeFeature)
        ensures
            feature == self.spec_feature(),
    ;
}

impl FeatureIdentity for SpatialPointFeatureId {
    open spec fn spec_feature(self) -> SpatialRuntimeFeature {
        SpatialRuntimeFeature::Point(self)
    }

    fn feature(self) -> (feature: SpatialRuntimeFeature) {
        SpatialRuntimeFeature::Point(self)
    }
}

impl FeatureIdentity for SpatialFrameFeatureId {
    open spec fn spec_feature(self) -> SpatialRuntimeFeature {
        SpatialRuntimeFeature::Frame(self)
    }

    fn feature(self) -> (feature: SpatialRuntimeFeature) {
        SpatialRuntimeFeature::Frame(self)
    }
}

impl FeatureIdentity for SpatialAxisFeatureId {
    open spec fn spec_feature(self) -> SpatialRuntimeFeature {
        SpatialRuntimeFeature::Axis(self)
    }

    fn feature(self) -> (feature: SpatialRuntimeFeature) {
        SpatialRuntimeFeature::Axis(self)
    }
}

impl FeatureIdentity for SpatialPlaneFeatureId {
    open spec fn spec_feature(self) -> SpatialRuntimeFeature {
        SpatialRuntimeFeature::Plane(self)
    }

    fn feature(self) -> (feature: SpatialRuntimeFeature) {
        SpatialRuntimeFeature::Plane(self)
    }
}

/// A persistent feature record: identity, label, owning body and local
/// geometry.
#[derive(Clone, Debug, PartialEq, Eq)]
pub struct FeatureRecord {
    pub id: SpatialPersistentId,
    pub label: String,
    pub body: SpatialPersistentId,
    pub local: SpatialLocalGeometry,
}

/// The persistent record of a runtime body.
pub open spec fn body_record_capture(map: SpatialAssemblyRuntimeMap, r: SpatialBodyRecord) -> Result<SpatialDocumentRecord, SpatialDocumentError> {
    match captured_body(map, r.id) {
        Err(e) => Err(e),
        Ok(id) => Ok(SpatialDocumentRecord { id, label: r.label }),
    }
}

/// The persistent records of runtime bodies, in order, or the first rejection.
pub open spec fn bodies_capture(map: SpatialAssemblyRuntimeMap, records: Seq<SpatialBodyRecord>) -> Result<Seq<SpatialDocumentRecord>, SpatialDocumentError>
    decreases records.len(),
{
    if records.len() == 0 {
        Ok(Seq::empty())
    } else {
        match bodies_capture(map, records.drop_last()) {
            Err(e) => Err(e),
            Ok(done) => match body_record_capture(map, records.last()) {
                Err(e) => Err(e),
                Ok(r) => Ok(done.push(r)),
            },
        }
    }
}

/// The persistent record of a runtime feature: its identity, then its body.
pub open spec fn feature_record_capture<Id: FeatureIdentity>(map: SpatialAssemblyRuntimeMap, r: SpatialFeatureRecord<Id>) -> Result<FeatureRecord, SpatialDocumentError> {
    match captured_feature(map, r.id.spec_feature()) {
        Err(e) => Err(e),
        Ok(id) => match captured_body(map, r.body) {
            Err(e) => Err(e),
            Ok(body) => Ok(FeatureRecord { id, label: r.label, body, local: r.local }),
        },
    }
}

/// The persistent records of runtime features of one kind, in order, or the
/// first rejection.
pub open spec fn features_capture<Id: FeatureIdentity>(map: SpatialAssemblyRuntimeMap, records: Seq<SpatialFeatureRecord<Id>>) -> Result<Seq<FeatureRecord>, SpatialDocumentError>
    decreases records.len(),
{
    if records.len() == 0 {
        Ok(Seq::empty())
    } else {
        match features_capture(map, records.drop_last()) {
            Err(e) => Err(e),
            Ok(done) => match feature_record_capture(map, records.last()) {
                Err(e) => Err(e),
                Ok(r) => Ok(done.push(r)),
            },
        }
    }
}

proof fn lemma_bodies_prefix_error(map: SpatialAssemblyRuntimeMap, records: Seq<SpatialBodyRecord>, k: int)
    requires
        0 <= k <= records.len(),
        bodies_capture(map, records.take(k)) is Err,
    ensures
        bodies_capture(map, records) == bodies_capture(map, records.take(k)),
    decreases records.len() - k,
{
    if k == records.len() {
        assert(records.take(k) =~= records);
    } else {
        assert(records.take(k + 1).drop_last() =~= records.take(k));
        lemma_bodies_prefix_error(map, records, k + 1);
    }
}

proof fn lemma_features_prefix_error<Id: FeatureIdentity>(map: SpatialAssemblyRuntimeMap, records: Seq<SpatialFeatureRecord<Id>>, k: int)
    requires
        0 <= k <= records.len(),
        features_capture(map, records.take(k)) is Err,
    ensures
        features_capture(map, records) == features_capture(map, records.take(k)),
    decreases records.len() - k,
{
    if k == records.len() {
        assert(records.take(k) =~= records);
    } else {
        assert(records.take(k + 1).drop_last() =~= records.take(k));
        lemma_features_prefix_error(map, records, k + 1);
    }
}

/// Translates the bodies of an assembly into persistent records.
pub fn capture_bodies(map: &SpatialAssemblyRuntimeMap, records: &Vec<SpatialBodyRecord>) -> (result: Result<Vec<SpatialDocumentRecord>, SpatialDocumentError>)
    ensures
        match bodies_capture(*map, records@) {
            Ok(captured) => result matches Ok(out) && out@ == captured,
            Err(e) => result == Err::<Vec<SpatialDocumentRecord>, _>(e),
        },
{
    let mut out: Vec<SpatialDocumentRecord> = Vec::new();
    let mut i: usize = 0;
    while i < records.len()
        invariant
            i <= records@.len(),
            bodies_capture(*map, records@.take(i as int)) == Ok::<Seq<SpatialDocumentRecord>, SpatialDocumentError>(out@),
        decreases records@.len() - i,
    {
        proof {
            assert(records@.take(i as int + 1).drop_last() =~= records@.take(i as int));
        }
        let record = &records[i];
        let id = match persistent_body(map, record.id) {
            Ok(id) => id,
            Err(e) => {
                proof {
                    lemma_bodies_prefix_error(*map, records@, i as int + 1);
                }
                return Err(e);
            },
        };
        out.push(SpatialDocumentRecord { id, label: record.label.clone() });
        i = i + 1;
    }
    proof {
        assert(records@.take(i as int) =~= records@);
    }
    Ok(out)
}

/// Translates the features of one kind of an assembly into persistent records.
pub fn capture_features<Id: FeatureIdentity>(map: &SpatialAssemblyRuntimeMap, records: &Vec<SpatialFeatureRecord<Id>>) -> (result: Result<Vec<FeatureRecord>, SpatialDocumentError>)
    ensures
        match features_capture(*map, records@) {
            Ok(captured) => result matches Ok(out) && out@ == captured,
            Err(e) => result == Err::<Vec<FeatureRecord>, _>(e),
        },
{
    let mut out: Vec<FeatureRecord> = Vec::new();
    let mut i: usize = 0;
    while i < records.len()
        invariant
            i <= records@.len(),
            features_capture(*map, records@.take(i as int)) == Ok::<Seq<FeatureRecord>, SpatialDocumentError>(out@),
        decreases records@.len() - i,
    {
        proof {
            assert(records@.take(i as int + 1).drop_last() =~= records@.take(i as int));
        }
        let record = &records[i];
        let id = match persistent_feature(map, record.id.feature()) {
            Ok(id) => id,
            Err(e) => {
                proof {
                    lemma_features_prefix_error(*map, records@, i as int + 1);
                }
                return Err(e);
            },
        };
        let body = match persistent_body(map, record.body) {
            Ok(body) => body,
            Err(e) => {
                proof {
                    lemma_features_prefix_error(*map, records@, i as int + 1);
                }
                return Err(e);
            },
        };
        out.push(FeatureRecord { id, label: record.label.clone(), body, local: record.local });
        i = i + 1;
    }
    proof {
        assert(records@.take(i as int) =~= records@);
    }
    Ok(out)
}

// ---------------------------------------------------------------------------
// The whole capture.

/// The records captured from an assembly, with the map and the next identity
/// left to allocate.
#[derive(Clone, Debug, PartialEq, Eq)]
pub struct SpatialCapture {
    pub map: SpatialAssemblyRuntimeMap,
    pub next_id: SpatialPersistentId,
    pub bodies: Vec<SpatialDocumentRecord>,
    pub point_features: Vec<FeatureRecord>,
    pub frame_features: Vec<FeatureRecord>,
    pub axis_features: Vec<FeatureRecord>,
    pub plane_features: Vec<FeatureRecord>,
    pub sources: Vec<SourceRecord>,
    pub coordinates: Vec<CoordinateRecord>,
    pub monitors: Vec<MonitorRecord>,
}

/// The failure of a capture, if any.
pub open spec fn capture_failure<T>(result: Result<T, SpatialDocumentError>) -> Option<SpatialDocumentError> {
    match result {
        Ok(_) => None,
        Err(e) => Some(e),
    }
}

/// The first of two optional rejections.
pub open spec fn first_failure(first: Option<SpatialDocumentError>, second: Option<SpatialDocumentError>) -> Option<SpatialDocumentError> {
    if first is Some {
        first
    } else {
        second
    }
}

/// The first rejection met capturing the records of `s` through `map`, in the
/// order bodies, point, frame, axis and plane features, sources, coordinates,
/// mode monitors.
pub open spec fn records_capture_error(map: SpatialAssemblyRuntimeMap, s: SpatialStructure) -> Option<SpatialDocumentError> {
    first_failure(capture_failure(bodies_capture(map, s.bodies@)),
    first_failure(capture_failure(features_capture(map, s.point_features@)),
    first_failure(capture_failure(features_capture(map, s.frame_features@)),
    first_failure(capture_failure(features_capture(map, s.axis_features@)),
    first_failure(capture_failure(features_capture(map, s.plane_features@)),
    first_failure(capture_failure(sources_capture(map, s.sources@)),
    first_failure(capture_failure(coordinates_capture(map, s.coordinates@)),
    capture_failure(monitors_capture(map, s.mode_monitors@)))))))))
}

/// Captures the discrete structure of an assembly into persistent records of
/// document `id`: every object receives the next identity, then the records
/// are translated through the resulting map.
pub fn capture_structure(id: SpatialDocumentId, s: &SpatialStructure) -> (result: Result<SpatialCapture, SpatialDocumentError>)
    ensures
        id.0 == 0 ==> result == Err::<SpatialCapture, _>(SpatialDocumentError::InvalidId(0)),
        id.0 != 0 && id.0 + object_count(*s) >= u128::MAX ==> result == Err::<SpatialCapture, _>(SpatialDocumentError::IdExhausted),
        id.0 != 0 && id.0 + object_count(*s) < u128::MAX ==> match result {
            Ok(c) => {
                &&& map_captured(id, *s, c.map)
                &&& c.next_id.0 == id.0 + 1 + object_count(*s)
                &&& records_capture_error(c.map, *s) is None
                &&& c.bodies@ == bodies_capture(c.map, s.bodies@)->Ok_0
                &&& c.point_features@ == features_capture(c.map, s.point_features@)->Ok_0
                &&& c.frame_features@ == features_capture(c.map, s.frame_features@)->Ok_0
                &&& c.axis_features@ == features_capture(c.map, s.axis_features@)->Ok_0
                &&& c.plane_features@ == features_capture(c.map, s.plane_features@)->Ok_0
                &&& c.sources@ == sources_capture(c.map, s.sources@)->Ok_0
                &&& c.coordinates@ == coordinates_capture(c.map, s.coordinates@)->Ok_0
                &&& c.monitors@ == monitors_capture(c.map, s.mode_monitors@)->Ok_0
            },
            Err(e) => exists|map: SpatialAssemblyRuntimeMap| map_captured(id, *s, map) && records_capture_error(map, *s) == Some(e),
        },
        structure_error(*s) is None && id.0 != 0 && id.0 + object_count(*s) < u128::MAX ==> result is Ok,
{
    let (map, next_id) = capture_runtime_map(id, s)?;
    proof {
        if structure_error(*s) is None {
            lemma_structure_capture_succeeds(id, *s, map);
        }
    }
    let bodies = match capture_bodies(&map, &s.bodies) {
        Ok(records) => records,
        Err(e) => {
            proof {
                assert(map_captured(id, *s, map) && records_capture_error(map, *s) == Some(e));
            }
            return Err(e);
        },
    };
    let point_features = match capture_features(&map, &s.point_features) {
        Ok(records) => records,
        Err(e) => {
            proof {
                assert(map_captured(id, *s, map) && records_capture_error(map, *s) == Some(e));
            }
            return Err(e);
        },
    };
    let frame_features = match capture_features(&map, &s.frame_features) {
        Ok(records) => records,
        Err(e) => {
            proof {
                assert(map_captured(id, *s, map) && records_capture_error(map, *s) == Some(e));
            }
            return Err(e);
        },
    };
    let axis_features = match capture_features(&map, &s.axis_features) {
        Ok(records) => records,
        Err(e) => {
            proof {
                assert(map_captured(id, *s, map) && records_capture_error(map, *s) == Some(e));
            }
            return Err(e);
        },
    };
    let plane_features = match capture_features(&map, &s.plane_features) {
        Ok(records) => records,
        Err(e) => {
            proof {
                assert(map_captured(id, *s, map) && records_capture_error(map, *s) == Some(e));
            }
            return Err(e);
        },
    };
    let sources = match capture_sources(&map, &s.sources) {
        Ok(records) => records,
        Err(e) => {
            proof {
                assert(map_captured(id, *s, map) && records_capture_error(map, *s) == Some(e));
            }
            return Err(e);
        },
    };
    let coordinates = match capture_coordinates(&map, &s.coordinates) {
        Ok(records) => records,
        Err(e) => {
            proof {
                assert(map_captured(id, *s, map) && records_capture_error(map, *s) == Some(e));
            }
            return Err(e);
        },
    };
    let monitors = match capture_monitors(&map, &s.mode_monitors) {
        Ok(records) => records,
        Err(e) => {
            proof {
                assert(map_captured(id, *s, map) && records_capture_error(map, *s) == Some(e));
            }
            return Err(e);
        },
    };
    Ok(SpatialCapture {
        map,
        next_id,
        bodies,
        point_features,
        frame_features,
        axis_features,
        plane_features,
        sources,
        coordinates,
        monitors,
    })
}

/// The map captured from a structure that passes its checks pairs identities
/// both ways in each of its lists (a persistent identity finds a runtime
/// object exactly when that object finds it back), and no allocated identity
/// equals the document identity.
pub proof fn lemma_captured_map_bijective(id: SpatialDocumentId, s: SpatialStructure, map: SpatialAssemblyRuntimeMap)
    requires
        structure_error(s) is None,
        id.0 + object_count(s) < u128::MAX,
        map_captured(id, s, map),
    ensures
        forall|p: SpatialPersistentId, r: SpatialBodyId| #![trigger runtime_of(map.bodies@, p), persistent_of(map.bodies@, r)]
            runtime_of(map.bodies@, p) == Some(r) <==> persistent_of(map.bodies@, r) == Some(p),
        forall|p: SpatialPersistentId, r: SpatialRuntimeFeature| #![trigger runtime_of(map.features@, p), persistent_of(map.features@, r)]
            runtime_of(map.features@, p) == Some(r) <==> persistent_of(map.features@, r) == Some(p),
        forall|p: SpatialPersistentId, r: SpatialSourceId| #![trigger runtime_of(map.sources@, p), persistent_of(map.sources@, r)]
            runtime_of(map.sources@, p) == Some(r) <==> persistent_of(map.sources@, r) == Some(p),
        forall|p: SpatialPersistentId, r: SpatialCoordinateId| #![trigger runtime_of(map.coordinates@, p), persistent_of(map.coordinates@, r)]
            runtime_of(map.coordinates@, p) == Some(r) <==> persistent_of(map.coordinates@, r) == Some(p),
        forall|p: SpatialPersistentId, r: SpatialModeMonitorId| #![trigger runtime_of(map.monitors@, p), persistent_of(map.monitors@, r)]
            runtime_of(map.monitors@, p) == Some(r) <==> persistent_of(map.monitors@, r) == Some(p),
        forall|k: int| 0 <= k < map.bodies@.len() ==> (#[trigger] map.bodies@[k]).0.0 != id.0,
        forall|k: int| 0 <= k < map.features@.len() ==> (#[trigger] map.features@[k]).0.0 != id.0,
        forall|k: int| 0 <= k < map.sources@.len() ==> (#[trigger] map.sources@[k]).0.0 != id.0,
        forall|k: int| 0 <= k < map.coordinates@.len() ==> (#[trigger] map.coordinates@[k]).0.0 != id.0,
        forall|k: int| 0 <= k < map.monitors@.len() ==> (#[trigger] map.monitors@[k]).0.0 != id.0,
{
    lemma_captured_map_one_to_one(id, s, map);
    lemma_one_to_one_bijective(map.bodies@);
    lemma_one_to_one_bijective(map.features@);
    lemma_one_to_one_bijective(map.sources@);
    lemma_one_to_one_bijective(map.coordinates@);
    lemma_one_to_one_bijective(map.monitors@);
}

} // verus!
