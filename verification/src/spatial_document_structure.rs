//! The discrete structure of a persistent spatial document and its basic
//! validation: schema version, identities, object and label limits, source
//! order, and completeness of the accepted state.

use vstd::prelude::*;
use crate::ids::{SpatialDocumentId, SpatialPersistentId};
use crate::planar::label_ok;
use crate::spatial_document::{SpatialDocumentError, SpatialDocumentField, SPATIAL_ASSEMBLY_DOCUMENT_VERSION};

verus! {

/// Largest number of persistent objects a spatial document may hold.
pub const SPATIAL_DOCUMENT_MAX_OBJECTS: usize = 100_000;

/// Largest label, in UTF-8 bytes.
pub const SPATIAL_DOCUMENT_MAX_LABEL_BYTES: usize = 1_024;

/// One persistent object: its identity and label.
#[derive(Clone, Debug, PartialEq, Eq)]
pub struct SpatialDocumentRecord {
    pub id: SpatialPersistentId,
    pub label: String,
}

/// One persistent source: its identity, label, and whether it is a position driver.
#[derive(Clone, Debug, PartialEq, Eq)]
pub struct SpatialDocumentSource {
    pub id: SpatialPersistentId,
    pub label: String,
    pub driver: bool,
}

/// The discrete structure of a persistent spatial document, with the verdict
/// of its model scale.
#[derive(Clone, Debug, PartialEq, Eq)]
pub struct SpatialDocumentStructure {
    pub version: u32,
    pub id: SpatialDocumentId,
    pub next_id: SpatialPersistentId,
    pub model_scale_valid: bool,
    pub bodies: Vec<SpatialDocumentRecord>,
    pub point_features: Vec<SpatialDocumentRecord>,
    pub frame_features: Vec<SpatialDocumentRecord>,
    pub axis_features: Vec<SpatialDocumentRecord>,
    pub plane_features: Vec<SpatialDocumentRecord>,
    pub sources: Vec<SpatialDocumentSource>,
    pub coordinates: Vec<SpatialDocumentRecord>,
    pub monitors: Vec<SpatialDocumentRecord>,
    pub source_order: Vec<SpatialPersistentId>,
    pub accepted_bodies: Vec<SpatialPersistentId>,
    pub accepted_drivers: Vec<SpatialPersistentId>,
}

/// Identities of records, in order.
pub open spec fn record_ids(records: Seq<SpatialDocumentRecord>) -> Seq<u128> {
    records.map_values(|r: SpatialDocumentRecord| r.id.0)
}

/// Identities of sources, in order.
pub open spec fn source_ids(sources: Seq<SpatialDocumentSource>) -> Seq<u128> {
    sources.map_values(|r: SpatialDocumentSource| r.id.0)
}

/// Identities of the driver sources, in order.
pub open spec fn driver_ids(sources: Seq<SpatialDocumentSource>) -> Seq<u128>
    decreases sources.len(),
{
    if sources.len() == 0 {
        Seq::empty()
    } else if sources.last().driver {
        driver_ids(sources.drop_last()).push(sources.last().id.0)
    } else {
        driver_ids(sources.drop_last())
    }
}

/// Raw values of persistent identities, in order.
pub open spec fn id_values(ids: Seq<SpatialPersistentId>) -> Seq<u128> {
    ids.map_values(|id: SpatialPersistentId| id.0)
}

/// Every object identity: bodies, point, frame, axis and plane features,
/// sources, coordinates, monitors.
pub open spec fn object_ids(d: SpatialDocumentStructure) -> Seq<u128> {
    record_ids(d.bodies@) + record_ids(d.point_features@) + record_ids(d.frame_features@) + record_ids(d.axis_features@)
        + record_ids(d.plane_features@) + source_ids(d.sources@) + record_ids(d.coordinates@) + record_ids(d.monitors@)
}

/// Every label, in the same order as the identities.
pub open spec fn object_labels(d: SpatialDocumentStructure) -> Seq<Seq<char>> {
    let labels = |records: Seq<SpatialDocumentRecord>| records.map_values(|r: SpatialDocumentRecord| r.label@);
    labels(d.bodies@) + labels(d.point_features@) + labels(d.frame_features@) + labels(d.axis_features@)
        + labels(d.plane_features@) + d.sources@.map_values(|r: SpatialDocumentSource| r.label@) + labels(d.coordinates@)
        + labels(d.monitors@)
}

/// The number of persistent objects.
pub open spec fn object_count(d: SpatialDocumentStructure) -> nat {
    d.bodies@.len() + d.point_features@.len() + d.frame_features@.len() + d.axis_features@.len()
        + d.plane_features@.len() + d.sources@.len() + d.coordinates@.len() + d.monitors@.len()
}

/// The first zero or repeated identity met walking `ids` after those in `seen`.
pub open spec fn id_error(seen: Set<u128>, ids: Seq<u128>) -> Option<SpatialDocumentError>
    decreases ids.len(),
{
    if ids.len() == 0 {
        None
    } else if ids[0] == 0 {
        Some(SpatialDocumentError::InvalidId(0))
    } else if seen.contains(ids[0]) {
        Some(SpatialDocumentError::DuplicateId(ids[0]))
    } else {
        id_error(seen.insert(ids[0]), ids.drop_first())
    }
}

/// `listed` holds exactly the members of `wanted`, as many entries as it has.
pub open spec fn same_entries(listed: Seq<u128>, wanted: Seq<u128>) -> bool {
    listed.len() == wanted.len() && listed.to_set() == wanted.to_set()
}

/// The first basic rejection of a spatial document, in this order: schema
/// version; nonzero document identity; model scale; object limit; nonzero
/// unique identities; next identity above all; labels within limits; source
/// order listing the sources; one accepted pose per body; one accepted target
/// per driver.
pub open spec fn document_error(d: SpatialDocumentStructure) -> Option<SpatialDocumentError> {
    if d.version != SPATIAL_ASSEMBLY_DOCUMENT_VERSION {
        Some(SpatialDocumentError::UnsupportedVersion(d.version))
    } else if d.id.0 == 0 {
        Some(SpatialDocumentError::InvalidId(0))
    } else if !d.model_scale_valid {
        Some(SpatialDocumentError::InvalidField(SpatialDocumentField::ModelScale))
    } else if object_count(d) > SPATIAL_DOCUMENT_MAX_OBJECTS {
        Some(SpatialDocumentError::InvalidField(SpatialDocumentField::Topology))
    } else if id_error(set![d.id.0], object_ids(d)) is Some {
        id_error(set![d.id.0], object_ids(d))
    } else if d.next_id.0 <= d.id.0 || exists|k: int| 0 <= k < object_ids(d).len() && d.next_id.0 <= #[trigger] object_ids(d)[k] {
        Some(SpatialDocumentError::InvalidField(SpatialDocumentField::NextId))
    } else if exists|k: int| 0 <= k < object_labels(d).len() && !label_ok(#[trigger] object_labels(d)[k]) {
        Some(SpatialDocumentError::InvalidField(SpatialDocumentField::Label))
    } else if !same_entries(id_values(d.source_order@), source_ids(d.sources@)) {
        Some(SpatialDocumentError::InvalidSourceOrder)
    } else if !same_entries(id_values(d.accepted_bodies@), record_ids(d.bodies@)) {
        Some(SpatialDocumentError::InvalidField(SpatialDocumentField::AcceptedBodies))
    } else if !same_entries(id_values(d.accepted_drivers@), driver_ids(d.sources@)) {
        Some(SpatialDocumentError::InvalidField(SpatialDocumentField::AcceptedDrivers))
    } else {
        None
    }
}

fn push_record_ids(out: &mut Vec<u128>, records: &Vec<SpatialDocumentRecord>)
    ensures
        final(out)@ == old(out)@ + record_ids(records@),
{
    let ghost start = out@;
    let mut i: usize = 0;
    while i < records.len()
        invariant
            i <= records@.len(),
            out@ == start + record_ids(records@.take(i as int)),
        decreases records@.len() - i,
    {
        proof {
            assert(record_ids(records@.take(i + 1)) =~= record_ids(records@.take(i as int)).push(records@[i as int].id.0));
        }
        out.push(records[i].id.0);
        i = i + 1;
    }
    proof {
        assert(records@.take(i as int) =~= records@);
    }
}

fn push_source_ids(out: &mut Vec<u128>, sources: &Vec<SpatialDocumentSource>)
    ensures
        final(out)@ == old(out)@ + source_ids(sources@),
{
    let ghost start = out@;
    let mut i: usize = 0;
    while i < sources.len()
        invariant
            i <= sources@.len(),
            out@ == start + source_ids(sources@.take(i as int)),
        decreases sources@.len() - i,
    {
        proof {
            assert(source_ids(sources@.take(i + 1)) =~= source_ids(sources@.take(i as int)).push(sources@[i as int].id.0));
        }
        out.push(sources[i].id.0);
        i = i + 1;
    }
    proof {
        assert(sources@.take(i as int) =~= sources@);
    }
}

fn collect_driver_ids(sources: &Vec<SpatialDocumentSource>) -> (ids: Vec<u128>)
    ensures
        ids@ == driver_ids(sources@),
{
    let mut ids: Vec<u128> = Vec::new();
    let mut i: usize = 0;
    while i < sources.len()
        invariant
            i <= sources@.len(),
            ids@ == driver_ids(sources@.take(i as int)),
        decreases sources@.len() - i,
    {
        proof {
            assert(sources@.take(i + 1).drop_last() =~= sources@.take(i as int));
            assert(sources@.take(i + 1).last() == sources@[i as int]);
        }
        if sources[i].driver {
            ids.push(sources[i].id.0);
        }
        i = i + 1;
    }
    proof {
        assert(sources@.take(i as int) =~= sources@);
    }
    ids
}

fn collect_id_values(ids: &Vec<SpatialPersistentId>) -> (values: Vec<u128>)
    ensures
        values@ == id_values(ids@),
{
    let mut values: Vec<u128> = Vec::new();
    let mut i: usize = 0;
    while i < ids.len()
        invariant
            i <= ids@.len(),
            values@ == id_values(ids@.take(i as int)),
        decreases ids@.len() - i,
    {
        proof {
            assert(id_values(ids@.take(i + 1)) =~= id_values(ids@.take(i as int)).push(ids@[i as int].0));
        }
        values.push(ids[i].0);
        i = i + 1;
    }
    proof {
        assert(ids@.take(i as int) =~= ids@);
    }
    values
}

fn label_within_limits(label: &str) -> (ok: bool)
    ensures
        ok == label_ok(label@),
{
    crate::planar::validate_label(label).is_ok()
}

fn records_labeled(records: &Vec<SpatialDocumentRecord>) -> (ok: bool)
    ensures
        ok == forall|k: int| 0 <= k < records@.len() ==> label_ok(#[trigger] records@[k].label@),
{
    let mut i: usize = 0;
    while i < records.len()
        invariant
            i <= records@.len(),
            forall|k: int| 0 <= k < i ==> label_ok(#[trigger] records@[k].label@),
        decreases records@.len() - i,
    {
        if !label_within_limits(records[i].label.as_str()) {
            return false;
        }
        i = i + 1;
    }
    true
}

fn sources_labeled(sources: &Vec<SpatialDocumentSource>) -> (ok: bool)
    ensures
        ok == forall|k: int| 0 <= k < sources@.len() ==> label_ok(#[trigger] sources@[k].label@),
{
    let mut i: usize = 0;
    while i < sources.len()
        invariant
            i <= sources@.len(),
            forall|k: int| 0 <= k < i ==> label_ok(#[trigger] sources@[k].label@),
        decreases sources@.len() - i,
    {
        if !label_within_limits(sources[i].label.as_str()) {
            return false;
        }
        i = i + 1;
    }
    true
}

fn contains_value(values: &Vec<u128>, x: u128) -> (found: bool)
    ensures
        found == values@.contains(x),
{
    let mut i: usize = 0;
    while i < values.len()
        invariant
            i <= values@.len(),
            forall|k: int| 0 <= k < i ==> values@[k] != x,
        decreases values@.len() - i,
    {
        if values[i] == x {
            proof {
                assert(values@[i as int] == x);
            }
            return true;
        }
        i = i + 1;
    }
    false
}

fn covers(xs: &Vec<u128>, ys: &Vec<u128>) -> (covered: bool)
    ensures
        covered == forall|k: int| 0 <= k < xs@.len() ==> ys@.contains(#[trigger] xs@[k]),
{
    let mut i: usize = 0;
    while i < xs.len()
        invariant
            i <= xs@.len(),
            forall|k: int| 0 <= k < i ==> ys@.contains(#[trigger] xs@[k]),
        decreases xs@.len() - i,
    {
        if !contains_value(ys, xs[i]) {
            return false;
        }
        i = i + 1;
    }
    true
}

fn has_same_entries(listed: &Vec<u128>, wanted: &Vec<u128>) -> (same: bool)
    ensures
        same == same_entries(listed@, wanted@),
{
    if listed.len() != wanted.len() {
        return false;
    }
    let forward = covers(listed, wanted);
    let backward = covers(wanted, listed);
    proof {
        if forward && backward {
            assert forall|x: u128| listed@.to_set().contains(x) <==> wanted@.to_set().contains(x) by {
                if listed@.contains(x) {
                    let k = choose|k: int| 0 <= k < listed@.len() && listed@[k] == x;
                    assert(wanted@.contains(listed@[k]));
                }
                if wanted@.contains(x) {
                    let k = choose|k: int| 0 <= k < wanted@.len() && wanted@[k] == x;
                    assert(listed@.contains(wanted@[k]));
                }
            }
            assert(listed@.to_set() =~= wanted@.to_set());
        } else if !forward {
            let k = choose|k: int| 0 <= k < listed@.len() && !wanted@.contains(#[trigger] listed@[k]);
            assert(listed@.to_set().contains(listed@[k]));
            assert(!wanted@.to_set().contains(listed@[k]));
        } else {
            let k = choose|k: int| 0 <= k < wanted@.len() && !listed@.contains(#[trigger] wanted@[k]);
            assert(wanted@.to_set().contains(wanted@[k]));
            assert(!listed@.to_set().contains(wanted@[k]));
        }
    }
    forward && backward
}

/// Walks the object identities after the document identity, rejecting the
/// first zero or repeated one; on success returns the largest identity.
fn check_object_ids(document: u128, ids: &Vec<u128>) -> (result: Result<u128, SpatialDocumentError>)
    ensures
        match id_error(set![document], ids@) {
            Some(error) => result == Err::<u128, _>(error),
            None => result is Ok,
        },
        result matches Ok(max) ==> document <= max && (forall|k: int| 0 <= k < ids@.len() ==> #[trigger] ids@[k] <= max)
            && (max == document || exists|k: int| 0 <= k < ids@.len() && #[trigger] ids@[k] == max),
{
    let mut seen = std::collections::BTreeSet::new();
    seen.insert(document);
    let mut max = document;
    let mut i: usize = 0;
    proof {
        assert(seen@ =~= set![document]);
        assert(ids@.skip(0) =~= ids@);
    }
    while i < ids.len()
        invariant
            i <= ids@.len(),
            id_error(set![document], ids@) == id_error(seen@, ids@.skip(i as int)),
            document <= max,
            forall|k: int| 0 <= k < i ==> #[trigger] ids@[k] <= max,
            max == document || exists|k: int| 0 <= k < i && #[trigger] ids@[k] == max,
        decreases ids@.len() - i,
    {
        let id = ids[i];
        proof {
            assert(ids@.skip(i as int)[0] == ids@[i as int]);
            assert(ids@.skip(i as int).drop_first() =~= ids@.skip(i + 1));
        }
        if id == 0 {
            return Err(SpatialDocumentError::InvalidId(0));
        }
        if seen.contains(&id) {
            return Err(SpatialDocumentError::DuplicateId(id));
        }
        seen.insert(id);
        if id > max {
            max = id;
        }
        i = i + 1;
    }
    Ok(max)
}

/// Runs the basic structural checks of a persistent spatial document.
pub fn validate_document_basics(d: &SpatialDocumentStructure) -> (result: Result<(), SpatialDocumentError>)
    ensures
        match document_error(*d) {
            Some(error) => result == Err::<(), _>(error),
            None => result is Ok,
        },
{
    if d.version != SPATIAL_ASSEMBLY_DOCUMENT_VERSION {
        return Err(SpatialDocumentError::UnsupportedVersion(d.version));
    }
    if d.id.0 == 0 {
        return Err(SpatialDocumentError::InvalidId(0));
    }
    if !d.model_scale_valid {
        return Err(SpatialDocumentError::InvalidField(SpatialDocumentField::ModelScale));
    }
    let count: u128 = d.bodies.len() as u128 + d.point_features.len() as u128 + d.frame_features.len() as u128
        + d.axis_features.len() as u128 + d.plane_features.len() as u128 + d.sources.len() as u128
        + d.coordinates.len() as u128 + d.monitors.len() as u128;
    if count > SPATIAL_DOCUMENT_MAX_OBJECTS as u128 {
        return Err(SpatialDocumentError::InvalidField(SpatialDocumentField::Topology));
    }
    let mut ids: Vec<u128> = Vec::new();
    push_record_ids(&mut ids, &d.bodies);
    push_record_ids(&mut ids, &d.point_features);
    push_record_ids(&mut ids, &d.frame_features);
    push_record_ids(&mut ids, &d.axis_features);
    push_record_ids(&mut ids, &d.plane_features);
    push_source_ids(&mut ids, &d.sources);
    push_record_ids(&mut ids, &d.coordinates);
    push_record_ids(&mut ids, &d.monitors);
    proof {
        assert(ids@ =~= object_ids(*d));
    }
    let max = check_object_ids(d.id.0, &ids)?;
    if d.next_id.0 <= max {
        proof {
            if max != d.id.0 {
                let k = choose|k: int| 0 <= k < ids@.len() && #[trigger] ids@[k] == max;
                assert(d.next_id.0 <= object_ids(*d)[k]);
            }
        }
        return Err(SpatialDocumentError::InvalidField(SpatialDocumentField::NextId));
    }
    let labeled = records_labeled(&d.bodies) && records_labeled(&d.point_features) && records_labeled(&d.frame_features)
        && records_labeled(&d.axis_features) && records_labeled(&d.plane_features) && sources_labeled(&d.sources)
        && records_labeled(&d.coordinates) && records_labeled(&d.monitors);
    proof {
        let labels = object_labels(*d);
        let a = d.bodies@.map_values(|r: SpatialDocumentRecord| r.label@);
        let b = d.point_features@.map_values(|r: SpatialDocumentRecord| r.label@);
        let c = d.frame_features@.map_values(|r: SpatialDocumentRecord| r.label@);
        let e = d.axis_features@.map_values(|r: SpatialDocumentRecord| r.label@);
        let f = d.plane_features@.map_values(|r: SpatialDocumentRecord| r.label@);
        let g = d.sources@.map_values(|r: SpatialDocumentSource| r.label@);
        let h = d.coordinates@.map_values(|r: SpatialDocumentRecord| r.label@);
        let m = d.monitors@.map_values(|r: SpatialDocumentRecord| r.label@);
        assert(labels =~= a + b + c + e + f + g + h + m);
        let offset_b = a.len() as int;
        let offset_c = offset_b + b.len();
        let offset_e = offset_c + c.len();
        let offset_f = offset_e + e.len();
        let offset_g = offset_f + f.len();
        let offset_h = offset_g + g.len();
        let offset_m = offset_h + h.len();
        if labeled {
            assert forall|k: int| 0 <= k < labels.len() implies label_ok(#[trigger] labels[k]) by {
                if k < offset_b {
                    assert(labels[k] == d.bodies@[k].label@);
                } else if k < offset_c {
                    assert(labels[k] == d.point_features@[k - offset_b].label@);
                } else if k < offset_e {
                    assert(labels[k] == d.frame_features@[k - offset_c].label@);
                } else if k < offset_f {
                    assert(labels[k] == d.axis_features@[k - offset_e].label@);
                } else if k < offset_g {
                    assert(labels[k] == d.plane_features@[k - offset_f].label@);
                } else if k < offset_h {
                    assert(labels[k] == d.sources@[k - offset_g].label@);
                } else if k < offset_m {
                    assert(labels[k] == d.coordinates@[k - offset_h].label@);
                } else {
                    assert(labels[k] == d.monitors@[k - offset_m].label@);
                }
            }
        } else {
            if exists|q: int| 0 <= q < a.len() && !label_ok(#[trigger] d.bodies@[q].label@) {
                let q = choose|q: int| 0 <= q < a.len() && !label_ok(#[trigger] d.bodies@[q].label@);
                assert(labels[q] == d.bodies@[q].label@);
            } else if exists|q: int| 0 <= q < b.len() && !label_ok(#[trigger] d.point_features@[q].label@) {
                let q = choose|q: int| 0 <= q < b.len() && !label_ok(#[trigger] d.point_features@[q].label@);
                assert(labels[offset_b + q] == d.point_features@[q].label@);
            } else if exists|q: int| 0 <= q < c.len() && !label_ok(#[trigger] d.frame_features@[q].label@) {
                let q = choose|q: int| 0 <= q < c.len() && !label_ok(#[trigger] d.frame_features@[q].label@);
                assert(labels[offset_c + q] == d.frame_features@[q].label@);
            } else if exists|q: int| 0 <= q < e.len() && !label_ok(#[trigger] d.axis_features@[q].label@) {
                let q = choose|q: int| 0 <= q < e.len() && !label_ok(#[trigger] d.axis_features@[q].label@);
                assert(labels[offset_e + q] == d.axis_features@[q].label@);
            } else if exists|q: int| 0 <= q < f.len() && !label_ok(#[trigger] d.plane_features@[q].label@) {
                let q = choose|q: int| 0 <= q < f.len() && !label_ok(#[trigger] d.plane_features@[q].label@);
                assert(labels[offset_f + q] == d.plane_features@[q].label@);
            } else if exists|q: int| 0 <= q < g.len() && !label_ok(#[trigger] d.sources@[q].label@) {
                let q = choose|q: int| 0 <= q < g.len() && !label_ok(#[trigger] d.sources@[q].label@);
                assert(labels[offset_g + q] == d.sources@[q].label@);
            } else if exists|q: int| 0 <= q < h.len() && !label_ok(#[trigger] d.coordinates@[q].label@) {
                let q = choose|q: int| 0 <= q < h.len() && !label_ok(#[trigger] d.coordinates@[q].label@);
                assert(labels[offset_h + q] == d.coordinates@[q].label@);
            } else {
                let q = choose|q: int| 0 <= q < m.len() && !label_ok(#[trigger] d.monitors@[q].label@);
                assert(labels[offset_m + q] == d.monitors@[q].label@);
            }
        }
    }
    if !labeled {
        return Err(SpatialDocumentError::InvalidField(SpatialDocumentField::Label));
    }
    let mut source_list: Vec<u128> = Vec::new();
    push_source_ids(&mut source_list, &d.sources);
    let order = collect_id_values(&d.source_order);
    proof {
        assert(source_list@ =~= source_ids(d.sources@));
    }
    if !has_same_entries(&order, &source_list) {
        return Err(SpatialDocumentError::InvalidSourceOrder);
    }
    let mut body_list: Vec<u128> = Vec::new();
    push_record_ids(&mut body_list, &d.bodies);
    let accepted_bodies = collect_id_values(&d.accepted_bodies);
    proof {
        assert(body_list@ =~= record_ids(d.bodies@));
    }
    if !has_same_entries(&accepted_bodies, &body_list) {
        return Err(SpatialDocumentError::InvalidField(SpatialDocumentField::AcceptedBodies));
    }
    let drivers = collect_driver_ids(&d.sources);
    let accepted_drivers = collect_id_values(&d.accepted_drivers);
    if !has_same_entries(&accepted_drivers, &drivers) {
        return Err(SpatialDocumentError::InvalidField(SpatialDocumentField::AcceptedDrivers));
    }
    Ok(())
}

} // verus!
