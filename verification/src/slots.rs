//! The slot maps behind the linkage stores, and what their operations do to
//! the stored values.
//!
//! Each store is a `slotmap::SlotMap` with default keys. A key is exchanged as
//! its packed 64-bit data (`KeyData::as_ffi`); looking a packed key up goes
//! through `KeyData::from_ffi`, which sets the lowest version bit, so the key
//! looked up is [`slot_key`] of the packed data.

use vstd::prelude::*;
use slotmap::{DefaultKey, Key, KeyData, SlotMap};
use crate::linkage::{AxisFeature, Driver, Joint, PointFeature, RigidBody};
use crate::model::BranchMonitor;

verus! {

/// A slot map with default keys; what it holds is named per value type below.
/// The map is held in a private field whose contents are opaque here, since
/// `SlotMap` itself cannot be declared as an outside type (its `Key` bound).
#[verifier::external_body]
#[verifier::reject_recursive_types(V)]
pub struct Slots<V> {
    map: SlotMap<DefaultKey, V>,
}

/// The key a slot map looks up for the packed key data `key`: the packed data
/// with the lowest version bit set.
pub open spec fn slot_key(key: u64) -> u64 {
    key | 0x1_0000_0000u64
}

/// Looking up the key of a looked-up key finds the same key.
pub proof fn lemma_slot_key_idempotent(key: u64)
    ensures
        slot_key(slot_key(key)) == slot_key(key),
{
    assert((key | 0x1_0000_0000u64) | 0x1_0000_0000u64 == key | 0x1_0000_0000u64) by (bit_vector);
}

/// The packed data whose slot key is `key`: `key` itself with the lowest
/// version bit set.
pub fn slot_id(key: u64) -> (id: u64)
    ensures
        id == slot_key(key),
        slot_key(id) == id,
{
    proof {
        lemma_slot_key_idempotent(key);
    }
    key | 0x1_0000_0000u64
}

/// The rigid bodies held by a slot map, by packed key.
pub uninterp spec fn body_slots(slots: Slots<RigidBody>) -> Map<u64, RigidBody>;

/// `SlotMap::with_key`: a slot map of rigid bodies that holds nothing.
#[verifier::external_body]
pub(crate) fn new_body_slots() -> (slots: Slots<RigidBody>)
    ensures
        body_slots(slots).is_empty(),
        body_slots(slots).dom().finite(),
{
    Slots { map: SlotMap::with_key() }
}

/// `SlotMap::insert`: stores `value` under a key that held nothing and returns
/// the key's packed data (its version is odd). The map panics only when full,
/// which takes `u32::MAX - 1` values.
#[verifier::external_body]
pub(crate) fn insert_body_slot(slots: &mut Slots<RigidBody>, value: RigidBody) -> (key: u64)
    requires
        body_slots(*old(slots)).dom().finite(),
        body_slots(*old(slots)).len() < u32::MAX - 1,
    ensures
        key == slot_key(key),
        !body_slots(*old(slots)).contains_key(key),
        body_slots(*final(slots)) == body_slots(*old(slots)).insert(key, value),
{
    slots.map.insert(value).data().as_ffi()
}

/// `SlotMap::get`: the value stored under the key of `key`, if any.
#[verifier::external_body]
pub(crate) fn get_body_slot(slots: &Slots<RigidBody>, key: u64) -> (value: Option<&RigidBody>)
    ensures
        value matches Some(v) ==> body_slots(*slots).contains_key(slot_key(key)) && *v == body_slots(*slots)[slot_key(key)],
        value is None ==> !body_slots(*slots).contains_key(slot_key(key)),
{
    slots.map.get(KeyData::from_ffi(key).into())
}

/// `SlotMap::remove`: takes out the value stored under the key of `key`, if any.
#[verifier::external_body]
pub(crate) fn remove_body_slot(slots: &mut Slots<RigidBody>, key: u64) -> (value: Option<RigidBody>)
    ensures
        value matches Some(v) ==> body_slots(*old(slots)).contains_key(slot_key(key)) && v == body_slots(*old(slots))[slot_key(key)],
        value is None ==> !body_slots(*old(slots)).contains_key(slot_key(key)),
        body_slots(*final(slots)) == body_slots(*old(slots)).remove(slot_key(key)),
{
    slots.map.remove(KeyData::from_ffi(key).into())
}

/// `IndexMut` of `SlotMap`: the value stored under the key of `key`, which
/// must hold one (indexing panics otherwise).
#[verifier::external_body]
pub(crate) fn body_slot_mut(slots: &mut Slots<RigidBody>, key: u64) -> (value: &mut RigidBody)
    requires
        body_slots(*old(slots)).contains_key(slot_key(key)),
    ensures
        *value == body_slots(*old(slots))[slot_key(key)],
        body_slots(*final(slots)) == body_slots(*old(slots)).insert(slot_key(key), *final(value)),
{
    &mut slots.map[KeyData::from_ffi(key).into()]
}

/// The point features held by a slot map, by packed key.
pub uninterp spec fn point_slots(slots: Slots<PointFeature>) -> Map<u64, PointFeature>;

/// `SlotMap::with_key`: a slot map of point features that holds nothing.
#[verifier::external_body]
pub(crate) fn new_point_slots() -> (slots: Slots<PointFeature>)
    ensures
        point_slots(slots).is_empty(),
        point_slots(slots).dom().finite(),
{
    Slots { map: SlotMap::with_key() }
}

/// `SlotMap::insert`: stores `value` under a key that held nothing and returns
/// the key's packed data (its version is odd). The map panics only when full,
/// which takes `u32::MAX - 1` values.
#[verifier::external_body]
pub(crate) fn insert_point_slot(slots: &mut Slots<PointFeature>, value: PointFeature) -> (key: u64)
    requires
        point_slots(*old(slots)).dom().finite(),
        point_slots(*old(slots)).len() < u32::MAX - 1,
    ensures
        key == slot_key(key),
        !point_slots(*old(slots)).contains_key(key),
        point_slots(*final(slots)) == point_slots(*old(slots)).insert(key, value),
{
    slots.map.insert(value).data().as_ffi()
}

/// `SlotMap::get`: the value stored under the key of `key`, if any.
#[verifier::external_body]
pub(crate) fn get_point_slot(slots: &Slots<PointFeature>, key: u64) -> (value: Option<&PointFeature>)
    ensures
        value matches Some(v) ==> point_slots(*slots).contains_key(slot_key(key)) && *v == point_slots(*slots)[slot_key(key)],
        value is None ==> !point_slots(*slots).contains_key(slot_key(key)),
{
    slots.map.get(KeyData::from_ffi(key).into())
}

/// `SlotMap::remove`: takes out the value stored under the key of `key`, if any.
#[verifier::external_body]
pub(crate) fn remove_point_slot(slots: &mut Slots<PointFeature>, key: u64) -> (value: Option<PointFeature>)
    ensures
        value matches Some(v) ==> point_slots(*old(slots)).contains_key(slot_key(key)) && v == point_slots(*old(slots))[slot_key(key)],
        value is None ==> !point_slots(*old(slots)).contains_key(slot_key(key)),
        point_slots(*final(slots)) == point_slots(*old(slots)).remove(slot_key(key)),
{
    slots.map.remove(KeyData::from_ffi(key).into())
}

/// The axis features held by a slot map, by packed key.
pub uninterp spec fn axis_slots(slots: Slots<AxisFeature>) -> Map<u64, AxisFeature>;

/// `SlotMap::with_key`: a slot map of axis features that holds nothing.
#[verifier::external_body]
pub(crate) fn new_axis_slots() -> (slots: Slots<AxisFeature>)
    ensures
        axis_slots(slots).is_empty(),
        axis_slots(slots).dom().finite(),
{
    Slots { map: SlotMap::with_key() }
}

/// `SlotMap::insert`: stores `value` under a key that held nothing and returns
/// the key's packed data (its version is odd). The map panics only when full,
/// which takes `u32::MAX - 1` values.
#[verifier::external_body]
pub(crate) fn insert_axis_slot(slots: &mut Slots<AxisFeature>, value: AxisFeature) -> (key: u64)
    requires
        axis_slots(*old(slots)).dom().finite(),
        axis_slots(*old(slots)).len() < u32::MAX - 1,
    ensures
        key == slot_key(key),
        !axis_slots(*old(slots)).contains_key(key),
        axis_slots(*final(slots)) == axis_slots(*old(slots)).insert(key, value),
{
    slots.map.insert(value).data().as_ffi()
}

/// `SlotMap::get`: the value stored under the key of `key`, if any.
#[verifier::external_body]
pub(crate) fn get_axis_slot(slots: &Slots<AxisFeature>, key: u64) -> (value: Option<&AxisFeature>)
    ensures
        value matches Some(v) ==> axis_slots(*slots).contains_key(slot_key(key)) && *v == axis_slots(*slots)[slot_key(key)],
        value is None ==> !axis_slots(*slots).contains_key(slot_key(key)),
{
    slots.map.get(KeyData::from_ffi(key).into())
}

/// `SlotMap::remove`: takes out the value stored under the key of `key`, if any.
#[verifier::external_body]
pub(crate) fn remove_axis_slot(slots: &mut Slots<AxisFeature>, key: u64) -> (value: Option<AxisFeature>)
    ensures
        value matches Some(v) ==> axis_slots(*old(slots)).contains_key(slot_key(key)) && v == axis_slots(*old(slots))[slot_key(key)],
        value is None ==> !axis_slots(*old(slots)).contains_key(slot_key(key)),
        axis_slots(*final(slots)) == axis_slots(*old(slots)).remove(slot_key(key)),
{
    slots.map.remove(KeyData::from_ffi(key).into())
}

/// The joints held by a slot map, by packed key.
pub uninterp spec fn joint_slots(slots: Slots<Joint>) -> Map<u64, Joint>;

/// `SlotMap::with_key`: a slot map of joints that holds nothing.
#[verifier::external_body]
pub(crate) fn new_joint_slots() -> (slots: Slots<Joint>)
    ensures
        joint_slots(slots).is_empty(),
        joint_slots(slots).dom().finite(),
{
    Slots { map: SlotMap::with_key() }
}

/// `SlotMap::insert`: stores `value` under a key that held nothing and returns
/// the key's packed data (its version is odd). The map panics only when full,
/// which takes `u32::MAX - 1` values.
#[verifier::external_body]
pub(crate) fn insert_joint_slot(slots: &mut Slots<Joint>, value: Joint) -> (key: u64)
    requires
        joint_slots(*old(slots)).dom().finite(),
        joint_slots(*old(slots)).len() < u32::MAX - 1,
    ensures
        key == slot_key(key),
        !joint_slots(*old(slots)).contains_key(key),
        joint_slots(*final(slots)) == joint_slots(*old(slots)).insert(key, value),
{
    slots.map.insert(value).data().as_ffi()
}

/// `SlotMap::get`: the value stored under the key of `key`, if any.
#[verifier::external_body]
pub(crate) fn get_joint_slot(slots: &Slots<Joint>, key: u64) -> (value: Option<&Joint>)
    ensures
        value matches Some(v) ==> joint_slots(*slots).contains_key(slot_key(key)) && *v == joint_slots(*slots)[slot_key(key)],
        value is None ==> !joint_slots(*slots).contains_key(slot_key(key)),
{
    slots.map.get(KeyData::from_ffi(key).into())
}

/// `SlotMap::remove`: takes out the value stored under the key of `key`, if any.
#[verifier::external_body]
pub(crate) fn remove_joint_slot(slots: &mut Slots<Joint>, key: u64) -> (value: Option<Joint>)
    ensures
        value matches Some(v) ==> joint_slots(*old(slots)).contains_key(slot_key(key)) && v == joint_slots(*old(slots))[slot_key(key)],
        value is None ==> !joint_slots(*old(slots)).contains_key(slot_key(key)),
        joint_slots(*final(slots)) == joint_slots(*old(slots)).remove(slot_key(key)),
{
    slots.map.remove(KeyData::from_ffi(key).into())
}

/// The drivers held by a slot map, by packed key.
pub uninterp spec fn driver_slots(slots: Slots<Driver>) -> Map<u64, Driver>;

/// `SlotMap::with_key`: a slot map of drivers that holds nothing.
#[verifier::external_body]
pub(crate) fn new_driver_slots() -> (slots: Slots<Driver>)
    ensures
        driver_slots(slots).is_empty(),
        driver_slots(slots).dom().finite(),
{
    Slots { map: SlotMap::with_key() }
}

/// `SlotMap::insert`: stores `value` under a key that held nothing and returns
/// the key's packed data (its version is odd). The map panics only when full,
/// which takes `u32::MAX - 1` values.
#[verifier::external_body]
pub(crate) fn insert_driver_slot(slots: &mut Slots<Driver>, value: Driver) -> (key: u64)
    requires
        driver_slots(*old(slots)).dom().finite(),
        driver_slots(*old(slots)).len() < u32::MAX - 1,
    ensures
        key == slot_key(key),
        !driver_slots(*old(slots)).contains_key(key),
        driver_slots(*final(slots)) == driver_slots(*old(slots)).insert(key, value),
{
    slots.map.insert(value).data().as_ffi()
}

/// `SlotMap::get`: the value stored under the key of `key`, if any.
#[verifier::external_body]
pub(crate) fn get_driver_slot(slots: &Slots<Driver>, key: u64) -> (value: Option<&Driver>)
    ensures
        value matches Some(v) ==> driver_slots(*slots).contains_key(slot_key(key)) && *v == driver_slots(*slots)[slot_key(key)],
        value is None ==> !driver_slots(*slots).contains_key(slot_key(key)),
{
    slots.map.get(KeyData::from_ffi(key).into())
}

/// `SlotMap::remove`: takes out the value stored under the key of `key`, if any.
#[verifier::external_body]
pub(crate) fn remove_driver_slot(slots: &mut Slots<Driver>, key: u64) -> (value: Option<Driver>)
    ensures
        value matches Some(v) ==> driver_slots(*old(slots)).contains_key(slot_key(key)) && v == driver_slots(*old(slots))[slot_key(key)],
        value is None ==> !driver_slots(*old(slots)).contains_key(slot_key(key)),
        driver_slots(*final(slots)) == driver_slots(*old(slots)).remove(slot_key(key)),
{
    slots.map.remove(KeyData::from_ffi(key).into())
}

/// `IndexMut` of `SlotMap`: the value stored under the key of `key`, which
/// must hold one (indexing panics otherwise).
#[verifier::external_body]
pub(crate) fn driver_slot_mut(slots: &mut Slots<Driver>, key: u64) -> (value: &mut Driver)
    requires
        driver_slots(*old(slots)).contains_key(slot_key(key)),
    ensures
        *value == driver_slots(*old(slots))[slot_key(key)],
        driver_slots(*final(slots)) == driver_slots(*old(slots)).insert(slot_key(key), *final(value)),
{
    &mut slots.map[KeyData::from_ffi(key).into()]
}

/// The branch monitors held by a slot map, by packed key.
pub uninterp spec fn monitor_slots(slots: Slots<BranchMonitor>) -> Map<u64, BranchMonitor>;

/// `SlotMap::with_key`: a slot map of branch monitors that holds nothing.
#[verifier::external_body]
pub(crate) fn new_monitor_slots() -> (slots: Slots<BranchMonitor>)
    ensures
        monitor_slots(slots).is_empty(),
        monitor_slots(slots).dom().finite(),
{
    Slots { map: SlotMap::with_key() }
}

/// `SlotMap::insert`: stores `value` under a key that held nothing and returns
/// the key's packed data (its version is odd). The map panics only when full,
/// which takes `u32::MAX - 1` values.
#[verifier::external_body]
pub(crate) fn insert_monitor_slot(slots: &mut Slots<BranchMonitor>, value: BranchMonitor) -> (key: u64)
    requires
        monitor_slots(*old(slots)).dom().finite(),
        monitor_slots(*old(slots)).len() < u32::MAX - 1,
    ensures
        key == slot_key(key),
        !monitor_slots(*old(slots)).contains_key(key),
        monitor_slots(*final(slots)) == monitor_slots(*old(slots)).insert(key, value),
{
    slots.map.insert(value).data().as_ffi()
}

/// `SlotMap::get`: the value stored under the key of `key`, if any.
#[verifier::external_body]
pub(crate) fn get_monitor_slot(slots: &Slots<BranchMonitor>, key: u64) -> (value: Option<&BranchMonitor>)
    ensures
        value matches Some(v) ==> monitor_slots(*slots).contains_key(slot_key(key)) && *v == monitor_slots(*slots)[slot_key(key)],
        value is None ==> !monitor_slots(*slots).contains_key(slot_key(key)),
{
    slots.map.get(KeyData::from_ffi(key).into())
}

/// `SlotMap::remove`: takes out the value stored under the key of `key`, if any.
#[verifier::external_body]
pub(crate) fn remove_monitor_slot(slots: &mut Slots<BranchMonitor>, key: u64) -> (value: Option<BranchMonitor>)
    ensures
        value matches Some(v) ==> monitor_slots(*old(slots)).contains_key(slot_key(key)) && v == monitor_slots(*old(slots))[slot_key(key)],
        value is None ==> !monitor_slots(*old(slots)).contains_key(slot_key(key)),
        monitor_slots(*final(slots)) == monitor_slots(*old(slots)).remove(slot_key(key)),
{
    slots.map.remove(KeyData::from_ffi(key).into())
}

} // verus!
