//! Runtime identities. Planar runtime keys carry the packed key data of the
//! runtime store (slot index and generation); spatial runtime identities are an
//! assembly namespace plus an ordinal inside it.

use vstd::prelude::*;

verus! {

/// Stable identity of a rigid body.
#[derive(Clone, Copy, Debug, PartialEq, Eq, Structural, Hash)]
pub struct BodyId(pub u64);

impl BodyId {
    /// Wraps packed runtime key data.
    pub fn from_key_data(data: u64) -> (id: Self)
        ensures
            id.0 == data,
    {
        BodyId(data)
    }

    /// The packed runtime key data.
    pub fn key_data(self) -> (data: u64)
        ensures
            data == self.0,
    {
        self.0
    }
}

/// Stable identity of a body-local point feature.
#[derive(Clone, Copy, Debug, PartialEq, Eq, Structural, Hash)]
pub struct PointFeatureId(pub u64);

impl PointFeatureId {
    /// Wraps packed runtime key data.
    pub fn from_key_data(data: u64) -> (id: Self)
        ensures
            id.0 == data,
    {
        PointFeatureId(data)
    }

    /// The packed runtime key data.
    pub fn key_data(self) -> (data: u64)
        ensures
            data == self.0,
    {
        self.0
    }
}

/// Stable identity of a body-local directed axis feature.
#[derive(Clone, Copy, Debug, PartialEq, Eq, Structural, Hash)]
pub struct AxisFeatureId(pub u64);

impl AxisFeatureId {
    /// Wraps packed runtime key data.
    pub fn from_key_data(data: u64) -> (id: Self)
        ensures
            id.0 == data,
    {
        AxisFeatureId(data)
    }

    /// The packed runtime key data.
    pub fn key_data(self) -> (data: u64)
        ensures
            data == self.0,
    {
        self.0
    }
}

/// Stable identity of a joint.
#[derive(Clone, Copy, Debug, PartialEq, Eq, Structural, Hash)]
pub struct JointId(pub u64);

impl JointId {
    /// Wraps packed runtime key data.
    pub fn from_key_data(data: u64) -> (id: Self)
        ensures
            id.0 == data,
    {
        JointId(data)
    }

    /// The packed runtime key data.
    pub fn key_data(self) -> (data: u64)
        ensures
            data == self.0,
    {
        self.0
    }
}

/// Stable identity of a driver.
#[derive(Clone, Copy, Debug, PartialEq, Eq, Structural, Hash)]
pub struct DriverId(pub u64);

impl DriverId {
    /// Wraps packed runtime key data.
    pub fn from_key_data(data: u64) -> (id: Self)
        ensures
            id.0 == data,
    {
        DriverId(data)
    }

    /// The packed runtime key data.
    pub fn key_data(self) -> (data: u64)
        ensures
            data == self.0,
    {
        self.0
    }
}

/// Stable identity of a scenario/domain branch monitor.
#[derive(Clone, Copy, Debug, PartialEq, Eq, Structural, Hash)]
pub struct BranchMonitorId(pub u64);

impl BranchMonitorId {
    /// Wraps packed runtime key data.
    pub fn from_key_data(data: u64) -> (id: Self)
        ensures
            id.0 == data,
    {
        BranchMonitorId(data)
    }

    /// The packed runtime key data.
    pub fn key_data(self) -> (data: u64)
        ensures
            data == self.0,
    {
        self.0
    }
}

/// Access to the namespace and ordinal of a spatial runtime identity.
pub trait SpatialIdValue: Copy {
    spec fn spec_ordinal(self) -> u64;

    spec fn spec_namespace(self) -> u64;

    fn ordinal(self) -> (ordinal: u64)
        ensures
            ordinal == self.spec_ordinal(),
    ;

    fn belongs_to_namespace(self, namespace: u64) -> (belongs: bool)
        ensures
            belongs == (self.spec_namespace() == namespace),
    ;

    fn same_as(self, other: Self) -> (same: bool)
        ensures
            same == (self == other),
    ;
}

/// Opaque spatial rigid-body identity.
#[derive(Clone, Copy, Debug, PartialEq, Eq, Structural, Hash)]
pub struct SpatialBodyId {
    pub namespace: u64,
    pub ordinal: u64,
}

impl SpatialBodyId {
    pub fn new(namespace: u64, ordinal: u64) -> (id: Self)
        ensures
            id.namespace == namespace,
            id.ordinal == ordinal,
    {
        SpatialBodyId { namespace, ordinal }
    }

    pub fn as_u64(self) -> (ordinal: u64)
        ensures
            ordinal == self.ordinal,
    {
        self.ordinal
    }

    pub fn belongs_to(self, namespace: u64) -> (belongs: bool)
        ensures
            belongs == (self.namespace == namespace),
    {
        self.namespace == namespace
    }
}

impl SpatialIdValue for SpatialBodyId {
    open spec fn spec_ordinal(self) -> u64 {
        self.ordinal
    }

    open spec fn spec_namespace(self) -> u64 {
        self.namespace
    }

    fn ordinal(self) -> (ordinal: u64) {
        self.ordinal
    }

    fn belongs_to_namespace(self, namespace: u64) -> (belongs: bool) {
        self.belongs_to(namespace)
    }

    fn same_as(self, other: Self) -> (same: bool) {
        self == other
    }
}

/// Opaque body-local spatial point-feature identity.
#[derive(Clone, Copy, Debug, PartialEq, Eq, Structural, Hash)]
pub struct SpatialPointFeatureId {
    pub namespace: u64,
    pub ordinal: u64,
}

impl SpatialPointFeatureId {
    pub fn new(namespace: u64, ordinal: u64) -> (id: Self)
        ensures
            id.namespace == namespace,
            id.ordinal == ordinal,
    {
        SpatialPointFeatureId { namespace, ordinal }
    }

    pub fn as_u64(self) -> (ordinal: u64)
        ensures
            ordinal == self.ordinal,
    {
        self.ordinal
    }

    pub fn belongs_to(self, namespace: u64) -> (belongs: bool)
        ensures
            belongs == (self.namespace == namespace),
    {
        self.namespace == namespace
    }
}

impl SpatialIdValue for SpatialPointFeatureId {
    open spec fn spec_ordinal(self) -> u64 {
        self.ordinal
    }

    open spec fn spec_namespace(self) -> u64 {
        self.namespace
    }

    fn ordinal(self) -> (ordinal: u64) {
        self.ordinal
    }

    fn belongs_to_namespace(self, namespace: u64) -> (belongs: bool) {
        self.belongs_to(namespace)
    }

    fn same_as(self, other: Self) -> (same: bool) {
        self == other
    }
}

/// Opaque body-local spatial frame-feature identity.
#[derive(Clone, Copy, Debug, PartialEq, Eq, Structural, Hash)]
pub struct SpatialFrameFeatureId {
    pub namespace: u64,
    pub ordinal: u64,
}

impl SpatialFrameFeatureId {
    pub fn new(namespace: u64, ordinal: u64) -> (id: Self)
        ensures
            id.namespace == namespace,
            id.ordinal == ordinal,
    {
        SpatialFrameFeatureId { namespace, ordinal }
    }

    pub fn as_u64(self) -> (ordinal: u64)
        ensures
            ordinal == self.ordinal,
    {
        self.ordinal
    }

    pub fn belongs_to(self, namespace: u64) -> (belongs: bool)
        ensures
            belongs == (self.namespace == namespace),
    {
        self.namespace == namespace
    }
}

impl SpatialIdValue for SpatialFrameFeatureId {
    open spec fn spec_ordinal(self) -> u64 {
        self.ordinal
    }

    open spec fn spec_namespace(self) -> u64 {
        self.namespace
    }

    fn ordinal(self) -> (ordinal: u64) {
        self.ordinal
    }

    fn belongs_to_namespace(self, namespace: u64) -> (belongs: bool) {
        self.belongs_to(namespace)
    }

    fn same_as(self, other: Self) -> (same: bool) {
        self == other
    }
}

/// Opaque body-local spatial axis-feature identity.
#[derive(Clone, Copy, Debug, PartialEq, Eq, Structural, Hash)]
pub struct SpatialAxisFeatureId {
    pub namespace: u64,
    pub ordinal: u64,
}

impl SpatialAxisFeatureId {
    pub fn new(namespace: u64, ordinal: u64) -> (id: Self)
        ensures
            id.namespace == namespace,
            id.ordinal == ordinal,
    {
        SpatialAxisFeatureId { namespace, ordinal }
    }

    pub fn as_u64(self) -> (ordinal: u64)
        ensures
            ordinal == self.ordinal,
    {
        self.ordinal
    }

    pub fn belongs_to(self, namespace: u64) -> (belongs: bool)
        ensures
            belongs == (self.namespace == namespace),
    {
        self.namespace == namespace
    }
}

impl SpatialIdValue for SpatialAxisFeatureId {
    open spec fn spec_ordinal(self) -> u64 {
        self.ordinal
    }

    open spec fn spec_namespace(self) -> u64 {
        self.namespace
    }

    fn ordinal(self) -> (ordinal: u64) {
        self.ordinal
    }

    fn belongs_to_namespace(self, namespace: u64) -> (belongs: bool) {
        self.belongs_to(namespace)
    }

    fn same_as(self, other: Self) -> (same: bool) {
        self == other
    }
}

/// Opaque body-local spatial plane-feature identity.
#[derive(Clone, Copy, Debug, PartialEq, Eq, Structural, Hash)]
pub struct SpatialPlaneFeatureId {
    pub namespace: u64,
    pub ordinal: u64,
}

impl SpatialPlaneFeatureId {
    pub fn new(namespace: u64, ordinal: u64) -> (id: Self)
        ensures
            id.namespace == namespace,
            id.ordinal == ordinal,
    {
        SpatialPlaneFeatureId { namespace, ordinal }
    }

    pub fn as_u64(self) -> (ordinal: u64)
        ensures
            ordinal == self.ordinal,
    {
        self.ordinal
    }

    pub fn belongs_to(self, namespace: u64) -> (belongs: bool)
        ensures
            belongs == (self.namespace == namespace),
    {
        self.namespace == namespace
    }
}

impl SpatialIdValue for SpatialPlaneFeatureId {
    open spec fn spec_ordinal(self) -> u64 {
        self.ordinal
    }

    open spec fn spec_namespace(self) -> u64 {
        self.namespace
    }

    fn ordinal(self) -> (ordinal: u64) {
        self.ordinal
    }

    fn belongs_to_namespace(self, namespace: u64) -> (belongs: bool) {
        self.belongs_to(namespace)
    }

    fn same_as(self, other: Self) -> (same: bool) {
        self == other
    }
}

/// Opaque spatial physical-source identity.
#[derive(Clone, Copy, Debug, PartialEq, Eq, Structural, Hash)]
pub struct SpatialSourceId {
    pub namespace: u64,
    pub ordinal: u64,
}

impl SpatialSourceId {
    pub fn new(namespace: u64, ordinal: u64) -> (id: Self)
        ensures
            id.namespace == namespace,
            id.ordinal == ordinal,
    {
        SpatialSourceId { namespace, ordinal }
    }

    pub fn as_u64(self) -> (ordinal: u64)
        ensures
            ordinal == self.ordinal,
    {
        self.ordinal
    }

    pub fn belongs_to(self, namespace: u64) -> (belongs: bool)
        ensures
            belongs == (self.namespace == namespace),
    {
        self.namespace == namespace
    }
}

impl SpatialIdValue for SpatialSourceId {
    open spec fn spec_ordinal(self) -> u64 {
        self.ordinal
    }

    open spec fn spec_namespace(self) -> u64 {
        self.namespace
    }

    fn ordinal(self) -> (ordinal: u64) {
        self.ordinal
    }

    fn belongs_to_namespace(self, namespace: u64) -> (belongs: bool) {
        self.belongs_to(namespace)
    }

    fn same_as(self, other: Self) -> (same: bool) {
        self == other
    }
}

/// Opaque spatial position-coordinate identity in the assembly-wide ID space.
#[derive(Clone, Copy, Debug, PartialEq, Eq, Structural, Hash)]
pub struct SpatialCoordinateId {
    pub namespace: u64,
    pub ordinal: u64,
}

impl SpatialCoordinateId {
    pub fn new(namespace: u64, ordinal: u64) -> (id: Self)
        ensures
            id.namespace == namespace,
            id.ordinal == ordinal,
    {
        SpatialCoordinateId { namespace, ordinal }
    }

    pub fn as_u64(self) -> (ordinal: u64)
        ensures
            ordinal == self.ordinal,
    {
        self.ordinal
    }

    pub fn belongs_to(self, namespace: u64) -> (belongs: bool)
        ensures
            belongs == (self.namespace == namespace),
    {
        self.namespace == namespace
    }
}

impl SpatialIdValue for SpatialCoordinateId {
    open spec fn spec_ordinal(self) -> u64 {
        self.ordinal
    }

    open spec fn spec_namespace(self) -> u64 {
        self.namespace
    }

    fn ordinal(self) -> (ordinal: u64) {
        self.ordinal
    }

    fn belongs_to_namespace(self, namespace: u64) -> (belongs: bool) {
        self.belongs_to(namespace)
    }

    fn same_as(self, other: Self) -> (same: bool) {
        self == other
    }
}

/// Opaque monitor-only spatial assembly-mode identity in the assembly-wide ID space.
#[derive(Clone, Copy, Debug, PartialEq, Eq, Structural, Hash)]
pub struct SpatialModeMonitorId {
    pub namespace: u64,
    pub ordinal: u64,
}

impl SpatialModeMonitorId {
    pub fn new(namespace: u64, ordinal: u64) -> (id: Self)
        ensures
            id.namespace == namespace,
            id.ordinal == ordinal,
    {
        SpatialModeMonitorId { namespace, ordinal }
    }

    pub fn as_u64(self) -> (ordinal: u64)
        ensures
            ordinal == self.ordinal,
    {
        self.ordinal
    }

    pub fn belongs_to(self, namespace: u64) -> (belongs: bool)
        ensures
            belongs == (self.namespace == namespace),
    {
        self.namespace == namespace
    }
}

impl SpatialIdValue for SpatialModeMonitorId {
    open spec fn spec_ordinal(self) -> u64 {
        self.ordinal
    }

    open spec fn spec_namespace(self) -> u64 {
        self.namespace
    }

    fn ordinal(self) -> (ordinal: u64) {
        self.ordinal
    }

    fn belongs_to_namespace(self, namespace: u64) -> (belongs: bool) {
        self.belongs_to(namespace)
    }

    fn same_as(self, other: Self) -> (same: bool) {
        self == other
    }
}

} // verus!
