use geosolve_linkage::model::{
    branch_monitor_kind, driver_references_axis, driver_references_point, driver_unit,
    monitor_references_axis, monitor_references_point, nonempty_label, BranchMonitor,
    BranchMonitorKind, BranchSign, DriverKind, DriverUnit, LinkageError,
};
use geosolve_linkage::runtime_ids::{AxisFeatureId, BodyId, PointFeatureId};

#[test]
fn driver_unit_symbols() {
    assert_eq!(DriverUnit::Radian.symbol(), "rad");
    assert_eq!(DriverUnit::ModelUnit.symbol(), "model-unit");
    assert_eq!(driver_unit(DriverKind::Angular { reference: BodyId(1), driven: BodyId(2) }), DriverUnit::Radian);
    assert_eq!(
        driver_unit(DriverKind::Linear { origin: PointFeatureId(1), measured: PointFeatureId(2), guide_axis: AxisFeatureId(3) }),
        DriverUnit::ModelUnit
    );
}

#[test]
fn feature_references_of_drivers_and_monitors() {
    let linear = DriverKind::Linear { origin: PointFeatureId(1), measured: PointFeatureId(2), guide_axis: AxisFeatureId(3) };
    assert!(driver_references_point(linear, PointFeatureId(2)));
    assert!(!driver_references_point(linear, PointFeatureId(3)));
    assert!(driver_references_axis(linear, AxisFeatureId(3)));
    let angular = DriverKind::Angular { reference: BodyId(1), driven: BodyId(2) };
    assert!(!driver_references_point(angular, PointFeatureId(1)));
    let orientation = BranchMonitor::Orientation {
        line_start: PointFeatureId(4),
        line_end: PointFeatureId(5),
        observed: PointFeatureId(6),
        sign: BranchSign::Positive,
    };
    assert!(monitor_references_point(orientation, PointFeatureId(6)));
    assert!(!monitor_references_axis(orientation, AxisFeatureId(6)));
    let displacement = BranchMonitor::DirectedDisplacement {
        origin: PointFeatureId(7),
        measured: PointFeatureId(8),
        axis: AxisFeatureId(9),
        sign: BranchSign::Negative,
    };
    assert!(monitor_references_axis(displacement, AxisFeatureId(9)));
    assert!(!monitor_references_point(displacement, PointFeatureId(9)));
    assert_eq!(branch_monitor_kind(displacement), BranchMonitorKind::DirectedDisplacement);
}

#[test]
fn labels_must_keep_a_non_whitespace_character() {
    assert_eq!(nonempty_label("crank".to_string(), "driver"), Ok("crank".to_string()));
    assert_eq!(nonempty_label(" \t\n".to_string(), "driver"), Err(LinkageError::EmptyLabel("driver")));
    assert_eq!(nonempty_label("\u{3000}\u{a0}".to_string(), "joint"), Err(LinkageError::EmptyLabel("joint")));
    assert_eq!(nonempty_label(" a ".to_string(), "joint"), Ok(" a ".to_string()));
    assert_eq!(nonempty_label(String::new(), "rigid body"), Err(LinkageError::EmptyLabel("rigid body")));
}
