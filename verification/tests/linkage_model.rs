use geosolve_linkage::linkage::{
    is_finite_bits, is_positive_finite_bits, JointKind, Linkage, PlanarBits, PlaneFrameBits, PoseBits,
    SpatialBits,
};
use geosolve_linkage::model::{AxisDirectionBranch, BranchMonitor, BranchSign, DriverKind, DriverUnit, LinkageError};
use geosolve_linkage::runtime_ids::{BodyId, JointId, PointFeatureId};

fn frame() -> PlaneFrameBits {
    let v = |x: f64, y: f64, z: f64| SpatialBits { x: x.to_bits(), y: y.to_bits(), z: z.to_bits() };
    PlaneFrameBits { origin: v(0.0, 0.0, 0.0), u: v(1.0, 0.0, 0.0), v: v(0.0, 1.0, 0.0) }
}

fn pose(x: f64, y: f64, angle: f64) -> PoseBits {
    PoseBits { x: x.to_bits(), y: y.to_bits(), angle: angle.to_bits() }
}

fn point(x: f64, y: f64) -> PlanarBits {
    PlanarBits { x: x.to_bits(), y: y.to_bits() }
}

fn linkage() -> Linkage {
    Linkage::new(1.0f64.to_bits(), frame(), None).unwrap()
}

#[test]
fn double_classification_reads_the_bits() {
    assert!(is_finite_bits(0.0f64.to_bits()));
    assert!(is_finite_bits((-3.5f64).to_bits()));
    assert!(is_finite_bits(f64::MAX.to_bits()));
    assert!(!is_finite_bits(f64::INFINITY.to_bits()));
    assert!(!is_finite_bits(f64::NEG_INFINITY.to_bits()));
    assert!(!is_finite_bits(f64::NAN.to_bits()));
    assert!(is_positive_finite_bits(1.0e-300f64.to_bits()));
    assert!(is_positive_finite_bits(f64::MIN_POSITIVE.to_bits() / 2));
    assert!(!is_positive_finite_bits(0.0f64.to_bits()));
    assert!(!is_positive_finite_bits((-0.0f64).to_bits()));
    assert!(!is_positive_finite_bits((-1.0f64).to_bits()));
    assert!(!is_positive_finite_bits(f64::INFINITY.to_bits()));
}

#[test]
fn new_linkage_validates_scale_then_frame() {
    assert_eq!(
        Linkage::new(0.0f64.to_bits(), frame(), Some("axes must be unit length")).err(),
        Some(LinkageError::InvalidModelScale(0.0f64.to_bits()))
    );
    assert_eq!(
        Linkage::new(f64::NAN.to_bits(), frame(), None).err(),
        Some(LinkageError::InvalidModelScale(f64::NAN.to_bits()))
    );
    assert_eq!(
        Linkage::new(2.0f64.to_bits(), frame(), Some("axes must be orthogonal")).err(),
        Some(LinkageError::InvalidPlaneFrame("axes must be orthogonal"))
    );
    let linkage = Linkage::new(2.0f64.to_bits(), frame(), None).unwrap();
    assert_eq!(linkage.model_scale(), 2.0f64.to_bits());
    assert_eq!(linkage.plane_frame(), frame());
    assert!(linkage.bodies().is_empty());
}

#[test]
fn model_scale_and_plane_can_be_replaced() {
    let mut linkage = linkage();
    assert_eq!(linkage.set_model_scale((-1.0f64).to_bits()), Err(LinkageError::InvalidModelScale((-1.0f64).to_bits())));
    assert_eq!(linkage.model_scale(), 1.0f64.to_bits());
    assert_eq!(linkage.set_model_scale(3.0f64.to_bits()), Ok(()));
    assert_eq!(linkage.model_scale(), 3.0f64.to_bits());
    assert_eq!(linkage.set_plane_frame(frame(), Some("origin and axes must be finite")), Err(LinkageError::InvalidPlaneFrame("origin and axes must be finite")));
    assert_eq!(linkage.set_plane_frame(frame(), None), Ok(()));
}

#[test]
fn bodies_are_listed_in_insertion_order_and_removal_leaves_ids_stale() {
    let mut linkage = linkage();
    let ground = linkage.add_body("ground", pose(0.0, 0.0, 0.0), true).unwrap();
    let crank = linkage.add_body("crank", pose(1.0, 2.0, 0.5), false).unwrap();
    let rocker = linkage.add_body("rocker", pose(3.0, 0.0, -0.5), false).unwrap();
    let listed: Vec<BodyId> = linkage.bodies().iter().map(|(id, _)| *id).collect();
    assert_eq!(listed, vec![ground, crank, rocker]);
    assert_eq!(linkage.body(crank).unwrap().label(), "crank");
    assert_eq!(linkage.body(crank).unwrap().pose(), pose(1.0, 2.0, 0.5));
    assert!(linkage.body(ground).unwrap().grounded());

    let removed = linkage.remove_body(crank).unwrap();
    assert_eq!(removed.label(), "crank");
    assert!(linkage.body(crank).is_none());
    assert_eq!(linkage.remove_body(crank).err(), Some(LinkageError::UnknownBody(crank)));
    assert_eq!(linkage.set_body_pose(crank, pose(0.0, 0.0, 0.0)), Err(LinkageError::UnknownBody(crank)));
    let listed: Vec<BodyId> = linkage.bodies().iter().map(|(id, _)| *id).collect();
    assert_eq!(listed, vec![ground, rocker]);
}

#[test]
fn body_inputs_are_checked_pose_first() {
    let mut linkage = linkage();
    assert_eq!(
        linkage.add_body("  ", pose(f64::INFINITY, 0.0, 0.0), false),
        Err(LinkageError::NonFinitePose { context: "rigid body" })
    );
    assert_eq!(linkage.add_body(" \t", pose(0.0, 0.0, 0.0), false), Err(LinkageError::EmptyLabel("rigid body")));
    assert!(linkage.bodies().is_empty());
    let body = linkage.add_body("b", pose(0.0, 0.0, 0.0), false).unwrap();
    assert_eq!(linkage.set_body_pose(body, pose(0.0, f64::NAN, 0.0)), Err(LinkageError::NonFinitePose { context: "rigid body" }));
    assert_eq!(linkage.set_body_pose(body, pose(4.0, 5.0, 7.0)), Ok(()));
    assert_eq!(linkage.body(body).unwrap().pose(), pose(4.0, 5.0, 7.0));
}

#[test]
fn referenced_objects_cannot_be_removed() {
    let mut linkage = linkage();
    let ground = linkage.add_body("ground", pose(0.0, 0.0, 0.0), true).unwrap();
    let arm = linkage.add_body("arm", pose(0.0, 0.0, 0.0), false).unwrap();
    let g = linkage.add_point_feature("g", ground, point(0.0, 0.0)).unwrap();
    let a = linkage.add_point_feature("a", arm, point(0.0, 0.0)).unwrap();
    let pin = linkage.add_revolute_joint("pin", g, a).unwrap();

    assert_eq!(linkage.remove_body(arm).err(), Some(LinkageError::BodyInUse(arm)));
    assert_eq!(linkage.remove_point_feature(a).err(), Some(LinkageError::PointFeatureInUse(a)));
    let joint = linkage.joint(pin).unwrap();
    assert_eq!(joint.kind(), JointKind::Revolute { first: g, second: a });
    assert_eq!(joint.ordinal(), 1);
    assert_eq!(joint.label(), "pin");

    assert_eq!(linkage.remove_joint(pin).unwrap().label(), "pin");
    assert_eq!(linkage.remove_joint(pin).err(), Some(LinkageError::UnknownJoint(pin)));
    assert_eq!(linkage.remove_point_feature(a).unwrap().label(), "a");
    assert_eq!(linkage.remove_point_feature(a).err(), Some(LinkageError::UnknownPointFeature(a)));
    assert_eq!(linkage.remove_body(arm).unwrap().label(), "arm");
}

#[test]
fn an_angular_driver_keeps_its_bodies_in_use() {
    let mut linkage = linkage();
    let ground = linkage.add_body("ground", pose(0.0, 0.0, 0.0), true).unwrap();
    let crank = linkage.add_body("crank", pose(0.0, 0.0, 0.0), false).unwrap();
    let step = 0.1f64.to_bits();
    assert_eq!(
        linkage.add_angular_driver("spin", crank, crank, 0.0f64.to_bits(), step),
        Err(LinkageError::RepeatedBody)
    );
    assert_eq!(
        linkage.add_angular_driver("spin", ground, crank, f64::NAN.to_bits(), step),
        Err(LinkageError::NonFiniteValue { context: "driver target", value: f64::NAN.to_bits() })
    );
    assert_eq!(
        linkage.add_angular_driver("spin", ground, crank, 0.0f64.to_bits(), 0.0f64.to_bits()),
        Err(LinkageError::InvalidContinuationStep(0.0f64.to_bits()))
    );
    assert_eq!(
        linkage.add_angular_driver(" ", ground, crank, 0.0f64.to_bits(), step),
        Err(LinkageError::EmptyLabel("driver"))
    );
    let driver = linkage.add_angular_driver("spin", ground, crank, 0.25f64.to_bits(), step).unwrap();
    assert_eq!(linkage.remove_body(crank).err(), Some(LinkageError::BodyInUse(crank)));
    let d = linkage.driver(driver).unwrap();
    assert_eq!(d.kind(), DriverKind::Angular { reference: ground, driven: crank });
    assert_eq!(d.unit(), DriverUnit::Radian);
    assert_eq!(d.target(), 0.25f64.to_bits());
    assert_eq!(d.max_continuation_step(), step);
    assert_eq!(d.ordinal(), 1);

    assert_eq!(linkage.set_driver_target_accepted(driver, f64::INFINITY.to_bits()), Err(LinkageError::NonFiniteValue { context: "driver target", value: f64::INFINITY.to_bits() }));
    assert_eq!(linkage.set_driver_target_accepted(driver, 1.5f64.to_bits()), Ok(()));
    assert_eq!(linkage.driver(driver).unwrap().target(), 1.5f64.to_bits());

    assert!(linkage.remove_driver(driver).is_ok());
    assert_eq!(linkage.remove_driver(driver).err(), Some(LinkageError::UnknownDriver(driver)));
    assert_eq!(linkage.set_driver_target_accepted(driver, 1.0f64.to_bits()), Err(LinkageError::UnknownDriver(driver)));
    assert!(linkage.remove_body(crank).is_ok());
    // A second driver still takes the next ordinal.
    let arm = linkage.add_body("arm", pose(0.0, 0.0, 0.0), false).unwrap();
    let again = linkage.add_angular_driver("spin again", ground, arm, 0.0f64.to_bits(), step).unwrap();
    assert_eq!(linkage.driver(again).unwrap().ordinal(), 2);
}

#[test]
fn features_check_their_body_value_and_label_in_order() {
    let mut linkage = linkage();
    let body = linkage.add_body("b", pose(0.0, 0.0, 0.0), false).unwrap();
    let stale = linkage.add_body("gone", pose(0.0, 0.0, 0.0), false).unwrap();
    linkage.remove_body(stale).unwrap();
    assert_eq!(linkage.add_point_feature("", stale, point(f64::NAN, 0.0)), Err(LinkageError::UnknownBody(stale)));
    assert_eq!(linkage.add_point_feature("", body, point(f64::NAN, 0.0)), Err(LinkageError::NonFinitePoint { context: "point feature" }));
    assert_eq!(linkage.add_point_feature("", body, point(1.0, 0.0)), Err(LinkageError::EmptyLabel("point feature")));
    assert_eq!(linkage.add_axis_feature("", stale, None), Err(LinkageError::UnknownBody(stale)));
    assert_eq!(linkage.add_axis_feature("", body, None), Err(LinkageError::InvalidAxis { context: "axis feature" }));
    assert_eq!(linkage.add_axis_feature("", body, Some(point(1.0, 0.0))), Err(LinkageError::EmptyLabel("axis feature")));
    let p = linkage.add_point_feature("p", body, point(1.0, 2.0)).unwrap();
    let x = linkage.add_axis_feature("x", body, Some(point(0.0, 1.0))).unwrap();
    assert_eq!(linkage.point_feature(p).unwrap().body(), body);
    assert_eq!(linkage.point_feature(p).unwrap().local_point(), point(1.0, 2.0));
    assert_eq!(linkage.axis_feature(x).unwrap().local_axis(), point(0.0, 1.0));
    assert_eq!(linkage.point_features().len(), 1);
    assert_eq!(linkage.axis_features().len(), 1);
    assert_eq!(linkage.remove_body(body).err(), Some(LinkageError::BodyInUse(body)));
}

#[test]
fn prismatic_joints_and_linear_drivers_check_feature_ownership() {
    let mut linkage = linkage();
    let ground = linkage.add_body("ground", pose(0.0, 0.0, 0.0), true).unwrap();
    let slider = linkage.add_body("slider", pose(0.0, 0.0, 0.0), false).unwrap();
    let gp = linkage.add_point_feature("gp", ground, point(0.0, 0.0)).unwrap();
    let gx = linkage.add_axis_feature("gx", ground, Some(point(1.0, 0.0))).unwrap();
    let sp = linkage.add_point_feature("sp", slider, point(0.0, 0.0)).unwrap();
    let sx = linkage.add_axis_feature("sx", slider, Some(point(1.0, 0.0))).unwrap();
    let gp2 = linkage.add_point_feature("gp2", ground, point(1.0, 0.0)).unwrap();

    assert_eq!(
        linkage.add_prismatic_joint("guide", gp, sx, sp, gx, AxisDirectionBranch::Same),
        Err(LinkageError::PrismaticFeatureBodyMismatch)
    );
    assert_eq!(
        linkage.add_prismatic_joint("guide", gp, gx, gp2, gx, AxisDirectionBranch::Same),
        Err(LinkageError::RepeatedBody)
    );
    let guide = linkage.add_prismatic_joint("guide", gp, gx, sp, sx, AxisDirectionBranch::Opposite).unwrap();
    assert_eq!(linkage.remove_axis_feature(sx).err(), Some(LinkageError::AxisFeatureInUse(sx)));

    let step = 0.5f64.to_bits();
    assert_eq!(
        linkage.add_linear_driver("push", gp, sp, sx, 0.0f64.to_bits(), step),
        Err(LinkageError::LinearDriverFeatureBodyMismatch)
    );
    assert_eq!(linkage.add_linear_driver("push", gp, gp2, gx, 0.0f64.to_bits(), step), Err(LinkageError::RepeatedBody));
    let push = linkage.add_linear_driver("push", gp, sp, gx, 0.0f64.to_bits(), step).unwrap();
    assert_eq!(linkage.driver(push).unwrap().unit(), DriverUnit::ModelUnit);
    linkage.remove_joint(guide).unwrap();
    assert_eq!(linkage.remove_axis_feature(gx).err(), Some(LinkageError::AxisFeatureInUse(gx)));
    assert!(linkage.remove_axis_feature(sx).is_ok());
    assert_eq!(linkage.remove_axis_feature(sx).err(), Some(LinkageError::UnknownAxisFeature(sx)));
}

#[test]
fn welds_need_distinct_bodies_and_a_finite_angle() {
    let mut linkage = linkage();
    let a = linkage.add_body("a", pose(0.0, 0.0, 0.0), false).unwrap();
    let b = linkage.add_body("b", pose(0.0, 0.0, 0.0), false).unwrap();
    let pa = linkage.add_point_feature("pa", a, point(0.0, 0.0)).unwrap();
    let pa2 = linkage.add_point_feature("pa2", a, point(1.0, 0.0)).unwrap();
    let pb = linkage.add_point_feature("pb", b, point(0.0, 0.0)).unwrap();
    assert_eq!(linkage.require_distinct_point_bodies(pa, pb), Ok((a, b)));
    assert_eq!(linkage.add_weld_joint_with_angle("w", pa, pa2, 0.0f64.to_bits()), Err(LinkageError::RepeatedBody));
    assert_eq!(
        linkage.add_weld_joint_with_angle("w", pa, pb, f64::NAN.to_bits()),
        Err(LinkageError::NonFiniteValue { context: "weld relative angle", value: f64::NAN.to_bits() })
    );
    assert_eq!(linkage.add_weld_joint_with_angle("", pa, pb, 0.0f64.to_bits()), Err(LinkageError::EmptyLabel("joint")));
    let stale = PointFeatureId(pa2.0);
    linkage.remove_point_feature(pa2).unwrap();
    assert_eq!(linkage.add_revolute_joint("r", stale, pb), Err(LinkageError::UnknownPointFeature(stale)));
    let weld = linkage.add_weld_joint_with_angle("w", pa, pb, 0.75f64.to_bits()).unwrap();
    let revolute = linkage.add_revolute_joint("r", pa, pb).unwrap();
    assert_eq!(linkage.joint(weld).unwrap().kind(), JointKind::Weld { first: pa, second: pb, relative_angle: 0.75f64.to_bits() });
    let joints: Vec<JointId> = linkage.joints().iter().map(|(id, _)| *id).collect();
    assert_eq!(joints, vec![weld, revolute]);
    assert_eq!(linkage.joint(revolute).unwrap().ordinal(), 2);
}

#[test]
fn branch_monitors_name_held_features() {
    let mut linkage = linkage();
    let a = linkage.add_body("a", pose(0.0, 0.0, 0.0), false).unwrap();
    let b = linkage.add_body("b", pose(0.0, 0.0, 0.0), false).unwrap();
    let p = linkage.add_point_feature("p", a, point(0.0, 0.0)).unwrap();
    let q = linkage.add_point_feature("q", a, point(1.0, 0.0)).unwrap();
    let r = linkage.add_point_feature("r", b, point(0.0, 1.0)).unwrap();
    let ax = linkage.add_axis_feature("ax", a, Some(point(1.0, 0.0))).unwrap();
    let bx = linkage.add_axis_feature("bx", b, Some(point(1.0, 0.0))).unwrap();
    let missing = PointFeatureId(r.0 + (1u64 << 40));
    assert_eq!(
        linkage.add_orientation_branch_monitor(p, missing, r, BranchSign::Positive),
        Err(LinkageError::UnknownPointFeature(missing))
    );
    let orientation = linkage.add_orientation_branch_monitor(p, q, r, BranchSign::Negative).unwrap();
    assert_eq!(
        linkage.branch_monitor(orientation).copied(),
        Some(BranchMonitor::Orientation { line_start: p, line_end: q, observed: r, sign: BranchSign::Negative })
    );
    assert_eq!(
        linkage.add_directed_displacement_branch_monitor(p, r, bx, BranchSign::Positive),
        Err(LinkageError::LinearDriverFeatureBodyMismatch)
    );
    let displacement = linkage.add_directed_displacement_branch_monitor(p, r, ax, BranchSign::Positive).unwrap();
    assert_eq!(linkage.remove_point_feature(r).err(), Some(LinkageError::PointFeatureInUse(r)));
    assert_eq!(linkage.remove_axis_feature(ax).err(), Some(LinkageError::AxisFeatureInUse(ax)));
    assert_eq!(linkage.branch_monitors().len(), 2);
    assert!(linkage.remove_branch_monitor(displacement).is_ok());
    assert!(linkage.remove_axis_feature(ax).is_ok());
    assert!(linkage.remove_branch_monitor(orientation).is_ok());
    assert_eq!(linkage.remove_branch_monitor(orientation).err().map(|e| matches!(e, LinkageError::UnknownBranchMonitor(_))), Some(true));
    assert!(linkage.remove_point_feature(r).is_ok());
}

#[test]
fn a_key_with_a_cleared_version_bit_finds_the_same_object() {
    let mut linkage = linkage();
    let body = linkage.add_body("b", pose(0.0, 0.0, 0.0), false).unwrap();
    let alias = BodyId(body.0 & !(1u64 << 32));
    assert!(linkage.body(alias).is_some());
    let p = linkage.add_point_feature("p", alias, point(0.0, 0.0)).unwrap();
    assert_eq!(linkage.point_feature(p).unwrap().body(), body);
    assert_eq!(linkage.remove_body(alias).err(), Some(LinkageError::BodyInUse(body)));
}
