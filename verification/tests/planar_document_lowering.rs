use geosolve_linkage::ids::PlanarDocumentId;
use geosolve_linkage::linkage::{JointKind, Linkage, PlanarBits, PlaneFrameBits, PoseBits, SpatialBits};
use geosolve_linkage::model::{BranchSign, DriverKind, LinkageError};
use geosolve_linkage::planar::{
    PlanarField, PlanarLinkageError, PlanarLinkageRuntimeMap, PlanarRuntimeSource, PlanarSourceTopology, PlanarStructure,
};
use geosolve_linkage::planar_capture::capture_linkage;
use geosolve_linkage::planar_document_lowering::{check_accepted_numbers, lower_document, PlanarLoweringValues};
use geosolve_linkage::planar_lowering::{project_runtime_state, PlanarSourceValues};

fn frame() -> PlaneFrameBits {
    let v = |x: f64, y: f64, z: f64| SpatialBits { x: x.to_bits(), y: y.to_bits(), z: z.to_bits() };
    PlaneFrameBits { origin: v(0.0, 0.0, 0.0), u: v(1.0, 0.0, 0.0), v: v(0.0, 1.0, 0.0) }
}

fn pose(x: f64, y: f64, angle: f64) -> PoseBits {
    PoseBits { x: x.to_bits(), y: y.to_bits(), angle: angle.to_bits() }
}

fn point(x: f64, y: f64) -> PlanarBits {
    PlanarBits { x: x.to_bits(), y: y.to_bits() }
}

/// A small runtime linkage and the document structure it captures to.
fn captured() -> (Linkage, PlanarStructure, PlanarLinkageRuntimeMap) {
    let mut linkage = Linkage::new(2.0f64.to_bits(), frame(), None).unwrap();
    let base = linkage.add_body("base", pose(0.0, 0.0, 0.0), true).unwrap();
    let arm = linkage.add_body("arm", pose(1.0, 0.0, 0.25), false).unwrap();
    let pin = linkage.add_point_feature("pin", base, point(0.0, 0.0)).unwrap();
    let socket = linkage.add_point_feature("socket", arm, point(0.5, 0.0)).unwrap();
    linkage.add_axis_feature("guide", base, Some(point(1.0, 0.0))).unwrap();
    linkage.add_weld_joint_with_angle("weld", pin, socket, 0.25f64.to_bits()).unwrap();
    linkage.add_angular_driver("crank", base, arm, 0.5f64.to_bits(), 0.1f64.to_bits()).unwrap();
    linkage.add_orientation_branch_monitor(pin, socket, pin, BranchSign::Positive).unwrap();
    let (structure, map) = capture_linkage(PlanarDocumentId::from_u128(100), &linkage).unwrap();
    (linkage, structure, map)
}

/// The values of the captured document, read back from the runtime linkage.
fn values_of(linkage: &Linkage, structure: &PlanarStructure, map: &PlanarLinkageRuntimeMap) -> PlanarLoweringValues {
    let body_poses = map.bodies.iter().map(|(_, runtime)| linkage.body(*runtime).unwrap().pose()).collect();
    let mut point_locals = Vec::new();
    let mut axis_locals = Vec::new();
    for (_, feature) in &map.features {
        match feature {
            geosolve_linkage::planar::PlanarRuntimeFeature::Point(p) => {
                point_locals.push(linkage.point_feature(*p).unwrap().local_point())
            }
            geosolve_linkage::planar::PlanarRuntimeFeature::Axis(a) => {
                axis_locals.push(Some(linkage.axis_feature(*a).unwrap().local_axis()))
            }
        }
    }
    let mut source_values = Vec::new();
    let mut source_targets = Vec::new();
    for record in &structure.sources {
        let runtime = map.sources.iter().find(|(id, _)| *id == record.id).unwrap().1;
        let (values, target) = match runtime {
            PlanarRuntimeSource::Joint(j) => match linkage.joint(j).unwrap().kind() {
                JointKind::Weld { relative_angle, .. } => {
                    (PlanarSourceValues { relative_angle, max_continuation_step: 0 }, None)
                }
                _ => (PlanarSourceValues { relative_angle: 0, max_continuation_step: 0 }, None),
            },
            PlanarRuntimeSource::Driver(d) => {
                let driver = linkage.driver(d).unwrap();
                (
                    PlanarSourceValues { relative_angle: 0, max_continuation_step: driver.max_continuation_step() },
                    Some(driver.target()),
                )
            }
            _ => (PlanarSourceValues { relative_angle: 0, max_continuation_step: 0 }, None),
        };
        source_values.push(values);
        source_targets.push(target);
    }
    PlanarLoweringValues {
        model_scale: linkage.model_scale(),
        plane_frame: linkage.plane_frame(),
        frame_rejection: None,
        body_poses,
        point_locals,
        axis_locals,
        source_values,
        source_targets,
    }
}

#[test]
fn a_captured_document_lowers_to_an_equivalent_linkage() {
    let (original, structure, captured_map) = captured();
    let values = values_of(&original, &structure, &captured_map);
    let (lowered, map) = lower_document(&structure, &values).unwrap();
    let labels: Vec<String> = lowered.bodies().iter().map(|(_, b)| b.label().to_owned()).collect();
    assert_eq!(labels, vec!["base".to_owned(), "arm".to_owned()]);
    assert!(lowered.body(map.bodies[0].1).unwrap().grounded());
    assert_eq!(lowered.body(map.bodies[1].1).unwrap().pose(), pose(1.0, 0.0, 0.25));
    assert_eq!(map.bodies.len(), 2);
    assert_eq!(map.features.len(), 3);
    assert_eq!(map.sources.len(), structure.source_order.len());
    for (k, (id, _)) in map.sources.iter().enumerate() {
        assert_eq!(*id, structure.source_order[k]);
    }
    let joints = lowered.joints();
    assert_eq!(joints.len(), 1);
    let JointKind::Weld { relative_angle, .. } = joints[0].1.kind() else { panic!("expected a weld") };
    assert_eq!(relative_angle, 0.25f64.to_bits());
    assert_eq!(joints[0].1.ordinal(), 1);
    let drivers = lowered.drivers();
    assert_eq!(drivers.len(), 1);
    assert_eq!(drivers[0].1.label(), "crank");
    assert_eq!(drivers[0].1.target(), 0.5f64.to_bits());
    assert_eq!(
        drivers[0].1.kind(),
        DriverKind::Angular { reference: map.bodies[0].1, driven: map.bodies[1].1 }
    );
    assert_eq!(lowered.branch_monitors().len(), 1);
    assert_eq!(lowered.model_scale(), 2.0f64.to_bits());
}

#[test]
fn the_scale_is_checked_before_anything_else() {
    let (original, structure, map) = captured();
    let mut values = values_of(&original, &structure, &map);
    values.model_scale = 0;
    values.body_poses[0] = pose(f64::NAN, 0.0, 0.0);
    assert_eq!(
        lower_document(&structure, &values).err(),
        Some(PlanarLinkageError::Linkage(LinkageError::InvalidModelScale(0)))
    );
    values.model_scale = 1.0f64.to_bits();
    values.frame_rejection = Some("axes must be orthogonal");
    assert_eq!(
        lower_document(&structure, &values).err(),
        Some(PlanarLinkageError::Linkage(LinkageError::InvalidPlaneFrame("axes must be orthogonal")))
    );
}

#[test]
fn objects_are_rejected_in_document_order() {
    let (original, structure, map) = captured();
    let mut values = values_of(&original, &structure, &map);
    values.body_poses[1] = pose(0.0, f64::INFINITY, 0.0);
    values.point_locals[0] = point(f64::NAN, 0.0);
    assert_eq!(
        lower_document(&structure, &values).err(),
        Some(PlanarLinkageError::Linkage(LinkageError::NonFinitePose { context: "rigid body" }))
    );
    let mut values = values_of(&original, &structure, &map);
    values.point_locals[1] = point(f64::NAN, 0.0);
    values.axis_locals[0] = None;
    assert_eq!(
        lower_document(&structure, &values).err(),
        Some(PlanarLinkageError::Linkage(LinkageError::NonFinitePoint { context: "point feature" }))
    );
    let mut values = values_of(&original, &structure, &map);
    values.axis_locals[0] = None;
    assert_eq!(
        lower_document(&structure, &values).err(),
        Some(PlanarLinkageError::Linkage(LinkageError::InvalidAxis { context: "axis feature" }))
    );
    let mut blank = structure.clone();
    blank.bodies[0].label = " ".to_owned();
    assert_eq!(
        lower_document(&blank, &values_of(&original, &structure, &map)).err(),
        Some(PlanarLinkageError::Linkage(LinkageError::EmptyLabel("rigid body")))
    );
}

#[test]
fn source_rejections_follow_the_source_order() {
    let (original, structure, map) = captured();
    let driver_index = structure
        .sources
        .iter()
        .position(|r| matches!(r.definition, PlanarSourceTopology::AngularDriver { .. }))
        .unwrap();
    let mut values = values_of(&original, &structure, &map);
    values.source_targets[driver_index] = None;
    assert_eq!(lower_document(&structure, &values).err(), Some(PlanarLinkageError::IncompleteAcceptedState));
    let mut values = values_of(&original, &structure, &map);
    values.source_values[driver_index].max_continuation_step = (-1.0f64).to_bits();
    assert_eq!(
        lower_document(&structure, &values).err(),
        Some(PlanarLinkageError::Linkage(LinkageError::InvalidContinuationStep((-1.0f64).to_bits())))
    );
    let weld_index = structure
        .sources
        .iter()
        .position(|r| matches!(r.definition, PlanarSourceTopology::Weld { .. }))
        .unwrap();
    let mut one_body = structure.clone();
    let PlanarSourceTopology::Weld { first, .. } = one_body.sources[weld_index].definition else { unreachable!() };
    one_body.sources[weld_index].definition = PlanarSourceTopology::Weld { first, second: first };
    assert_eq!(
        lower_document(&one_body, &values_of(&original, &structure, &map)).err(),
        Some(PlanarLinkageError::Linkage(LinkageError::RepeatedBody))
    );
}

#[test]
fn the_accepted_state_reads_back_after_lowering() {
    let (original, structure, captured_map) = captured();
    let values = values_of(&original, &structure, &captured_map);
    let (lowered, map) = lower_document(&structure, &values).unwrap();
    let bodies: Vec<_> = structure.bodies.iter().map(|b| b.id).collect();
    let (poses, targets) = project_runtime_state(&lowered, &map, &bodies, &structure.driver_states).unwrap();
    assert_eq!(poses, values.body_poses);
    let driver_index = structure.sources.iter().position(|r| r.id == structure.driver_states[0]).unwrap();
    assert_eq!(targets, vec![values.source_targets[driver_index].unwrap()]);
}

#[test]
fn accepted_numbers_must_be_finite() {
    let finite = vec![pose(0.0, 1.0, 2.0)];
    assert_eq!(check_accepted_numbers(&finite, &vec![0.5f64.to_bits()]), Ok(()));
    assert_eq!(
        check_accepted_numbers(&vec![pose(0.0, f64::INFINITY, 0.0)], &vec![f64::NAN.to_bits()]),
        Err(PlanarLinkageError::InvalidField(PlanarField::BodyStatePose))
    );
    assert_eq!(
        check_accepted_numbers(&finite, &vec![0.0f64.to_bits(), f64::NAN.to_bits()]),
        Err(PlanarLinkageError::InvalidField(PlanarField::DriverStateTarget))
    );
}
