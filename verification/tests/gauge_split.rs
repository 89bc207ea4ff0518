use geosolve_linkage::gauge::{split_gauge_mobility, CoreComponentSummary, GaugeSplitError};

fn summary(index: usize, domains: Option<Vec<usize>>, right_nullity: Option<usize>) -> CoreComponentSummary {
    CoreComponentSummary { component_index: index, domains, right_nullity }
}

#[test]
fn mobility_splits_into_gauge_and_internal_motion() {
    let floating = vec![true, false];
    let summaries = vec![
        summary(0, Some(vec![0, 0]), Some(3)),
        summary(1, Some(vec![1]), Some(1)),
        summary(2, Some(vec![0]), Some(1)),
    ];
    let split = split_gauge_mobility(&floating, &summaries, 5, 3).unwrap();
    assert_eq!(split.components[0].core_component_indices, vec![0, 2]);
    assert_eq!(split.components[0].right_nullity, 4);
    assert_eq!(split.components[0].gauge_dof, 3);
    assert_eq!(split.components[0].internal_mobility, 1);
    assert_eq!(split.components[1].gauge_dof, 0);
    assert_eq!(split.components[1].internal_mobility, 1);
    assert_eq!((split.right_nullity, split.gauge_dof, split.internal_mobility), (5, 3, 2));
}

#[test]
fn split_rejections() {
    let floating = vec![true, false];
    assert_eq!(
        split_gauge_mobility(&floating, &vec![summary(4, Some(vec![0, 1]), Some(3))], 3, 3),
        Err(GaugeSplitError::NotOneComponent(4))
    );
    assert_eq!(
        split_gauge_mobility(&floating, &vec![summary(4, Some(vec![0]), Some(3)), summary(5, None, Some(1))], 4, 3),
        Err(GaugeSplitError::Unmapped(1))
    );
    assert_eq!(split_gauge_mobility(&floating, &vec![summary(4, Some(vec![0]), None)], 3, 3), Err(GaugeSplitError::NoNumericalReport(4)));
    assert_eq!(
        split_gauge_mobility(&floating, &vec![summary(4, Some(vec![0]), Some(2))], 2, 3),
        Err(GaugeSplitError::BelowGaugeDof { component: 0, right_nullity: 2, gauge_dof: 3 })
    );
    assert_eq!(
        split_gauge_mobility(&floating, &vec![summary(4, Some(vec![0]), Some(6))], 7, 6),
        Err(GaugeSplitError::TotalMismatch { mapped: 6, core: 7 })
    );
    assert_eq!(
        split_gauge_mobility(&floating, &vec![summary(4, Some(vec![0]), Some(usize::MAX)), summary(5, Some(vec![0]), Some(1))], 0, 3),
        Err(GaugeSplitError::RightNullityOverflow)
    );
    assert_eq!(
        split_gauge_mobility(&floating, &vec![summary(4, Some(vec![0]), Some(usize::MAX)), summary(5, Some(vec![1]), Some(1))], 0, 3),
        Err(GaugeSplitError::TotalOverflow)
    );
}
