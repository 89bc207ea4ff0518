use geosolve_linkage::components::group_by_root;
use geosolve_linkage::connectivity::link_roots;
use geosolve_linkage::union_find::{find_root, union_roots};

#[test]
fn union_keeps_the_lower_root_and_find_compresses_paths() {
    let mut parents = vec![0, 1, 2, 3];
    union_roots(&mut parents, 3, 2);
    union_roots(&mut parents, 2, 1);
    assert_eq!(parents, vec![0, 1, 1, 2]);
    assert_eq!(find_root(&mut parents, 3), 1);
    assert_eq!(parents, vec![0, 1, 1, 1]);
}

#[test]
fn link_roots_label_each_class_with_its_lowest_index() {
    let links = vec![vec![4, 2], vec![1], vec![2, 0], vec![3, 5, 3]];
    assert_eq!(link_roots(6, &links), vec![0, 1, 0, 3, 0, 3]);
}

#[test]
fn groups_are_ascending_and_ordered_by_least_member() {
    let ids = vec![50, 10, 40, 30, 20];
    let roots = vec![0, 1, 0, 1, 4];
    assert_eq!(group_by_root(&ids, &roots), vec![vec![10, 30], vec![20], vec![40, 50]]);
}
