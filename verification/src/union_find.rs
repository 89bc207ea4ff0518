//! Disjoint-set forest over body indices with path compression. Every node's
//! parent index is at most its own index, so the root of a class is always its
//! lowest index.

use vstd::prelude::*;

verus! {

/// Every parent link points to the same or a lower index inside the forest.
pub open spec fn is_forest(parents: Seq<usize>) -> bool {
    forall|i: int| 0 <= i < parents.len() ==> #[trigger] parents[i] <= i
}

/// The root reached from `index` by following parent links.
pub open spec fn root_of(parents: Seq<usize>, index: int) -> int
    decreases index,
{
    if 0 <= index < parents.len() && parents[index] < index {
        root_of(parents, parents[index] as int)
    } else {
        index
    }
}

/// Whether `index` is a root of the forest.
pub open spec fn is_root(parents: Seq<usize>, index: int) -> bool {
    0 <= index < parents.len() && parents[index] == index
}

proof fn lemma_root_of_properties(parents: Seq<usize>, index: int)
    requires
        is_forest(parents),
        0 <= index < parents.len(),
    ensures
        0 <= root_of(parents, index) <= index,
        is_root(parents, root_of(parents, index)),
        root_of(parents, root_of(parents, index)) == root_of(parents, index),
    decreases index,
{
    if parents[index] < index {
        lemma_root_of_properties(parents, parents[index] as int);
    }
}

/// Redirecting one node to a node of the same class keeps every root.
proof fn lemma_redirect_keeps_roots(parents: Seq<usize>, node: int, target: usize)
    requires
        is_forest(parents),
        0 <= node < parents.len(),
        target < node,
        root_of(parents, target as int) == root_of(parents, node),
    ensures
        is_forest(parents.update(node, target)),
        forall|j: int|
            0 <= j < parents.len() ==> root_of(parents.update(node, target), j) == root_of(
                parents,
                j,
            ),
{
    let updated = parents.update(node, target);
    assert forall|j: int| 0 <= j < parents.len() implies root_of(updated, j) == root_of(
        parents,
        j,
    ) by {
        lemma_redirect_keeps_root_at(parents, node, target, j);
    }
}

proof fn lemma_redirect_keeps_root_at(parents: Seq<usize>, node: int, target: usize, j: int)
    requires
        is_forest(parents),
        0 <= node < parents.len(),
        target < node,
        root_of(parents, target as int) == root_of(parents, node),
        0 <= j < parents.len(),
    ensures
        root_of(parents.update(node, target), j) == root_of(parents, j),
    decreases j,
{
    let updated = parents.update(node, target);
    if j == node {
        lemma_redirect_keeps_root_at(parents, node, target, target as int);
        lemma_root_of_properties(parents, target as int);
    } else if parents[j] < j {
        lemma_redirect_keeps_root_at(parents, node, target, parents[j] as int);
    }
}

/// Finds the root of `index`, compressing the path it walks.
pub fn find_root(parents: &mut Vec<usize>, index: usize) -> (root: usize)
    requires
        is_forest(old(parents)@),
        index < old(parents)@.len(),
    ensures
        final(parents)@.len() == old(parents)@.len(),
        is_forest(final(parents)@),
        root as int == root_of(old(parents)@, index as int),
        forall|j: int|
            0 <= j < old(parents)@.len() ==> root_of(final(parents)@, j) == root_of(
                old(parents)@,
                j,
            ),
    decreases index,
{
    proof {
        lemma_root_of_properties(parents@, index as int);
    }
    let parent = parents[index];
    if parent != index {
        let ghost before = parents@;
        let root = find_root(parents, parent);
        proof {
            lemma_root_of_properties(parents@, index as int);
            assert(root_of(parents@, index as int) == root_of(before, index as int));
            assert(root_of(parents@, root as int) == root_of(parents@, index as int)) by {
                lemma_root_of_properties(before, index as int);
                lemma_root_of_properties(parents@, root as int);
            }
            lemma_redirect_keeps_roots(parents@, index as int, root);
        }
        parents.set(index, root);
    }
    parents[index]
}

/// Merges the classes of `first` and `second`; the lower root becomes the root of both.
pub fn union_roots(parents: &mut Vec<usize>, first: usize, second: usize)
    requires
        is_forest(old(parents)@),
        first < old(parents)@.len(),
        second < old(parents)@.len(),
    ensures
        final(parents)@.len() == old(parents)@.len(),
        is_forest(final(parents)@),
        forall|j: int|
            0 <= j < old(parents)@.len() ==> root_of(final(parents)@, j) == merged_root(
                old(parents)@,
                first as int,
                second as int,
                j,
            ),
{
    let ghost start = parents@;
    let first_root = find_root(parents, first);
    let second_root = find_root(parents, second);
    if first_root != second_root {
        let (lower, higher) = if first_root < second_root {
            (first_root, second_root)
        } else {
            (second_root, first_root)
        };
        let ghost middle = parents@;
        proof {
            lemma_root_of_properties(middle, first as int);
            lemma_root_of_properties(middle, second as int);
            assert forall|j: int| 0 <= j < middle.len() implies root_of(
                middle.update(higher as int, lower),
                j,
            ) == (if root_of(middle, j) == higher { lower as int } else { root_of(middle, j) })
                by {
                lemma_link_root_at(middle, higher as int, lower, j);
            }
        }
        parents.set(higher, lower);
    }
}

/// Root of `j` after merging the classes of `first` and `second`.
pub open spec fn merged_root(parents: Seq<usize>, first: int, second: int, j: int) -> int {
    let a = root_of(parents, first);
    let b = root_of(parents, second);
    let lower = if a < b { a } else { b };
    let higher = if a < b { b } else { a };
    if root_of(parents, j) == higher { lower } else { root_of(parents, j) }
}

proof fn lemma_link_root_at(parents: Seq<usize>, higher: int, lower: usize, j: int)
    requires
        is_forest(parents),
        is_root(parents, higher),
        is_root(parents, lower as int),
        lower < higher,
        0 <= j < parents.len(),
    ensures
        is_forest(parents.update(higher, lower)),
        root_of(parents.update(higher, lower), j) == (if root_of(parents, j) == higher {
            lower as int
        } else {
            root_of(parents, j)
        }),
    decreases j,
{
    let updated = parents.update(higher, lower);
    if j == higher {
        assert(root_of(updated, lower as int) == lower as int);
    } else if parents[j] < j {
        lemma_link_root_at(parents, higher, lower, parents[j] as int);
    }
}

} // verus!
