//! Connected classes of body indices under source incidence: two bodies are
//! linked when one source touches both, and connected when a chain of such
//! links joins them.

use vstd::prelude::*;
use crate::union_find::{find_root, union_roots, is_forest, root_of, merged_root, is_root};

verus! {

/// The incidence lists of all sources, as plain sequences.
pub open spec fn link_view(links: Seq<Vec<usize>>) -> Seq<Seq<usize>> {
    links.map_values(|incident: Vec<usize>| incident@)
}

/// Some single source touches both `a` and `b`.
pub open spec fn shares_link(links: Seq<Seq<usize>>, a: int, b: int) -> bool {
    exists|s: int, k: int, l: int|
        0 <= s < links.len() && 0 <= k < links[s].len() && 0 <= l < links[s].len()
            && links[s][k] == a && links[s][l] == b
}

/// `path` is a chain of bodies below `count` in which neighbours share a source.
pub open spec fn is_link_path(links: Seq<Seq<usize>>, count: nat, path: Seq<int>) -> bool {
    &&& path.len() >= 1
    &&& forall|k: int| 0 <= k < path.len() ==> 0 <= #[trigger] path[k] < count
    &&& forall|k: int|
        0 <= k < path.len() - 1 ==> #[trigger] shares_link(links, path[k], path[k + 1])
}

/// `a` and `b` are joined by a chain of source links.
pub open spec fn connected(links: Seq<Seq<usize>>, count: nat, a: int, b: int) -> bool {
    exists|path: Seq<int>|
        #[trigger] is_link_path(links, count, path) && path[0] == a && path[path.len() - 1] == b
}

/// Every incident index of every source is below `count`.
pub open spec fn links_in_range(links: Seq<Seq<usize>>, count: nat) -> bool {
    forall|s: int, k: int|
        0 <= s < links.len() && 0 <= k < links[s].len() ==> #[trigger] links[s][k] < count
}

pub proof fn lemma_connected_refl(links: Seq<Seq<usize>>, count: nat, a: int)
    requires
        0 <= a < count,
    ensures
        connected(links, count, a, a),
{
    let path = seq![a];
    assert(is_link_path(links, count, path));
}

pub proof fn lemma_connected_link(links: Seq<Seq<usize>>, count: nat, a: int, b: int)
    requires
        0 <= a < count,
        0 <= b < count,
        shares_link(links, a, b),
    ensures
        connected(links, count, a, b),
{
    let path = seq![a, b];
    assert(shares_link(links, path[0], path[1]));
    assert(is_link_path(links, count, path));
}

pub proof fn lemma_connected_symm(links: Seq<Seq<usize>>, count: nat, a: int, b: int)
    requires
        connected(links, count, a, b),
    ensures
        connected(links, count, b, a),
{
    let path = choose|path: Seq<int>|
        #[trigger] is_link_path(links, count, path) && path[0] == a && path[path.len() - 1] == b;
    let rev = path.reverse();
    assert forall|k: int| 0 <= k < rev.len() - 1 implies #[trigger] shares_link(
        links,
        rev[k],
        rev[k + 1],
    ) by {
        let m = path.len() - 2 - k;
        assert(shares_link(links, path[m], path[m + 1]));
        let (s, i, j) = choose|s: int, i: int, j: int|
            0 <= s < links.len() && 0 <= i < links[s].len() && 0 <= j < links[s].len()
                && links[s][i] == path[m] && links[s][j] == path[m + 1];
        assert(rev[k] == path[m + 1]);
        assert(rev[k + 1] == path[m]);
    }
    assert forall|k: int| 0 <= k < rev.len() implies 0 <= #[trigger] rev[k] < count by {
        assert(rev[k] == path[path.len() - 1 - k]);
    }
    assert(is_link_path(links, count, rev));
}

pub proof fn lemma_connected_trans(links: Seq<Seq<usize>>, count: nat, a: int, b: int, c: int)
    requires
        connected(links, count, a, b),
        connected(links, count, b, c),
    ensures
        connected(links, count, a, c),
{
    let p = choose|path: Seq<int>|
        #[trigger] is_link_path(links, count, path) && path[0] == a && path[path.len() - 1] == b;
    let q = choose|path: Seq<int>|
        #[trigger] is_link_path(links, count, path) && path[0] == b && path[path.len() - 1] == c;
    let joined = p + q.drop_first();
    assert forall|k: int| 0 <= k < joined.len() implies 0 <= #[trigger] joined[k] < count by {
        if k >= p.len() {
            assert(joined[k] == q[k - p.len() + 1]);
        }
    }
    assert forall|k: int| 0 <= k < joined.len() - 1 implies #[trigger] shares_link(
        links,
        joined[k],
        joined[k + 1],
    ) by {
        if k < p.len() - 1 {
            assert(shares_link(links, p[k], p[k + 1]));
        } else {
            let m = k - p.len() + 1;
            assert(joined[k] == q[m]);
            assert(joined[k + 1] == q[m + 1]);
            assert(shares_link(links, q[m], q[m + 1]));
        }
    }
    assert(is_link_path(links, count, joined));
    assert(joined[joined.len() - 1] == c);
}

/// Along any link path, every node has the root of the first node, provided every
/// source's incident bodies share one root.
proof fn lemma_path_same_root(
    links: Seq<Seq<usize>>,
    count: nat,
    roots: Seq<usize>,
    path: Seq<int>,
    k: int,
)
    requires
        is_link_path(links, count, path),
        roots.len() == count,
        forall|s: int, i: int, j: int|
            0 <= s < links.len() && 0 <= i < links[s].len() && 0 <= j < links[s].len()
                ==> roots[#[trigger] links[s][i] as int] == roots[#[trigger] links[s][j] as int],
        0 <= k < path.len(),
    ensures
        roots[path[k]] == roots[path[0]],
    decreases k,
{
    if k > 0 {
        lemma_path_same_root(links, count, roots, path, k - 1);
        let m = k - 1;
        assert(shares_link(links, path[m], path[m + 1]));
        let (s, i, j) = choose|s: int, i: int, j: int|
            0 <= s < links.len() && 0 <= i < links[s].len() && 0 <= j < links[s].len()
                && links[s][i] == path[m] && links[s][j] == path[m + 1];
        assert(roots[links[s][i] as int] == roots[links[s][j] as int]);
    }
}

/// For each body index, the lowest index of its connected class: two bodies get the
/// same entry exactly when a chain of sources joins them.
pub fn link_roots(count: usize, links: &Vec<Vec<usize>>) -> (roots: Vec<usize>)
    requires
        links_in_range(link_view(links@), count as nat),
    ensures
        roots@.len() == count,
        forall|i: int| 0 <= i < count ==> #[trigger] roots@[i] <= i,
        forall|i: int, j: int|
            0 <= i < count && 0 <= j < count ==> (roots@[i] == roots@[j] <==> connected(
                link_view(links@),
                count as nat,
                i,
                j,
            )),
{
    let ghost lv = link_view(links@);
    let mut parents: Vec<usize> = Vec::new();
    let mut i: usize = 0;
    while i < count
        invariant
            i <= count,
            parents@.len() == i,
            forall|j: int| 0 <= j < i ==> #[trigger] parents@[j] == j,
        decreases count - i,
    {
        parents.push(i);
        i = i + 1;
    }
    proof {
        assert forall|j: int| 0 <= j < count implies root_of(parents@, j) == j by {}
        assert forall|j: int| 0 <= j < count implies connected(lv, count as nat, j, root_of(parents@, j)) by {
            lemma_connected_refl(lv, count as nat, j);
        }
    }
    let mut s: usize = 0;
    while s < links.len()
        invariant
            lv == link_view(links@),
            links_in_range(lv, count as nat),
            s <= links@.len(),
            parents@.len() == count,
            is_forest(parents@),
            forall|j: int| 0 <= j < count ==> connected(lv, count as nat, j, #[trigger] root_of(parents@, j)),
            forall|t: int, a: int, b: int|
                0 <= t < s && 0 <= a < lv[t].len() && 0 <= b < lv[t].len() ==> root_of(
                    parents@,
                    #[trigger] lv[t][a] as int,
                ) == root_of(parents@, #[trigger] lv[t][b] as int),
        decreases links@.len() - s,
    {
        let incident = &links[s];
        if incident.len() > 0 {
            let first = incident[0];
            let mut k: usize = 1;
            while k < incident.len()
                invariant
                    lv == link_view(links@),
                    links_in_range(lv, count as nat),
                    s < links@.len(),
                    incident@ == lv[s as int],
                    incident@.len() > 0,
                    first == incident@[0],
                    1 <= k <= incident@.len(),
                    parents@.len() == count,
                    is_forest(parents@),
                    forall|j: int| 0 <= j < count ==> connected(lv, count as nat, j, #[trigger] root_of(parents@, j)),
                    forall|t: int, a: int, b: int|
                        0 <= t < s && 0 <= a < lv[t].len() && 0 <= b < lv[t].len() ==> root_of(
                            parents@,
                            #[trigger] lv[t][a] as int,
                        ) == root_of(parents@, #[trigger] lv[t][b] as int),
                    forall|a: int| 0 <= a < k ==> root_of(parents@, #[trigger] incident@[a] as int) == root_of(parents@, first as int),
                decreases incident@.len() - k,
            {
                let next = incident[k];
                let ghost old_parents = parents@;
                proof {
                    assert(lv[s as int][0] < count);
                    assert(lv[s as int][k as int] < count);
                }
                union_roots(&mut parents, first, next);
                proof {
                    let fr = root_of(old_parents, first as int);
                    let nr = root_of(old_parents, next as int);
                    assert(connected(lv, count as nat, fr, nr)) by {
                        assert(connected(lv, count as nat, first as int, fr));
                        assert(connected(lv, count as nat, next as int, nr));
                        assert(shares_link(lv, first as int, next as int)) by {
                            assert(lv[s as int][0] == first && lv[s as int][k as int] == next);
                        }
                        lemma_connected_link(lv, count as nat, first as int, next as int);
                        lemma_connected_symm(lv, count as nat, first as int, fr);
                        lemma_connected_trans(lv, count as nat, fr, first as int, next as int);
                        lemma_connected_trans(lv, count as nat, fr, next as int, nr);
                    }
                    assert forall|j: int| 0 <= j < count implies connected(lv, count as nat, j, #[trigger] root_of(parents@, j)) by {
                        assert(root_of(parents@, j) == merged_root(old_parents, first as int, next as int, j));
                        let r = root_of(old_parents, j);
                        assert(connected(lv, count as nat, j, r));
                        if r == fr && nr < fr {
                            lemma_connected_symm(lv, count as nat, fr, nr);
                            lemma_connected_trans(lv, count as nat, j, fr, nr);
                        } else if r == nr && fr < nr {
                            lemma_connected_symm(lv, count as nat, fr, nr);
                            lemma_connected_trans(lv, count as nat, j, nr, fr);
                        }
                    }
                    assert forall|t: int, a: int, b: int|
                        0 <= t < s && 0 <= a < lv[t].len() && 0 <= b < lv[t].len() implies root_of(
                            parents@,
                            #[trigger] lv[t][a] as int,
                        ) == root_of(parents@, #[trigger] lv[t][b] as int) by {
                        assert(lv[t][a] < count && lv[t][b] < count);
                        assert(root_of(parents@, lv[t][a] as int) == merged_root(old_parents, first as int, next as int, lv[t][a] as int));
                        assert(root_of(parents@, lv[t][b] as int) == merged_root(old_parents, first as int, next as int, lv[t][b] as int));
                    }
                    assert forall|a: int| 0 <= a < k + 1 implies root_of(parents@, #[trigger] incident@[a] as int) == root_of(parents@, first as int) by {
                        assert(incident@[a] < count) by { assert(lv[s as int][a] < count); }
                        assert(root_of(parents@, incident@[a] as int) == merged_root(old_parents, first as int, next as int, incident@[a] as int));
                        assert(root_of(parents@, first as int) == merged_root(old_parents, first as int, next as int, first as int));
                        assert(root_of(parents@, next as int) == merged_root(old_parents, first as int, next as int, next as int));
                    }
                }
                k = k + 1;
            }
            proof {
                assert forall|a: int, b: int|
                    0 <= a < lv[s as int].len() && 0 <= b < lv[s as int].len() implies root_of(
                        parents@,
                        #[trigger] lv[s as int][a] as int,
                    ) == root_of(parents@, #[trigger] lv[s as int][b] as int) by {
                    assert(root_of(parents@, incident@[a] as int) == root_of(parents@, first as int));
                    assert(root_of(parents@, incident@[b] as int) == root_of(parents@, first as int));
                }
            }
        }
        s = s + 1;
    }
    let ghost settled = parents@;
    let mut roots: Vec<usize> = Vec::new();
    let mut i: usize = 0;
    while i < count
        invariant
            i <= count,
            parents@.len() == count,
            settled.len() == count,
            is_forest(parents@),
            is_forest(settled),
            forall|j: int| 0 <= j < count ==> root_of(parents@, j) == #[trigger] root_of(settled, j),
            roots@.len() == i,
            forall|j: int| 0 <= j < i ==> #[trigger] roots@[j] as int == root_of(settled, j),
        decreases count - i,
    {
        let r = find_root(&mut parents, i);
        roots.push(r);
        i = i + 1;
    }
    proof {
        assert forall|j: int| 0 <= j < count implies #[trigger] roots@[j] <= j by {
            lemma_root_bound(settled, j);
        }
        assert forall|i: int, j: int|
            0 <= i < count && 0 <= j < count implies (roots@[i] == roots@[j] <==> connected(
                lv,
                count as nat,
                i,
                j,
            )) by {
            if roots@[i] == roots@[j] {
                let r = root_of(settled, i);
                lemma_connected_symm(lv, count as nat, j, r);
                lemma_connected_trans(lv, count as nat, i, r, j);
            }
            if connected(lv, count as nat, i, j) {
                let path = choose|path: Seq<int>|
                    #[trigger] is_link_path(lv, count as nat, path) && path[0] == i && path[path.len() - 1] == j;
                assert forall|t: int, a: int, b: int|
                    0 <= t < lv.len() && 0 <= a < lv[t].len() && 0 <= b < lv[t].len()
                        implies roots@[#[trigger] lv[t][a] as int] == roots@[#[trigger] lv[t][b] as int] by {
                    assert(lv[t][a] < count && lv[t][b] < count);
                }
                lemma_path_same_root(lv, count as nat, roots@, path, path.len() - 1);
            }
        }
    }
    roots
}

proof fn lemma_root_bound(parents: Seq<usize>, j: int)
    requires
        is_forest(parents),
        0 <= j < parents.len(),
    ensures
        root_of(parents, j) <= j,
        is_root(parents, root_of(parents, j)),
    decreases j,
{
    if parents[j] < j {
        lemma_root_bound(parents, parents[j] as int);
    }
}

} // verus!
