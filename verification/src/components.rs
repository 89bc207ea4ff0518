//! Grouping of identified bodies into ordered classes, and attribution of
//! ordered sources to the class that holds their least incident body.

use vstd::prelude::*;

verus! {

/// No identity occurs twice.
pub open spec fn distinct_ids(ids: Seq<u128>) -> bool {
    forall|i: int, j: int|
        0 <= i < ids.len() && 0 <= j < ids.len() && i != j ==> ids[i] != ids[j]
}

/// Every identity is smaller than every later one.
pub open spec fn strictly_increasing(s: Seq<u128>) -> bool {
    forall|i: int, j: int| 0 <= i < j < s.len() ==> s[i] < s[j]
}

/// Some group has `x` as a member.
pub open spec fn in_some_group(groups: Seq<Seq<u128>>, x: u128) -> bool {
    exists|c: int, m: int| 0 <= c < groups.len() && 0 <= m < groups[c].len() && groups[c][m] == x
}

/// The classes partition `ids` by equal root: each class is nonempty and
/// ascending, classes are ordered by their least member, every member is one of
/// `ids`, every one of `ids` is a member, and two members share a class exactly
/// when their roots agree.
pub open spec fn is_root_grouping(ids: Seq<u128>, roots: Seq<usize>, groups: Seq<Seq<u128>>) -> bool {
    &&& forall|c: int|
        0 <= c < groups.len() ==> #[trigger] groups[c].len() > 0 && strictly_increasing(groups[c])
    &&& forall|c: int, d: int| 0 <= c < d < groups.len() ==> #[trigger] groups[c][0] < #[trigger] groups[d][0]
    &&& forall|c: int, m: int|
        0 <= c < groups.len() && 0 <= m < groups[c].len() ==> ids.contains(#[trigger] groups[c][m])
    &&& forall|i: int| 0 <= i < ids.len() ==> in_some_group(groups, #[trigger] ids[i])
    &&& forall|c: int, m: int, d: int, l: int, i: int, j: int|
        0 <= c < groups.len() && 0 <= m < groups[c].len() && 0 <= d < groups.len() && 0 <= l
            < groups[d].len() && 0 <= i < ids.len() && 0 <= j < ids.len() && #[trigger] groups[c][m]
            == #[trigger] ids[i] && #[trigger] groups[d][l] == #[trigger] ids[j] ==> (c == d
            <==> roots[i] == roots[j])
}

/// Positions of `ids` in ascending order of identity, with the inverse positions.
fn ascending_order(ids: &Vec<u128>) -> (result: (Vec<usize>, Ghost<Seq<int>>))
    requires
        distinct_ids(ids@),
    ensures
        result.0@.len() == ids@.len(),
        result.1@.len() == ids@.len(),
        forall|k: int| 0 <= k < ids@.len() ==> #[trigger] result.0@[k] < ids@.len(),
        forall|k: int, l: int|
            0 <= k < l < ids@.len() ==> ids@[#[trigger] result.0@[k] as int] < ids@[#[trigger] result.0@[l] as int],
        forall|j: int|
            0 <= j < ids@.len() ==> 0 <= #[trigger] result.1@[j] < ids@.len() && result.0@[result.1@[j]] == j,
{
    let n = ids.len();
    let mut order: Vec<usize> = Vec::new();
    let ghost mut inv: Seq<int> = Seq::empty();
    let mut i: usize = 0;
    while i < n
        invariant
            n == ids@.len(),
            distinct_ids(ids@),
            i <= n,
            order@.len() == i,
            inv.len() == i,
            forall|k: int| 0 <= k < i ==> #[trigger] order@[k] < i,
            forall|k: int, l: int|
                0 <= k < l < i ==> ids@[#[trigger] order@[k] as int] < ids@[#[trigger] order@[l] as int],
            forall|j: int| 0 <= j < i ==> 0 <= #[trigger] inv[j] < i && order@[inv[j]] == j,
        decreases n - i,
    {
        let x = ids[i];
        let mut p: usize = 0;
        while p < order.len() && ids[order[p]] < x
            invariant
                n == ids@.len(),
                i < n,
                order@.len() == i,
                p <= order@.len(),
                forall|k: int| 0 <= k < i ==> #[trigger] order@[k] < i,
                forall|k: int| 0 <= k < p ==> ids@[#[trigger] order@[k] as int] < x,
            decreases order@.len() - p,
        {
            p = p + 1;
        }
        let ghost old_order = order@;
        proof {
            assert forall|k: int| p <= k < i implies x < ids@[#[trigger] old_order[k] as int] by {
                if k > p {
                    assert(ids@[old_order[p as int] as int] < ids@[old_order[k] as int]);
                }
                assert(ids@[old_order[p as int] as int] >= x);
                assert(old_order[p as int] != i);
                assert(ids@[old_order[p as int] as int] != x);
            }
        }
        order.insert(p, i);
        proof {
            let new_inv = Seq::new(
                (i + 1) as nat,
                |j: int|
                    if j == i {
                        p as int
                    } else if inv[j] >= p {
                        inv[j] + 1
                    } else {
                        inv[j]
                    },
            );
            assert forall|k: int, l: int|
                0 <= k < l < i + 1 implies ids@[#[trigger] order@[k] as int] < ids@[#[trigger] order@[l] as int] by {
                if k < p && l < p {
                    assert(order@[k] == old_order[k] && order@[l] == old_order[l]);
                } else if k < p && l == p {
                    assert(order@[k] == old_order[k]);
                } else if k < p {
                    assert(order@[k] == old_order[k] && order@[l] == old_order[l - 1]);
                    assert(ids@[old_order[k] as int] < x);
                } else if k == p {
                    assert(order@[l] == old_order[l - 1]);
                } else {
                    assert(order@[k] == old_order[k - 1] && order@[l] == old_order[l - 1]);
                }
            }
            assert forall|j: int| 0 <= j < i + 1 implies 0 <= #[trigger] new_inv[j] < i + 1
                && order@[new_inv[j]] == j by {
                if j < i {
                    if inv[j] >= p {
                        assert(order@[inv[j] + 1] == old_order[inv[j]]);
                    } else {
                        assert(order@[inv[j]] == old_order[inv[j]]);
                    }
                }
            }
            inv = new_inv;
        }
        i = i + 1;
    }
    (order, Ghost(inv))
}

/// Whether `x` is a member of `group`.
pub fn contains_id(group: &Vec<u128>, x: u128) -> (found: bool)
    ensures
        found == group@.contains(x),
{
    let mut k: usize = 0;
    while k < group.len()
        invariant
            k <= group@.len(),
            forall|m: int| 0 <= m < k ==> group@[m] != x,
        decreases group@.len() - k,
    {
        if group[k] == x {
            assert(group@[k as int] == x);
            return true;
        }
        k = k + 1;
    }
    false
}

/// The plain contents of a list of groups.
pub open spec fn groups_view(groups: Seq<Vec<u128>>) -> Seq<Seq<u128>> {
    groups.map_values(|g: Vec<u128>| g@)
}

/// Nonempty ascending groups ordered by least member, with pairwise distinct roots.
spec fn well_shaped(gv: Seq<Seq<u128>>, group_roots: Seq<usize>) -> bool {
    &&& gv.len() == group_roots.len()
    &&& forall|c: int| 0 <= c < gv.len() ==> #[trigger] gv[c].len() > 0 && strictly_increasing(gv[c])
    &&& forall|c: int, d: int| 0 <= c < d < gv.len() ==> #[trigger] gv[c][0] < #[trigger] gv[d][0]
    &&& forall|c: int, d: int|
        0 <= c < gv.len() && 0 <= d < gv.len() && c != d ==> #[trigger] group_roots[c]
            != #[trigger] group_roots[d]
}

/// Every member of every group is below `x`.
spec fn all_below(gv: Seq<Seq<u128>>, x: u128) -> bool {
    forall|c: int, m: int| 0 <= c < gv.len() && 0 <= m < gv[c].len() ==> #[trigger] gv[c][m] < x
}

/// Appends `x` to the group of root `r`, opening a new last group when there is none.
fn place_in_group(groups: &mut Vec<Vec<u128>>, group_roots: &mut Vec<usize>, x: u128, r: usize) -> (c: usize)
    requires
        well_shaped(groups_view(old(groups)@), old(group_roots)@),
        all_below(groups_view(old(groups)@), x),
    ensures
        well_shaped(groups_view(final(groups)@), final(group_roots)@),
        c < final(groups)@.len(),
        final(group_roots)@[c as int] == r,
        c < old(groups)@.len() ==> old(group_roots)@[c as int] == r && final(groups)@.len() == old(groups)@.len()
            && final(group_roots)@ == old(group_roots)@ && final(groups)@[c as int]@ == old(groups)@[c as int]@.push(x),
        c == old(groups)@.len() ==> (forall|e: int| 0 <= e < old(group_roots)@.len() ==> old(group_roots)@[e] != r)
            && final(groups)@.len() == old(groups)@.len() + 1 && final(group_roots)@ == old(group_roots)@.push(r)
            && final(groups)@[c as int]@ == seq![x],
        c <= old(groups)@.len(),
        forall|e: int| 0 <= e < old(groups)@.len() && e != c ==> #[trigger] final(groups)@[e]@ == old(groups)@[e]@,
{
    let ghost before = groups_view(groups@);
    let mut c: usize = 0;
    while c < group_roots.len() && group_roots[c] != r
        invariant
            c <= group_roots@.len(),
            forall|e: int| 0 <= e < c ==> group_roots@[e] != r,
        decreases group_roots@.len() - c,
    {
        c = c + 1;
    }
    if c < group_roots.len() {
        groups[c].push(x);
        proof {
            let after = groups_view(groups@);
            assert forall|e: int| 0 <= e < after.len() implies #[trigger] after[e].len() > 0 && strictly_increasing(after[e]) by {
                if e == c {
                    assert forall|a: int, b: int| 0 <= a < b < after[e].len() implies after[e][a] < after[e][b] by {
                        assert(after[e][a] == before[e][a]);
                        if b < before[e].len() {
                            assert(after[e][b] == before[e][b]);
                        }
                    }
                } else {
                    assert(after[e] == before[e]);
                }
            }
            assert forall|e: int, d: int| 0 <= e < d < after.len() implies #[trigger] after[e][0] < #[trigger] after[d][0] by {
                assert(after[e][0] == before[e][0]);
                assert(after[d][0] == before[d][0]);
            }
        }
    } else {
        let mut fresh: Vec<u128> = Vec::new();
        fresh.push(x);
        groups.push(fresh);
        group_roots.push(r);
        proof {
            let after = groups_view(groups@);
            assert forall|e: int| 0 <= e < after.len() implies #[trigger] after[e].len() > 0 && strictly_increasing(after[e]) by {
                if e < before.len() {
                    assert(after[e] == before[e]);
                }
            }
            assert forall|e: int, d: int| 0 <= e < d < after.len() implies #[trigger] after[e][0] < #[trigger] after[d][0] by {
                assert(after[e][0] == before[e][0]);
                if d < before.len() {
                    assert(after[d][0] == before[d][0]);
                }
            }
        }
    }
    c
}

/// Where each processed index sits, and where each group member comes from.
spec fn tracked_members(
    ids: Seq<u128>,
    roots: Seq<usize>,
    processed: Set<int>,
    gv: Seq<Seq<u128>>,
    group_roots: Seq<usize>,
    origin: Seq<Seq<int>>,
    assign: Seq<int>,
    slot: Seq<int>,
) -> bool {
    &&& origin.len() == gv.len()
    &&& assign.len() == ids.len()
    &&& slot.len() == ids.len()
    &&& forall|c: int| 0 <= c < gv.len() ==> #[trigger] origin[c].len() == gv[c].len()
    &&& forall|c: int, m: int|
        0 <= c < gv.len() && 0 <= m < gv[c].len() ==> {
            let j = #[trigger] origin[c][m];
            &&& 0 <= j < ids.len()
            &&& processed.contains(j)
            &&& ids[j] == gv[c][m]
            &&& roots[j] == group_roots[c]
        }
    &&& forall|j: int|
        0 <= j < ids.len() && #[trigger] processed.contains(j) ==> {
            let c = assign[j];
            &&& 0 <= c < gv.len()
            &&& 0 <= slot[j] < gv[c].len()
            &&& gv[c][slot[j]] == ids[j]
            &&& group_roots[c] == roots[j]
        }
}

proof fn lemma_tracked_after_place(
    ids: Seq<u128>,
    roots: Seq<usize>,
    processed: Set<int>,
    gv: Seq<Seq<u128>>,
    group_roots: Seq<usize>,
    origin: Seq<Seq<int>>,
    assign: Seq<int>,
    slot: Seq<int>,
    i: int,
    c: int,
    gv2: Seq<Seq<u128>>,
    group_roots2: Seq<usize>,
)
    requires
        tracked_members(ids, roots, processed, gv, group_roots, origin, assign, slot),
        gv.len() == group_roots.len(),
        0 <= i < ids.len(),
        !processed.contains(i),
        0 <= c < gv2.len(),
        group_roots2[c] == roots[i],
        c < gv.len() ==> gv2.len() == gv.len() && group_roots2 == group_roots && gv2[c] == gv[c].push(ids[i]),
        c == gv.len() ==> gv2.len() == gv.len() + 1 && group_roots2 == group_roots.push(roots[i]) && gv2[c]
            == seq![ids[i]],
        c <= gv.len(),
        forall|e: int| 0 <= e < gv.len() && e != c ==> #[trigger] gv2[e] == gv[e],
    ensures
        ({
            let origin2 = if c < gv.len() {
                origin.update(c, origin[c].push(i))
            } else {
                origin.push(seq![i])
            };
            tracked_members(
                ids,
                roots,
                processed.insert(i),
                gv2,
                group_roots2,
                origin2,
                assign.update(i, c),
                slot.update(i, gv2[c].len() - 1),
            )
        }),
{
    let origin2 = if c < gv.len() {
        origin.update(c, origin[c].push(i))
    } else {
        origin.push(seq![i])
    };
    let processed2 = processed.insert(i);
    let assign2 = assign.update(i, c);
    let slot2 = slot.update(i, gv2[c].len() - 1);
    assert forall|e: int| 0 <= e < gv2.len() implies #[trigger] origin2[e].len() == gv2[e].len() by {}
    assert forall|e: int, m: int| 0 <= e < gv2.len() && 0 <= m < gv2[e].len() implies {
        let j = #[trigger] origin2[e][m];
        &&& 0 <= j < ids.len()
        &&& processed2.contains(j)
        &&& ids[j] == gv2[e][m]
        &&& roots[j] == group_roots2[e]
    } by {
        if e == c && m == gv2[c].len() - 1 {
            assert(origin2[e][m] == i);
        } else {
            assert(origin2[e][m] == origin[e][m]);
            assert(gv2[e][m] == gv[e][m]);
            assert(group_roots2[e] == group_roots[e]);
        }
    }
    assert forall|j: int| 0 <= j < ids.len() && #[trigger] processed2.contains(j) implies {
        let e = assign2[j];
        &&& 0 <= e < gv2.len()
        &&& 0 <= slot2[j] < gv2[e].len()
        &&& gv2[e][slot2[j]] == ids[j]
        &&& group_roots2[e] == roots[j]
    } by {
        if j != i {
            assert(processed.contains(j));
            let e = assign[j];
            assert(group_roots2[e] == group_roots[e]);
            if e == c {
                assert(gv2[e][slot[j]] == gv[e][slot[j]]);
            } else {
                assert(gv2[e] == gv[e]);
            }
        }
    }
}

proof fn lemma_tracked_grouping(
    ids: Seq<u128>,
    roots: Seq<usize>,
    gv: Seq<Seq<u128>>,
    group_roots: Seq<usize>,
    origin: Seq<Seq<int>>,
    assign: Seq<int>,
    slot: Seq<int>,
)
    requires
        distinct_ids(ids),
        well_shaped(gv, group_roots),
        tracked_members(ids, roots, Set::new(|j: int| 0 <= j < ids.len()), gv, group_roots, origin, assign, slot),
    ensures
        is_root_grouping(ids, roots, gv),
{
    let all = Set::new(|j: int| 0 <= j < ids.len());
    assert forall|c: int, m: int| 0 <= c < gv.len() && 0 <= m < gv[c].len() implies ids.contains(#[trigger] gv[c][m]) by {
        let j = origin[c][m];
        assert(ids[j] == gv[c][m]);
    }
    assert forall|i: int| 0 <= i < ids.len() implies in_some_group(gv, #[trigger] ids[i]) by {
        assert(all.contains(i));
        let c = assign[i];
        let m = slot[i];
        assert(gv[c][m] == ids[i]);
    }
    assert forall|c: int, m: int, d: int, l: int, i: int, j: int|
        0 <= c < gv.len() && 0 <= m < gv[c].len() && 0 <= d < gv.len() && 0 <= l < gv[d].len() && 0 <= i
            < ids.len() && 0 <= j < ids.len() && #[trigger] gv[c][m] == #[trigger] ids[i] && #[trigger] gv[d][l]
            == #[trigger] ids[j] implies (c == d <==> roots[i] == roots[j]) by {
        let a = origin[c][m];
        let b = origin[d][l];
        assert(ids[a] == gv[c][m]);
        assert(ids[b] == gv[d][l]);
        assert(a == i);
        assert(b == j);
        if c != d {
            assert(group_roots[c] != group_roots[d]);
        }
    }
}

/// Groups `ids` by equal root into ascending classes ordered by least member.
pub fn group_by_root(ids: &Vec<u128>, roots: &Vec<usize>) -> (groups: Vec<Vec<u128>>)
    requires
        ids@.len() == roots@.len(),
        distinct_ids(ids@),
    ensures
        is_root_grouping(ids@, roots@, groups_view(groups@)),
{
    let n = ids.len();
    let (order, Ghost(inv)) = ascending_order(ids);
    let mut groups: Vec<Vec<u128>> = Vec::new();
    let mut group_roots: Vec<usize> = Vec::new();
    let ghost mut origin: Seq<Seq<int>> = Seq::empty();
    let ghost mut assign: Seq<int> = Seq::new(n as nat, |j: int| 0int);
    let ghost mut slot: Seq<int> = Seq::new(n as nat, |j: int| 0int);
    let mut k: usize = 0;
    proof {
        assert(groups_view(groups@) =~= Seq::<Seq<u128>>::empty());
    }
    while k < n
        invariant
            n == ids@.len(),
            n == roots@.len(),
            distinct_ids(ids@),
            order@.len() == n,
            inv.len() == n,
            forall|q: int| 0 <= q < n ==> #[trigger] order@[q] < n,
            forall|q: int, l: int|
                0 <= q < l < n ==> ids@[#[trigger] order@[q] as int] < ids@[#[trigger] order@[l] as int],
            forall|j: int| 0 <= j < n ==> 0 <= #[trigger] inv[j] < n && order@[inv[j]] == j,
            k <= n,
            well_shaped(groups_view(groups@), group_roots@),
            tracked_members(ids@, roots@, Set::new(|j: int| 0 <= j < n && inv[j] < k), groups_view(groups@), group_roots@, origin, assign, slot),
            k < n ==> all_below(groups_view(groups@), ids@[order@[k as int] as int]),
        decreases n - k,
    {
        let i = order[k];
        let x = ids[i];
        let r = roots[i];
        proof {
            assert(inv[i as int] == k) by {
                assert(order@[inv[i as int]] == i);
                if inv[i as int] != k {
                    let a = inv[i as int];
                    if a < k {
                        assert(ids@[order@[a] as int] < ids@[order@[k as int] as int]);
                    } else {
                        assert(ids@[order@[k as int] as int] < ids@[order@[a] as int]);
                    }
                }
            }
        }
        let ghost gv = groups_view(groups@);
        let ghost gr = group_roots@;
        let ghost processed = Set::new(|j: int| 0 <= j < n && inv[j] < k);
        let c = place_in_group(&mut groups, &mut group_roots, x, r);
        proof {
            let gv2 = groups_view(groups@);
            assert(gv2.len() == groups@.len());
            assert forall|e: int| 0 <= e < gv.len() && e != c implies #[trigger] gv2[e] == gv[e] by {
                assert(groups@[e]@ == gv[e]);
            }
            lemma_tracked_after_place(ids@, roots@, processed, gv, gr, origin, assign, slot, i as int, c as int, gv2, group_roots@);
            origin = if (c as int) < gv.len() {
                origin.update(c as int, origin[c as int].push(i as int))
            } else {
                origin.push(seq![i as int])
            };
            assign = assign.update(i as int, c as int);
            slot = slot.update(i as int, gv2[c as int].len() - 1);
            assert(processed.insert(i as int) =~= Set::new(|j: int| 0 <= j < n && inv[j] < k + 1));
            if k + 1 < n {
                let y = ids@[order@[k + 1] as int];
                assert(x < y);
                assert forall|e: int, m: int| 0 <= e < gv2.len() && 0 <= m < gv2[e].len() implies #[trigger] gv2[e][m] < y by {
                    if e == c && m == gv2[c as int].len() - 1 {
                    } else if e == c {
                        assert(gv2[e][m] == gv[e][m]);
                    } else {
                        assert(gv2[e] == gv[e]);
                    }
                }
            }
        }
        k = k + 1;
    }
    proof {
        assert(Set::new(|j: int| 0 <= j < n && inv[j] < k) =~= Set::new(|j: int| 0 <= j < ids@.len()));
        lemma_tracked_grouping(ids@, roots@, groups_view(groups@), group_roots@, origin, assign, slot);
    }
    groups
}

/// The items, in order, whose flag is set and whose least incident body is in `group`.
pub open spec fn select_in_group<T>(items: Seq<T>, firsts: Seq<u128>, flags: Seq<bool>, group: Seq<u128>) -> Seq<T>
    decreases items.len(),
{
    if items.len() == 0 {
        Seq::empty()
    } else {
        let n = items.len() - 1;
        let rest = select_in_group(items.take(n), firsts.take(n), flags.take(n), group);
        if flags[n] && group.contains(firsts[n]) {
            rest.push(items[n])
        } else {
            rest
        }
    }
}

/// The items, in order, whose flag is set and whose least incident body is in `group`.
pub fn select_sources_in_group<T: Copy>(items: &Vec<T>, firsts: &Vec<u128>, flags: &Vec<bool>, group: &Vec<u128>) -> (selected: Vec<T>)
    requires
        items@.len() == firsts@.len(),
        items@.len() == flags@.len(),
    ensures
        selected@ == select_in_group(items@, firsts@, flags@, group@),
{
    let mut selected: Vec<T> = Vec::new();
    let mut s: usize = 0;
    while s < items.len()
        invariant
            items@.len() == firsts@.len(),
            items@.len() == flags@.len(),
            s <= items@.len(),
            selected@ == select_in_group(items@.take(s as int), firsts@.take(s as int), flags@.take(s as int), group@),
        decreases items@.len() - s,
    {
        proof {
            let t = (s + 1) as int;
            assert(items@.take(t).take(s as int) == items@.take(s as int));
            assert(firsts@.take(t).take(s as int) == firsts@.take(s as int));
            assert(flags@.take(t).take(s as int) == flags@.take(s as int));
        }
        if flags[s] && contains_id(group, firsts[s]) {
            selected.push(items[s]);
        }
        s = s + 1;
    }
    proof {
        assert(items@.take(items@.len() as int) == items@);
        assert(firsts@.take(items@.len() as int) == firsts@);
        assert(flags@.take(items@.len() as int) == flags@);
    }
    selected
}


/// Under a grouping, every identity is a member of exactly one class.
pub proof fn lemma_grouping_places_each_once(ids: Seq<u128>, roots: Seq<usize>, groups: Seq<Seq<u128>>, i: int)
    requires
        is_root_grouping(ids, roots, groups),
        0 <= i < ids.len(),
    ensures
        in_some_group(groups, ids[i]),
        forall|c: int, m: int, d: int, l: int|
            0 <= c < groups.len() && 0 <= m < groups[c].len() && 0 <= d < groups.len() && 0 <= l < groups[d].len()
                && #[trigger] groups[c][m] == ids[i] && #[trigger] groups[d][l] == ids[i] ==> c == d,
{
}


/// Position `a` comes before position `b` in ascending order of key, ties
/// broken by position.
pub open spec fn key_position_before(keys: Seq<u128>, a: int, b: int) -> bool {
    keys[a] < keys[b] || (keys[a] == keys[b] && a < b)
}

/// The positions of `keys` in ascending order of key; equal keys keep their
/// original order (a stable sort).
pub fn stable_ascending_order(keys: &Vec<u128>) -> (order: Vec<usize>)
    ensures
        order@.len() == keys@.len(),
        forall|k: int| 0 <= k < keys@.len() ==> #[trigger] order@[k] < keys@.len(),
        forall|k: int, l: int|
            0 <= k < l < keys@.len() ==> key_position_before(keys@, #[trigger] order@[k] as int, #[trigger] order@[l] as int),
        forall|j: usize| j < keys@.len() ==> #[trigger] order@.contains(j),
{
    let n = keys.len();
    let mut order: Vec<usize> = Vec::new();
    let ghost mut inv: Seq<int> = Seq::empty();
    let mut i: usize = 0;
    while i < n
        invariant
            n == keys@.len(),
            i <= n,
            order@.len() == i,
            inv.len() == i,
            forall|k: int| 0 <= k < i ==> #[trigger] order@[k] < i,
            forall|k: int, l: int|
                0 <= k < l < i ==> key_position_before(keys@, #[trigger] order@[k] as int, #[trigger] order@[l] as int),
            forall|j: int| 0 <= j < i ==> 0 <= #[trigger] inv[j] < i && order@[inv[j]] == j,
        decreases n - i,
    {
        let x = keys[i];
        let mut p: usize = 0;
        while p < order.len() && keys[order[p]] <= x
            invariant
                n == keys@.len(),
                i < n,
                order@.len() == i,
                p <= order@.len(),
                forall|k: int| 0 <= k < i ==> #[trigger] order@[k] < i,
                forall|k: int| 0 <= k < p ==> keys@[#[trigger] order@[k] as int] <= x,
            decreases order@.len() - p,
        {
            p = p + 1;
        }
        let ghost old_order = order@;
        proof {
            assert forall|k: int| p <= k < i implies x < keys@[#[trigger] old_order[k] as int] by {
                if k > p {
                    assert(key_position_before(keys@, old_order[p as int] as int, old_order[k] as int));
                }
            }
        }
        order.insert(p, i);
        proof {
            let new_inv = Seq::new(
                (i + 1) as nat,
                |j: int|
                    if j == i {
                        p as int
                    } else if inv[j] >= p {
                        inv[j] + 1
                    } else {
                        inv[j]
                    },
            );
            assert forall|k: int, l: int|
                0 <= k < l < i + 1 implies key_position_before(keys@, #[trigger] order@[k] as int, #[trigger] order@[l] as int) by {
                if k < p && l < p {
                    assert(order@[k] == old_order[k] && order@[l] == old_order[l]);
                } else if k < p && l == p {
                    assert(order@[k] == old_order[k]);
                    assert(old_order[k] < i);
                } else if k < p {
                    assert(order@[k] == old_order[k] && order@[l] == old_order[l - 1]);
                } else if k == p {
                    assert(order@[l] == old_order[l - 1]);
                } else {
                    assert(order@[k] == old_order[k - 1] && order@[l] == old_order[l - 1]);
                }
            }
            assert forall|j: int| 0 <= j < i + 1 implies 0 <= #[trigger] new_inv[j] < i + 1
                && order@[new_inv[j]] == j by {
                if j < i {
                    if inv[j] >= p {
                        assert(order@[inv[j] + 1] == old_order[inv[j]]);
                    } else {
                        assert(order@[inv[j]] == old_order[inv[j]]);
                    }
                }
            }
            inv = new_inv;
        }
        i = i + 1;
    }
    proof {
        assert forall|j: usize| j < keys@.len() implies #[trigger] order@.contains(j) by {
            assert(order@[inv[j as int]] == j);
        }
    }
    order
}

/// The classes partition `ids` by a relation on positions: each class is
/// nonempty and ascending, classes are ordered by their least member, every
/// member is one of `ids`, every one of `ids` is a member, and two members
/// share a class exactly when their positions are related.
pub open spec fn classes_by(ids: Seq<u128>, related: spec_fn(int, int) -> bool, groups: Seq<Seq<u128>>) -> bool {
    &&& forall|c: int|
        0 <= c < groups.len() ==> #[trigger] groups[c].len() > 0 && strictly_increasing(groups[c])
    &&& forall|c: int, d: int| 0 <= c < d < groups.len() ==> #[trigger] groups[c][0] < #[trigger] groups[d][0]
    &&& forall|c: int, m: int|
        0 <= c < groups.len() && 0 <= m < groups[c].len() ==> ids.contains(#[trigger] groups[c][m])
    &&& forall|i: int| 0 <= i < ids.len() ==> in_some_group(groups, #[trigger] ids[i])
    &&& forall|c: int, m: int, d: int, l: int, i: int, j: int|
        0 <= c < groups.len() && 0 <= m < groups[c].len() && 0 <= d < groups.len() && 0 <= l
            < groups[d].len() && 0 <= i < ids.len() && 0 <= j < ids.len() && #[trigger] groups[c][m]
            == #[trigger] ids[i] && #[trigger] groups[d][l] == #[trigger] ids[j] ==> (c == d
            <==> related(i, j))
}

/// Two ascending sequences with the same members are equal.
pub proof fn lemma_ascending_same_members(a: Seq<u128>, b: Seq<u128>)
    requires
        strictly_increasing(a),
        strictly_increasing(b),
        forall|x: u128| a.contains(x) <==> b.contains(x),
    ensures
        a == b,
    decreases a.len(),
{
    if a.len() == 0 {
        if b.len() > 0 {
            assert(b.contains(b[0]));
            assert(a.contains(b[0]) <==> b.contains(b[0]));
        }
        assert(a =~= b);
    } else {
        assert(a.contains(a[0]));
        assert(b.contains(a[0]));
        let k = choose|k: int| 0 <= k < b.len() && b[k] == a[0];
        assert(b.contains(b[0]));
        let q = choose|q: int| 0 <= q < a.len() && a[q] == b[0];
        if k > 0 {
            assert(b[0] < b[k]);
            if q > 0 {
                assert(a[0] < a[q]);
            }
        }
        assert(a[0] == b[0]);
        let ra = a.drop_first();
        let rb = b.drop_first();
        assert forall|x: u128| ra.contains(x) <==> rb.contains(x) by {
            if ra.contains(x) {
                let m = choose|m: int| 0 <= m < ra.len() && ra[m] == x;
                assert(a[m + 1] == x);
                assert(a[0] < x);
                assert(a.contains(x));
                let n = choose|n: int| 0 <= n < b.len() && b[n] == x;
                assert(n != 0);
                assert(rb[n - 1] == x);
            }
            if rb.contains(x) {
                let m = choose|m: int| 0 <= m < rb.len() && rb[m] == x;
                assert(b[m + 1] == x);
                assert(b[0] < x);
                assert(b.contains(x));
                let n = choose|n: int| 0 <= n < a.len() && a[n] == x;
                assert(n != 0);
                assert(ra[n - 1] == x);
            }
        }
        lemma_ascending_same_members(ra, rb);
        assert(a =~= seq![a[0]] + ra);
        assert(b =~= seq![b[0]] + rb);
    }
}

/// The class of `second` that holds the least member of class `c` of `first`
/// has exactly the members of that class.
proof fn lemma_matching_class(ids: Seq<u128>, related: spec_fn(int, int) -> bool, first: Seq<Seq<u128>>, second: Seq<Seq<u128>>, c: int) -> (d: int)
    requires
        classes_by(ids, related, first),
        classes_by(ids, related, second),
        0 <= c < first.len(),
    ensures
        0 <= d < second.len(),
        first[c] == second[d],
{
    assert(first[c].len() > 0);
    let x = first[c][0];
    assert(ids.contains(x));
    let i = choose|i: int| 0 <= i < ids.len() && ids[i] == x;
    assert(in_some_group(second, ids[i]));
    let (d, l) = choose|d: int, l: int| 0 <= d < second.len() && 0 <= l < second[d].len() && second[d][l] == ids[i];
    assert forall|y: u128| first[c].contains(y) <==> second[d].contains(y) by {
        if first[c].contains(y) {
            let m = choose|m: int| 0 <= m < first[c].len() && first[c][m] == y;
            assert(ids.contains(first[c][m]));
            let j = choose|j: int| 0 <= j < ids.len() && ids[j] == y;
            assert(related(i, j));
            assert(in_some_group(second, ids[j]));
            let (e, n) = choose|e: int, n: int| 0 <= e < second.len() && 0 <= n < second[e].len() && second[e][n] == ids[j];
            assert(e == d);
            assert(second[d].contains(y));
        }
        if second[d].contains(y) {
            let m = choose|m: int| 0 <= m < second[d].len() && second[d][m] == y;
            assert(ids.contains(second[d][m]));
            let j = choose|j: int| 0 <= j < ids.len() && ids[j] == y;
            assert(related(i, j));
            assert(in_some_group(first, ids[j]));
            let (e, n) = choose|e: int, n: int| 0 <= e < first.len() && 0 <= n < first[e].len() && first[e][n] == ids[j];
            assert(e == c);
            assert(first[c].contains(y));
        }
    }
    lemma_ascending_same_members(first[c], second[d]);
    d
}

/// Classes by one relation are unique: two partitions of the same identities
/// by the same relation, both in the canonical order, are equal.
pub proof fn lemma_classes_unique(ids: Seq<u128>, related: spec_fn(int, int) -> bool, first: Seq<Seq<u128>>, second: Seq<Seq<u128>>)
    requires
        classes_by(ids, related, first),
        classes_by(ids, related, second),
    ensures
        first == second,
{
    let leads1 = first.map_values(|g: Seq<u128>| g[0]);
    let leads2 = second.map_values(|g: Seq<u128>| g[0]);
    assert forall|c: int| 0 <= c < first.len() implies leads2.contains(#[trigger] leads1[c]) by {
        let d = lemma_matching_class(ids, related, first, second, c);
        assert(leads2[d] == leads1[c]);
    }
    assert forall|d: int| 0 <= d < second.len() implies leads1.contains(#[trigger] leads2[d]) by {
        let c = lemma_matching_class(ids, related, second, first, d);
        assert(leads1[c] == leads2[d]);
    }
    assert forall|x: u128| leads1.contains(x) <==> leads2.contains(x) by {
        if leads1.contains(x) {
            let c = choose|c: int| 0 <= c < leads1.len() && leads1[c] == x;
            assert(leads2.contains(leads1[c]));
        }
        if leads2.contains(x) {
            let d = choose|d: int| 0 <= d < leads2.len() && leads2[d] == x;
            assert(leads1.contains(leads2[d]));
        }
    }
    assert(strictly_increasing(leads1)) by {
        assert forall|i: int, j: int| 0 <= i < j < leads1.len() implies leads1[i] < leads1[j] by {
            assert(first[i][0] < first[j][0]);
        }
    }
    assert(strictly_increasing(leads2)) by {
        assert forall|i: int, j: int| 0 <= i < j < leads2.len() implies leads2[i] < leads2[j] by {
            assert(second[i][0] < second[j][0]);
        }
    }
    lemma_ascending_same_members(leads1, leads2);
    assert forall|c: int| 0 <= c < first.len() implies first[c] == second[c] by {
        let d = lemma_matching_class(ids, related, first, second, c);
        assert(leads1[c] == leads2[d]);
        assert(leads1[d] == leads2[d]);
        if c < d {
            assert(first[c][0] < first[d][0]);
        } else if d < c {
            assert(first[d][0] < first[c][0]);
        }
    }
    assert(first =~= second);
}

} // verus!
