//! Ordered persistent-to-runtime association lists and their first-match lookups.

use vstd::prelude::*;

verus! {

/// The runtime value paired with the first entry whose persistent key is `id`.
pub open spec fn runtime_of<P, R>(pairs: Seq<(P, R)>, id: P) -> Option<R>
    decreases pairs.len(),
{
    if pairs.len() == 0 {
        None
    } else if pairs[0].0 == id {
        Some(pairs[0].1)
    } else {
        runtime_of(pairs.drop_first(), id)
    }
}

/// The persistent key paired with the first entry whose runtime value is `id`.
pub open spec fn persistent_of<P, R>(pairs: Seq<(P, R)>, id: R) -> Option<P>
    decreases pairs.len(),
{
    if pairs.len() == 0 {
        None
    } else if pairs[0].1 == id {
        Some(pairs[0].0)
    } else {
        persistent_of(pairs.drop_first(), id)
    }
}

/// A forward lookup finds a value exactly when some entry has the key, and then
/// the value of the first such entry.
pub proof fn lemma_runtime_of_first<P, R>(pairs: Seq<(P, R)>, id: P)
    ensures
        runtime_of(pairs, id) is None <==> forall|i: int| 0 <= i < pairs.len() ==> pairs[i].0 != id,
        runtime_of(pairs, id) matches Some(r) ==> exists|i: int|
            0 <= i < pairs.len() && pairs[i].0 == id && pairs[i].1 == r && forall|j: int|
                0 <= j < i ==> pairs[j].0 != id,
    decreases pairs.len(),
{
    if pairs.len() > 0 {
        lemma_runtime_of_first(pairs.drop_first(), id);
        if pairs[0].0 != id {
            if runtime_of(pairs, id) is None {
                assert forall|i: int| 0 <= i < pairs.len() implies pairs[i].0 != id by {
                    if i > 0 {
                        assert(pairs.drop_first()[i - 1] == pairs[i]);
                    }
                }
            } else {
                let r = runtime_of(pairs, id)->0;
                let i = choose|i: int|
                    0 <= i < pairs.drop_first().len() && pairs.drop_first()[i].0 == id
                        && pairs.drop_first()[i].1 == r && forall|j: int| 0 <= j < i ==> pairs.drop_first()[j].0 != id;
                assert(pairs[i + 1] == pairs.drop_first()[i]);
                assert forall|j: int| 0 <= j < i + 1 implies pairs[j].0 != id by {
                    if j > 0 {
                        assert(pairs[j] == pairs.drop_first()[j - 1]);
                    }
                }
            }
            assert(forall|i: int| 0 <= i < pairs.drop_first().len() ==> pairs.drop_first()[i] == pairs[i + 1]);
        } else {
            assert(pairs[0].0 == id);
        }
    }
}

/// A reverse lookup finds a key exactly when some entry has the value, and then
/// the key of the first such entry.
pub proof fn lemma_persistent_of_first<P, R>(pairs: Seq<(P, R)>, id: R)
    ensures
        persistent_of(pairs, id) is None <==> forall|i: int| 0 <= i < pairs.len() ==> pairs[i].1 != id,
        persistent_of(pairs, id) matches Some(p) ==> exists|i: int|
            0 <= i < pairs.len() && pairs[i].1 == id && pairs[i].0 == p && forall|j: int|
                0 <= j < i ==> pairs[j].1 != id,
    decreases pairs.len(),
{
    if pairs.len() > 0 {
        lemma_persistent_of_first(pairs.drop_first(), id);
        if pairs[0].1 != id {
            if persistent_of(pairs, id) is None {
                assert forall|i: int| 0 <= i < pairs.len() implies pairs[i].1 != id by {
                    if i > 0 {
                        assert(pairs.drop_first()[i - 1] == pairs[i]);
                    }
                }
            } else {
                let p = persistent_of(pairs, id)->0;
                let i = choose|i: int|
                    0 <= i < pairs.drop_first().len() && pairs.drop_first()[i].1 == id
                        && pairs.drop_first()[i].0 == p && forall|j: int| 0 <= j < i ==> pairs.drop_first()[j].1 != id;
                assert(pairs[i + 1] == pairs.drop_first()[i]);
                assert forall|j: int| 0 <= j < i + 1 implies pairs[j].1 != id by {
                    if j > 0 {
                        assert(pairs[j] == pairs.drop_first()[j - 1]);
                    }
                }
            }
        }
    }
}

/// Appending an entry leaves every earlier answer unchanged and answers the new
/// key where it was unanswered before.
pub proof fn lemma_runtime_of_push<P, R>(pairs: Seq<(P, R)>, entry: (P, R), id: P)
    ensures
        runtime_of(pairs.push(entry), id) == (if runtime_of(pairs, id) is Some {
            runtime_of(pairs, id)
        } else if entry.0 == id {
            Some(entry.1)
        } else {
            None::<R>
        }),
    decreases pairs.len(),
{
    if pairs.len() > 0 {
        assert(pairs.push(entry).drop_first() =~= pairs.drop_first().push(entry));
        lemma_runtime_of_push(pairs.drop_first(), entry, id);
        assert(pairs.push(entry)[0] == pairs[0]);
    } else {
        assert(pairs.push(entry).drop_first() =~= Seq::<(P, R)>::empty());
        assert(pairs.push(entry)[0] == entry);
        reveal_with_fuel(runtime_of, 2);
    }
}

/// Appending an entry leaves every earlier reverse answer unchanged and answers
/// the new value where it was unanswered before.
pub proof fn lemma_persistent_of_push<P, R>(pairs: Seq<(P, R)>, entry: (P, R), id: R)
    ensures
        persistent_of(pairs.push(entry), id) == (if persistent_of(pairs, id) is Some {
            persistent_of(pairs, id)
        } else if entry.1 == id {
            Some(entry.0)
        } else {
            None::<P>
        }),
    decreases pairs.len(),
{
    if pairs.len() > 0 {
        assert(pairs.push(entry).drop_first() =~= pairs.drop_first().push(entry));
        lemma_persistent_of_push(pairs.drop_first(), entry, id);
        assert(pairs.push(entry)[0] == pairs[0]);
    } else {
        assert(pairs.push(entry).drop_first() =~= Seq::<(P, R)>::empty());
        assert(pairs.push(entry)[0] == entry);
        reveal_with_fuel(persistent_of, 2);
    }
}

} // verus!
