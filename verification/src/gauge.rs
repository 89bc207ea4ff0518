//! Numerical gauge references of certified components: one anchored body for
//! every floating component, none for a physically grounded one.

use vstd::prelude::*;
use crate::components::{contains_id, in_some_group, strictly_increasing};

verus! {

/// Why an explicit list of gauge references was rejected.
#[derive(Clone, Copy, Debug, PartialEq, Eq, Structural)]
pub enum GaugeRuleViolation {
    /// A body is listed more than once.
    DuplicateReferences,
    /// The first listed body that belongs to no component.
    UnknownReference(u128),
    /// The floating component beginning at this body has no or several references.
    FloatingComponentReferences(u128),
    /// The physically grounded component beginning at this body has a reference.
    GroundedComponentReference(u128),
}

/// The default choice: the least body of every floating component, nothing for
/// a grounded one.
pub open spec fn lowest_choices(grounded: Seq<bool>, groups: Seq<Seq<u128>>) -> Seq<Option<u128>> {
    Seq::new(groups.len(), |c: int| if grounded[c] { None } else { Some(groups[c][0]) })
}

/// The listed references, in list order, that are members of `group`.
pub open spec fn listed_members(references: Seq<u128>, group: Seq<u128>) -> Seq<u128>
    decreases references.len(),
{
    if references.len() == 0 {
        Seq::empty()
    } else {
        let rest = listed_members(references.drop_last(), group);
        if group.contains(references.last()) {
            rest.push(references.last())
        } else {
            rest
        }
    }
}

/// The reference of one component under an explicit list: exactly one listed
/// member for a floating component, none for a grounded one.
pub open spec fn component_choice(grounded: bool, group: Seq<u128>, references: Seq<u128>) -> Result<Option<u128>, GaugeRuleViolation> {
    let selected = listed_members(references, group);
    if !grounded {
        if selected.len() == 1 {
            Ok(Some(selected[0]))
        } else {
            Err(GaugeRuleViolation::FloatingComponentReferences(group[0]))
        }
    } else if selected.len() == 0 {
        Ok(None)
    } else {
        Err(GaugeRuleViolation::GroundedComponentReference(group[0]))
    }
}

/// The references of all components under an explicit list, or the rejection of
/// the first component, in order, that breaks the rule.
pub open spec fn explicit_choices(grounded: Seq<bool>, groups: Seq<Seq<u128>>, references: Seq<u128>) -> Result<Seq<Option<u128>>, GaugeRuleViolation>
    decreases groups.len(),
{
    if groups.len() == 0 {
        Ok(Seq::empty())
    } else {
        let n = groups.len() - 1;
        match explicit_choices(grounded.take(n), groups.take(n), references) {
            Err(e) => Err(e),
            Ok(prefix) => match component_choice(grounded[n], groups[n], references) {
                Err(e) => Err(e),
                Ok(choice) => Ok(prefix.push(choice)),
            },
        }
    }
}

/// The first listed reference, in list order, that belongs to no group.
pub open spec fn first_unlisted(references: Seq<u128>, groups: Seq<Seq<u128>>) -> Option<u128>
    decreases references.len(),
{
    if references.len() == 0 {
        None
    } else if !in_some_group(groups, references[0]) {
        Some(references[0])
    } else {
        first_unlisted(references.drop_first(), groups)
    }
}

/// The gauge references of the components `groups` (ascending bodies, with
/// `grounded` telling which hold a physical ground) under the default policy
/// (`explicit` absent) or an explicit list of reference bodies.
pub open spec fn reference_choices(grounded: Seq<bool>, groups: Seq<Seq<u128>>, explicit: Option<Seq<u128>>) -> Result<Seq<Option<u128>>, GaugeRuleViolation> {
    match explicit {
        None => Ok(lowest_choices(grounded, groups)),
        Some(references) => if !references.no_duplicates() {
            Err(GaugeRuleViolation::DuplicateReferences)
        } else if first_unlisted(references, groups) is Some {
            Err(GaugeRuleViolation::UnknownReference(first_unlisted(references, groups)->0))
        } else {
            explicit_choices(grounded, groups, references)
        },
    }
}

/// Once a prefix of the components is rejected, every longer prefix is
/// rejected for the same reason.
proof fn lemma_choice_rejection_persists(grounded: Seq<bool>, groups: Seq<Seq<u128>>, references: Seq<u128>, k: int)
    requires
        0 <= k <= groups.len(),
        grounded.len() == groups.len(),
        explicit_choices(grounded.take(k), groups.take(k), references) is Err,
    ensures
        explicit_choices(grounded, groups, references) == explicit_choices(grounded.take(k), groups.take(k), references),
    decreases groups.len() - k,
{
    if k < groups.len() {
        assert(grounded.take(k + 1).take(k) =~= grounded.take(k));
        assert(groups.take(k + 1).take(k) =~= groups.take(k));
        lemma_choice_rejection_persists(grounded, groups, references, k + 1);
    } else {
        assert(grounded.take(k) =~= grounded);
        assert(groups.take(k) =~= groups);
    }
}

/// Whether no identity is listed twice.
fn has_no_duplicates(xs: &Vec<u128>) -> (unique: bool)
    ensures
        unique == xs@.no_duplicates(),
{
    let mut seen = std::collections::BTreeSet::new();
    let mut i: usize = 0;
    while i < xs.len()
        invariant
            i <= xs@.len(),
            forall|k: int, l: int| 0 <= k < i && 0 <= l < i && k != l ==> xs@[k] != xs@[l],
            forall|x: u128| #[trigger] seen@.contains(x) <==> exists|k: int| 0 <= k < i && xs@[k] == x,
        decreases xs@.len() - i,
    {
        let x = xs[i];
        if seen.contains(&x) {
            proof {
                let k = choose|k: int| 0 <= k < i && xs@[k] == x;
                assert(xs@[k] == xs@[i as int]);
            }
            return false;
        }
        seen.insert(x);
        proof {
            assert forall|y: u128| #[trigger] seen@.contains(y) implies exists|k: int| 0 <= k < i + 1 && xs@[k] == y by {
                if y != x {
                    let k = choose|k: int| 0 <= k < i && xs@[k] == y;
                    assert(0 <= k < i + 1 && xs@[k] == y);
                } else {
                    assert(xs@[i as int] == y);
                }
            }
            assert forall|y: u128| (exists|k: int| 0 <= k < i + 1 && xs@[k] == y) implies #[trigger] seen@.contains(y) by {
                let k = choose|k: int| 0 <= k < i + 1 && xs@[k] == y;
                if k < i {
                    assert(exists|k: int| 0 <= k < i && xs@[k] == y);
                }
            }
        }
        i = i + 1;
    }
    true
}

/// Whether some group has `x` as a member.
fn in_any_group(groups: &Vec<Vec<u128>>, x: u128) -> (found: bool)
    ensures
        found == in_some_group(groups@.map_values(|g: Vec<u128>| g@), x),
{
    let ghost gv = groups@.map_values(|g: Vec<u128>| g@);
    let mut c: usize = 0;
    while c < groups.len()
        invariant
            c <= groups@.len(),
            gv == groups@.map_values(|g: Vec<u128>| g@),
            forall|e: int, m: int| 0 <= e < c && 0 <= m < gv[e].len() ==> gv[e][m] != x,
        decreases groups@.len() - c,
    {
        if contains_id(&groups[c], x) {
            proof {
                let m = choose|m: int| 0 <= m < groups@[c as int]@.len() && groups@[c as int]@[m] == x;
                assert(gv[c as int][m] == x);
            }
            return true;
        }
        c = c + 1;
    }
    false
}

/// The listed references, in list order, that are members of `group`.
fn listed_members_of(references: &Vec<u128>, group: &Vec<u128>) -> (selected: Vec<u128>)
    ensures
        selected@ == listed_members(references@, group@),
{
    let mut selected: Vec<u128> = Vec::new();
    let mut i: usize = 0;
    while i < references.len()
        invariant
            i <= references@.len(),
            selected@ == listed_members(references@.take(i as int), group@),
        decreases references@.len() - i,
    {
        proof {
            assert(references@.take(i + 1).drop_last() =~= references@.take(i as int));
            assert(references@.take(i + 1).last() == references@[i as int]);
        }
        if contains_id(group, references[i]) {
            selected.push(references[i]);
        }
        i = i + 1;
    }
    proof {
        assert(references@.take(references@.len() as int) == references@);
    }
    selected
}

/// Chooses the numerical gauge reference of every component: under the default
/// policy the least body of each floating component; under an explicit list,
/// exactly one listed body per floating component and none per grounded one.
pub fn resolve_reference_choices(
    grounded: &Vec<bool>,
    groups: &Vec<Vec<u128>>,
    explicit: Option<&Vec<u128>>,
) -> (result: Result<Vec<Option<u128>>, GaugeRuleViolation>)
    requires
        grounded@.len() == groups@.len(),
        forall|c: int| 0 <= c < groups@.len() ==> (#[trigger] groups@[c])@.len() > 0,
    ensures
        match reference_choices(
            grounded@,
            groups@.map_values(|g: Vec<u128>| g@),
            match explicit {
                Some(references) => Some(references@),
                None => None,
            },
        ) {
            Ok(choices) => result matches Ok(found) && found@ == choices,
            Err(e) => result == Err::<Vec<Option<u128>>, _>(e),
        },
{
    let ghost gv = groups@.map_values(|g: Vec<u128>| g@);
    match explicit {
        None => {
            let mut choices: Vec<Option<u128>> = Vec::new();
            let mut c: usize = 0;
            while c < groups.len()
                invariant
                    c <= groups@.len(),
                    grounded@.len() == groups@.len(),
                    gv == groups@.map_values(|g: Vec<u128>| g@),
                    forall|e: int| 0 <= e < groups@.len() ==> (#[trigger] groups@[e])@.len() > 0,
                    choices@ == lowest_choices(grounded@, gv).take(c as int),
                decreases groups@.len() - c,
            {
                let choice = if grounded[c] {
                    None
                } else {
                    Some(groups[c][0])
                };
                choices.push(choice);
                proof {
                    assert(choices@ =~= lowest_choices(grounded@, gv).take(c + 1));
                }
                c = c + 1;
            }
            proof {
                assert(lowest_choices(grounded@, gv).take(groups@.len() as int) =~= lowest_choices(grounded@, gv));
            }
            Ok(choices)
        },
        Some(references) => {
            if !has_no_duplicates(references) {
                return Err(GaugeRuleViolation::DuplicateReferences);
            }
            let mut i: usize = 0;
            proof {
                assert(references@.skip(0) =~= references@);
            }
            while i < references.len()
                invariant
                    i <= references@.len(),
                    gv == groups@.map_values(|g: Vec<u128>| g@),
                    first_unlisted(references@, gv) == first_unlisted(references@.skip(i as int), gv),
                    references@.no_duplicates(),
                    explicit == Some(references),
                decreases references@.len() - i,
            {
                proof {
                    assert(references@.skip(i as int)[0] == references@[i as int]);
                    assert(references@.skip(i as int).drop_first() =~= references@.skip(i + 1));
                }
                if !in_any_group(groups, references[i]) {
                    return Err(GaugeRuleViolation::UnknownReference(references[i]));
                }
                i = i + 1;
            }
            let mut choices: Vec<Option<u128>> = Vec::new();
            let mut c: usize = 0;
            while c < groups.len()
                invariant
                    c <= groups@.len(),
                    grounded@.len() == groups@.len(),
                    gv == groups@.map_values(|g: Vec<u128>| g@),
                    forall|e: int| 0 <= e < groups@.len() ==> (#[trigger] groups@[e])@.len() > 0,
                    explicit_choices(grounded@.take(c as int), gv.take(c as int), references@) == Ok::<Seq<Option<u128>>, GaugeRuleViolation>(choices@),
                    references@.no_duplicates(),
                    first_unlisted(references@, gv) is None,
                    explicit == Some(references),
                decreases groups@.len() - c,
            {
                let selected = listed_members_of(references, &groups[c]);
                proof {
                    assert(grounded@.take(c + 1).take(c as int) =~= grounded@.take(c as int));
                    assert(gv.take(c + 1).take(c as int) =~= gv.take(c as int));
                    assert(gv[c as int] == groups@[c as int]@);
                }
                let choice = if !grounded[c] {
                    if selected.len() == 1 {
                        Some(selected[0])
                    } else {
                        proof {
                            lemma_choice_rejection_persists(grounded@, gv, references@, c + 1);
                        }
                        return Err(GaugeRuleViolation::FloatingComponentReferences(groups[c][0]));
                    }
                } else if selected.len() == 0 {
                    None
                } else {
                    proof {
                        lemma_choice_rejection_persists(grounded@, gv, references@, c + 1);
                    }
                    return Err(GaugeRuleViolation::GroundedComponentReference(groups[c][0]));
                };
                choices.push(choice);
                c = c + 1;
            }
            proof {
                assert(grounded@.take(groups@.len() as int) =~= grounded@);
                assert(gv.take(groups@.len() as int) =~= gv);
            }
            Ok(choices)
        },
    }
}


/// Every selected member is listed and belongs to the group.
pub proof fn lemma_listed_members_listed(references: Seq<u128>, group: Seq<u128>)
    ensures
        forall|m: int| 0 <= m < listed_members(references, group).len() ==> references.contains(#[trigger] listed_members(references, group)[m])
            && group.contains(listed_members(references, group)[m]),
    decreases references.len(),
{
    if references.len() > 0 {
        let rest = references.drop_last();
        lemma_listed_members_listed(rest, group);
        assert forall|m: int| 0 <= m < listed_members(references, group).len() implies references.contains(#[trigger] listed_members(references, group)[m])
            && group.contains(listed_members(references, group)[m]) by {
            let x = listed_members(references, group)[m];
            if m < listed_members(rest, group).len() {
                assert(x == listed_members(rest, group)[m]);
                let k = choose|k: int| 0 <= k < rest.len() && rest[k] == x;
                assert(references[k] == x);
            } else {
                assert(x == references.last());
                assert(references[references.len() - 1] == x);
            }
        }
    }
}

/// The first unlisted reference is one of the references.
pub proof fn lemma_first_unlisted_is_listed(references: Seq<u128>, groups: Seq<Seq<u128>>)
    ensures
        first_unlisted(references, groups) matches Some(x) ==> references.contains(x) && !in_some_group(groups, x),
    decreases references.len(),
{
    if references.len() > 0 {
        lemma_first_unlisted_is_listed(references.drop_first(), groups);
        if let Some(x) = first_unlisted(references, groups) {
            if in_some_group(groups, references[0]) {
                let k = choose|k: int| 0 <= k < references.drop_first().len() && references.drop_first()[k] == x;
                assert(references[k + 1] == x);
            } else {
                assert(references[0] == x);
            }
        }
    }
}

/// An accepted explicit list gives every component one choice, each a listed
/// member of its component; a rejection names the least body of the first
/// offending component.
pub proof fn lemma_explicit_choices_shape(grounded: Seq<bool>, groups: Seq<Seq<u128>>, references: Seq<u128>)
    requires
        grounded.len() == groups.len(),
    ensures
        explicit_choices(grounded, groups, references) matches Ok(choices) ==> {
            &&& choices.len() == groups.len()
            &&& forall|q: int| 0 <= q < choices.len() ==> (#[trigger] choices[q] matches Some(x) ==> references.contains(x) && groups[q].contains(x))
            &&& forall|q: int| 0 <= q < choices.len() ==> (choices[q] is Some <==> !grounded[q])
        },
        explicit_choices(grounded, groups, references) matches Err(violation) ==> match violation {
            GaugeRuleViolation::FloatingComponentReferences(x) => exists|c: int| 0 <= c < groups.len() && !grounded[c] && #[trigger] groups[c][0] == x,
            GaugeRuleViolation::GroundedComponentReference(x) => exists|c: int| 0 <= c < groups.len() && grounded[c] && #[trigger] groups[c][0] == x,
            _ => false,
        },
    decreases groups.len(),
{
    if groups.len() > 0 {
        let n = groups.len() - 1;
        lemma_explicit_choices_shape(grounded.take(n), groups.take(n), references);
        lemma_listed_members_listed(references, groups[n]);
        match explicit_choices(grounded.take(n), groups.take(n), references) {
            Err(violation) => {
                match violation {
                    GaugeRuleViolation::FloatingComponentReferences(x) => {
                        let c = choose|c: int| 0 <= c < groups.take(n).len() && !grounded.take(n)[c] && #[trigger] groups.take(n)[c][0] == x;
                        assert(groups[c][0] == x && !grounded[c]);
                    },
                    GaugeRuleViolation::GroundedComponentReference(x) => {
                        let c = choose|c: int| 0 <= c < groups.take(n).len() && grounded.take(n)[c] && #[trigger] groups.take(n)[c][0] == x;
                        assert(groups[c][0] == x && grounded[c]);
                    },
                    _ => {},
                }
            },
            Ok(prefix) => {
                match component_choice(grounded[n], groups[n], references) {
                    Err(violation) => {
                        assert(groups[n][0] == groups[n][0]);
                    },
                    Ok(choice) => {
                        let choices = prefix.push(choice);
                        assert forall|q: int| 0 <= q < choices.len() implies (#[trigger] choices[q] matches Some(x) ==> references.contains(x) && groups[q].contains(x)) by {
                            if q < n {
                                assert(choices[q] == prefix[q]);
                                assert(groups.take(n)[q] == groups[q]);
                            } else {
                                if let Some(x) = choice {
                                    assert(listed_members(references, groups[n])[0] == x);
                                }
                            }
                        }
                        assert forall|q: int| 0 <= q < choices.len() implies (choices[q] is Some <==> !grounded[q]) by {
                            if q < n {
                                assert(choices[q] == prefix[q]);
                                assert(grounded.take(n)[q] == grounded[q]);
                            }
                        }
                    },
                }
            },
        }
    }
}


/// Under the default policy every floating component is anchored at its least
/// body, and no physically grounded component is anchored.
pub proof fn lemma_default_policy_anchors_least_body(grounded: Seq<bool>, groups: Seq<Seq<u128>>)
    requires
        grounded.len() == groups.len(),
        forall|c: int| 0 <= c < groups.len() ==> #[trigger] groups[c].len() > 0 && strictly_increasing(groups[c]),
    ensures
        reference_choices(grounded, groups, None) matches Ok(choices) && choices.len() == groups.len()
            && forall|c: int| 0 <= c < groups.len() ==> {
                &&& !grounded[c] ==> #[trigger] choices[c] == Some(groups[c][0]) && forall|m: int| 0 <= m < groups[c].len() ==> groups[c][0] <= #[trigger] groups[c][m]
                &&& grounded[c] ==> choices[c] is None
            },
{
    let choices = lowest_choices(grounded, groups);
    assert forall|c: int| 0 <= c < groups.len() implies {
        &&& !grounded[c] ==> #[trigger] choices[c] == Some(groups[c][0]) && forall|m: int| 0 <= m < groups[c].len() ==> groups[c][0] <= #[trigger] groups[c][m]
        &&& grounded[c] ==> choices[c] is None
    } by {
        assert(groups[c].len() > 0 && strictly_increasing(groups[c]));
        assert forall|m: int| 0 <= m < groups[c].len() implies groups[c][0] <= #[trigger] groups[c][m] by {
            if m > 0 {
                assert(groups[c][0] < groups[c][m]);
            }
        }
    }
}

proof fn lemma_explicit_choices_per_component(grounded: Seq<bool>, groups: Seq<Seq<u128>>, references: Seq<u128>)
    requires
        grounded.len() == groups.len(),
        explicit_choices(grounded, groups, references) is Ok,
    ensures
        ({
            let choices = explicit_choices(grounded, groups, references)->Ok_0;
            &&& choices.len() == groups.len()
            &&& forall|q: int| 0 <= q < groups.len() ==> component_choice(grounded[q], groups[q], references) == Ok::<Option<u128>, GaugeRuleViolation>(#[trigger] choices[q])
        }),
    decreases groups.len(),
{
    if groups.len() > 0 {
        let n = groups.len() - 1;
        lemma_explicit_choices_per_component(grounded.take(n), groups.take(n), references);
        let prefix = explicit_choices(grounded.take(n), groups.take(n), references)->Ok_0;
        let choices = explicit_choices(grounded, groups, references)->Ok_0;
        assert forall|q: int| 0 <= q < groups.len() implies component_choice(grounded[q], groups[q], references) == Ok::<Option<u128>, GaugeRuleViolation>(#[trigger] choices[q]) by {
            if q < n {
                assert(choices[q] == prefix[q]);
                assert(grounded.take(n)[q] == grounded[q]);
                assert(groups.take(n)[q] == groups[q]);
            }
        }
    }
}

/// An accepted explicit list anchors each floating component at the one listed
/// body that belongs to it, and lists no body of a grounded component.
pub proof fn lemma_explicit_policy_anchors_exactly_one(grounded: Seq<bool>, groups: Seq<Seq<u128>>, references: Seq<u128>)
    requires
        grounded.len() == groups.len(),
        reference_choices(grounded, groups, Some(references)) is Ok,
    ensures
        ({
            let choices = reference_choices(grounded, groups, Some(references))->Ok_0;
            &&& choices.len() == groups.len()
            &&& forall|c: int| 0 <= c < groups.len() ==> {
                &&& !grounded[c] ==> listed_members(references, groups[c]).len() == 1
                    && #[trigger] choices[c] == Some(listed_members(references, groups[c])[0])
                &&& grounded[c] ==> listed_members(references, groups[c]).len() == 0 && choices[c] is None
            }
        }),
{
    lemma_explicit_choices_per_component(grounded, groups, references);
}


/// One structural component of the numerical core: which certified components
/// its variables and residuals belong to (absent when one of them belongs to
/// none), and its right nullity (absent when the core reported none).
#[derive(Clone, Debug, PartialEq, Eq)]
pub struct CoreComponentSummary {
    pub component_index: usize,
    pub domains: Option<Vec<usize>>,
    pub right_nullity: Option<usize>,
}

/// Why the split of core mobility into gauge and internal motion was rejected.
#[derive(Clone, Copy, Debug, PartialEq, Eq, Structural)]
pub enum GaugeSplitError {
    /// The summary at this position has a variable or residual outside every certified component.
    Unmapped(usize),
    /// This core component does not map to exactly one certified component.
    NotOneComponent(usize),
    /// This core component has no numerical report.
    NoNumericalReport(usize),
    /// A component's right nullity does not fit in `usize`.
    RightNullityOverflow,
    /// A component's right nullity is below its certified gauge freedom.
    BelowGaugeDof { component: usize, right_nullity: usize, gauge_dof: usize },
    /// The total right nullity does not fit in `usize`.
    TotalOverflow,
    /// The mapped total differs from the core's total right nullity.
    TotalMismatch { mapped: usize, core: usize },
}

/// Gauge and internal mobility of one certified component.
#[derive(Clone, Debug, PartialEq, Eq)]
pub struct ComponentGaugeSplit {
    pub core_component_indices: Vec<usize>,
    pub right_nullity: usize,
    pub gauge_dof: usize,
    pub internal_mobility: usize,
}

/// Gauge and internal mobility of every certified component, with totals.
#[derive(Clone, Debug, PartialEq, Eq)]
pub struct GaugeSplit {
    pub components: Vec<ComponentGaugeSplit>,
    pub right_nullity: usize,
    pub gauge_dof: usize,
    pub internal_mobility: usize,
}

/// A nonempty list naming one component only.
pub open spec fn single_domain(domains: Seq<usize>) -> bool {
    domains.len() > 0 && forall|k: int| 0 <= k < domains.len() ==> #[trigger] domains[k] == domains[0]
}

/// Core component indices and right nullity gathered per certified component
/// from the summaries, or the first rejection met.
pub open spec fn gathered_nullities(n: nat, summaries: Seq<CoreComponentSummary>) -> Result<(Seq<Seq<usize>>, Seq<int>), GaugeSplitError>
    decreases summaries.len(),
{
    if summaries.len() == 0 {
        Ok((Seq::new(n, |c: int| Seq::<usize>::empty()), Seq::new(n, |c: int| 0int)))
    } else {
        let k = summaries.len() - 1;
        match gathered_nullities(n, summaries.take(k)) {
            Err(e) => Err(e),
            Ok((cores, nullities)) => {
                let summary = summaries[k];
                match summary.domains {
                    None => Err(GaugeSplitError::Unmapped(k as usize)),
                    Some(domains) => if !single_domain(domains@) {
                        Err(GaugeSplitError::NotOneComponent(summary.component_index))
                    } else {
                        match summary.right_nullity {
                            None => Err(GaugeSplitError::NoNumericalReport(summary.component_index)),
                            Some(r) => {
                                let d = domains@[0] as int;
                                if nullities[d] + r > usize::MAX {
                                    Err(GaugeSplitError::RightNullityOverflow)
                                } else {
                                    Ok((cores.update(d, cores[d].push(summary.component_index)), nullities.update(d, nullities[d] + r)))
                                }
                            },
                        }
                    },
                }
            },
        }
    }
}

/// Sum of a sequence of integers.
pub open spec fn sum_of(values: Seq<int>) -> int
    decreases values.len(),
{
    if values.len() == 0 {
        0
    } else {
        sum_of(values.drop_last()) + values.last()
    }
}

/// Certified gauge freedom of each component: `floating_dof` for a floating
/// component, none for a grounded one.
pub open spec fn gauge_freedoms(floating: Seq<bool>, floating_dof: usize) -> Seq<int> {
    Seq::new(floating.len(), |c: int| if floating[c] { floating_dof as int } else { 0int })
}

/// The first component whose right nullity is below its gauge freedom.
pub open spec fn first_below_gauge(nullities: Seq<int>, freedoms: Seq<int>) -> Option<int>
    decreases nullities.len(),
{
    if nullities.len() == 0 {
        None
    } else {
        let k = nullities.len() - 1;
        match first_below_gauge(nullities.take(k), freedoms.take(k)) {
            Some(c) => Some(c),
            None => if nullities[k] < freedoms[k] {
                Some(k)
            } else {
                None
            },
        }
    }
}

/// Whether a list is nonempty and names one component only.
fn names_one_component(domains: &Vec<usize>) -> (single: bool)
    ensures
        single == single_domain(domains@),
{
    if domains.len() == 0 {
        return false;
    }
    let d = domains[0];
    let mut m: usize = 1;
    while m < domains.len()
        invariant
            1 <= m <= domains@.len(),
            d == domains@[0],
            forall|q: int| 0 <= q < m ==> #[trigger] domains@[q] == d,
        decreases domains@.len() - m,
    {
        if domains[m] != d {
            proof {
                assert(domains@[m as int] != domains@[0]);
            }
            return false;
        }
        m = m + 1;
    }
    true
}

/// Splits the core's equality mobility into gauge and internal motion per
/// certified component: gathers each core component into the one certified
/// component it maps to, requires every component's right nullity to cover its
/// gauge freedom, and requires the mapped total to equal the core's total.
pub fn split_gauge_mobility(
    floating: &Vec<bool>,
    summaries: &Vec<CoreComponentSummary>,
    core_right_nullity: usize,
    floating_dof: usize,
) -> (result: Result<GaugeSplit, GaugeSplitError>)
    requires
        forall|k: int| 0 <= k < summaries@.len() ==> ((#[trigger] summaries@[k]).domains matches Some(domains) ==> forall|m: int|
            0 <= m < domains@.len() ==> #[trigger] domains@[m] < floating@.len()),
    ensures
        match gathered_nullities(floating@.len(), summaries@) {
            Err(e) => result == Err::<GaugeSplit, _>(e),
            Ok((cores, nullities)) => match first_below_gauge(nullities, gauge_freedoms(floating@, floating_dof)) {
                Some(c) => result == Err::<GaugeSplit, _>(GaugeSplitError::BelowGaugeDof {
                    component: c as usize,
                    right_nullity: nullities[c] as usize,
                    gauge_dof: gauge_freedoms(floating@, floating_dof)[c] as usize,
                }),
                None => if sum_of(nullities) > usize::MAX {
                    result == Err::<GaugeSplit, _>(GaugeSplitError::TotalOverflow)
                } else if sum_of(nullities) != core_right_nullity {
                    result == Err::<GaugeSplit, _>(GaugeSplitError::TotalMismatch { mapped: sum_of(nullities) as usize, core: core_right_nullity })
                } else {
                    result matches Ok(split) && {
                        &&& split.components@.len() == floating@.len()
                        &&& forall|c: int| 0 <= c < floating@.len() ==> {
                            &&& (#[trigger] split.components@[c]).core_component_indices@ == cores[c]
                            &&& split.components@[c].right_nullity == nullities[c]
                            &&& split.components@[c].gauge_dof == gauge_freedoms(floating@, floating_dof)[c]
                            &&& split.components@[c].internal_mobility == nullities[c] - gauge_freedoms(floating@, floating_dof)[c]
                        }
                        &&& split.right_nullity == core_right_nullity
                        &&& split.gauge_dof == sum_of(gauge_freedoms(floating@, floating_dof))
                        &&& split.internal_mobility == sum_of(nullities) - sum_of(gauge_freedoms(floating@, floating_dof))
                    }
                },
            },
        },
{
    let n = floating.len();
    let mut cores: Vec<Vec<usize>> = Vec::new();
    let mut nullities: Vec<usize> = Vec::new();
    let mut c: usize = 0;
    while c < n
        invariant
            c <= n,
            cores@.len() == c,
            nullities@.len() == c,
            forall|e: int| 0 <= e < c ==> (#[trigger] cores@[e])@.len() == 0,
            forall|e: int| 0 <= e < c ==> #[trigger] nullities@[e] == 0,
        decreases n - c,
    {
        cores.push(Vec::new());
        nullities.push(0);
        c = c + 1;
    }
    let mut k: usize = 0;
    proof {
        let view = cores@.map_values(|v: Vec<usize>| v@);
        assert forall|e: int| 0 <= e < n implies #[trigger] view[e] == Seq::<usize>::empty() by {
            assert(cores@[e]@ =~= Seq::<usize>::empty());
        }
        assert(cores@.map_values(|v: Vec<usize>| v@) =~= Seq::new(n as nat, |c: int| Seq::<usize>::empty()));
        assert(nullities@.map_values(|v: usize| v as int) =~= Seq::new(n as nat, |c: int| 0int));
        assert(summaries@.take(0) =~= Seq::<CoreComponentSummary>::empty());
    }
    while k < summaries.len()
        invariant
            n == floating@.len(),
            k <= summaries@.len(),
            cores@.len() == n,
            nullities@.len() == n,
            forall|q: int| 0 <= q < summaries@.len() ==> ((#[trigger] summaries@[q]).domains matches Some(domains) ==> forall|m: int|
                0 <= m < domains@.len() ==> #[trigger] domains@[m] < floating@.len()),
            gathered_nullities(n as nat, summaries@.take(k as int)) == Ok::<(Seq<Seq<usize>>, Seq<int>), GaugeSplitError>(
                (cores@.map_values(|v: Vec<usize>| v@), nullities@.map_values(|v: usize| v as int)),
            ),
        decreases summaries@.len() - k,
    {
        let ghost prefix = summaries@.take(k as int);
        proof {
            assert(summaries@.take(k + 1).take(k as int) =~= prefix);
            assert(summaries@.take(k + 1)[k as int] == summaries@[k as int]);
            lemma_gathered_rejection_persists(n as nat, summaries@, k + 1);
        }
        let summary = &summaries[k];
        let domains = match &summary.domains {
            None => {
                return Err(GaugeSplitError::Unmapped(k));
            },
            Some(domains) => domains,
        };
        if !names_one_component(domains) {
            proof {
                assert(summaries@.take(k + 1)[k as int].domains == Some(*domains));
            }
            return Err(GaugeSplitError::NotOneComponent(summary.component_index));
        }
        let d = domains[0];
        let r = match summary.right_nullity {
            None => {
                return Err(GaugeSplitError::NoNumericalReport(summary.component_index));
            },
            Some(r) => r,
        };
        proof {
            assert(d < n);
        }
        let total = match nullities[d].checked_add(r) {
            None => {
                return Err(GaugeSplitError::RightNullityOverflow);
            },
            Some(total) => total,
        };
        let ghost old_cores = cores@;
        let ghost old_nullities = nullities@;
        nullities.set(d, total);
        cores[d].push(summary.component_index);
        proof {
            assert(cores@.map_values(|v: Vec<usize>| v@) =~= old_cores.map_values(|v: Vec<usize>| v@).update(d as int, old_cores[d as int]@.push(summary.component_index)));
            assert(nullities@.map_values(|v: usize| v as int) =~= old_nullities.map_values(|v: usize| v as int).update(d as int, old_nullities[d as int] + r));
        }
        k = k + 1;
    }
    proof {
        assert(summaries@.take(summaries@.len() as int) =~= summaries@);
    }
    let ghost nulls = nullities@.map_values(|v: usize| v as int);
    let ghost freedoms = gauge_freedoms(floating@, floating_dof);
    let mut components: Vec<ComponentGaugeSplit> = Vec::new();
    let mut c: usize = 0;
    while c < n
        invariant
            n == floating@.len(),
            c <= n,
            cores@.len() == n,
            nullities@.len() == n,
            nulls == nullities@.map_values(|v: usize| v as int),
            freedoms == gauge_freedoms(floating@, floating_dof),
            gathered_nullities(n as nat, summaries@) == Ok::<(Seq<Seq<usize>>, Seq<int>), GaugeSplitError>((cores@.map_values(|v: Vec<usize>| v@), nulls)),
            components@.len() == c,
            first_below_gauge(nulls.take(c as int), freedoms.take(c as int)) is None,
            forall|e: int| 0 <= e < c ==> {
                &&& (#[trigger] components@[e]).core_component_indices@ == cores@[e]@
                &&& components@[e].right_nullity == nulls[e]
                &&& components@[e].gauge_dof == freedoms[e]
                &&& components@[e].internal_mobility == nulls[e] - freedoms[e]
            },
        decreases n - c,
    {
        proof {
            assert(nulls.take(c + 1).take(c as int) =~= nulls.take(c as int));
            assert(freedoms.take(c + 1).take(c as int) =~= freedoms.take(c as int));
        }
        let gauge_dof: usize = if floating[c] { floating_dof } else { 0 };
        proof {
            assert(freedoms[c as int] == gauge_dof);
            assert(nulls[c as int] == nullities@[c as int]);
            assert(nulls.take(c + 1)[c as int] == nulls[c as int]);
            assert(freedoms.take(c + 1)[c as int] == freedoms[c as int]);
        }
        if nullities[c] < gauge_dof {
            proof {
                assert(first_below_gauge(nulls.take(c + 1), freedoms.take(c + 1)) == Some(c as int));
                lemma_below_gauge_persists(nulls, freedoms, c + 1);
            }
            return Err(GaugeSplitError::BelowGaugeDof { component: c, right_nullity: nullities[c], gauge_dof });
        }
        components.push(ComponentGaugeSplit {
            core_component_indices: cores[c].clone(),
            right_nullity: nullities[c],
            gauge_dof,
            internal_mobility: nullities[c] - gauge_dof,
        });
        c = c + 1;
    }
    proof {
        assert(nulls.take(n as int) =~= nulls);
        assert(freedoms.take(n as int) =~= freedoms);
        lemma_no_below_gauge_covers(nulls, freedoms);
        assert(nulls.take(0) =~= Seq::<int>::empty());
        assert(freedoms.take(0) =~= Seq::<int>::empty());
    }
    let mut sum: usize = 0;
    let mut gauge_sum: usize = 0;
    let mut c: usize = 0;
    while c < n
        invariant
            n == floating@.len(),
            c <= n,
            nullities@.len() == n,
            nulls == nullities@.map_values(|v: usize| v as int),
            freedoms == gauge_freedoms(floating@, floating_dof),
            gathered_nullities(n as nat, summaries@) == Ok::<(Seq<Seq<usize>>, Seq<int>), GaugeSplitError>((cores@.map_values(|v: Vec<usize>| v@), nulls)),
            first_below_gauge(nulls, freedoms) is None,
            components@.len() == n,
            forall|e: int| 0 <= e < n ==> (#[trigger] components@[e]).gauge_dof == freedoms[e] && components@[e].right_nullity == nulls[e],
            forall|e: int| 0 <= e < n ==> freedoms[e] <= #[trigger] nulls[e],
            sum == sum_of(nulls.take(c as int)),
            gauge_sum == sum_of(freedoms.take(c as int)),
            gauge_sum <= sum,
        decreases n - c,
    {
        proof {
            assert(nulls.take(c + 1).drop_last() =~= nulls.take(c as int));
            assert(freedoms.take(c + 1).drop_last() =~= freedoms.take(c as int));
            assert(nulls[c as int] == nullities@[c as int]);
        }
        let next = match sum.checked_add(nullities[c]) {
            None => {
                proof {
                    assert forall|i: int| 0 <= i < nulls.len() implies #[trigger] nulls[i] >= 0 by {}
                    lemma_sum_prefix_bound(nulls, c + 1);
                }
                return Err(GaugeSplitError::TotalOverflow);
            },
            Some(next) => next,
        };
        sum = next;
        gauge_sum = gauge_sum + components[c].gauge_dof;
        c = c + 1;
    }
    proof {
        assert(nulls.take(n as int) =~= nulls);
        assert(freedoms.take(n as int) =~= freedoms);
    }
    if sum != core_right_nullity {
        return Err(GaugeSplitError::TotalMismatch { mapped: sum, core: core_right_nullity });
    }
    Ok(GaugeSplit { components, right_nullity: sum, gauge_dof: gauge_sum, internal_mobility: sum - gauge_sum })
}

/// With no component below its gauge freedom, every right nullity covers it.
proof fn lemma_no_below_gauge_covers(nullities: Seq<int>, freedoms: Seq<int>)
    requires
        nullities.len() == freedoms.len(),
        first_below_gauge(nullities, freedoms) is None,
    ensures
        forall|e: int| 0 <= e < nullities.len() ==> freedoms[e] <= #[trigger] nullities[e],
    decreases nullities.len(),
{
    if nullities.len() > 0 {
        let k = nullities.len() - 1;
        lemma_no_below_gauge_covers(nullities.take(k), freedoms.take(k));
        assert forall|e: int| 0 <= e < nullities.len() implies freedoms[e] <= #[trigger] nullities[e] by {
            if e < k {
                assert(nullities.take(k)[e] == nullities[e]);
                assert(freedoms.take(k)[e] == freedoms[e]);
            }
        }
    }
}

proof fn lemma_gathered_rejection_persists(n: nat, summaries: Seq<CoreComponentSummary>, k: int)
    requires
        0 <= k <= summaries.len(),
    ensures
        gathered_nullities(n, summaries.take(k)) is Err ==> gathered_nullities(n, summaries) == gathered_nullities(n, summaries.take(k)),
    decreases summaries.len() - k,
{
    if k < summaries.len() {
        assert(summaries.take(k + 1).take(k) =~= summaries.take(k));
        lemma_gathered_rejection_persists(n, summaries, k + 1);
    } else {
        assert(summaries.take(k) =~= summaries);
    }
}

proof fn lemma_below_gauge_persists(nullities: Seq<int>, freedoms: Seq<int>, k: int)
    requires
        0 <= k <= nullities.len(),
        nullities.len() == freedoms.len(),
    ensures
        first_below_gauge(nullities.take(k), freedoms.take(k)) is Some ==> first_below_gauge(nullities, freedoms) == first_below_gauge(nullities.take(k), freedoms.take(k)),
    decreases nullities.len() - k,
{
    if k < nullities.len() {
        assert(nullities.take(k + 1).take(k) =~= nullities.take(k));
        assert(freedoms.take(k + 1).take(k) =~= freedoms.take(k));
        lemma_below_gauge_persists(nullities, freedoms, k + 1);
    } else {
        assert(nullities.take(k) =~= nullities);
        assert(freedoms.take(k) =~= freedoms);
    }
}

proof fn lemma_no_below_gauge_extends(nullities: Seq<int>, freedoms: Seq<int>, k: int)
    requires
        0 <= k <= nullities.len(),
        nullities.len() == freedoms.len(),
        first_below_gauge(nullities.take(k), freedoms.take(k)) is None,
    ensures
        first_below_gauge(nullities, freedoms) is None || first_below_gauge(nullities, freedoms)->0 >= k,
    decreases nullities.len() - k,
{
    if k < nullities.len() {
        assert(nullities.take(k + 1).take(k) =~= nullities.take(k));
        assert(freedoms.take(k + 1).take(k) =~= freedoms.take(k));
        if first_below_gauge(nullities.take(k + 1), freedoms.take(k + 1)) is None {
            lemma_no_below_gauge_extends(nullities, freedoms, k + 1);
        } else {
            lemma_below_gauge_persists(nullities, freedoms, k + 1);
        }
    } else {
        assert(nullities.take(k) =~= nullities);
        assert(freedoms.take(k) =~= freedoms);
    }
}

proof fn lemma_sum_prefix_bound(values: Seq<int>, k: int)
    requires
        0 <= k <= values.len(),
        forall|i: int| 0 <= i < values.len() ==> #[trigger] values[i] >= 0,
    ensures
        sum_of(values.take(k)) <= sum_of(values),
    decreases values.len() - k,
{
    if k < values.len() {
        lemma_sum_prefix_bound(values, k + 1);
        assert(values.take(k + 1).drop_last() =~= values.take(k));
    } else {
        assert(values.take(k) =~= values);
    }
}

} // verus!
