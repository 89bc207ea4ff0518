//! Hysteresis latches of spatial branch boundaries.
//!
//! A boundary latch is `Near` once its clearance has dropped to the enter
//! threshold and stays so until the clearance climbs back to the leave
//! threshold. The clearances themselves are floating point; the latch only
//! reads where a clearance stands against the two thresholds, which the caller
//! hands over as a [`SpatialClearanceBand`].

use vstd::prelude::*;
use crate::spatial::{
    SpatialAssemblyError, SpatialBoundaryHysteresisState, SpatialBoundaryObservation,
    SpatialBoundaryTransition, SpatialBranchBoundary,
};

verus! {

/// Where one clearance stands against the enter and leave thresholds.
#[derive(Clone, Copy, Debug, PartialEq, Eq, Structural)]
pub enum SpatialClearanceBand {
    /// At or below the enter clearance.
    Entering,
    /// Above the enter clearance and below the leave clearance.
    Between,
    /// At or above the leave clearance.
    Leaving,
}

/// One boundary reading: the boundary, the band of its clearance and its latch.
#[derive(Clone, Copy, Debug, PartialEq, Eq, Structural)]
pub struct SpatialBoundaryLatch {
    pub boundary: SpatialBranchBoundary,
    pub band: SpatialClearanceBand,
    pub state: SpatialBoundaryHysteresisState,
}

/// One latch transition. `retained` indexes the earlier reading it compares
/// against and `current` the reading whose latch moved.
#[derive(Clone, Copy, Debug, PartialEq, Eq, Structural)]
pub struct SpatialBoundaryLatchEvent {
    pub boundary: SpatialBranchBoundary,
    pub transition: SpatialBoundaryTransition,
    pub observation: SpatialBoundaryObservation,
    pub retained: usize,
    pub current: usize,
}

/// The move of a latch in `state` on a reading in `band`, if it moves.
pub open spec fn latch_step(
    state: SpatialBoundaryHysteresisState,
    band: SpatialClearanceBand,
) -> Option<(SpatialBoundaryTransition, SpatialBoundaryHysteresisState)> {
    match (state, band) {
        (SpatialBoundaryHysteresisState::Clear, SpatialClearanceBand::Entering) => Some(
            (SpatialBoundaryTransition::Entered, SpatialBoundaryHysteresisState::Near),
        ),
        (SpatialBoundaryHysteresisState::Near, SpatialClearanceBand::Leaving) => Some(
            (SpatialBoundaryTransition::Left, SpatialBoundaryHysteresisState::Clear),
        ),
        _ => None,
    }
}

/// `j` is the first earlier reading of `boundary`.
pub open spec fn is_first_reading(previous: Seq<SpatialBoundaryLatch>, boundary: SpatialBranchBoundary, j: int) -> bool {
    &&& 0 <= j < previous.len()
    &&& previous[j].boundary == boundary
    &&& forall|k: int| 0 <= k < j ==> previous[k].boundary != boundary
}

/// Index of the first earlier reading of `boundary`, if there is one.
pub open spec fn retained_index(previous: Seq<SpatialBoundaryLatch>, boundary: SpatialBranchBoundary) -> Option<int> {
    if exists|j: int| is_first_reading(previous, boundary, j) {
        Some(choose|j: int| is_first_reading(previous, boundary, j))
    } else {
        None
    }
}

/// The latch state a reading ends with, given the retained latch it compares
/// against.
pub open spec fn next_state(
    retained: SpatialBoundaryHysteresisState,
    band: SpatialClearanceBand,
) -> SpatialBoundaryHysteresisState {
    match latch_step(retained, band) {
        Some(step) => step.1,
        None => retained,
    }
}

/// A reading after the update: a boundary read before takes over the earlier
/// latch, moved by the new band; a boundary seen for the first time is left as
/// it was.
pub open spec fn updated_latch(previous: Seq<SpatialBoundaryLatch>, latch: SpatialBoundaryLatch) -> SpatialBoundaryLatch {
    match retained_index(previous, latch.boundary) {
        Some(j) => SpatialBoundaryLatch {
            boundary: latch.boundary,
            band: latch.band,
            state: next_state(previous[j].state, latch.band),
        },
        None => latch,
    }
}

/// The event that reading `i` of `current` reports, if its latch moves.
pub open spec fn latch_event(
    previous: Seq<SpatialBoundaryLatch>,
    current: Seq<SpatialBoundaryLatch>,
    observation: SpatialBoundaryObservation,
    i: int,
) -> Option<SpatialBoundaryLatchEvent> {
    match retained_index(previous, current[i].boundary) {
        Some(j) => match latch_step(previous[j].state, current[i].band) {
            Some(step) => Some(
                SpatialBoundaryLatchEvent {
                    boundary: current[i].boundary,
                    transition: step.0,
                    observation,
                    retained: j as usize,
                    current: i as usize,
                },
            ),
            None => None,
        },
        None => None,
    }
}

/// The events of the first `n` readings of `current`, in reading order.
pub open spec fn latch_events(
    previous: Seq<SpatialBoundaryLatch>,
    current: Seq<SpatialBoundaryLatch>,
    observation: SpatialBoundaryObservation,
    n: int,
) -> Seq<SpatialBoundaryLatchEvent>
    decreases n,
{
    if n <= 0 {
        seq![]
    } else {
        latch_events(previous, current, observation, n - 1) + match latch_event(previous, current, observation, n - 1) {
            Some(event) => seq![event],
            None => seq![],
        }
    }
}

proof fn lemma_first_reading_unique(previous: Seq<SpatialBoundaryLatch>, boundary: SpatialBranchBoundary, j: int)
    requires
        is_first_reading(previous, boundary, j),
    ensures
        retained_index(previous, boundary) == Some(j),
{
    let c = choose|c: int| is_first_reading(previous, boundary, c);
    assert(is_first_reading(previous, boundary, c));
    if c < j {
        assert(previous[c].boundary != boundary);
    } else if j < c {
        assert(previous[j].boundary != boundary);
    }
}

/// The first earlier reading of `boundary`, found by a scan from the front.
fn find_retained(previous: &Vec<SpatialBoundaryLatch>, boundary: SpatialBranchBoundary) -> (found: Option<usize>)
    ensures
        match found {
            Some(j) => retained_index(previous@, boundary) == Some(j as int),
            None => retained_index(previous@, boundary) is None,
        },
{
    let mut j: usize = 0;
    while j < previous.len()
        invariant
            j <= previous@.len(),
            forall|k: int| 0 <= k < j ==> previous@[k].boundary != boundary,
        decreases previous@.len() - j,
    {
        if previous[j].boundary == boundary {
            proof {
                lemma_first_reading_unique(previous@, boundary, j as int);
            }
            return Some(j);
        }
        j = j + 1;
    }
    proof {
        assert forall|c: int| !is_first_reading(previous@, boundary, c) by {
            if 0 <= c < previous@.len() {
                assert(previous@[c].boundary != boundary);
            }
        }
    }
    None
}

/// Carries each retained latch over to the new readings and reports the
/// latches that moved.
///
/// A reading whose boundary was read before takes over the first earlier
/// latch of that boundary: a `Clear` latch whose clearance is back at or below
/// the enter threshold becomes `Near` and reports `Entered`; a `Near` latch
/// whose clearance reached the leave threshold becomes `Clear` and reports
/// `Left`; otherwise the earlier latch is kept. A boundary read for the first
/// time keeps its own latch and reports nothing.
pub fn update_spatial_boundary_hysteresis(
    previous: &Vec<SpatialBoundaryLatch>,
    current: &mut Vec<SpatialBoundaryLatch>,
    observation: SpatialBoundaryObservation,
) -> (events: Vec<SpatialBoundaryLatchEvent>)
    ensures
        final(current)@.len() == old(current)@.len(),
        forall|i: int| 0 <= i < old(current)@.len() ==> #[trigger] final(current)@[i] == updated_latch(previous@, old(current)@[i]),
        events@ == latch_events(previous@, old(current)@, observation, old(current)@.len() as int),
{
    let ghost original = current@;
    let mut events: Vec<SpatialBoundaryLatchEvent> = Vec::new();
    let mut i: usize = 0;
    while i < current.len()
        invariant
            current@.len() == original.len(),
            i <= current@.len(),
            forall|k: int| 0 <= k < i ==> #[trigger] current@[k] == updated_latch(previous@, original[k]),
            forall|k: int| i <= k < current@.len() ==> #[trigger] current@[k] == original[k],
            events@ == latch_events(previous@, original, observation, i as int),
        decreases current@.len() - i,
    {
        let latch = current[i];
        match find_retained(previous, latch.boundary) {
            Some(j) => {
                let retained = previous[j];
                let moved: Option<(SpatialBoundaryTransition, SpatialBoundaryHysteresisState)> = match (retained.state, latch.band) {
                    (SpatialBoundaryHysteresisState::Clear, SpatialClearanceBand::Entering) => Some(
                        (SpatialBoundaryTransition::Entered, SpatialBoundaryHysteresisState::Near),
                    ),
                    (SpatialBoundaryHysteresisState::Near, SpatialClearanceBand::Leaving) => Some(
                        (SpatialBoundaryTransition::Left, SpatialBoundaryHysteresisState::Clear),
                    ),
                    _ => None,
                };
                match moved {
                    Some((transition, state)) => {
                        current.set(i, SpatialBoundaryLatch { boundary: latch.boundary, band: latch.band, state });
                        events.push(
                            SpatialBoundaryLatchEvent {
                                boundary: latch.boundary,
                                transition,
                                observation,
                                retained: j,
                                current: i,
                            },
                        );
                    },
                    None => {
                        current.set(i, SpatialBoundaryLatch { boundary: latch.boundary, band: latch.band, state: retained.state });
                    },
                }
            },
            None => {},
        }
        proof {
            let ev = latch_event(previous@, original, observation, i as int);
            assert(latch_events(previous@, original, observation, i + 1) == latch_events(previous@, original, observation, i as int) + match ev {
                Some(event) => seq![event],
                None => Seq::<SpatialBoundaryLatchEvent>::empty(),
            });
        }
        i = i + 1;
    }
    events
}

/// The latch a boundary read for the first time starts with: `Clear` when its
/// clearance is at or above the leave threshold, `Near` otherwise.
pub open spec fn initial_state(band: SpatialClearanceBand) -> SpatialBoundaryHysteresisState {
    if band == SpatialClearanceBand::Leaving {
        SpatialBoundaryHysteresisState::Clear
    } else {
        SpatialBoundaryHysteresisState::Near
    }
}

/// The initial latch of a finite clearance (see [`initial_state`]); a
/// clearance that is not finite is refused.
pub fn initial_spatial_hysteresis(finite: bool, band: SpatialClearanceBand) -> (result: Result<SpatialBoundaryHysteresisState, SpatialAssemblyError>)
    ensures
        !finite ==> (result matches Err(SpatialAssemblyError::IndependentValidation(text))
            && text@ == "spatial branch-boundary clearance is non-finite"@),
        finite ==> result == Ok::<_, SpatialAssemblyError>(initial_state(band)),
{
    if !finite {
        Err(SpatialAssemblyError::IndependentValidation("spatial branch-boundary clearance is non-finite".to_owned()))
    } else {
        match band {
            SpatialClearanceBand::Leaving => Ok(SpatialBoundaryHysteresisState::Clear),
            _ => Ok(SpatialBoundaryHysteresisState::Near),
        }
    }
}

/// A reading inside the hysteresis band never moves a latch: it keeps the
/// retained latch (or its own, when its boundary is new) and reports nothing.
pub proof fn lemma_band_holds_latch(
    previous: Seq<SpatialBoundaryLatch>,
    current: Seq<SpatialBoundaryLatch>,
    observation: SpatialBoundaryObservation,
    i: int,
)
    requires
        0 <= i < current.len(),
        current[i].band == SpatialClearanceBand::Between,
    ensures
        latch_event(previous, current, observation, i) is None,
        updated_latch(previous, current[i]).state == match retained_index(previous, current[i].boundary) {
            Some(j) => previous[j].state,
            None => current[i].state,
        },
{
}

/// An event is reported for a reading exactly when the retained latch flips:
/// `Entered` turns a `Clear` latch `Near`, `Left` turns a `Near` latch `Clear`.
pub proof fn lemma_event_iff_flip(
    previous: Seq<SpatialBoundaryLatch>,
    current: Seq<SpatialBoundaryLatch>,
    observation: SpatialBoundaryObservation,
    i: int,
    j: int,
)
    requires
        0 <= i < current.len() <= usize::MAX,
        previous.len() <= usize::MAX,
        retained_index(previous, current[i].boundary) == Some(j),
    ensures
        latch_event(previous, current, observation, i) is Some
            <==> updated_latch(previous, current[i]).state != previous[j].state,
        latch_event(previous, current, observation, i) matches Some(event) ==> {
            &&& event.transition == SpatialBoundaryTransition::Entered ==> previous[j].state
                == SpatialBoundaryHysteresisState::Clear && updated_latch(previous, current[i]).state
                == SpatialBoundaryHysteresisState::Near
            &&& event.transition == SpatialBoundaryTransition::Left ==> previous[j].state
                == SpatialBoundaryHysteresisState::Near && updated_latch(previous, current[i]).state
                == SpatialBoundaryHysteresisState::Clear
            &&& event.retained == j && event.current == i && event.boundary == current[i].boundary
        },
{
    assert(is_first_reading(previous, current[i].boundary, j));
}

/// After an update, a latch that took over an earlier one is settled: read
/// again in the same band, it would not move.
pub proof fn lemma_updated_latch_settles(previous: Seq<SpatialBoundaryLatch>, latch: SpatialBoundaryLatch)
    requires
        retained_index(previous, latch.boundary) is Some,
    ensures
        latch_step(updated_latch(previous, latch).state, latch.band) is None,
{
}

/// A freshly started latch is settled: read again in its own band, it would
/// not move.
pub proof fn lemma_initial_latch_settles(band: SpatialClearanceBand)
    ensures
        latch_step(initial_state(band), band) is None,
{
}

/// Each reported event comes from one reading, in reading order, and is the
/// event of that reading.
pub proof fn lemma_events_in_reading_order(
    previous: Seq<SpatialBoundaryLatch>,
    current: Seq<SpatialBoundaryLatch>,
    observation: SpatialBoundaryObservation,
    n: int,
)
    requires
        0 <= n <= current.len() <= usize::MAX,
        previous.len() <= usize::MAX,
    ensures
        forall|e: int| 0 <= e < latch_events(previous, current, observation, n).len() ==> {
            let event = #[trigger] latch_events(previous, current, observation, n)[e];
            &&& 0 <= event.current < n
            &&& latch_event(previous, current, observation, event.current as int) == Some(event)
        },
        forall|e: int, f: int| 0 <= e < f < latch_events(previous, current, observation, n).len()
            ==> #[trigger] latch_events(previous, current, observation, n)[e].current
                < #[trigger] latch_events(previous, current, observation, n)[f].current,
    decreases n,
{
    if n > 0 {
        lemma_events_in_reading_order(previous, current, observation, n - 1);
        let before = latch_events(previous, current, observation, n - 1);
        let all = latch_events(previous, current, observation, n);
        match latch_event(previous, current, observation, n - 1) {
            Some(event) => {
                let j = retained_index(previous, current[n - 1].boundary)->0;
                assert(is_first_reading(previous, current[n - 1].boundary, j));
                assert(event.current == n - 1);
                assert(all == before.push(event));
                assert forall|e: int| 0 <= e < all.len() implies {
                    let ev = #[trigger] all[e];
                    &&& 0 <= ev.current < n
                    &&& latch_event(previous, current, observation, ev.current as int) == Some(ev)
                } by {
                    if e < before.len() {
                        assert(all[e] == before[e]);
                    }
                }
                assert forall|e: int, f: int| 0 <= e < f < all.len() implies #[trigger] all[e].current
                    < #[trigger] all[f].current by {
                    if f < before.len() {
                        assert(all[e] == before[e]);
                        assert(all[f] == before[f]);
                    } else {
                        assert(all[e] == before[e]);
                        assert(0 <= before[e].current < n - 1);
                    }
                }
            },
            None => {
                assert(all == before);
            },
        }
    }
}

} // verus!
