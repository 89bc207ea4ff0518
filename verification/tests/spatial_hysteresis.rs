use geosolve_linkage::runtime_ids::{SpatialCoordinateId, SpatialSourceId};
use geosolve_linkage::spatial::{
    SpatialAssemblyError, SpatialBoundaryHysteresisState, SpatialBoundaryObservation,
    SpatialBoundaryTransition, SpatialBranchBoundary,
};
use geosolve_linkage::spatial_hysteresis::{
    initial_spatial_hysteresis, update_spatial_boundary_hysteresis, SpatialBoundaryLatch,
    SpatialBoundaryLatchEvent, SpatialClearanceBand,
};

use SpatialBoundaryHysteresisState::{Clear, Near};
use SpatialClearanceBand::{Between, Entering, Leaving};

fn clock(ordinal: u64) -> SpatialBranchBoundary {
    SpatialBranchBoundary::PrismaticClockRoot { source: SpatialSourceId::new(5, ordinal) }
}

fn cut(winding: i64) -> SpatialBranchBoundary {
    SpatialBranchBoundary::HingePrincipalCut { coordinate: SpatialCoordinateId::new(5, 9), winding }
}

fn latch(boundary: SpatialBranchBoundary, band: SpatialClearanceBand, state: SpatialBoundaryHysteresisState) -> SpatialBoundaryLatch {
    SpatialBoundaryLatch { boundary, band, state }
}

#[test]
fn clear_latch_enters_at_the_enter_threshold() {
    let previous = vec![latch(clock(1), Leaving, Clear)];
    let mut current = vec![latch(clock(1), Entering, Clear)];
    let events = update_spatial_boundary_hysteresis(&previous, &mut current, SpatialBoundaryObservation::PredictorEndpoint);
    assert_eq!(current, vec![latch(clock(1), Entering, Near)]);
    assert_eq!(
        events,
        vec![SpatialBoundaryLatchEvent {
            boundary: clock(1),
            transition: SpatialBoundaryTransition::Entered,
            observation: SpatialBoundaryObservation::PredictorEndpoint,
            retained: 0,
            current: 0,
        }]
    );
}

#[test]
fn near_latch_leaves_at_the_leave_threshold() {
    let previous = vec![latch(cut(0), Entering, Near), latch(clock(2), Between, Near)];
    let mut current = vec![latch(clock(2), Leaving, Near)];
    let events = update_spatial_boundary_hysteresis(&previous, &mut current, SpatialBoundaryObservation::CorrectedPhysicalEndpoint);
    assert_eq!(current, vec![latch(clock(2), Leaving, Clear)]);
    assert_eq!(
        events,
        vec![SpatialBoundaryLatchEvent {
            boundary: clock(2),
            transition: SpatialBoundaryTransition::Left,
            observation: SpatialBoundaryObservation::CorrectedPhysicalEndpoint,
            retained: 1,
            current: 0,
        }]
    );
}

#[test]
fn readings_inside_the_band_keep_the_retained_latch() {
    let previous = vec![latch(clock(1), Entering, Near), latch(clock(2), Leaving, Clear)];
    // The current latches were started afresh; the retained ones win.
    let mut current = vec![latch(clock(1), Between, Clear), latch(clock(2), Between, Near)];
    let events = update_spatial_boundary_hysteresis(&previous, &mut current, SpatialBoundaryObservation::PredictorEndpoint);
    assert!(events.is_empty());
    assert_eq!(current, vec![latch(clock(1), Between, Near), latch(clock(2), Between, Clear)]);
}

#[test]
fn a_near_latch_does_not_enter_again_and_a_clear_one_does_not_leave() {
    let previous = vec![latch(clock(1), Entering, Near), latch(clock(2), Leaving, Clear)];
    let mut current = vec![latch(clock(1), Entering, Clear), latch(clock(2), Leaving, Near)];
    let events = update_spatial_boundary_hysteresis(&previous, &mut current, SpatialBoundaryObservation::PredictorEndpoint);
    assert!(events.is_empty());
    assert_eq!(current, vec![latch(clock(1), Entering, Near), latch(clock(2), Leaving, Clear)]);
}

#[test]
fn new_boundaries_keep_their_own_latch_and_report_nothing() {
    let previous = vec![latch(cut(1), Leaving, Clear)];
    let mut current = vec![latch(cut(2), Entering, Clear), latch(cut(1), Entering, Clear)];
    let events = update_spatial_boundary_hysteresis(&previous, &mut current, SpatialBoundaryObservation::PredictorEndpoint);
    assert_eq!(current, vec![latch(cut(2), Entering, Clear), latch(cut(1), Entering, Near)]);
    assert_eq!(events.len(), 1);
    assert_eq!(events[0].boundary, cut(1));
    assert_eq!(events[0].current, 1);
    assert_eq!(events[0].retained, 0);
}

#[test]
fn the_first_earlier_reading_of_a_boundary_is_retained() {
    let previous = vec![latch(clock(3), Leaving, Clear), latch(clock(3), Entering, Near)];
    let mut current = vec![latch(clock(3), Entering, Near)];
    let events = update_spatial_boundary_hysteresis(&previous, &mut current, SpatialBoundaryObservation::PredictorEndpoint);
    assert_eq!(current, vec![latch(clock(3), Entering, Near)]);
    assert_eq!(events.len(), 1);
    assert_eq!(events[0].retained, 0);
    assert_eq!(events[0].transition, SpatialBoundaryTransition::Entered);
}

#[test]
fn a_second_update_with_the_same_readings_reports_nothing() {
    let previous = vec![latch(clock(1), Leaving, Clear), latch(clock(2), Entering, Near)];
    let mut current = vec![latch(clock(1), Entering, Clear), latch(clock(2), Leaving, Near)];
    let first = update_spatial_boundary_hysteresis(&previous, &mut current, SpatialBoundaryObservation::PredictorEndpoint);
    assert_eq!(first.len(), 2);
    let settled = current.clone();
    let second = update_spatial_boundary_hysteresis(&settled, &mut current, SpatialBoundaryObservation::PredictorEndpoint);
    assert!(second.is_empty());
    assert_eq!(current, settled);
}

#[test]
fn initial_latch_follows_the_leave_threshold() {
    assert_eq!(initial_spatial_hysteresis(true, Leaving), Ok(Clear));
    assert_eq!(initial_spatial_hysteresis(true, Between), Ok(Near));
    assert_eq!(initial_spatial_hysteresis(true, Entering), Ok(Near));
    assert_eq!(
        initial_spatial_hysteresis(false, Leaving),
        Err(SpatialAssemblyError::IndependentValidation("spatial branch-boundary clearance is non-finite".to_owned()))
    );
}
