//! A simulation session: one board, whether it is running, and the clock
//! readings that pace its generations.

use std::time::{Duration, Instant};
use vstd::prelude::*;
use crate::board::Board;
use crate::rules::{conway_borns, conway_survives};

verus! {

/// The number of columns of a new session's board.
pub const BOARD_WIDTH: usize = 32;

/// The number of rows of a new session's board.
pub const BOARD_HEIGHT: usize = 32;

/// `std::time::Instant`, a reading of the monotonic clock. Its inside is
/// hidden: a reading can be kept, handed on and compared for equality in
/// contracts, and nothing else is known of it.
#[verifier::external_type_specification]
#[verifier::external_body]
pub struct ExInstant(Instant);

/// Reads the monotonic clock with `Instant::now`. Nothing is claimed of the
/// reading: it differs from call to call.
#[verifier::external_body]
fn clock_now() -> (now: Instant) {
    Instant::now()
}

/// The time from `earlier` to `now`, by `Instant::duration_since`, which
/// gives a zero duration where `earlier` is the later of the two. Nothing is
/// claimed of the result.
#[verifier::external_body]
fn elapsed_between(now: &Instant, earlier: &Instant) -> (elapsed: Duration) {
    now.duration_since(*earlier)
}

/// The whole of a duration in nanoseconds, by `Duration::as_nanos`. Nothing
/// is claimed of the result.
#[verifier::external_body]
fn nanoseconds(duration: &Duration) -> (nanos: u128) {
    duration.as_nanos()
}

/// The state of one simulation session.
#[derive(Debug)]
pub struct AppState {
    pub board: Board,
    pub simulating: bool,
    pub simulation_step_duration: Duration,
    pub last_simulation_update: Instant,
}

impl AppState {
    /// A session is well formed when its board is.
    pub open spec fn wf(&self) -> bool {
        self.board.wf()
    }

    /// A paused session on a board of `BOARD_WIDTH` by `BOARD_HEIGHT` live
    /// cells under Conway's rules, which lets at least
    /// `simulation_step_duration` pass between two generations.
    pub fn new(simulation_step_duration: Duration) -> (state: AppState)
        ensures
            state.wf(),
            state.board@.width == BOARD_WIDTH,
            state.board@.height == BOARD_HEIGHT,
            state.board@.cells == Seq::new((BOARD_WIDTH * BOARD_HEIGHT) as nat, |i: int| true),
            state.board@.survive_rules == seq![2usize, 3usize],
            state.board@.born_rules == seq![3usize],
            state.board@.survive() == set![2int, 3int],
            state.board@.born() == set![3int],
            !state.simulating,
            state.simulation_step_duration == simulation_step_duration,
    {
        let survives = conway_survives();
        let borns = conway_borns();
        AppState {
            board: Board::new(BOARD_WIDTH, BOARD_HEIGHT, &survives, &borns),
            simulating: false,
            simulation_step_duration: simulation_step_duration,
            last_simulation_update: clock_now(),
        }
    }

    /// Advances the board by one generation if, by the clock, at least the
    /// step duration has passed since the last generation, and says whether
    /// it did. Whatever the clock reads, the board either moves on by exactly
    /// one generation or stays as it is.
    pub fn advance_simulation(&mut self) -> (advanced: bool)
        requires
            old(self).wf(),
        ensures
            final(self).wf(),
            advanced ==> final(self).board@ == old(self).board@.step(),
            !advanced ==> *final(self) == *old(self),
            final(self).simulating == old(self).simulating,
            final(self).simulation_step_duration == old(self).simulation_step_duration,
    {
        let now = clock_now();
        let duration_since_last_update = elapsed_between(&now, &self.last_simulation_update);
        let elapsed = nanoseconds(&duration_since_last_update);
        let step = nanoseconds(&self.simulation_step_duration);
        self.advance_simulation_at(now, elapsed, step)
    }

    /// Advances the board by one generation if `elapsed` has reached `step`,
    /// both in nanoseconds, and then records `now` as the time of the last
    /// generation. Says whether it did.
    pub fn advance_simulation_at(&mut self, now: Instant, elapsed: u128, step: u128) -> (advanced:
        bool)
        requires
            old(self).wf(),
        ensures
            final(self).wf(),
            advanced == (elapsed >= step),
            advanced ==> final(self).board@ == old(self).board@.step()
                && final(self).last_simulation_update == now,
            !advanced ==> *final(self) == *old(self),
            final(self).simulating == old(self).simulating,
            final(self).simulation_step_duration == old(self).simulation_step_duration,
    {
        if elapsed >= step {
            self.last_simulation_update = now;
            self.board.advance_simulation();
            true
        } else {
            false
        }
    }
}

} // verus!
