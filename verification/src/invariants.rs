//! What holds of every session: the invariant that all transitions keep,
//! and the laws of pausing, of the end of the game and of the hard drop.

use vstd::prelude::*;
use crate::board::{lemma_cleared_rows, Grid};
use crate::catalog::PieceKind;
use crate::piece::{
    lemma_drop_distance,
    lemma_moves_keep_fit,
    lemma_soft_drops_reach_hard_drop,
    lemma_spawn_fits_empty_grid,
    PieceView,
};
use crate::rules::lemma_level_progression;
use crate::session::{Intent, Phase, SessionView};

verus! {

impl SessionView {
    /// The session after `count` soft drops in a row.
    pub open spec fn soft_drops(self, count: nat) -> SessionView
        decreases count,
    {
        if count == 0 {
            self
        } else {
            self.soft_drops((count - 1) as nat).apply(Intent::SoftDrop)
        }
    }
}

/// A new game satisfies the invariant, and it is the game that starts from
/// the empty grid with a fresh piece.
pub proof fn lemma_initial_is_valid(active: PieceKind, next: PieceKind)
    ensures
        SessionView::initial(active, next).valid(),
        SessionView::initial(active, next) == SessionView::from_position(
            Grid::empty(),
            PieceView::spawn(active),
            next,
        ),
{
    lemma_spawn_fits_empty_grid(active);
}

/// A game that starts from a given position satisfies the invariant.
pub proof fn lemma_from_position_is_valid(grid: Grid, active: PieceView, next: PieceKind)
    requires
        grid.wf(),
        active.wf(),
    ensures
        SessionView::from_position(grid, active, next).valid(),
{
}

/// Every intent keeps the invariant, and so does a restart.
pub proof fn lemma_intent_keeps_valid(
    session: SessionView,
    intent: Intent,
    active: PieceKind,
    next: PieceKind,
)
    requires
        session.valid(),
    ensures
        session.apply(intent).valid(),
        session.restarted(active, next).valid(),
{
    lemma_initial_is_valid(active, next);
    if session.phase == Phase::Falling {
        lemma_moves_keep_fit(session.active, session.grid, -1, 0);
        lemma_moves_keep_fit(session.active, session.grid, 1, 0);
        lemma_moves_keep_fit(session.active, session.grid, 0, 1);
    }
}

/// Every tick keeps the invariant.
pub proof fn lemma_tick_keeps_valid(session: SessionView, elapsed: nat, drawn: PieceKind)
    requires
        session.valid(),
    ensures
        session.tick(elapsed, drawn).valid(),
{
    if session.lands(elapsed) {
        let stamped = session.grid.stamped(
            session.active.x,
            session.active.y,
            session.active.state(),
            session.active.kind,
        );
        assert(stamped.wf());
        lemma_cleared_rows(stamped);
        lemma_spawn_fits_empty_grid(session.next);
    }
}

/// Score, line count and level never fall, and only a landing changes them
/// or the grid.
pub proof fn lemma_counters_never_fall(
    session: SessionView,
    intent: Intent,
    elapsed: nat,
    drawn: PieceKind,
)
    requires
        session.valid(),
    ensures
        session.tick(elapsed, drawn).score >= session.score,
        session.tick(elapsed, drawn).total_lines >= session.total_lines,
        session.tick(elapsed, drawn).level >= session.level,
        !session.lands(elapsed) ==> session.tick(elapsed, drawn).grid == session.grid
            && session.tick(elapsed, drawn).score == session.score && session.tick(
            elapsed,
            drawn,
        ).total_lines == session.total_lines && session.tick(elapsed, drawn).level
            == session.level,
        session.apply(intent).grid == session.grid,
        session.apply(intent).score == session.score,
        session.apply(intent).total_lines == session.total_lines,
        session.apply(intent).level == session.level,
        session.apply(intent).next == session.next,
{
    if session.lands(elapsed) {
        let after = session.tick(elapsed, drawn);
        lemma_level_progression(session.total_lines, (after.total_lines - session.total_lines) as nat);
    }
}

/// The game is over exactly when the piece that comes into play after a
/// landing has no room on the cleared grid.
pub proof fn lemma_landing_ends_game_without_room(session: SessionView, drawn: PieceKind)
    requires
        session.phase == Phase::Falling,
    ensures
        session.landed(drawn).phase == Phase::GameOver <==> !PieceView::spawn(session.next).fits(
            session.landed(drawn).grid,
        ),
        session.landed(drawn).active == PieceView::spawn(session.next),
        session.landed(drawn).next == drawn,
{
}

/// When the game is over, no intent and no tick changes the session; only a
/// restart does, and it starts a new game.
pub proof fn lemma_game_over_is_final(
    session: SessionView,
    intent: Intent,
    elapsed: nat,
    drawn: PieceKind,
    active: PieceKind,
    next: PieceKind,
)
    requires
        session.phase == Phase::GameOver,
    ensures
        session.apply(intent) == session,
        session.tick(elapsed, drawn) == session,
        !session.lands(elapsed),
        session.restarted(active, next) == SessionView::initial(active, next),
{
}

/// While the game is paused, no tick changes the session, however long, and
/// no intent but the pause toggle does. The toggle resumes play with the
/// clock as it stood.
pub proof fn lemma_pause_freezes(
    session: SessionView,
    intent: Intent,
    elapsed: nat,
    drawn: PieceKind,
)
    requires
        session.phase == Phase::Paused,
    ensures
        session.tick(elapsed, drawn) == session,
        !session.lands(elapsed),
        intent != Intent::TogglePause ==> session.apply(intent) == session,
        session.apply(Intent::TogglePause) == (SessionView { phase: Phase::Falling, ..session }),
        session.apply(Intent::TogglePause).accumulator == session.accumulator,
{
}

/// Pausing a running game and resuming it, with any ticks in between,
/// brings back the session as it was, the clock included.
pub proof fn lemma_pause_round_trip(session: SessionView, elapsed: nat, drawn: PieceKind)
    requires
        session.phase == Phase::Falling,
    ensures
        session.apply(Intent::TogglePause).phase == Phase::Paused,
        session.apply(Intent::TogglePause).tick(elapsed, drawn).apply(Intent::TogglePause)
            == session,
{
}

/// Soft drops move nothing but the active piece.
pub proof fn lemma_soft_drops(session: SessionView, count: nat)
    requires
        session.phase == Phase::Falling,
    ensures
        session.soft_drops(count) == (SessionView {
            active: session.active.moved_down(session.grid, count),
            ..session
        }),
    decreases count,
{
    if count > 0 {
        lemma_soft_drops(session, (count - 1) as nat);
    }
}

/// A hard drop does what soft drops do. After at least as many soft drops
/// as the piece can descend, the piece stands where a hard drop puts it,
/// and the landing that follows gives the same session either way. After a
/// hard drop the next tick lands the piece, whatever time has passed.
pub proof fn lemma_hard_drop_matches_soft_drops(
    session: SessionView,
    count: nat,
    elapsed: nat,
    drawn: PieceKind,
)
    requires
        session.phase == Phase::Falling,
        session.active.wf(),
        count >= session.active.drop_distance(session.grid),
    ensures
        session.soft_drops(count).active == session.apply(Intent::HardDrop).active,
        session.soft_drops(count).grid == session.apply(Intent::HardDrop).grid,
        session.soft_drops(count).landed(drawn) == session.apply(Intent::HardDrop).landed(drawn),
        session.apply(Intent::HardDrop).lands(elapsed),
        session.apply(Intent::HardDrop).tick(elapsed, drawn) == session.apply(
            Intent::HardDrop,
        ).landed(drawn),
        session.soft_drops(count).due(elapsed) ==> session.soft_drops(count).tick(elapsed, drawn)
            == session.apply(Intent::HardDrop).tick(elapsed, drawn),
{
    lemma_soft_drops(session, count);
    lemma_soft_drops_reach_hard_drop(session.active, session.grid, count);
    lemma_drop_distance(session.active, session.grid);
    let rested = session.active.dropped(session.grid);
    assert(rested.shifted(0, 1) == session.active.shifted(
        0,
        session.active.drop_distance(session.grid) as int + 1,
    ));
}

/// A second hard drop changes nothing, and neither does a soft drop after a
/// hard drop: the piece rests.
pub proof fn lemma_hard_drop_is_idempotent(session: SessionView)
    requires
        session.active.wf(),
    ensures
        session.apply(Intent::HardDrop).apply(Intent::HardDrop) == session.apply(Intent::HardDrop),
        session.apply(Intent::HardDrop).apply(Intent::SoftDrop) == session.apply(Intent::HardDrop),
{
    if session.phase == Phase::Falling {
        lemma_drop_distance(session.active, session.grid);
        let rested = session.active.dropped(session.grid);
        assert(rested.shifted(0, 1) == session.active.shifted(
            0,
            session.active.drop_distance(session.grid) as int + 1,
        ));
        assert(rested.shifted(0, 0) == rested);
    }
}

} // verus!
