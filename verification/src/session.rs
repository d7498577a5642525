//! The game session: board, active and next piece, counters, phase and
//! clock, and the two ways to advance it, by intent and by time.

use vstd::prelude::*;
use crate::board::{Board, Grid};
use crate::catalog::PieceKind;
use crate::invariants::{lemma_initial_is_valid, lemma_intent_keeps_valid};
use crate::piece::{lemma_spawn_fits_empty_grid, Piece, PieceView};
use crate::random::{draw_piece_kind, random_piece_kind};
use crate::rules::{
    award,
    capped,
    drop_interval,
    drop_interval_micros,
    level_for,
    level_for_lines,
    line_clear_score,
};

verus! {

/// The phase of a session.
#[derive(Clone, Copy, Debug, PartialEq, Eq, Structural)]
pub enum Phase {
    /// A piece is falling; time and intents act on it.
    Falling,
    /// Play is suspended; only the pause toggle is heard.
    Paused,
    /// A new piece had no room. Only a restart leaves this phase.
    GameOver,
}

/// What a player can ask for.
#[derive(Clone, Copy, Debug, PartialEq, Eq, Structural)]
pub enum Intent {
    /// Move the piece one column to the left.
    MoveLeft,
    /// Move the piece one column to the right.
    MoveRight,
    /// Move the piece one row down.
    SoftDrop,
    /// Drop the piece to the row where it rests and land it at the next tick.
    HardDrop,
    /// Put the piece into its next rotation state.
    Rotate,
    /// Suspend play, or resume it.
    TogglePause,
    /// Start a new game; heard only when the game is over.
    Restart,
}

/// The mathematical model of a session.
pub struct SessionView {
    /// The landed blocks.
    pub grid: Grid,
    /// The piece in play.
    pub active: PieceView,
    /// The kind of the piece that comes next.
    pub next: PieceKind,
    /// The points scored so far.
    pub score: nat,
    /// The level, from one upwards.
    pub level: nat,
    /// The lines cleared so far.
    pub total_lines: nat,
    /// Falling, paused or over.
    pub phase: Phase,
    /// Microseconds counted since the last automatic descent.
    pub accumulator: nat,
}

impl SessionView {
    /// The start of a game: an empty grid, a piece of kind `active` at the
    /// spawn position, no points, level one.
    pub open spec fn initial(active: PieceKind, next: PieceKind) -> SessionView {
        SessionView {
            grid: Grid::empty(),
            active: PieceView::spawn(active),
            next,
            score: 0,
            level: 1,
            total_lines: 0,
            phase: Phase::Falling,
            accumulator: 0,
        }
    }

    /// A game that starts from a given grid and a given piece. It is over at
    /// once when the piece does not fit.
    pub open spec fn from_position(grid: Grid, active: PieceView, next: PieceKind) -> SessionView {
        SessionView {
            grid,
            active,
            next,
            score: 0,
            level: 1,
            total_lines: 0,
            phase: if active.fits(grid) {
                Phase::Falling
            } else {
                Phase::GameOver
            },
            accumulator: 0,
        }
    }

    /// The invariant of a session: the grid has the size of the board, the
    /// active piece is in one of its rotation states, the counters fit in
    /// 64 bits, the level is the one that belongs to the line count, and
    /// unless the game is over the active piece lies on the board and on
    /// empty cells.
    pub open spec fn valid(self) -> bool {
        &&& self.grid.wf()
        &&& self.active.wf()
        &&& self.score <= u64::MAX
        &&& self.total_lines <= u64::MAX
        &&& self.accumulator <= u64::MAX
        &&& self.level == level_for(self.total_lines)
        &&& self.phase != Phase::GameOver ==> self.active.fits(self.grid)
    }

    /// Whether `intent` starts a new game: a restart is honoured only when
    /// the game is over.
    pub open spec fn restarts(self, intent: Intent) -> bool {
        self.phase == Phase::GameOver && intent == Intent::Restart
    }

    /// The session after `intent`, for every intent that does not start a
    /// new game. A move that is not legal changes nothing. While the game is
    /// paused only the pause toggle is heard, and when it is over nothing is.
    pub open spec fn apply(self, intent: Intent) -> SessionView {
        match self.phase {
            Phase::GameOver => self,
            Phase::Paused => if intent == Intent::TogglePause {
                SessionView { phase: Phase::Falling, ..self }
            } else {
                self
            },
            Phase::Falling => match intent {
                Intent::MoveLeft => SessionView {
                    active: self.active.moved(self.grid, -1, 0),
                    ..self
                },
                Intent::MoveRight => SessionView {
                    active: self.active.moved(self.grid, 1, 0),
                    ..self
                },
                Intent::SoftDrop => SessionView { active: self.active.moved(self.grid, 0, 1), ..self },
                Intent::Rotate => SessionView { active: self.active.rotated(self.grid), ..self },
                Intent::HardDrop => SessionView {
                    active: self.active.dropped(self.grid),
                    accumulator: drop_interval(self.level),
                    ..self
                },
                Intent::TogglePause => SessionView { phase: Phase::Paused, ..self },
                Intent::Restart => self,
            },
        }
    }

    /// The session after a restart with the two freshly drawn kinds: a new
    /// game when this one is over, the same session otherwise.
    pub open spec fn restarted(self, active: PieceKind, next: PieceKind) -> SessionView {
        if self.phase == Phase::GameOver {
            Self::initial(active, next)
        } else {
            self
        }
    }

    /// Whether a tick after `elapsed` microseconds reaches the drop interval.
    pub open spec fn due(self, elapsed: nat) -> bool {
        self.phase == Phase::Falling && self.accumulator + elapsed >= drop_interval(self.level)
    }

    /// Whether a tick after `elapsed` microseconds lands the active piece:
    /// the drop interval is reached and the piece cannot move down.
    pub open spec fn lands(self, elapsed: nat) -> bool {
        self.due(elapsed) && !self.active.shifted(0, 1).fits(self.grid)
    }

    /// The session after the active piece has landed and `drawn` has been
    /// drawn as the kind after next. The piece is written into the grid, the
    /// complete rows are cleared and counted, points are awarded at the
    /// level held so far, the level follows the new line count, the next
    /// piece comes into play, and the game is over when it has no room.
    pub open spec fn landed(self, drawn: PieceKind) -> SessionView {
        let stamped = self.grid.stamped(
            self.active.x,
            self.active.y,
            self.active.state(),
            self.active.kind,
        );
        let lines = stamped.complete_row_count();
        let grid = stamped.cleared();
        let total_lines = capped(self.total_lines + lines);
        let active = PieceView::spawn(self.next);
        SessionView {
            grid,
            active,
            next: drawn,
            score: capped(self.score + award(lines, self.level)),
            level: level_for(total_lines),
            total_lines,
            phase: if active.fits(grid) {
                self.phase
            } else {
                Phase::GameOver
            },
            accumulator: 0,
        }
    }

    /// The session after a tick of `elapsed` microseconds, where `drawn` is
    /// the kind drawn in case the active piece lands. Outside the falling
    /// phase nothing happens. Before the drop interval is reached only the
    /// clock advances. When it is reached the clock starts again and the
    /// piece moves down one row, or lands if it cannot.
    pub open spec fn tick(self, elapsed: nat, drawn: PieceKind) -> SessionView {
        if self.phase != Phase::Falling {
            self
        } else if !self.due(elapsed) {
            SessionView { accumulator: self.accumulator + elapsed, ..self }
        } else if self.active.shifted(0, 1).fits(self.grid) {
            SessionView { active: self.active.shifted(0, 1), accumulator: 0, ..self }
        } else {
            self.landed(drawn)
        }
    }
}

/// A game session. It owns its board and pieces.
#[derive(Debug, PartialEq, Eq)]
pub struct GameSession {
    board: Board,
    active: Piece,
    next: PieceKind,
    score: u64,
    level: u64,
    total_lines: u64,
    phase: Phase,
    accumulator: u64,
}

impl View for GameSession {
    type V = SessionView;

    closed spec fn view(&self) -> SessionView {
        SessionView {
            grid: self.board@,
            active: self.active@,
            next: self.next,
            score: self.score as nat,
            level: self.level as nat,
            total_lines: self.total_lines as nat,
            phase: self.phase,
            accumulator: self.accumulator as nat,
        }
    }
}

impl Clone for GameSession {
    fn clone(&self) -> (copy: GameSession)
        ensures
            copy@ == self@,
    {
        proof {
            use_type_invariant(self);
        }
        GameSession {
            board: self.board.clone(),
            active: self.active,
            next: self.next,
            score: self.score,
            level: self.level,
            total_lines: self.total_lines,
            phase: self.phase,
            accumulator: self.accumulator,
        }
    }
}

/// Starts a game with two kinds drawn at random.
pub fn new_session() -> (session: GameSession)
    ensures
        exists|active: PieceKind, next: PieceKind|
            session@ == #[trigger] SessionView::initial(active, next),
        session@.valid(),
{
    let mut rng = rand::thread_rng();
    let active = draw_piece_kind(&mut rng);
    let next = draw_piece_kind(&mut rng);
    GameSession::with_pieces(active, next)
}

impl GameSession {
    /// Every session satisfies the invariant of its model.
    #[verifier::type_invariant]
    pub open spec fn inv(self) -> bool {
        self@.valid()
    }

    /// Starts a game with a piece of kind `active` in play and `next` to
    /// follow.
    pub fn with_pieces(active: PieceKind, next: PieceKind) -> (session: GameSession)
        ensures
            session@ == SessionView::initial(active, next),
            session@.valid(),
    {
        proof {
            lemma_initial_is_valid(active, next);
        }
        GameSession {
            board: Board::new(),
            active: Piece::spawn(active),
            next,
            score: 0,
            level: 1,
            total_lines: 0,
            phase: Phase::Falling,
            accumulator: 0,
        }
    }

    /// Starts a game from a given board with a given piece in play. The game
    /// is over at once when the piece does not fit.
    pub fn from_position(board: Board, active: Piece, next: PieceKind) -> (session: GameSession)
        ensures
            session@ == SessionView::from_position(board@, active@, next),
            session@.valid(),
    {
        proof {
            board.lemma_view_wf();
            use_type_invariant(&active);
        }
        let phase = if active.collides(&board) {
            Phase::GameOver
        } else {
            Phase::Falling
        };
        GameSession { board, active, next, score: 0, level: 1, total_lines: 0, phase, accumulator: 0 }
    }

    /// The board with the landed blocks.
    pub fn board(&self) -> (board: &Board)
        ensures
            board@ == self@.grid,
    {
        &self.board
    }

    /// The piece in play. Unless the game is over it lies on the board and
    /// on empty cells.
    pub fn active_piece(&self) -> (piece: Piece)
        ensures
            piece@ == self@.active,
            piece@.wf(),
            self@.phase != Phase::GameOver ==> piece@.fits(self@.grid),
    {
        proof {
            use_type_invariant(self);
        }
        self.active
    }

    /// The kind of the piece that comes next.
    pub fn next_kind(&self) -> (kind: PieceKind)
        ensures
            kind == self@.next,
    {
        self.next
    }

    /// The piece that comes next, as it will appear.
    pub fn next_piece(&self) -> (piece: Piece)
        ensures
            piece@ == PieceView::spawn(self@.next),
    {
        Piece::spawn(self.next)
    }

    /// The points scored so far.
    pub fn score(&self) -> (score: u64)
        ensures
            score == self@.score,
    {
        self.score
    }

    /// The current level: one more than the number of full tens of lines
    /// cleared.
    pub fn level(&self) -> (level: u64)
        ensures
            level == self@.level,
            level == level_for(self@.total_lines),
    {
        proof {
            use_type_invariant(self);
        }
        self.level
    }

    /// The number of lines cleared so far.
    pub fn total_lines_cleared(&self) -> (lines: u64)
        ensures
            lines == self@.total_lines,
    {
        self.total_lines
    }

    /// The phase of the session.
    pub fn phase(&self) -> (phase: Phase)
        ensures
            phase == self@.phase,
    {
        self.phase
    }

    /// Whether the game is over.
    pub fn is_over(&self) -> (over: bool)
        ensures
            over == (self@.phase == Phase::GameOver),
    {
        self.phase == Phase::GameOver
    }

    /// Whether the game is paused.
    pub fn is_paused(&self) -> (paused: bool)
        ensures
            paused == (self@.phase == Phase::Paused),
    {
        self.phase == Phase::Paused
    }

    /// The microseconds counted since the last automatic descent.
    pub fn elapsed_since_last_drop(&self) -> (micros: u64)
        ensures
            micros == self@.accumulator,
    {
        self.accumulator
    }

    /// Applies an intent that does not need fresh pieces.
    fn apply_move(&mut self, intent: Intent)
        requires
            !old(self)@.restarts(intent),
        ensures
            final(self)@ == old(self)@.apply(intent),
    {
        proof {
            use_type_invariant(&*self);
            lemma_intent_keeps_valid(self@, intent, self.next, self.next);
        }
        match self.phase {
            Phase::GameOver => {},
            Phase::Paused => {
                if intent == Intent::TogglePause {
                    self.phase = Phase::Falling;
                }
            },
            Phase::Falling => {
                let mut piece = self.active;
                match intent {
                    Intent::MoveLeft => {
                        piece.move_left(&self.board);
                        self.active = piece;
                    },
                    Intent::MoveRight => {
                        piece.move_right(&self.board);
                        self.active = piece;
                    },
                    Intent::SoftDrop => {
                        piece.move_down(&self.board);
                        self.active = piece;
                    },
                    Intent::Rotate => {
                        piece.rotate(&self.board);
                        self.active = piece;
                    },
                    Intent::HardDrop => {
                        piece.hard_drop(&self.board);
                        self.active = piece;
                        self.accumulator = drop_interval_micros(self.level);
                    },
                    Intent::TogglePause => {
                        self.phase = Phase::Paused;
                    },
                    Intent::Restart => {},
                }
            },
        }
    }

    /// Starts a new game with the two given kinds if this one is over, and
    /// does nothing otherwise.
    pub fn restart_with(&mut self, active: PieceKind, next: PieceKind)
        ensures
            final(self)@ == old(self)@.restarted(active, next),
            final(self)@.valid(),
    {
        proof {
            use_type_invariant(&*self);
        }
        if self.phase == Phase::GameOver {
            *self = GameSession::with_pieces(active, next);
        }
    }

    /// Applies one intent. A move that is not legal changes nothing, and no
    /// intent fails. A restart of a finished game draws two kinds at random.
    pub fn apply_intent(&mut self, intent: Intent)
        ensures
            !old(self)@.restarts(intent) ==> final(self)@ == old(self)@.apply(intent),
            old(self)@.restarts(intent) ==> exists|active: PieceKind, next: PieceKind|
                final(self)@ == #[trigger] SessionView::initial(active, next),
            final(self)@.valid(),
    {
        if intent == Intent::Restart && self.phase == Phase::GameOver {
            let mut rng = rand::thread_rng();
            let active = draw_piece_kind(&mut rng);
            let next = draw_piece_kind(&mut rng);
            self.restart_with(active, next);
        } else {
            self.apply_move(intent);
        }
        proof {
            use_type_invariant(&*self);
        }
    }

    /// Runs the part of a tick that needs no fresh piece. Returns whether the
    /// active piece has to land, and in that case leaves the session as it
    /// was.
    fn advance(&mut self, elapsed_micros: u64) -> (resting: bool)
        ensures
            resting == old(self)@.lands(elapsed_micros as nat),
            resting ==> final(self)@ == old(self)@,
            !resting ==> forall|drawn: PieceKind|
                final(self)@ == #[trigger] old(self)@.tick(elapsed_micros as nat, drawn),
    {
        proof {
            use_type_invariant(&*self);
        }
        if self.phase != Phase::Falling {
            return false;
        }
        let interval: u64 = drop_interval_micros(self.level);
        let reached: u64 = self.accumulator.saturating_add(elapsed_micros);
        if reached < interval {
            self.accumulator = reached;
            return false;
        }
        let mut lower = self.active;
        if lower.move_down(&self.board) {
            true
        } else {
            self.active = lower;
            self.accumulator = 0;
            false
        }
    }

    /// Lands the active piece and brings the next one into play.
    fn land(&mut self, drawn: PieceKind)
        ensures
            final(self)@ == old(self)@.landed(drawn),
    {
        let mut board = self.board.clone();
        board.place(&self.active);
        let lines: usize = board.clear_completed_rows();
        let total_lines: u64 = self.total_lines.saturating_add(lines as u64);
        let score: u64 = self.score.saturating_add(line_clear_score(lines, self.level));
        let active = Piece::spawn(self.next);
        let phase = if active.collides(&board) {
            Phase::GameOver
        } else {
            self.phase
        };
        proof {
            board.lemma_view_wf();
            lemma_spawn_fits_empty_grid(self.next);
        }
        *self = GameSession {
            board,
            active,
            next: drawn,
            score,
            level: level_for_lines(total_lines),
            total_lines,
            phase,
            accumulator: 0,
        };
    }

    /// Advances the clock by `elapsed_micros` microseconds, with `drawn` as
    /// the kind to draw if the active piece lands. Returns whether it
    /// landed.
    pub fn tick_with(&mut self, elapsed_micros: u64, drawn: PieceKind) -> (landed: bool)
        ensures
            landed == old(self)@.lands(elapsed_micros as nat),
            final(self)@ == old(self)@.tick(elapsed_micros as nat, drawn),
            final(self)@.valid(),
    {
        let landed = if self.advance(elapsed_micros) {
            self.land(drawn);
            true
        } else {
            false
        };
        proof {
            use_type_invariant(&*self);
        }
        landed
    }

    /// Advances the clock by `elapsed_micros` microseconds. When the active
    /// piece lands, the kind after next is drawn at random. Returns whether
    /// the piece landed.
    pub fn tick(&mut self, elapsed_micros: u64) -> (landed: bool)
        ensures
            landed == old(self)@.lands(elapsed_micros as nat),
            exists|drawn: PieceKind|
                final(self)@ == #[trigger] old(self)@.tick(elapsed_micros as nat, drawn),
            final(self)@.valid(),
    {
        let landed = if self.advance(elapsed_micros) {
            let drawn = random_piece_kind();
            self.land(drawn);
            assert(self@ == old(self)@.tick(elapsed_micros as nat, drawn));
            true
        } else {
            assert(self@ == old(self)@.tick(elapsed_micros as nat, PieceKind::I));
            false
        };
        proof {
            use_type_invariant(&*self);
        }
        landed
    }
}

} // verus!
