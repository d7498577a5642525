//! The falling piece and its moves.

use vstd::prelude::*;
use crate::board::{Board, Grid, BOARD_HEIGHT, BOARD_WIDTH};
use crate::catalog::{lemma_catalog_well_formed, offset_in_range, PieceKind, ShapeState, CELLS_PER_PIECE};

verus! {

/// The column at which a new piece appears: one left of the middle.
pub const SPAWN_COLUMN: i32 = 4;

/// The row at which a new piece appears.
pub const SPAWN_ROW: i32 = 0;

/// The mathematical model of a piece: its kind, the index of its rotation
/// state and the position of its anchor.
pub struct PieceView {
    pub kind: PieceKind,
    pub rotation: nat,
    pub x: int,
    pub y: int,
}

impl PieceView {
    /// The rotation index names a rotation state of the kind.
    pub open spec fn wf(self) -> bool {
        self.rotation < self.kind.states().len()
    }

    /// A piece of the given kind as it appears: first rotation state, anchor
    /// at the spawn position.
    pub open spec fn spawn(kind: PieceKind) -> PieceView {
        PieceView { kind, rotation: 0, x: SPAWN_COLUMN as int, y: SPAWN_ROW as int }
    }

    /// The cell offsets of the current rotation state.
    pub open spec fn state(self) -> Seq<(i32, i32)> {
        self.kind.states()[self.rotation as int]
    }

    /// The piece lies wholly on the board and on empty cells.
    pub open spec fn fits(self, grid: Grid) -> bool {
        grid.fits(self.x, self.y, self.state())
    }

    /// The piece with its anchor displaced by `(dx, dy)`, legal or not.
    pub open spec fn shifted(self, dx: int, dy: int) -> PieceView {
        PieceView { x: self.x + dx, y: self.y + dy, ..self }
    }

    /// The piece in its next rotation state, legal or not. After the last
    /// state comes the first.
    pub open spec fn turned(self) -> PieceView {
        PieceView {
            rotation: (self.rotation + 1) % self.kind.states().len(),
            ..self
        }
    }

    /// The piece after an attempt to displace it by `(dx, dy)`: displaced if
    /// it then fits, unchanged otherwise.
    pub open spec fn moved(self, grid: Grid, dx: int, dy: int) -> PieceView {
        if self.shifted(dx, dy).fits(grid) {
            self.shifted(dx, dy)
        } else {
            self
        }
    }

    /// The piece after an attempt to rotate it in place: in its next
    /// rotation state if it then fits, unchanged otherwise.
    pub open spec fn rotated(self, grid: Grid) -> PieceView {
        if self.turned().fits(grid) {
            self.turned()
        } else {
            self
        }
    }

    /// How many rows the piece descends when it is moved down one row at a
    /// time until the next row down would not fit. A piece whose rotation
    /// index names no state does not descend.
    pub open spec fn drop_distance(self, grid: Grid) -> nat
        decreases BOARD_HEIGHT - self.y - self.state()[0].1,
    {
        if self.wf() && self.shifted(0, 1).fits(grid) {
            proof {
                lemma_catalog_well_formed(self.kind);
            }
            1 + self.shifted(0, 1).drop_distance(grid)
        } else {
            0
        }
    }

    /// The piece after `count` attempts to move it down by one row.
    pub open spec fn moved_down(self, grid: Grid, count: nat) -> PieceView
        decreases count,
    {
        if count == 0 {
            self
        } else {
            self.moved_down(grid, (count - 1) as nat).moved(grid, 0, 1)
        }
    }

    /// The piece after `count` rotations that nothing hinders.
    pub open spec fn turned_times(self, count: nat) -> PieceView
        decreases count,
    {
        if count == 0 {
            self
        } else {
            self.turned_times((count - 1) as nat).turned()
        }
    }

    /// The piece at the row where a hard drop leaves it.
    pub open spec fn dropped(self, grid: Grid) -> PieceView {
        self.shifted(0, self.drop_distance(grid) as int)
    }
}

/// A piece: a kind, one of its rotation states and an anchor position. The
/// position need not be a legal one.
#[derive(Clone, Copy, Debug, PartialEq, Eq)]
pub struct Piece {
    kind: PieceKind,
    rotation: usize,
    x: i32,
    y: i32,
}

impl View for Piece {
    type V = PieceView;

    closed spec fn view(&self) -> PieceView {
        PieceView { kind: self.kind, rotation: self.rotation as nat, x: self.x as int, y: self.y as int }
    }
}

impl Piece {
    /// Every piece holds a valid rotation index.
    #[verifier::type_invariant]
    pub open spec fn inv(self) -> bool {
        self@.wf()
    }

    /// A fresh piece of the given kind at the spawn position.
    pub fn spawn(kind: PieceKind) -> (piece: Piece)
        ensures
            piece@ == PieceView::spawn(kind),
    {
        proof {
            lemma_catalog_well_formed(kind);
        }
        Piece { kind, rotation: 0, x: SPAWN_COLUMN, y: SPAWN_ROW }
    }

    /// A piece of the given kind in rotation state `rotation` with its anchor
    /// at column `x` of row `y`, or `None` when the kind has no such state.
    pub fn at(kind: PieceKind, rotation: usize, x: i32, y: i32) -> (piece: Option<Piece>)
        ensures
            match piece {
                Some(p) => rotation < kind.states().len() && p@ == (PieceView {
                    kind,
                    rotation: rotation as nat,
                    x: x as int,
                    y: y as int,
                }),
                None => rotation >= kind.states().len(),
            },
    {
        if rotation < kind.rotation_count() {
            Some(Piece { kind, rotation, x, y })
        } else {
            None
        }
    }

    /// The kind of the piece.
    pub fn kind(&self) -> (kind: PieceKind)
        ensures
            kind == self@.kind,
    {
        self.kind
    }

    /// The index of the current rotation state.
    pub fn rotation(&self) -> (rotation: usize)
        ensures
            rotation == self@.rotation,
            self@.wf(),
    {
        proof {
            use_type_invariant(self);
        }
        self.rotation
    }

    /// The column of the anchor.
    pub fn x(&self) -> (x: i32)
        ensures
            x == self@.x,
    {
        self.x
    }

    /// The row of the anchor.
    pub fn y(&self) -> (y: i32)
        ensures
            y == self@.y,
    {
        self.y
    }

    /// The cell offsets of the current rotation state.
    pub fn shape(&self) -> (state: ShapeState)
        ensures
            state@ == self@.state(),
            self@.wf(),
    {
        proof {
            use_type_invariant(self);
        }
        self.kind.offsets(self.rotation)
    }

    /// The four cells of the piece as columns and rows of the board. A cell
    /// may lie off the board.
    pub fn cells(&self) -> (cells: [(i64, i64); 4])
        ensures
            forall|i: int|
                0 <= i < CELLS_PER_PIECE ==> (#[trigger] cells@[i]) == (
                    (self@.x + self@.state()[i].0) as i64,
                    (self@.y + self@.state()[i].1) as i64,
                ),
    {
        let state = self.shape();
        let x: i64 = self.x as i64;
        let y: i64 = self.y as i64;
        [
            (x + state[0].0 as i64, y + state[0].1 as i64),
            (x + state[1].0 as i64, y + state[1].1 as i64),
            (x + state[2].0 as i64, y + state[2].1 as i64),
            (x + state[3].0 as i64, y + state[3].1 as i64),
        ]
    }

    /// Whether the piece, where it stands, leaves the board or overlaps a
    /// landed block.
    pub fn collides(&self, board: &Board) -> (hit: bool)
        ensures
            hit == !self@.fits(board@),
    {
        let state = self.shape();
        board.collides(self.x, self.y, &state)
    }

    /// Displaces the anchor by `(dx, dy)` if the piece then fits.
    fn try_shift(&mut self, board: &Board, dx: i32, dy: i32) -> (done: bool)
        requires
            -1 <= dx <= 1,
            -1 <= dy <= 1,
        ensures
            done == old(self)@.shifted(dx as int, dy as int).fits(board@),
            final(self)@ == old(self)@.moved(board@, dx as int, dy as int),
    {
        proof {
            use_type_invariant(&*self);
            lemma_catalog_well_formed(self.kind);
        }
        let state = self.shape();
        assert(offset_in_range(self@.state()[0]));
        match (self.x.checked_add(dx), self.y.checked_add(dy)) {
            (Some(nx), Some(ny)) => {
                if board.collides(nx, ny, &state) {
                    false
                } else {
                    self.x = nx;
                    self.y = ny;
                    true
                }
            },
            _ => {
                assert(!board@.free(self.x + dx + state@[0].0, self.y + dy + state@[0].1));
                false
            },
        }
    }

    /// Moves the piece one column to the left if it then fits.
    pub fn move_left(&mut self, board: &Board)
        ensures
            final(self)@ == old(self)@.moved(board@, -1, 0),
    {
        self.try_shift(board, -1, 0);
    }

    /// Moves the piece one column to the right if it then fits.
    pub fn move_right(&mut self, board: &Board)
        ensures
            final(self)@ == old(self)@.moved(board@, 1, 0),
    {
        self.try_shift(board, 1, 0);
    }

    /// Moves the piece one row down if it then fits. Returns whether the
    /// piece rests, that is, whether it could not move.
    pub fn move_down(&mut self, board: &Board) -> (resting: bool)
        ensures
            resting == !old(self)@.shifted(0, 1).fits(board@),
            final(self)@ == old(self)@.moved(board@, 0, 1),
    {
        !self.try_shift(board, 0, 1)
    }

    /// Puts the piece into its next rotation state if it then fits where it
    /// stands. The anchor never moves.
    pub fn rotate(&mut self, board: &Board)
        ensures
            final(self)@ == old(self)@.rotated(board@),
    {
        proof {
            use_type_invariant(&*self);
        }
        let next: usize = (self.rotation + 1) % self.kind.rotation_count();
        let state = self.kind.offsets(next);
        if !board.collides(self.x, self.y, &state) {
            self.rotation = next;
        }
    }

    /// Moves the piece down until the next row down would not fit.
    pub fn hard_drop(&mut self, board: &Board)
        ensures
            final(self)@ == old(self)@.dropped(board@),
    {
        proof {
            use_type_invariant(&*self);
        }
        loop
            invariant
                self@.wf(),
                self@.dropped(board@) == old(self)@.dropped(board@),
            ensures
                self@ == old(self)@.dropped(board@),
            decreases BOARD_HEIGHT - self@.y - self@.state()[0].1,
        {
            proof {
                lemma_catalog_well_formed(self.kind);
            }
            let resting = self.move_down(board);
            if resting {
                break;
            }
        }
    }
}

/// The spawn column is the one left of the middle of the board.
pub proof fn lemma_spawn_column()
    ensures
        SPAWN_COLUMN == BOARD_WIDTH / 2 - 1,
        SPAWN_ROW == 0,
{
}

/// On an empty board a fresh piece of any kind fits.
pub proof fn lemma_spawn_fits_empty_grid(kind: PieceKind)
    ensures
        PieceView::spawn(kind).wf(),
        PieceView::spawn(kind).fits(Grid::empty()),
{
    lemma_catalog_well_formed(kind);
    let piece = PieceView::spawn(kind);
    assert forall|i: int| 0 <= i < piece.state().len() implies Grid::empty().free(
        piece.x + (#[trigger] piece.state()[i]).0,
        piece.y + piece.state()[i].1,
    ) by {
        assert(offset_in_range(kind.states()[0][i]));
    }
}

/// A legal piece stays legal under every move: a shift, a rotation and a
/// hard drop each leave a piece that fits, whether or not they took effect.
pub proof fn lemma_moves_keep_fit(piece: PieceView, grid: Grid, dx: int, dy: int)
    requires
        piece.wf(),
        piece.fits(grid),
    ensures
        piece.moved(grid, dx, dy).wf() && piece.moved(grid, dx, dy).fits(grid),
        piece.rotated(grid).wf() && piece.rotated(grid).fits(grid),
        piece.dropped(grid).wf() && piece.dropped(grid).fits(grid),
{
    lemma_drop_distance(piece, grid);
    assert(piece.shifted(0, 0) == piece);
}

/// The row where a hard drop leaves a piece: every row on the way down fits,
/// and one row further does not. The drop distance is the only distance of
/// which both hold.
pub proof fn lemma_drop_distance(piece: PieceView, grid: Grid)
    requires
        piece.wf(),
    ensures
        forall|rows: int|
            1 <= rows <= piece.drop_distance(grid) ==> (#[trigger] piece.shifted(0, rows)).fits(grid),
        !piece.shifted(0, piece.drop_distance(grid) as int + 1).fits(grid),
        forall|other: int|
            0 <= other && !(#[trigger] piece.shifted(0, other + 1)).fits(grid) && (forall|rows: int|
                1 <= rows <= other ==> (#[trigger] piece.shifted(0, rows)).fits(grid)) ==> other
                == piece.drop_distance(grid),
    decreases BOARD_HEIGHT - piece.y - piece.state()[0].1,
{
    let distance: int = piece.drop_distance(grid) as int;
    let below = piece.shifted(0, 1);
    if below.fits(grid) {
        lemma_catalog_well_formed(piece.kind);
        lemma_drop_distance(below, grid);
        assert forall|rows: int| 1 <= rows <= distance implies (#[trigger] piece.shifted(
            0,
            rows,
        )).fits(grid) by {
            if rows > 1 {
                assert(piece.shifted(0, rows) == below.shifted(0, rows - 1));
            }
        }
        assert(piece.shifted(0, distance + 1) == below.shifted(0, distance));
        assert forall|other: int|
            0 <= other && !(#[trigger] piece.shifted(0, other + 1)).fits(grid) && (forall|rows: int|
                1 <= rows <= other ==> (#[trigger] piece.shifted(0, rows)).fits(
                    grid,
                )) implies other == distance by {
            if other == 0 {
                assert(piece.shifted(0, 1).fits(grid));
            } else {
                assert(below.shifted(0, other) == piece.shifted(0, other + 1));
                assert forall|rows: int| 1 <= rows <= other - 1 implies (#[trigger] below.shifted(
                    0,
                    rows,
                )).fits(grid) by {
                    assert(below.shifted(0, rows) == piece.shifted(0, rows + 1));
                }
            }
        }
    } else {
        assert forall|other: int|
            0 <= other && !(#[trigger] piece.shifted(0, other + 1)).fits(grid) && (forall|rows: int|
                1 <= rows <= other ==> (#[trigger] piece.shifted(0, rows)).fits(
                    grid,
                )) implies other == distance by {
            if other > 0 {
                assert(piece.shifted(0, 1).fits(grid));
            }
        }
    }
}

/// Soft drops reach the row of a hard drop: a piece moved down one row at a
/// time, as often as the hard drop descends, stands where the hard drop
/// leaves it, and every further move down leaves it there.
pub proof fn lemma_soft_drops_reach_hard_drop(piece: PieceView, grid: Grid, count: nat)
    requires
        piece.wf(),
    ensures
        count <= piece.drop_distance(grid) ==> piece.moved_down(grid, count) == piece.shifted(
            0,
            count as int,
        ),
        count >= piece.drop_distance(grid) ==> piece.moved_down(grid, count) == piece.dropped(grid),
    decreases count,
{
    lemma_drop_distance(piece, grid);
    if count > 0 {
        let before = piece.moved_down(grid, (count - 1) as nat);
        lemma_soft_drops_reach_hard_drop(piece, grid, (count - 1) as nat);
        if count <= piece.drop_distance(grid) {
            assert(before.shifted(0, 1) == piece.shifted(0, count as int));
        } else {
            assert(before.shifted(0, 1) == piece.shifted(0, piece.drop_distance(grid) as int + 1));
        }
    } else {
        assert(piece.shifted(0, 0) == piece);
    }
}

/// A rotation that is blocked changes nothing, a piece with a single
/// rotation state is never changed by a rotation, and as many unhindered
/// rotations as the kind has states bring a piece back to where it began.
pub proof fn lemma_rotation(piece: PieceView, grid: Grid)
    requires
        piece.wf(),
    ensures
        !piece.turned().fits(grid) ==> piece.rotated(grid) == piece,
        piece.turned().wf(),
        piece.turned().x == piece.x && piece.turned().y == piece.y,
        piece.kind.states().len() == 1 ==> piece.rotated(grid) == piece,
        piece.turned_times(piece.kind.states().len()) == piece,
{
    lemma_catalog_well_formed(piece.kind);
    let n = piece.kind.states().len();
    reveal_with_fuel(PieceView::turned_times, 5);
    if n == 1 {
        assert(piece.turned() == piece);
    } else if n == 2 {
        assert(piece.turned().turned() == piece);
    } else {
        let once = piece.turned();
        let twice = once.turned();
        let thrice = twice.turned();
        assert(n == 4);
        assert(once == PieceView { rotation: ((piece.rotation + 1) % 4) as nat, ..piece });
        assert(twice == PieceView { rotation: ((once.rotation + 1) % 4) as nat, ..piece });
        assert(thrice == PieceView { rotation: ((twice.rotation + 1) % 4) as nat, ..piece });
        assert(thrice.turned() == PieceView { rotation: ((thrice.rotation + 1) % 4) as nat, ..piece });
    }
}

} // verus!
