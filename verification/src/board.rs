//! The 10 x 20 grid of landed blocks.

use vstd::prelude::*;
use crate::catalog::{PieceKind, ShapeState, CELLS_PER_PIECE};
use crate::piece::Piece;

verus! {

/// Number of columns of the board.
pub const BOARD_WIDTH: usize = 10;

/// Number of rows of the board. Row 0 is the top row.
pub const BOARD_HEIGHT: usize = 20;

/// The mathematical model of a board: its rows from top to bottom, each a
/// sequence of cells from left to right. A cell is `None` when empty and
/// `Some(kind)` when a landed block of that kind occupies it.
pub struct Grid {
    pub rows: Seq<Seq<Option<PieceKind>>>,
}

impl Grid {
    /// The grid has `BOARD_HEIGHT` rows of `BOARD_WIDTH` cells each.
    pub open spec fn wf(self) -> bool {
        &&& self.rows.len() == BOARD_HEIGHT
        &&& forall|y: int| 0 <= y < BOARD_HEIGHT ==> (#[trigger] self.rows[y]).len() == BOARD_WIDTH
    }

    /// Column `x` and row `y` name a cell of the board.
    pub open spec fn in_bounds(x: int, y: int) -> bool {
        0 <= x < BOARD_WIDTH && 0 <= y < BOARD_HEIGHT
    }

    /// The cell at column `x` of row `y` lies on the board and holds a block.
    pub open spec fn occupied(self, x: int, y: int) -> bool {
        Self::in_bounds(x, y) && self.rows[y][x] is Some
    }

    /// The cell at column `x` of row `y` lies on the board and is empty.
    pub open spec fn free(self, x: int, y: int) -> bool {
        Self::in_bounds(x, y) && self.rows[y][x] is None
    }

    /// Every cell of `state`, anchored at `(x, y)`, lies on the board and is
    /// empty.
    pub open spec fn fits(self, x: int, y: int, state: Seq<(i32, i32)>) -> bool {
        forall|i: int| 0 <= i < state.len() ==> self.free(x + (#[trigger] state[i]).0, y + state[i].1)
    }

    /// Some cell of `state`, anchored at `(x, y)`, leaves the board or lands
    /// on a block.
    pub open spec fn collides(self, x: int, y: int, state: Seq<(i32, i32)>) -> bool {
        !self.fits(x, y, state)
    }

    /// The grid without any block.
    pub open spec fn empty() -> Grid {
        Grid {
            rows: Seq::new(BOARD_HEIGHT as nat, |y: int| Seq::new(BOARD_WIDTH as nat, |x: int| None)),
        }
    }

    /// Whether the shape `state`, anchored at `(x, y)`, has a cell at column
    /// `cx` of row `cy`.
    pub open spec fn covers(x: int, y: int, state: Seq<(i32, i32)>, cx: int, cy: int) -> bool {
        exists|i: int| 0 <= i < state.len() && cx == x + (#[trigger] state[i]).0 && cy == y + state[i].1
    }

    /// The grid after the cells of the shape `state`, anchored at `(x, y)`,
    /// are filled with blocks of `kind`. Cells of the shape that lie off the
    /// board are left out.
    pub open spec fn stamped(self, x: int, y: int, state: Seq<(i32, i32)>, kind: PieceKind) -> Grid {
        Grid {
            rows: Seq::new(
                BOARD_HEIGHT as nat,
                |cy: int|
                    Seq::new(
                        BOARD_WIDTH as nat,
                        |cx: int|
                            if Self::covers(x, y, state, cx, cy) {
                                Some(kind)
                            } else {
                                self.rows[cy][cx]
                            },
                    ),
            ),
        }
    }

    /// A row without any block.
    pub open spec fn empty_row() -> Seq<Option<PieceKind>> {
        Seq::new(BOARD_WIDTH as nat, |x: int| None)
    }

    /// `count` rows without any block.
    pub open spec fn empty_rows(count: nat) -> Seq<Seq<Option<PieceKind>>> {
        Seq::new(count, |y: int| Self::empty_row())
    }

    /// Every cell of the row holds a block.
    pub open spec fn row_complete(row: Seq<Option<PieceKind>>) -> bool {
        forall|x: int| 0 <= x < row.len() ==> (#[trigger] row[x]) is Some
    }

    /// The test that a row passes when it is not complete.
    pub open spec fn survives() -> spec_fn(Seq<Option<PieceKind>>) -> bool {
        |row: Seq<Option<PieceKind>>| !Self::row_complete(row)
    }

    /// The rows that are not complete, in their order from top to bottom.
    pub open spec fn surviving_rows(self) -> Seq<Seq<Option<PieceKind>>> {
        self.rows.filter(Self::survives())
    }

    /// The test that a row passes when it is complete.
    pub open spec fn completes() -> spec_fn(Seq<Option<PieceKind>>) -> bool {
        |row: Seq<Option<PieceKind>>| Self::row_complete(row)
    }

    /// The number of complete rows.
    pub open spec fn complete_row_count(self) -> nat {
        self.rows.filter(Self::completes()).len()
    }

    /// The grid after its complete rows are taken out: the rows that are not
    /// complete keep their order and sink to the bottom, and as many empty
    /// rows as were taken out fill the top.
    pub open spec fn cleared(self) -> Grid {
        Grid { rows: Self::empty_rows(self.complete_row_count()) + self.surviving_rows() }
    }

    /// The grid after the row with index `row` is taken out: the rows above
    /// it move down by one and an empty row becomes the top row.
    pub open spec fn without_row(self, row: int) -> Grid {
        Grid { rows: seq![Self::empty_row()] + self.rows.remove(row) }
    }

    /// The grid with the cell at `(x, y)` replaced by `cell`; unchanged when
    /// `(x, y)` is off the board.
    pub open spec fn with_cell(self, x: int, y: int, cell: Option<PieceKind>) -> Grid {
        if Self::in_bounds(x, y) {
            Grid { rows: self.rows.update(y, self.rows[y].update(x, cell)) }
        } else {
            self
        }
    }
}

/// The board: a grid of fixed size that persists between pieces.
#[derive(Debug, PartialEq, Eq)]
pub struct Board {
    rows: [[Option<PieceKind>; BOARD_WIDTH]; BOARD_HEIGHT],
}

impl View for Board {
    type V = Grid;

    closed spec fn view(&self) -> Grid {
        Grid { rows: Seq::new(BOARD_HEIGHT as nat, |y: int| self.rows@[y]@) }
    }
}

impl Clone for Board {
    fn clone(&self) -> (copy: Board)
        ensures
            copy@ == self@,
    {
        Board { rows: self.rows }
    }
}

impl Board {
    /// The model of every board is a well-formed grid.
    pub proof fn lemma_view_wf(&self)
        ensures
            self@.wf(),
    {
    }

    /// An empty board.
    pub fn new() -> (board: Board)
        ensures
            board@ == Grid::empty(),
    {
        let board = Board { rows: [[None; BOARD_WIDTH]; BOARD_HEIGHT] };
        assert(board@.rows =~~= Grid::empty().rows);
        board
    }

    /// The content of the cell at column `x` of row `y`; `None` also when
    /// `(x, y)` is off the board.
    pub fn cell(&self, x: usize, y: usize) -> (content: Option<PieceKind>)
        ensures
            Grid::in_bounds(x as int, y as int) ==> content == self@.rows[y as int][x as int],
            !Grid::in_bounds(x as int, y as int) ==> content is None,
    {
        if x < BOARD_WIDTH && y < BOARD_HEIGHT {
            self.rows[y][x]
        } else {
            None
        }
    }

    /// Whether a block occupies the cell at column `x` of row `y`. A cell off
    /// the board is not occupied.
    pub fn is_occupied(&self, x: i32, y: i32) -> (occupied: bool)
        ensures
            occupied == self@.occupied(x as int, y as int),
    {
        if 0 <= x && x < BOARD_WIDTH as i32 && 0 <= y && y < BOARD_HEIGHT as i32 {
            self.rows[y as usize][x as usize].is_some()
        } else {
            false
        }
    }

    /// Puts `content` into the cell at column `x` of row `y`. Does nothing
    /// when `(x, y)` is off the board.
    pub fn set_cell(&mut self, x: usize, y: usize, content: Option<PieceKind>)
        ensures
            final(self)@ == old(self)@.with_cell(x as int, y as int, content),
    {
        if x < BOARD_WIDTH && y < BOARD_HEIGHT {
            self.rows[y][x] = content;
            assert(self@.rows =~~= old(self)@.with_cell(x as int, y as int, content).rows);
        }
    }

    /// Whether the shape `state`, anchored at column `x` of row `y`, leaves
    /// the board or overlaps a landed block.
    pub fn collides(&self, x: i32, y: i32, state: &ShapeState) -> (hit: bool)
        ensures
            hit == self@.collides(x as int, y as int, state@),
            !hit ==> forall|i: int|
                0 <= i < CELLS_PER_PIECE ==> {
                    let cx = x + (#[trigger] state@[i]).0;
                    let cy = y + state@[i].1;
                    Grid::in_bounds(cx, cy) && self@.rows[cy][cx] is None
                },
    {
        let mut i: usize = 0;
        while i < CELLS_PER_PIECE
            invariant
                i <= CELLS_PER_PIECE,
                forall|j: int| 0 <= j < i ==> self@.free(x + (#[trigger] state@[j]).0, y + state@[j].1),
            decreases CELLS_PER_PIECE - i,
        {
            let (dx, dy) = state[i];
            let cx: i64 = x as i64 + dx as i64;
            let cy: i64 = y as i64 + dy as i64;
            if cx < 0 || cx >= BOARD_WIDTH as i64 || cy < 0 || cy >= BOARD_HEIGHT as i64 {
                return true;
            }
            if self.rows[cy as usize][cx as usize].is_some() {
                return true;
            }
            i += 1;
        }
        false
    }

    /// Writes the four cells of `piece` into the grid, tagged with the kind
    /// of the piece. A cell of the piece that lies off the board is skipped.
    /// Meant for a piece that has come to rest.
    pub fn place(&mut self, piece: &Piece)
        ensures
            final(self)@ == old(self)@.stamped(piece@.x, piece@.y, piece@.state(), piece@.kind),
    {
        let state = piece.shape();
        let kind = piece.kind();
        let x: i32 = piece.x();
        let y: i32 = piece.y();
        let mut i: usize = 0;
        assert(self@.rows =~~= old(self)@.stamped(x as int, y as int, state@.take(0), kind).rows);
        while i < CELLS_PER_PIECE
            invariant
                i <= CELLS_PER_PIECE,
                self@ == old(self)@.stamped(x as int, y as int, state@.take(i as int), kind),
            decreases CELLS_PER_PIECE - i,
        {
            let ghost before = self@;
            let (dx, dy) = state[i];
            let cx: i64 = x as i64 + dx as i64;
            let cy: i64 = y as i64 + dy as i64;
            if 0 <= cx && cx < BOARD_WIDTH as i64 && 0 <= cy && cy < BOARD_HEIGHT as i64 {
                self.rows[cy as usize][cx as usize] = Some(kind);
            }
            proof {
                let done = state@.take(i as int);
                let more = state@.take(i + 1);
                let target = old(self)@.stamped(x as int, y as int, more, kind);
                assert(self@.rows =~~= before.with_cell(cx as int, cy as int, Some(kind)).rows);
                assert forall|py: int, px: int| Grid::in_bounds(px, py) implies self@.rows[py][px]
                    == target.rows[py][px] by {
                    let in_more = Grid::covers(x as int, y as int, more, px, py);
                    let in_done = Grid::covers(x as int, y as int, done, px, py);
                    if in_more {
                        let j = choose|j: int|
                            0 <= j < more.len() && px == x + (#[trigger] more[j]).0 && py == y
                                + more[j].1;
                        if j < i {
                            assert(done[j] == more[j]);
                            assert(in_done);
                        } else {
                            assert(more[j] == state@[i as int]);
                            assert(px == cx && py == cy);
                        }
                    }
                    if in_done {
                        let j = choose|j: int|
                            0 <= j < done.len() && px == x + (#[trigger] done[j]).0 && py == y
                                + done[j].1;
                        assert(more[j] == done[j]);
                        assert(in_more);
                    }
                    if px == cx && py == cy {
                        assert(more[i as int] == state@[i as int]);
                        assert(in_more);
                    }
                }
                assert(self@.rows =~~= target.rows);
            }
            i += 1;
        }
        assert(state@.take(CELLS_PER_PIECE as int) =~= state@);
    }

    /// Whether every cell of row `y` holds a block.
    fn row_is_complete(&self, y: usize) -> (complete: bool)
        requires
            y < BOARD_HEIGHT,
        ensures
            complete == Grid::row_complete(self@.rows[y as int]),
    {
        let mut x: usize = 0;
        while x < BOARD_WIDTH
            invariant
                x <= BOARD_WIDTH,
                y < BOARD_HEIGHT,
                forall|j: int| 0 <= j < x ==> (#[trigger] self@.rows[y as int][j]) is Some,
            decreases BOARD_WIDTH - x,
        {
            if self.rows[y][x].is_none() {
                return false;
            }
            x += 1;
        }
        true
    }

    /// Takes out row `row`: every row above it moves down by one and the top
    /// row becomes empty.
    fn remove_row(&mut self, row: usize)
        requires
            row < BOARD_HEIGHT,
        ensures
            final(self)@ == old(self)@.without_row(row as int),
    {
        let mut y: usize = row;
        while y > 0
            invariant
                y <= row < BOARD_HEIGHT,
                forall|j: int| 0 <= j <= y ==> (#[trigger] self.rows@[j]) == old(self).rows@[j],
                forall|j: int| y < j <= row ==> (#[trigger] self.rows@[j]) == old(self).rows@[j - 1],
                forall|j: int|
                    row < j < BOARD_HEIGHT ==> (#[trigger] self.rows@[j]) == old(self).rows@[j],
            decreases y,
        {
            self.rows[y] = self.rows[y - 1];
            y -= 1;
        }
        self.rows[0] = [None; BOARD_WIDTH];
        proof {
            let target = old(self)@.without_row(row as int);
            assert(self@.rows[0] =~= Grid::empty_row());
            assert forall|j: int| 0 <= j < BOARD_HEIGHT implies self@.rows[j] == target.rows[j] by {
                if j > 0 {
                    assert(self.rows@[j] == old(self).rows@[if j <= row { j - 1 } else { j }]);
                }
            }
            assert(self@.rows =~= target.rows);
        }
    }

    /// Takes out every complete row and returns how many there were. The
    /// rows are scanned from the bottom up; when a row is taken out the rows
    /// above it move down by one, the top row becomes empty, and the same
    /// index is looked at again.
    pub fn clear_completed_rows(&mut self) -> (count: usize)
        ensures
            count == old(self)@.complete_row_count(),
            count <= BOARD_HEIGHT,
            final(self)@ == old(self)@.cleared(),
    {
        let ghost before = self@.rows;
        // The rows `before[0..pending]` have not been looked at yet.
        let ghost mut pending: int = BOARD_HEIGHT as int;
        let mut count: usize = 0;
        let mut row: usize = BOARD_HEIGHT;
        proof {
            assert(before.subrange(pending, BOARD_HEIGHT as int) =~= Seq::empty());
            reveal(Seq::filter);
            assert(self@.rows =~= Grid::empty_rows(0) + before.subrange(0, pending)
                + before.subrange(pending, BOARD_HEIGHT as int).filter(Grid::survives()));
        }
        while row > 0
            invariant
                before == old(self)@.rows,
                before.len() == BOARD_HEIGHT,
                0 <= pending <= BOARD_HEIGHT,
                row <= count + pending <= BOARD_HEIGHT,
                pending > 0 ==> row == count + pending,
                count + before.subrange(pending, BOARD_HEIGHT as int).filter(Grid::survives()).len()
                    == BOARD_HEIGHT - pending,
                self@.rows == Grid::empty_rows(count as nat) + before.subrange(0, pending)
                    + before.subrange(pending, BOARD_HEIGHT as int).filter(Grid::survives()),
            decreases row + pending,
        {
            row -= 1;
            let ghost current = self@.rows;
            proof {
                if pending > 0 {
                    let this = before[pending - 1];
                    assert(current[row as int] == this);
                    assert(before.subrange(pending - 1, BOARD_HEIGHT as int) =~= seq![this]
                        + before.subrange(pending, BOARD_HEIGHT as int));
                    Seq::filter_distributes_over_add(
                        seq![this],
                        before.subrange(pending, BOARD_HEIGHT as int),
                        Grid::survives(),
                    );
                    assert(seq![this].filter(Grid::survives()) =~= if Grid::row_complete(this) {
                        Seq::empty()
                    } else {
                        seq![this]
                    }) by {
                        reveal_with_fuel(Seq::filter, 2);
                        assert(seq![this].drop_last() =~= Seq::empty());
                    }
                } else {
                    assert(current[row as int] == Grid::empty_row());
                    assert(Grid::empty_row()[0] is None);
                }
            }
            if self.row_is_complete(row) {
                self.remove_row(row);
                count += 1;
                row += 1;
                proof {
                    pending = pending - 1;
                    assert(self@.rows =~= Grid::empty_rows(count as nat) + before.subrange(
                        0,
                        pending,
                    ) + before.subrange(pending, BOARD_HEIGHT as int).filter(Grid::survives()));
                }
            } else {
                proof {
                    if pending > 0 {
                        pending = pending - 1;
                        assert(self@.rows =~= Grid::empty_rows(count as nat) + before.subrange(
                            0,
                            pending,
                        ) + before.subrange(pending, BOARD_HEIGHT as int).filter(Grid::survives()));
                    }
                }
            }
        }
        proof {
            assert(before.subrange(0, BOARD_HEIGHT as int) =~= before);
            assert(before.subrange(0, 0) =~= Seq::empty());
            lemma_rows_partition(before);
            assert(self@.rows =~= old(self)@.cleared().rows);
        }
        count
    }
}

/// Every row is either complete or surviving.
proof fn lemma_rows_partition(rows: Seq<Seq<Option<PieceKind>>>)
    ensures
        rows.filter(Grid::completes()).len() + rows.filter(Grid::survives()).len() == rows.len(),
    decreases rows.len(),
{
    if rows.len() == 0 {
        reveal(Seq::filter);
    } else {
        let rest = rows.drop_last();
        lemma_rows_partition(rest);
        rest.lemma_filter_len_push(Grid::completes(), rows.last());
        rest.lemma_filter_len_push(Grid::survives(), rows.last());
        assert(rest.push(rows.last()) =~= rows);
    }
}

/// Filtering changes nothing when every item passes the test.
proof fn lemma_filter_keeps_all<A>(items: Seq<A>, test: spec_fn(A) -> bool)
    requires
        forall|i: int| 0 <= i < items.len() ==> test(#[trigger] items[i]),
    ensures
        items.filter(test) == items,
    decreases items.len(),
{
    reveal(Seq::filter);
    if items.len() > 0 {
        lemma_filter_keeps_all(items.drop_last(), test);
        assert(items.drop_last().push(items.last()) =~= items);
    }
}

/// A surviving row is a row of the grid: it has the width of the board and
/// is not complete.
proof fn lemma_surviving_row(grid: Grid, i: int)
    requires
        grid.wf(),
        0 <= i < grid.surviving_rows().len(),
    ensures
        grid.surviving_rows()[i].len() == BOARD_WIDTH,
        !Grid::row_complete(grid.surviving_rows()[i]),
{
    let row = grid.surviving_rows()[i];
    grid.rows.lemma_filter_pred(Grid::survives(), i);
    assert(grid.surviving_rows().contains(row));
    grid.rows.lemma_filter_contains_rev(Grid::survives(), row);
    let source = choose|j: int| 0 <= j < grid.rows.len() && grid.rows[j] == row;
    assert(grid.rows[source].len() == BOARD_WIDTH);
}

/// Clearing keeps the shape of the grid, fills the top with as many empty
/// rows as it took out, and keeps every other row in its order below them.
pub proof fn lemma_cleared_rows(grid: Grid)
    requires
        grid.wf(),
    ensures
        grid.complete_row_count() + grid.surviving_rows().len() == BOARD_HEIGHT,
        grid.cleared().wf(),
        forall|y: int|
            0 <= y < grid.complete_row_count() ==> (#[trigger] grid.cleared().rows[y])
                == Grid::empty_row(),
        forall|y: int|
            grid.complete_row_count() <= y < BOARD_HEIGHT ==> (#[trigger] grid.cleared().rows[y])
                == grid.surviving_rows()[y - grid.complete_row_count()],
{
    let count = grid.complete_row_count();
    let after = grid.cleared();
    lemma_rows_partition(grid.rows);
    assert forall|y: int| 0 <= y < BOARD_HEIGHT implies (#[trigger] after.rows[y]).len()
        == BOARD_WIDTH by {
        if y >= count {
            lemma_surviving_row(grid, y - count);
        }
    }
}

/// After clearing no row is complete, so clearing again changes nothing.
pub proof fn lemma_cleared_has_no_complete_row(grid: Grid)
    requires
        grid.wf(),
    ensures
        forall|y: int|
            0 <= y < BOARD_HEIGHT ==> !Grid::row_complete(#[trigger] grid.cleared().rows[y]),
        grid.cleared().complete_row_count() == 0,
        grid.cleared().cleared() == grid.cleared(),
{
    let count = grid.complete_row_count();
    let after = grid.cleared();
    lemma_cleared_rows(grid);
    assert forall|y: int| 0 <= y < BOARD_HEIGHT implies !Grid::row_complete(
        #[trigger] after.rows[y],
    ) by {
        if y < count {
            assert(Grid::empty_row()[0] is None);
        } else {
            lemma_surviving_row(grid, y - count);
        }
    }
    lemma_nothing_to_clear(after);
}

/// A grid without a complete row is left as it is by clearing.
pub proof fn lemma_nothing_to_clear(grid: Grid)
    requires
        grid.wf(),
        forall|y: int| 0 <= y < BOARD_HEIGHT ==> !Grid::row_complete(#[trigger] grid.rows[y]),
    ensures
        grid.complete_row_count() == 0,
        grid.cleared() == grid,
{
    assert forall|i: int| 0 <= i < grid.rows.len() implies Grid::survives()(
        #[trigger] grid.rows[i],
    ) by {}
    lemma_filter_keeps_all(grid.rows, Grid::survives());
    lemma_rows_partition(grid.rows);
    assert(Grid::empty_rows(0) + grid.rows =~= grid.rows);
}

} // verus!
