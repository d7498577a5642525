//! The seven tetromino kinds and their rotation states.

use vstd::prelude::*;

verus! {

/// How many piece kinds the catalog holds.
pub const PIECE_KIND_COUNT: usize = 7;

/// How many cells every rotation state covers.
pub const CELLS_PER_PIECE: usize = 4;

/// One rotation state: the four cell offsets `(dx, dy)` from the piece anchor.
pub type ShapeState = [(i32, i32); 4];

/// A piece kind. It also serves as the tag of a landed block.
#[derive(Clone, Copy, Debug, PartialEq, Eq, Hash, Structural)]
pub enum PieceKind {
    I,
    J,
    L,
    O,
    S,
    T,
    Z,
}

impl PieceKind {
    /// The rotation states of this kind, in rotation order.
    pub open spec fn states(self) -> Seq<Seq<(i32, i32)>> {
        match self {
            PieceKind::I => seq![
                seq![(0i32, 0i32), (0i32, 1i32), (0i32, 2i32), (0i32, 3i32)],
                seq![(0i32, 0i32), (1i32, 0i32), (2i32, 0i32), (3i32, 0i32)],
            ],
            PieceKind::J => seq![
                seq![(0i32, 0i32), (0i32, 1i32), (0i32, 2i32), (-1i32, 2i32)],
                seq![(0i32, 0i32), (1i32, 0i32), (2i32, 0i32), (2i32, 1i32)],
                seq![(0i32, 0i32), (0i32, 1i32), (0i32, 2i32), (1i32, 0i32)],
                seq![(0i32, 0i32), (0i32, 1i32), (1i32, 1i32), (2i32, 1i32)],
            ],
            PieceKind::L => seq![
                seq![(0i32, 0i32), (0i32, 1i32), (0i32, 2i32), (1i32, 2i32)],
                seq![(0i32, 0i32), (0i32, 1i32), (1i32, 0i32), (2i32, 0i32)],
                seq![(0i32, 0i32), (1i32, 0i32), (1i32, 1i32), (1i32, 2i32)],
                seq![(0i32, 1i32), (1i32, 1i32), (2i32, 1i32), (2i32, 0i32)],
            ],
            PieceKind::O => seq![
                seq![(0i32, 0i32), (0i32, 1i32), (1i32, 0i32), (1i32, 1i32)],
            ],
            PieceKind::S => seq![
                seq![(0i32, 0i32), (0i32, 1i32), (1i32, 1i32), (1i32, 2i32)],
                seq![(0i32, 1i32), (1i32, 1i32), (1i32, 0i32), (2i32, 0i32)],
            ],
            PieceKind::T => seq![
                seq![(0i32, 1i32), (1i32, 0i32), (1i32, 1i32), (1i32, 2i32)],
                seq![(0i32, 0i32), (1i32, 0i32), (2i32, 0i32), (1i32, 1i32)],
                seq![(0i32, 0i32), (0i32, 1i32), (0i32, 2i32), (1i32, 1i32)],
                seq![(0i32, 1i32), (1i32, 1i32), (2i32, 1i32), (1i32, 0i32)],
            ],
            PieceKind::Z => seq![
                seq![(0i32, 1i32), (0i32, 2i32), (1i32, 0i32), (1i32, 1i32)],
                seq![(0i32, 0i32), (1i32, 0i32), (1i32, 1i32), (2i32, 1i32)],
            ],
        }
    }

    /// The position of this kind in the catalog.
    pub open spec fn spec_index(self) -> nat {
        match self {
            PieceKind::I => 0,
            PieceKind::J => 1,
            PieceKind::L => 2,
            PieceKind::O => 3,
            PieceKind::S => 4,
            PieceKind::T => 5,
            PieceKind::Z => 6,
        }
    }

    /// The position of this kind in the catalog, from 0 for `I` to 6 for `Z`.
    pub fn index(self) -> (index: usize)
        ensures
            index == self.spec_index(),
            index < PIECE_KIND_COUNT,
    {
        match self {
            PieceKind::I => 0,
            PieceKind::J => 1,
            PieceKind::L => 2,
            PieceKind::O => 3,
            PieceKind::S => 4,
            PieceKind::T => 5,
            PieceKind::Z => 6,
        }
    }

    /// The kind at position `index` of the catalog.
    pub fn from_index(index: usize) -> (kind: PieceKind)
        requires
            index < PIECE_KIND_COUNT,
        ensures
            kind.spec_index() == index,
    {
        match index {
            0 => PieceKind::I,
            1 => PieceKind::J,
            2 => PieceKind::L,
            3 => PieceKind::O,
            4 => PieceKind::S,
            5 => PieceKind::T,
            _ => PieceKind::Z,
        }
    }

    /// The number of rotation states of this kind: 1, 2 or 4.
    pub fn rotation_count(self) -> (n: usize)
        ensures
            n == self.states().len(),
            n == 1 || n == 2 || n == 4,
    {
        match self {
            PieceKind::O => 1,
            PieceKind::I | PieceKind::S | PieceKind::Z => 2,
            PieceKind::J | PieceKind::L | PieceKind::T => 4,
        }
    }

    /// All rotation states of this kind, in rotation order.
    pub fn rotation_states(self) -> (list: Vec<ShapeState>)
        ensures
            list@.len() == self.states().len(),
            forall|r: int| 0 <= r < list@.len() ==> (#[trigger] list@[r])@ == self.states()[r],
    {
        let count: usize = self.rotation_count();
        let mut list: Vec<ShapeState> = Vec::new();
        let mut rotation: usize = 0;
        while rotation < count
            invariant
                rotation <= count == self.states().len(),
                list@.len() == rotation,
                forall|r: int| 0 <= r < rotation ==> (#[trigger] list@[r])@ == self.states()[r],
            decreases count - rotation,
        {
            list.push(self.offsets(rotation));
            rotation += 1;
        }
        list
    }

    /// The cell offsets of rotation state `rotation`.
    pub fn offsets(self, rotation: usize) -> (state: ShapeState)
        requires
            rotation < self.states().len(),
        ensures
            state@ == self.states()[rotation as int],
    {
        let state: ShapeState = match self {
            PieceKind::I => match rotation {
                0 => [(0, 0), (0, 1), (0, 2), (0, 3)],
                _ => [(0, 0), (1, 0), (2, 0), (3, 0)],
            },
            PieceKind::J => match rotation {
                0 => [(0, 0), (0, 1), (0, 2), (-1, 2)],
                1 => [(0, 0), (1, 0), (2, 0), (2, 1)],
                2 => [(0, 0), (0, 1), (0, 2), (1, 0)],
                _ => [(0, 0), (0, 1), (1, 1), (2, 1)],
            },
            PieceKind::L => match rotation {
                0 => [(0, 0), (0, 1), (0, 2), (1, 2)],
                1 => [(0, 0), (0, 1), (1, 0), (2, 0)],
                2 => [(0, 0), (1, 0), (1, 1), (1, 2)],
                _ => [(0, 1), (1, 1), (2, 1), (2, 0)],
            },
            PieceKind::O => [(0, 0), (0, 1), (1, 0), (1, 1)],
            PieceKind::S => match rotation {
                0 => [(0, 0), (0, 1), (1, 1), (1, 2)],
                _ => [(0, 1), (1, 1), (1, 0), (2, 0)],
            },
            PieceKind::T => match rotation {
                0 => [(0, 1), (1, 0), (1, 1), (1, 2)],
                1 => [(0, 0), (1, 0), (2, 0), (1, 1)],
                2 => [(0, 0), (0, 1), (0, 2), (1, 1)],
                _ => [(0, 1), (1, 1), (2, 1), (1, 0)],
            },
            PieceKind::Z => match rotation {
                0 => [(0, 1), (0, 2), (1, 0), (1, 1)],
                _ => [(0, 0), (1, 0), (1, 1), (2, 1)],
            },
        };
        assert(state@ =~= self.states()[rotation as int]);
        state
    }
}

/// The smallest box of cells that holds a shape, as offsets from the anchor.
#[derive(Clone, Copy, Debug, PartialEq, Eq)]
pub struct Bounds {
    pub min_x: i32,
    pub min_y: i32,
    pub max_x: i32,
    pub max_y: i32,
}

impl Bounds {
    /// The number of columns of the box.
    pub fn width(&self) -> (width: i64)
        ensures
            width == self.max_x - self.min_x + 1,
    {
        self.max_x as i64 - self.min_x as i64 + 1
    }

    /// The number of rows of the box.
    pub fn height(&self) -> (height: i64)
        ensures
            height == self.max_y - self.min_y + 1,
    {
        self.max_y as i64 - self.min_y as i64 + 1
    }
}

/// The box is the smallest that holds every cell of `state`: no cell lies
/// outside it and each of its four sides touches a cell.
pub open spec fn is_bounding_box(state: Seq<(i32, i32)>, bounds: Bounds) -> bool {
    &&& forall|i: int|
        0 <= i < state.len() ==> bounds.min_x <= (#[trigger] state[i]).0 <= bounds.max_x
            && bounds.min_y <= state[i].1 <= bounds.max_y
    &&& exists|i: int| 0 <= i < state.len() && (#[trigger] state[i]).0 == bounds.min_x
    &&& exists|i: int| 0 <= i < state.len() && (#[trigger] state[i]).0 == bounds.max_x
    &&& exists|i: int| 0 <= i < state.len() && (#[trigger] state[i]).1 == bounds.min_y
    &&& exists|i: int| 0 <= i < state.len() && (#[trigger] state[i]).1 == bounds.max_y
}

/// The bounding box of a rotation state.
pub fn bounding_box(state: &ShapeState) -> (bounds: Bounds)
    ensures
        is_bounding_box(state@, bounds),
{
    let (first_x, first_y) = state[0];
    let mut bounds = Bounds { min_x: first_x, min_y: first_y, max_x: first_x, max_y: first_y };
    let mut i: usize = 1;
    assert(state@.take(1)[0] == (first_x, first_y));
    while i < CELLS_PER_PIECE
        invariant
            1 <= i <= CELLS_PER_PIECE,
            is_bounding_box(state@.take(i as int), bounds),
        decreases CELLS_PER_PIECE - i,
    {
        let ghost seen = state@.take(i as int);
        let ghost more = state@.take(i + 1);
        let ghost before = bounds;
        let (dx, dy) = state[i];
        if dx < bounds.min_x {
            bounds.min_x = dx;
        }
        if dx > bounds.max_x {
            bounds.max_x = dx;
        }
        if dy < bounds.min_y {
            bounds.min_y = dy;
        }
        if dy > bounds.max_y {
            bounds.max_y = dy;
        }
        proof {
            assert(more[i as int] == (dx, dy));
            assert forall|j: int| 0 <= j < i implies more[j] == seen[j] by {}
            let at_min_x = choose|j: int| 0 <= j < seen.len() && (#[trigger] seen[j]).0 == before.min_x;
            let at_max_x = choose|j: int| 0 <= j < seen.len() && (#[trigger] seen[j]).0 == before.max_x;
            let at_min_y = choose|j: int| 0 <= j < seen.len() && (#[trigger] seen[j]).1 == before.min_y;
            let at_max_y = choose|j: int| 0 <= j < seen.len() && (#[trigger] seen[j]).1 == before.max_y;
            assert(more[at_min_x] == seen[at_min_x] && more[at_max_x] == seen[at_max_x]);
            assert(more[at_min_y] == seen[at_min_y] && more[at_max_y] == seen[at_max_y]);
            assert forall|j: int| 0 <= j < more.len() implies bounds.min_x <= (#[trigger] more[j]).0
                <= bounds.max_x && bounds.min_y <= more[j].1 <= bounds.max_y by {
                if j < i {
                    assert(more[j] == seen[j]);
                }
            }
        }
        i += 1;
    }
    assert(state@.take(CELLS_PER_PIECE as int) =~= state@);
    bounds
}

/// The offsets of the catalog stay within `-1..=3` across and `0..=3` down.
pub open spec fn offset_in_range(offset: (i32, i32)) -> bool {
    -1 <= offset.0 <= 3 && 0 <= offset.1 <= 3
}

/// Every kind has one, two or four rotation states, every state has four
/// cells, the cells of a state differ from each other, and every offset is
/// in range.
pub proof fn lemma_catalog_well_formed(kind: PieceKind)
    ensures
        kind.states().len() == 1 || kind.states().len() == 2 || kind.states().len() == 4,
        forall|r: int|
            0 <= r < kind.states().len() ==> (#[trigger] kind.states()[r]).len()
                == CELLS_PER_PIECE,
        forall|r: int, i: int|
            0 <= r < kind.states().len() && 0 <= i < CELLS_PER_PIECE ==> offset_in_range(
                #[trigger] kind.states()[r][i],
            ),
        forall|r: int, i: int, j: int|
            0 <= r < kind.states().len() && 0 <= i < j < CELLS_PER_PIECE
                ==> #[trigger] kind.states()[r][i] != #[trigger] kind.states()[r][j],
{
}

/// No two rotation states of one kind cover the same cells.
pub proof fn lemma_states_distinct(kind: PieceKind, r1: int, r2: int)
    requires
        0 <= r1 < r2 < kind.states().len(),
    ensures
        kind.states()[r1].to_set() != kind.states()[r2].to_set(),
{
    let a = kind.states()[r1];
    let b = kind.states()[r2];
    // In each pair of states some cell of the first is missing in the second.
    let witness: (i32, i32) = match kind {
        PieceKind::I => (0i32, 1i32),
        PieceKind::J => if r1 == 0 {
            (-1i32, 2i32)
        } else if r1 == 1 {
            (2i32, 0i32)
        } else {
            (0i32, 2i32)
        },
        PieceKind::L => if r1 == 0 {
            (0i32, 2i32)
        } else if r1 == 1 {
            if r2 == 2 {
                (0i32, 1i32)
            } else {
                (0i32, 0i32)
            }
        } else {
            (0i32, 0i32)
        },
        PieceKind::O => (0i32, 0i32),
        PieceKind::S => (0i32, 0i32),
        PieceKind::T => if r1 == 0 {
            (1i32, 2i32)
        } else if r1 == 1 {
            (2i32, 0i32)
        } else {
            (0i32, 0i32)
        },
        PieceKind::Z => (0i32, 1i32),
    };
    assert(exists|i: int| 0 <= i < 4 && a[i] == witness);
    assert(a.contains(witness));
    assert(forall|i: int| 0 <= i < 4 ==> b[i] != witness);
    assert(!b.contains(witness));
    assert(a.to_set().contains(witness));
    assert(!b.to_set().contains(witness));
}

} // verus!
