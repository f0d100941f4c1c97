use vstd::prelude::*;
use crate::token::Size;

verus! {

/// The number of syntactically possible actions: 81 ordered pairs of cells
/// for moves, then 3 sizes times 9 cells for placements.
pub const ACTION_SPACE_SIZE: usize = 108;

/// The first index of a placement; the indices below it are moves.
pub const FIRST_PLACEMENT: usize = 81;

/// A cell of the board, by column and row.
#[derive(Clone, Copy, Debug, PartialEq, Eq, Hash, Structural)]
pub struct Pos {
    pub col: usize,
    pub row: usize,
}

impl Pos {
    pub open spec fn in_range(self) -> bool {
        self.col < 3 && self.row < 3
    }

    /// Where the cell stands in the row-major list of the nine cells.
    pub open spec fn cell_index(self) -> int {
        self.row * 3 + self.col
    }

    pub fn new(col: usize, row: usize) -> (p: Pos)
        ensures
            p.col == col,
            p.row == row,
    {
        Pos { col, row }
    }

    pub fn is_in_range(&self) -> (r: bool)
        ensures
            r == self.in_range(),
    {
        self.col < 3 && self.row < 3
    }
}

/// The two kinds of action.
#[derive(Clone, Copy, Debug, PartialEq, Eq, Hash, Structural)]
pub enum ActionType {
    FromInventory,
    FromBoard,
}

/// An action of the player whose turn it is.
#[derive(Clone, Copy, Debug, PartialEq, Eq, Hash, Structural)]
pub enum Action {
    /// Put a token of `size` from the player's inventory on cell `to`.
    FromInventory { size: Size, to: Pos },
    /// Move the visible token of cell `from` onto cell `to`.
    FromBoard { from: Pos, to: Pos },
}

/// The index of an action: a move takes the base-3 digits from.col, from.row,
/// to.col, to.row, lowest first; a placement comes after the 81 moves, size
/// first, then the column, then the row.
pub open spec fn encode_spec(a: Action) -> int {
    match a {
        Action::FromBoard { from, to } => from.col + 3 * from.row + 9 * to.col + 27 * to.row,
        Action::FromInventory { size, to } => 81 + 9 * size.rank() + 3 * to.col + to.row,
    }
}

/// The action at index `i`, for `i` in `0..108`.
pub open spec fn decode_spec(i: int) -> Action {
    if i < 81 {
        Action::FromBoard {
            from: Pos { col: (i % 3) as usize, row: ((i / 3) % 3) as usize },
            to: Pos { col: ((i / 9) % 3) as usize, row: (i / 27) as usize },
        }
    } else {
        let j = i - 81;
        Action::FromInventory {
            size: Size::of_rank(j / 9),
            to: Pos { col: ((j / 3) % 3) as usize, row: (j % 3) as usize },
        }
    }
}

impl Action {
    /// All the cells that the action names lie on the board.
    pub open spec fn in_range(self) -> bool {
        match self {
            Action::FromInventory { to, .. } => to.in_range(),
            Action::FromBoard { from, to } => from.in_range() && to.in_range(),
        }
    }

    pub fn action_type(&self) -> (r: ActionType)
        ensures
            r == ActionType::FromInventory <==> self is FromInventory,
    {
        match self {
            Action::FromInventory { .. } => ActionType::FromInventory,
            Action::FromBoard { .. } => ActionType::FromBoard,
        }
    }

    pub fn is_in_range(&self) -> (r: bool)
        ensures
            r == self.in_range(),
    {
        match self {
            Action::FromInventory { to, .. } => to.is_in_range(),
            Action::FromBoard { from, to } => from.is_in_range() && to.is_in_range(),
        }
    }

    /// The index of the action in `0..108`; its cells must lie on the board.
    pub fn encode(&self) -> (r: usize)
        requires
            self.in_range(),
        ensures
            r as int == encode_spec(*self),
            r < ACTION_SPACE_SIZE,
    {
        match self {
            Action::FromBoard { from, to } => from.col + 3 * from.row + 9 * to.col + 27 * to.row,
            Action::FromInventory { size, to } => 81 + 9 * size.index() + 3 * to.col + to.row,
        }
    }

    /// The action at index `i`, which must be below 108.
    pub fn decode(i: usize) -> (a: Action)
        requires
            i < ACTION_SPACE_SIZE,
        ensures
            a == decode_spec(i as int),
            a.in_range(),
    {
        if i < FIRST_PLACEMENT {
            Action::FromBoard {
                from: Pos { col: i % 3, row: (i / 3) % 3 },
                to: Pos { col: (i / 9) % 3, row: i / 27 },
            }
        } else {
            let j: usize = i - FIRST_PLACEMENT;
            Action::FromInventory {
                size: Size::from_index(j / 9),
                to: Pos { col: (j / 3) % 3, row: j % 3 },
            }
        }
    }
}

/// Decoding then encoding any index of the action space gives the index back,
/// and encoding then decoding any action whose cells lie on the board gives
/// the action back.
pub proof fn lemma_codec_bijection()
    ensures
        forall|i: int| 0 <= i < 108 ==> #[trigger] encode_spec(decode_spec(i)) == i,
        forall|a: Action| a.in_range() ==> #[trigger] decode_spec(encode_spec(a)) == a,
        forall|i: int| 0 <= i < 108 ==> (#[trigger] decode_spec(i)).in_range(),
        forall|a: Action| a.in_range() ==> 0 <= #[trigger] encode_spec(a) < 108,
{
    assert forall|i: int| 0 <= i < 108 implies #[trigger] encode_spec(decode_spec(i)) == i
        && decode_spec(i).in_range() by {
        lemma_decode_encode(i);
    }
    assert forall|a: Action| a.in_range() implies #[trigger] decode_spec(encode_spec(a)) == a
        && 0 <= encode_spec(a) < 108 by {
        lemma_encode_decode(a);
    }
}

proof fn lemma_decode_encode(i: int)
    requires
        0 <= i < 108,
    ensures
        encode_spec(decode_spec(i)) == i,
        decode_spec(i).in_range(),
{
    if i < 81 {
        assert(i % 3 + 3 * ((i / 3) % 3) + 9 * ((i / 9) % 3) + 27 * (i / 27) == i) by (nonlinear_arith)
            requires 0 <= i < 81;
    } else {
        let j = i - 81;
        assert(9 * (j / 9) + 3 * ((j / 3) % 3) + j % 3 == j && 0 <= j / 9 < 3) by (nonlinear_arith)
            requires 0 <= j < 27;
    }
}

proof fn lemma_encode_decode(a: Action)
    requires
        a.in_range(),
    ensures
        decode_spec(encode_spec(a)) == a,
        0 <= encode_spec(a) < 108,
{
    match a {
        Action::FromBoard { from, to } => {
            let (a0, a1, a2, a3) = (from.col as int, from.row as int, to.col as int, to.row as int);
            let i = a0 + 3 * a1 + 9 * a2 + 27 * a3;
            assert(i % 3 == a0 && (i / 3) % 3 == a1 && (i / 9) % 3 == a2 && i / 27 == a3 && i < 81)
                by (nonlinear_arith)
                requires 0 <= a0 < 3, 0 <= a1 < 3, 0 <= a2 < 3, 0 <= a3 < 3, i == a0 + 3 * a1 + 9 * a2 + 27 * a3;
        },
        Action::FromInventory { size, to } => {
            let (s, c, r) = (size.rank(), to.col as int, to.row as int);
            let j = 9 * s + 3 * c + r;
            assert(j / 9 == s && (j / 3) % 3 == c && j % 3 == r && j < 27) by (nonlinear_arith)
                requires 0 <= s < 3, 0 <= c < 3, 0 <= r < 3, j == 9 * s + 3 * c + r;
            assert(Size::of_rank(s) == size);
        },
    }
}

} // verus!
