use vstd::prelude::*;
use crate::action::Pos;
use crate::block::can_accept;
use crate::board::{top_at, Board, Cells};
use crate::token::{PlayerId, Size, Token};

verus! {

/// A placement of a token of `color` and `size` on cell `to` is legal when the
/// cell lies on the board, the inventory holds such a token (`stock` of them),
/// and the cell's stack accepts it.
pub open spec fn place_ok(b: Cells, stock: int, color: PlayerId, size: Size, to: Pos) -> bool {
    &&& to.in_range()
    &&& stock > 0
    &&& can_accept(b[to.cell_index()], Token { color, size })
}

/// A move by `color` from cell `from` to cell `to` is legal when both cells lie
/// on the board and differ, `from` shows a token of `color`, and the stack at
/// `to` accepts that token.
pub open spec fn move_ok(b: Cells, color: PlayerId, from: Pos, to: Pos) -> bool {
    &&& from.in_range()
    &&& to.in_range()
    &&& from != to
    &&& top_at(b, from) is Some
    &&& top_at(b, from)->0.color == color
    &&& can_accept(b[to.cell_index()], top_at(b, from)->0)
}

/// The cells after `t` is put on cell `to`.
pub open spec fn after_place(b: Cells, t: Token, to: Pos) -> Cells {
    b.update(to.cell_index(), b[to.cell_index()].push(t))
}

/// The cells after the visible token of `from` is moved onto `to`.
pub open spec fn after_move(b: Cells, from: Pos, to: Pos) -> Cells {
    let t = b[from.cell_index()].last();
    let lifted = b.update(from.cell_index(), b[from.cell_index()].drop_last());
    lifted.update(to.cell_index(), lifted[to.cell_index()].push(t))
}

/// A player's off-board tokens: how many of each size are left.
#[derive(Clone, Copy, Debug, PartialEq, Eq, Hash)]
pub struct Player {
    color: PlayerId,
    inventory: [u8; 3],
}

impl Player {
    pub closed spec fn color_spec(self) -> PlayerId {
        self.color
    }

    /// How many tokens of `size` are left off the board.
    pub closed spec fn stock(self, size: Size) -> int {
        self.inventory@[size.rank()] as int
    }

    /// No count exceeds the two tokens of each size that a player owns.
    pub open spec fn wf(self) -> bool {
        forall|s: Size| #[trigger] self.stock(s) <= 2
    }

    /// A full inventory: two tokens of each size.
    pub fn new(color: PlayerId) -> (p: Player)
        ensures
            p.color_spec() == color,
            forall|s: Size| #[trigger] p.stock(s) == 2,
            p.wf(),
    {
        Player { color, inventory: [2, 2, 2] }
    }

    pub fn color(&self) -> (r: PlayerId)
        ensures
            r == self.color_spec(),
    {
        self.color
    }

    /// How many tokens of `size` are left off the board.
    pub fn count(&self, size: Size) -> (r: u8)
        ensures
            r as int == self.stock(size),
    {
        self.inventory[size.index()]
    }

    /// Whether a token of `size` is left off the board.
    pub fn has(&self, size: Size) -> (r: bool)
        ensures
            r == (self.stock(size) > 0),
    {
        self.inventory[size.index()] > 0
    }

    /// Takes a token of `size` out of the inventory, if one is left.
    pub fn get_token(&mut self, size: Size) -> (r: Option<Token>)
        ensures
            final(self).color_spec() == old(self).color_spec(),
            old(self).stock(size) > 0 ==> r == Some(Token { color: old(self).color_spec(), size }),
            old(self).stock(size) > 0 ==> final(self).stock(size) == old(self).stock(size) - 1,
            old(self).stock(size) == 0 ==> r is None,
            forall|s: Size| s != size ==> #[trigger] final(self).stock(s) == old(self).stock(s),
            old(self).stock(size) == 0 ==> *final(self) == *old(self),
            old(self).wf() ==> final(self).wf(),
    {
        let i = size.index();
        if self.inventory[i] > 0 {
            self.inventory.set(i, self.inventory[i] - 1);
            assert forall|s: Size| s != size implies #[trigger] self.stock(s) == old(self).stock(s) by {
                assert(s.rank() != size.rank());
            }
            Some(Token::new(self.color, size))
        } else {
            None
        }
    }

    /// Whether placing a token of `size` from this inventory on (x, y) is legal.
    pub fn is_valid_place_from_inventory(&self, size: Size, board: &Board, x: usize, y: usize) -> (r: bool)
        requires
            board.wf(),
        ensures
            r == place_ok(board@, self.stock(size), self.color_spec(), size, Pos { col: x, row: y }),
    {
        if x < 3 && y < 3 && self.inventory[size.index()] > 0 {
            board.accepts(Pos { col: x, row: y }, Token::new(self.color, size))
        } else {
            false
        }
    }

    /// Places a token of `size` from this inventory on (x, y) if that is legal;
    /// reports whether it did. Nothing changes otherwise.
    pub fn place_from_inventory(&mut self, size: Size, board: &mut Board, x: usize, y: usize) -> (r: bool)
        requires
            old(board).wf(),
        ensures
            final(board).wf(),
            final(self).color_spec() == old(self).color_spec(),
            r == place_ok(old(board)@, old(self).stock(size), old(self).color_spec(), size, Pos { col: x, row: y }),
            r ==> final(board)@ == after_place(old(board)@, Token { color: old(self).color_spec(), size }, Pos { col: x, row: y }),
            r ==> final(self).stock(size) == old(self).stock(size) - 1,
            r ==> forall|s: Size| s != size ==> #[trigger] final(self).stock(s) == old(self).stock(s),
            !r ==> *final(board) == *old(board) && *final(self) == *old(self),
            old(self).wf() ==> final(self).wf(),
    {
        if self.is_valid_place_from_inventory(size, board, x, y) {
            let t = self.get_token(size);
            board.push_at(Pos { col: x, row: y }, t.unwrap());
            true
        } else {
            false
        }
    }

    /// Whether moving this player's visible token from (x, y) onto (x2, y2) is legal.
    pub fn is_valid_swap_from_board(&self, board: &Board, x: usize, y: usize, x2: usize, y2: usize) -> (r: bool)
        requires
            board.wf(),
        ensures
            r == move_ok(board@, self.color_spec(), Pos { col: x, row: y }, Pos { col: x2, row: y2 }),
    {
        if x < 3 && y < 3 && x2 < 3 && y2 < 3 && !(x == x2 && y == y2) {
            match board.top(Pos { col: x, row: y }) {
                Some(t) => t.color == self.color && board.accepts(Pos { col: x2, row: y2 }, t),
                None => false,
            }
        } else {
            false
        }
    }

    /// Moves this player's visible token from (x, y) onto (x2, y2) if that is
    /// legal; reports whether it did. Nothing changes otherwise.
    pub fn swap_token_from_board(&self, board: &mut Board, x: usize, y: usize, x2: usize, y2: usize) -> (r: bool)
        requires
            old(board).wf(),
        ensures
            final(board).wf(),
            r == move_ok(old(board)@, self.color_spec(), Pos { col: x, row: y }, Pos { col: x2, row: y2 }),
            r ==> final(board)@ == after_move(old(board)@, Pos { col: x, row: y }, Pos { col: x2, row: y2 }),
            !r ==> *final(board) == *old(board),
    {
        if self.is_valid_swap_from_board(board, x, y, x2, y2) {
            let from = Pos { col: x, row: y };
            let to = Pos { col: x2, row: y2 };
            let t = board.pop_at(from);
            board.push_at(to, t);
            true
        } else {
            false
        }
    }
}

} // verus!
