use vstd::prelude::*;
use crate::action::Pos;
use crate::block::{can_accept, lemma_pop_keeps_stack_ok, stack_ok, top, Block};
use crate::token::{color_index, PlayerId, Token};

verus! {

/// The board's cells, row-major: the cell at (col, row) is at `row * 3 + col`.
pub type Cells = Seq<Seq<Token>>;

/// The `j`-th cell of the `k`-th winning line. Lines come in this order:
/// column 0, row 0, column 1, row 1, column 2, row 2, the diagonal from
/// (0,0), and the diagonal from (0,2).
pub open spec fn line_pos(k: int, j: int) -> Pos {
    if k == 6 {
        Pos { col: j as usize, row: j as usize }
    } else if k == 7 {
        Pos { col: j as usize, row: (2 - j) as usize }
    } else if k % 2 == 0 {
        Pos { col: (k / 2) as usize, row: j as usize }
    } else {
        Pos { col: j as usize, row: (k / 2) as usize }
    }
}

/// The visible token of a cell.
pub open spec fn top_at(b: Cells, p: Pos) -> Option<Token> {
    top(b[p.cell_index()])
}

/// The color that shows on all three cells of line `k`, if one does.
pub open spec fn line_owner(b: Cells, k: int) -> Option<PlayerId> {
    let t0 = top_at(b, line_pos(k, 0));
    let t1 = top_at(b, line_pos(k, 1));
    let t2 = top_at(b, line_pos(k, 2));
    if t0 is Some && t1 is Some && t2 is Some && t0->0.color == t1->0.color && t1->0.color
        == t2->0.color {
        Some(t0->0.color)
    } else {
        None
    }
}

/// The owner of the first owned line among lines `k..8`.
pub open spec fn first_owner(b: Cells, k: int) -> Option<PlayerId>
    decreases 8 - k,
{
    if k >= 8 {
        None
    } else if line_owner(b, k) is Some {
        line_owner(b, k)
    } else {
        first_owner(b, k + 1)
    }
}

/// The winner of the board: the owner of the first owned line.
pub open spec fn winner(b: Cells) -> Option<PlayerId> {
    first_owner(b, 0)
}

/// Whether color `c` shows on all three cells of some line.
pub open spec fn wins(b: Cells, c: PlayerId) -> bool {
    exists|k: int| 0 <= k < 8 && #[trigger] line_owner(b, k) == Some(c)
}

/// The feature of slot `s` of a cell whose visible token is `t`: slot
/// `3 * color + size` is 1 for the visible token, every other slot 0.
pub open spec fn feature_bit(t: Option<Token>, s: int) -> u8 {
    match t {
        None => 0,
        Some(u) => if s == 3 * color_index(u.color) + u.size.rank() {
            1
        } else {
            0
        },
    }
}

proof fn lemma_first_owner(b: Cells, k: int)
    requires
        0 <= k <= 8,
    ensures
        first_owner(b, k) is None <==> (forall|m: int| k <= m < 8 ==> #[trigger] line_owner(b, m) is None),
        first_owner(b, k) is Some ==> exists|m: int| k <= m < 8 && #[trigger] line_owner(b, m) == first_owner(b, k),
    decreases 8 - k,
{
    if k < 8 {
        lemma_first_owner(b, k + 1);
        if line_owner(b, k) is None {
            assert forall|m: int| k + 1 <= m < 8 && #[trigger] line_owner(b, m) is None implies k <= m
                < 8 && line_owner(b, m) is None by {}
        }
    }
}

/// The board has a winner exactly when some color owns a line, and the winner
/// is a color that owns one.
pub proof fn lemma_winner_wins(b: Cells)
    ensures
        winner(b) is None <==> !wins(b, PlayerId::RED) && !wins(b, PlayerId::GREEN),
        winner(b) is Some ==> wins(b, winner(b)->0),
{
    lemma_first_owner(b, 0);
    if winner(b) is None {
        assert(!wins(b, PlayerId::RED));
        assert(!wins(b, PlayerId::GREEN));
    } else {
        let m = choose|m: int| 0 <= m < 8 && #[trigger] line_owner(b, m) == first_owner(b, 0);
        assert(line_owner(b, m) == winner(b));
    }
    if !wins(b, PlayerId::RED) && !wins(b, PlayerId::GREEN) {
        assert forall|m: int| 0 <= m < 8 implies #[trigger] line_owner(b, m) is None by {
            if line_owner(b, m) is Some {
                let c = line_owner(b, m)->0;
                assert(c == PlayerId::RED || c == PlayerId::GREEN);
            }
        }
    }
}

/// Replacing one block of a list replaces one stack of its view.
proof fn lemma_cell_updated(before: Seq<Block>, after: Seq<Block>, i: int)
    requires
        0 <= i < before.len(),
        after == before.update(i, after[i]),
    ensures
        after.map_values(|c: Block| c@) == before.map_values(|c: Block| c@).update(i, after[i]@),
{
    assert(after.map_values(|c: Block| c@) =~= before.map_values(|c: Block| c@).update(i, after[i]@));
}

/// The 3x3 grid of stacks.
#[derive(Debug, Clone, PartialEq, Eq, Hash)]
pub struct Board {
    cells: Vec<Block>,
}

impl View for Board {
    type V = Cells;

    closed spec fn view(&self) -> Cells {
        self.cells@.map_values(|c: Block| c@)
    }
}

impl Board {
    /// Nine cells, each a well-formed stack.
    pub open spec fn wf(&self) -> bool {
        &&& self@.len() == 9
        &&& forall|i: int| 0 <= i < 9 ==> stack_ok(#[trigger] self@[i])
    }

    /// The empty board.
    pub fn new() -> (b: Board)
        ensures
            b.wf(),
            b@.len() == 9,
            forall|i: int| 0 <= i < 9 ==> (#[trigger] b@[i]).len() == 0,
    {
        let mut cells: Vec<Block> = Vec::new();
        let mut i: usize = 0;
        while i < 9
            invariant
                i <= 9,
                cells@.len() == i,
                forall|j: int| 0 <= j < i ==> (#[trigger] cells@[j])@.len() == 0 && cells@[j].wf(),
            decreases 9 - i,
        {
            cells.push(Block::default());
            i += 1;
        }
        let b = Board { cells };
        assert forall|j: int| 0 <= j < 9 implies (#[trigger] b@[j]).len() == 0 && stack_ok(b@[j]) by {
            assert(b@[j] == b.cells@[j]@);
        }
        b
    }

    /// The stack at (col, row).
    pub fn cell(&self, col: usize, row: usize) -> (r: &Block)
        requires
            self.wf(),
            col < 3,
            row < 3,
        ensures
            r@ == self@[Pos { col, row }.cell_index()],
            r.wf(),
    {
        let r = &self.cells[row * 3 + col];
        assert(r@ == self@[Pos { col, row }.cell_index()]);
        r
    }

    /// The visible token at `p`.
    pub fn top(&self, p: Pos) -> (r: Option<Token>)
        requires
            self.wf(),
            p.in_range(),
        ensures
            r == top_at(self@, p),
    {
        self.cell(p.col, p.row).get_outermost_token()
    }

    /// Whether (x, y) lies on the board and holds a token to take.
    pub fn is_valid_take_from_board(&self, x: usize, y: usize) -> (r: bool)
        requires
            self.wf(),
        ensures
            r == (Pos { col: x, row: y }.in_range() && top_at(self@, Pos { col: x, row: y }) is Some),
    {
        if x < 3 && y < 3 {
            self.top(Pos { col: x, row: y }).is_some()
        } else {
            false
        }
    }

    /// Whether the stack at `p` accepts `t`.
    pub fn accepts(&self, p: Pos, t: Token) -> (r: bool)
        requires
            self.wf(),
            p.in_range(),
        ensures
            r == can_accept(self@[p.cell_index()], t),
    {
        self.cell(p.col, p.row).is_stackable(t)
    }

    /// Puts `t` on the stack at `p` if the stacking rule allows it.
    pub fn push_at(&mut self, p: Pos, t: Token) -> (r: bool)
        requires
            old(self).wf(),
            p.in_range(),
        ensures
            final(self).wf(),
            r == can_accept(old(self)@[p.cell_index()], t),
            r ==> final(self)@ == old(self)@.update(p.cell_index(), old(self)@[p.cell_index()].push(t)),
            !r ==> final(self)@ == old(self)@,
    {
        let i = p.row * 3 + p.col;
        assert(old(self).cells@[i as int]@ == old(self)@[i as int]);
        let r = self.cells[i].push_token(t);
        proof {
            lemma_cell_updated(old(self).cells@, self.cells@, i as int);
            if !r {
                assert(self@ =~= old(self)@);
            }
        }
        r
    }

    /// Takes the visible token off the stack at `p`, which must not be empty.
    pub fn pop_at(&mut self, p: Pos) -> (t: Token)
        requires
            old(self).wf(),
            p.in_range(),
            old(self)@[p.cell_index()].len() > 0,
        ensures
            final(self).wf(),
            t == old(self)@[p.cell_index()].last(),
            final(self)@ == old(self)@.update(p.cell_index(), old(self)@[p.cell_index()].drop_last()),
    {
        let i = p.row * 3 + p.col;
        assert(old(self).cells@[i as int]@ == old(self)@[i as int]);
        let t = self.cells[i].pop_outermost_token();
        proof {
            lemma_pop_keeps_stack_ok(old(self)@[i as int]);
            lemma_cell_updated(old(self).cells@, self.cells@, i as int);
            let s = old(self)@.update(i as int, old(self)@[i as int].drop_last());
            assert(self@ == s);
            assert forall|j: int| 0 <= j < 9 implies stack_ok(#[trigger] s[j]) by {
                if j != i {
                    assert(s[j] == old(self)@[j]);
                }
            }
        }
        t
    }

    /// The color that shows on all three cells of line `k`, if one does.
    fn check_line(&self, k: usize) -> (r: Option<PlayerId>)
        requires
            self.wf(),
            k < 8,
        ensures
            r == line_owner(self@, k as int),
    {
        let t0 = self.top(line_cell(k, 0));
        let t1 = self.top(line_cell(k, 1));
        let t2 = self.top(line_cell(k, 2));
        match (t0, t1, t2) {
            (Some(a), Some(b), Some(c)) => {
                if a.color == b.color && b.color == c.color {
                    Some(a.color)
                } else {
                    None
                }
            },
            _ => None,
        }
    }

    /// The winner: the color that shows on all three cells of the first such
    /// line, in the order of `line_pos`; `None` while no line is owned.
    pub fn is_gameover(&self) -> (r: Option<PlayerId>)
        requires
            self.wf(),
        ensures
            r == winner(self@),
    {
        let mut k: usize = 0;
        while k < 8
            invariant
                self.wf(),
                k <= 8,
                first_owner(self@, 0) == first_owner(self@, k as int),
            decreases 8 - k,
        {
            let r = self.check_line(k);
            if r.is_some() {
                return r;
            }
            k += 1;
        }
        None
    }

    /// Six slots per cell, row-major: slot `3 * color + size` of a cell is 1
    /// for its visible token (RED 0, GREEN 1; SMALL 0, MID 1, BIG 2), and every
    /// other slot is 0.
    pub fn to_features(&self) -> (r: Vec<u8>)
        requires
            self.wf(),
        ensures
            r@.len() == 54,
            forall|i: int, s: int|
                0 <= i < 9 && 0 <= s < 6 ==> #[trigger] r@[6 * i + s] == feature_bit(top(self@[i]), s),
    {
        let mut features: Vec<u8> = Vec::new();
        let mut i: usize = 0;
        while i < 9
            invariant
                self.wf(),
                i <= 9,
                features@.len() == 6 * i,
                forall|c: int, s: int|
                    0 <= c < i && 0 <= s < 6 ==> #[trigger] features@[6 * c + s] == feature_bit(top(self@[c]), s),
            decreases 9 - i,
        {
            let slot: usize = match self.cell(i % 3, i / 3).get_outermost_token() {
                Some(t) => 3 * t.color.index() + t.size.index(),
                None => 6,
            };
            let mut s: usize = 0;
            while s < 6
                invariant
                    self.wf(),
                    i < 9,
                    s <= 6,
                    features@.len() == 6 * i + s,
                    slot == match top(self@[i as int]) {
                        Some(t) => 3 * color_index(t.color) + t.size.rank(),
                        None => 6,
                    },
                    forall|c: int, s2: int|
                        0 <= c < i && 0 <= s2 < 6 ==> #[trigger] features@[6 * c + s2] == feature_bit(top(self@[c]), s2),
                    forall|s2: int| 0 <= s2 < s ==> #[trigger] features@[6 * i + s2] == feature_bit(top(self@[i as int]), s2),
                decreases 6 - s,
            {
                features.push(if s == slot { 1 } else { 0 });
                s += 1;
            }
            i += 1;
        }
        features
    }
}

/// The `j`-th cell of the `k`-th winning line.
fn line_cell(k: usize, j: usize) -> (p: Pos)
    requires
        k < 8,
        j < 3,
    ensures
        p == line_pos(k as int, j as int),
        p.in_range(),
{
    if k == 6 {
        Pos { col: j, row: j }
    } else if k == 7 {
        Pos { col: j, row: 2 - j }
    } else if k % 2 == 0 {
        Pos { col: k / 2, row: j }
    } else {
        Pos { col: j, row: k / 2 }
    }
}

} // verus!
