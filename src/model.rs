use vstd::prelude::*;
use crate::action::{decode_spec, encode_spec, lemma_codec_bijection, Action};
use crate::board::{first_owner, lemma_winner_wins, line_owner, line_pos, winner, Cells};
use crate::player::{after_move, after_place, move_ok, place_ok};
use crate::token::{color_index, other, PlayerId, Size, Token};

verus! {

/// The number of plies after which a game without a winner is drawn.
pub const MAX_TURNS: usize = 72;

/// Where a game stands.
#[derive(Clone, Copy, Debug, PartialEq, Eq, Hash, Structural)]
pub enum Status {
    InProgress,
    Winner(PlayerId),
    Draw,
}

/// Where the count of a player's tokens of a size stands in `GameModel::stock`.
pub open spec fn stock_index(c: PlayerId, s: Size) -> int {
    3 * color_index(c) + s.rank()
}

/// How many times `t` occurs in the stack `s`.
pub open spec fn count_in(s: Seq<Token>, t: Token) -> int
    decreases s.len(),
{
    if s.len() == 0 {
        0
    } else {
        count_in(s.drop_last(), t) + if s.last() == t {
            1int
        } else {
            0int
        }
    }
}

/// How many times `t` occurs in the first `n` cells.
pub open spec fn count_upto(b: Cells, t: Token, n: int) -> int
    decreases n,
{
    if n <= 0 {
        0
    } else {
        count_upto(b, t, n - 1) + count_in(b[n - 1], t)
    }
}

/// How many times `t` occurs anywhere on the board, buried or visible.
pub open spec fn on_board(b: Cells, t: Token) -> int {
    count_upto(b, t, 9)
}

/// The state of a game as values: the cells, the player to act, the six
/// inventory counts (see `stock_index`), and the number of plies played.
pub struct GameModel {
    pub board: Cells,
    pub player: PlayerId,
    pub stock: Seq<int>,
    pub ply: nat,
}

/// A fresh game: empty board, full inventories, `start` to act, no ply played.
pub open spec fn initial(start: PlayerId) -> GameModel {
    GameModel {
        board: Seq::new(9, |i: int| Seq::<Token>::empty()),
        player: start,
        stock: seq![2int, 2, 2, 2, 2, 2],
        ply: 0,
    }
}

impl GameModel {
    /// How many tokens of color `c` and size `s` are still off the board.
    pub open spec fn stock_of(self, c: PlayerId, s: Size) -> int {
        self.stock[stock_index(c, s)]
    }

    /// Nine cells, six counts, and no token made or lost: for every color and
    /// size, the count off the board and the count on it add up to two.
    pub open spec fn wf(self) -> bool {
        &&& self.board.len() == 9
        &&& self.stock.len() == 6
        &&& forall|c: PlayerId, s: Size|
            #[trigger] self.stock_of(c, s) + on_board(self.board, Token { color: c, size: s }) == 2
    }

    pub open spec fn status(self) -> Status {
        match winner(self.board) {
            Some(c) => Status::Winner(c),
            None => if self.ply >= MAX_TURNS {
                Status::Draw
            } else {
                Status::InProgress
            },
        }
    }

    pub open spec fn is_over(self) -> bool {
        self.status() != Status::InProgress
    }

    /// +1 when `p` has won, -1 when the other player has, 0 otherwise.
    pub open spec fn reward(self, p: PlayerId) -> int {
        match self.status() {
            Status::Winner(c) => if c == p {
                1
            } else {
                -1
            },
            _ => 0,
        }
    }

    /// Whether the player to act may take action `a`: the game is not over,
    /// and the placement or the move is legal for that player.
    pub open spec fn legal(self, a: Action) -> bool {
        &&& !self.is_over()
        &&& match a {
            Action::FromInventory { size, to } => place_ok(
                self.board,
                self.stock_of(self.player, size),
                self.player,
                size,
                to,
            ),
            Action::FromBoard { from, to } => move_ok(self.board, self.player, from, to),
        }
    }

    /// The board and inventories after action `a`, before the turn passes.
    pub open spec fn apply_board(self, a: Action) -> GameModel {
        match a {
            Action::FromInventory { size, to } => GameModel {
                board: after_place(self.board, Token { color: self.player, size }, to),
                stock: self.stock.update(stock_index(self.player, size), self.stock_of(self.player, size) - 1),
                ..self
            },
            Action::FromBoard { from, to } => GameModel { board: after_move(self.board, from, to), ..self },
        }
    }

    /// The state after the legal action `a`: the turn passes and one ply is counted.
    pub open spec fn next(self, a: Action) -> GameModel {
        GameModel { player: other(self.player), ply: self.ply + 1, ..self.apply_board(a) }
    }

    /// The state after an attempt of `a`: unchanged when `a` is not legal.
    pub open spec fn step(self, a: Action) -> GameModel {
        if self.legal(a) {
            self.next(a)
        } else {
            self
        }
    }
}

/// The state after each action of `acts` is attempted in turn.
pub open spec fn play(m: GameModel, acts: Seq<Action>) -> GameModel
    decreases acts.len(),
{
    if acts.len() == 0 {
        m
    } else {
        play(m, acts.drop_last()).step(acts.last())
    }
}

/// The legal actions among the indices `0..n`, in index order.
pub open spec fn legal_upto(m: GameModel, n: int) -> Seq<Action>
    decreases n,
{
    if n <= 0 {
        Seq::empty()
    } else if m.legal(decode_spec(n - 1)) {
        legal_upto(m, n - 1).push(decode_spec(n - 1))
    } else {
        legal_upto(m, n - 1)
    }
}

/// The legal actions of a state, in index order.
pub open spec fn legal_list(m: GameModel) -> Seq<Action> {
    legal_upto(m, 108)
}

proof fn lemma_count_push(s: Seq<Token>, x: Token, t: Token)
    ensures
        count_in(s.push(x), t) == count_in(s, t) + if x == t {
            1int
        } else {
            0int
        },
{
    assert(s.push(x).drop_last() =~= s);
}

proof fn lemma_count_upto_update(b: Cells, k: int, s2: Seq<Token>, t: Token, n: int)
    requires
        0 <= k < b.len(),
        0 <= n <= b.len(),
    ensures
        count_upto(b.update(k, s2), t, n) == count_upto(b, t, n) + if k < n {
            count_in(s2, t) - count_in(b[k], t)
        } else {
            0
        },
    decreases n,
{
    if n > 0 {
        lemma_count_upto_update(b, k, s2, t, n - 1);
    }
}

proof fn lemma_on_board_update(b: Cells, k: int, s2: Seq<Token>, t: Token)
    requires
        b.len() == 9,
        0 <= k < 9,
    ensures
        on_board(b.update(k, s2), t) == on_board(b, t) + count_in(s2, t) - count_in(b[k], t),
{
    lemma_count_upto_update(b, k, s2, t, 9);
}

proof fn lemma_count_empty(t: Token, n: int)
    requires
        0 <= n <= 9,
    ensures
        count_upto(Seq::new(9, |i: int| Seq::<Token>::empty()), t, n) == 0,
    decreases n,
{
    if n > 0 {
        lemma_count_empty(t, n - 1);
    }
}

/// A fresh game is well formed.
pub proof fn lemma_initial_wf(start: PlayerId)
    ensures
        initial(start).wf(),
        winner(initial(start).board) is None,
{
    let m = initial(start);
    assert forall|c: PlayerId, s: Size| #[trigger] m.stock_of(c, s) + on_board(m.board, Token { color: c, size: s })
        == 2 by {
        lemma_count_empty(Token { color: c, size: s }, 9);
    }
    assert(line_owner(m.board, 0) is None);
    assert(first_owner(m.board, 0) == first_owner(m.board, 1));
    lemma_winner_wins(m.board);
    assert forall|k: int| 0 <= k < 8 implies #[trigger] line_owner(m.board, k) is None by {
        assert(m.board[line_pos(k, 0).cell_index()].len() == 0);
    }
}

/// A legal action keeps a well-formed state well formed: in particular no
/// token is made or lost.
pub proof fn lemma_next_wf(m: GameModel, a: Action)
    requires
        m.wf(),
        m.legal(a),
    ensures
        m.next(a).wf(),
{
    let n = m.next(a);
    match a {
        Action::FromInventory { size, to } => {
            let t = Token { color: m.player, size };
            let k = to.cell_index();
            assert forall|c: PlayerId, s: Size| #[trigger] n.stock_of(c, s) + on_board(n.board, Token { color: c, size: s })
                == 2 by {
                let u = Token { color: c, size: s };
                lemma_on_board_update(m.board, k, m.board[k].push(t), u);
                lemma_count_push(m.board[k], t, u);
                assert(m.stock_of(c, s) + on_board(m.board, u) == 2);
                if u != t {
                    assert(stock_index(c, s) != stock_index(m.player, size)) by {
                        if c == m.player {
                            assert(s != size);
                        }
                    }
                }
            }
        },
        Action::FromBoard { from, to } => {
            let f = from.cell_index();
            let k = to.cell_index();
            let t0 = m.board[f].last();
            let lifted = m.board.update(f, m.board[f].drop_last());
            assert forall|c: PlayerId, s: Size| #[trigger] n.stock_of(c, s) + on_board(n.board, Token { color: c, size: s })
                == 2 by {
                let u = Token { color: c, size: s };
                lemma_on_board_update(m.board, f, m.board[f].drop_last(), u);
                lemma_on_board_update(lifted, k, lifted[k].push(t0), u);
                lemma_count_push(lifted[k], t0, u);
                assert(m.stock_of(c, s) + on_board(m.board, u) == 2);
            }
        },
    }
}

proof fn lemma_legal_upto_members(m: GameModel, n: int)
    requires
        0 <= n <= 108,
    ensures
        forall|x: Action| #[trigger] legal_upto(m, n).contains(x) <==> exists|i: int|
            0 <= i < n && decode_spec(i) == x && m.legal(x),
    decreases n,
{
    if n > 0 {
        lemma_legal_upto_members(m, n - 1);
        let prev = legal_upto(m, n - 1);
        assert forall|x: Action| #[trigger] legal_upto(m, n).contains(x) <==> exists|i: int|
            0 <= i < n && decode_spec(i) == x && m.legal(x) by {
            if legal_upto(m, n).contains(x) {
                if m.legal(decode_spec(n - 1)) {
                    let j = legal_upto(m, n).index_of(x);
                    if j == prev.len() {
                        assert(decode_spec(n - 1) == x);
                    } else {
                        assert(prev.contains(x));
                    }
                } else {
                    assert(prev.contains(x));
                }
            }
            if exists|i: int| 0 <= i < n && decode_spec(i) == x && m.legal(x) {
                let i = choose|i: int| 0 <= i < n && decode_spec(i) == x && m.legal(x);
                if i == n - 1 {
                    assert(legal_upto(m, n).last() == x);
                    assert(legal_upto(m, n).contains(x));
                } else {
                    assert(prev.contains(x));
                    let j = prev.index_of(x);
                    if m.legal(decode_spec(n - 1)) {
                        assert(legal_upto(m, n)[j] == x);
                    }
                    assert(legal_upto(m, n).contains(x));
                }
            }
        }
    }
}

/// The legal-action list of a state holds exactly its legal actions.
pub proof fn lemma_legal_list_exact(m: GameModel)
    ensures
        forall|x: Action| #[trigger] legal_list(m).contains(x) <==> m.legal(x),
{
    lemma_legal_upto_members(m, 108);
    lemma_codec_bijection();
    assert forall|x: Action| #[trigger] legal_list(m).contains(x) <==> m.legal(x) by {
        if m.legal(x) {
            assert(x.in_range());
            let i = encode_spec(x);
            assert(0 <= i < 108 && decode_spec(i) == x);
        }
    }
}

/// Well-formedness depends on the cells and the counts alone.
pub proof fn lemma_wf_same_contents(m1: GameModel, m2: GameModel)
    requires
        m1.wf(),
        m1.board == m2.board,
        m1.stock == m2.stock,
    ensures
        m2.wf(),
{
    assert forall|c: PlayerId, s: Size| #[trigger] m2.stock_of(c, s) + on_board(m2.board, Token { color: c, size: s })
        == 2 by {
        assert(m1.stock_of(c, s) == m2.stock_of(c, s));
    }
}

} // verus!
