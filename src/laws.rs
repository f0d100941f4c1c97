use vstd::prelude::*;
use crate::action::{decode_spec, lemma_codec_bijection, Action, Pos};
use crate::board::{lemma_winner_wins, line_owner, line_pos, top_at, winner, wins};
use crate::model::{
    initial, legal_list, legal_upto, lemma_initial_wf, lemma_legal_list_exact, lemma_next_wf, on_board, play,
    GameModel, Status,
};
use crate::token::{other, PlayerId, Size, Token};

verus! {

proof fn lemma_play_wf(m: GameModel, acts: Seq<Action>)
    requires
        m.wf(),
    ensures
        play(m, acts).wf(),
    decreases acts.len(),
{
    if acts.len() > 0 {
        lemma_play_wf(m, acts.drop_last());
        let before = play(m, acts.drop_last());
        if before.legal(acts.last()) {
            lemma_next_wf(before, acts.last());
        }
    }
}

/// In every state that a game reaches, whatever the starting
/// player and the actions attempted, each color has, of each size, two tokens
/// between its inventory and the board.
pub proof fn lemma_conservation(start: PlayerId, acts: Seq<Action>)
    ensures
        forall|c: PlayerId, s: Size|
            #[trigger] play(initial(start), acts).stock_of(c, s) + on_board(
                play(initial(start), acts).board,
                Token { color: c, size: s },
            ) == 2,
{
    lemma_initial_wf(start);
    lemma_play_wf(initial(start), acts);
}

/// Two games in the same state that are fed the same actions
/// stay in the same state, with the same legal actions in the same order.
pub proof fn lemma_determinism(m1: GameModel, m2: GameModel, acts: Seq<Action>)
    requires
        m1 == m2,
    ensures
        play(m1, acts) == play(m2, acts),
        legal_list(play(m1, acts)) == legal_list(play(m2, acts)),
{
}

/// Whether action `a` lifts a token off a stack that has another beneath it,
/// which then shows.
pub open spec fn uncovers(m: GameModel, a: Action) -> bool {
    match a {
        Action::FromBoard { from, .. } => m.board[from.cell_index()].len() >= 2,
        Action::FromInventory { .. } => false,
    }
}

proof fn lemma_line_pos_in_range(k: int, j: int)
    requires
        0 <= k < 8,
        0 <= j < 3,
    ensures
        line_pos(k, j).in_range(),
{
}

/// For actions that uncover nothing: a legal placement,
/// or a legal move off a stack of one token, never completes a line for the
/// player who did not act, so the two colors never both complete a line.
/// (A move off a taller stack shows the token beneath, which is always of the
/// other color, and can complete lines for both players at once.)
pub proof fn lemma_terminal_exclusive(m: GameModel, a: Action)
    requires
        m.wf(),
        m.legal(a),
        !uncovers(m, a),
    ensures
        !wins(m.next(a).board, other(m.player)),
        !(wins(m.next(a).board, PlayerId::RED) && wins(m.next(a).board, PlayerId::GREEN)),
{
    let b = m.board;
    let nb = m.next(a).board;
    let opp = other(m.player);
    lemma_winner_wins(b);
    if wins(nb, opp) {
        let k = choose|k: int| 0 <= k < 8 && #[trigger] line_owner(nb, k) == Some(opp);
        assert forall|j: int| 0 <= j < 3 implies #[trigger] top_at(nb, line_pos(k, j)) == top_at(b, line_pos(k, j))
            by {
            let p = line_pos(k, j);
            lemma_line_pos_in_range(k, j);
            assert(line_owner(nb, k) == Some(opp));
            assert(top_at(nb, p) is Some && top_at(nb, p)->0.color == opp) by {
                assert(top_at(nb, line_pos(k, 0)) is Some);
                assert(top_at(nb, line_pos(k, 1)) is Some);
                assert(top_at(nb, line_pos(k, 2)) is Some);
            }
            match a {
                Action::FromInventory { size, to } => {
                    assert(p.cell_index() != to.cell_index());
                },
                Action::FromBoard { from, to } => {
                    assert(p.cell_index() != to.cell_index());
                    assert(p.cell_index() != from.cell_index());
                },
            }
        }
        assert(line_owner(b, k) == line_owner(nb, k));
        assert(wins(b, opp));
    }
}

/// A state that has reached the ply cap with no line completed
/// is a draw, and no action is legal in it.
pub proof fn lemma_draw_at_cap(m: GameModel)
    requires
        winner(m.board) is None,
        m.ply >= 72,
    ensures
        m.status() == Status::Draw,
        forall|a: Action| !(#[trigger] m.legal(a)),
{
}

/// Once a game is over it stays as it is: every action is refused and the
/// list of legal actions is empty.
pub proof fn lemma_terminal_absorbing(m: GameModel)
    requires
        m.is_over(),
    ensures
        forall|a: Action| #[trigger] m.step(a) == m,
        legal_list(m).len() == 0,
{
    lemma_legal_list_exact(m);
    if legal_list(m).len() > 0 {
        assert(legal_list(m).contains(legal_list(m)[0]));
    }
}

proof fn lemma_opening_upto(start: PlayerId, n: int)
    requires
        0 <= n <= 108,
    ensures
        legal_upto(initial(start), n).len() == if n <= 81 {
            0
        } else {
            n - 81
        },
        forall|i: int|
            0 <= i < legal_upto(initial(start), n).len() ==> #[trigger] legal_upto(initial(start), n)[i]
                is FromInventory,
    decreases n,
{
    let m = initial(start);
    lemma_initial_wf(start);
    if n > 0 {
        lemma_opening_upto(start, n - 1);
        let a = decode_spec(n - 1);
        if n - 1 < 81 {
            let from = Pos { col: ((n - 1) % 3) as usize, row: (((n - 1) / 3) % 3) as usize };
            assert(m.board[from.cell_index()].len() == 0);
            assert(!m.legal(a));
        } else {
            lemma_codec_bijection();
            assert(a.in_range());
            match a {
                Action::FromInventory { size, to } => {
                    assert(m.board[to.cell_index()].len() == 0);
                    assert(m.stock_of(start, size) == 2);
                    assert(m.legal(a));
                },
                Action::FromBoard { .. } => {},
            }
        }
    }
}

/// At the opening, whoever starts, exactly 27 actions are legal, all of them
/// placements: three sizes on each of the nine empty cells.
pub proof fn lemma_opening_actions(start: PlayerId)
    ensures
        legal_list(initial(start)).len() == 27,
        forall|i: int| 0 <= i < 27 ==> #[trigger] legal_list(initial(start))[i] is FromInventory,
{
    lemma_opening_upto(start, 108);
}

} // verus!
