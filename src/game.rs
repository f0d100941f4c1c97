use vstd::prelude::*;
use crate::action::{Action, ACTION_SPACE_SIZE};
use crate::block::top;
use crate::board::{feature_bit, Board};
use crate::model::{
    initial, lemma_initial_wf, lemma_legal_list_exact, lemma_next_wf, lemma_wf_same_contents, legal_list, legal_upto,
    stock_index, GameModel, Status, MAX_TURNS,
};
use crate::player::Player;
use crate::token::{PlayerId, Size};

verus! {

/// Relies on rand::random::<bool>, a draw from the thread-local generator;
/// nothing is known of the outcome.
#[verifier::external_body]
fn coin_flip() -> (r: bool) {
    rand::random::<bool>()
}

/// A game of Gobblet: the board, both inventories, the player to act and the
/// number of plies played.
#[derive(Debug, Clone, PartialEq, Eq, Hash)]
pub struct Gobblet {
    board: Board,
    player: PlayerId,
    red: Player,
    green: Player,
    turn_count: usize,
}

impl View for Gobblet {
    type V = GameModel;

    closed spec fn view(&self) -> GameModel {
        GameModel {
            board: self.board@,
            player: self.player,
            stock: seq![
                self.red.stock(Size::SMALL),
                self.red.stock(Size::MID),
                self.red.stock(Size::BIG),
                self.green.stock(Size::SMALL),
                self.green.stock(Size::MID),
                self.green.stock(Size::BIG),
            ],
            ply: self.turn_count as nat,
        }
    }
}

impl Gobblet {
    /// The inventory of color `c`.
    pub closed spec fn inventory_spec(&self, c: PlayerId) -> Player {
        match c {
            PlayerId::RED => self.red,
            PlayerId::GREEN => self.green,
        }
    }

    /// Well formed: every stack obeys the stacking rule, each inventory belongs
    /// to its color, and the state as values is well formed.
    pub closed spec fn wf(&self) -> bool {
        &&& self.board.wf()
        &&& self.red.color_spec() == PlayerId::RED
        &&& self.green.color_spec() == PlayerId::GREEN
        &&& self.red.wf()
        &&& self.green.wf()
        &&& self@.wf()
    }

    proof fn lemma_stock_view(&self)
        ensures
            forall|c: PlayerId, s: Size| #[trigger] self@.stock_of(c, s) == self.inventory_spec(c).stock(s),
    {
        assert forall|c: PlayerId, s: Size| #[trigger] self@.stock_of(c, s) == self.inventory_spec(c).stock(s) by {
            match c {
                PlayerId::RED => match s {
                    Size::SMALL => {},
                    Size::MID => {},
                    Size::BIG => {},
                },
                PlayerId::GREEN => match s {
                    Size::SMALL => {},
                    Size::MID => {},
                    Size::BIG => {},
                },
            }
        }
    }

    /// A fresh game in which `start` acts first.
    pub fn with_starting_player(start: PlayerId) -> (g: Gobblet)
        ensures
            g@ == initial(start),
            g.wf(),
    {
        let g = Gobblet {
            board: Board::new(),
            player: start,
            red: Player::new(PlayerId::RED),
            green: Player::new(PlayerId::GREEN),
            turn_count: 0,
        };
        proof {
            assert forall|i: int| 0 <= i < 9 implies g@.board[i] =~= initial(start).board[i] by {}
            assert(g@.board =~= initial(start).board);
            assert(g@.stock =~= initial(start).stock);
            lemma_initial_wf(start);
        }
        g
    }

    /// A fresh game in which RED acts first.
    pub fn new() -> (g: Gobblet)
        ensures
            g@ == initial(PlayerId::RED),
            g.wf(),
    {
        Gobblet::with_starting_player(PlayerId::RED)
    }

    /// A fresh game in which a player drawn at random acts first.
    pub fn with_random_start() -> (g: Gobblet)
        ensures
            g@ == initial(PlayerId::RED) || g@ == initial(PlayerId::GREEN),
            g.wf(),
    {
        if coin_flip() {
            Gobblet::with_starting_player(PlayerId::RED)
        } else {
            Gobblet::with_starting_player(PlayerId::GREEN)
        }
    }

    /// The player to act.
    pub fn player(&self) -> (r: PlayerId)
        ensures
            r == self@.player,
    {
        self.player
    }

    /// The number of plies played.
    pub fn turn_count(&self) -> (r: usize)
        ensures
            r == self@.ply,
    {
        self.turn_count
    }

    pub fn board(&self) -> (r: &Board)
        requires
            self.wf(),
        ensures
            r@ == self@.board,
            r.wf(),
    {
        &self.board
    }

    /// The inventory of color `c`.
    pub fn inventory(&self, c: PlayerId) -> (r: &Player)
        requires
            self.wf(),
        ensures
            r.color_spec() == c,
            forall|s: Size| #[trigger] r.stock(s) == self@.stock_of(c, s),
    {
        proof {
            self.lemma_stock_view();
        }
        match c {
            PlayerId::RED => &self.red,
            PlayerId::GREEN => &self.green,
        }
    }

    /// In progress, won by a color, or drawn once the ply cap is reached.
    pub fn status(&self) -> (r: Status)
        requires
            self.wf(),
        ensures
            r == self@.status(),
    {
        match self.board.is_gameover() {
            Some(c) => Status::Winner(c),
            None => if self.turn_count >= MAX_TURNS {
                Status::Draw
            } else {
                Status::InProgress
            },
        }
    }

    pub fn is_over(&self) -> (r: bool)
        requires
            self.wf(),
        ensures
            r == self@.is_over(),
    {
        match self.status() {
            Status::InProgress => false,
            _ => true,
        }
    }

    /// +1 when `player_id` has won, -1 when the other player has, 0 otherwise.
    pub fn reward(&self, player_id: PlayerId) -> (r: i8)
        requires
            self.wf(),
        ensures
            r as int == self@.reward(player_id),
    {
        match self.status() {
            Status::Winner(c) => if c == player_id {
                1
            } else {
                -1
            },
            _ => 0,
        }
    }

    /// Whether the player to act may take `action` now.
    pub fn is_action_valid(&self, action: &Action) -> (r: bool)
        requires
            self.wf(),
        ensures
            r == self@.legal(*action),
    {
        if self.is_over() {
            return false;
        }
        let p = self.inventory(self.player);
        match action {
            Action::FromInventory { size, to } => p.is_valid_place_from_inventory(*size, &self.board, to.col, to.row),
            Action::FromBoard { from, to } => p.is_valid_swap_from_board(&self.board, from.col, from.row, to.col, to.row),
        }
    }

    /// Carries out `action` on the board and the inventories if it is legal,
    /// without passing the turn; reports whether it did.
    pub fn parse_action(&mut self, action: Action) -> (r: bool)
        requires
            old(self).wf(),
        ensures
            r == old(self)@.legal(action),
            r ==> final(self)@ == old(self)@.apply_board(action),
            !r ==> *final(self) == *old(self),
            final(self).wf(),
    {
        if !self.is_action_valid(&action) {
            return false;
        }
        proof {
            self.lemma_stock_view();
        }
        match action {
            Action::FromInventory { size, to } => {
                match self.player {
                    PlayerId::RED => {
                        self.red.place_from_inventory(size, &mut self.board, to.col, to.row);
                    },
                    PlayerId::GREEN => {
                        self.green.place_from_inventory(size, &mut self.board, to.col, to.row);
                    },
                }
                proof {
                    let want = old(self)@.apply_board(action);
                    assert(self@.stock =~= want.stock) by {
                        assert forall|i: int| 0 <= i < 6 implies self@.stock[i] == want.stock[i] by {
                            let c = if i < 3 { PlayerId::RED } else { PlayerId::GREEN };
                            let s = Size::of_rank(i % 3);
                            assert(stock_index(c, s) == i);
                            if s != size || c != old(self).player {
                                assert(stock_index(c, s) != stock_index(old(self).player, size));
                            }
                        }
                    }
                }
            },
            Action::FromBoard { from, to } => {
                match self.player {
                    PlayerId::RED => {
                        self.red.swap_token_from_board(&mut self.board, from.col, from.row, to.col, to.row);
                    },
                    PlayerId::GREEN => {
                        self.green.swap_token_from_board(&mut self.board, from.col, from.row, to.col, to.row);
                    },
                }
                assert(self@.stock =~= old(self)@.stock);
            },
        }
        proof {
            lemma_next_wf(old(self)@, action);
            assert(self@.board == old(self)@.next(action).board);
            assert(self@.stock == old(self)@.next(action).stock);
            lemma_wf_same_contents(old(self)@.next(action), self@);
        }
        true
    }

    /// Takes `action` if it is legal for the player to act: the board and the
    /// inventories change, the turn passes and one ply is counted. An action
    /// that is not legal changes nothing. Reports whether it was taken.
    pub fn step(&mut self, action: &Action) -> (r: bool)
        requires
            old(self).wf(),
        ensures
            final(self).wf(),
            r == old(self)@.legal(*action),
            final(self)@ == old(self)@.step(*action),
    {
        if self.parse_action(*action) {
            self.player = self.player.next();
            self.turn_count = self.turn_count + 1;
            assert(self@ == old(self)@.next(*action));
            proof {
                lemma_wf_same_contents(old(self)@.apply_board(*action), self@);
            }
            true
        } else {
            false
        }
    }

    /// Every legal action, in index order.
    pub fn legal_actions(&self) -> (r: Vec<Action>)
        requires
            self.wf(),
        ensures
            r@ == legal_list(self@),
            forall|a: Action| #[trigger] r@.contains(a) <==> self@.legal(a),
    {
        let mut out: Vec<Action> = Vec::new();
        let mut i: usize = 0;
        while i < ACTION_SPACE_SIZE
            invariant
                self.wf(),
                i <= ACTION_SPACE_SIZE,
                out@ == legal_upto(self@, i as int),
            decreases ACTION_SPACE_SIZE - i,
        {
            let a = Action::decode(i);
            if self.is_action_valid(&a) {
                out.push(a);
            }
            i += 1;
        }
        proof {
            lemma_legal_list_exact(self@);
        }
        out
    }

    /// An iterator-like cursor over the legal actions, in index order.
    pub fn iter_actions(&self) -> (r: ValidActions)
        requires
            self.wf(),
        ensures
            r.remaining() == legal_list(self@),
    {
        ValidActions::new(self)
    }

    /// The board's feature vector, six slots per cell (see `Board::to_features`).
    pub fn features(&self) -> (r: Vec<u8>)
        requires
            self.wf(),
        ensures
            r@.len() == 54,
            forall|i: int, s: int|
                0 <= i < 9 && 0 <= s < 6 ==> #[trigger] r@[6 * i + s] == feature_bit(top(self@.board[i]), s),
    {
        self.board.to_features()
    }
}

/// The legal actions of a state, handed out one at a time in index order.
pub struct ValidActions {
    actions: Vec<Action>,
    action_id: usize,
}

impl ValidActions {
    /// The actions not yet handed out.
    pub closed spec fn remaining(&self) -> Seq<Action> {
        self.actions@.subrange(self.action_id as int, self.actions@.len() as int)
    }

    pub closed spec fn wf(&self) -> bool {
        self.action_id <= self.actions@.len()
    }

    pub fn new(game: &Gobblet) -> (r: ValidActions)
        requires
            game.wf(),
        ensures
            r.wf(),
            r.remaining() == legal_list(game@),
    {
        let actions = game.legal_actions();
        let r = ValidActions { actions, action_id: 0 };
        assert(r.remaining() =~= legal_list(game@));
        r
    }

    /// The next legal action, or `None` once all were handed out.
    pub fn next(&mut self) -> (r: Option<Action>)
        requires
            old(self).wf(),
        ensures
            final(self).wf(),
            old(self).remaining().len() == 0 ==> r is None && final(self).remaining() == old(self).remaining(),
            old(self).remaining().len() > 0 ==> r == Some(old(self).remaining()[0]) && final(self).remaining()
                == old(self).remaining().drop_first(),
    {
        if self.action_id < self.actions.len() {
            let a = self.actions[self.action_id];
            self.action_id += 1;
            assert(self.remaining() =~= old(self).remaining().drop_first());
            Some(a)
        } else {
            None
        }
    }
}

} // verus!
