use gobblet::{Action, ActionType, Block, Board, Gobblet, Player, PlayerId, Pos, Size, Status, Token};

fn place(size: Size, col: usize, row: usize) -> Action {
    Action::FromInventory { size, to: Pos::new(col, row) }
}

fn mv(from: (usize, usize), to: (usize, usize)) -> Action {
    Action::FromBoard { from: Pos::new(from.0, from.1), to: Pos::new(to.0, to.1) }
}

fn collect_actions(game: &Gobblet) -> Vec<Action> {
    let mut it = game.iter_actions();
    let mut out = Vec::new();
    while let Some(a) = it.next() {
        out.push(a);
    }
    out
}

#[test]
fn test_token_creation() {
    let token_red_big = Token::new(PlayerId::RED, Size::BIG);
    assert_eq!(token_red_big.color, PlayerId::RED);
    assert_eq!(token_red_big.size, Size::BIG);

    let token_green_small = Token::new(PlayerId::GREEN, Size::SMALL);
    assert_eq!(token_green_small.color, PlayerId::GREEN);
    assert_eq!(token_green_small.size, Size::SMALL);
}

#[test]
fn test_token_to_string() {
    let token_red_mid = Token::new(PlayerId::RED, Size::MID);
    let token_str = token_red_mid.to_string();
    assert!(token_str.contains("🔴"));
}

#[test]
fn test_block_creation() {
    let block = Block::default();
    assert!(block.is_empty());

    let token = Token::new(PlayerId::RED, Size::BIG);
    let block_with_token = Block::new(vec![token]);
    assert_eq!(block_with_token.len(), 1);
}

#[test]
fn test_block_push_token() {
    let mut block = Block::default();
    let token_small = Token::new(PlayerId::RED, Size::SMALL);
    let token_mid = Token::new(PlayerId::GREEN, Size::MID);

    assert!(block.push_token(token_small));
    assert_eq!(block.len(), 1);

    let token_small_red = Token::new(PlayerId::GREEN, Size::SMALL);
    assert!(!block.push_token(token_small_red));
    assert_eq!(block.len(), 1);

    assert!(block.push_token(token_mid));
    assert_eq!(block.len(), 2);
    assert_eq!(block.get_outermost_token().unwrap(), token_mid);
}

#[test]
fn test_block_is_stackable() {
    let mut block = Block::default();
    let token_small = Token::new(PlayerId::RED, Size::SMALL);
    let token_mid = Token::new(PlayerId::GREEN, Size::MID);

    assert!(block.is_stackable(token_small));
    block.push_token(token_small);

    let token_small_red = Token::new(PlayerId::GREEN, Size::SMALL);
    assert!(!block.is_stackable(token_small_red));

    assert!(block.is_stackable(token_mid));
}

#[test]
fn test_block_get_outermost_token() {
    let mut block = Block::default();
    assert!(block.get_outermost_token().is_none());

    let token_small = Token::new(PlayerId::RED, Size::SMALL);
    block.push_token(token_small);
    assert_eq!(block.get_outermost_token().unwrap(), token_small);

    let token_big = Token::new(PlayerId::GREEN, Size::BIG);
    block.push_token(token_big);
    assert_eq!(block.get_outermost_token().unwrap(), token_big);
}

#[test]
fn test_action_conversion() {
    // Index 0 is the first move, from (0,0) to (0,0); placements start at 81.
    let action_id = 0;
    let action = Action::decode(action_id);
    assert_eq!(action.action_type(), ActionType::FromBoard);

    let action_id_back: usize = action.encode();
    assert_eq!(action_id, action_id_back);
}

#[test]
fn test_action_iterator() {
    let game = Gobblet::new();
    let actions = collect_actions(&game);

    assert!(!actions.is_empty());

    for action in actions {
        assert!(game.is_action_valid(&action));
    }
}

#[test]
fn test_valid_actions_after_move() {
    let mut game = Gobblet::new();

    let initial_actions = collect_actions(&game);
    let initial_action_count = initial_actions.len();

    let action = initial_actions[0];
    game.step(&action);

    let new_actions = collect_actions(&game);
    let new_action_count = new_actions.len();

    assert!(new_action_count <= initial_action_count);
}

#[test]
fn test_player_creation() {
    let player_red = Player::new(PlayerId::RED);
    assert_eq!(player_red.color(), PlayerId::RED);
    assert_eq!(
        [player_red.count(Size::SMALL), player_red.count(Size::MID), player_red.count(Size::BIG)],
        [2, 2, 2]
    );

    let player_green = Player::new(PlayerId::GREEN);
    assert_eq!(player_green.color(), PlayerId::GREEN);
    assert_eq!(
        [player_green.count(Size::SMALL), player_green.count(Size::MID), player_green.count(Size::BIG)],
        [2, 2, 2]
    );
}

#[test]
fn test_player_get_token() {
    let mut player = Player::new(PlayerId::RED);

    let token = player.get_token(Size::SMALL);
    assert!(token.is_some());
    assert_eq!(player.count(Size::SMALL), 1);

    player.get_token(Size::SMALL);
    let token_none = player.get_token(Size::SMALL);
    assert!(token_none.is_none());
}

#[test]
fn test_player_place_from_inventory() {
    let mut player = Player::new(PlayerId::RED);
    let mut board = Board::new();

    let success = player.place_from_inventory(Size::SMALL, &mut board, 0, 0);
    assert!(success);
    assert_eq!(player.count(Size::SMALL), 1);
    assert_eq!(
        board.cell(0, 0).get_outermost_token().unwrap(),
        Token::new(PlayerId::RED, Size::SMALL)
    );

    let mut player_green = Player::new(PlayerId::GREEN);
    let fail = player_green.place_from_inventory(Size::SMALL, &mut board, 0, 0);
    assert!(!fail);

    let success = player_green.place_from_inventory(Size::MID, &mut board, 0, 0);
    assert!(success);
    assert_eq!(
        board.cell(0, 0).get_outermost_token().unwrap(),
        Token::new(PlayerId::GREEN, Size::MID)
    );
}

#[test]
fn test_player_swap_token_from_board() {
    let mut player_red = Player::new(PlayerId::RED);
    let mut board = Board::new();

    player_red.place_from_inventory(Size::SMALL, &mut board, 0, 0);

    let success = player_red.swap_token_from_board(&mut board, 0, 0, 1, 1);
    assert!(success);
    assert!(board.cell(0, 0).get_outermost_token().is_none());
    assert_eq!(
        board.cell(1, 1).get_outermost_token().unwrap(),
        Token::new(PlayerId::RED, Size::SMALL)
    );

    let player_green = Player::new(PlayerId::GREEN);
    let fail = player_green.swap_token_from_board(&mut board, 1, 1, 2, 2);
    assert!(!fail);
}

#[test]
fn immediate_stack_equal_size_is_refused() {
    let mut block = Block::default();
    assert!(block.push_token(Token::new(PlayerId::RED, Size::BIG)));
    assert!(!block.push_token(Token::new(PlayerId::GREEN, Size::BIG)));
    assert!(!block.push_token(Token::new(PlayerId::GREEN, Size::MID)));
    assert_eq!(block.len(), 1);

    let mut game = Gobblet::new();
    assert!(game.step(&place(Size::BIG, 0, 0)));
    let before = game.clone();
    assert!(!game.step(&place(Size::BIG, 0, 0)));
    assert!(!game.step(&place(Size::MID, 0, 0)));
    assert_eq!(game, before);
    assert_eq!(game.player(), PlayerId::GREEN);
}

#[test]
fn stacking_rule_same_color_refused_whatever_the_size() {
    let mut block = Block::new(vec![Token::new(PlayerId::RED, Size::SMALL)]);
    assert!(!block.is_stackable(Token::new(PlayerId::RED, Size::MID)));
    assert!(!block.is_stackable(Token::new(PlayerId::RED, Size::BIG)));
    assert!(block.is_stackable(Token::new(PlayerId::GREEN, Size::MID)));
    assert!(block.push_token(Token::new(PlayerId::GREEN, Size::BIG)));
    assert!(!block.is_stackable(Token::new(PlayerId::RED, Size::BIG)));
    assert_eq!(block.pop_outermost_token(), Token::new(PlayerId::GREEN, Size::BIG));
    assert_eq!(block.len(), 1);
}

#[test]
fn win_by_row() {
    let mut game = Gobblet::new();
    let seq = [
        place(Size::SMALL, 0, 0),
        place(Size::SMALL, 0, 1),
        place(Size::SMALL, 1, 0),
        place(Size::SMALL, 2, 2),
        place(Size::MID, 2, 0),
    ];
    for (i, a) in seq.iter().enumerate() {
        assert!(!game.is_over(), "over before action {}", i);
        assert!(game.step(a), "action {} refused", i);
    }
    assert_eq!(game.board().is_gameover(), Some(PlayerId::RED));
    assert_eq!(game.status(), Status::Winner(PlayerId::RED));
    assert!(game.is_over());
    assert_eq!(game.reward(PlayerId::RED), 1);
    assert_eq!(game.reward(PlayerId::GREEN), -1);
    assert!(game.legal_actions().is_empty());
    assert!(!game.step(&place(Size::BIG, 1, 1)));
}

#[test]
fn win_by_row_over_covered_cells() {
    // GREEN covers two of RED's cells; RED covers them back with bigger tokens.
    let mut game = Gobblet::new();
    let seq = [
        place(Size::SMALL, 0, 0),
        place(Size::MID, 0, 0),
        place(Size::SMALL, 1, 0),
        place(Size::MID, 1, 0),
        place(Size::BIG, 0, 0),
        place(Size::SMALL, 2, 2),
        place(Size::BIG, 1, 0),
        place(Size::SMALL, 1, 2),
        place(Size::MID, 2, 0),
    ];
    for (i, a) in seq.iter().enumerate() {
        assert!(!game.is_over(), "over before action {}", i);
        assert!(game.step(a), "action {} refused", i);
    }
    assert_eq!(game.board().is_gameover(), Some(PlayerId::RED));
    assert_eq!(game.reward(PlayerId::RED), 1);
}

#[test]
fn draw_by_cap() {
    let mut game = Gobblet::new();
    assert!(game.step(&place(Size::SMALL, 0, 0)));
    assert!(game.step(&place(Size::SMALL, 2, 2)));
    let mut ply = 2;
    while ply < 72 {
        let a = match ply % 4 {
            0 => mv((1, 0), (0, 0)),
            1 => mv((2, 1), (2, 2)),
            2 => mv((0, 0), (1, 0)),
            _ => mv((2, 2), (2, 1)),
        };
        assert!(!game.is_over());
        assert!(game.step(&a), "ply {} refused", ply);
        ply += 1;
    }
    assert_eq!(game.turn_count(), 72);
    assert_eq!(game.board().is_gameover(), None);
    assert_eq!(game.status(), Status::Draw);
    assert!(game.is_over());
    assert_eq!(game.reward(PlayerId::RED), 0);
    assert_eq!(game.reward(PlayerId::GREEN), 0);
    assert!(game.legal_actions().is_empty());
    let before = game.clone();
    assert!(!game.step(&mv((0, 0), (1, 1))));
    assert!(!game.step(&place(Size::BIG, 1, 1)));
    assert_eq!(game, before);
}

#[test]
fn legal_count_at_start() {
    let game = Gobblet::new();
    let actions = game.legal_actions();
    assert_eq!(actions.len(), 27);
    assert!(actions.iter().all(|a| a.action_type() == ActionType::FromInventory));
    let indices: Vec<usize> = actions.iter().map(|a| a.encode()).collect();
    assert_eq!(indices, (81..108).collect::<Vec<usize>>());
    assert_eq!(collect_actions(&game), actions);
}

#[test]
fn codec_round_trips_over_whole_space() {
    for i in 0..108 {
        let a = Action::decode(i);
        assert_eq!(a.encode(), i);
        assert_eq!(Action::decode(a.encode()), a);
        assert_eq!(a.action_type() == ActionType::FromBoard, i < 81);
    }
}

#[test]
fn action_range_check() {
    assert!(place(Size::MID, 2, 2).is_in_range());
    assert!(!place(Size::MID, 3, 2).is_in_range());
    assert!(mv((0, 2), (2, 0)).is_in_range());
    assert!(!mv((0, 2), (2, 3)).is_in_range());
    assert!(Size::SMALL < Size::MID && Size::MID < Size::BIG);
}

#[test]
fn codec_fixed_indices() {
    assert_eq!(Action::decode(81), place(Size::SMALL, 0, 0));
    assert_eq!(Action::decode(82), place(Size::SMALL, 0, 1));
    assert_eq!(Action::decode(84), place(Size::SMALL, 1, 0));
    assert_eq!(Action::decode(107), place(Size::BIG, 2, 2));
    assert_eq!(place(Size::MID, 2, 1).encode(), 81 + 9 + 6 + 1);
    assert_eq!(Action::decode(0), mv((0, 0), (0, 0)));
    assert_eq!(Action::decode(1), mv((1, 0), (0, 0)));
    assert_eq!(Action::decode(3), mv((0, 1), (0, 0)));
    assert_eq!(Action::decode(9), mv((0, 0), (1, 0)));
    assert_eq!(Action::decode(27), mv((0, 0), (0, 1)));
    assert_eq!(mv((1, 2), (2, 0)).encode(), 1 + 6 + 18);
    assert_eq!(Action::decode(80), mv((2, 2), (2, 2)));
}

#[test]
fn move_onto_itself_decodes_but_is_never_legal() {
    let mut game = Gobblet::new();
    assert!(game.step(&place(Size::SMALL, 1, 1)));
    assert!(game.step(&place(Size::SMALL, 0, 0)));
    let same = mv((1, 1), (1, 1));
    assert_eq!(Action::decode(same.encode()), same);
    assert!(!game.is_action_valid(&same));
    assert!(!game.legal_actions().contains(&same));
    assert!(game.is_action_valid(&mv((1, 1), (2, 2))));
}

#[test]
fn out_of_range_cells_are_refused() {
    let mut game = Gobblet::new();
    assert!(!game.step(&place(Size::SMALL, 3, 0)));
    assert!(!game.step(&place(Size::SMALL, 0, 7)));
    assert!(game.step(&place(Size::SMALL, 0, 0)));
    assert!(game.step(&place(Size::SMALL, 2, 2)));
    assert!(!game.step(&mv((0, 0), (0, 3))));
    assert!(!game.step(&mv((5, 0), (1, 1))));
    assert_eq!(game.turn_count(), 2);
    let board = game.board();
    assert!(!board.is_valid_take_from_board(3, 0));
    assert!(board.is_valid_take_from_board(0, 0));
    assert!(!board.is_valid_take_from_board(1, 1));
}

#[test]
fn moves_only_own_visible_token() {
    let mut game = Gobblet::new();
    assert!(game.step(&place(Size::SMALL, 0, 0)));
    // GREEN may not move RED's token.
    assert!(!game.step(&mv((0, 0), (1, 1))));
    assert!(game.step(&place(Size::MID, 0, 0)));
    // RED's token is now buried under GREEN's.
    assert!(!game.step(&mv((0, 0), (1, 1))));
    assert!(game.step(&place(Size::SMALL, 2, 2)));
    assert!(game.step(&mv((0, 0), (1, 1))));
    assert_eq!(
        game.board().cell(0, 0).get_outermost_token(),
        Some(Token::new(PlayerId::RED, Size::SMALL))
    );
    assert_eq!(
        game.board().cell(1, 1).get_outermost_token(),
        Some(Token::new(PlayerId::GREEN, Size::MID))
    );
}

fn on_board(game: &Gobblet, t: Token) -> usize {
    let mut n = 0;
    for row in 0..3 {
        for col in 0..3 {
            n += game.board().cell(col, row).tokens().iter().filter(|u| **u == t).count();
        }
    }
    n
}

fn assert_conserved(game: &Gobblet) {
    for c in [PlayerId::RED, PlayerId::GREEN] {
        for s in [Size::SMALL, Size::MID, Size::BIG] {
            let off = game.inventory(c).count(s) as usize;
            assert_eq!(off + on_board(game, Token::new(c, s)), 2, "{:?} {:?}", c, s);
        }
    }
}

#[test]
fn conservation_along_a_game() {
    let mut game = Gobblet::with_starting_player(PlayerId::GREEN);
    let seq = [
        place(Size::SMALL, 1, 1),
        place(Size::MID, 1, 1),
        place(Size::BIG, 1, 1),
        place(Size::SMALL, 2, 2),
        mv((1, 1), (0, 0)),
        mv((1, 1), (0, 1)),
        place(Size::SMALL, 0, 2),
    ];
    assert_conserved(&game);
    for a in seq.iter() {
        assert!(game.step(a));
        assert_conserved(&game);
    }
    assert_eq!(game.inventory(PlayerId::GREEN).count(Size::SMALL), 0);
    assert_eq!(game.inventory(PlayerId::RED).count(Size::MID), 1);
    assert_eq!(on_board(&game, Token::new(PlayerId::GREEN, Size::BIG)), 1);
}

#[test]
fn determinism_of_replay() {
    let seq = [
        place(Size::BIG, 1, 1),
        place(Size::SMALL, 0, 0),
        mv((1, 1), (0, 0)),
        place(Size::MID, 2, 2),
        place(Size::BIG, 0, 0),
        place(Size::SMALL, 1, 1),
    ];
    let mut g1 = Gobblet::with_starting_player(PlayerId::RED);
    let mut g2 = Gobblet::with_starting_player(PlayerId::RED);
    for a in seq.iter() {
        assert_eq!(g1.step(a), g2.step(a));
        assert_eq!(g1, g2);
        assert_eq!(g1.board(), g2.board());
        assert_eq!(g1.legal_actions(), g2.legal_actions());
        assert_eq!(g1.features(), g2.features());
    }
}

#[test]
fn uncovering_move_can_complete_both_lines() {
    let mut game = Gobblet::new();
    let seq = [
        place(Size::SMALL, 0, 0),
        place(Size::SMALL, 2, 2),
        place(Size::BIG, 2, 2),
        place(Size::SMALL, 0, 2),
        place(Size::SMALL, 1, 0),
        place(Size::MID, 1, 2),
    ];
    for a in seq.iter() {
        assert!(game.step(a));
        assert_eq!(game.status(), Status::InProgress);
    }
    assert!(game.step(&mv((2, 2), (2, 0))));
    for col in 0..3 {
        assert_eq!(game.board().cell(col, 0).get_outermost_token().unwrap().color, PlayerId::RED);
        assert_eq!(game.board().cell(col, 2).get_outermost_token().unwrap().color, PlayerId::GREEN);
    }
    // Row 0 comes before row 2 in the scan, so RED is reported.
    assert_eq!(game.status(), Status::Winner(PlayerId::RED));
}

#[test]
fn features_of_visible_tokens() {
    let mut game = Gobblet::new();
    assert_eq!(game.features(), vec![0u8; 54]);
    assert!(game.step(&place(Size::BIG, 1, 0)));
    assert!(game.step(&place(Size::MID, 0, 2)));
    let f = game.features();
    assert_eq!(f.len(), 54);
    let mut want = vec![0u8; 54];
    want[6 * 1 + 2] = 1;
    want[6 * 6 + 3 + 1] = 1;
    assert_eq!(f, want);
}

#[test]
fn starting_player_and_turns() {
    let mut game = Gobblet::with_starting_player(PlayerId::GREEN);
    assert_eq!(game.player(), PlayerId::GREEN);
    assert_eq!(game.turn_count(), 0);
    assert!(game.step(&place(Size::SMALL, 0, 0)));
    assert_eq!(game.player(), PlayerId::RED);
    assert_eq!(game.turn_count(), 1);
    assert_eq!(
        game.board().cell(0, 0).get_outermost_token(),
        Some(Token::new(PlayerId::GREEN, Size::SMALL))
    );
    assert_eq!(PlayerId::RED.next(), PlayerId::GREEN);
    assert_eq!(PlayerId::GREEN.prev(), PlayerId::RED);
}

#[test]
fn random_start_is_a_fresh_game() {
    let game = Gobblet::with_random_start();
    assert!(game.player() == PlayerId::RED || game.player() == PlayerId::GREEN);
    assert_eq!(game.turn_count(), 0);
    assert_eq!(game.legal_actions().len(), 27);
    assert_eq!(game, Gobblet::with_starting_player(game.player()));
}

#[test]
fn inventory_runs_out() {
    let mut game = Gobblet::new();
    assert!(game.step(&place(Size::BIG, 0, 0)));
    assert!(game.step(&place(Size::SMALL, 2, 2)));
    assert!(game.step(&place(Size::BIG, 1, 1)));
    assert!(game.step(&place(Size::SMALL, 2, 1)));
    assert_eq!(game.inventory(PlayerId::RED).count(Size::BIG), 0);
    assert!(!game.inventory(PlayerId::RED).has(Size::BIG));
    assert!(game.inventory(PlayerId::GREEN).has(Size::BIG));
    assert!(!game.step(&place(Size::BIG, 2, 0)));
    assert!(!game.legal_actions().contains(&place(Size::BIG, 2, 0)));
    assert!(game.legal_actions().contains(&place(Size::MID, 2, 0)));
}

#[test]
fn parse_action_keeps_the_turn() {
    let mut game = Gobblet::new();
    assert!(game.parse_action(place(Size::SMALL, 0, 0)));
    assert_eq!(game.player(), PlayerId::RED);
    assert_eq!(game.turn_count(), 0);
    assert_eq!(game.inventory(PlayerId::RED).count(Size::SMALL), 1);
    assert!(!game.parse_action(place(Size::SMALL, 0, 0)));
}
