use minichain::chess::{ChessPiece, Color, State, Transition};

#[test]
fn test_wrong_side_color() {
    let state = State::default();
    let end = State::next_state(
        &state,
        &Transition::Move { chess_piece: ChessPiece::Pawn(Color::Black), from: (7, 1), to: (7, 3) },
    );
    let expected = State::default();
    assert_eq!(end, expected);
}

#[test]
fn test_pawn_move_failed_invalid_move() {
    let state = State::default();
    let end = State::next_state(
        &state,
        &Transition::Move { chess_piece: ChessPiece::Pawn(Color::White), from: (7, 1), to: (8, 8) },
    );
    let expected = State::default();
    assert_eq!(end, expected);
}

#[test]
fn test_success_move_pawn() {
    let state = State::default();
    let end = State::next_state(
        &state,
        &Transition::Move { chess_piece: ChessPiece::Pawn(Color::White), from: (7, 1), to: (6, 2) },
    );
    let mut expected = State::default();
    expected.board_move((7, 1), (6, 2));
    expected.next_color(Color::White);
    assert_eq!(end, expected);
}

#[test]
fn test_invalid_bishop_move() {
    let state = State::default();
    let end = State::next_state(
        &state,
        &Transition::Move {
            chess_piece: ChessPiece::Bishop(Color::White),
            from: (8, 3),
            to: (7, 3),
        },
    );
    let expected = State::default();
    assert_eq!(end, expected);
}

#[test]
fn test_invalid_king_move() {
    let state = State::default();
    let end = State::next_state(
        &state,
        &Transition::Move { chess_piece: ChessPiece::King(Color::White), from: (8, 5), to: (8, 7) },
    );
    let expected = State::default();
    assert_eq!(end, expected);
}

#[test]
fn move_blocked_by_own_piece_on_a_reachable_square() {
    // The white knight could hop to (6, 1), but its move pattern also
    // covers (7, 4), where a white pawn stands: the move is refused.
    let state = State::default();
    let end = State::next_state(
        &state,
        &Transition::Move {
            chess_piece: ChessPiece::Knight(Color::White),
            from: (8, 2),
            to: (6, 1),
        },
    );
    let expected = State::default();
    assert_eq!(end, expected);
}

#[test]
fn piece_must_stand_on_source_square() {
    let state = State::default();
    let end = State::next_state(
        &state,
        &Transition::Move { chess_piece: ChessPiece::Pawn(Color::White), from: (5, 5), to: (4, 6) },
    );
    let expected = State::default();
    assert_eq!(end, expected);
}

#[test]
fn pawn_has_single_target_from_opening_row() {
    let moves = ChessPiece::Pawn(Color::White).get_moves((7, 1));
    assert_eq!(moves, vec![(6, 2)]);
}

#[test]
fn king_in_corner_has_three_targets() {
    let moves = ChessPiece::King(Color::White).get_moves((1, 1));
    assert_eq!(moves.len(), 3);
    assert!(moves.contains(&(2, 2)));
    assert!(moves.contains(&(2, 1)));
    assert!(moves.contains(&(1, 2)));
}

#[test]
fn rook_walks_only_one_square_towards_lower_columns() {
    let moves = ChessPiece::Rook(Color::White).get_moves((4, 4));
    assert!(moves.contains(&(4, 3)));
    assert!(!moves.contains(&(4, 2)));
    assert!(!moves.contains(&(4, 1)));
    assert!(moves.contains(&(4, 8)));
    assert!(moves.contains(&(1, 4)));
    assert!(moves.contains(&(8, 4)));
    assert!(!moves.contains(&(4, 4)));
}

#[test]
fn far_away_source_square_has_no_targets() {
    let moves = ChessPiece::Queen(Color::Black).get_moves((100, -100));
    assert!(moves.is_empty());
}

#[test]
fn board_move_onto_occupied_square_reports_the_occupant() {
    let mut state = State::default();
    let killed = state.board_move((7, 1), (2, 1));
    assert_eq!(killed, Some(ChessPiece::Pawn(Color::Black)));
    // The occupied-target path neither clears the source square nor
    // advances the move counter.
    assert_eq!(state.moves, 0);
    let again = state.board_move((7, 1), (5, 1));
    assert_eq!(again, None);
    assert_eq!(state.moves, 1);
}

#[test]
fn board_move_from_empty_square_only_counts() {
    let mut state = State::default();
    let expected = State::default();
    let killed = state.board_move((5, 5), (4, 4));
    assert_eq!(killed, None);
    assert_eq!(state.moves, 1);
    assert_eq!(state.board, expected.board);
}

#[test]
fn colors_oppose_each_other() {
    assert_eq!(Color::White.get_other_color(), Color::Black);
    assert_eq!(Color::Black.get_other_color(), Color::White);
    assert_eq!(Color::White.dir(), -1);
    assert_eq!(Color::Black.dir(), 1);
}

#[test]
fn machine_has_a_name() {
    assert_eq!(State::human_name(), "Chess State Machine");
}
