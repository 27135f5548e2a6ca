use anu::board::{Field, GameState};
use anu::round::{cell_index, cell_of, refusal, verdict, Round, Step, INVALID_CELL_MESSAGE};

#[test]
fn cell_input_maps_one_to_nine_onto_the_indices() {
    assert_eq!(cell_index("1\n"), Some(0));
    assert_eq!(cell_index("5\n"), Some(4));
    assert_eq!(cell_index("9\n"), Some(8));
    assert_eq!(cell_index(" 9 \n"), Some(8));
}

#[test]
fn cell_input_outside_one_to_nine_is_rejected() {
    assert_eq!(cell_index("0\n"), None);
    assert_eq!(cell_index("10\n"), None);
    assert_eq!(cell_index("100\n"), None);
    assert_eq!(cell_index("\n"), None);
    assert_eq!(cell_index("a1\n"), None);
    assert_eq!(cell_index("-1\n"), None);
}

#[test]
fn the_invalid_cell_message() {
    assert_eq!(INVALID_CELL_MESSAGE, "You must input a valid cell between 1 and 9");
}

#[test]
fn a_fresh_round_waits_for_the_person() {
    let mut round = Round::new();
    assert!(round.turn());
    assert_eq!(round.board().get_blank_fields().len(), 9);
    assert_eq!(round.next_step(), Step::HumanMove);
    assert_eq!(*round.board().get_game_state(), GameState::Unfinished);
}

#[test]
fn x_wins_the_top_row_against_a_forced_opponent() {
    let mut round = Round::new();
    let human = ["1\n", "2\n", "3\n"];
    let opponent = [3usize, 4];
    for turn in 0..3 {
        assert_eq!(round.next_step(), Step::HumanMove);
        let cell = cell_index(human[turn]).unwrap();
        assert_eq!(cell, turn);
        assert_eq!(round.play(cell), Ok(()));
        if turn < 2 {
            assert_eq!(round.next_step(), Step::OpponentMove);
            assert!(round.board().get_blank_fields().contains(&opponent[turn]));
            assert_eq!(round.play(opponent[turn]), Ok(()));
        }
    }
    assert_eq!(round.next_step(), Step::Over);
    assert_eq!(*round.board().get_game_state(), GameState::Won(Field::X));
    let said = verdict(round.board().get_game_state());
    assert_eq!(said, "The winner is ✕!!!\nPress ENTER to return\n");
    // Asking again changes nothing.
    assert_eq!(round.next_step(), Step::Over);
    assert_eq!(*round.board().get_game_state(), GameState::Won(Field::X));
}

#[test]
fn an_illegal_move_keeps_the_turn() {
    let mut round = Round::new();
    assert_eq!(round.next_step(), Step::HumanMove);
    assert_eq!(round.play(0), Ok(()));
    assert!(!round.turn());
    assert_eq!(round.next_step(), Step::OpponentMove);
    assert_eq!(round.play(4), Ok(()));
    assert!(round.turn());

    // Board: X at 0. The person names cell 1 again.
    assert_eq!(round.next_step(), Step::HumanMove);
    let cell = cell_index("1\n").unwrap();
    let refused = round.play(cell);
    assert_eq!(refused, Err("Space is not empty"));
    assert_eq!(
        refusal(refused.unwrap_err()),
        "Space is not empty\nPress ENTER to continue\n"
    );
    assert!(round.turn());
    assert_eq!(round.board().get_blank_fields(), &vec![1, 2, 3, 5, 6, 7, 8]);
    assert_eq!(round.next_step(), Step::HumanMove);
}

#[test]
fn an_illegal_move_of_the_opponent_keeps_the_turn_too() {
    let mut round = Round::new();
    assert_eq!(round.play(0), Ok(()));
    assert_eq!(round.play(0), Err("Space is not empty"));
    assert!(!round.turn());
    assert_eq!(round.next_step(), Step::OpponentMove);
}

#[test]
fn marks_alternate_from_x() {
    let mut round = Round::new();
    for n in [4usize, 0, 8] {
        assert_eq!(round.play(n), Ok(()));
    }
    let lines = round.board().get_valid_lines();
    assert_eq!(lines[6], [&Field::O, &Field::X, &Field::X]);
}

#[test]
fn the_random_opponent_takes_a_blank_cell() {
    for _ in 0..50 {
        let mut round = Round::new();
        assert_eq!(round.play(4), Ok(()));
        let before = round.board().get_blank_fields().clone();
        let picked = round.random_move().unwrap();
        assert!(before.contains(&picked));
        assert_ne!(picked, 4);
        let mut after = before.clone();
        after.retain(|n| *n != picked);
        assert_eq!(round.board().get_blank_fields(), &after);
        assert!(round.turn());
        let row = round.board().get_valid_lines()[picked / 3];
        assert_eq!(*row[picked % 3], Field::O);
    }
}

#[test]
fn the_random_opponent_reaches_every_blank_cell() {
    let mut seen = [false; 9];
    for _ in 0..2000 {
        let mut round = Round::new();
        assert_eq!(round.play(0), Ok(()));
        seen[round.random_move().unwrap()] = true;
    }
    assert_eq!(seen, [false, true, true, true, true, true, true, true, true]);
}

#[test]
fn random_moves_fill_the_board_and_then_stop() {
    let mut round = Round::new();
    let mut picked = Vec::new();
    for left in (1..=9).rev() {
        assert_eq!(round.board().get_blank_fields().len(), left);
        picked.push(round.random_move().unwrap());
    }
    picked.sort();
    assert_eq!(picked, vec![0, 1, 2, 3, 4, 5, 6, 7, 8]);
    let turn = round.turn();
    assert_eq!(round.random_move(), None);
    assert_eq!(round.turn(), turn);
    assert_eq!(round.next_step(), Step::Over);
}

#[test]
fn a_round_played_by_chance_alone_ends_decided() {
    for _ in 0..200 {
        let mut round = Round::new();
        let mut moves = 0;
        loop {
            match round.next_step() {
                Step::Over => break,
                Step::HumanMove | Step::OpponentMove => {
                    assert!(round.random_move().is_some());
                    moves += 1;
                }
            }
        }
        assert!((5..=9).contains(&moves));
        match round.board().get_game_state() {
            GameState::Won(mark) => {
                assert_ne!(*mark, Field::Blank);
                assert!(round
                    .board()
                    .get_valid_lines()
                    .iter()
                    .any(|line| line == &[mark, mark, mark]));
            }
            GameState::Draw => {
                assert_eq!(moves, 9);
                assert!(round.board().get_blank_fields().is_empty());
            }
            GameState::Unfinished => panic!("a finished round is decided"),
        }
    }
}

#[test]
fn a_drawn_round_says_so() {
    let mut round = Round::new();
    // X O X / X O O / O X X
    for n in [0usize, 1, 2, 4, 3, 5, 7, 6, 8] {
        assert_ne!(round.next_step(), Step::Over);
        assert_eq!(round.play(n), Ok(()));
    }
    assert_eq!(round.next_step(), Step::Over);
    assert_eq!(*round.board().get_game_state(), GameState::Draw);
    assert_eq!(
        verdict(round.board().get_game_state()),
        "The round ends in a draw...\nPress ENTER to return\n"
    );
}

#[test]
fn verdicts() {
    assert_eq!(
        verdict(&GameState::Won(Field::O)),
        "The winner is ○!!!\nPress ENTER to return\n"
    );
    assert_eq!(verdict(&GameState::Unfinished), "");
}

#[test]
fn the_screen_of_a_round() {
    let mut round = Round::new();
    assert_eq!(round.play(0), Ok(()));
    assert_eq!(round.play(8), Ok(()));
    let expected = "\x1B[2J\x1B[HTIC-TAC-TOE\n\
                    ┌───┬───┬───┐\n\
                    │ ✕ │   │   │\n\
                    ├───┼───┼───┤\n\
                    │   │   │   │\n\
                    ├───┼───┼───┤\n\
                    │   │   │ ○ │\n\
                    └───┴───┴───┘\n\n";
    assert_eq!(round.screen(), expected);
}

#[test]
fn cell_of_reads_a_text_that_holds_the_number_alone() {
    assert_eq!(cell_of("1"), Some(0));
    assert_eq!(cell_of("9"), Some(8));
    assert_eq!(cell_of("+4"), Some(3));
    assert_eq!(cell_of("0"), None);
    assert_eq!(cell_of("10"), None);
    assert_eq!(cell_of("1\n"), None);
    assert_eq!(cell_of(" 1"), None);
    assert_eq!(cell_of(""), None);
}

#[test]
fn a_decided_round_stays_decided_when_moves_follow() {
    let mut round = Round::new();
    // X: 6, 7, 8; O: 3, 4.
    for n in [6usize, 3, 7, 4, 8] {
        assert_ne!(round.next_step(), Step::Over);
        assert_eq!(round.play(n), Ok(()));
    }
    assert_eq!(round.next_step(), Step::Over);
    assert_eq!(*round.board().get_game_state(), GameState::Won(Field::X));
    // O: 0, 1, 2, with X on 5 in between.
    for n in [0usize, 5, 1] {
        assert_eq!(round.play(n), Ok(()));
        assert_eq!(round.next_step(), Step::Over);
    }
    assert_eq!(round.random_move(), Some(2));
    assert_eq!(round.next_step(), Step::Over);
    assert_eq!(*round.board().get_game_state(), GameState::Won(Field::X));
    assert_eq!(
        verdict(round.board().get_game_state()),
        "The winner is ✕!!!\nPress ENTER to return\n"
    );
}
