use anu::guess::{read_guess, GuessTheNumber, Progress, INVALID_GUESS_MESSAGE, TRIES};

#[test]
fn guesses_of_one_and_of_a_hundred_are_accepted() {
    assert_eq!(read_guess("1\n"), Some(1));
    assert_eq!(read_guess("100\n"), Some(100));
    assert_eq!(read_guess("50\n"), Some(50));
}

#[test]
fn guesses_of_zero_and_of_a_hundred_and_one_are_rejected() {
    assert_eq!(read_guess("0\n"), None);
    assert_eq!(read_guess("101\n"), None);
    assert_eq!(read_guess("255\n"), None);
    assert_eq!(read_guess("256\n"), None);
    assert_eq!(read_guess("fifty\n"), None);
    assert_eq!(read_guess("\n"), None);
}

#[test]
fn the_invalid_guess_message() {
    assert_eq!(INVALID_GUESS_MESSAGE, "You must input a valid guess between 1 and 100");
}

#[test]
fn a_secret_must_lie_between_one_and_a_hundred() {
    assert!(GuessTheNumber::with_secret(0).is_none());
    assert!(GuessTheNumber::with_secret(101).is_none());
    assert!(GuessTheNumber::with_secret(255).is_none());
    assert!(GuessTheNumber::with_secret(1).is_some());
    assert!(GuessTheNumber::with_secret(100).is_some());
}

#[test]
fn a_game_opens_with_eight_tries() {
    let game = GuessTheNumber::with_secret(42).unwrap();
    assert_eq!(TRIES, 8);
    assert_eq!(game.remaining_tries(), 8);
    assert_eq!(game.progress(), Progress::Playing);
    assert_eq!(
        game.welcome(),
        "\x1B[2J\x1B[HWelcome to Guess The Number!\n\
         The number is between 1 and 100\n\
         You have 8 tries to guess the number\n\
         Have a guess: \n"
    );
}

#[test]
fn a_win_on_the_first_try_leaves_seven() {
    let mut game = GuessTheNumber::with_secret(42).unwrap();
    let guess = read_guess("42\n").unwrap();
    let said = game.guess(guess);
    assert!(said.contains("42 is the correct number! You WIN!!!"));
    assert!(said.contains("You guessed the number with 7 tries left"));
    assert_eq!(
        said,
        "\x1B[2J\x1B[H42 is the correct number! You WIN!!!\n\
         You guessed the number with 7 tries left\n\
         Press ENTER to return\n"
    );
    assert_eq!(game.progress(), Progress::Won);
    assert_eq!(game.remaining_tries(), 7);
}

#[test]
fn eight_misses_lose_the_game() {
    let mut game = GuessTheNumber::with_secret(50).unwrap();
    for n in 1..=8u8 {
        assert_eq!(game.progress(), Progress::Playing);
        let guess = read_guess(&format!("{}\n", n)).unwrap();
        let said = game.guess(guess);
        assert!(said.starts_with(&format!(
            "\x1B[2J\x1B[H{} is lower than the secret number.\n",
            n
        )));
        if n < 8 {
            assert_eq!(
                said,
                format!(
                    "\x1B[2J\x1B[H{} is lower than the secret number.\n\
                     You have {} tries left to guess the number\n\
                     Have another guess: \n",
                    n,
                    8 - n
                )
            );
        } else {
            assert_eq!(
                said,
                "\x1B[2J\x1B[H8 is lower than the secret number.\n\
                 Unfortunately you failed to guess the numbes\n\
                 Better luck next time!\n\
                 Press ENTER to return\n"
            );
        }
    }
    assert_eq!(game.progress(), Progress::Lost);
    assert_eq!(game.remaining_tries(), 0);
}

#[test]
fn a_guess_above_the_secret_is_called_higher() {
    let mut game = GuessTheNumber::with_secret(50).unwrap();
    assert_eq!(
        game.guess(100),
        "\x1B[2J\x1B[H100 is higher than the secret number.\n\
         You have 7 tries left to guess the number\n\
         Have another guess: \n"
    );
    assert_eq!(
        game.guess(51),
        "\x1B[2J\x1B[H51 is higher than the secret number.\n\
         You have 6 tries left to guess the number\n\
         Have another guess: \n"
    );
}

#[test]
fn a_win_on_the_last_try_leaves_none() {
    let mut game = GuessTheNumber::with_secret(9).unwrap();
    for n in 1..=7u8 {
        game.guess(n);
    }
    assert_eq!(game.progress(), Progress::Playing);
    assert_eq!(game.remaining_tries(), 1);
    assert_eq!(game.guess(8), "\x1B[2J\x1B[H8 is lower than the secret number.\nUnfortunately you failed to guess the numbes\nBetter luck next time!\nPress ENTER to return\n");
    assert_eq!(game.progress(), Progress::Lost);

    let mut game = GuessTheNumber::with_secret(8).unwrap();
    for n in 1..=7u8 {
        game.guess(n);
    }
    assert_eq!(
        game.guess(8),
        "\x1B[2J\x1B[H8 is the correct number! You WIN!!!\n\
         You guessed the number with 0 tries left\n\
         Press ENTER to return\n"
    );
    assert_eq!(game.progress(), Progress::Won);
    assert_eq!(game.remaining_tries(), 0);
}

#[test]
fn a_game_is_lost_iff_eight_guesses_miss() {
    let secret = 37u8;
    let runs: Vec<(Vec<u8>, Progress)> = vec![
        (vec![], Progress::Playing),
        (vec![1, 2, 3, 4, 5, 6, 7], Progress::Playing),
        (vec![1, 2, 3, 4, 5, 6, 7, 8], Progress::Lost),
        (vec![1, 2, 3, 4, 5, 6, 7, 37], Progress::Won),
        (vec![37], Progress::Won),
        (vec![1, 2, 3, 4, 5, 6, 7, 8, 37], Progress::Lost),
        (vec![37, 1, 2, 3, 4, 5, 6, 7, 8], Progress::Won),
        (vec![36, 38, 36, 38, 36, 38, 36, 38, 36, 38], Progress::Lost),
    ];
    for (guesses, want) in runs {
        let mut game = GuessTheNumber::with_secret(secret).unwrap();
        for g in &guesses {
            game.guess(*g);
        }
        assert_eq!(game.progress(), want, "after {:?}", guesses);
        let eight_misses = guesses.len() >= 8 && guesses[..8].iter().all(|g| *g != secret);
        assert_eq!(game.progress() == Progress::Lost, eight_misses);
    }
}

#[test]
fn a_finished_game_takes_no_guess() {
    let mut game = GuessTheNumber::with_secret(5).unwrap();
    game.guess(5);
    assert_eq!(game.guess(5), "");
    assert_eq!(game.guess(6), "");
    assert_eq!(game.progress(), Progress::Won);
    assert_eq!(game.remaining_tries(), 7);
}

#[test]
fn a_drawn_secret_can_be_found_by_halving() {
    for _ in 0..200 {
        let mut game = GuessTheNumber::start();
        assert_eq!(game.remaining_tries(), 8);
        let (mut lo, mut hi) = (1u8, 100u8);
        while game.progress() == Progress::Playing {
            let mid = lo + (hi - lo) / 2;
            let said = game.guess(mid);
            if said.contains("lower") {
                lo = mid + 1;
            } else if said.contains("higher") {
                hi = mid - 1;
            }
        }
        assert_eq!(game.progress(), Progress::Won);
    }
}

#[test]
fn drawn_secrets_vary() {
    let mut seen = [false; 101];
    for _ in 0..3000 {
        let mut game = GuessTheNumber::start();
        let (mut lo, mut hi) = (1u8, 100u8);
        let mut found = 0u8;
        while game.progress() == Progress::Playing {
            let mid = lo + (hi - lo) / 2;
            let said = game.guess(mid);
            if said.contains("lower") {
                lo = mid + 1;
            } else if said.contains("higher") {
                hi = mid - 1;
            } else {
                found = mid;
            }
        }
        assert!((1..=100).contains(&found));
        seen[found as usize] = true;
    }
    assert!(!seen[0]);
    assert!(seen.iter().filter(|s| **s).count() > 50);
}
