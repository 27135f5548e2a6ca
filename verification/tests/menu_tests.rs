use anu::menu::{
    games_menu_choices, games_menu_dispatch, games_menu_screen, main_menu_choices,
    main_menu_dispatch, main_menu_screen, menu_choice, present_menu, run_games_menu,
    run_main_menu, run_shopping_list_menu, shopping_list_menu_choices,
    shopping_list_menu_dispatch, shopping_list_menu_screen, GamesMenuAction, MainMenuAction,
    ShoppingListMenuAction, GAMES_MENU_NAME, INVALID_MENU_CHOICE_MESSAGE, MAIN_MENU_NAME,
    SHOPPING_LIST_MENU_NAME,
};
use anu::text::{clear_screen, decimal};

#[test]
fn immediate_quit() {
    assert_eq!(run_main_menu("0\n"), MainMenuAction::Quit);
}

#[test]
fn the_main_menu_dispatches_by_index() {
    assert_eq!(run_main_menu("1\n"), MainMenuAction::Games);
    assert_eq!(run_main_menu("2\n"), MainMenuAction::ShoppingList);
    assert_eq!(run_main_menu(" 2 \n"), MainMenuAction::ShoppingList);
    assert_eq!(run_main_menu("3\n"), MainMenuAction::Invalid);
    assert_eq!(run_main_menu("\n"), MainMenuAction::Invalid);
    assert_eq!(run_main_menu("quit\n"), MainMenuAction::Invalid);
    assert_eq!(run_main_menu("-0\n"), MainMenuAction::Invalid);
}

#[test]
fn the_games_menu_dispatches_by_index() {
    assert_eq!(run_games_menu("0\n"), GamesMenuAction::MainMenu);
    assert_eq!(run_games_menu("1\n"), GamesMenuAction::GuessTheNumber);
    assert_eq!(run_games_menu("2\n"), GamesMenuAction::TicTacToe);
    assert_eq!(run_games_menu("3\n"), GamesMenuAction::Invalid);
    assert_eq!(run_games_menu("256\n"), GamesMenuAction::Invalid);
}

#[test]
fn the_shopping_list_menu_dispatches_by_index() {
    assert_eq!(run_shopping_list_menu("0\n"), ShoppingListMenuAction::MainMenu);
    assert_eq!(run_shopping_list_menu("1\n"), ShoppingListMenuAction::Show);
    assert_eq!(run_shopping_list_menu("2\n"), ShoppingListMenuAction::Add);
    assert_eq!(run_shopping_list_menu("3\n"), ShoppingListMenuAction::Remove);
    assert_eq!(run_shopping_list_menu("4\n"), ShoppingListMenuAction::Invalid);
    assert_eq!(run_shopping_list_menu("x\n"), ShoppingListMenuAction::Invalid);
}

#[test]
fn dispatch_of_a_choice() {
    assert_eq!(main_menu_dispatch(None), MainMenuAction::Invalid);
    assert_eq!(main_menu_dispatch(Some(0)), MainMenuAction::Quit);
    assert_eq!(main_menu_dispatch(Some(3)), MainMenuAction::Invalid);
    assert_eq!(games_menu_dispatch(Some(2)), GamesMenuAction::TicTacToe);
    assert_eq!(games_menu_dispatch(Some(200)), GamesMenuAction::Invalid);
    assert_eq!(shopping_list_menu_dispatch(Some(3)), ShoppingListMenuAction::Remove);
    assert_eq!(shopping_list_menu_dispatch(None), ShoppingListMenuAction::Invalid);
}

#[test]
fn a_menu_choice_always_names_an_entry() {
    for count in [0u8, 1, 3, 4, 10, 255] {
        for n in 0..=300u32 {
            match menu_choice(&format!("{}\n", n), count) {
                Some(i) => {
                    assert_eq!(i as u32, n);
                    assert!(i < count);
                }
                None => assert!(n >= count as u32),
            }
        }
    }
}

#[test]
fn the_invalid_choice_message() {
    assert_eq!(INVALID_MENU_CHOICE_MESSAGE, "You must enter a valid menu option");
}

#[test]
fn the_menus_as_written() {
    assert_eq!(MAIN_MENU_NAME, "MAIN MENU");
    assert_eq!(main_menu_choices(), ["Quit", "Games", "Shopping list"]);
    assert_eq!(GAMES_MENU_NAME, "GAMES MENU");
    assert_eq!(games_menu_choices(), ["Main menu", "Guess the number", "Tic-Tac-Toe"]);
    assert_eq!(SHOPPING_LIST_MENU_NAME, "SHOPPING LIST");
    assert_eq!(
        shopping_list_menu_choices(),
        [
            "Main menu",
            "Show shopping list",
            "Add to shopping list",
            "Remove from shopping list(by name)"
        ]
    );
}

#[test]
fn the_screens_of_the_menus() {
    assert_eq!(
        main_menu_screen(),
        "\x1B[2J\x1B[HMAIN MENU\n0. Quit\n1. Games\n2. Shopping list\n"
    );
    assert_eq!(
        games_menu_screen(),
        "\x1B[2J\x1B[HGAMES MENU\n0. Main menu\n1. Guess the number\n2. Tic-Tac-Toe\n"
    );
    assert_eq!(
        shopping_list_menu_screen(),
        "\x1B[2J\x1B[HSHOPPING LIST\n0. Main menu\n1. Show shopping list\n\
         2. Add to shopping list\n3. Remove from shopping list(by name)\n"
    );
}

#[test]
fn present_menu_numbers_the_choices_from_zero() {
    assert_eq!(present_menu("EMPTY", &[]), "\x1B[2J\x1B[HEMPTY\n");
    let labels: Vec<String> = (0..12).map(|i| format!("choice {}", i)).collect();
    let choices: Vec<&str> = labels.iter().map(|s| s.as_str()).collect();
    let mut expected = String::from("\x1B[2J\x1B[HMANY\n");
    for i in 0..12 {
        expected.push_str(&format!("{}. choice {}\n", i, i));
    }
    assert_eq!(present_menu("MANY", &choices), expected);
}

#[test]
fn the_clear_screen_sequence() {
    assert_eq!(clear_screen(), "\x1B[2J\x1B[H");
    assert_eq!(clear_screen().as_bytes(), &[0x1B, b'[', b'2', b'J', 0x1B, b'[', b'H']);
}

#[test]
fn decimal_writes_every_small_number() {
    assert_eq!(decimal(0), "0");
    assert_eq!(decimal(7), "7");
    assert_eq!(decimal(10), "10");
    assert_eq!(decimal(42), "42");
    assert_eq!(decimal(100), "100");
    assert_eq!(decimal(255), "255");
    for n in 0..=255u8 {
        assert_eq!(decimal(n), format!("{}", n));
    }
}
