//! Menus: a title over numbered choices, and what each typed choice sets
//! going. Choice 0 always leads back, or out.

use crate::input::{bound, bounded, trimmed};
use crate::text::{clear_screen, decimal, decimal_text};
use vstd::prelude::*;
use vstd::string::*;

verus! {

/// Shown when a line names no choice of the menu.
pub const INVALID_MENU_CHOICE_MESSAGE: &'static str = "You must enter a valid menu option";

/// The line that offers choice `i`.
pub open spec fn choice_text(i: nat, label: Seq<char>) -> Seq<char> {
    decimal_text(i) + ". "@ + label + "\n"@
}

/// The lines that offer the first `n` choices, numbered from 0.
pub open spec fn choices_text(choices: Seq<&str>, n: int) -> Seq<char>
    decreases n,
{
    if n <= 0 {
        Seq::empty()
    } else {
        choices_text(choices, n - 1) + choice_text((n - 1) as nat, choices[n - 1]@)
    }
}

/// The screen of a menu: the terminal wiped, the title, the choices.
pub open spec fn menu_text(name: Seq<char>, choices: Seq<&str>) -> Seq<char> {
    "\x1B[2J\x1B[H"@ + name + "\n"@ + choices_text(choices, choices.len() as int)
}

/// Draws a menu. The choices must be few enough for an eight-bit number to
/// name each.
pub fn present_menu(name: &str, choices: &[&str]) -> (s: String)
    requires
        choices@.len() <= u8::MAX,
    ensures
        s@ == menu_text(name@, choices@),
{
    let mut s = String::from_str(clear_screen());
    s.append(name);
    s.append("\n");
    let ghost start = s@;
    let mut i: usize = 0;
    while i < choices.len()
        invariant
            i <= choices@.len() <= u8::MAX,
            s@ == start + choices_text(choices@, i as int),
        decreases choices@.len() - i,
    {
        s.append(decimal(i as u8).as_str());
        s.append(". ");
        s.append(choices[i]);
        s.append("\n");
        i += 1;
    }
    s
}

/// Reads the choice that a typed line makes in a menu of `count` choices.
/// `None` asks for another line with `INVALID_MENU_CHOICE_MESSAGE`; a
/// choice that comes back always names one of the menu's entries.
pub fn menu_choice(line: &str, count: u8) -> (r: Option<u8>)
    ensures
        r == bounded(trimmed(line@), 0, count),
        r matches Some(i) ==> i < count,
{
    bound(line, 0, count)
}

/// What the main menu sets going.
#[derive(Copy, Clone, PartialEq, Eq, Debug, Structural)]
pub enum MainMenuAction {
    /// The line made no choice: ask again.
    Invalid,
    /// Leave the program.
    Quit,
    /// Open the menu of games.
    Games,
    /// Open the menu of the shopping list.
    ShoppingList,
}

/// What the menu of games sets going.
#[derive(Copy, Clone, PartialEq, Eq, Debug, Structural)]
pub enum GamesMenuAction {
    /// The line made no choice: ask again.
    Invalid,
    /// Go back to the main menu.
    MainMenu,
    /// Play guess the number.
    GuessTheNumber,
    /// Play tic-tac-toe.
    TicTacToe,
}

/// What the menu of the shopping list sets going.
#[derive(Copy, Clone, PartialEq, Eq, Debug, Structural)]
pub enum ShoppingListMenuAction {
    /// The line made no choice: ask again.
    Invalid,
    /// Go back to the main menu.
    MainMenu,
    /// Show the list.
    Show,
    /// Add an item.
    Add,
    /// Remove an item by name.
    Remove,
}

/// The main menu's answer to a choice.
pub open spec fn main_menu_action(choice: Option<u8>) -> MainMenuAction {
    match choice {
        Some(0) => MainMenuAction::Quit,
        Some(1) => MainMenuAction::Games,
        Some(2) => MainMenuAction::ShoppingList,
        _ => MainMenuAction::Invalid,
    }
}

/// The games menu's answer to a choice.
pub open spec fn games_menu_action(choice: Option<u8>) -> GamesMenuAction {
    match choice {
        Some(0) => GamesMenuAction::MainMenu,
        Some(1) => GamesMenuAction::GuessTheNumber,
        Some(2) => GamesMenuAction::TicTacToe,
        _ => GamesMenuAction::Invalid,
    }
}

/// The shopping list menu's answer to a choice.
pub open spec fn shopping_list_menu_action(choice: Option<u8>) -> ShoppingListMenuAction {
    match choice {
        Some(0) => ShoppingListMenuAction::MainMenu,
        Some(1) => ShoppingListMenuAction::Show,
        Some(2) => ShoppingListMenuAction::Add,
        Some(3) => ShoppingListMenuAction::Remove,
        _ => ShoppingListMenuAction::Invalid,
    }
}

/// The title of the main menu.
pub const MAIN_MENU_NAME: &'static str = "MAIN MENU";

/// The title of the menu of games.
pub const GAMES_MENU_NAME: &'static str = "GAMES MENU";

/// The title of the menu of the shopping list.
pub const SHOPPING_LIST_MENU_NAME: &'static str = "SHOPPING LIST";

/// The choices of the main menu.
pub fn main_menu_choices() -> (choices: [&'static str; 3])
    ensures
        choices@ == seq!["Quit", "Games", "Shopping list"],
{
    let choices = ["Quit", "Games", "Shopping list"];
    choices
}

/// The choices of the menu of games.
pub fn games_menu_choices() -> (choices: [&'static str; 3])
    ensures
        choices@ == seq!["Main menu", "Guess the number", "Tic-Tac-Toe"],
{
    let choices = ["Main menu", "Guess the number", "Tic-Tac-Toe"];
    choices
}

/// The choices of the menu of the shopping list.
pub fn shopping_list_menu_choices() -> (choices: [&'static str; 4])
    ensures
        choices@ == seq![
            "Main menu",
            "Show shopping list",
            "Add to shopping list",
            "Remove from shopping list(by name)",
        ],
{
    let choices = [
        "Main menu",
        "Show shopping list",
        "Add to shopping list",
        "Remove from shopping list(by name)",
    ];
    assert(choices@ =~= seq![
        "Main menu",
        "Show shopping list",
        "Add to shopping list",
        "Remove from shopping list(by name)",
    ]);
    choices
}

/// The main menu's answer to a choice.
pub fn main_menu_dispatch(choice: Option<u8>) -> (action: MainMenuAction)
    ensures
        action == main_menu_action(choice),
{
    match choice {
        Some(0) => MainMenuAction::Quit,
        Some(1) => MainMenuAction::Games,
        Some(2) => MainMenuAction::ShoppingList,
        _ => MainMenuAction::Invalid,
    }
}

/// The games menu's answer to a choice.
pub fn games_menu_dispatch(choice: Option<u8>) -> (action: GamesMenuAction)
    ensures
        action == games_menu_action(choice),
{
    match choice {
        Some(0) => GamesMenuAction::MainMenu,
        Some(1) => GamesMenuAction::GuessTheNumber,
        Some(2) => GamesMenuAction::TicTacToe,
        _ => GamesMenuAction::Invalid,
    }
}

/// The shopping list menu's answer to a choice.
pub fn shopping_list_menu_dispatch(choice: Option<u8>) -> (action: ShoppingListMenuAction)
    ensures
        action == shopping_list_menu_action(choice),
{
    match choice {
        Some(0) => ShoppingListMenuAction::MainMenu,
        Some(1) => ShoppingListMenuAction::Show,
        Some(2) => ShoppingListMenuAction::Add,
        Some(3) => ShoppingListMenuAction::Remove,
        _ => ShoppingListMenuAction::Invalid,
    }
}

/// The screen of the main menu.
pub fn main_menu_screen() -> (s: String)
    ensures
        s@ == menu_text(MAIN_MENU_NAME@, seq!["Quit", "Games", "Shopping list"]),
{
    let choices = main_menu_choices();
    present_menu(MAIN_MENU_NAME, choices.as_slice())
}

/// The screen of the menu of games.
pub fn games_menu_screen() -> (s: String)
    ensures
        s@ == menu_text(GAMES_MENU_NAME@, seq!["Main menu", "Guess the number", "Tic-Tac-Toe"]),
{
    let choices = games_menu_choices();
    present_menu(GAMES_MENU_NAME, choices.as_slice())
}

/// The screen of the menu of the shopping list.
pub fn shopping_list_menu_screen() -> (s: String)
    ensures
        s@ == menu_text(
            SHOPPING_LIST_MENU_NAME@,
            seq![
                "Main menu",
                "Show shopping list",
                "Add to shopping list",
                "Remove from shopping list(by name)",
            ],
        ),
{
    let choices = shopping_list_menu_choices();
    present_menu(SHOPPING_LIST_MENU_NAME, choices.as_slice())
}

/// One pass of the main menu: what the typed line sets going. `Invalid`
/// asks for another line with `INVALID_MENU_CHOICE_MESSAGE`.
pub fn run_main_menu(line: &str) -> (action: MainMenuAction)
    ensures
        action == main_menu_action(bounded(trimmed(line@), 0, 3)),
{
    let choices = main_menu_choices();
    main_menu_dispatch(menu_choice(line, choices.len() as u8))
}

/// One pass of the menu of games: what the typed line sets going.
/// `Invalid` asks for another line with `INVALID_MENU_CHOICE_MESSAGE`.
pub fn run_games_menu(line: &str) -> (action: GamesMenuAction)
    ensures
        action == games_menu_action(bounded(trimmed(line@), 0, 3)),
{
    let choices = games_menu_choices();
    games_menu_dispatch(menu_choice(line, choices.len() as u8))
}

/// One pass of the menu of the shopping list: what the typed line sets
/// going. `Invalid` asks for another line with
/// `INVALID_MENU_CHOICE_MESSAGE`.
pub fn run_shopping_list_menu(line: &str) -> (action: ShoppingListMenuAction)
    ensures
        action == shopping_list_menu_action(bounded(trimmed(line@), 0, 4)),
{
    let choices = shopping_list_menu_choices();
    shopping_list_menu_dispatch(menu_choice(line, choices.len() as u8))
}

} // verus!
