//! One round of tic-tac-toe between a person, who plays X and moves first,
//! and an opponent who plays O on a blank cell picked at random.
//!
//! The round decides; its caller shows the screens and fetches the lines.
//! Each pass asks `next_step` what is due, and then hands in the person's
//! cell or lets the opponent move.

use crate::board::{
    board_text, classified, legal, place, Field, GameState, TicTacToe,
};
use crate::chance::choose_one;
use crate::input::{accept, bounded, trimmed};
use crate::text::clear_screen;
use rand::rngs::ThreadRng;
use vstd::prelude::*;
use vstd::string::*;

verus! {

/// Shown when a line names no cell.
pub const INVALID_CELL_MESSAGE: &'static str = "You must input a valid cell between 1 and 9";

/// What is due next in a round.
#[derive(Copy, Clone, PartialEq, Eq, Debug, Structural)]
pub enum Step {
    /// The round is decided: announce the verdict and leave.
    Over,
    /// The person is to name a cell.
    HumanMove,
    /// The opponent is to move.
    OpponentMove,
}

/// The mark of the side to move: X while it is the person's turn.
pub open spec fn side(turn: bool) -> Field {
    if turn {
        Field::X
    } else {
        Field::O
    }
}

/// What is due with `state` on record and `turn` to move.
pub open spec fn step_for(state: GameState, turn: bool) -> Step {
    match state {
        GameState::Unfinished => if turn {
            Step::HumanMove
        } else {
            Step::OpponentMove
        },
        _ => Step::Over,
    }
}

/// The cell index that a typed line names: the number 1 to 9 written on
/// it, less one.
pub open spec fn named_cell(text: Seq<char>) -> Option<usize> {
    match bounded(text, 1, 10) {
        Some(n) => Some((n - 1) as usize),
        None => None,
    }
}

/// What is said when a round ends in `state`; nothing while it is
/// unfinished.
pub open spec fn verdict_text(state: GameState) -> Seq<char> {
    match state {
        GameState::Won(m) => "The winner is "@ + m.glyph() + "!!!\n"@ + "Press ENTER to return\n"@,
        GameState::Draw => "The round ends in a draw...\n"@ + "Press ENTER to return\n"@,
        GameState::Unfinished => Seq::empty(),
    }
}

/// The screen of a round: the terminal wiped, the title, the drawn board
/// and an empty line.
pub open spec fn screen_text(cells: Seq<Field>) -> Seq<char> {
    "\x1B[2J\x1B[H"@ + "TIC-TAC-TOE\n"@ + board_text(cells) + "\n"@
}

/// What is said when a move is refused with `msg`.
pub open spec fn refusal_text(msg: Seq<char>) -> Seq<char> {
    msg + "\n"@ + "Press ENTER to continue\n"@
}

/// Reads the cell that a text names which holds nothing else: the number
/// 1 to 9 written in it, less one.
pub fn cell_of(text: &str) -> (r: Option<usize>)
    ensures
        r == named_cell(text@),
        r matches Some(m) ==> m < 9,
{
    match accept(text, 1, 10) {
        Some(n) => Some((n - 1) as usize),
        None => None,
    }
}

/// Reads the cell that the person names on a typed line. `None` asks for
/// another line, with `INVALID_CELL_MESSAGE`.
pub fn cell_index(line: &str) -> (r: Option<usize>)
    ensures
        r == named_cell(trimmed(line@)),
        r matches Some(m) ==> m < 9,
{
    cell_of(line.trim())
}

/// The announcement that ends a round.
pub fn verdict(state: &GameState) -> (s: String)
    ensures
        s@ == verdict_text(*state),
{
    let mut s = String::new();
    match state {
        GameState::Won(winner) => {
            s.append("The winner is ");
            s.append(winner.symbol());
            s.append("!!!\n");
            s.append("Press ENTER to return\n");
        },
        GameState::Draw => {
            s.append("The round ends in a draw...\n");
            s.append("Press ENTER to return\n");
        },
        GameState::Unfinished => {},
    }
    s
}

/// The notice that follows a refused move.
pub fn refusal(msg: &str) -> (s: String)
    ensures
        s@ == refusal_text(msg@),
{
    let mut s = String::from_str(msg);
    s.append("\n");
    s.append("Press ENTER to continue\n");
    s
}

/// A round in progress: the board, whose turn it is, and the generator
/// that the opponent draws from.
pub struct Round {
    board: TicTacToe,
    turn: bool,
    rng: ThreadRng,
}

impl Round {
    /// The board of the round.
    pub closed spec fn position(&self) -> TicTacToe {
        self.board
    }

    /// The cells of the board.
    pub open spec fn cells(&self) -> Seq<Field> {
        self.position().cells()
    }

    /// The state on record: unfinished, or the win or draw that `next_step`
    /// found first.
    pub open spec fn state(&self) -> GameState {
        self.position().state()
    }

    /// Whether the person is to move.
    pub closed spec fn human_to_move(&self) -> bool {
        self.turn
    }

    /// A round is well formed when its board is.
    pub open spec fn wf(&self) -> bool {
        self.position().wf()
    }

    /// A fresh round: an empty board, the person to move.
    pub fn new() -> (round: Self)
        ensures
            round.wf(),
            round.cells() == Seq::new(9, |n: int| Field::Blank),
            round.state() == GameState::Unfinished,
            round.human_to_move(),
    {
        Round { board: TicTacToe::new(), turn: true, rng: rand::rng() }
    }

    /// The board as it stands.
    pub fn board(&self) -> (b: &TicTacToe)
        ensures
            *b == self.position(),
    {
        &self.board
    }

    /// Whether the person is to move.
    pub fn turn(&self) -> (t: bool)
        ensures
            t == self.human_to_move(),
    {
        self.turn
    }

    /// The screen to show at the start of a pass.
    pub fn screen(&self) -> (s: String)
        ensures
            s@ == screen_text(self.cells()),
    {
        let mut s = String::from_str(clear_screen());
        s.append("TIC-TAC-TOE\n");
        let drawn = self.board.render();
        s.append(drawn.as_str());
        s.append("\n");
        s
    }

    /// Classifies the position, unless a win or a draw is on record
    /// already, and says what is due: the verdict when the round is
    /// decided, else a move of the side whose turn it is.
    pub fn next_step(&mut self) -> (step: Step)
        requires
            old(self).wf(),
        ensures
            final(self).wf(),
            classified(&old(self).position(), &final(self).position()),
            final(self).human_to_move() == old(self).human_to_move(),
            step == step_for(final(self).state(), old(self).human_to_move()),
            step != Step::Over ==> exists|n: int| legal(final(self).cells(), n),
    {
        self.board.update_game_state();
        proof {
            if self.state() == GameState::Unfinished {
                let n = choose|n: int| 0 <= n < 9 && self.cells()[n] == Field::Blank;
                assert(legal(self.cells(), n));
            }
        }
        match self.board.get_game_state() {
            GameState::Won(_) => Step::Over,
            GameState::Draw => Step::Over,
            GameState::Unfinished => {
                if self.turn {
                    Step::HumanMove
                } else {
                    Step::OpponentMove
                }
            },
        }
    }

    /// Puts the mark of the side to move on cell `m`. A move on a blank
    /// cell is carried out and passes the turn; any other is refused and
    /// changes nothing, so the same side moves again.
    pub fn play(&mut self, m: usize) -> (r: Result<(), &'static str>)
        requires
            old(self).wf(),
        ensures
            final(self).wf(),
            r is Ok <==> legal(old(self).cells(), m as int),
            r matches Err(msg) ==> msg@ == "Space is not empty"@,
            final(self).cells() == place(old(self).cells(), m as int, side(old(self).human_to_move())),
            final(self).human_to_move() == (old(self).human_to_move() != (r is Ok)),
            final(self).state() == old(self).state(),
    {
        let player = match self.turn {
            true => Field::X,
            false => Field::O,
        };
        match self.board.set_field(m, player) {
            Ok(_) => {
                self.turn = !self.turn;
                Ok(())
            },
            Err(msg) => Err(msg),
        }
    }

    /// Lets chance pick a blank cell and puts the mark of the side to move
    /// there. The picked cell comes back; `None` comes back, and nothing
    /// changes, when no cell is blank.
    pub fn random_move(&mut self) -> (r: Option<usize>)
        requires
            old(self).wf(),
        ensures
            final(self).wf(),
            r is None <==> forall|n: int| !legal(old(self).cells(), n),
            r matches Some(m) ==> legal(old(self).cells(), m as int),
            match r {
                Some(m) => final(self).cells() == place(
                    old(self).cells(),
                    m as int,
                    side(old(self).human_to_move()),
                ),
                None => final(self).cells() == old(self).cells(),
            },
            final(self).human_to_move() == (old(self).human_to_move() != (r is Some)),
            final(self).state() == old(self).state(),
    {
        let picked = choose_one(self.board.get_blank_fields(), &mut self.rng);
        match picked {
            Some(m) => {
                let _ = self.play(m);
                // Every listed index is that of a blank cell.
                assert(legal(old(self).cells(), m as int));
                Some(m)
            },
            None => {
                // A blank cell would be listed.
                assert forall|n: int| !legal(self.cells(), n) by {
                    if legal(self.cells(), n) {
                        assert(self.board.blanks().contains(n as usize));
                    }
                }
                None
            },
        }
    }
}

} // verus!
