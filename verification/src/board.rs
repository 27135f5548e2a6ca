//! The tic-tac-toe board: marks, the legal-move protocol and the
//! classification of a position as unfinished, won or drawn.
//!
//! A position is modelled as a `Seq<Field>` of length nine, cell `n` sitting
//! in row `n / 3`, column `n % 3`. Everything the board promises is stated
//! over that sequence.

use vstd::prelude::*;
use vstd::string::*;

verus! {

/// The mark held by one cell of the board.
#[derive(Copy, Clone, PartialEq, Eq, Debug, Structural)]
pub enum Field {
    X,
    O,
    Blank,
}

/// How a game stands. A win or a draw, once on record, is final.
#[derive(Copy, Clone, PartialEq, Eq, Debug, Structural)]
pub enum GameState {
    Unfinished,
    Won(Field),
    Draw,
}

impl Field {
    /// The glyph that shows a mark on screen.
    pub open spec fn glyph(self) -> Seq<char> {
        match self {
            Field::X => "✕"@,
            Field::O => "○"@,
            Field::Blank => " "@,
        }
    }

    /// The glyph that shows this mark on screen.
    pub fn symbol(&self) -> (s: &'static str)
        ensures
            s@ == self.glyph(),
    {
        match self {
            Field::Blank => " ",
            Field::O => "○",
            Field::X => "✕",
        }
    }
}

/// The three cell indices of winning line `k`, in the canonical order:
/// rows top to bottom, columns left to right, main diagonal, anti-diagonal.
pub open spec fn line(k: int) -> (int, int, int) {
    if k == 0 {
        (0, 1, 2)
    } else if k == 1 {
        (3, 4, 5)
    } else if k == 2 {
        (6, 7, 8)
    } else if k == 3 {
        (0, 3, 6)
    } else if k == 4 {
        (1, 4, 7)
    } else if k == 5 {
        (2, 5, 8)
    } else if k == 6 {
        (0, 4, 8)
    } else {
        (2, 4, 6)
    }
}

/// The marks found along line `k` of a position.
pub open spec fn line_marks(cells: Seq<Field>, k: int) -> Seq<Field> {
    seq![cells[line(k).0], cells[line(k).1], cells[line(k).2]]
}

/// The marks that a line of three borrowed cells shows.
pub open spec fn marks_of(line: [&Field; 3]) -> Seq<Field> {
    seq![*line@[0], *line@[1], *line@[2]]
}

/// Line `k` holds three equal marks, none of them blank.
pub open spec fn line_wins(cells: Seq<Field>, k: int) -> bool {
    &&& cells[line(k).0] != Field::Blank
    &&& cells[line(k).0] == cells[line(k).1]
    &&& cells[line(k).0] == cells[line(k).2]
}

/// All three cells of line `k` hold the mark `m`.
pub open spec fn line_held_by(cells: Seq<Field>, k: int, m: Field) -> bool {
    cells[line(k).0] == m && cells[line(k).1] == m && cells[line(k).2] == m
}

/// The mark of the first winning line at or after line `k`, if there is one.
pub open spec fn winner_from(cells: Seq<Field>, k: int) -> Option<Field>
    decreases 8 - k,
{
    if k < 0 || k >= 8 {
        None
    } else if line_wins(cells, k) {
        Some(cells[line(k).0])
    } else {
        winner_from(cells, k + 1)
    }
}

/// The mark of the first winning line in canonical order, if any line wins.
pub open spec fn winner(cells: Seq<Field>) -> Option<Field> {
    winner_from(cells, 0)
}

/// No cell is blank.
pub open spec fn full(cells: Seq<Field>) -> bool {
    forall|n: int| 0 <= n < 9 ==> cells[n] != Field::Blank
}

/// The classification of a position: won by the first winning line's mark,
/// else drawn when no cell is blank, else unfinished.
pub open spec fn outcome(cells: Seq<Field>) -> GameState {
    match winner(cells) {
        Some(m) => GameState::Won(m),
        None => if full(cells) {
            GameState::Draw
        } else {
            GameState::Unfinished
        },
    }
}

/// Cell `n` exists and is blank, so a mark may be placed there.
pub open spec fn legal(cells: Seq<Field>, n: int) -> bool {
    0 <= n < 9 && cells[n] == Field::Blank
}

/// The position after an attempt to put `f` on cell `n`: the cell is
/// written when the move is legal, and nothing changes when it is not.
pub open spec fn place(cells: Seq<Field>, n: int, f: Field) -> Seq<Field> {
    if legal(cells, n) {
        cells.update(n, f)
    } else {
        cells
    }
}

/// `blanks` lists, in strictly ascending order, exactly the indices of the
/// blank cells of `cells`.
pub open spec fn tracks_blanks(blanks: Seq<usize>, cells: Seq<Field>) -> bool {
    &&& forall|i: int, j: int| 0 <= i < j < blanks.len() ==> blanks[i] < blanks[j]
    &&& forall|i: int| 0 <= i < blanks.len() ==> legal(cells, #[trigger] blanks[i] as int)
    &&& forall|n: int| #[trigger] legal(cells, n) ==> blanks.contains(n as usize)
}

/// One row of the drawn board: a bar, then each of the row's three cells
/// as a space, its glyph, a space and a bar, then the end of the line.
pub open spec fn row_text(cells: Seq<Field>, row: int) -> Seq<char> {
    "│"@ + cell_text(cells[3 * row]) + cell_text(cells[3 * row + 1]) + cell_text(
        cells[3 * row + 2],
    ) + "\n"@
}

/// One cell of the drawn board, with the bar that closes it.
pub open spec fn cell_text(f: Field) -> Seq<char> {
    " "@ + f.glyph() + " │"@
}

/// The drawn board: seven lines of box-drawing characters, each ended by a
/// line feed, with the glyph of every cell in its place.
pub open spec fn board_text(cells: Seq<Field>) -> Seq<char> {
    "┌───┬───┬───┐\n"@ + row_text(cells, 0) + "├───┼───┼───┤\n"@ + row_text(cells, 1)
        + "├───┼───┼───┤\n"@ + row_text(cells, 2) + "└───┴───┴───┘\n"@
}

/// The first `cols` cells of a row of the drawn board.
pub open spec fn cells_text(cells: Seq<Field>, row: int, cols: int) -> Seq<char>
    decreases cols,
{
    if cols <= 0 {
        Seq::empty()
    } else {
        cells_text(cells, row, cols - 1) + cell_text(cells[3 * row + cols - 1])
    }
}

/// The first `rows` rows of the drawn board under its top edge, a rule
/// after each row but the third.
pub open spec fn rows_text(cells: Seq<Field>, rows: int) -> Seq<char>
    decreases rows,
{
    if rows <= 0 {
        "┌───┬───┬───┐\n"@
    } else if rows < 3 {
        rows_text(cells, rows - 1) + row_text(cells, rows - 1) + "├───┼───┼───┤\n"@
    } else {
        rows_text(cells, rows - 1) + row_text(cells, rows - 1)
    }
}

/// A 3x3 board with its index of blank cells and its recorded state.
pub struct TicTacToe {
    fields: [[Field; 3]; 3],
    blank_fields: Vec<usize>,
    state: GameState,
}

impl TicTacToe {
    /// The nine cells in index order.
    pub closed spec fn cells(&self) -> Seq<Field> {
        Seq::new(9, |n: int| self.fields[n / 3][n % 3])
    }

    /// The recorded indices of the blank cells.
    pub closed spec fn blanks(&self) -> Seq<usize> {
        self.blank_fields@
    }

    /// The game state on record: unfinished, or the win or draw that a
    /// classification found first.
    pub closed spec fn state(&self) -> GameState {
        self.state
    }

    /// What holds of every board that this module hands out: the blank index
    /// agrees with the cells, a recorded win names a mark that holds a whole
    /// line, and a recorded draw is a full board without a winning line.
    pub open spec fn wf(&self) -> bool {
        &&& self.cells().len() == 9
        &&& tracks_blanks(self.blanks(), self.cells())
        &&& match self.state() {
            GameState::Unfinished => true,
            GameState::Won(m) => m != Field::Blank && exists|k: int|
                0 <= k < 8 && #[trigger] line_held_by(self.cells(), k, m),
            GameState::Draw => outcome(self.cells()) == GameState::Draw,
        }
    }

    /// An empty board: every cell blank, every index listed, nothing decided.
    pub fn new() -> (b: Self)
        ensures
            b.wf(),
            b.cells() == Seq::new(9, |n: int| Field::Blank),
            b.blanks() == Seq::new(9, |n: int| n as usize),
            b.state() == GameState::Unfinished,
    {
        let mut blank_fields: Vec<usize> = Vec::new();
        let mut n: usize = 0;
        while n < 9
            invariant
                n <= 9,
                blank_fields@ == Seq::new(n as nat, |k: int| k as usize),
            decreases 9 - n,
        {
            blank_fields.push(n);
            n += 1;
        }
        let b = TicTacToe {
            fields: [[Field::Blank; 3]; 3],
            blank_fields,
            state: GameState::Unfinished,
        };
        proof {
            assert forall|n: int| #[trigger] legal(b.cells(), n) implies b.blanks().contains(
                n as usize,
            ) by {
                assert(b.blanks()[n] == n as usize);
            }
        }
        b
    }

    /// The recorded game state.
    pub fn get_game_state(&self) -> (s: &GameState)
        ensures
            *s == self.state(),
    {
        &self.state
    }

    /// The indices of the blank cells, ascending.
    pub fn get_blank_fields(&self) -> (v: &Vec<usize>)
        ensures
            v@ == self.blanks(),
            self.wf() ==> tracks_blanks(v@, self.cells()),
    {
        &self.blank_fields
    }

    /// Where cell index `n` stands in the list of blank cells, if it does.
    pub fn get_blank_field_index(&self, n: usize) -> (r: Option<usize>)
        ensures
            match r {
                Some(i) => i < self.blanks().len() && self.blanks()[i as int] == n && forall|
                    j: int,
                | 0 <= j < i ==> self.blanks()[j] != n,
                None => !self.blanks().contains(n),
            },
    {
        let mut i: usize = 0;
        while i < self.blank_fields.len()
            invariant
                i <= self.blank_fields@.len(),
                forall|j: int| 0 <= j < i ==> self.blank_fields@[j] != n,
            decreases self.blank_fields@.len() - i,
        {
            if self.blank_fields[i] == n {
                return Some(i);
            }
            i += 1;
        }
        None
    }

    /// Puts mark `f` on cell `n` if that cell is blank, and refuses
    /// otherwise, leaving the board as it was. The recorded state is not
    /// touched either way.
    pub fn set_field(&mut self, n: usize, f: Field) -> (r: Result<(), &'static str>)
        requires
            old(self).wf(),
            f != Field::Blank,
        ensures
            final(self).wf(),
            r is Ok <==> legal(old(self).cells(), n as int),
            r matches Err(msg) ==> msg@ == "Space is not empty"@,
            final(self).cells() == place(old(self).cells(), n as int, f),
            r is Ok ==> final(self).blanks() == old(self).blanks().remove(
                old(self).blanks().index_of(n),
            ),
            r is Err ==> final(self).blanks() == old(self).blanks(),
            final(self).state() == old(self).state(),
    {
        match self.get_blank_field_index(n) {
            Some(i) => {
                let ghost before = *self;
                self.blank_fields.remove(i);
                let row = n / 3;
                let col = n % 3;
                self.fields[row][col] = f;
                proof {
                    assert(self.cells() =~= before.cells().update(n as int, f));
                    lemma_move_keeps_held_lines(before.cells(), n as int, f);
                    if let GameState::Won(m) = before.state() {
                        let k = choose|k: int|
                            0 <= k < 8 && #[trigger] line_held_by(before.cells(), k, m);
                        assert(line_held_by(self.cells(), k, m));
                    }
                    let blanks = self.blanks();
                    assert(blanks == before.blanks().remove(i as int));
                    assert forall|m: int| #[trigger] legal(self.cells(), m) implies blanks.contains(
                        m as usize,
                    ) by {
                        assert(legal(before.cells(), m));
                        let j = choose|j: int|
                            0 <= j < before.blanks().len() && before.blanks()[j] == m as usize;
                        if j < i {
                            assert(blanks[j] == m as usize);
                        } else {
                            assert(blanks[j - 1] == m as usize);
                        }
                    }
                }
                Ok(())
            },
            None => Err("Space is not empty"),
        }
    }

    /// The eight lines of the board in canonical order, each as the three
    /// marks found along it.
    pub fn get_valid_lines(&self) -> (lines: Vec<[&Field; 3]>)
        ensures
            lines@.len() == 8,
            forall|k: int| 0 <= k < 8 ==> marks_of(#[trigger] lines@[k]) == line_marks(self.cells(), k),
    {
        let mut lines: Vec<[&Field; 3]> = Vec::with_capacity(8);

        // rows
        let mut row: usize = 0;
        while row < 3
            invariant
                row <= 3,
                lines@.len() == row,
                forall|k: int|
                    0 <= k < row ==> marks_of(#[trigger] lines@[k]) == line_marks(self.cells(), k),
            decreases 3 - row,
        {
            let marks = [&self.fields[row][0], &self.fields[row][1], &self.fields[row][2]];
            assert(marks_of(marks) =~= line_marks(self.cells(), row as int));
            lines.push(marks);
            row += 1;
        }

        // columns
        let mut col: usize = 0;
        while col < 3
            invariant
                col <= 3,
                lines@.len() == 3 + col,
                forall|k: int|
                    0 <= k < 3 + col ==> marks_of(#[trigger] lines@[k]) == line_marks(
                        self.cells(),
                        k,
                    ),
            decreases 3 - col,
        {
            let marks = [&self.fields[0][col], &self.fields[1][col], &self.fields[2][col]];
            assert(marks_of(marks) =~= line_marks(self.cells(), 3 + col as int));
            lines.push(marks);
            col += 1;
        }

        // diagonals
        let main = [&self.fields[0][0], &self.fields[1][1], &self.fields[2][2]];
        assert(marks_of(main) =~= line_marks(self.cells(), 6));
        lines.push(main);

        let anti = [&self.fields[0][2], &self.fields[1][1], &self.fields[2][0]];
        assert(marks_of(anti) =~= line_marks(self.cells(), 7));
        lines.push(anti);

        lines
    }

    /// The mark of the first line, in canonical order, that holds three
    /// equal marks other than blank.
    pub fn won(&self) -> (r: Option<Field>)
        ensures
            r == winner(self.cells()),
    {
        let lines = self.get_valid_lines();
        let mut k: usize = 0;
        while k < 8
            invariant
                k <= 8,
                lines@.len() == 8,
                forall|j: int|
                    0 <= j < 8 ==> marks_of(#[trigger] lines@[j]) == line_marks(self.cells(), j),
                winner(self.cells()) == winner_from(self.cells(), k as int),
            decreases 8 - k,
        {
            let line = lines[k];
            assert(marks_of(line) == line_marks(self.cells(), k as int));
            let first = *line[0];
            if first != Field::Blank && *line[1] == first && *line[2] == first {
                return Some(first);
            }
            k += 1;
        }
        None
    }

    /// Whether no blank cell is left.
    pub fn draw(&self) -> (r: bool)
        ensures
            r == (self.blanks().len() == 0),
            self.wf() ==> r == full(self.cells()),
    {
        proof {
            if self.wf() {
                if self.blanks().len() == 0 {
                    assert forall|n: int| 0 <= n < 9 implies self.cells()[n] != Field::Blank by {
                        // A blank cell would be listed.
                        if legal(self.cells(), n) {
                            assert(self.blanks().contains(n as usize));
                        }
                    }
                } else {
                    assert(legal(self.cells(), self.blanks()[0] as int));
                }
            }
        }
        self.blank_fields.is_empty()
    }

    /// Draws the board.
    pub fn render(&self) -> (s: String)
        ensures
            s@ == board_text(self.cells()),
    {
        let mut s = String::from_str("┌───┬───┬───┐\n");
        let mut row: usize = 0;
        while row < 3
            invariant
                row <= 3,
                s@ == rows_text(self.cells(), row as int),
            decreases 3 - row,
        {
            let ghost start = s@;
            s.append("│");
            let mut col: usize = 0;
            while col < 3
                invariant
                    row < 3,
                    col <= 3,
                    s@ == start + "│"@ + cells_text(self.cells(), row as int, col as int),
                decreases 3 - col,
            {
                s.append(" ");
                s.append(self.fields[row][col].symbol());
                s.append(" │");
                col += 1;
            }
            s.append("\n");
            if row < 2 {
                s.append("├───┼───┼───┤\n");
            }
            proof {
                reveal_with_fuel(cells_text, 4);
                assert(s@ =~= rows_text(self.cells(), row + 1));
            }
            row += 1;
        }
        s.append("└───┴───┴───┘\n");
        proof {
            reveal_with_fuel(rows_text, 4);
        }
        s
    }

    /// Classifies the position and records the result, once: while the
    /// recorded state is unfinished it becomes won by the mark of the first
    /// winning line, else drawn when no cell is blank, else stays
    /// unfinished. A recorded win or draw is final and is kept whatever the
    /// cells hold by now. The cells are left alone.
    pub fn update_game_state(&mut self)
        requires
            old(self).wf(),
        ensures
            final(self).wf(),
            final(self).cells() == old(self).cells(),
            final(self).blanks() == old(self).blanks(),
            old(self).state() == GameState::Unfinished ==> final(self).state() == outcome(
                old(self).cells(),
            ),
            old(self).state() != GameState::Unfinished ==> final(self).state() == old(self).state(),
            classified(old(self), final(self)),
            final(self).state() matches GameState::Won(m) ==> m != Field::Blank && exists|k: int|
                0 <= k < 8 && #[trigger] line_held_by(final(self).cells(), k, m),
            final(self).state() == GameState::Draw ==> final(self).blanks().len() == 0 && forall|
                k: int,
            |
                0 <= k < 8 ==> !#[trigger] line_wins(final(self).cells(), k),
    {
        proof {
            law_win_names_a_held_line(self.cells());
            law_draw_is_full_without_line(self.cells());
            if self.blanks().len() > 0 {
                assert(legal(self.cells(), self.blanks()[0] as int));
            }
        }
        if self.state != GameState::Unfinished {
            return;
        }
        if let Some(winner) = self.won() {
            self.state = GameState::Won(winner);
        } else if self.draw() {
            self.state = GameState::Draw;
        }
    }
}

/// The state on record after a classification of `cells`: a state that was
/// unfinished becomes the outcome of the position, and a win or a draw
/// that was recorded before stays as it is.
pub open spec fn recorded(state: GameState, cells: Seq<Field>) -> GameState {
    if state == GameState::Unfinished {
        outcome(cells)
    } else {
        state
    }
}

/// What one classification does to a board: cells and blank index stay,
/// and the state on record becomes `recorded` of the old one.
pub open spec fn classified(before: &TicTacToe, after: &TicTacToe) -> bool {
    &&& after.cells() == before.cells()
    &&& after.blanks() == before.blanks()
    &&& after.state() == recorded(before.state(), before.cells())
}

/// A legal move keeps every line that a mark already holds, and is made
/// on a position that is not drawn.
proof fn lemma_move_keeps_held_lines(cells: Seq<Field>, n: int, f: Field)
    requires
        cells.len() == 9,
        legal(cells, n),
    ensures
        forall|k: int, m: Field|
            0 <= k < 8 && m != Field::Blank && line_held_by(cells, k, m) ==> #[trigger] line_held_by(
                cells.update(n, f),
                k,
                m,
            ),
        outcome(cells) != GameState::Draw,
{
    assert(!full(cells));
}

/// The blank index of a position is unique: two ascending lists of exactly
/// the blank cells are the same list.
pub proof fn law_blank_index_is_determined(a: Seq<usize>, b: Seq<usize>, cells: Seq<Field>)
    requires
        cells.len() == 9,
        tracks_blanks(a, cells),
        tracks_blanks(b, cells),
    ensures
        a == b,
    decreases a.len(),
{
    if a.len() == 0 {
        if b.len() > 0 {
            assert(legal(cells, b[0] as int));
            assert(a.contains(b[0]));
        }
        assert(a =~= b);
    } else {
        // The largest blank index closes both lists.
        let top = a.last();
        assert(legal(cells, top as int));
        assert(b.contains(top));
        let at = choose|i: int| 0 <= i < b.len() && b[i] == top;
        if at < b.len() - 1 {
            let above = b.last();
            assert(legal(cells, above as int));
            assert(a.contains(above));
        }
        let rest = cells.update(top as int, Field::X);
        let a0 = a.drop_last();
        let b0 = b.drop_last();
        assert forall|n: int| #[trigger] legal(rest, n) implies a0.contains(n as usize) by {
            assert(legal(cells, n));
            let i = choose|i: int| 0 <= i < a.len() && a[i] == n as usize;
            assert(a0[i] == n as usize);
        }
        assert forall|n: int| #[trigger] legal(rest, n) implies b0.contains(n as usize) by {
            assert(legal(cells, n));
            let i = choose|i: int| 0 <= i < b.len() && b[i] == n as usize;
            assert(b0[i] == n as usize);
        }
        assert forall|i: int| 0 <= i < a0.len() implies legal(rest, #[trigger] a0[i] as int) by {
            assert(a0[i] == a[i]);
        }
        assert forall|i: int| 0 <= i < b0.len() implies legal(rest, #[trigger] b0[i] as int) by {
            assert(b0[i] == b[i]);
        }
        law_blank_index_is_determined(a0, b0, rest);
        assert(a =~= a0.push(top));
        assert(b =~= b0.push(top));
    }
}

/// Whatever mark is played, the blank index only ever shrinks in order:
/// with one index taken out of an ascending list, the list is still
/// ascending, the index taken is gone, and what is left is what was there,
/// in the order in which it was there.
pub proof fn law_blank_index_shrinks_in_order(blanks: Seq<usize>, at: int)
    requires
        forall|i: int, j: int| 0 <= i < j < blanks.len() ==> blanks[i] < blanks[j],
        0 <= at < blanks.len(),
    ensures
        ({
            let rest = blanks.remove(at);
            &&& rest.len() == blanks.len() - 1
            &&& forall|i: int, j: int| 0 <= i < j < rest.len() ==> rest[i] < rest[j]
            &&& forall|i: int| 0 <= i < at ==> rest[i] == blanks[i]
            &&& forall|i: int| at <= i < rest.len() ==> rest[i] == blanks[i + 1]
            &&& !rest.contains(blanks[at])
            &&& blanks.index_of(blanks[at]) == at
        }),
{
    let rest = blanks.remove(at);
    assert forall|i: int, j: int| 0 <= i < j < rest.len() implies rest[i] < rest[j] by {
        let a = if i < at { i } else { i + 1 };
        let b = if j < at { j } else { j + 1 };
        assert(rest[i] == blanks[a] && rest[j] == blanks[b]);
    }
    assert forall|i: int| 0 <= i < rest.len() implies rest[i] != blanks[at] by {
        let a = if i < at { i } else { i + 1 };
        assert(rest[i] == blanks[a]);
    }
    let found = blanks.index_of(blanks[at]);
    assert(0 <= found < blanks.len() && blanks[found] == blanks[at]);
}

/// The position reached from `cells` by attempting `moves` in order, each
/// a cell index and a mark.
pub open spec fn after_moves(cells: Seq<Field>, moves: Seq<(int, Field)>) -> Seq<Field>
    decreases moves.len(),
{
    if moves.len() == 0 {
        cells
    } else {
        place(after_moves(cells, moves.drop_last()), moves.last().0, moves.last().1)
    }
}

/// Whether attempt `i` of `moves` found its cell blank and was carried out.
pub open spec fn accepted(cells: Seq<Field>, moves: Seq<(int, Field)>, i: int) -> bool {
    legal(after_moves(cells, moves.take(i)), moves[i].0)
}

/// A cell that holds a mark after the first `a` attempts holds the same
/// mark after the first `b`, for every later `b`.
proof fn lemma_marks_stay(cells: Seq<Field>, moves: Seq<(int, Field)>, a: int, b: int, n: int)
    requires
        0 <= a <= b <= moves.len(),
        0 <= n < 9,
        cells.len() == 9,
        after_moves(cells, moves.take(a))[n] != Field::Blank,
    ensures
        after_moves(cells, moves.take(b)).len() == 9,
        after_moves(cells, moves.take(b))[n] == after_moves(cells, moves.take(a))[n],
    decreases b,
{
    if a == b {
        lemma_length_stays(cells, moves, b);
    } else {
        lemma_marks_stay(cells, moves, a, b - 1, n);
        assert(moves.take(b).drop_last() =~= moves.take(b - 1));
    }
}

/// Attempted moves never change the number of cells.
proof fn lemma_length_stays(cells: Seq<Field>, moves: Seq<(int, Field)>, b: int)
    requires
        0 <= b <= moves.len(),
        cells.len() == 9,
    ensures
        after_moves(cells, moves.take(b)).len() == 9,
    decreases b,
{
    if b == 0 {
        assert(moves.take(0) =~= Seq::empty());
    } else {
        lemma_length_stays(cells, moves, b - 1);
        assert(moves.take(b).drop_last() =~= moves.take(b - 1));
    }
}

/// No cell is written twice: once an attempt on a cell was carried out with
/// a mark, every later attempt on that cell is refused, and the cell holds
/// the first mark for good.
pub proof fn law_written_cell_is_never_rewritten(
    cells: Seq<Field>,
    moves: Seq<(int, Field)>,
    i: int,
    j: int,
)
    requires
        cells.len() == 9,
        0 <= i < j < moves.len(),
        moves[i].0 == moves[j].0,
        moves[i].1 != Field::Blank,
        accepted(cells, moves, i),
    ensures
        !accepted(cells, moves, j),
        after_moves(cells, moves)[moves[i].0] == moves[i].1,
{
    let n = moves[i].0;
    lemma_length_stays(cells, moves, i);
    assert(moves.take(i + 1).drop_last() =~= moves.take(i));
    assert(after_moves(cells, moves.take(i + 1))[n] == moves[i].1);
    lemma_marks_stay(cells, moves, i + 1, j, n);
    lemma_marks_stay(cells, moves, i + 1, moves.len() as int, n);
    assert(moves.take(moves.len() as int) =~= moves);
}

/// A position is classified as won by `m` exactly when `m` is the mark of
/// the first winning line; then `m` is not blank and holds that whole line.
/// A position classified otherwise has no winning line.
pub proof fn law_win_names_a_held_line(cells: Seq<Field>)
    ensures
        match outcome(cells) {
            GameState::Won(m) => m != Field::Blank && exists|k: int|
                0 <= k < 8 && #[trigger] line_held_by(cells, k, m) && line_wins(cells, k)
                    && forall|j: int| 0 <= j < k ==> !#[trigger] line_wins(cells, j),
            _ => forall|k: int| 0 <= k < 8 ==> !#[trigger] line_wins(cells, k),
        },
{
    reveal_with_fuel(winner_from, 9);
    let first = if line_wins(cells, 0) {
        0int
    } else if line_wins(cells, 1) {
        1
    } else if line_wins(cells, 2) {
        2
    } else if line_wins(cells, 3) {
        3
    } else if line_wins(cells, 4) {
        4
    } else if line_wins(cells, 5) {
        5
    } else if line_wins(cells, 6) {
        6
    } else if line_wins(cells, 7) {
        7
    } else {
        8
    };
    if first < 8 {
        let m = cells[line(first).0];
        assert(winner(cells) == Some(m));
        assert(line_held_by(cells, first, m));
        assert(line_wins(cells, first) && forall|j: int|
            0 <= j < first ==> !#[trigger] line_wins(cells, j));
    } else {
        assert(winner(cells) is None);
    }
}

/// A position classified as drawn has no blank cell and no winning line.
pub proof fn law_draw_is_full_without_line(cells: Seq<Field>)
    ensures
        outcome(cells) == GameState::Draw <==> full(cells) && forall|k: int|
            0 <= k < 8 ==> !#[trigger] line_wins(cells, k),
{
    law_win_names_a_held_line(cells);
    reveal_with_fuel(winner_from, 9);
}

/// A decided position stays decided: no move turns a won or drawn position
/// into an unfinished one, and a drawn position admits no move at all.
pub proof fn law_decided_position_stays_decided(cells: Seq<Field>, n: int, f: Field)
    requires
        cells.len() == 9,
        f != Field::Blank,
        outcome(cells) != GameState::Unfinished,
    ensures
        outcome(place(cells, n, f)) != GameState::Unfinished,
        outcome(cells) == GameState::Draw ==> place(cells, n, f) == cells,
{
    law_win_names_a_held_line(cells);
    law_win_names_a_held_line(place(cells, n, f));
    if let GameState::Won(m) = outcome(cells) {
        let k = choose|k: int|
            0 <= k < 8 && #[trigger] line_held_by(cells, k, m) && line_wins(cells, k);
        assert(line_wins(place(cells, n, f), k));
    }
}

/// What may happen to a board: an attempt to put a mark on a cell, or a
/// classification of the position.
pub enum Event {
    Move(int, Field),
    Classify,
}

/// The cells and the state on record after a run of events, taken in
/// order from the given cells and state.
pub open spec fn after_events(cells: Seq<Field>, state: GameState, events: Seq<Event>) -> (
    Seq<Field>,
    GameState,
)
    decreases events.len(),
{
    if events.len() == 0 {
        (cells, state)
    } else {
        let before = after_events(cells, state, events.drop_last());
        match events.last() {
            Event::Move(n, f) => (place(before.0, n, f), before.1),
            Event::Classify => (before.0, recorded(before.1, before.0)),
        }
    }
}

/// A recorded win or draw is final: whatever moves and classifications
/// follow, the state on record stays the same.
pub proof fn law_decided_stays_decided(cells: Seq<Field>, state: GameState, events: Seq<Event>)
    requires
        state != GameState::Unfinished,
    ensures
        after_events(cells, state, events).1 == state,
    decreases events.len(),
{
    if events.len() > 0 {
        law_decided_stays_decided(cells, state, events.drop_last());
    }
}

/// Classifying twice is classifying once: the second call changes nothing.
pub proof fn law_update_is_idempotent(b0: TicTacToe, b1: TicTacToe, b2: TicTacToe)
    requires
        classified(&b0, &b1),
        classified(&b1, &b2),
    ensures
        b2.state() == b1.state(),
        b2.cells() == b1.cells(),
        b2.blanks() == b1.blanks(),
{
}

} // verus!
