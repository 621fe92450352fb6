//! Plain-text rendering of the board: a header of 1-based column numbers,
//! then for each row a separator line and the row's letter followed by its
//! cells. A cell shows its tile's letter and value, else its modifier's
//! abbreviation, else two blanks.

use vstd::prelude::*;
use crate::board::{Board, BoardLocation, Square, SquareModifier, BOARD_WIDTH, BOARD_HEIGHT};

verus! {

/// The decimal digit `d`, for `0 <= d < 10`.
pub open spec fn digit(d: int) -> char {
    seq!['0', '1', '2', '3', '4', '5', '6', '7', '8', '9'][d]
}

/// The decimal representation of `n`, without leading zeros.
pub open spec fn decimal(n: nat) -> Seq<char>
    decreases n,
{
    if n < 10 {
        seq![digit(n as int)]
    } else {
        decimal(n / 10).push(digit((n % 10) as int))
    }
}

/// `s` right-aligned in a field two characters wide.
pub open spec fn pad2(s: Seq<char>) -> Seq<char> {
    if s.len() < 2 {
        seq![' '] + s
    } else {
        s
    }
}

/// The label of row `y`: `A` for the first row, `B` for the next, and so on.
pub open spec fn row_letter(y: int) -> char {
    seq![
        'A', 'B', 'C', 'D', 'E', 'F', 'G', 'H', 'I', 'J', 'K', 'L', 'M',
        'N', 'O', 'P', 'Q', 'R', 'S', 'T', 'U', 'V', 'W', 'X', 'Y',
    ][y]
}

/// The two-letter abbreviation of a modifier.
pub open spec fn modifier_text(m: SquareModifier) -> Seq<char> {
    match m {
        SquareModifier::DoubleLetter => seq!['D', 'L'],
        SquareModifier::TripleLetter => seq!['T', 'L'],
        SquareModifier::DoubleWord => seq!['D', 'W'],
        SquareModifier::TripleWord => seq!['T', 'W'],
    }
}

/// What one cell shows.
pub open spec fn cell_text(sq: Square) -> Seq<char> {
    match sq.tile {
        Some(t) => seq![t.letter] + decimal(t.value as nat),
        None => match sq.modifier {
            Some(m) => modifier_text(m),
            None => seq![' ', ' '],
        },
    }
}

/// The labels of the first `k` columns.
pub open spec fn header_cells(k: nat) -> Seq<char>
    decreases k,
{
    if k == 0 {
        Seq::empty()
    } else {
        header_cells((k - 1) as nat) + seq!['|'] + pad2(decimal(k))
    }
}

/// `k` repetitions of the separator segment `+--`.
pub open spec fn separator_cells(k: nat) -> Seq<char>
    decreases k,
{
    if k == 0 {
        Seq::empty()
    } else {
        separator_cells((k - 1) as nat) + seq!['+', '-', '-']
    }
}

/// The line drawn between rows.
pub open spec fn separator() -> Seq<char> {
    seq!['-', '-'] + separator_cells(BOARD_WIDTH as nat)
}

/// The first `k` cells of row `y`, each after a `|`.
pub open spec fn row_cells(board: Board, y: int, k: nat) -> Seq<char>
    decreases k,
{
    if k == 0 {
        Seq::empty()
    } else {
        row_cells(board, y, (k - 1) as nat) + seq!['|'] + cell_text(board.square(k - 1, y))
    }
}

/// The first `k` rows, each after a line break, a separator and a line break.
pub open spec fn row_lines(board: Board, k: nat) -> Seq<char>
    decreases k,
{
    if k == 0 {
        Seq::empty()
    } else {
        row_lines(board, (k - 1) as nat) + seq!['\n'] + separator() + seq![
            '\n',
            ' ',
            row_letter(k - 1),
        ] + row_cells(board, k - 1, BOARD_WIDTH as nat)
    }
}

/// The whole rendering of `board`.
pub open spec fn board_text(board: Board) -> Seq<char> {
    seq![' ', ' '] + header_cells(BOARD_WIDTH as nat) + row_lines(board, BOARD_HEIGHT as nat)
}

fn digit_char(d: usize) -> (c: char)
    requires
        d < 10,
    ensures
        c == digit(d as int),
{
    let digits = vec!['0', '1', '2', '3', '4', '5', '6', '7', '8', '9'];
    assert(digits@ =~= seq!['0', '1', '2', '3', '4', '5', '6', '7', '8', '9']);
    digits[d]
}

fn decimal_chars(n: usize) -> (r: Vec<char>)
    ensures
        r@ == decimal(n as nat),
    decreases n,
{
    if n < 10 {
        let r = vec![digit_char(n)];
        assert(r@ =~= decimal(n as nat));
        r
    } else {
        let mut r = decimal_chars(n / 10);
        r.push(digit_char(n % 10));
        r
    }
}

fn row_label(y: usize) -> (c: char)
    requires
        y < BOARD_HEIGHT,
    ensures
        c == row_letter(y as int),
{
    let letters = vec![
        'A', 'B', 'C', 'D', 'E', 'F', 'G', 'H', 'I', 'J', 'K', 'L', 'M',
        'N', 'O', 'P', 'Q', 'R', 'S', 'T', 'U', 'V', 'W', 'X', 'Y',
    ];
    assert(letters@ =~= seq![
        'A', 'B', 'C', 'D', 'E', 'F', 'G', 'H', 'I', 'J', 'K', 'L', 'M',
        'N', 'O', 'P', 'Q', 'R', 'S', 'T', 'U', 'V', 'W', 'X', 'Y',
    ]);
    letters[y]
}

fn cell_chars(sq: &Square) -> (r: Vec<char>)
    ensures
        r@ == cell_text(*sq),
{
    match sq.tile {
        Some(t) => {
            let mut r = vec![t.letter];
            let mut d = decimal_chars(t.value);
            r.append(&mut d);
            assert(r@ =~= cell_text(*sq));
            r
        },
        None => {
            let r = match sq.modifier {
                Some(SquareModifier::DoubleLetter) => vec!['D', 'L'],
                Some(SquareModifier::TripleLetter) => vec!['T', 'L'],
                Some(SquareModifier::DoubleWord) => vec!['D', 'W'],
                Some(SquareModifier::TripleWord) => vec!['T', 'W'],
                None => vec![' ', ' '],
            };
            assert(r@ =~= cell_text(*sq));
            r
        },
    }
}

fn separator_chars() -> (r: Vec<char>)
    ensures
        r@ == separator(),
{
    let mut r = vec!['-', '-'];
    let mut k: usize = 0;
    assert(r@ =~= seq!['-', '-'] + separator_cells(0));
    while k < BOARD_WIDTH
        invariant
            k <= BOARD_WIDTH,
            r@ == seq!['-', '-'] + separator_cells(k as nat),
        decreases BOARD_WIDTH - k,
    {
        let mut seg = vec!['+', '-', '-'];
        assert(seg@ =~= seq!['+', '-', '-']);
        r.append(&mut seg);
        k = k + 1;
        assert(r@ =~= seq!['-', '-'] + separator_cells(k as nat));
    }
    r
}

/// Relies on std's `String: FromIterator<char>`: the string holds the chars in order.
#[verifier::external_body]
fn string_from_chars(chars: &Vec<char>) -> (s: String)
    ensures
        s@ == chars@,
{
    chars.iter().collect::<String>()
}

impl Board {
    /// The board as text: the header line, then each row under a separator.
    pub fn render(&self) -> (text: String)
        requires
            self.wf(),
        ensures
            text@ == board_text(*self),
    {
        let mut out = vec![' ', ' '];
        let mut x: usize = 0;
        assert(out@ =~= seq![' ', ' '] + header_cells(0));
        while x < BOARD_WIDTH
            invariant
                x <= BOARD_WIDTH,
                out@ == seq![' ', ' '] + header_cells(x as nat),
            decreases BOARD_WIDTH - x,
        {
            let mut bar = vec!['|'];
            assert(bar@ =~= seq!['|']);
            out.append(&mut bar);
            let mut label = decimal_chars(x + 1);
            if label.len() < 2 {
                label.insert(0, ' ');
            }
            assert(label@ =~= pad2(decimal((x + 1) as nat)));
            out.append(&mut label);
            x = x + 1;
        }
        let sep = separator_chars();
        let mut y: usize = 0;
        assert(out@ =~= seq![' ', ' '] + header_cells(BOARD_WIDTH as nat) + row_lines(*self, 0));
        while y < BOARD_HEIGHT
            invariant
                y <= BOARD_HEIGHT,
                self.wf(),
                sep@ == separator(),
                out@ == seq![' ', ' '] + header_cells(BOARD_WIDTH as nat) + row_lines(
                    *self,
                    y as nat,
                ),
            decreases BOARD_HEIGHT - y,
        {
            let ghost start = out@;
            let mut line = vec!['\n'];
            assert(line@ =~= seq!['\n']);
            line.append(&mut sep.clone());
            let mut label = vec!['\n', ' ', row_label(y)];
            assert(label@ =~= seq!['\n', ' ', row_letter(y as int)]);
            line.append(&mut label);
            let mut cx: usize = 0;
            assert(line@ =~= seq!['\n'] + separator() + seq!['\n', ' ', row_letter(y as int)]
                + row_cells(*self, y as int, 0));
            while cx < BOARD_WIDTH
                invariant
                    cx <= BOARD_WIDTH,
                    y < BOARD_HEIGHT,
                    self.wf(),
                    line@ == seq!['\n'] + separator() + seq!['\n', ' ', row_letter(y as int)]
                        + row_cells(*self, y as int, cx as nat),
                decreases BOARD_WIDTH - cx,
            {
                let sq = self.get_square(&BoardLocation { x: cx, y }).unwrap();
                let mut bar = vec!['|'];
                assert(bar@ =~= seq!['|']);
                line.append(&mut bar);
                let mut cell = cell_chars(&sq);
                line.append(&mut cell);
                cx = cx + 1;
                assert(line@ =~= seq!['\n'] + separator() + seq!['\n', ' ', row_letter(y as int)]
                    + row_cells(*self, y as int, cx as nat));
            }
            out.append(&mut line);
            y = y + 1;
            assert(out@ =~= seq![' ', ' '] + header_cells(BOARD_WIDTH as nat) + row_lines(
                *self,
                y as nat,
            ));
        }
        string_from_chars(&out)
    }
}

} // verus!
