//! The board as text: a grid of eight rows between border lines, with one
//! letter for each piece. Upper case letters stand for the positive side,
//! lower case letters for the negative side, a space for an empty square.
use vstd::prelude::*;
use crate::chess::Chess_Board;

verus! {

/// The letter for a piece code. A code that stands for no piece has none.
pub open spec fn glyph_of(piece: i8) -> Option<char> {
    if piece == 0 {
        Some(' ')
    } else if piece == 1 {
        Some('P')
    } else if piece == 2 {
        Some('N')
    } else if piece == 3 {
        Some('B')
    } else if piece == 4 {
        Some('R')
    } else if piece == 5 {
        Some('Q')
    } else if piece == 6 {
        Some('K')
    } else if piece == -1 {
        Some('p')
    } else if piece == -2 {
        Some('n')
    } else if piece == -3 {
        Some('b')
    } else if piece == -4 {
        Some('r')
    } else if piece == -5 {
        Some('q')
    } else if piece == -6 {
        Some('k')
    } else {
        None
    }
}

/// The `i`-th character of a border line, which repeats `+ --- `.
pub open spec fn border_char(i: int) -> char {
    if i % 6 == 0 {
        '+'
    } else if i % 6 == 1 || i % 6 == 5 {
        ' '
    } else {
        '-'
    }
}

/// A border line: eight times `+ --- ` and a closing `+`.
pub open spec fn border() -> Seq<char> {
    Seq::new(49, |i: int| border_char(i))
}

/// What opens a row of cells.
pub open spec fn row_start() -> Seq<char> {
    seq!['|', ' ', ' ']
}

/// The text of one cell: the letter of the piece, if it has one, and the
/// bar that closes the cell.
pub open spec fn cell_text(piece: i8) -> Seq<char> {
    (match glyph_of(piece) {
        Some(letter) => seq![letter],
        None => Seq::empty(),
    }) + seq![' ', ' ', '|', ' ', ' ']
}

/// What follows the `n`-th cell: nothing inside a row; at the end of a
/// row a line break, a border line and a line break, and the opening of
/// the next row if there is one.
pub open spec fn row_end(n: int) -> Seq<char> {
    if n % 8 != 0 {
        Seq::empty()
    } else if n != 64 {
        seq!['\n'] + border() + seq!['\n'] + row_start()
    } else {
        seq!['\n'] + border() + seq!['\n']
    }
}

/// The text up to and with the `n`-th cell.
pub open spec fn text_upto(board: Seq<i8>, n: int) -> Seq<char>
    decreases n,
{
    if n <= 0 {
        border() + seq!['\n'] + row_start()
    } else {
        text_upto(board, n - 1) + cell_text(board[n - 1]) + row_end(n)
    }
}

/// The letter for a piece code.
pub fn glyph(piece: i8) -> (letter: Option<char>)
    ensures
        letter == glyph_of(piece),
{
    match piece {
        -4 => Some('r'),
        -2 => Some('n'),
        -3 => Some('b'),
        -5 => Some('q'),
        -6 => Some('k'),
        -1 => Some('p'),
        0 => Some(' '),
        4 => Some('R'),
        2 => Some('N'),
        3 => Some('B'),
        5 => Some('Q'),
        6 => Some('K'),
        1 => Some('P'),
        _ => None,
    }
}

fn push_border(text: &mut Vec<char>)
    ensures
        final(text)@ == old(text)@ + border(),
{
    let ghost line = Seq::<char>::empty();
    for i in 0..49usize
        invariant
            line.len() == i,
            forall|j: int| 0 <= j < i ==> #[trigger] line[j] == border_char(j),
            text@ == old(text)@ + line,
    {
        let c = if i % 6 == 0 {
            '+'
        } else if i % 6 == 1 || i % 6 == 5 {
            ' '
        } else {
            '-'
        };
        text.push(c);
        proof {
            line = line.push(c);
            assert(text@ =~= old(text)@ + line);
        }
    }
    assert(line =~= border());
}

fn push_row_start(text: &mut Vec<char>)
    ensures
        final(text)@ == old(text)@ + row_start(),
{
    text.push('|');
    text.push(' ');
    text.push(' ');
    assert(text@ =~= old(text)@ + row_start());
}

fn push_cell(text: &mut Vec<char>, piece: i8)
    ensures
        final(text)@ == old(text)@ + cell_text(piece),
{
    match glyph(piece) {
        Some(letter) => {
            text.push(letter);
        },
        None => {},
    }
    text.push(' ');
    text.push(' ');
    text.push('|');
    text.push(' ');
    text.push(' ');
    assert(text@ =~= old(text)@ + cell_text(piece));
}

impl Chess_Board {
    /// The board as text, for a person to read.
    pub fn board_text(&self) -> (text: Vec<char>)
        ensures
            text@ == text_upto(self.board@, 64),
    {
        let mut text: Vec<char> = Vec::new();
        push_border(&mut text);
        text.push('\n');
        push_row_start(&mut text);
        assert(text@ =~= text_upto(self.board@, 0));
        for index in 0..64usize
            invariant
                text@ == text_upto(self.board@, index as int),
        {
            let ghost before = text@;
            push_cell(&mut text, self.board[index]);
            let ghost with_cell = text@;
            if (index + 1) % 8 == 0 {
                text.push('\n');
                push_border(&mut text);
                text.push('\n');
                if index != 63 {
                    push_row_start(&mut text);
                }
            }
            assert(text@ =~= with_cell + row_end(index + 1));
        }
        text
    }
}

} // verus!
