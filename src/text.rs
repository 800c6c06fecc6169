//! The text form of a grid: how lines of characters become rows of cells,
//! and how cells are written back.
use vstd::prelude::*;

use crate::error::{GridSizeError, ParseGridError};
use crate::life::Board;

verus! {

/// The character of a dead cell: U+00B7 MIDDLE DOT.
pub const DEAD: char = '\u{b7}';

/// Whether a character has the Unicode `White_Space` property, as
/// `char::is_whitespace` decides it.
pub uninterp spec fn white_space(c: char) -> bool;

/// Relies on `char::is_whitespace`: whether the character is whitespace,
/// an answer that depends on the character alone.
#[verifier::external_body]
fn is_whitespace(c: char) -> (r: bool)
    ensures
        r == white_space(c),
{
    c.is_whitespace()
}

/// The pieces of a text between line feeds: one more than it has line feeds.
pub open spec fn pieces(s: Seq<char>) -> Seq<Seq<char>>
    decreases s.len(),
{
    if s.len() == 0 {
        seq![Seq::empty()]
    } else {
        let p = pieces(s.drop_last());
        if s.last() == '\n' {
            p.push(Seq::empty())
        } else {
            p.update(p.len() - 1, p.last().push(s.last()))
        }
    }
}

/// The lines of a text: its pieces between line feeds, less the last piece
/// when that one is empty (the text is empty or ends with a line feed).
pub open spec fn lines(s: Seq<char>) -> Seq<Seq<char>> {
    let p = pieces(s);
    if p.last().len() == 0 {
        p.drop_last()
    } else {
        p
    }
}

/// The characters of a line that stand for cells: all but whitespace.
pub open spec fn visible(line: Seq<char>) -> Seq<char> {
    line.filter(|c: char| !white_space(c))
}

/// The characters that stand for cells, line by line.
pub open spec fn cell_rows(s: Seq<char>) -> Seq<Seq<char>> {
    lines(s).map_values(|line: Seq<char>| visible(line))
}

/// Row `k` is the first row, after the first one, whose length differs from
/// the length of the first row.
pub open spec fn is_first_mismatch(rows: Seq<Seq<char>>, k: int) -> bool {
    &&& 1 <= k < rows.len()
    &&& rows[k].len() != rows[0].len()
    &&& forall|m: int| 1 <= m < k ==> (#[trigger] rows[m]).len() == rows[0].len()
}

/// Whether a cell character stands for a living cell.
pub open spec fn is_live_char(c: char) -> bool {
    c != DEAD
}

/// The board that rows of cell characters describe, or why they describe none.
///
/// The first row whose length differs from that of the first row makes the
/// grid not rectangular; rows that describe no cell at all make it empty.
pub open spec fn read_rows(rows: Seq<Seq<char>>) -> Result<Board, ParseGridError> {
    if exists|k: int| 1 <= k < rows.len() && (#[trigger] rows[k]).len() != rows[0].len() {
        let k = choose|k: int| is_first_mismatch(rows, k);
        Err(
            ParseGridError::NotRectangular {
                line: (k + 1) as usize,
                found: rows[k].len() as usize,
                expected: rows[0].len() as usize,
            },
        )
    } else if rows.len() == 0 || rows[0].len() == 0 {
        Err(ParseGridError::Empty)
    } else {
        Ok(rows.map_values(|row: Seq<char>| row.map_values(|c: char| is_live_char(c))))
    }
}

/// The board that a text describes, or why it describes none.
pub open spec fn read_text(s: Seq<char>) -> Result<Board, ParseGridError> {
    read_rows(cell_rows(s))
}

/// The text of one cell: a space, then 'X' for a living cell or '·' for a dead one.
pub open spec fn cell_text(alive: bool) -> Seq<char> {
    if alive {
        seq![' ', 'X']
    } else {
        seq![' ', DEAD]
    }
}

/// The text of a row: its cells one after the other.
pub open spec fn row_text(row: Seq<bool>) -> Seq<char>
    decreases row.len(),
{
    if row.len() == 0 {
        Seq::empty()
    } else {
        row_text(row.drop_last()) + cell_text(row.last())
    }
}

/// The text of a board: each row followed by a line feed.
pub open spec fn board_text(b: Board) -> Seq<char>
    decreases b.len(),
{
    if b.len() == 0 {
        Seq::empty()
    } else {
        board_text(b.drop_last()) + row_text(b.last()).push('\n')
    }
}

/// The character of a decimal digit.
pub open spec fn digit_char(d: nat) -> char {
    seq!['0', '1', '2', '3', '4', '5', '6', '7', '8', '9'][d as int]
}

/// A number in decimal digits, most significant first, without leading zeros.
pub open spec fn decimal(n: nat) -> Seq<char>
    decreases n,
{
    if n < 10 {
        seq![digit_char(n)]
    } else {
        decimal(n / 10).push(digit_char(n % 10))
    }
}

/// Relies on `String::push`: appends the character to the end of the string.
#[verifier::external_body]
pub(crate) fn push_char(s: &mut String, c: char)
    ensures
        final(s)@ == old(s)@.push(c),
{
    s.push(c);
}

/// Relies on `String::push_str`: appends the text to the end of the string.
#[verifier::external_body]
pub(crate) fn push_str(s: &mut String, t: &str)
    ensures
        final(s)@ == old(s)@ + t@,
{
    s.push_str(t);
}

/// Relies on `u64`'s `Display`, through `ToString::to_string`: the number in
/// decimal digits.
#[verifier::external_body]
pub(crate) fn decimal_text(n: u64) -> (r: String)
    ensures
        r@ == decimal(n as nat),
{
    n.to_string()
}

/// A line of `ncol` dead cells, with a space between two cells when `spaced`.
pub open spec fn dead_line(ncol: nat, spaced: bool) -> Seq<char>
    decreases ncol,
{
    if ncol == 0 {
        Seq::empty()
    } else if ncol == 1 {
        seq![DEAD]
    } else if spaced {
        dead_line((ncol - 1) as nat, spaced) + seq![' ', DEAD]
    } else {
        dead_line((ncol - 1) as nat, spaced).push(DEAD)
    }
}

/// `nrow` lines of `ncol` dead cells, each ended by a line feed.
pub open spec fn dead_text(nrow: nat, ncol: nat, spaced: bool) -> Seq<char>
    decreases nrow,
{
    if nrow == 0 {
        Seq::empty()
    } else {
        dead_text((nrow - 1) as nat, ncol, spaced) + dead_line(ncol, spaced).push('\n')
    }
}

/// Writes a grid of `nrow` rows and `ncol` columns of dead cells in the form
/// that [`Grid::parse`](crate::Grid::parse) reads, with a space between two
/// cells of a line when `spaced`: a template to draw a seed on.
///
/// Fails with [`GridSizeError::Zero`] when either dimension is 0.
pub fn dead_grid_text(nrow: usize, ncol: usize, spaced: bool) -> (r: Result<String, GridSizeError>)
    ensures
        r is Err <==> nrow == 0 || ncol == 0,
        r is Err ==> r == Err::<String, GridSizeError>(GridSizeError::Zero),
        r matches Ok(t) ==> t@ == dead_text(nrow as nat, ncol as nat, spaced),
{
    if nrow == 0 || ncol == 0 {
        return Err(GridSizeError::Zero);
    }
    let mut line = String::new();
    let mut j: usize = 0;
    while j < ncol
        invariant
            j <= ncol,
            line@ == dead_line(j as nat, spaced),
        decreases ncol - j,
    {
        if spaced && j > 0 {
            push_char(&mut line, ' ');
        }
        push_char(&mut line, DEAD);
        j += 1;
    }
    push_char(&mut line, '\n');
    let mut out = String::new();
    let mut i: usize = 0;
    while i < nrow
        invariant
            i <= nrow,
            line@ == dead_line(ncol as nat, spaced).push('\n'),
            out@ == dead_text(i as nat, ncol as nat, spaced),
        decreases nrow - i,
    {
        push_str(&mut out, line.as_str());
        i += 1;
    }
    Ok(out)
}

/// A text always has at least one piece.
proof fn lemma_pieces_len(s: Seq<char>)
    ensures
        pieces(s).len() >= 1,
    decreases s.len(),
{
    if s.len() > 0 {
        lemma_pieces_len(s.drop_last());
    }
}

/// Splits a text into lines and keeps, of each line, the characters that
/// stand for cells.
pub(crate) fn visible_lines(s: &str) -> (r: Vec<Vec<char>>)
    ensures
        r.deep_view() == cell_rows(s@),
{
    let mut rows: Vec<Vec<char>> = Vec::new();
    let mut row: Vec<char> = Vec::new();
    let mut pending = false;
    let ghost mut seen: Seq<char> = Seq::empty();
    for c in it: s.chars()
        invariant
            it.seq() == s@,
            seen == s@.take(it.index() as int),
            pieces(seen).len() >= 1,
            rows.deep_view() == pieces(seen).drop_last().map_values(|line: Seq<char>| visible(line)),
            row@ == visible(pieces(seen).last()),
            pending == (pieces(seen).last().len() > 0),
    {
        let ghost old_rows = rows.deep_view();
        let ghost old_row = row@;
        proof {
            lemma_pieces_len(seen);
            assert(seen.push(c).drop_last() =~= seen);
            reveal_with_fuel(Seq::filter, 1);
        }
        if c == '\n' {
            proof {
                assert(row.deep_view() =~= row@);
            }
            rows.push(row);
            row = Vec::new();
            pending = false;
        } else {
            if !is_whitespace(c) {
                row.push(c);
            }
            pending = true;
        }
        proof {
            let p = pieces(seen);
            seen = seen.push(c);
            lemma_pieces_len(seen);
            if c == '\n' {
                assert(pieces(seen).drop_last() =~= p);
                assert(rows.deep_view() =~= old_rows.push(old_row));
                assert(p =~= p.drop_last().push(p.last()));
                assert(p.map_values(|line: Seq<char>| visible(line)) =~= p.drop_last().map_values(
                    |line: Seq<char>| visible(line),
                ).push(visible(p.last())));
                assert(pieces(seen).last() =~= Seq::<char>::empty());
                assert(visible(Seq::<char>::empty()) =~= Seq::<char>::empty());
            } else {
                assert(pieces(seen).drop_last() =~= p.drop_last());
                p.last().lemma_filter_push(c, |c: char| !white_space(c));
            }
        }
    }
    proof {
        assert(seen =~= s@);
    }
    if pending {
        proof {
            assert(row.deep_view() =~= row@);
        }
        let ghost old_rows = rows.deep_view();
        let ghost old_row = row@;
        rows.push(row);
        proof {
            assert(rows.deep_view() =~= old_rows.push(old_row));
            assert(pieces(seen).drop_last().push(pieces(seen).last()) =~= pieces(seen));
            assert(rows.deep_view() =~= cell_rows(s@));
        }
    } else {
        proof {
            assert(rows.deep_view() =~= cell_rows(s@));
        }
    }
    rows
}

} // verus!
