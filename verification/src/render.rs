//! Verified rendering of ASCII tables: separators, padded rows and the
//! complete table text.
use vstd::prelude::*;

use crate::text::push_char;

verus! {

/// Byte length of the UTF-8 encoding of a text, as `str::len` reports it.
pub open spec fn spec_byte_len(s: Seq<char>) -> nat {
    (vstd::utf8::encode_utf8(s).len() as usize) as nat
}

/// `n` copies of the character `c`.
pub open spec fn spec_repeat(c: char, n: nat) -> Seq<char> {
    Seq::new(n, |_i: int| c)
}

/// Dashes of one separator segment: the column width plus one blank on
/// either side.
pub open spec fn spec_dash_segment(width: usize) -> Seq<char> {
    spec_repeat('-', (width + 2) as nat)
}

/// Separator segments joined by `+`.
pub open spec fn spec_separator_inner(widths: Seq<usize>) -> Seq<char>
    decreases widths.len(),
{
    if widths.len() == 0 {
        Seq::empty()
    } else if widths.len() == 1 {
        spec_dash_segment(widths[0])
    } else {
        spec_separator_inner(widths.drop_last()) + seq!['+'] + spec_dash_segment(widths.last())
    }
}

/// `+---+----+` line for the given column widths.
pub open spec fn spec_separator(widths: Seq<usize>) -> Seq<char> {
    seq!['+'] + spec_separator_inner(widths) + seq!['+']
}

/// A cell padded with blanks on the right to `width` characters, framed by
/// one blank on each side.
pub open spec fn spec_padded_cell(cell: Seq<char>, width: usize) -> Seq<char> {
    let pad: nat = if cell.len() < width { (width - cell.len()) as nat } else { 0 };
    seq![' '] + cell + spec_repeat(' ', pad) + seq![' ']
}

/// Padded cells joined by `|`.
pub open spec fn spec_row_inner(cells: Seq<Seq<char>>, widths: Seq<usize>) -> Seq<char>
    decreases cells.len(),
{
    if cells.len() == 0 {
        Seq::empty()
    } else if cells.len() == 1 {
        spec_padded_cell(cells[0], widths[0])
    } else {
        spec_row_inner(cells.drop_last(), widths) + seq!['|'] + spec_padded_cell(
            cells.last(),
            widths[cells.len() - 1],
        )
    }
}

/// `| a | bb |` line for the given cells and column widths.
pub open spec fn spec_row(cells: Seq<Seq<char>>, widths: Seq<usize>) -> Seq<char> {
    seq!['|'] + spec_row_inner(cells, widths) + seq!['|']
}

/// Width of column `c` over the header and the first `n` rows: the largest
/// byte length among them.
pub open spec fn spec_width(headers: Seq<Seq<char>>, rows: Seq<Seq<Seq<char>>>, n: int, c: int) -> nat
    decreases n,
{
    if n <= 0 {
        spec_byte_len(headers[c])
    } else {
        let prev = spec_width(headers, rows, n - 1, c);
        let len = spec_byte_len(rows[n - 1][c]);
        if prev < len { len } else { prev }
    }
}

/// Column widths of a table: at least as wide as the header and every cell.
pub open spec fn spec_column_widths(headers: Seq<Seq<char>>, rows: Seq<Seq<Seq<char>>>) -> Seq<usize> {
    Seq::new(headers.len(), |c: int| spec_width(headers, rows, rows.len() as int, c) as usize)
}

/// The rows of a table, each followed by a newline.
pub open spec fn spec_rows_text(rows: Seq<Seq<Seq<char>>>, widths: Seq<usize>) -> Seq<char>
    decreases rows.len(),
{
    if rows.len() == 0 {
        Seq::empty()
    } else {
        spec_rows_text(rows.drop_last(), widths) + spec_row(rows.last(), widths) + seq!['\n']
    }
}

/// The complete text of a rendered table.
pub open spec fn spec_table_text(
    name: Seq<char>,
    headers: Seq<Seq<char>>,
    rows: Seq<Seq<Seq<char>>>,
) -> Seq<char> {
    let widths = spec_column_widths(headers, rows);
    let sep = spec_separator(widths);
    seq!['\n'] + seq!['T', 'a', 'b', 'l', 'e', ':', ' '] + name + seq!['\n'] + sep + seq!['\n']
        + spec_row(headers, widths) + seq!['\n'] + sep + seq!['\n'] + spec_rows_text(rows, widths)
        + sep + seq!['\n']
}

/// The views of a sequence of strings.
pub open spec fn spec_texts(strings: Seq<String>) -> Seq<Seq<char>> {
    strings.map_values(|s: String| s@)
}

/// The views of a sequence of rows of strings.
pub open spec fn spec_rows_texts(rows: Seq<Vec<String>>) -> Seq<Seq<Seq<char>>> {
    rows.map_values(|r: Vec<String>| spec_texts(r@))
}

/// Appends `n` copies of `c` to `s`.
pub fn push_repeat(s: &mut String, c: char, n: usize)
    ensures
        final(s)@ == old(s)@ + spec_repeat(c, n as nat),
{
    let mut i: usize = 0;
    while i < n
        invariant
            0 <= i <= n,
            s@ == old(s)@ + spec_repeat(c, i as nat),
        decreases n - i,
    {
        push_char(s, c);
        assert(old(s)@ + spec_repeat(c, (i + 1) as nat) =~= old(s)@ + spec_repeat(c, i as nat) + seq![c]);
        i = i + 1;
    }
}

/// Appends a string slice to `s`.
pub fn push_str(s: &mut String, t: &str)
    ensures
        final(s)@ == old(s)@ + t@,
{
    s.append(t);
}

/// Build an ASCII separator line from column widths.
pub fn format_separator(column_widths: &[usize]) -> (line: String)
    requires
        column_widths@.len() > 0,
    ensures
        line@ == spec_separator(column_widths@),
{
    let mut line = String::new();
    push_char(&mut line, '+');
    let n = column_widths.len();
    let mut i: usize = 0;
    while i < n
        invariant
            n == column_widths@.len(),
            0 <= i <= n,
            line@ == seq!['+'] + spec_separator_inner(column_widths@.take(i as int)),
        decreases n - i,
    {
        let ghost before = line@;
        if i > 0 {
            push_char(&mut line, '+');
        }
        push_repeat(&mut line, '-', column_widths[i]);
        push_repeat(&mut line, '-', 2);
        proof {
            let w = column_widths@[i as int];
            let t = column_widths@.take(i as int + 1);
            assert(t.drop_last() =~= column_widths@.take(i as int));
            assert(spec_repeat('-', w as nat) + spec_repeat('-', 2) =~= spec_dash_segment(w));
            if i == 0 {
                assert(line@ =~= seq!['+'] + spec_separator_inner(t));
            } else {
                assert(line@ =~= seq!['+'] + spec_separator_inner(t));
            }
        }
        i = i + 1;
    }
    assert(column_widths@.take(n as int) =~= column_widths@);
    push_char(&mut line, '+');
    line
}

/// Appends one padded cell: a blank, the cell, blanks up to `width`
/// characters, and a blank.
fn push_padded_cell(s: &mut String, cell: &str, width: usize)
    ensures
        final(s)@ == old(s)@ + spec_padded_cell(cell@, width),
{
    push_char(s, ' ');
    push_str(s, cell);
    let count = cell.unicode_len();
    if count < width {
        push_repeat(s, ' ', width - count);
    } else {
        push_repeat(s, ' ', 0);
    }
    push_char(s, ' ');
    assert(final(s)@ =~= old(s)@ + spec_padded_cell(cell@, width)) by {
        assert(s@ =~= old(s)@ + spec_padded_cell(cell@, width));
    }
}

/// Format a single row of cells padded to column widths.
pub fn format_row(cells: &[String], column_widths: &[usize]) -> (line: String)
    requires
        cells@.len() == column_widths@.len(),
    ensures
        line@ == spec_row(spec_texts(cells@), column_widths@),
{
    let mut line = String::new();
    push_char(&mut line, '|');
    let n = cells.len();
    let mut i: usize = 0;
    while i < n
        invariant
            n == cells@.len(),
            n == column_widths@.len(),
            0 <= i <= n,
            line@ == seq!['|'] + spec_row_inner(spec_texts(cells@).take(i as int), column_widths@),
        decreases n - i,
    {
        if i > 0 {
            push_char(&mut line, '|');
        }
        push_padded_cell(&mut line, cells[i].as_str(), column_widths[i]);
        proof {
            let t = spec_texts(cells@).take(i as int + 1);
            assert(t.drop_last() =~= spec_texts(cells@).take(i as int));
            assert(t.last() == cells@[i as int]@);
            assert(line@ =~= seq!['|'] + spec_row_inner(t, column_widths@));
        }
        i = i + 1;
    }
    assert(spec_texts(cells@).take(n as int) =~= spec_texts(cells@));
    push_char(&mut line, '|');
    line
}

/// The UTF-8 encoding of a text has at least one byte per character.
proof fn lemma_encoding_covers_chars(chars: Seq<char>)
    ensures
        vstd::utf8::encode_utf8(chars).len() >= chars.len(),
    decreases chars.len(),
{
    if chars.len() > 0 {
        lemma_encoding_covers_chars(chars.drop_first());
        assert(vstd::utf8::encode_scalar(chars[0] as u32).len() >= 1);
    }
}

/// A column is at least as wide as its header and as each of its first
/// `n` cells.
proof fn lemma_width_covers(headers: Seq<Seq<char>>, rows: Seq<Seq<Seq<char>>>, n: int, c: int)
    requires
        0 <= n <= rows.len(),
    ensures
        spec_width(headers, rows, n, c) >= spec_byte_len(headers[c]),
        forall|r: int| 0 <= r < n ==> spec_width(headers, rows, n, c) >= spec_byte_len(#[trigger] rows[r][c]),
        spec_width(headers, rows, n, c) <= usize::MAX,
    decreases n,
{
    if n > 0 {
        lemma_width_covers(headers, rows, n - 1, c);
    }
}

/// A padded cell no wider than its column takes the column width plus
/// the two framing blanks.
proof fn lemma_padded_cell_len(cell: Seq<char>, width: usize)
    requires
        cell.len() <= width,
    ensures
        spec_padded_cell(cell, width).len() == width + 2,
{
}

/// Cells no wider than their columns fill exactly the separator segments
/// of the first `cells.len()` columns.
proof fn lemma_row_inner_len(cells: Seq<Seq<char>>, widths: Seq<usize>)
    requires
        cells.len() <= widths.len(),
        forall|i: int| 0 <= i < cells.len() ==> (#[trigger] cells[i]).len() <= widths[i],
    ensures
        spec_row_inner(cells, widths).len() == spec_separator_inner(widths.take(cells.len() as int)).len(),
    decreases cells.len(),
{
    let k = cells.len() as int;
    if k > 0 {
        let taken = widths.take(k);
        lemma_padded_cell_len(cells[k - 1], widths[k - 1]);
        if k > 1 {
            lemma_row_inner_len(cells.drop_last(), widths);
            assert(taken.drop_last() =~= widths.take(k - 1));
            assert(cells.drop_last().len() == k - 1);
        } else {
            assert(cells.last() == cells[0]);
        }
    }
}

/// Alignment of a rendered table: the header line and every row line are
/// exactly as long as the separator, since each column is as wide as its
/// widest entry (texts whose UTF-8 encoding fits in a `usize`).
pub proof fn lemma_table_lines_aligned(headers: Seq<Seq<char>>, rows: Seq<Seq<Seq<char>>>)
    requires
        forall|r: int| 0 <= r < rows.len() ==> (#[trigger] rows[r]).len() == headers.len(),
        forall|c: int| 0 <= c < headers.len() ==> vstd::utf8::encode_utf8(#[trigger] headers[c]).len() <= usize::MAX,
        forall|r: int, c: int|
            0 <= r < rows.len() && 0 <= c < headers.len() ==> vstd::utf8::encode_utf8(#[trigger] rows[r][c]).len()
                <= usize::MAX,
    ensures
        spec_row(headers, spec_column_widths(headers, rows)).len() == spec_separator(
            spec_column_widths(headers, rows),
        ).len(),
        forall|r: int|
            0 <= r < rows.len() ==> spec_row(#[trigger] rows[r], spec_column_widths(headers, rows)).len()
                == spec_separator(spec_column_widths(headers, rows)).len(),
{
    let widths = spec_column_widths(headers, rows);
    let n = rows.len() as int;
    assert forall|c: int| 0 <= c < headers.len() implies (#[trigger] headers[c]).len() <= widths[c] && forall|
        r: int,
    | 0 <= r < n ==> (#[trigger] rows[r][c]).len() <= widths[c] by {
        lemma_width_covers(headers, rows, n, c);
        lemma_encoding_covers_chars(headers[c]);
        assert forall|r: int| 0 <= r < n implies (#[trigger] rows[r][c]).len() <= widths[c] by {
            lemma_encoding_covers_chars(rows[r][c]);
        }
    }
    assert(widths.take(headers.len() as int) =~= widths);
    lemma_row_inner_len(headers, widths);
    assert forall|r: int| 0 <= r < n implies spec_row(#[trigger] rows[r], widths).len() == spec_separator(
        widths,
    ).len() by {
        assert forall|c: int| 0 <= c < rows[r].len() implies (#[trigger] rows[r][c]).len() <= widths[c] by {
            assert(headers[c].len() <= widths[c]);
        }
        lemma_row_inner_len(rows[r], widths);
    }
}

} // verus!
