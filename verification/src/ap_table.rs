//! The access-point table: its rows, how cell text is shortened to fit, and
//! how a list selection maps to and from the list control's index.

use vstd::prelude::*;

verus! {

/// The texts of one row of the access-point table.
#[derive(Debug, Clone)]
pub struct ApTableRow {
    pub signal: String,
    pub channel: String,
    pub rate: String,
    pub mode: String,
    pub ssid: String,
    pub bssid: String,
}

/// How the text of a column is aligned.
#[derive(Debug, Clone, Copy, PartialEq, Eq, Structural)]
pub enum ColumnAlign {
    Left,
    Right,
}

/// The text shortened to at most `max_chars` characters: kept whole when it
/// fits (or when fewer than two characters are allowed), otherwise its first
/// `max_chars - 1` characters followed by an ellipsis.
pub open spec fn truncated(input: Seq<char>, max_chars: usize) -> Seq<char> {
    if max_chars < 2 || input.len() <= max_chars {
        input
    } else {
        input.take(max_chars - 1) + seq!['…']
    }
}

/// Shortens `input` to at most `max_chars` characters (see `truncated`).
pub fn truncate_chars(input: &str, max_chars: usize) -> (r: String)
    ensures
        r@ == truncated(input@, max_chars),
{
    let n = input.unicode_len();
    if max_chars < 2 || n <= max_chars {
        return String::from_str(input);
    }
    let kept = input.substring_char(0, max_chars - 1);
    let mut out = String::from_str(kept);
    proof {
        reveal_strlit("…");
    }
    out.append("…");
    assert(out@ =~= truncated(input@, max_chars));
    out
}

/// The numeric columns (signal, channel, rate: the first three) are aligned
/// right, the text columns left.
pub fn column_alignment(column: usize) -> (a: ColumnAlign)
    ensures
        a == (if column <= 2 {
            ColumnAlign::Right
        } else {
            ColumnAlign::Left
        }),
{
    if column <= 2 {
        ColumnAlign::Right
    } else {
        ColumnAlign::Left
    }
}

/// The selection for a list control's selected index: none for a negative
/// index.
pub open spec fn selection_of(index: i32) -> Option<usize> {
    if index < 0 {
        None
    } else {
        Some(index as usize)
    }
}

/// The list control's selected index for a selection: -1 for none, the row
/// as an `i32` (wrapping as `as` does) otherwise.
pub open spec fn index_of(selection: Option<usize>) -> i32 {
    match selection {
        Some(v) => v as i32,
        None => -1i32,
    }
}

/// The selection of a list control from its selected index.
pub fn selection_from_index(index: i32) -> (r: Option<usize>)
    ensures
        r == selection_of(index),
{
    if index < 0 {
        None
    } else {
        Some(index as usize)
    }
}

/// The selected index to give a list control for a selection.
pub fn index_from_selection(selection: Option<usize>) -> (r: i32)
    ensures
        r == index_of(selection),
{
    match selection {
        Some(v) => v as i32,
        None => -1,
    }
}

/// Giving a list control a selection and reading it back yields the same
/// selection, for every row an `i32` can number; every index the control
/// reports is given back unchanged.
pub proof fn lemma_selection_round_trip(selection: Option<usize>, index: i32)
    ensures
        selection matches Some(v) && v <= i32::MAX ==> selection_of(index_of(selection))
            == selection,
        selection is None ==> selection_of(index_of(selection)) is None,
        index >= -1 ==> index_of(selection_of(index)) == index,
{
}

/// A shortened text has at most the allowed number of characters (when at
/// least two are allowed), and starts like the original.
pub proof fn lemma_truncated(input: Seq<char>, max_chars: usize)
    ensures
        max_chars >= 2 ==> truncated(input, max_chars).len() <= max_chars,
        truncated(input, max_chars).len() <= input.len(),
        forall|i: int|
            0 <= i < truncated(input, max_chars).len() - 1 ==> #[trigger] truncated(
                input,
                max_chars,
            )[i] == input[i],
        truncated(input, max_chars) == input || truncated(input, max_chars).last() == '…',
{
}

} // verus!
