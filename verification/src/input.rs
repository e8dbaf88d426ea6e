//! Reading a column choice: from a line of text to a column of the grid.

use vstd::prelude::*;

verus! {

/// What a line of input means as a choice of column.
#[derive(Debug, Clone, Copy, PartialEq, Eq, Structural)]
pub enum ColumnInput {
    /// The line names this column, by index from 0, and the column is open.
    Chosen(usize),
    /// The line is a number, but names no column that is open.
    Unavailable,
    /// The line is no number.
    NotANumber,
}

/// What `str::trim` returns for a text: the text without the whitespace at
/// its two ends.
pub uninterp spec fn trimmed(text: Seq<char>) -> Seq<char>;

/// Whether `c` is one of the ten decimal digits.
pub open spec fn is_digit(c: char) -> bool {
    '0' <= c <= '9'
}

/// Whether `text` holds decimal digits only.
pub open spec fn all_digits(text: Seq<char>) -> bool {
    forall|i: int| 0 <= i < text.len() ==> is_digit(#[trigger] text[i])
}

/// The text without a `+` at its start.
pub open spec fn without_sign(text: Seq<char>) -> Seq<char> {
    if text.len() > 0 && text[0] == '+' {
        text.skip(1)
    } else {
        text
    }
}

/// The number that a sequence of decimal digits writes.
pub open spec fn decimal_value(digits: Seq<char>) -> int
    decreases digits.len(),
{
    if digits.len() == 0 {
        0
    } else {
        10 * decimal_value(digits.drop_last()) + (digits.last() as int - '0' as int)
    }
}

/// The number that a text writes: an optional `+`, then one decimal digit or
/// more, and nothing else. A text of another form, or one whose number does
/// not fit a `usize`, writes none.
pub open spec fn parsed_number(text: Seq<char>) -> Option<usize> {
    let digits = without_sign(text);
    if digits.len() > 0 && all_digits(digits) && decimal_value(digits) <= usize::MAX {
        Some(decimal_value(digits) as usize)
    } else {
        None
    }
}

/// The choice that a number makes among the open columns `valid_cols`.
/// Players count columns from 1, the grid from 0.
pub open spec fn column_choice(number: Option<usize>, valid_cols: Seq<usize>) -> ColumnInput {
    match number {
        None => ColumnInput::NotANumber,
        Some(n) => if 1 <= n <= 3 && valid_cols.contains((n - 1) as usize) {
            ColumnInput::Chosen((n - 1) as usize)
        } else {
            ColumnInput::Unavailable
        },
    }
}

/// Strips the whitespace at both ends with `str::trim`. Trusted: the result
/// is what `trimmed` names.
#[verifier::external_body]
fn trim(text: &str) -> (inner: &str)
    ensures
        inner@ == trimmed(text@),
{
    text.trim()
}

/// Reads a number with `str::parse`. Trusted: the result is the number that
/// the text writes in decimal digits after an optional `+`, and none for any
/// other text or where the number does not fit.
#[verifier::external_body]
fn parse_number(text: &str) -> (number: Option<usize>)
    ensures
        number == parsed_number(text@),
{
    text.parse::<usize>().ok()
}

/// The choice that a number, if the input was one, makes among the open
/// columns.
pub fn choose_column(number: Option<usize>, valid_cols: &[usize]) -> (choice: ColumnInput)
    ensures
        choice == column_choice(number, valid_cols@),
{
    match number {
        None => ColumnInput::NotANumber,
        Some(n) => {
            if n < 1 || n > 3 {
                return ColumnInput::Unavailable;
            }
            let norm_number: usize = n - 1;
            let mut i: usize = 0;
            while i < valid_cols.len()
                invariant
                    i <= valid_cols.len(),
                    number == Some(n),
                    1 <= n <= 3,
                    norm_number == n - 1,
                    forall|k: int| 0 <= k < i ==> valid_cols[k] != norm_number,
                decreases valid_cols.len() - i,
            {
                if valid_cols[i] == norm_number {
                    assert(valid_cols@[i as int] == norm_number);
                    return ColumnInput::Chosen(norm_number);
                }
                i = i + 1;
            }
            ColumnInput::Unavailable
        },
    }
}

/// What one line of input means: the line is trimmed and read as a number
/// from 1 to 3, which must name one of the open columns `valid_cols`.
pub fn handle_column_input(buffer: &str, valid_cols: &[usize]) -> (choice: ColumnInput)
    ensures
        choice == column_choice(parsed_number(trimmed(buffer@)), valid_cols@),
{
    let number = parse_number(trim(buffer));
    choose_column(number, valid_cols)
}

} // verus!
