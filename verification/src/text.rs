//! The rule for human-readable manifest text: names, descriptions, authors, licenses
//! and triggers.

use vstd::prelude::*;
use crate::error::{ManifestError, invalid, outcome_matches};
use crate::unicode::{decimal, push_decimal, is_trimmed, has_control_char, white_space, control};

verus! {

/// Text between `min` and `max` characters long, without surrounding whitespace and
/// without control characters.
pub open spec fn text_ok(s: Seq<char>, min: nat, max: nat) -> bool {
    &&& min <= s.len() <= max
    &&& is_trimmed(s)
    &&& !has_control_char(s)
}

/// The refusal text for a field that breaks the text rule.
pub open spec fn text_error(field: Seq<char>, min: nat, max: nat) -> Seq<char> {
    field + " must be trimmed printable text between "@ + decimal(min) + " and "@ + decimal(max)
        + " characters"@
}

/// The outcome of the text rule for `value` in the field named `field`.
pub open spec fn text_check(field: Seq<char>, value: Seq<char>, min: nat, max: nat) -> Result<(), Seq<char>> {
    if text_ok(value, min, max) {
        Ok(())
    } else {
        Err(text_error(field, min, max))
    }
}

fn text_error_message(field: &str, min: usize, max: usize) -> (res: String)
    ensures
        res@ == text_error(field@, min as nat, max as nat),
{
    let mut out = String::from_str(field);
    out.append(" must be trimmed printable text between ");
    push_decimal(&mut out, min as u64);
    out.append(" and ");
    push_decimal(&mut out, max as u64);
    out.append(" characters");
    out
}

fn has_control(value: &str) -> (res: bool)
    ensures
        res == has_control_char(value@),
{
    let mut found = false;
    for c in it: value.chars()
        invariant
            found == exists|i: int| 0 <= i < it.index() && crate::unicode::is_control_char(#[trigger] it.seq()[i]),
    {
        if control(c) {
            found = true;
        }
    }
    found
}

/// Checks that `value`, the content of the field `field`, is trimmed printable text of
/// `min` to `max` characters.
pub fn validate_text(field: &str, value: &str, min: usize, max: usize) -> (res: Result<(), ManifestError>)
    ensures
        outcome_matches(res, text_check(field@, value@, min as nat, max as nat)),
{
    let length = value.unicode_len();
    let mut trimmed = true;
    if length > 0 {
        let first = value.get_char(0);
        let last = value.get_char(length - 1);
        trimmed = !white_space(first) && !white_space(last);
    }
    if length < min || length > max || !trimmed || has_control(value) {
        return invalid(text_error_message(field, min, max));
    }
    Ok(())
}

} // verus!
