//! Totals kept by an older text form.
//!
//! The older form kept the totals under the keys `source_tx` and
//! `source_rx`. They are read so that a state file written in that form
//! does not lose them.

use crate::decimal::{parse_unsigned, parse_unsigned_span};
use crate::text::{chars_of, find_char, first_index_of, span_is, trim, trim_span};
use vstd::prelude::*;

verus! {

/// The 64-bit total that `s` denotes.
pub open spec fn parse_total(s: Seq<char>) -> Option<u64> {
    match parse_unsigned(s, u64::MAX as int) {
        Some(n) => Some(n as u64),
        None => None,
    }
}

/// The totals after one more line. A line without `=` and a line with
/// another key change nothing; a line of `source_tx` or `source_rx` sets
/// that total to its value, or to none where the value is no number.
pub open spec fn legacy_line(totals: (Option<u64>, Option<u64>), line: Seq<char>) -> (
    Option<u64>,
    Option<u64>,
) {
    let equals = first_index_of(line, '=') as int;
    let key = trim(line.take(equals));
    let value = trim(line.skip(equals + 1));
    if equals == line.len() {
        totals
    } else if key == "source_tx"@ {
        (parse_total(value), totals.1)
    } else if key == "source_rx"@ {
        (totals.0, parse_total(value))
    } else {
        totals
    }
}

/// The totals after all lines of `text`.
pub open spec fn legacy_lines(totals: (Option<u64>, Option<u64>), text: Seq<char>) -> (
    Option<u64>,
    Option<u64>,
)
    decreases text.len(),
{
    let end = first_index_of(text, '\n') as int;
    let more = legacy_line(totals, text.take(end));
    if end >= text.len() {
        more
    } else {
        legacy_lines(more, text.skip(end + 1))
    }
}

/// The sent and received totals of a text in the older form: both are
/// needed, and of each the last line counts.
pub open spec fn legacy_totals(text: Seq<char>) -> Option<(u64, u64)> {
    match legacy_lines((None, None), text) {
        (Some(tx), Some(rx)) => Some((tx, rx)),
        _ => None,
    }
}

/// Takes in the line in `start..end`.
fn read_legacy_line(
    totals: (Option<u64>, Option<u64>),
    chars: &Vec<char>,
    start: usize,
    end: usize,
) -> (r: (Option<u64>, Option<u64>))
    requires
        start <= end <= chars.len(),
    ensures
        r == legacy_line(totals, chars@.subrange(start as int, end as int)),
{
    let equals = find_char(chars, start, end, '=');
    if equals == end {
        return totals;
    }
    proof {
        let line = chars@.subrange(start as int, end as int);
        assert(line.take(equals - start) == chars@.subrange(start as int, equals as int));
        assert(line.skip(equals - start + 1) == chars@.subrange(equals + 1, end as int));
    }
    let key = trim_span(chars, start, equals);
    let value = trim_span(chars, equals + 1, end);
    if span_is(chars, key.0, key.1, "source_tx") {
        (parse_unsigned_span(chars, value.0, value.1, u64::MAX), totals.1)
    } else if span_is(chars, key.0, key.1, "source_rx") {
        (totals.0, parse_unsigned_span(chars, value.0, value.1, u64::MAX))
    } else {
        totals
    }
}

/// Reads the sent and received totals from a text in the older form.
pub fn parse_old_format_for_migration(input: &str) -> (r: Option<(u64, u64)>)
    ensures
        r == legacy_totals(input@),
{
    let chars = chars_of(input);
    let len = chars.len();
    let mut totals: (Option<u64>, Option<u64>) = (None, None);
    let mut start: usize = 0;
    let mut done = false;
    assert(input@.skip(0) == input@);
    while !done
        invariant
            chars@ == input@,
            len == chars.len(),
            start <= len,
            !done ==> legacy_lines((None, None), input@) == legacy_lines(
                totals,
                input@.skip(start as int),
            ),
            done ==> legacy_lines((None, None), input@) == totals,
        decreases len - start + (if done { 0int } else { 1int }),
    {
        let end = find_char(&chars, start, len, '\n');
        proof {
            let rest = input@.skip(start as int);
            assert(rest == chars@.subrange(start as int, len as int));
            assert(rest.take(end - start) == chars@.subrange(start as int, end as int));
            if end < len {
                assert(rest.skip(end - start + 1) == input@.skip(end + 1));
            }
        }
        totals = read_legacy_line(totals, &chars, start, end);
        if end == len {
            done = true;
        } else {
            start = end + 1;
        }
    }
    match totals {
        (Some(tx), Some(rx)) => Some((tx, rx)),
        _ => None,
    }
}

} // verus!
