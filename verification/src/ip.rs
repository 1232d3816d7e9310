//! Reading the public address of the host out of a trace page.
//!
//! A trace page is text of `key=value` lines; the address is on the line
//! that starts with `ip=`.

use crate::text::{chars_of, find_char, first_index_of, span_is};
use vstd::prelude::*;
use vstd::string::{StrSliceExecFns, StringExecFns};

verus! {

/// The first line of a text that is not empty: what stands before the first
/// line feed, without a carriage return that ends it there.
pub open spec fn first_line(text: Seq<char>) -> Seq<char> {
    let end = first_index_of(text, '\n') as int;
    if 0 < end < text.len() && text[end - 1] == '\r' {
        text.take(end - 1)
    } else {
        text.take(end)
    }
}

/// `s` begins with `word`.
pub open spec fn starts_with(s: Seq<char>, word: Seq<char>) -> bool {
    word.len() <= s.len() && s.take(word.len() as int) == word
}

/// `s` without the occurrences of `word`, found from the left, none
/// overlapping another.
pub open spec fn without(s: Seq<char>, word: Seq<char>) -> Seq<char>
    decreases s.len(),
{
    if word.len() == 0 || s.len() < word.len() {
        s
    } else if starts_with(s, word) {
        without(s.skip(word.len() as int), word)
    } else {
        seq![s[0]] + without(s.skip(1), word)
    }
}

/// The address that a trace page gives: the first line that starts with
/// `ip=`, without any `ip=` in it.
pub open spec fn cloudflare_ip(body: Seq<char>) -> Option<Seq<char>>
    decreases body.len(),
{
    let end = first_index_of(body, '\n') as int;
    if body.len() == 0 {
        None
    } else if starts_with(first_line(body), "ip="@) {
        Some(without(first_line(body), "ip="@))
    } else if end >= body.len() {
        None
    } else {
        cloudflare_ip(body.skip(end + 1))
    }
}

/// The characters in `start..end` without any `ip=`.
fn span_without_marker(body: &str, chars: &Vec<char>, start: usize, end: usize) -> (r: String)
    requires
        chars@ == body@,
        start <= end <= chars.len(),
    ensures
        r@ == without(chars@.subrange(start as int, end as int), "ip="@),
{
    proof {
        reveal_strlit("ip=");
    }
    let ghost line = chars@.subrange(start as int, end as int);
    let ghost marker = "ip="@;
    let mut out = String::new();
    let mut kept_from: usize = start;
    let mut i: usize = start;
    assert(chars@.subrange(start as int, start as int) =~= Seq::<char>::empty());
    assert(out@ + chars@.subrange(kept_from as int, i as int) + without(
        chars@.subrange(i as int, end as int),
        marker,
    ) =~= without(line, marker));
    while end - i >= 3
        invariant
            start <= kept_from <= i <= end <= chars.len(),
            chars@ == body@,
            marker == "ip="@,
            marker.len() == 3,
            line == chars@.subrange(start as int, end as int),
            without(line, marker) == out@ + chars@.subrange(kept_from as int, i as int) + without(
                chars@.subrange(i as int, end as int),
                marker,
            ),
        decreases end - i,
    {
        let ghost rest = chars@.subrange(i as int, end as int);
        proof {
            assert(rest.take(3) == chars@.subrange(i as int, i + 3));
        }
        if span_is(chars, i, i + 3, "ip=") {
            proof {
                assert(rest.skip(3) == chars@.subrange(i + 3, end as int));
                assert(chars@.subrange(i + 3, i + 3) =~= Seq::<char>::empty());
            }
            let ghost before = out@;
            let ghost piece = chars@.subrange(kept_from as int, i as int);
            out.append(body.substring_char(kept_from, i));
            i = i + 3;
            kept_from = i;
            assert(out@ + chars@.subrange(kept_from as int, i as int) =~= before + piece);
        } else {
            proof {
                assert(rest.skip(1) == chars@.subrange(i + 1, end as int));
                assert(chars@.subrange(kept_from as int, i as int) + seq![rest[0]]
                    =~= chars@.subrange(kept_from as int, i + 1));
                assert(out@ + chars@.subrange(kept_from as int, i as int) + (seq![rest[0]]
                    + without(rest.skip(1), marker)) =~= out@ + chars@.subrange(
                    kept_from as int,
                    i + 1,
                ) + without(rest.skip(1), marker));
            }
            i = i + 1;
        }
    }
    proof {
        assert(chars@.subrange(kept_from as int, i as int) + chars@.subrange(i as int, end as int)
            =~= chars@.subrange(kept_from as int, end as int));
        assert(out@ + chars@.subrange(kept_from as int, i as int) + chars@.subrange(
            i as int,
            end as int,
        ) =~= out@ + chars@.subrange(kept_from as int, end as int));
    }
    out.append(body.substring_char(kept_from, end));
    out
}

/// Reads the address from a trace page.
pub fn extract_cloudflare_ip(body: &str) -> (r: Option<String>)
    ensures
        match r {
            Some(ip) => cloudflare_ip(body@) == Some(ip@),
            None => cloudflare_ip(body@) is None,
        },
{
    let chars = chars_of(body);
    let len = chars.len();
    let mut start: usize = 0;
    assert(body@.skip(0) == body@);
    while start < len
        invariant
            chars@ == body@,
            len == chars.len(),
            start <= len,
            cloudflare_ip(body@) == cloudflare_ip(body@.skip(start as int)),
        decreases len - start,
    {
        let end = find_char(&chars, start, len, '\n');
        let line_end = if start < end && end < len && chars[end - 1] == '\r' {
            end - 1
        } else {
            end
        };
        proof {
            let rest = body@.skip(start as int);
            assert(rest == chars@.subrange(start as int, len as int));
            assert(first_line(rest) =~= chars@.subrange(start as int, line_end as int));
            if line_end - start >= 3 {
                assert(chars@.subrange(start as int, line_end as int).take(3) == chars@.subrange(
                    start as int,
                    start + 3,
                ));
            }
            if end < len {
                assert(rest.skip(end - start + 1) == body@.skip(end + 1));
            }
            reveal_strlit("ip=");
        }
        if line_end - start >= 3 && span_is(&chars, start, start + 3, "ip=") {
            return Some(span_without_marker(body, &chars, start, line_end));
        }
        if end == len {
            return None;
        }
        start = end + 1;
    }
    None
}

} // verus!
