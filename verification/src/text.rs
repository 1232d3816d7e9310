//! Text as sequences of characters: trimming, searching and comparing.
//!
//! The executable functions work on a `Vec<char>` and a pair of positions;
//! their contracts speak of the `Seq<char>` between the two positions.

use vstd::prelude::*;

verus! {

/// Whether `c` is white space: the characters that `str::trim` removes.
pub open spec fn is_space(c: char) -> bool {
    let n = c as u32;
    ||| 0x09 <= n <= 0x0D
    ||| n == 0x20
    ||| n == 0x85
    ||| n == 0xA0
    ||| n == 0x1680
    ||| 0x2000 <= n <= 0x200A
    ||| n == 0x2028
    ||| n == 0x2029
    ||| n == 0x202F
    ||| n == 0x205F
    ||| n == 0x3000
}

/// `s` without its leading white space.
pub open spec fn trim_start(s: Seq<char>) -> Seq<char>
    decreases s.len(),
{
    if s.len() > 0 && is_space(s[0]) {
        trim_start(s.skip(1))
    } else {
        s
    }
}

/// `s` without its trailing white space.
pub open spec fn trim_end(s: Seq<char>) -> Seq<char>
    decreases s.len(),
{
    if s.len() > 0 && is_space(s.last()) {
        trim_end(s.drop_last())
    } else {
        s
    }
}

/// `s` without white space at either end.
pub open spec fn trim(s: Seq<char>) -> Seq<char> {
    trim_end(trim_start(s))
}

/// `s` neither starts nor ends with white space.
pub open spec fn is_trimmed(s: Seq<char>) -> bool {
    s.len() > 0 ==> !is_space(s[0]) && !is_space(s.last())
}

/// Position of the first `c` in `s`, or `s.len()` where `s` holds none.
pub open spec fn first_index_of(s: Seq<char>, c: char) -> nat
    decreases s.len(),
{
    if s.len() == 0 || s[0] == c {
        0
    } else {
        1 + first_index_of(s.skip(1), c)
    }
}

/// `first_index_of` names the first occurrence and nothing before it.
pub proof fn lemma_first_index_of(s: Seq<char>, c: char)
    ensures
        first_index_of(s, c) <= s.len(),
        first_index_of(s, c) < s.len() ==> s[first_index_of(s, c) as int] == c,
        forall|i: int| 0 <= i < first_index_of(s, c) ==> s[i] != c,
    decreases s.len(),
{
    if s.len() == 0 || s[0] == c {
    } else {
        lemma_first_index_of(s.skip(1), c);
        let k = first_index_of(s.skip(1), c);
        assert forall|i: int| 0 <= i < 1 + k implies s[i] != c by {
            if i > 0 {
                assert(s.skip(1)[i - 1] == s[i]);
            }
        }
    }
}

/// A position that holds `c` with no `c` before it is the first index of `c`.
pub proof fn lemma_first_index_is(s: Seq<char>, c: char, k: int)
    requires
        0 <= k <= s.len(),
        k < s.len() ==> s[k] == c,
        forall|i: int| 0 <= i < k ==> s[i] != c,
    ensures
        first_index_of(s, c) == k,
{
    lemma_first_index_of(s, c);
}

/// The code of `c`, or of its lower-case form where `c` is an ASCII capital.
pub open spec fn lower_code(c: char) -> int {
    if 0x41 <= c as u32 <= 0x5A {
        c as u32 + 0x20
    } else {
        c as u32 as int
    }
}

/// `s` is `word`, with ASCII capitals allowed in place of small letters.
pub open spec fn spells(s: Seq<char>, word: Seq<char>) -> bool {
    &&& s.len() == word.len()
    &&& forall|i: int| 0 <= i < s.len() ==> lower_code(#[trigger] s[i]) == word[i] as u32
}

/// `word` occurs somewhere in `s`.
pub open spec fn has_infix(s: Seq<char>, word: Seq<char>) -> bool {
    exists|i: int|
        0 <= i && i + word.len() <= s.len() && #[trigger] s.subrange(i, i + word.len()) == word
}

/// A trimmed sequence is left alone by `trim`.
pub proof fn lemma_trim_of_trimmed(s: Seq<char>)
    requires
        is_trimmed(s),
    ensures
        trim(s) == s,
{
}

/// Whether `c` is white space.
pub fn is_whitespace(c: char) -> (r: bool)
    ensures
        r == is_space(c),
{
    let n: u32 = c as u32;
    (0x09 <= n && n <= 0x0D) || n == 0x20 || n == 0x85 || n == 0xA0 || n == 0x1680 || (0x2000 <= n
        && n <= 0x200A) || n == 0x2028 || n == 0x2029 || n == 0x202F || n == 0x205F || n == 0x3000
}

/// The characters of `s`, in order.
pub fn chars_of(s: &str) -> (v: Vec<char>)
    ensures
        v@ == s@,
{
    let mut v: Vec<char> = Vec::new();
    let chars = s.chars();
    proof {
        vstd::string::axiom_spec_iter(s);
    }
    for c in it: chars
        invariant
            it.seq() == s@,
            v@ == it.seq().take(it.index()),
    {
        v.push(c);
    }
    v
}

/// Narrows `start..end` to the part that `trim` keeps.
pub fn trim_span(chars: &Vec<char>, start: usize, end: usize) -> (r: (usize, usize))
    requires
        start <= end <= chars.len(),
    ensures
        start <= r.0 <= r.1 <= end,
        chars@.subrange(r.0 as int, r.1 as int) == trim(chars@.subrange(start as int, end as int)),
{
    let mut a: usize = start;
    while a < end && is_whitespace(chars[a])
        invariant
            start <= a <= end <= chars.len(),
            trim_start(chars@.subrange(start as int, end as int)) == trim_start(
                chars@.subrange(a as int, end as int),
            ),
        decreases end - a,
    {
        assert(chars@.subrange(a as int, end as int).skip(1) == chars@.subrange(
            a + 1,
            end as int,
        ));
        a = a + 1;
    }
    let mut b: usize = end;
    while a < b && is_whitespace(chars[b - 1])
        invariant
            a <= b <= end <= chars.len(),
            trim_end(chars@.subrange(a as int, end as int)) == trim_end(
                chars@.subrange(a as int, b as int),
            ),
        decreases b - a,
    {
        assert(chars@.subrange(a as int, b as int).drop_last() == chars@.subrange(
            a as int,
            b - 1,
        ));
        b = b - 1;
    }
    (a, b)
}

/// Finds the first `c` in `start..end`; returns `end` where there is none.
pub fn find_char(chars: &Vec<char>, start: usize, end: usize, c: char) -> (r: usize)
    requires
        start <= end <= chars.len(),
    ensures
        start <= r <= end,
        r - start == first_index_of(chars@.subrange(start as int, end as int), c),
{
    let mut i: usize = start;
    while i < end && chars[i] != c
        invariant
            start <= i <= end <= chars.len(),
            forall|j: int| start <= j < i ==> chars@[j] != c,
        decreases end - i,
    {
        i = i + 1;
    }
    proof {
        lemma_first_index_is(chars@.subrange(start as int, end as int), c, i - start);
    }
    i
}

/// Whether the characters in `start..end` spell `word`.
pub fn span_is(chars: &Vec<char>, start: usize, end: usize, word: &str) -> (r: bool)
    requires
        start <= end <= chars.len(),
    ensures
        r == (chars@.subrange(start as int, end as int) == word@),
{
    let n = word.unicode_len();
    if end - start != n {
        return false;
    }
    let mut i: usize = 0;
    while i < n
        invariant
            start <= end <= chars.len(),
            end - start == n,
            n == word@.len(),
            i <= n,
            forall|j: int| 0 <= j < i ==> chars@[start + j] == word@[j],
        decreases n - i,
    {
        if chars[start + i] != word.get_char(i) {
            assert(chars@.subrange(start as int, end as int)[i as int] != word@[i as int]);
            return false;
        }
        i = i + 1;
    }
    assert(chars@.subrange(start as int, end as int) =~= word@);
    true
}

/// Whether `chars` spell `word`, with ASCII capitals allowed in place of
/// small letters.
pub fn spells_word(chars: &Vec<char>, word: &str) -> (r: bool)
    ensures
        r == spells(chars@, word@),
{
    let n = word.unicode_len();
    if chars.len() != n {
        return false;
    }
    let mut i: usize = 0;
    while i < n
        invariant
            chars.len() == n,
            n == word@.len(),
            i <= n,
            forall|j: int| 0 <= j < i ==> lower_code(#[trigger] chars@[j]) == word@[j] as u32,
        decreases n - i,
    {
        let code: u32 = chars[i] as u32;
        let lowered: u32 = if 0x41 <= code && code <= 0x5A {
            code + 0x20
        } else {
            code
        };
        if lowered != word.get_char(i) as u32 {
            assert(lower_code(chars@[i as int]) != word@[i as int] as u32);
            return false;
        }
        i = i + 1;
    }
    true
}

/// Whether `word` occurs in `chars`.
pub fn contains_word(chars: &Vec<char>, word: &str) -> (r: bool)
    ensures
        r == has_infix(chars@, word@),
{
    let n = word.unicode_len();
    if n == 0 {
        assert(chars@.subrange(0int, 0int + word@.len()) =~= word@);
        return true;
    }
    if n > chars.len() {
        return false;
    }
    let last = chars.len() - n;
    let mut i: usize = 0;
    while i <= last
        invariant
            n == word@.len(),
            n > 0,
            last == chars.len() - n,
            i <= last + 1,
            forall|j: int| 0 <= j < i ==> #[trigger] chars@.subrange(j, j + n) != word@,
        decreases last + 1 - i,
    {
        if span_is(chars, i, i + n, word) {
            return true;
        }
        i = i + 1;
    }
    false
}

/// Whether `chars` spell `word` exactly.
pub fn text_is(chars: &Vec<char>, word: &str) -> (r: bool)
    ensures
        r == (chars@ == word@),
{
    assert(chars@.subrange(0, chars.len() as int) == chars@);
    span_is(chars, 0, chars.len(), word)
}

} // verus!
