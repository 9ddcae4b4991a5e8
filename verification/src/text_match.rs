//! Character-level helpers on strings: splitting into characters, substring
//! search, Unicode white space, lower-casing.

use vstd::prelude::*;

verus! {

broadcast use vstd::string::group_string_axioms;

/// The characters of `s`, in order.
pub fn chars_of(s: &str) -> (chars: Vec<char>)
    ensures
        chars@ == s@,
{
    let mut chars: Vec<char> = Vec::new();
    for c in it: s.chars()
        invariant
            chars@ == it.seq().take(it.index() as int),
    {
        chars.push(c);
    }
    chars
}

/// `pattern` occurs in `text` starting at position `i`.
pub open spec fn occurs_at(text: Seq<char>, pattern: Seq<char>, i: int) -> bool {
    &&& 0 <= i
    &&& i + pattern.len() <= text.len()
    &&& text.subrange(i, i + pattern.len()) == pattern
}

/// `pattern` occurs somewhere in `text` (the empty pattern occurs everywhere).
pub open spec fn contains_seq(text: Seq<char>, pattern: Seq<char>) -> bool {
    exists|i: int| occurs_at(text, pattern, i)
}

/// Whether `pattern` occurs in `text` starting at `start`, compared
/// character by character.
fn occurs_at_exec(text: &Vec<char>, pattern: &Vec<char>, start: usize) -> (found: bool)
    requires
        start + pattern@.len() <= text@.len(),
    ensures
        found == occurs_at(text@, pattern@, start as int),
{
    let n = text.len();
    let mut j: usize = 0;
    while j < pattern.len()
        invariant
            n == text@.len(),
            start + pattern@.len() <= text@.len(),
            j <= pattern@.len(),
            forall|k: int| 0 <= k < j ==> text@[start + k] == pattern@[k],
        decreases pattern@.len() - j,
    {
        if text[start + j] != pattern[j] {
            assert(text@.subrange(start as int, start + pattern@.len())[j as int] != pattern@[j as int]);
            return false;
        }
        j += 1;
    }
    assert(text@.subrange(start as int, start + pattern@.len()) =~= pattern@);
    true
}

/// Whether `pattern` occurs in `text` as a run of consecutive characters,
/// as `str::contains` with a string pattern answers it.
pub fn str_contains(text: &str, pattern: &str) -> (found: bool)
    ensures
        found == contains_seq(text@, pattern@),
{
    let text_chars = chars_of(text);
    let pattern_chars = chars_of(pattern);
    let n = text_chars.len();
    let m = pattern_chars.len();
    if m > n {
        assert forall|i: int| !occurs_at(text@, pattern@, i) by {}
        return false;
    }
    if m == 0 {
        assert(text@.subrange(0, 0) =~= pattern@);
        assert(occurs_at(text@, pattern@, 0));
        return true;
    }
    let mut start: usize = 0;
    while start <= n - m
        invariant
            text_chars@ == text@,
            pattern_chars@ == pattern@,
            n == text@.len(),
            m == pattern@.len(),
            1 <= m <= n,
            n == text_chars@.len(),
            start <= n - m + 1,
            forall|i: int| 0 <= i < start ==> !occurs_at(text@, pattern@, i),
        decreases n - m + 1 - start,
    {
        if occurs_at_exec(&text_chars, &pattern_chars, start) {
            return true;
        }
        start += 1;
    }
    assert forall|i: int| !occurs_at(text@, pattern@, i) by {}
    false
}

/// A match at one position survives appending characters.
pub proof fn lemma_contains_extend(text: Seq<char>, more: Seq<char>, pattern: Seq<char>)
    requires
        contains_seq(text, pattern),
    ensures
        contains_seq(text + more, pattern),
{
    let i = choose|i: int| occurs_at(text, pattern, i);
    assert((text + more).subrange(i, i + pattern.len()) =~= text.subrange(i, i + pattern.len()));
    assert(occurs_at(text + more, pattern, i));
}

/// Unicode `White_Space`, the property that `char::is_whitespace` tests:
/// U+0009..U+000D, U+0020, U+0085, U+00A0, U+1680, U+2000..U+200A,
/// U+2028, U+2029, U+202F, U+205F and U+3000.
pub open spec fn is_white_space(c: char) -> bool {
    let u = c as u32;
    ||| 0x9 <= u <= 0xD
    ||| u == 0x20
    ||| u == 0x85
    ||| u == 0xA0
    ||| u == 0x1680
    ||| 0x2000 <= u <= 0x200A
    ||| u == 0x2028
    ||| u == 0x2029
    ||| u == 0x202F
    ||| u == 0x205F
    ||| u == 0x3000
}

/// Whether `c` is Unicode white space.
pub fn is_white_space_char(c: char) -> (white: bool)
    ensures
        white == is_white_space(c),
{
    let u = c as u32;
    (0x9 <= u && u <= 0xD) || u == 0x20 || u == 0x85 || u == 0xA0 || u == 0x1680 || (0x2000 <= u
        && u <= 0x200A) || u == 0x2028 || u == 0x2029 || u == 0x202F || u == 0x205F || u == 0x3000
}

/// Not white space.
pub open spec fn is_visible(c: char) -> bool {
    !is_white_space(c)
}

/// Appends one character: std's `String::push`.
#[verifier::external_body]
fn push_char(s: &mut String, c: char)
    ensures
        final(s)@ == old(s)@.push(c),
{
    s.push(c);
}

/// `s` with every white-space character taken out, the others kept in order.
pub fn remove_white_space(s: &str) -> (r: String)
    ensures
        r@ == s@.filter(|c: char| is_visible(c)),
{
    let chars = chars_of(s);
    let mut r = String::new();
    let mut i: usize = 0;
    while i < chars.len()
        invariant
            chars@ == s@,
            i <= chars@.len(),
            r@ == s@.take(i as int).filter(|c: char| is_visible(c)),
        decreases chars@.len() - i,
    {
        let c = chars[i];
        proof {
            assert(s@.take(i + 1) == s@.take(i as int).push(c));
            s@.take(i as int).lemma_filter_push(c, |c: char| is_visible(c));
        }
        if !is_white_space_char(c) {
            push_char(&mut r, c);
        }
        i += 1;
    }
    assert(s@.take(chars@.len() as int) == s@);
    r
}

/// What std's `str::to_lowercase` makes of a string: the full Unicode
/// lower-case mapping of each character, which depends on the string alone.
pub uninterp spec fn lowercase(s: Seq<char>) -> Seq<char>;

/// std's `str::to_lowercase`; its result is named `lowercase`.
#[verifier::external_body]
pub(crate) fn to_lowercase(s: &str) -> (r: String)
    ensures
        r@ == lowercase(s@),
{
    s.to_lowercase()
}

} // verus!
