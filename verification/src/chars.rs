//! Character classes, runs of characters, and the few string primitives
//! the rest of the crate is built on.

use vstd::prelude::*;

verus! {

/// Whether `c` has the Unicode property `Alphabetic`.
pub uninterp spec fn unicode_alphabetic(c: char) -> bool;

/// Whether `c` is in one of the Unicode number categories.
pub uninterp spec fn unicode_numeric(c: char) -> bool;

/// `char::is_alphabetic`: the result is the Unicode property `Alphabetic`
/// of the character, which this crate calls `unicode_alphabetic`.
pub assume_specification[ char::is_alphabetic ](c: char) -> (b: bool)
    ensures
        b == unicode_alphabetic(c),
;

/// `char::is_numeric`: the result is membership of the character in the
/// Unicode number categories, which this crate calls `unicode_numeric`.
pub assume_specification[ char::is_numeric ](c: char) -> (b: bool)
    ensures
        b == unicode_numeric(c),
;

/// `char::is_alphanumeric`: std documents it as true of the characters of
/// which `is_alphabetic` or `is_numeric` is true.
pub assume_specification[ char::is_alphanumeric ](c: char) -> (b: bool)
    ensures
        b == (unicode_alphabetic(c) || unicode_numeric(c)),
;

/// `String::push`: appends one character to the end of the string.
pub assume_specification[ std::string::String::push ](s: &mut std::string::String, ch: char)
    ensures
        final(s)@ == old(s)@.push(ch),
;

/// Whether `c` has the Unicode property `White_Space`.
pub uninterp spec fn unicode_whitespace(c: char) -> bool;

/// `char::is_whitespace`: the result is the Unicode property `White_Space`
/// of the character, which this crate calls `unicode_whitespace`.
pub assume_specification[ char::is_whitespace ](c: char) -> (b: bool)
    ensures
        b == unicode_whitespace(c),
;

/// The text that `{:?}` gives for a string: the string between double
/// quotes, with the characters that std's `Debug` escapes written as their
/// escapes.
pub uninterp spec fn quoted(s: Seq<char>) -> Seq<char>;

/// `<str as Debug>::fmt`, reached through `format!("{:?}", ..)`: the result
/// is a function of the string's characters alone, which this crate calls
/// `quoted`.
#[verifier::external_body]
pub(crate) fn quote(s: &str) -> (q: String)
    ensures
        q@ == quoted(s@),
{
    format!("{:?}", s)
}

/// Whether `c` may stand inside a name: a letter, a digit or an underscore.
pub open spec fn is_name_char(c: char) -> bool {
    unicode_alphabetic(c) || unicode_numeric(c) || c == '_'
}

/// Whether `c` may start a name: a letter or an underscore.
pub open spec fn is_name_start(c: char) -> bool {
    unicode_alphabetic(c) || c == '_'
}

/// Whether `c` is an ASCII decimal digit.
pub open spec fn is_digit(c: char) -> bool {
    '0' <= c <= '9'
}

/// The class of characters that may stand inside a name.
pub open spec fn name_chars() -> spec_fn(char) -> bool {
    |c: char| is_name_char(c)
}

/// The class of ASCII decimal digits.
pub open spec fn digits() -> spec_fn(char) -> bool {
    |c: char| is_digit(c)
}

/// The end of the longest run of characters of class `class` that starts at
/// `start`: the first index at or after `start` whose character is outside
/// the class, or the length of `s` where there is none.
pub open spec fn run_end(s: Seq<char>, start: int, class: spec_fn(char) -> bool) -> int
    decreases s.len() - start,
{
    if 0 <= start < s.len() && class(s[start]) {
        run_end(s, start + 1, class)
    } else {
        start
    }
}

/// A run ends inside the text, holds only characters of its class, and is
/// followed by a character outside the class or by the end of the text.
pub proof fn lemma_run_end(s: Seq<char>, start: int, class: spec_fn(char) -> bool)
    requires
        0 <= start <= s.len(),
    ensures
        start <= run_end(s, start, class) <= s.len(),
        forall|k: int| start <= k < run_end(s, start, class) ==> class(#[trigger] s[k]),
        run_end(s, start, class) < s.len() ==> !class(s[run_end(s, start, class)]),
    decreases s.len() - start,
{
    if start < s.len() && class(s[start]) {
        lemma_run_end(s, start + 1, class);
    }
}

/// A position that bounds a stretch of class characters from the right, and
/// itself holds none, is the end of the run.
pub proof fn lemma_run_end_is(s: Seq<char>, start: int, end: int, class: spec_fn(char) -> bool)
    requires
        0 <= start <= end <= s.len(),
        forall|k: int| start <= k < end ==> class(#[trigger] s[k]),
        end < s.len() ==> !class(s[end]),
    ensures
        run_end(s, start, class) == end,
    decreases end - start,
{
    if start < end {
        lemma_run_end_is(s, start + 1, end, class);
    }
}

/// The start of the longest run of characters of class `class` that ends
/// with `s`: the length of `s` without that run.
pub open spec fn tail_start(s: Seq<char>, class: spec_fn(char) -> bool) -> int
    decreases s.len(),
{
    if s.len() > 0 && class(s.last()) {
        tail_start(s.drop_last(), class)
    } else {
        s.len() as int
    }
}

/// A position behind a character outside the class, or the start, with
/// class characters only from it on, is the start of the run at the end.
pub proof fn lemma_tail_start_is(s: Seq<char>, n: int, class: spec_fn(char) -> bool)
    requires
        0 <= n <= s.len(),
        n > 0 ==> !class(s[n - 1]),
        forall|k: int| n <= k < s.len() ==> class(#[trigger] s[k]),
    ensures
        tail_start(s, class) == n,
    decreases s.len(),
{
    if s.len() > 0 && class(s.last()) {
        let t = s.drop_last();
        assert(n < s.len());
        assert forall|k: int| n <= k < t.len() implies class(#[trigger] t[k]) by {
            assert(t[k] == s[k]);
        }
        lemma_tail_start_is(t, n, class);
    } else if s.len() > 0 {
        assert(n == s.len());
    }
}

/// Tests whether `c` may stand inside a name.
pub fn name_char(c: char) -> (b: bool)
    ensures
        b == is_name_char(c),
{
    c.is_alphanumeric() || c == '_'
}

/// Tests whether `c` may start a name.
pub fn name_start(c: char) -> (b: bool)
    ensures
        b == is_name_start(c),
{
    c.is_alphabetic() || c == '_'
}

/// Tests whether `c` is an ASCII decimal digit.
pub fn digit(c: char) -> (b: bool)
    ensures
        b == is_digit(c),
{
    '0' <= c && c <= '9'
}

/// Tests whether two texts hold the same characters.
pub fn same_text(a: &str, b: &str) -> (same: bool)
    ensures
        same == (a@ == b@),
{
    let left = String::from_str(a);
    let right = String::from_str(b);
    left == right
}

/// The characters of `s`, in order.
pub fn chars_of(s: &str) -> (v: Vec<char>)
    ensures
        v@ == s@,
{
    let mut v: Vec<char> = Vec::new();
    for c in it: s.chars()
        invariant
            it.seq() == s@,
            v@ == it.seq().subrange(0, it.index()),
    {
        v.push(c);
        assert(v@ =~= it.seq().subrange(0, it.index() + 1));
    }
    assert(v@ =~= s@);
    v
}

/// The string made of the characters `v[from..to]`.
pub fn string_of(v: &Vec<char>, from: usize, to: usize) -> (s: String)
    requires
        from <= to <= v.len(),
    ensures
        s@ == v@.subrange(from as int, to as int),
{
    let mut s = String::new();
    let mut i: usize = from;
    while i < to
        invariant
            from <= i <= to <= v.len(),
            s@ == v@.subrange(from as int, i as int),
        decreases to - i,
    {
        s.push(v[i]);
        i += 1;
        assert(s@ =~= v@.subrange(from as int, i as int));
    }
    s
}

} // verus!
