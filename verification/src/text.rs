//! Small operations on text that the rest of the crate shares.

use vstd::prelude::*;

verus! {

/// What `str::trim` answers for the text `text`.
pub uninterp spec fn trimmed(text: Seq<char>) -> Seq<char>;

/// What `str::to_lowercase` answers for the text `text`.
pub uninterp spec fn lowercased(text: Seq<char>) -> Seq<char>;

/// Calls `str::trim`: the text without the white space at its two ends.
///
/// Believed, not proved: the answer is the one named [`trimmed`].
#[verifier::external_body]
pub(crate) fn trim(text: &str) -> (r: String)
    ensures
        r@ == trimmed(text@),
{
    text.trim().to_string()
}

/// Calls `str::to_lowercase`.
///
/// Believed, not proved: the answer is the one named [`lowercased`].
#[verifier::external_body]
pub(crate) fn to_lowercase(text: &str) -> (r: String)
    ensures
        r@ == lowercased(text@),
{
    text.to_lowercase()
}

/// `text` begins with `prefix`.
pub open spec fn begins_with(text: Seq<char>, prefix: Seq<char>) -> bool {
    prefix.len() <= text.len() && text.take(prefix.len() as int) == prefix
}

/// Tells whether `text` begins with `prefix`.
pub fn starts_with(text: &str, prefix: &str) -> (r: bool)
    ensures
        r == begins_with(text@, prefix@),
{
    let n = text.unicode_len();
    let m = prefix.unicode_len();
    if m > n {
        return false;
    }
    let mut i: usize = 0;
    while i < m
        invariant
            i <= m <= n,
            n == text@.len(),
            m == prefix@.len(),
            text@.take(i as int) == prefix@.take(i as int),
        decreases m - i,
    {
        if text.get_char(i) != prefix.get_char(i) {
            assert(text@.take(m as int)[i as int] != prefix@[i as int]);
            return false;
        }
        assert(text@.take(i + 1) =~= text@.take(i as int).push(text@[i as int]));
        assert(prefix@.take(i + 1) =~= prefix@.take(i as int).push(prefix@[i as int]));
        i += 1;
    }
    assert(prefix@.take(m as int) =~= prefix@);
    true
}

/// The index of the first `c` in `text` from `from` on, and the length of `text` where there
/// is none.
pub open spec fn first_index_of(text: Seq<char>, c: char, from: int) -> int
    decreases text.len() - from,
{
    if from < 0 || from >= text.len() {
        text.len() as int
    } else if text[from] == c {
        from
    } else {
        first_index_of(text, c, from + 1)
    }
}

/// Finds the first `c` in `text` from `from` on.
pub fn find_char(text: &str, c: char, from: usize) -> (r: usize)
    ensures
        r == first_index_of(text@, c, from as int),
        r <= text@.len(),
        r < text@.len() ==> text@[r as int] == c && from <= r,
{
    let n = text.unicode_len();
    let mut i = from;
    while i < n && text.get_char(i) != c
        invariant
            n == text@.len(),
            first_index_of(text@, c, from as int) == first_index_of(text@, c, i as int),
            from <= i,
        decreases n - i,
    {
        i += 1;
    }
    if i < n {
        i
    } else {
        n
    }
}

/// One past the index of the last `c` in the first `upto` characters of `text`, and 0 where
/// there is none.
pub open spec fn after_last_index_of(text: Seq<char>, c: char, upto: int) -> int
    decreases upto,
{
    if upto <= 0 || upto > text.len() {
        0
    } else if text[upto - 1] == c {
        upto
    } else {
        after_last_index_of(text, c, upto - 1)
    }
}

/// Finds where the part behind the last `c` of `text` begins.
pub fn find_after_last_char(text: &str, c: char) -> (r: usize)
    ensures
        r == after_last_index_of(text@, c, text@.len() as int),
        r <= text@.len(),
{
    let n = text.unicode_len();
    let mut i = n;
    while i > 0 && text.get_char(i - 1) != c
        invariant
            i <= n,
            n == text@.len(),
            after_last_index_of(text@, c, n as int) == after_last_index_of(text@, c, i as int),
        decreases i,
    {
        i -= 1;
    }
    i
}

/// `text` holds the character `c`.
pub open spec fn has_char(text: Seq<char>, c: char) -> bool {
    first_index_of(text, c, 0) < text.len()
}

/// `pattern` stands in `text` at the index `at`.
pub open spec fn stands_at(text: Seq<char>, pattern: Seq<char>, at: int) -> bool {
    0 <= at && at + pattern.len() <= text.len() && text.subrange(at, at + pattern.len())
        == pattern
}

/// `text` holds `pattern` somewhere.
pub open spec fn has_text(text: Seq<char>, pattern: Seq<char>) -> bool {
    exists|at: int| stands_at(text, pattern, at)
}

/// Tells whether `pattern` stands in `text` at the index `at`.
pub fn matches_at(text: &str, pattern: &str, at: usize) -> (r: bool)
    ensures
        r == stands_at(text@, pattern@, at as int),
{
    let n = text.unicode_len();
    let m = pattern.unicode_len();
    if at > n || m > n - at {
        return false;
    }
    let mut i: usize = 0;
    while i < m
        invariant
            i <= m,
            at + m <= n,
            n == text@.len(),
            m == pattern@.len(),
            text@.subrange(at as int, at + i) == pattern@.take(i as int),
        decreases m - i,
    {
        if text.get_char(at + i) != pattern.get_char(i) {
            assert(text@.subrange(at as int, at + m)[i as int] != pattern@[i as int]);
            return false;
        }
        assert(text@.subrange(at as int, at + i + 1) =~= text@.subrange(at as int, at + i).push(
            text@[at + i],
        ));
        assert(pattern@.take(i + 1) =~= pattern@.take(i as int).push(pattern@[i as int]));
        i += 1;
    }
    assert(pattern@.take(m as int) =~= pattern@);
    true
}

/// Tells whether `text` holds `pattern` somewhere.
pub fn contains_text(text: &str, pattern: &str) -> (r: bool)
    ensures
        r == has_text(text@, pattern@),
{
    let n = text.unicode_len();
    let mut at: usize = 0;
    while at <= n
        invariant
            n == text@.len(),
            forall|k: int| 0 <= k < at ==> !stands_at(text@, pattern@, k),
        decreases n + 1 - at,
    {
        if matches_at(text, pattern, at) {
            return true;
        }
        if at == n {
            return false;
        }
        at += 1;
    }
    false
}

/// Tells whether `text` holds the character `c`.
pub fn contains_char(text: &str, c: char) -> (r: bool)
    ensures
        r == has_char(text@, c),
{
    find_char(text, c, 0) < text.unicode_len()
}

/// `text` without the characters `c` at its end.
pub open spec fn without_trailing(text: Seq<char>, c: char) -> Seq<char>
    decreases text.len(),
{
    if text.len() > 0 && text.last() == c {
        without_trailing(text.drop_last(), c)
    } else {
        text
    }
}

/// Cuts the characters `c` off the end of `text`.
pub fn trim_end_char(text: &str, c: char) -> (r: String)
    ensures
        r@ == without_trailing(text@, c),
{
    let mut end = text.unicode_len();
    assert(text@.take(end as int) =~= text@);
    while end > 0 && text.get_char(end - 1) == c
        invariant
            end <= text@.len(),
            without_trailing(text@, c) == without_trailing(text@.take(end as int), c),
        decreases end,
    {
        assert(text@.take(end as int).drop_last() =~= text@.take(end - 1));
        end -= 1;
    }
    assert(text@.subrange(0, end as int) =~= text@.take(end as int));
    String::from_str(text.substring_char(0, end))
}

} // verus!
