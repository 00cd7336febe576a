//! Scanning primitives on text: white space, trimming, and splitting at the
//! first occurrence of a separator.
//!
//! [`trim`] and [`split_once`] do what the methods of `str` with these names
//! do. They are written here so that each comes with a contract and its
//! proof. Every function sees a string as its sequence of characters.

use vstd::prelude::*;

verus! {

/// Whether `c` is white space: one of the code points that Unicode gives the
/// property `White_Space`.
pub open spec fn is_space(c: char) -> bool {
    let code: u32 = c as u32;
    ||| 0x0009 <= code <= 0x000D
    ||| code == 0x0020
    ||| code == 0x0085
    ||| code == 0x00A0
    ||| code == 0x1680
    ||| 0x2000 <= code <= 0x200A
    ||| code == 0x2028
    ||| code == 0x2029
    ||| code == 0x202F
    ||| code == 0x205F
    ||| code == 0x3000
}

/// `text` without its longest prefix of white space.
pub open spec fn trimmed_start(text: Seq<char>) -> Seq<char>
    decreases text.len(),
{
    if text.len() > 0 && is_space(text.first()) {
        trimmed_start(text.drop_first())
    } else {
        text
    }
}

/// `text` without its longest suffix of white space.
pub open spec fn trimmed_end(text: Seq<char>) -> Seq<char>
    decreases text.len(),
{
    if text.len() > 0 && is_space(text.last()) {
        trimmed_end(text.drop_last())
    } else {
        text
    }
}

/// `text` without the white space at either end.
pub open spec fn trimmed(text: Seq<char>) -> Seq<char> {
    trimmed_end(trimmed_start(text))
}

/// Whether `pattern` stands in `text` at index `at`.
pub open spec fn occurs_at(text: Seq<char>, pattern: Seq<char>, at: int) -> bool {
    &&& 0 <= at
    &&& at + pattern.len() <= text.len()
    &&& text.subrange(at, at + pattern.len()) == pattern
}

/// Whether `pattern` stands somewhere in `text`.
pub open spec fn occurs_in(text: Seq<char>, pattern: Seq<char>) -> bool {
    exists|at: int| occurs_at(text, pattern, at)
}

/// Whether `at` is the leftmost index at which `pattern` stands in `text`.
pub open spec fn first_occurrence_at(text: Seq<char>, pattern: Seq<char>, at: int) -> bool {
    &&& occurs_at(text, pattern, at)
    &&& forall|earlier: int| 0 <= earlier < at ==> !occurs_at(text, pattern, earlier)
}

/// The two parts of `text` around the leftmost occurrence of `pattern`, or
/// `None` where `pattern` does not occur. Neither part holds the occurrence
/// itself; the second part may hold further occurrences.
pub open spec fn split_at_first(text: Seq<char>, pattern: Seq<char>) -> Option<
    (Seq<char>, Seq<char>),
> {
    if exists|at: int| first_occurrence_at(text, pattern, at) {
        let at: int = choose|at: int| first_occurrence_at(text, pattern, at);
        Some((text.take(at), text.skip(at + pattern.len())))
    } else {
        None
    }
}

/// The leftmost occurrence is unique, so it decides the split.
pub proof fn lemma_split_at_first(text: Seq<char>, pattern: Seq<char>, at: int)
    requires
        first_occurrence_at(text, pattern, at),
    ensures
        split_at_first(text, pattern) == Some((text.take(at), text.skip(at + pattern.len()))),
{
    let chosen: int = choose|at: int| first_occurrence_at(text, pattern, at);
    assert(first_occurrence_at(text, pattern, chosen));
    if chosen < at {
        assert(!occurs_at(text, pattern, chosen));
    } else if at < chosen {
        assert(!occurs_at(text, pattern, at));
    }
}

/// Without an occurrence there is no split.
pub proof fn lemma_split_at_first_none(text: Seq<char>, pattern: Seq<char>)
    requires
        !occurs_in(text, pattern),
    ensures
        split_at_first(text, pattern) is None,
{
    if exists|at: int| first_occurrence_at(text, pattern, at) {
        let at: int = choose|at: int| first_occurrence_at(text, pattern, at);
        assert(occurs_at(text, pattern, at));
    }
}

/// Trimming the start drops the leading white space, all of it and nothing
/// else: `count` characters, where the next one, if any, is no white space.
pub proof fn lemma_trimmed_start(text: Seq<char>) -> (count: int)
    ensures
        0 <= count <= text.len(),
        trimmed_start(text) == text.skip(count),
        forall|i: int| 0 <= i < count ==> is_space(#[trigger] text[i]),
        count < text.len() ==> !is_space(text[count]),
    decreases text.len(),
{
    if text.len() > 0 && is_space(text.first()) {
        let rest = text.drop_first();
        let count: int = lemma_trimmed_start(rest);
        assert(rest.skip(count) =~= text.skip(count + 1));
        assert forall|i: int| 0 <= i < count + 1 implies is_space(#[trigger] text[i]) by {
            if i > 0 {
                assert(text[i] == rest[i - 1]);
            }
        }
        assert(count < rest.len() ==> text[count + 1] == rest[count]);
        count + 1
    } else {
        assert(text.skip(0) =~= text);
        0
    }
}

/// Trimming the end drops the trailing white space, all of it and nothing
/// else: `length` characters stay, where the last one, if any, is no white
/// space.
pub proof fn lemma_trimmed_end(text: Seq<char>) -> (length: int)
    ensures
        0 <= length <= text.len(),
        trimmed_end(text) == text.take(length),
        forall|i: int| length <= i < text.len() ==> is_space(#[trigger] text[i]),
        length > 0 ==> !is_space(text[length - 1]),
    decreases text.len(),
{
    if text.len() > 0 && is_space(text.last()) {
        let rest = text.drop_last();
        let length: int = lemma_trimmed_end(rest);
        assert(rest.take(length) =~= text.take(length));
        assert forall|i: int| length <= i < text.len() implies is_space(#[trigger] text[i]) by {
            if i < rest.len() {
                assert(text[i] == rest[i]);
            }
        }
        assert(length > 0 ==> text[length - 1] == rest[length - 1]);
        length
    } else {
        assert(text.take(text.len() as int) =~= text);
        text.len() as int
    }
}

/// What trimming leaves is one stretch of the text, from `start` to `end`:
/// all outside it is white space, and it neither starts nor ends with white
/// space.
pub proof fn lemma_trimmed(text: Seq<char>) -> (bounds: (int, int))
    ensures
        0 <= bounds.0 <= bounds.1 <= text.len(),
        trimmed(text) == text.subrange(bounds.0, bounds.1),
        forall|i: int|
            0 <= i < text.len() && !(bounds.0 <= i < bounds.1) ==> is_space(#[trigger] text[i]),
        bounds.0 < bounds.1 ==> !is_space(text[bounds.0]) && !is_space(text[bounds.1 - 1]),
{
    let start: int = lemma_trimmed_start(text);
    let rest = text.skip(start);
    let length: int = lemma_trimmed_end(rest);
    let end: int = start + length;
    assert(rest.take(length) =~= text.subrange(start, end));
    assert forall|i: int| 0 <= i < text.len() && !(start <= i < end) implies is_space(
        #[trigger] text[i],
    ) by {
        if i >= end {
            assert(text[i] == rest[i - start]);
        }
    }
    if start < end {
        assert(text[end - 1] == rest[length - 1]);
    }
    (start, end)
}

/// Text that neither starts nor ends with white space is its own trimming.
pub proof fn lemma_trimmed_is_identity(text: Seq<char>)
    requires
        text.len() > 0 ==> !is_space(text.first()) && !is_space(text.last()),
    ensures
        trimmed(text) == text,
{
}

/// Behind text that does not end with white space, trimming the end of the
/// whole is trimming the end of what follows.
pub proof fn lemma_trimmed_end_behind(front: Seq<char>, back: Seq<char>)
    requires
        front.len() > 0,
        !is_space(front.last()),
    ensures
        trimmed_end(front + back) == front + trimmed_end(back),
    decreases back.len(),
{
    let whole = front + back;
    if back.len() == 0 {
        assert(whole =~= front);
    } else if is_space(back.last()) {
        assert(whole.last() == back.last());
        assert(whole.drop_last() =~= front + back.drop_last());
        lemma_trimmed_end_behind(front, back.drop_last());
    } else {
        assert(whole.last() == back.last());
    }
}

/// Trimming once is enough.
pub proof fn lemma_trimmed_twice(text: Seq<char>)
    ensures
        trimmed(trimmed(text)) == trimmed(text),
{
    let bounds: (int, int) = lemma_trimmed(text);
    lemma_trimmed_is_identity(trimmed(text));
}

/// A pattern that neither starts nor ends with white space occurs in the
/// trimmed text if and only if it occurs in the text.
pub proof fn lemma_trimmed_keeps_occurrences(text: Seq<char>, pattern: Seq<char>)
    requires
        pattern.len() > 0,
        !is_space(pattern.first()),
        !is_space(pattern.last()),
    ensures
        occurs_in(trimmed(text), pattern) <==> occurs_in(text, pattern),
{
    let (start, end): (int, int) = lemma_trimmed(text);
    let inner = trimmed(text);
    if occurs_in(inner, pattern) {
        let at: int = choose|at: int| occurs_at(inner, pattern, at);
        assert(inner.subrange(at, at + pattern.len()) =~= text.subrange(
            at + start,
            at + start + pattern.len(),
        ));
        assert(occurs_at(text, pattern, at + start));
    }
    if occurs_in(text, pattern) {
        let at: int = choose|at: int| occurs_at(text, pattern, at);
        let found = text.subrange(at, at + pattern.len());
        assert(found.first() == text[at]);
        assert(found.last() == text[at + pattern.len() - 1]);
        assert(start <= at && at + pattern.len() <= end);
        assert(inner.subrange(at - start, at - start + pattern.len()) =~= found);
        assert(occurs_at(inner, pattern, at - start));
    }
}

/// Where a pattern occurs, it has a leftmost occurrence.
pub proof fn lemma_first_occurrence(text: Seq<char>, pattern: Seq<char>, at: int) -> (first: int)
    requires
        occurs_at(text, pattern, at),
    ensures
        first <= at,
        first_occurrence_at(text, pattern, first),
    decreases at,
{
    if exists|earlier: int| 0 <= earlier < at && occurs_at(text, pattern, earlier) {
        let earlier: int = choose|earlier: int|
            0 <= earlier < at && occurs_at(text, pattern, earlier);
        lemma_first_occurrence(text, pattern, earlier)
    } else {
        at
    }
}

/// A text splits at a pattern if and only if the pattern occurs in it.
pub proof fn lemma_split_iff_occurs(text: Seq<char>, pattern: Seq<char>)
    ensures
        split_at_first(text, pattern) is Some <==> occurs_in(text, pattern),
{
    if occurs_in(text, pattern) {
        let at: int = choose|at: int| occurs_at(text, pattern, at);
        let first: int = lemma_first_occurrence(text, pattern, at);
        lemma_split_at_first(text, pattern, first);
    } else {
        lemma_split_at_first_none(text, pattern);
    }
}

/// The characters of `text`, in order.
pub fn characters(text: &str) -> (chars: Vec<char>)
    ensures
        chars@ == text@,
{
    let mut chars: Vec<char> = Vec::new();
    for c in iter: text.chars()
        invariant
            chars@ == iter.seq().take(iter.index() as int),
            iter.seq() == text@,
    {
        chars.push(c);
    }
    chars
}

/// Tells whether `c` is white space.
pub fn is_whitespace(c: char) -> (r: bool)
    ensures
        r == is_space(c),
{
    let code: u32 = c as u32;
    (0x0009 <= code && code <= 0x000D) || code == 0x0020 || code == 0x0085 || code == 0x00A0
        || code == 0x1680 || (0x2000 <= code && code <= 0x200A) || code == 0x2028 || code
        == 0x2029 || code == 0x202F || code == 0x205F || code == 0x3000
}

/// Removes the white space at both ends of `text`.
pub fn trim(text: &str) -> (r: &str)
    ensures
        r@ == trimmed(text@),
{
    let chars = characters(text);
    let mut start: usize = 0;
    while start < chars.len() && is_whitespace(chars[start])
        invariant
            start <= chars.len(),
            forall|i: int| 0 <= i < start ==> is_space(chars@[i]),
        decreases chars.len() - start,
    {
        start += 1;
    }
    let mut end: usize = chars.len();
    while end > start && is_whitespace(chars[end - 1])
        invariant
            start <= end <= chars.len(),
            forall|i: int| end <= i < chars.len() ==> is_space(chars@[i]),
        decreases end,
    {
        end -= 1;
    }
    proof {
        let (first, last): (int, int) = lemma_trimmed(text@);
        if start < end {
            assert(!is_space(chars@[start as int]) && !is_space(chars@[end - 1]));
            assert(first == start && last == end);
        } else {
            assert(first == last);
            assert(text@.subrange(first, last) =~= text@.subrange(start as int, end as int));
        }
    }
    text.substring_char(start, end)
}

/// Tells whether `pattern` stands in `text` at index `at`.
fn matches_at(text: &[char], pattern: &[char], at: usize) -> (r: bool)
    requires
        at + pattern.len() <= text.len(),
    ensures
        r == occurs_at(text@, pattern@, at as int),
{
    let mut k: usize = 0;
    while k < pattern.len()
        invariant
            k <= pattern.len(),
            at + pattern.len() <= text.len(),
            forall|j: int| 0 <= j < k ==> text@[at + j] == pattern@[j],
        decreases pattern.len() - k,
    {
        if text[at + k] != pattern[k] {
            assert(text@.subrange(at as int, at + pattern.len())[k as int] != pattern@[k as int]);
            return false;
        }
        k += 1;
    }
    assert(text@.subrange(at as int, at + pattern.len()) =~= pattern@);
    true
}

/// The index of the leftmost occurrence of `pattern` in `text`.
fn find(text: &[char], pattern: &[char]) -> (r: Option<usize>)
    ensures
        match r {
            Some(at) => first_occurrence_at(text@, pattern@, at as int),
            None => !occurs_in(text@, pattern@),
        },
{
    if pattern.len() > text.len() {
        return None;
    }
    let last: usize = text.len() - pattern.len();
    let mut at: usize = 0;
    loop
        invariant
            at <= last,
            last == text.len() - pattern.len(),
            forall|earlier: int| 0 <= earlier < at ==> !occurs_at(text@, pattern@, earlier),
        decreases last - at,
    {
        if matches_at(text, pattern, at) {
            return Some(at);
        }
        if at == last {
            return None;
        }
        at += 1;
    }
}

/// Splits `text` at the leftmost occurrence of `pattern`.
///
/// Returns the text before the occurrence and the text behind it, or `None`
/// where `pattern` does not occur in `text`.
pub fn split_once<'a>(text: &'a str, pattern: &str) -> (r: Option<(&'a str, &'a str)>)
    ensures
        match r {
            Some((head, tail)) => split_at_first(text@, pattern@) == Some((head@, tail@)),
            None => split_at_first(text@, pattern@) is None,
        },
{
    let chars = characters(text);
    let wanted = characters(pattern);
    let end: usize = chars.len();
    match find(chars.as_slice(), wanted.as_slice()) {
        Some(at) => {
            proof {
                lemma_split_at_first(text@, pattern@, at as int);
            }
            let head = text.substring_char(0, at);
            let tail = text.substring_char(at + wanted.len(), end);
            Some((head, tail))
        },
        None => {
            proof {
                lemma_split_at_first_none(text@, pattern@);
            }
            None
        },
    }
}

/// Tells whether `text` and `word` hold the same characters.
pub fn same_text(text: &[char], word: &str) -> (r: bool)
    ensures
        r == (text@ == word@),
{
    let mut matched: usize = 0;
    for c in iter: word.chars()
        invariant
            iter.seq() == word@,
            matched == iter.index(),
            matched <= text.len(),
            forall|j: int| 0 <= j < matched ==> text@[j] == word@[j],
    {
        if matched == text.len() || text[matched] != c {
            return false;
        }
        matched += 1;
    }
    assert(matched == text.len() ==> text@ =~= word@);
    matched == text.len()
}

} // verus!
