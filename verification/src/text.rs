//! Questions about texts.

use vstd::prelude::*;

verus! {

/// Whether `part` stands in `text` at index `at`.
pub open spec fn occurs_at(text: Seq<char>, part: Seq<char>, at: int) -> bool {
    &&& 0 <= at
    &&& at + part.len() <= text.len()
    &&& text.subrange(at, at + part.len()) == part
}

/// Whether `part` stands in `text` at index `at`, and nowhere before.
pub open spec fn first_at(text: Seq<char>, part: Seq<char>, at: int) -> bool {
    &&& occurs_at(text, part, at)
    &&& forall|i: int| 0 <= i < at ==> !#[trigger] occurs_at(text, part, i)
}

/// Whether `part` stands somewhere in `text`.
pub open spec fn has_part(text: Seq<char>, part: Seq<char>) -> bool {
    exists|i: int| #[trigger] occurs_at(text, part, i)
}

/// What stands before the first `part` in `text`; all of it where there is none.
pub open spec fn before(text: Seq<char>, part: Seq<char>) -> Seq<char> {
    if has_part(text, part) {
        text.subrange(0, choose|i: int| first_at(text, part, i))
    } else {
        text
    }
}

/// What stands behind the first `part` in `text`; nothing where there is none.
pub open spec fn behind(text: Seq<char>, part: Seq<char>) -> Seq<char> {
    if has_part(text, part) {
        text.subrange(
            (choose|i: int| first_at(text, part, i)) + part.len() as int,
            text.len() as int,
        )
    } else {
        Seq::empty()
    }
}

/// A letter from `A` to `Z` in lower case; any other character as it is.
pub open spec fn ascii_lower(c: char) -> char {
    if 'A' <= c && c <= 'Z' {
        ((c as u32) + 32) as char
    } else {
        c
    }
}

/// A text with its letters from `A` to `Z` in lower case.
pub open spec fn ascii_lowered(text: Seq<char>) -> Seq<char> {
    text.map_values(|c: char| ascii_lower(c))
}

/// Whether every character of the text is in ASCII.
pub open spec fn ascii_only(text: Seq<char>) -> bool {
    forall|i: int| 0 <= i < text.len() ==> (#[trigger] text[i] as u32) < 128
}

/// What stands in a text stands there first somewhere.
pub(crate) proof fn lemma_first_exists(text: Seq<char>, part: Seq<char>)
    requires
        has_part(text, part),
    ensures
        exists|i: int| first_at(text, part, i),
{
    let at = choose|i: int| #[trigger] occurs_at(text, part, i);
    lemma_first_before(text, part, at);
}

proof fn lemma_first_before(text: Seq<char>, part: Seq<char>, at: int)
    requires
        occurs_at(text, part, at),
    ensures
        exists|i: int| first_at(text, part, i),
    decreases at,
{
    if exists|i: int| 0 <= i < at && #[trigger] occurs_at(text, part, i) {
        let i = choose|i: int| 0 <= i < at && #[trigger] occurs_at(text, part, i);
        lemma_first_before(text, part, i);
    } else {
        assert(first_at(text, part, at));
    }
}

/// Where `part` first stands in `text` is one place.
pub(crate) proof fn lemma_first_at(text: Seq<char>, part: Seq<char>, at: int)
    requires
        first_at(text, part, at),
    ensures
        has_part(text, part),
        (choose|i: int| first_at(text, part, i)) == at,
{
    let other = choose|i: int| first_at(text, part, i);
    assert(first_at(text, part, other));
    if other < at {
        assert(!occurs_at(text, part, other));
    } else if at < other {
        assert(!occurs_at(text, part, at));
    }
}

/// Whether two texts are equal.
pub fn same(a: &str, b: &str) -> (r: bool)
    ensures
        r <==> a@ == b@,
{
    a.to_owned() == b.to_owned()
}

/// Where `part` first stands in `text`.
pub fn find(text: &str, part: &str) -> (r: Option<usize>)
    ensures
        match r {
            Some(at) => first_at(text@, part@, at as int),
            None => !has_part(text@, part@),
        },
{
    let n: usize = text.unicode_len();
    let m: usize = part.unicode_len();
    if m > n {
        return None;
    }
    let mut at: usize = 0;
    while at <= n - m
        invariant
            n == text@.len(),
            m == part@.len(),
            m <= n,
            at <= n - m + 1,
            forall|i: int| 0 <= i < at ==> !#[trigger] occurs_at(text@, part@, i),
        decreases n - m + 1 - at,
    {
        if same(text.substring_char(at, at + m), part) {
            return Some(at);
        }
        if at == n - m {
            return None;
        }
        at = at + 1;
    }
    None
}

/// Whether `part` stands somewhere in `text`.
pub fn contains(text: &str, part: &str) -> (r: bool)
    ensures
        r <==> has_part(text@, part@),
{
    match find(text, part) {
        Some(_) => true,
        None => false,
    }
}

/// What stands before the first `part` in `text`; all of it where there is none.
pub fn text_before<'a>(text: &'a str, part: &str) -> (r: &'a str)
    ensures
        r@ == before(text@, part@),
{
    match find(text, part) {
        Some(at) => {
            proof {
                lemma_first_at(text@, part@, at as int);
            }
            text.substring_char(0, at)
        },
        None => text,
    }
}

/// What stands behind the first `part` in `text`.
pub fn text_behind<'a>(text: &'a str, part: &str) -> (r: &'a str)
    requires
        has_part(text@, part@),
    ensures
        r@ == behind(text@, part@),
{
    match find(text, part) {
        Some(at) => {
            proof {
                lemma_first_at(text@, part@, at as int);
            }
            let n: usize = text.unicode_len();
            text.substring_char(at + part.unicode_len(), n)
        },
        None => text,
    }
}

/// A letter from `A` to `Z` in lower case; any other character as it is.
fn lower(c: char) -> (r: char)
    ensures
        r == ascii_lower(c),
{
    if 'A' <= c && c <= 'Z' {
        (c as u8 + 32) as char
    } else {
        c
    }
}

/// Whether two texts are equal but for the case of their letters from `A` to
/// `Z`.
pub fn eq_ignore_ascii_case(a: &str, b: &str) -> (r: bool)
    ensures
        r <==> ascii_lowered(a@) == ascii_lowered(b@),
{
    let n: usize = a.unicode_len();
    if n != b.unicode_len() {
        assert(ascii_lowered(a@).len() != ascii_lowered(b@).len());
        return false;
    }
    for i in 0..n
        invariant
            n == a@.len(),
            n == b@.len(),
            forall|k: int| 0 <= k < i ==> ascii_lower(#[trigger] a@[k]) == ascii_lower(b@[k]),
    {
        if lower(a.get_char(i)) != lower(b.get_char(i)) {
            assert(ascii_lowered(a@)[i as int] != ascii_lowered(b@)[i as int]);
            return false;
        }
    }
    assert(ascii_lowered(a@) =~= ascii_lowered(b@));
    true
}

/// The text in lower case, as `str::to_lowercase` gives it.
pub uninterp spec fn lowercased(text: Seq<char>) -> Seq<char>;

/// The text in lower case: `str::to_lowercase`, which goes by the Unicode
/// property `Lowercase`. Of a text in ASCII it changes the letters from `A` to
/// `Z` and nothing else.
#[verifier::external_body]
pub(crate) fn to_lowercase(text: &str) -> (r: String)
    ensures
        r@ == lowercased(text@),
        ascii_only(text@) ==> r@ == ascii_lowered(text@),
{
    text.to_lowercase()
}

/// A text is what stands before a part, the part, and what stands behind it; before
/// it the part does not begin.
pub proof fn law_parts_join_to_the_text(text: Seq<char>, part: Seq<char>)
    requires
        has_part(text, part),
        part.len() > 0,
    ensures
        text == before(text, part) + part + behind(text, part),
        !has_part(before(text, part) + part.drop_last(), part),
{
    lemma_first_exists(text, part);
    let at = choose|i: int| first_at(text, part, i);
    assert(first_at(text, part, at));
    assert(text =~= before(text, part) + part + behind(text, part)) by {
        assert(text.subrange(at, at + part.len()) =~= part);
    }
    let start = before(text, part) + part.drop_last();
    assert forall|i: int| !#[trigger] occurs_at(start, part, i) by {
        if occurs_at(start, part, i) {
            assert(start =~= text.subrange(0, at + part.len() - 1));
            assert(start.subrange(i, i + part.len()) =~= text.subrange(i, i + part.len()));
            assert(i < at);
            assert(occurs_at(text, part, i));
        }
    }
}

/// A text holds the part that it was made with.
pub proof fn law_joined_text_has_the_part(start: Seq<char>, part: Seq<char>, rest: Seq<char>)
    ensures
        has_part(start + part + rest, part),
{
    let text = start + part + rest;
    assert(text.subrange(start.len() as int, (start.len() + part.len()) as int) =~= part);
    assert(occurs_at(text, part, start.len() as int));
}

/// Two characters are the same letter exactly where they are equal, or where one is
/// a letter from `A` to `Z` and the other stands 32 behind it.
pub proof fn law_case_is_thirty_two(c: char, d: char)
    ensures
        ascii_lower(c) == ascii_lower(d) <==> c == d || ('A' <= c && c <= 'Z' && d as u32 == c as u32
            + 32) || ('A' <= d && d <= 'Z' && c as u32 == d as u32 + 32),
        'a' <= c && c <= 'z' ==> ascii_lower(c) == c,
{
}

} // verus!
