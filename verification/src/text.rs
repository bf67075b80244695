//! Character-level text operations.
//!
//! Source text is modelled as `Seq<char>`. Executable code works on `Vec<char>`
//! so that every character can be reached by index; `to_chars` and `to_text`
//! move between that form and `String`.

use vstd::prelude::*;
use vstd::string::*;

verus! {

/// Whether `c` counts as white space, as decided by `char::is_whitespace`
/// (the Unicode `White_Space` property). Nothing else is assumed of it.
pub uninterp spec fn is_space(c: char) -> bool;

/// The lower-case form of `text`, as computed by `str::to_lowercase`
/// (Unicode lower-casing, independent of any locale). Nothing else is
/// assumed of it.
pub uninterp spec fn lowercase_of(text: Seq<char>) -> Seq<char>;

/// `char::is_whitespace` decides `is_space`.
pub assume_specification[ char::is_whitespace ](c: char) -> (b: bool)
    ensures
        b == is_space(c),
;

/// `str::to_lowercase` returns a new string holding `lowercase_of` the input.
pub assume_specification[ str::to_lowercase ](s: &str) -> (r: String)
    ensures
        r@ == lowercase_of(s@),
;

/// `String::push` appends the one character to the end of the string.
pub assume_specification[ String::push ](s: &mut String, c: char)
    ensures
        final(s)@ == old(s)@.push(c),
;

/// The views of the items of a list, in order.
pub open spec fn views<T: View>(items: Seq<T>) -> Seq<T::V> {
    Seq::new(items.len(), |i: int| items[i]@)
}

/// What ends a token: any white space, or one given character.
#[derive(Clone, Copy, Debug)]
pub enum Delimiter {
    Space,
    Char(char),
}

impl Delimiter {
    /// Whether `c` ends a token.
    pub open spec fn matches(self, c: char) -> bool {
        match self {
            Delimiter::Space => is_space(c),
            Delimiter::Char(d) => c == d,
        }
    }

    /// Tells whether `c` ends a token.
    pub fn test(&self, c: char) -> (b: bool)
        ensures
            b == self.matches(c),
    {
        match self {
            Delimiter::Space => c.is_whitespace(),
            Delimiter::Char(d) => c == *d,
        }
    }
}

/// Index of the first character of `text` that `delimiter` matches, or the
/// length of `text` when there is none.
pub open spec fn first_break(text: Seq<char>, delimiter: Delimiter) -> int
    decreases text.len(),
{
    if text.len() == 0 || delimiter.matches(text[0]) {
        0
    } else {
        1 + first_break(text.skip(1), delimiter)
    }
}

/// Nothing before `first_break` matches, and what stands at it does.
pub proof fn lemma_first_break(text: Seq<char>, delimiter: Delimiter)
    ensures
        0 <= first_break(text, delimiter) <= text.len(),
        forall|i: int| 0 <= i < first_break(text, delimiter) ==> !delimiter.matches(#[trigger] text[i]),
        first_break(text, delimiter) < text.len() ==> delimiter.matches(
            text[first_break(text, delimiter)],
        ),
    decreases text.len(),
{
    if text.len() == 0 || delimiter.matches(text[0]) {
    } else {
        let rest = text.skip(1);
        lemma_first_break(rest, delimiter);
        assert forall|i: int| 0 <= i < first_break(text, delimiter) implies !delimiter.matches(
            #[trigger] text[i],
        ) by {
            if i > 0 {
                assert(text[i] == rest[i - 1]);
            }
        }
    }
}

/// `first_break` is the only index with nothing matching before it and a
/// match (or the end) at it.
pub proof fn lemma_first_break_is(text: Seq<char>, delimiter: Delimiter, k: int)
    requires
        0 <= k <= text.len(),
        forall|i: int| 0 <= i < k ==> !delimiter.matches(#[trigger] text[i]),
        k < text.len() ==> delimiter.matches(text[k]),
    ensures
        first_break(text, delimiter) == k,
    decreases text.len(),
{
    if text.len() == 0 || delimiter.matches(text[0]) {
        if k > 0 {
            assert(!delimiter.matches(text[0]));
        }
    } else {
        let rest = text.skip(1);
        assert forall|i: int| 0 <= i < k - 1 implies !delimiter.matches(#[trigger] rest[i]) by {
            assert(rest[i] == text[i + 1]);
        }
        lemma_first_break_is(rest, delimiter, k - 1);
    }
}

/// `text` without the white space at its start.
pub open spec fn trimmed_start(text: Seq<char>) -> Seq<char> {
    text.skip(first_gap_end(text))
}

/// Number of white-space characters at the start of `text`.
pub open spec fn first_gap_end(text: Seq<char>) -> int
    decreases text.len(),
{
    if text.len() > 0 && is_space(text[0]) {
        1 + first_gap_end(text.skip(1))
    } else {
        0
    }
}

/// `text` without the white space at its end.
pub open spec fn trimmed_end(text: Seq<char>) -> Seq<char>
    decreases text.len(),
{
    if text.len() > 0 && is_space(text.last()) {
        trimmed_end(text.drop_last())
    } else {
        text
    }
}

/// `text` without the white space at either end.
pub open spec fn trimmed(text: Seq<char>) -> Seq<char> {
    trimmed_end(trimmed_start(text))
}

/// `first_gap_end` is the only index with white space alone before it and
/// none (or the end) at it.
pub proof fn lemma_first_gap_end_is(text: Seq<char>, k: int)
    requires
        0 <= k <= text.len(),
        forall|i: int| 0 <= i < k ==> is_space(#[trigger] text[i]),
        k < text.len() ==> !is_space(text[k]),
    ensures
        first_gap_end(text) == k,
    decreases text.len(),
{
    if text.len() > 0 && is_space(text[0]) {
        let rest = text.skip(1);
        assert forall|i: int| 0 <= i < k - 1 implies is_space(#[trigger] rest[i]) by {
            assert(rest[i] == text[i + 1]);
        }
        lemma_first_gap_end_is(rest, k - 1);
    } else {
        if k > 0 {
            assert(is_space(text[0]));
        }
    }
}

/// `trimmed_end` keeps the first `k` characters when the `k`-th is the last
/// one that is not white space.
pub proof fn lemma_trimmed_end_is(text: Seq<char>, k: int)
    requires
        0 <= k <= text.len(),
        forall|i: int| k <= i < text.len() ==> is_space(#[trigger] text[i]),
        k > 0 ==> !is_space(text[k - 1]),
    ensures
        trimmed_end(text) == text.take(k),
    decreases text.len(),
{
    if text.len() > 0 && is_space(text.last()) {
        let rest = text.drop_last();
        assert forall|i: int| k <= i < rest.len() implies is_space(#[trigger] rest[i]) by {
            assert(rest[i] == text[i]);
        }
        lemma_trimmed_end_is(rest, k);
        assert(rest.take(k) =~= text.take(k));
    } else {
        if k < text.len() {
            assert(is_space(text[text.len() - 1]));
        }
        assert(text.take(k) =~= text);
    }
}

/// The characters of a string, in order.
pub fn to_chars(s: &str) -> (v: Vec<char>)
    ensures
        v@ == s@,
{
    let mut v: Vec<char> = Vec::new();
    for c in it: s.chars()
        invariant
            it.seq() == s@,
            v@ == s@.take(it.index() as int),
    {
        v.push(c);
        assert(s@.take(it.index() + 1) =~= s@.take(it.index() as int).push(s@[it.index() as int]));
    }
    assert(s@.take(s@.len() as int) =~= s@);
    v
}

/// A string holding the given characters, in order.
pub fn to_text(v: &Vec<char>) -> (s: String)
    ensures
        s@ == v@,
{
    let mut s = String::new();
    let mut i: usize = 0;
    while i < v.len()
        invariant
            i <= v.len(),
            s@ == v@.take(i as int),
        decreases v.len() - i,
    {
        s.push(v[i]);
        assert(v@.take(i + 1) =~= v@.take(i as int).push(v@[i as int]));
        i += 1;
    }
    assert(v@.take(v@.len() as int) =~= v@);
    s
}

/// Adding an item to a list adds its view to the views.
pub proof fn lemma_views_push<T: View>(items: Seq<T>, item: T)
    ensures
        views(items.push(item)) == views(items).push(item@),
{
    assert(views(items.push(item)) =~= views(items).push(item@));
}

/// The given texts as strings.
pub fn to_strings(lines: &Vec<Vec<char>>) -> (r: Vec<String>)
    ensures
        views(r@) == views(lines@),
{
    let mut r: Vec<String> = Vec::new();
    let mut i: usize = 0;
    while i < lines.len()
        invariant
            i <= lines.len(),
            r.len() == i,
            views(r@) == views(lines@).take(i as int),
        decreases lines.len() - i,
    {
        let ghost before = r@;
        r.push(to_text(&lines[i]));
        assert forall|j: int| 0 <= j <= i implies views(r@)[j] == views(lines@)[j] by {
            if j < i {
                assert(views(r@)[j] == views(before)[j]);
            }
        }
        assert(views(r@) =~= views(lines@).take(i + 1));
        i += 1;
    }
    assert(views(lines@).take(lines@.len() as int) =~= views(lines@));
    r
}

/// The characters of each of the given strings.
pub fn to_char_lists(lines: &Vec<String>) -> (r: Vec<Vec<char>>)
    ensures
        views(r@) == views(lines@),
{
    let mut r: Vec<Vec<char>> = Vec::new();
    let mut i: usize = 0;
    while i < lines.len()
        invariant
            i <= lines.len(),
            r.len() == i,
            views(r@) == views(lines@).take(i as int),
        decreases lines.len() - i,
    {
        let ghost before = r@;
        r.push(to_chars(lines[i].as_str()));
        assert forall|j: int| 0 <= j <= i implies views(r@)[j] == views(lines@)[j] by {
            if j < i {
                assert(views(r@)[j] == views(before)[j]);
            }
        }
        assert(views(r@) =~= views(lines@).take(i + 1));
        i += 1;
    }
    assert(views(lines@).take(lines@.len() as int) =~= views(lines@));
    r
}

/// The characters of `text` from index `from` up to, not including, `to`.
pub fn slice(text: &Vec<char>, from: usize, to: usize) -> (part: Vec<char>)
    requires
        from <= to <= text.len(),
    ensures
        part@ == text@.subrange(from as int, to as int),
{
    let mut part: Vec<char> = Vec::new();
    let mut i: usize = from;
    while i < to
        invariant
            from <= i <= to <= text.len(),
            part@ == text@.subrange(from as int, i as int),
        decreases to - i,
    {
        part.push(text[i]);
        assert(text@.subrange(from as int, i + 1) =~= text@.subrange(from as int, i as int).push(
            text@[i as int],
        ));
        i += 1;
    }
    part
}

/// Adds the characters of `part` to the end of `text`.
pub fn append(text: &mut Vec<char>, part: &Vec<char>)
    ensures
        final(text)@ == old(text)@ + part@,
{
    let mut i: usize = 0;
    while i < part.len()
        invariant
            i <= part.len(),
            text@ == old(text)@ + part@.take(i as int),
        decreases part.len() - i,
    {
        text.push(part[i]);
        assert(part@.take(i + 1) =~= part@.take(i as int).push(part@[i as int]));
        assert(text@ =~= old(text)@ + part@.take(i + 1));
        i += 1;
    }
    assert(part@.take(part@.len() as int) =~= part@);
}

/// Whether two texts hold the same characters.
pub fn same_text(a: &Vec<char>, b: &Vec<char>) -> (r: bool)
    ensures
        r == (a@ == b@),
{
    if a.len() != b.len() {
        return false;
    }
    let mut i: usize = 0;
    while i < a.len()
        invariant
            i <= a.len(),
            a.len() == b.len(),
            forall|j: int| 0 <= j < i ==> a@[j] == b@[j],
        decreases a.len() - i,
    {
        if a[i] != b[i] {
            return false;
        }
        i += 1;
    }
    assert(a@ =~= b@);
    true
}

/// Whether `text` holds, from index `at` on, the characters of `part`.
pub fn has_at(text: &Vec<char>, at: usize, part: &Vec<char>) -> (r: bool)
    requires
        at <= text.len(),
    ensures
        r == part@.is_prefix_of(text@.skip(at as int)),
{
    if part.len() > text.len() - at {
        return false;
    }
    let mut i: usize = 0;
    while i < part.len()
        invariant
            i <= part.len(),
            at + part.len() <= text.len(),
            forall|j: int| 0 <= j < i ==> part@[j] == text@[at + j],
        decreases part.len() - i,
    {
        if part[i] != text[at + i] {
            assert(text@.skip(at as int)[i as int] == text@[at + i]);
            return false;
        }
        i += 1;
    }
    assert(part@ =~= text@.skip(at as int).subrange(0, part@.len() as int));
    true
}

/// Index of the first character at or after `from` that `delimiter` matches,
/// or the length of `text`.
pub fn find_break(text: &Vec<char>, from: usize, delimiter: Delimiter) -> (at: usize)
    requires
        from <= text.len(),
    ensures
        from <= at <= text.len(),
        at == from + first_break(text@.skip(from as int), delimiter),
{
    let mut at: usize = from;
    while at < text.len() && !delimiter.test(text[at])
        invariant
            from <= at <= text.len(),
            forall|j: int| from <= j < at ==> !delimiter.matches(#[trigger] text@[j]),
        decreases text.len() - at,
    {
        at += 1;
    }
    proof {
        let rest = text@.skip(from as int);
        assert forall|i: int| 0 <= i < at - from implies !delimiter.matches(#[trigger] rest[i]) by {
            assert(rest[i] == text@[from + i]);
        }
        lemma_first_break_is(rest, delimiter, at - from);
    }
    at
}

/// The text without the white space at either end.
pub fn trim(text: &Vec<char>) -> (r: Vec<char>)
    ensures
        r@ == trimmed(text@),
{
    let start = skip_spaces(text, 0);
    let mut end: usize = text.len();
    while end > start && text[end - 1].is_whitespace()
        invariant
            start <= end <= text.len(),
            forall|j: int| end <= j < text.len() ==> is_space(#[trigger] text@[j]),
        decreases end,
    {
        end -= 1;
    }
    proof {
        assert(text@.skip(0) =~= text@);
        let rest = text@.skip(start as int);
        assert forall|i: int| end - start <= i < rest.len() implies is_space(#[trigger] rest[i]) by {
            assert(rest[i] == text@[start + i]);
        }
        if end > start {
            assert(rest[end - start - 1] == text@[end - 1]);
        }
        lemma_trimmed_end_is(rest, end - start);
        assert(rest.take(end - start) =~= text@.subrange(start as int, end as int));
    }
    slice(text, start, end)
}

/// Index of the first character at or after `from` that is not white space,
/// or the length of `text`.
pub fn skip_spaces(text: &Vec<char>, from: usize) -> (at: usize)
    requires
        from <= text.len(),
    ensures
        from <= at <= text.len(),
        at == from + first_gap_end(text@.skip(from as int)),
{
    let mut at: usize = from;
    while at < text.len() && text[at].is_whitespace()
        invariant
            from <= at <= text.len(),
            forall|j: int| from <= j < at ==> is_space(#[trigger] text@[j]),
        decreases text.len() - at,
    {
        at += 1;
    }
    proof {
        let rest = text@.skip(from as int);
        assert forall|i: int| 0 <= i < at - from implies is_space(#[trigger] rest[i]) by {
            assert(rest[i] == text@[from + i]);
        }
        lemma_first_gap_end_is(rest, at - from);
    }
    at
}

} // verus!
