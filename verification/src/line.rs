//! Source lines: how a text is cut into lines, how a line is brought to its
//! normal form, and what kind of line it then is.

use vstd::prelude::*;
use vstd::string::*;
use crate::text::{
    find_break, first_break, lowercase_of, slice, to_chars, to_text, trim, trimmed, views,
    Delimiter,
};

verus! {

/// The kinds of line that the passes tell apart.
#[derive(Clone, Copy, Debug, PartialEq, Eq, Structural)]
pub enum LineKind {
    /// Nothing is left of the line once it is trimmed.
    Blank,
    /// The line starts with `//`.
    Comment,
    /// The line starts with `.` and declares a label.
    Label,
    /// The line starts with `@` and opens a macro definition.
    MacroHeader,
    /// The line is exactly `end` and closes a macro definition.
    MacroFooter,
    /// Anything else: an instruction or a macro invocation.
    Content,
}

/// A line of the source in normal form: trimmed and in lower case, with the
/// number it has in the source, counted from 1.
#[derive(Clone, Debug, PartialEq, Eq)]
pub struct SourceLine {
    pub text: String,
    pub number: usize,
}

/// What a `SourceLine` stands for.
pub struct LineView {
    pub text: Seq<char>,
    pub number: nat,
}

impl View for SourceLine {
    type V = LineView;

    open spec fn view(&self) -> LineView {
        LineView { text: self.text@, number: self.number as nat }
    }
}

/// The kind of a line in normal form.
pub open spec fn kind_of(text: Seq<char>) -> LineKind {
    if text.len() == 0 {
        LineKind::Blank
    } else if text.len() >= 2 && text[0] == '/' && text[1] == '/' {
        LineKind::Comment
    } else if text[0] == '.' {
        LineKind::Label
    } else if text[0] == '@' {
        LineKind::MacroHeader
    } else if text == seq!['e', 'n', 'd'] {
        LineKind::MacroFooter
    } else {
        LineKind::Content
    }
}

/// `line` without the carriage return at its end, if it has one.
pub open spec fn without_return(line: Seq<char>) -> Seq<char> {
    if line.len() > 0 && line.last() == '\r' {
        line.drop_last()
    } else {
        line
    }
}

/// The lines of a text. A line ends at a line feed, or at a carriage return
/// directly followed by one; neither belongs to the line. What follows the
/// last line feed is a line of its own unless it is empty.
pub open spec fn raw_lines(text: Seq<char>) -> Seq<Seq<char>>
    decreases text.len(),
{
    let at = first_break(text, Delimiter::Char('\n'));
    if text.len() == 0 {
        Seq::empty()
    } else if 0 <= at < text.len() {
        seq![without_return(text.take(at))] + raw_lines(text.skip(at + 1))
    } else {
        seq![text]
    }
}

/// The normal form of a line: trimmed, then put in lower case.
pub open spec fn normal_form(raw: Seq<char>) -> Seq<char> {
    lowercase_of(trimmed(raw))
}

/// The lines in normal form, numbered from 1.
pub open spec fn numbered(raw: Seq<Seq<char>>) -> Seq<LineView> {
    Seq::new(raw.len(), |i: int| LineView { text: normal_form(raw[i]), number: (i + 1) as nat })
}

/// The lines of a source text, each in normal form and with its number.
pub open spec fn source_lines(text: Seq<char>) -> Seq<LineView> {
    numbered(raw_lines(text))
}

/// Tells what kind of line the characters make.
pub fn classify_chars(text: &Vec<char>) -> (kind: LineKind)
    ensures
        kind == kind_of(text@),
{
    if text.len() == 0 {
        LineKind::Blank
    } else if text.len() >= 2 && text[0] == '/' && text[1] == '/' {
        LineKind::Comment
    } else if text[0] == '.' {
        LineKind::Label
    } else if text[0] == '@' {
        LineKind::MacroHeader
    } else if text.len() == 3 && text[0] == 'e' && text[1] == 'n' && text[2] == 'd' {
        assert(text@ =~= seq!['e', 'n', 'd']);
        LineKind::MacroFooter
    } else {
        assert(seq!['e', 'n', 'd'].len() == 3);
        assert(seq!['e', 'n', 'd'][0] == 'e' && seq!['e', 'n', 'd'][1] == 'n' && seq![
            'e',
            'n',
            'd',
        ][2] == 'd');
        LineKind::Content
    }
}

/// Tells what kind of line a text in normal form is.
pub fn classify(text: &str) -> (kind: LineKind)
    ensures
        kind == kind_of(text@),
{
    let chars = to_chars(text);
    classify_chars(&chars)
}

impl SourceLine {
    /// The kind of this line.
    pub fn kind(&self) -> (kind: LineKind)
        ensures
            kind == kind_of(self@.text),
    {
        classify(self.text.as_str())
    }

    /// A copy of this line.
    pub fn duplicate(&self) -> (copy: SourceLine)
        ensures
            copy@ == self@,
    {
        SourceLine { text: self.text.clone(), number: self.number }
    }
}

/// Cuts a source text into lines, trims each, puts it in lower case and
/// numbers it.
pub fn normalize(source: &str) -> (lines: Vec<SourceLine>)
    ensures
        views(lines@) == source_lines(source@),
{
    let chars = to_chars(source);
    let mut lines: Vec<SourceLine> = Vec::new();
    let ghost mut raw: Seq<Seq<char>> = Seq::empty();
    let mut from: usize = 0;
    proof {
        assert(chars@.skip(0) =~= chars@);
        assert(raw + raw_lines(chars@) =~= raw_lines(chars@));
        assert(views(lines@) =~= numbered(raw));
    }
    while from < chars.len()
        invariant
            from <= chars.len(),
            lines.len() <= from,
            raw.len() == lines.len(),
            raw_lines(chars@) == raw + raw_lines(chars@.skip(from as int)),
            views(lines@) == numbered(raw),
        decreases chars.len() - from,
    {
        let ghost rest = chars@.skip(from as int);
        let at = find_break(&chars, from, Delimiter::Char('\n'));
        let mut end: usize = at;
        if at < chars.len() && at > from && chars[at - 1] == '\r' {
            end = at - 1;
        }
        let piece = slice(&chars, from, end);
        let text = to_text(&trim(&piece)).as_str().to_lowercase();
        let ghost before = lines@;
        lines.push(SourceLine { text, number: lines.len() + 1 });
        proof {
            assert(rest.take(at - from) =~= chars@.subrange(from as int, at as int));
            if at < chars.len() {
                assert(rest.skip(at - from + 1) =~= chars@.skip(at + 1));
                if at > from {
                    assert(rest.take(at - from).last() == chars@[at - 1]);
                }
                assert(without_return(rest.take(at - from)) =~= piece@);
                assert(raw_lines(chars@) =~= raw.push(piece@) + raw_lines(chars@.skip(at + 1)));
            } else {
                assert(rest.take(at - from) =~= rest);
                assert(chars@.skip(chars@.len() as int) =~= Seq::<char>::empty());
                assert(raw_lines(chars@) =~= raw.push(piece@) + raw_lines(
                    chars@.skip(chars@.len() as int),
                ));
            }
            assert forall|i: int| 0 <= i < lines@.len() implies views(lines@)[i] == numbered(
                raw.push(piece@),
            )[i] by {
                if i < before.len() {
                    assert(views(lines@)[i] == views(before)[i]);
                    assert(raw.push(piece@)[i] == raw[i]);
                }
            }
            assert(views(lines@) =~= numbered(raw.push(piece@)));
            raw = raw.push(piece@);
        }
        if at < chars.len() {
            from = at + 1;
        } else {
            from = at;
        }
    }
    proof {
        assert(chars@.skip(from as int) =~= Seq::<char>::empty());
        assert(raw + raw_lines(Seq::<char>::empty()) =~= raw);
    }
    lines
}

} // verus!
