//! Lines and the text that joins them: what cutting the text gives back,
//! and why replacing in the joined text is replacing line by line.

use vstd::prelude::*;
use crate::assembler::{expanded_lines, expanded_text};
use crate::expand::{argument_text, instructions_of, invoked, EmittedView};
use crate::format::joined;
use crate::hygiene::lemma_instructions_all;
use crate::laws::{expansion_is_a_fixed_point, instruction_line, renumbered};
use crate::line::{normal_form, numbered, raw_lines, source_lines, without_return, LineView};
use crate::macro_table::MacroView;
use crate::substitution::{entries, replaced, substituted, substituted_through};
use crate::text::{lemma_first_break_is, Delimiter};

verus! {

/// Whether `text` holds no line feed.
pub open spec fn free_of_breaks(text: Seq<char>) -> bool {
    forall|i: int| 0 <= i < text.len() ==> #[trigger] text[i] != '\n'
}

/// Whether a line, written out and read again, is the same line: it is not
/// empty, holds no line feed, does not end in a carriage return, and is in
/// normal form.
pub open spec fn reads_back(line: Seq<char>) -> bool {
    &&& line.len() > 0
    &&& free_of_breaks(line)
    &&& line.last() != '\r'
    &&& normal_form(line) == line
}

/// The lines, each with every occurrence of `from` replaced by `to`.
pub open spec fn each_replaced(lines: Seq<Seq<char>>, from: Seq<char>, to: Seq<char>) -> Seq<
    Seq<char>,
> {
    Seq::new(lines.len(), |i: int| replaced(lines[i], from, to))
}

/// The lines, each with the first `count` parameters replaced by their
/// arguments.
pub open spec fn each_substituted(
    lines: Seq<Seq<char>>,
    parameters: Seq<Seq<char>>,
    arguments: Seq<Seq<char>>,
    count: nat,
) -> Seq<Seq<char>> {
    Seq::new(lines.len(), |i: int| substituted_through(lines[i], parameters, arguments, count))
}

/// An occurrence of a text without line feeds lies on one side of a line
/// feed, so replacing it works on each side alone.
pub proof fn lemma_replaced_across_break(
    a: Seq<char>,
    b: Seq<char>,
    from: Seq<char>,
    to: Seq<char>,
)
    requires
        from.len() > 0,
        free_of_breaks(from),
    ensures
        replaced(a + seq!['\n'] + b, from, to) == replaced(a, from, to) + seq!['\n'] + replaced(
            b,
            from,
            to,
        ),
    decreases a.len(),
{
    let text = a + seq!['\n'] + b;
    assert(from[0] != '\n');
    if a.len() == 0 {
        assert(text[0] == '\n');
        assert(!from.is_prefix_of(text)) by {
            if from.is_prefix_of(text) {
                assert(text.subrange(0, from.len() as int)[0] == from[0]);
            }
        }
        assert(text.skip(1) =~= b);
        assert(replaced(a, from, to) =~= Seq::<char>::empty());
        assert(replaced(text, from, to) =~= replaced(a, from, to) + seq!['\n'] + replaced(
            b,
            from,
            to,
        ));
    } else if from.is_prefix_of(text) {
        let n = from.len() as int;
        if n > a.len() {
            assert(text.subrange(0, n)[a.len() as int] == from[a.len() as int]);
            assert(text[a.len() as int] == '\n');
            assert(from[a.len() as int] != '\n');
        }
        assert(from =~= a.subrange(0, n)) by {
            assert forall|i: int| 0 <= i < n implies from[i] == a.subrange(0, n)[i] by {
                assert(text.subrange(0, n)[i] == from[i]);
            }
        }
        assert(from.is_prefix_of(a));
        assert(text.skip(n) =~= a.skip(n) + seq!['\n'] + b);
        lemma_replaced_across_break(a.skip(n), b, from, to);
        assert(replaced(text, from, to) =~= replaced(a, from, to) + seq!['\n'] + replaced(
            b,
            from,
            to,
        ));
    } else {
        assert(!from.is_prefix_of(a)) by {
            if from.is_prefix_of(a) {
                assert(from =~= text.subrange(0, from.len() as int));
            }
        }
        assert(text.skip(1) =~= a.skip(1) + seq!['\n'] + b);
        assert(text[0] == a[0]);
        lemma_replaced_across_break(a.skip(1), b, from, to);
        assert(replaced(text, from, to) =~= replaced(a, from, to) + seq!['\n'] + replaced(
            b,
            from,
            to,
        ));
    }
}

/// Replacing in the joined lines is joining the lines after replacing in
/// each.
pub proof fn lemma_replaced_joined(lines: Seq<Seq<char>>, from: Seq<char>, to: Seq<char>)
    requires
        from.len() > 0,
        free_of_breaks(from),
    ensures
        replaced(joined(lines), from, to) == joined(each_replaced(lines, from, to)),
    decreases lines.len(),
{
    let after = each_replaced(lines, from, to);
    if lines.len() == 0 {
        assert(joined(after) =~= Seq::<char>::empty());
    } else if lines.len() == 1 {
    } else {
        lemma_replaced_joined(lines.drop_last(), from, to);
        lemma_replaced_across_break(joined(lines.drop_last()), lines.last(), from, to);
        assert(after.drop_last() =~= each_replaced(lines.drop_last(), from, to));
    }
}

/// Replacing the parameters in the joined lines is joining the lines after
/// replacing them in each: a parameter holds no line feed, so it never
/// reaches from one line into the next.
pub proof fn substitution_works_line_by_line(
    lines: Seq<Seq<char>>,
    parameters: Seq<Seq<char>>,
    arguments: Seq<Seq<char>>,
    count: nat,
)
    requires
        count <= parameters.len(),
        forall|k: int|
            0 <= k < parameters.len() ==> (#[trigger] parameters[k]).len() > 0 && free_of_breaks(
                parameters[k],
            ),
    ensures
        substituted_through(joined(lines), parameters, arguments, count) == joined(
            each_substituted(lines, parameters, arguments, count),
        ),
    decreases count,
{
    if count == 0 {
        assert(each_substituted(lines, parameters, arguments, count) =~= lines);
    } else {
        let before = each_substituted(lines, parameters, arguments, (count - 1) as nat);
        substitution_works_line_by_line(lines, parameters, arguments, (count - 1) as nat);
        let from = parameters[count - 1];
        let to = arguments[count - 1];
        assert(from.len() > 0 && free_of_breaks(from));
        lemma_replaced_joined(before, from, to);
        assert(each_replaced(before, from, to) =~= each_substituted(
            lines,
            parameters,
            arguments,
            count,
        ));
    }
}

/// What an invocation gives is the joined body of the macro with each
/// parameter in turn replaced, throughout, by its argument.
pub proof fn invocation_replaces_in_the_joined_body(m: MacroView, line: LineView, file: Seq<char>)
    requires
        invoked(m, line, file) is Ok,
        forall|k: int|
            0 <= k < m.parameters.len() ==> (#[trigger] m.parameters[k]).len() > 0
                && free_of_breaks(m.parameters[k]),
    ensures
        joined(instructions_of(invoked(m, line, file)->Ok_0)) == substituted(
            joined(m.body),
            m.parameters,
            entries(argument_text(line.text)),
        ),
{
    let arguments = entries(argument_text(line.text));
    let out = invoked(m, line, file)->Ok_0;
    lemma_instructions_all(out);
    assert(instructions_of(out) =~= each_substituted(
        m.body,
        m.parameters,
        arguments,
        m.parameters.len(),
    ));
    substitution_works_line_by_line(m.body, m.parameters, arguments, m.parameters.len());
}

/// A line that holds no line feed and a line feed behind it are cut off as
/// one line.
pub proof fn lemma_raw_lines_break(line: Seq<char>, rest: Seq<char>)
    requires
        free_of_breaks(line),
        line.len() == 0 || line.last() != '\r',
    ensures
        raw_lines(line + seq!['\n'] + rest) == seq![line] + raw_lines(rest),
{
    let text = line + seq!['\n'] + rest;
    let feed = Delimiter::Char('\n');
    assert forall|i: int| 0 <= i < line.len() implies !feed.matches(#[trigger] text[i]) by {
        assert(text[i] == line[i]);
    }
    assert(text[line.len() as int] == '\n');
    lemma_first_break_is(text, feed, line.len() as int);
    assert(text.take(line.len() as int) =~= line);
    assert(text.skip(line.len() as int + 1) =~= rest);
    assert(without_return(line) == line);
}

/// The joined lines are the first line, a line feed, and the other lines
/// joined.
pub proof fn lemma_joined_front(lines: Seq<Seq<char>>)
    requires
        lines.len() >= 2,
    ensures
        joined(lines) == lines[0] + seq!['\n'] + joined(lines.skip(1)),
    decreases lines.len(),
{
    let front = lines.drop_last();
    let back = lines.skip(1);
    if lines.len() == 2 {
        assert(joined(front) == lines[0]);
        assert(joined(back) == lines[1]);
    } else {
        lemma_joined_front(front);
        assert(front.skip(1) =~= back.drop_last());
        assert(back.last() == lines.last());
        assert(joined(lines) =~= lines[0] + seq!['\n'] + joined(back));
    }
}

/// Cutting the joined lines gives the lines back, where none is empty,
/// holds a line feed or ends in a carriage return.
pub proof fn lemma_raw_lines_joined(lines: Seq<Seq<char>>)
    requires
        forall|i: int|
            0 <= i < lines.len() ==> (#[trigger] lines[i]).len() > 0 && free_of_breaks(lines[i])
                && lines[i].last() != '\r',
    ensures
        raw_lines(joined(lines)) == lines,
    decreases lines.len(),
{
    if lines.len() == 0 {
        assert(lines =~= Seq::<Seq<char>>::empty());
    } else if lines.len() == 1 {
        let line = lines[0];
        let feed = Delimiter::Char('\n');
        assert forall|i: int| 0 <= i < line.len() implies !feed.matches(#[trigger] line[i]) by {}
        lemma_first_break_is(line, feed, line.len() as int);
        assert(seq![line] =~= lines);
    } else {
        let rest = lines.skip(1);
        assert forall|i: int| 0 <= i < rest.len() implies (#[trigger] rest[i]).len() > 0
            && free_of_breaks(rest[i]) && rest[i].last() != '\r' by {
            assert(rest[i] == lines[i + 1]);
        }
        lemma_raw_lines_joined(rest);
        lemma_joined_front(lines);
        lemma_raw_lines_break(lines[0], joined(rest));
        assert(seq![lines[0]] + rest =~= lines);
    }
}

/// Expanding the text of an expanded program again gives the same text.
///
/// This holds where every line of the output is an instruction that reads
/// back as itself. An output with a line that is no instruction is left
/// out, as is one with a line that trimming or lower-casing would change.
pub proof fn expanded_text_is_a_fixed_point(source: Seq<char>, file: Seq<char>)
    requires
        expanded_text(source, file) is Ok,
        forall|i: int|
            0 <= i < expanded_lines(source_lines(source), file)->Ok_0.len() ==> instruction_line(
                #[trigger] expanded_lines(source_lines(source), file)->Ok_0[i],
            ) && reads_back(expanded_lines(source_lines(source), file)->Ok_0[i]),
    ensures
        expanded_text(expanded_text(source, file)->Ok_0, file) == expanded_text(source, file),
{
    let out = expanded_lines(source_lines(source), file)->Ok_0;
    let text = joined(out);
    assert forall|i: int| 0 <= i < out.len() implies (#[trigger] out[i]).len() > 0
        && free_of_breaks(out[i]) && out[i].last() != '\r' by {
        assert(reads_back(out[i]));
    }
    lemma_raw_lines_joined(out);
    assert(numbered(out) =~= renumbered(out)) by {
        assert forall|i: int| 0 <= i < out.len() implies numbered(out)[i] == renumbered(out)[i] by {
            assert(reads_back(out[i]));
        }
    }
    assert forall|i: int| 0 <= i < out.len() implies instruction_line(#[trigger] out[i]) by {}
    expansion_is_a_fixed_point(source_lines(source), file);
}

} // verus!
