//! When an invocation leaves nothing but instructions.
//!
//! A macro body is taken as it is written and the arguments of an invocation
//! are put in as they are, so not every invocation gives instructions: a
//! body line may be no instruction, an argument may itself hold a `%`, and a
//! body may name a parameter that the header does not declare. This module
//! says of which invocations the result is sure, and proves it.

use vstd::prelude::*;
use vstd::string::*;
use crate::assembler::expanded_lines;
use crate::expand::{
    argument_text, expanded, expansion, instructions_of, invoked, leading_token, lookup,
    EmittedView,
};
use crate::laws::{expansion_is_a_fixed_point, instruction_line, renumbered};
use crate::line::{kind_of, LineKind, LineView};
use crate::macro_table::{macro_table, MacroView};
use crate::mnemonic::is_reserved;
use crate::substitution::{entries, has_prefix, replaced, substituted, substituted_through};
use crate::text::{first_break, lemma_first_break, lemma_first_break_is, Delimiter};

verus! {

/// Whether `text` holds no `%`.
pub open spec fn free_of_marks(text: Seq<char>) -> bool {
    forall|i: int| 0 <= i < text.len() ==> #[trigger] text[i] != '%'
}

/// Whether a parameter holds a `%` at its start and nowhere else.
pub open spec fn simple_parameter(parameter: Seq<char>) -> bool {
    has_prefix(parameter) && free_of_marks(parameter.skip(1))
}

/// Whether every `%` in `text` begins one of the parameters from position
/// `from` on.
pub open spec fn marks_bound(text: Seq<char>, parameters: Seq<Seq<char>>, from: int) -> bool {
    forall|i: int|
        0 <= i < text.len() && #[trigger] text[i] == '%' ==> exists|k: int|
            from <= k < parameters.len() && (#[trigger] parameters[k]).is_prefix_of(text.skip(i))
}

/// Whether a body line is a template of an instruction: it is an
/// instruction, the white space that ends its mnemonic is no `%`, and every
/// `%` in it begins a parameter.
pub open spec fn template_line(text: Seq<char>, parameters: Seq<Seq<char>>) -> bool {
    let at = first_break(text, Delimiter::Space);
    &&& instruction_line(text)
    &&& 0 <= at < text.len() ==> text[at] != '%'
    &&& marks_bound(text, parameters, 0)
}

/// A mnemonic is not empty, holds none of the characters that mark another
/// kind of line or a parameter, and does not begin like `end`.
pub proof fn lemma_reserved_letters(token: Seq<char>)
    requires
        is_reserved(token),
    ensures
        token.len() >= 2,
        free_of_marks(token),
        token[0] != '/' && token[0] != '.' && token[0] != '@' && token[0] != 'e',
{
    reveal_strlit("ldr");
    reveal_strlit("lda");
    reveal_strlit("ldi");
    reveal_strlit("st");
    reveal_strlit("add");
    reveal_strlit("adc");
    reveal_strlit("sub");
    reveal_strlit("or");
    reveal_strlit("and");
    reveal_strlit("xor");
    reveal_strlit("not");
    reveal_strlit("lsl");
    reveal_strlit("lsr");
    reveal_strlit("cmp");
    reveal_strlit("breq");
    reveal_strlit("brne");
    reveal_strlit("brgt");
    reveal_strlit("brlt");
    reveal_strlit("brge");
    reveal_strlit("brle");
    reveal_strlit("jmp");
    reveal_strlit("out");
    reveal_strlit("in");
    reveal_strlit("nop");
    reveal_strlit("halt");
}

/// Replacing leaves alone what stands before the first character that
/// could begin an occurrence.
pub proof fn lemma_replaced_keeps_start(text: Seq<char>, from: Seq<char>, to: Seq<char>, n: int)
    requires
        from.len() > 0,
        0 <= n <= text.len(),
        forall|i: int| 0 <= i < n ==> #[trigger] text[i] != from[0],
    ensures
        replaced(text, from, to).len() >= n,
        replaced(text, from, to).take(n) == text.take(n),
        n == text.len() ==> replaced(text, from, to) == text,
    decreases n,
{
    if n > 0 {
        let rest = text.skip(1);
        assert(!from.is_prefix_of(text)) by {
            if from.is_prefix_of(text) {
                assert(text.subrange(0, from.len() as int)[0] == from[0]);
                assert(text[0] != from[0]);
            }
        }
        assert forall|i: int| 0 <= i < n - 1 implies #[trigger] rest[i] != from[0] by {
            assert(rest[i] == text[i + 1]);
        }
        lemma_replaced_keeps_start(rest, from, to, n - 1);
        let tail = replaced(rest, from, to);
        assert(replaced(text, from, to) == seq![text[0]] + tail);
        assert forall|i: int| 0 <= i < n implies (seq![text[0]] + tail)[i] == text[i] by {
            if i > 0 {
                assert(tail.take(n - 1)[i - 1] == rest.take(n - 1)[i - 1]);
            }
        }
        assert((seq![text[0]] + tail).take(n) =~= text.take(n));
        if n == text.len() {
            assert(seq![text[0]] + rest =~= text);
        }
    } else {
        assert(replaced(text, from, to).take(0) =~= text.take(0));
    }
}

/// What is bound in a text is bound in what is left of it from any index on.
proof fn lemma_marks_bound_skip(text: Seq<char>, parameters: Seq<Seq<char>>, from: int, n: int)
    requires
        0 <= n <= text.len(),
        marks_bound(text, parameters, from),
    ensures
        marks_bound(text.skip(n), parameters, from),
{
    let rest = text.skip(n);
    assert forall|i: int| 0 <= i < rest.len() && #[trigger] rest[i] == '%' implies exists|k: int|
        from <= k < parameters.len() && (#[trigger] parameters[k]).is_prefix_of(rest.skip(i)) by {
        assert(text[n + i] == '%');
        let k = choose|k: int|
            from <= k < parameters.len() && (#[trigger] parameters[k]).is_prefix_of(
                text.skip(n + i),
            );
        assert(rest.skip(i) =~= text.skip(n + i));
    }
}

/// What is bound in a text is bound behind any lead that holds no `%`.
proof fn lemma_marks_bound_lead(
    lead: Seq<char>,
    text: Seq<char>,
    parameters: Seq<Seq<char>>,
    from: int,
)
    requires
        free_of_marks(lead),
        marks_bound(text, parameters, from),
    ensures
        marks_bound(lead + text, parameters, from),
{
    let whole = lead + text;
    assert forall|i: int| 0 <= i < whole.len() && #[trigger] whole[i] == '%' implies exists|k: int|
        from <= k < parameters.len() && (#[trigger] parameters[k]).is_prefix_of(whole.skip(i)) by {
        if i < lead.len() {
            assert(lead[i] != '%');
        } else {
            assert(text[i - lead.len()] == '%');
            let k = choose|k: int|
                from <= k < parameters.len() && (#[trigger] parameters[k]).is_prefix_of(
                    text.skip(i - lead.len()),
                );
            assert(whole.skip(i) =~= text.skip(i - lead.len()));
        }
    }
}

/// Replacing parameter `k` by a text without `%` leaves every `%` at the
/// start of a later parameter.
pub proof fn lemma_replaced_binds_marks(
    text: Seq<char>,
    parameters: Seq<Seq<char>>,
    k: int,
    to: Seq<char>,
)
    requires
        0 <= k < parameters.len(),
        forall|j: int| 0 <= j < parameters.len() ==> simple_parameter(#[trigger] parameters[j]),
        free_of_marks(to),
        marks_bound(text, parameters, k),
    ensures
        marks_bound(replaced(text, parameters[k], to), parameters, k + 1),
    decreases text.len(),
{
    let from = parameters[k];
    assert(simple_parameter(from));
    if from.is_prefix_of(text) {
        let rest = text.skip(from.len() as int);
        lemma_marks_bound_skip(text, parameters, k, from.len() as int);
        lemma_replaced_binds_marks(rest, parameters, k, to);
        lemma_marks_bound_lead(to, replaced(rest, from, to), parameters, k + 1);
    } else if text.len() > 0 {
        let rest = text.skip(1);
        let tail = replaced(rest, from, to);
        let whole = seq![text[0]] + tail;
        lemma_marks_bound_skip(text, parameters, k, 1);
        lemma_replaced_binds_marks(rest, parameters, k, to);
        assert forall|i: int| 0 <= i < whole.len() && #[trigger] whole[i] == '%' implies exists|
            j: int,
        |
            k + 1 <= j < parameters.len() && (#[trigger] parameters[j]).is_prefix_of(
                whole.skip(i),
            ) by {
            if i > 0 {
                assert(tail[i - 1] == '%');
                let j = choose|j: int|
                    k + 1 <= j < parameters.len() && (#[trigger] parameters[j]).is_prefix_of(
                        tail.skip(i - 1),
                    );
                assert(whole.skip(i) =~= tail.skip(i - 1));
            } else {
                assert(text[0] == '%');
                let j = choose|j: int|
                    k <= j < parameters.len() && (#[trigger] parameters[j]).is_prefix_of(
                        text.skip(0),
                    );
                let q = parameters[j];
                assert(text.skip(0) =~= text);
                assert(simple_parameter(q));
                let n = q.len() - 1;
                assert forall|x: int| 0 <= x < n implies #[trigger] rest[x] != from[0] by {
                    assert(rest[x] == text.subrange(0, q.len() as int)[x + 1]);
                    assert(q.skip(1)[x] == q[x + 1]);
                }
                lemma_replaced_keeps_start(rest, from, to, n);
                assert forall|x: int| 0 <= x < q.len() implies q[x] == whole[x] by {
                    if x > 0 {
                        assert(tail.take(n)[x - 1] == rest.take(n)[x - 1]);
                        assert(rest[x - 1] == text.subrange(0, q.len() as int)[x]);
                    } else {
                        assert(text.subrange(0, q.len() as int)[0] == q[0]);
                    }
                }
                assert(whole.skip(0) =~= whole);
                assert(q =~= whole.subrange(0, q.len() as int));
                assert(q.is_prefix_of(whole.skip(0)));
            }
        }
    }
}

/// Replacing the first `count` parameters by arguments without `%` leaves
/// every `%` at the start of a later parameter, and leaves alone what
/// stands before the first `%`.
pub proof fn lemma_substituted_binds_marks(
    text: Seq<char>,
    parameters: Seq<Seq<char>>,
    arguments: Seq<Seq<char>>,
    count: nat,
    n: int,
)
    requires
        count <= parameters.len() == arguments.len(),
        forall|j: int| 0 <= j < parameters.len() ==> simple_parameter(#[trigger] parameters[j]),
        forall|j: int| 0 <= j < arguments.len() ==> free_of_marks(#[trigger] arguments[j]),
        marks_bound(text, parameters, 0),
        0 <= n <= text.len(),
        forall|i: int| 0 <= i < n ==> #[trigger] text[i] != '%',
    ensures
        marks_bound(
            substituted_through(text, parameters, arguments, count),
            parameters,
            count as int,
        ),
        substituted_through(text, parameters, arguments, count).len() >= n,
        substituted_through(text, parameters, arguments, count).take(n) == text.take(n),
        n == text.len() ==> substituted_through(text, parameters, arguments, count) == text,
    decreases count,
{
    if count > 0 {
        let before = substituted_through(text, parameters, arguments, (count - 1) as nat);
        lemma_substituted_binds_marks(text, parameters, arguments, (count - 1) as nat, n);
        let from = parameters[count - 1];
        let to = arguments[count - 1];
        assert(simple_parameter(from));
        assert(free_of_marks(to));
        lemma_replaced_binds_marks(before, parameters, count - 1, to);
        assert forall|i: int| 0 <= i < n implies #[trigger] before[i] != from[0] by {
            assert(before.take(n)[i] == text.take(n)[i]);
            assert(text[i] != '%');
        }
        lemma_replaced_keeps_start(before, from, to, n);
        let after = replaced(before, from, to);
        assert(after.take(n) =~= text.take(n));
        if n == text.len() {
            assert(before == text);
            assert(after == text);
        }
    } else {
        assert(text.take(n) =~= text.take(n));
    }
}

/// An invocation with the right number of arguments leaves only
/// instructions, and no `%`, where it is written with care.
///
/// That is: each parameter of the macro holds `%` at its start and nowhere
/// else, no argument holds a `%`, and the body line is a template of an
/// instruction. The line that it gives is then an instruction with the
/// mnemonic of the body line: it is no label, no macro header, no `end`,
/// no comment and not blank, and no `%` is left in it.
pub proof fn hygienic_invocation_yields_instructions(
    m: MacroView,
    line: LineView,
    file: Seq<char>,
    i: int,
)
    requires
        invoked(m, line, file) is Ok,
        0 <= i < m.body.len(),
        forall|j: int| 0 <= j < m.parameters.len() ==> simple_parameter(#[trigger] m.parameters[j]),
        forall|j: int|
            0 <= j < entries(argument_text(line.text)).len() ==> free_of_marks(
                #[trigger] entries(argument_text(line.text))[j],
            ),
        template_line(m.body[i], m.parameters),
    ensures
        invoked(m, line, file)->Ok_0.len() == m.body.len(),
        invoked(m, line, file)->Ok_0[i] is Instruction,
        instruction_line(invoked(m, line, file)->Ok_0[i]->Instruction_0),
        leading_token(invoked(m, line, file)->Ok_0[i]->Instruction_0) == leading_token(m.body[i]),
        free_of_marks(invoked(m, line, file)->Ok_0[i]->Instruction_0),
{
    let arguments = entries(argument_text(line.text));
    let body = m.body[i];
    let out = substituted(body, m.parameters, arguments);
    assert(invoked(m, line, file)->Ok_0[i] == EmittedView::Instruction(out));
    let at = first_break(body, Delimiter::Space);
    let token = leading_token(body);
    lemma_first_break(body, Delimiter::Space);
    lemma_reserved_letters(token);
    let n = if at < body.len() {
        at + 1
    } else {
        at
    };
    assert forall|x: int| 0 <= x < n implies #[trigger] body[x] != '%' by {
        if x < at {
            assert(token[x] != '%');
        }
    }
    lemma_substituted_binds_marks(body, m.parameters, arguments, m.parameters.len(), n);
    assert(free_of_marks(out)) by {
        assert forall|x: int| 0 <= x < out.len() implies #[trigger] out[x] != '%' by {}
    }
    assert forall|x: int| 0 <= x < n implies out[x] == body[x] by {
        assert(out.take(n)[x] == body.take(n)[x]);
    }
    assert forall|x: int| 0 <= x < at implies !Delimiter::Space.matches(#[trigger] out[x]) by {
        assert(out[x] == body[x]);
    }
    lemma_first_break_is(out, Delimiter::Space, at);
    assert(leading_token(out) =~= token);
    assert(out[0] == token[0]);
    assert(seq!['e', 'n', 'd'][0] == 'e');
}

/// Whether a macro is written with care: each parameter holds `%` at its
/// start and nowhere else, and each body line is a template of an
/// instruction.
pub open spec fn hygienic_macro(m: MacroView) -> bool {
    &&& forall|j: int| 0 <= j < m.parameters.len() ==> simple_parameter(#[trigger] m.parameters[j])
    &&& forall|i: int| 0 <= i < m.body.len() ==> template_line(#[trigger] m.body[i], m.parameters)
}

/// Whether a line of the residual source, if it invokes a macro, invokes
/// one that is written with care, with arguments that hold no `%`.
pub open spec fn hygienic_line(macros: Seq<MacroView>, text: Seq<char>) -> bool {
    kind_of(text) == LineKind::Content && !is_reserved(leading_token(text)) ==> match lookup(
        macros,
        leading_token(text),
    ) {
        Some(m) => hygienic_macro(m) && forall|j: int|
            0 <= j < entries(argument_text(text)).len() ==> free_of_marks(
                #[trigger] entries(argument_text(text))[j],
            ),
        None => true,
    }
}

/// The instructions of two streams, one after the other, are those of the
/// first and then those of the second.
pub proof fn lemma_instructions_add(a: Seq<EmittedView>, b: Seq<EmittedView>)
    ensures
        instructions_of(a + b) == instructions_of(a) + instructions_of(b),
    decreases b.len(),
{
    if b.len() == 0 {
        assert(a + b =~= a);
        assert(instructions_of(a) + instructions_of(b) =~= instructions_of(a));
    } else {
        assert((a + b).drop_last() =~= a + b.drop_last());
        assert((a + b).last() == b.last());
        lemma_instructions_add(a, b.drop_last());
        match b.last() {
            EmittedView::Instruction(text) => {
                assert(instructions_of(a + b) =~= instructions_of(a) + instructions_of(b));
            },
            EmittedView::Label(_) => {},
        }
    }
}

/// Where a stream holds instructions only, they are its lines.
pub proof fn lemma_instructions_all(stream: Seq<EmittedView>)
    requires
        forall|i: int| 0 <= i < stream.len() ==> #[trigger] stream[i] is Instruction,
    ensures
        instructions_of(stream).len() == stream.len(),
        forall|i: int|
            0 <= i < stream.len() ==> #[trigger] instructions_of(stream)[i]
                == stream[i]->Instruction_0,
    decreases stream.len(),
{
    if stream.len() > 0 {
        let before = stream.drop_last();
        assert forall|i: int| 0 <= i < before.len() implies #[trigger] before[i] is Instruction by {
            assert(before[i] == stream[i]);
        }
        lemma_instructions_all(before);
        assert(stream[stream.len() - 1] is Instruction);
        assert forall|i: int| 0 <= i < stream.len() implies #[trigger] instructions_of(stream)[i]
            == stream[i]->Instruction_0 by {
            if i < before.len() {
                assert(instructions_of(before)[i] == before[i]->Instruction_0);
            }
        }
    }
}

/// What a line gives is instructions only, where the line is hygienic.
pub proof fn lemma_hygienic_expansion(macros: Seq<MacroView>, line: LineView, file: Seq<char>)
    requires
        expansion(macros, line, file) is Ok,
        hygienic_line(macros, line.text),
    ensures
        forall|k: int|
            0 <= k < instructions_of(expansion(macros, line, file)->Ok_0).len()
                ==> instruction_line(
                #[trigger] instructions_of(expansion(macros, line, file)->Ok_0)[k],
            ),
{
    let out = expansion(macros, line, file)->Ok_0;
    let token = leading_token(line.text);
    if kind_of(line.text) == LineKind::Label {
        assert(out.drop_last() =~= Seq::<EmittedView>::empty());
        assert(instructions_of(out.drop_last()) =~= Seq::<Seq<char>>::empty());
        assert(instructions_of(out) =~= Seq::<Seq<char>>::empty());
    } else if kind_of(line.text) == LineKind::Content {
        if is_reserved(token) {
            assert(out.drop_last() =~= Seq::<EmittedView>::empty());
            assert(instructions_of(out.drop_last()) =~= Seq::<Seq<char>>::empty());
            assert(instructions_of(out) =~= seq![line.text]);
        } else {
            let m = lookup(macros, token)->Some_0;
            assert(out == invoked(m, line, file)->Ok_0);
            lemma_instructions_all(out);
            assert forall|k: int| 0 <= k < instructions_of(out).len() implies instruction_line(
                #[trigger] instructions_of(out)[k],
            ) by {
                assert(template_line(m.body[k], m.parameters));
                hygienic_invocation_yields_instructions(m, line, file, k);
                assert(instructions_of(out)[k] == out[k]->Instruction_0);
            }
        }
    } else {
        assert(instructions_of(out) =~= Seq::<Seq<char>>::empty());
    }
}

/// A program whose invocations are all hygienic expands to instructions
/// only: every line of the output is a content line that begins with a
/// reserved mnemonic.
pub proof fn hygienic_program_yields_instructions(
    macros: Seq<MacroView>,
    lines: Seq<LineView>,
    file: Seq<char>,
)
    requires
        expanded(macros, lines, file) is Ok,
        forall|i: int| 0 <= i < lines.len() ==> hygienic_line(macros, #[trigger] lines[i].text),
    ensures
        forall|k: int|
            0 <= k < instructions_of(expanded(macros, lines, file)->Ok_0).len()
                ==> instruction_line(
                #[trigger] instructions_of(expanded(macros, lines, file)->Ok_0)[k],
            ),
    decreases lines.len(),
{
    if lines.len() > 0 {
        let before = lines.drop_last();
        assert forall|i: int| 0 <= i < before.len() implies hygienic_line(
            macros,
            #[trigger] before[i].text,
        ) by {
            assert(before[i] == lines[i]);
        }
        hygienic_program_yields_instructions(macros, before, file);
        assert(hygienic_line(macros, lines[lines.len() - 1].text));
        lemma_hygienic_expansion(macros, lines.last(), file);
        let first = expanded(macros, before, file)->Ok_0;
        let more = expansion(macros, lines.last(), file)->Ok_0;
        lemma_instructions_add(first, more);
        let all = instructions_of(first + more);
        assert forall|k: int| 0 <= k < all.len() implies instruction_line(#[trigger] all[k]) by {
            if k < instructions_of(first).len() {
                assert(all[k] == instructions_of(first)[k]);
            } else {
                assert(all[k] == instructions_of(more)[k - instructions_of(first).len()]);
            }
        }
    }
}

/// Expanding the output of a program whose invocations are all hygienic
/// changes nothing.
pub proof fn hygienic_expansion_is_a_fixed_point(lines: Seq<LineView>, file: Seq<char>)
    requires
        expanded_lines(lines, file) is Ok,
        forall|i: int|
            0 <= i < macro_table(lines, file)->Ok_0.residual.len() ==> hygienic_line(
                macro_table(lines, file)->Ok_0.macros,
                #[trigger] macro_table(lines, file)->Ok_0.residual[i].text,
            ),
    ensures
        expanded_lines(renumbered(expanded_lines(lines, file)->Ok_0), file) == expanded_lines(
            lines,
            file,
        ),
{
    let table = macro_table(lines, file)->Ok_0;
    hygienic_program_yields_instructions(table.macros, table.residual, file);
    expansion_is_a_fixed_point(lines, file);
}

} // verus!
