//! What holds of the passes whatever the source: the laws that the rest of
//! the library is proved to obey.

use vstd::prelude::*;
use crate::assembler::{
    assembled_lines, expanded_lines, expanded_text, texts_of, AssemblyView,
};
use crate::diagnostic::DiagnosticView;
use crate::expand::{expanded, expansion, instructions_of, leading_token, EmittedView};
use crate::format::joined;
use crate::label::{
    first_definition, instruction_count, label_count, label_name, labelled,
    lemma_instruction_count, LabelView,
};
use crate::line::{kind_of, source_lines, LineKind, LineView};
use crate::macro_table::{
    lemma_scanned_sound, macro_table, scanned, well_formed, BuilderView, StateView,
};
use crate::mnemonic::is_reserved;

verus! {

/// A label table has one entry for each label line of its stream.
pub proof fn lemma_labelled_len(stream: Seq<EmittedView>, file: Seq<char>)
    requires
        labelled(stream, file) is Ok,
    ensures
        labelled(stream, file)->Ok_0.len() == label_count(stream),
    decreases stream.len(),
{
    if stream.len() > 0 {
        lemma_labelled_len(stream.drop_last(), file);
    }
}

/// The instructions of the first `n` lines of a stream are the first
/// instructions of the stream.
pub proof fn lemma_instructions_prefix(stream: Seq<EmittedView>, n: int)
    requires
        0 <= n <= stream.len(),
    ensures
        instructions_of(stream.take(n)).is_prefix_of(instructions_of(stream)),
    decreases stream.len() - n,
{
    if n == stream.len() {
        assert(stream.take(n) =~= stream);
    } else {
        assert(stream.take(n + 1).drop_last() =~= stream.take(n));
        lemma_instructions_prefix(stream, n + 1);
    }
}

/// Each label's byte offset is four times the number of instructions that
/// stand before the label in the expanded stream.
///
/// If line `j` of the stream is a label line, the label table holds that
/// label at the position that counts the label lines before `j`, under the
/// name that the line declares, and with four times the number of
/// instructions before `j` as its offset. Those instructions are the first
/// instructions of the output, so the offset is the place of the
/// instruction that follows the label.
pub proof fn label_offsets_count_preceding_instructions(
    stream: Seq<EmittedView>,
    file: Seq<char>,
    j: int,
)
    requires
        labelled(stream, file) is Ok,
        0 <= j < stream.len(),
        stream[j] is Label,
    ensures
        ({
            let labels = labelled(stream, file)->Ok_0;
            let k = label_count(stream.take(j)) as int;
            &&& labels.len() == label_count(stream)
            &&& k < labels.len()
            &&& labels[k].name == label_name(stream[j]->Label_0.text)
            &&& labels[k].byte_offset == 4 * instructions_of(stream.take(j)).len()
            &&& instructions_of(stream.take(j)).is_prefix_of(instructions_of(stream))
        }),
    decreases stream.len(),
{
    let before = stream.drop_last();
    lemma_labelled_len(stream, file);
    lemma_labelled_len(before, file);
    lemma_instructions_prefix(stream, j);
    if j == stream.len() - 1 {
        assert(stream.take(j) =~= before);
        lemma_instruction_count(before);
    } else {
        assert(before.take(j) =~= stream.take(j));
        label_offsets_count_preceding_instructions(before, file, j);
    }
}

/// Whether a line is an instruction: a content line whose first word is a
/// reserved mnemonic.
pub open spec fn instruction_line(text: Seq<char>) -> bool {
    kind_of(text) == LineKind::Content && is_reserved(leading_token(text))
}

/// Whether a line may stand in a program without macros and labels: it is
/// blank, a comment, or an instruction.
pub open spec fn plain_line(text: Seq<char>) -> bool {
    kind_of(text) == LineKind::Blank || kind_of(text) == LineKind::Comment || instruction_line(
        text,
    )
}

/// The texts of the content lines among the given lines, in order.
pub open spec fn content_texts(lines: Seq<LineView>) -> Seq<Seq<char>>
    decreases lines.len(),
{
    if lines.len() == 0 {
        Seq::empty()
    } else if kind_of(lines.last().text) == LineKind::Content {
        content_texts(lines.drop_last()).push(lines.last().text)
    } else {
        content_texts(lines.drop_last())
    }
}

/// The given texts as lines, numbered from 1.
pub open spec fn renumbered(texts: Seq<Seq<char>>) -> Seq<LineView> {
    Seq::new(texts.len(), |i: int| LineView { text: texts[i], number: (i + 1) as nat })
}

/// The builder leaves a program without macro lines as it is: all of it is
/// residual source.
pub proof fn lemma_plain_scan(lines: Seq<LineView>, file: Seq<char>)
    requires
        forall|i: int| 0 <= i < lines.len() ==> plain_line(#[trigger] lines[i].text),
    ensures
        scanned(lines, file) == Ok::<BuilderView, DiagnosticView>(
            BuilderView { finished: Seq::empty(), residual: lines, state: StateView::Scanning },
        ),
    decreases lines.len(),
{
    if lines.len() > 0 {
        let before = lines.drop_last();
        assert forall|i: int| 0 <= i < before.len() implies plain_line(
            #[trigger] before[i].text,
        ) by {
            assert(before[i] == lines[i]);
        }
        lemma_plain_scan(before, file);
        assert(plain_line(lines[lines.len() - 1].text));
        assert(before.push(lines.last()) =~= lines);
    } else {
        assert(lines =~= Seq::<LineView>::empty());
    }
}

/// The expander copies the instructions of a program without macros and
/// labels, and nothing else.
pub proof fn lemma_plain_expansion(lines: Seq<LineView>, file: Seq<char>)
    requires
        forall|i: int| 0 <= i < lines.len() ==> plain_line(#[trigger] lines[i].text),
    ensures
        expanded(Seq::empty(), lines, file) is Ok,
        instructions_of(expanded(Seq::empty(), lines, file)->Ok_0) == content_texts(lines),
        labelled(expanded(Seq::empty(), lines, file)->Ok_0, file) == Ok::<Seq<LabelView>, DiagnosticView>(
            Seq::empty(),
        ),
    decreases lines.len(),
{
    if lines.len() > 0 {
        let before = lines.drop_last();
        assert forall|i: int| 0 <= i < before.len() implies plain_line(
            #[trigger] before[i].text,
        ) by {
            assert(before[i] == lines[i]);
        }
        lemma_plain_expansion(before, file);
        assert(plain_line(lines[lines.len() - 1].text));
        let stream = expanded(Seq::empty(), before, file)->Ok_0;
        let text = lines.last().text;
        if kind_of(text) == LineKind::Content {
            let item = EmittedView::Instruction(text);
            assert(expansion(Seq::empty(), lines.last(), file) == Ok::<Seq<EmittedView>, DiagnosticView>(
                seq![item],
            ));
            assert(stream + seq![item] =~= stream.push(item));
            assert(stream.push(item).drop_last() =~= stream);
        } else {
            assert(stream + Seq::<EmittedView>::empty() =~= stream);
        }
    }
}

/// A program that holds no macros and no labels expands to itself: its
/// instructions, in order, are the output, and the label table is empty.
/// Blank lines and comments leave nothing behind.
pub proof fn plain_program_expands_to_itself(lines: Seq<LineView>, file: Seq<char>)
    requires
        forall|i: int| 0 <= i < lines.len() ==> plain_line(#[trigger] lines[i].text),
    ensures
        expanded_lines(lines, file) == Ok::<Seq<Seq<char>>, DiagnosticView>(content_texts(lines)),
        assembled_lines(lines, file) == Ok::<AssemblyView, DiagnosticView>(
            AssemblyView { instructions: content_texts(lines), labels: Seq::empty() },
        ),
{
    lemma_plain_scan(lines, file);
    lemma_plain_expansion(lines, file);
}

/// Where every line is a content line, the content lines are all the lines.
pub proof fn lemma_content_texts_all(lines: Seq<LineView>)
    requires
        forall|i: int| 0 <= i < lines.len() ==> kind_of(#[trigger] lines[i].text) == LineKind::Content,
    ensures
        content_texts(lines) == texts_of(lines),
    decreases lines.len(),
{
    if lines.len() > 0 {
        let before = lines.drop_last();
        assert forall|i: int| 0 <= i < before.len() implies kind_of(#[trigger] before[i].text)
            == LineKind::Content by {
            assert(before[i] == lines[i]);
        }
        lemma_content_texts_all(before);
        assert(kind_of(lines[lines.len() - 1].text) == LineKind::Content);
        assert(texts_of(before).push(lines.last().text) =~= texts_of(lines));
    } else {
        assert(texts_of(lines) =~= Seq::<Seq<char>>::empty());
    }
}

/// Expanding an expanded program again changes nothing.
///
/// This holds where every line of the output is an instruction. A macro
/// body is taken as it is written, so an output can hold a line that is no
/// instruction; such an output is left out, since expanding it again drops
/// the line or fails on it.
pub proof fn expansion_is_a_fixed_point(lines: Seq<LineView>, file: Seq<char>)
    requires
        expanded_lines(lines, file) is Ok,
        forall|i: int|
            0 <= i < expanded_lines(lines, file)->Ok_0.len() ==> instruction_line(
                #[trigger] expanded_lines(lines, file)->Ok_0[i],
            ),
    ensures
        expanded_lines(renumbered(expanded_lines(lines, file)->Ok_0), file) == expanded_lines(
            lines,
            file,
        ),
{
    let out = expanded_lines(lines, file)->Ok_0;
    let again = renumbered(out);
    assert forall|i: int| 0 <= i < again.len() implies plain_line(#[trigger] again[i].text) by {
        assert(instruction_line(out[i]));
    }
    plain_program_expands_to_itself(again, file);
    assert forall|i: int| 0 <= i < again.len() implies kind_of(#[trigger] again[i].text)
        == LineKind::Content by {
        assert(instruction_line(out[i]));
    }
    lemma_content_texts_all(again);
    assert(texts_of(again) =~= out);
}

/// A program that holds no macros and no labels expands to itself but for
/// the form of its lines: the output is the text of its instructions in
/// normal form, one to a line.
pub proof fn plain_source_expands_to_itself(source: Seq<char>, file: Seq<char>)
    requires
        forall|i: int|
            0 <= i < source_lines(source).len() ==> plain_line(
                #[trigger] source_lines(source)[i].text,
            ),
    ensures
        expanded_text(source, file) == Ok::<Seq<char>, DiagnosticView>(
            joined(content_texts(source_lines(source))),
        ),
{
    plain_program_expands_to_itself(source_lines(source), file);
}

/// Whether none of the lines is a macro header or an `end`.
pub open spec fn free_of_macro_lines(lines: Seq<LineView>) -> bool {
    forall|i: int|
        0 <= i < lines.len() ==> kind_of(#[trigger] lines[i].text) != LineKind::MacroHeader
            && kind_of(lines[i].text) != LineKind::MacroFooter
}

/// No macro header and no `end` reaches the residual source while the
/// builder scans.
pub proof fn lemma_scanned_residual(lines: Seq<LineView>, file: Seq<char>)
    requires
        scanned(lines, file) is Ok,
    ensures
        free_of_macro_lines(scanned(lines, file)->Ok_0.residual),
    decreases lines.len(),
{
    if lines.len() > 0 {
        lemma_scanned_residual(lines.drop_last(), file);
        let before = scanned(lines.drop_last(), file)->Ok_0;
        let after = scanned(lines, file)->Ok_0;
        assert forall|i: int| 0 <= i < after.residual.len() implies kind_of(
            #[trigger] after.residual[i].text,
        ) != LineKind::MacroHeader && kind_of(after.residual[i].text)
            != LineKind::MacroFooter by {
            if i < before.residual.len() {
                assert(after.residual[i] == before.residual[i]);
            }
        }
    }
}

/// What holds of the macro table of every source: no two macros share a
/// name, no macro has the name of an instruction, every parameter begins
/// with `%`, and the residual source holds no macro header and no `end`.
pub proof fn macro_table_is_well_formed(lines: Seq<LineView>, file: Seq<char>)
    requires
        macro_table(lines, file) is Ok,
    ensures
        well_formed(macro_table(lines, file)->Ok_0.macros),
        free_of_macro_lines(macro_table(lines, file)->Ok_0.residual),
{
    lemma_scanned_sound(lines, file);
    lemma_scanned_residual(lines, file);
}

/// What holds of every label table: no two labels share a name, every
/// offset is a whole number of instruction words, and the offsets do not
/// fall from one label to the next.
pub open spec fn well_labelled(labels: Seq<LabelView>) -> bool {
    &&& forall|i: int, j: int|
        0 <= i < j < labels.len() ==> (#[trigger] labels[i]).name != (#[trigger] labels[j]).name
    &&& forall|i: int| 0 <= i < labels.len() ==> (#[trigger] labels[i]).byte_offset % 4 == 0
    &&& forall|i: int, j: int|
        0 <= i <= j < labels.len() ==> (#[trigger] labels[i]).byte_offset <= (
        #[trigger] labels[j]).byte_offset
}

/// A name has a first definition in a stream exactly if the label table of
/// the stream holds it.
pub proof fn lemma_first_definition(stream: Seq<EmittedView>, file: Seq<char>, name: Seq<char>)
    requires
        labelled(stream, file) is Ok,
    ensures
        first_definition(stream, name) is None <==> forall|k: int|
            0 <= k < labelled(stream, file)->Ok_0.len() ==> (#[trigger] labelled(
                stream,
                file,
            )->Ok_0[k]).name != name,
    decreases stream.len(),
{
    if stream.len() > 0 {
        let before = labelled(stream.drop_last(), file)->Ok_0;
        let after = labelled(stream, file)->Ok_0;
        lemma_first_definition(stream.drop_last(), file, name);
        if first_definition(stream, name) is None {
            assert forall|k: int| 0 <= k < after.len() implies (#[trigger] after[k]).name
                != name by {
                if k < before.len() {
                    assert(after[k] == before[k]);
                }
            }
        } else {
            if first_definition(stream.drop_last(), name) is None {
                assert(after[after.len() - 1].name == name);
            } else {
                let k = choose|k: int| 0 <= k < before.len() && (#[trigger] before[k]).name == name;
                assert(after[k] == before[k]);
            }
        }
    }
}

/// The label table of every stream is well formed, and no offset lies
/// beyond the end of the instructions.
pub proof fn label_table_is_well_formed(stream: Seq<EmittedView>, file: Seq<char>)
    requires
        labelled(stream, file) is Ok,
    ensures
        well_labelled(labelled(stream, file)->Ok_0),
        forall|k: int|
            0 <= k < labelled(stream, file)->Ok_0.len() ==> (#[trigger] labelled(
                stream,
                file,
            )->Ok_0[k]).byte_offset <= 4 * instruction_count(stream),
    decreases stream.len(),
{
    if stream.len() > 0 {
        let before = labelled(stream.drop_last(), file)->Ok_0;
        let after = labelled(stream, file)->Ok_0;
        label_table_is_well_formed(stream.drop_last(), file);
        match stream.last() {
            EmittedView::Instruction(_) => {},
            EmittedView::Label(line) => {
                lemma_first_definition(stream.drop_last(), file, label_name(line.text));
                assert forall|i: int, j: int| 0 <= i < j < after.len() implies (
                #[trigger] after[i]).name != (#[trigger] after[j]).name by {
                    assert(after[i] == before[i]);
                    if j < before.len() {
                        assert(after[j] == before[j]);
                    }
                }
                assert forall|i: int, j: int| 0 <= i <= j < after.len() implies (
                #[trigger] after[i]).byte_offset <= (#[trigger] after[j]).byte_offset by {
                    if j < before.len() {
                        assert(after[i] == before[i]);
                        assert(after[j] == before[j]);
                    } else if i < before.len() {
                        assert(after[i] == before[i]);
                    }
                }
                assert forall|i: int| 0 <= i < after.len() implies (#[trigger] after[i]).byte_offset
                    % 4 == 0 by {
                    if i < before.len() {
                        assert(after[i] == before[i]);
                    }
                }
                assert forall|k: int| 0 <= k < after.len() implies (#[trigger] after[k]).byte_offset
                    <= 4 * instruction_count(stream) by {
                    if k < before.len() {
                        assert(after[k] == before[k]);
                    }
                }
            },
        }
    }
}

} // verus!
