//! The label table builder: the pass over the expanded stream that gives
//! each label the byte offset of the instruction that follows it.
//!
//! An instruction takes one word of four bytes, so the offset of a label is
//! four times the number of instructions that stand before it in the stream.

use vstd::prelude::*;
use vstd::string::*;
use crate::diagnostic::{diagnosis, outcomes, Diagnostic, DiagnosticView, ErrorKind};
use crate::expand::{instructions_of, Emitted, EmittedView};
use crate::text::{lemma_views_push, slice, to_chars, to_text, views};

verus! {

/// A label: a name for a byte offset in the instruction stream.
#[derive(Clone, Debug, PartialEq, Eq)]
pub struct Label {
    pub name: String,
    pub byte_offset: u128,
}

/// What a `Label` stands for.
pub struct LabelView {
    pub name: Seq<char>,
    pub byte_offset: nat,
}

impl View for Label {
    type V = LabelView;

    open spec fn view(&self) -> LabelView {
        LabelView { name: self.name@, byte_offset: self.byte_offset as nat }
    }
}

/// The name that a label line declares: all that follows the `.`.
pub open spec fn label_name(text: Seq<char>) -> Seq<char> {
    if text.len() > 0 {
        text.skip(1)
    } else {
        text
    }
}

/// The number of instructions in a stream.
pub open spec fn instruction_count(stream: Seq<EmittedView>) -> nat
    decreases stream.len(),
{
    if stream.len() == 0 {
        0
    } else {
        instruction_count(stream.drop_last()) + if stream.last() is Instruction {
            1nat
        } else {
            0nat
        }
    }
}

/// The number of labels in a stream.
pub open spec fn label_count(stream: Seq<EmittedView>) -> nat
    decreases stream.len(),
{
    if stream.len() == 0 {
        0
    } else {
        label_count(stream.drop_last()) + if stream.last() is Label {
            1nat
        } else {
            0nat
        }
    }
}

/// The number of the line on which the stream first declares a label of
/// the given name, if it does.
pub open spec fn first_definition(stream: Seq<EmittedView>, name: Seq<char>) -> Option<nat>
    decreases stream.len(),
{
    if stream.len() == 0 {
        None
    } else {
        match first_definition(stream.drop_last(), name) {
            Some(number) => Some(number),
            None => match stream.last() {
                EmittedView::Label(line) => if label_name(line.text) == name {
                    Some(line.number)
                } else {
                    None
                },
                EmittedView::Instruction(_) => None,
            },
        }
    }
}

/// The label table of a stream: its labels in the order of their lines,
/// each with four times the number of instructions before it. A label whose
/// name an earlier label has is an error, reported at the later line with
/// the number of the earlier one.
pub open spec fn labelled(stream: Seq<EmittedView>, file: Seq<char>) -> Result<
    Seq<LabelView>,
    DiagnosticView,
>
    decreases stream.len(),
{
    if stream.len() == 0 {
        Ok(Seq::empty())
    } else {
        match labelled(stream.drop_last(), file) {
            Err(e) => Err(e),
            Ok(labels) => match stream.last() {
                EmittedView::Instruction(_) => Ok(labels),
                EmittedView::Label(line) => match first_definition(
                    stream.drop_last(),
                    label_name(line.text),
                ) {
                    Some(first) => Err(
                        diagnosis(
                            ErrorKind::DuplicateLabelError { first_defined_at: first as usize },
                            label_name(line.text),
                            file,
                            line,
                            None,
                        ),
                    ),
                    None => Ok(
                        labels.push(
                            LabelView {
                                name: label_name(line.text),
                                byte_offset: 4 * instruction_count(stream.drop_last()),
                            },
                        ),
                    ),
                },
            },
        }
    }
}

/// An error among the first `n` lines of a stream is the error of the whole.
pub proof fn lemma_labelled_fails(stream: Seq<EmittedView>, file: Seq<char>, n: int)
    requires
        0 <= n <= stream.len(),
        labelled(stream.take(n), file) is Err,
    ensures
        labelled(stream, file) == labelled(stream.take(n), file),
    decreases stream.len() - n,
{
    if n == stream.len() {
        assert(stream.take(n) =~= stream);
    } else {
        assert(stream.take(n + 1).drop_last() =~= stream.take(n));
        lemma_labelled_fails(stream, file, n + 1);
    }
}

/// A stream holds as many instructions as `instructions_of` gives.
pub proof fn lemma_instruction_count(stream: Seq<EmittedView>)
    ensures
        instructions_of(stream).len() == instruction_count(stream),
        instruction_count(stream) + label_count(stream) == stream.len(),
    decreases stream.len(),
{
    if stream.len() > 0 {
        lemma_instruction_count(stream.drop_last());
    }
}

fn find_label(labels: &Vec<Label>, name: &String) -> (r: Option<usize>)
    ensures
        match r {
            Some(k) => k < labels.len() && views(labels@)[k as int].name == name@,
            None => forall|k: int| 0 <= k < labels.len() ==> (#[trigger] views(labels@)[k]).name != name@,
        },
{
    let mut i: usize = 0;
    while i < labels.len()
        invariant
            i <= labels.len(),
            forall|k: int| 0 <= k < i ==> (#[trigger] views(labels@)[k]).name != name@,
        decreases labels.len() - i,
    {
        if labels[i].name == *name {
            return Some(i);
        }
        i += 1;
    }
    None
}

/// Builds the label table of an expanded stream of the unit `file`, or
/// gives the diagnostic for the first label that is declared twice.
pub fn label_table(stream: &Vec<Emitted>, file: &str) -> (r: Result<Vec<Label>, Diagnostic>)
    ensures
        outcomes(r) == labelled(views(stream@), file@),
{
    let mut labels: Vec<Label> = Vec::new();
    let mut defined_at: Vec<usize> = Vec::new();
    let mut count: usize = 0;
    let mut i: usize = 0;
    let ghost all = views(stream@);
    proof {
        assert(all.take(0) =~= Seq::<EmittedView>::empty());
        assert(views(labels@) =~= Seq::<LabelView>::empty());
    }
    while i < stream.len()
        invariant
            i <= stream.len(),
            all == views(stream@),
            count <= i,
            count == instruction_count(all.take(i as int)),
            labelled(all.take(i as int), file@) == Ok::<Seq<LabelView>, DiagnosticView>(
                views(labels@),
            ),
            defined_at.len() == labels.len(),
            forall|k: int|
                0 <= k < labels.len() ==> first_definition(
                    all.take(i as int),
                    (#[trigger] views(labels@)[k]).name,
                ) == Some(defined_at@[k] as nat),
            forall|name: Seq<char>|
                (forall|k: int| 0 <= k < labels.len() ==> (#[trigger] views(labels@)[k]).name != name)
                    ==> (#[trigger] first_definition(all.take(i as int), name)) is None,
        decreases stream.len() - i,
    {
        let ghost before = all.take(i as int);
        let ghost now = all.take(i + 1);
        let ghost old_labels = views(labels@);
        proof {
            assert(now.drop_last() =~= before);
            assert(now.last() == stream@[i as int]@);
        }
        match &stream[i] {
            Emitted::Instruction(_) => {
                count += 1;
            },
            Emitted::Label(line) => {
                let chars = to_chars(line.text.as_str());
                let mut letters: Vec<char> = Vec::new();
                if chars.len() > 0 {
                    letters = slice(&chars, 1, chars.len());
                }
                let name = to_text(&letters);
                assert(name@ =~= label_name(line@.text));
                match find_label(&labels, &name) {
                    Some(k) => {
                        proof {
                            lemma_labelled_fails(all, file@, i + 1);
                        }
                        return Err(
                            Diagnostic::report(
                                ErrorKind::DuplicateLabelError { first_defined_at: defined_at[k] },
                                name.as_str(),
                                file,
                                line,
                                None,
                            ),
                        );
                    },
                    None => {
                        let label = Label { name, byte_offset: 4 * (count as u128) };
                        proof {
                            lemma_views_push(labels@, label);
                        }
                        labels.push(label);
                        defined_at.push(line.number);
                    },
                }
            },
        }
        proof {
            let new_labels = views(labels@);
            assert forall|k: int| 0 <= k < labels.len() implies first_definition(
                now,
                (#[trigger] new_labels[k]).name,
            ) == Some(defined_at@[k] as nat) by {
                if k < old_labels.len() {
                    assert(new_labels[k] == old_labels[k]);
                }
            }
            assert forall|name: Seq<char>|
                (forall|k: int| 0 <= k < labels.len() ==> (#[trigger] new_labels[k]).name != name)
                implies (#[trigger] first_definition(now, name)) is None by {
                assert forall|k: int| 0 <= k < old_labels.len() implies (
                #[trigger] old_labels[k]).name != name by {
                    assert(new_labels[k] == old_labels[k]);
                }
                assert(first_definition(before, name) is None);
                if new_labels.len() > old_labels.len() {
                    assert(new_labels[old_labels.len() as int].name != name);
                }
            }
        }
        i += 1;
    }
    assert(all.take(all.len() as int) =~= all);
    Ok(labels)
}

} // verus!
