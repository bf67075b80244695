//! The passes put together: from the text of a compilation unit to its
//! instruction stream and label table, or to the first diagnostic.
//!
//! The order is fixed: the macro table is built first, then the residual
//! source is expanded, then the label table is taken from the expanded
//! stream. Whatever pass fails first ends the unit.

use vstd::prelude::*;
use vstd::string::*;
use crate::diagnostic::{outcome, outcomes, Diagnostic, DiagnosticView};
use crate::expand::{expand, expanded, instructions, instructions_of};
use crate::format::{join_lines, joined};
use crate::label::{label_table, labelled, Label, LabelView};
use crate::line::{normalize, source_lines, LineView, SourceLine};
use crate::macro_table::{build_macro_table, macro_table, well_formed, Macro, MacroView};
use crate::text::views;

verus! {

/// What a unit assembles to: its instructions, one to a line and in order,
/// and its labels.
#[derive(Clone, Debug, PartialEq, Eq)]
pub struct Assembly {
    pub instructions: Vec<String>,
    pub labels: Vec<Label>,
}

/// What an `Assembly` stands for.
pub struct AssemblyView {
    pub instructions: Seq<Seq<char>>,
    pub labels: Seq<LabelView>,
}

impl View for Assembly {
    type V = AssemblyView;

    open spec fn view(&self) -> AssemblyView {
        AssemblyView { instructions: views(self.instructions@), labels: views(self.labels@) }
    }
}

/// The texts of the given lines.
pub open spec fn texts_of(lines: Seq<LineView>) -> Seq<Seq<char>> {
    Seq::new(lines.len(), |i: int| lines[i].text)
}

/// The macros of a source and the text of its residual source, or its first
/// error.
pub open spec fn macros_and_residual(lines: Seq<LineView>, file: Seq<char>) -> Result<
    (Seq<MacroView>, Seq<char>),
    DiagnosticView,
> {
    match macro_table(lines, file) {
        Err(e) => Err(e),
        Ok(table) => Ok((table.macros, joined(texts_of(table.residual)))),
    }
}

/// The instructions that the lines of a source expand to, or the first
/// error of the macro table builder or of the expander.
pub open spec fn expanded_lines(lines: Seq<LineView>, file: Seq<char>) -> Result<
    Seq<Seq<char>>,
    DiagnosticView,
> {
    match macro_table(lines, file) {
        Err(e) => Err(e),
        Ok(table) => match expanded(table.macros, table.residual, file) {
            Err(e) => Err(e),
            Ok(stream) => Ok(instructions_of(stream)),
        },
    }
}

/// What the lines of a source assemble to, or the first error of any pass.
pub open spec fn assembled_lines(lines: Seq<LineView>, file: Seq<char>) -> Result<
    AssemblyView,
    DiagnosticView,
> {
    match macro_table(lines, file) {
        Err(e) => Err(e),
        Ok(table) => match expanded(table.macros, table.residual, file) {
            Err(e) => Err(e),
            Ok(stream) => match labelled(stream, file) {
                Err(e) => Err(e),
                Ok(labels) => Ok(AssemblyView { instructions: instructions_of(stream), labels }),
            },
        },
    }
}

/// The text of the instructions that a source expands to.
pub open spec fn expanded_text(source: Seq<char>, file: Seq<char>) -> Result<
    Seq<char>,
    DiagnosticView,
> {
    match expanded_lines(source_lines(source), file) {
        Err(e) => Err(e),
        Ok(lines) => Ok(joined(lines)),
    }
}

/// The label table of a source.
pub open spec fn label_table_of(source: Seq<char>, file: Seq<char>) -> Result<
    Seq<LabelView>,
    DiagnosticView,
> {
    match assembled_lines(source_lines(source), file) {
        Err(e) => Err(e),
        Ok(assembly) => Ok(assembly.labels),
    }
}

fn line_texts(lines: &Vec<SourceLine>) -> (r: Vec<String>)
    ensures
        views(r@) == texts_of(views(lines@)),
{
    let mut r: Vec<String> = Vec::new();
    let mut i: usize = 0;
    while i < lines.len()
        invariant
            i <= lines.len(),
            r.len() == i,
            forall|j: int| 0 <= j < i ==> (#[trigger] r@[j])@ == lines@[j]@.text,
        decreases lines.len() - i,
    {
        r.push(lines[i].text.clone());
        i += 1;
    }
    assert(views(r@) =~= texts_of(views(lines@)));
    r
}

impl Assembly {
    /// The instructions as one text, one instruction to a line.
    pub fn text(&self) -> (r: String)
        ensures
            r@ == joined(self@.instructions),
    {
        join_lines(&self.instructions)
    }
}

/// Assembles the lines of the unit `file`.
pub fn assemble_lines(lines: &Vec<SourceLine>, file: &str) -> (r: Result<Assembly, Diagnostic>)
    ensures
        outcome(r) == assembled_lines(views(lines@), file@),
{
    let table = match build_macro_table(lines, file) {
        Ok(table) => table,
        Err(d) => {
            return Err(d);
        },
    };
    let stream = match expand(&table.macros, &table.residual, file) {
        Ok(stream) => stream,
        Err(d) => {
            return Err(d);
        },
    };
    let labels = match label_table(&stream, file) {
        Ok(labels) => labels,
        Err(d) => {
            return Err(d);
        },
    };
    Ok(Assembly { instructions: instructions(&stream), labels })
}

/// Assembles the source text of the unit `file`: gives its instructions and
/// its label table, or the first diagnostic.
pub fn assemble(source: &str, file: &str) -> (r: Result<Assembly, Diagnostic>)
    ensures
        outcome(r) == assembled_lines(source_lines(source@), file@),
{
    let lines = normalize(source);
    assemble_lines(&lines, file)
}

/// Collects the macros of the source text `file` of the unit `path`, and
/// gives them with the residual source as one text, its lines joined by
/// line feeds.
pub fn parse_macros(file: &str, path: &str) -> (r: Result<(Vec<Macro>, String), Diagnostic>)
    ensures
        match r {
            Ok(found) => macros_and_residual(source_lines(file@), path@) == Ok::<
                (Seq<MacroView>, Seq<char>),
                DiagnosticView,
            >((views(found.0@), found.1@)) && well_formed(views(found.0@)),
            Err(d) => macros_and_residual(source_lines(file@), path@) == Err::<
                (Seq<MacroView>, Seq<char>),
                DiagnosticView,
            >(d@),
        },
{
    let lines = normalize(file);
    match build_macro_table(&lines, path) {
        Ok(table) => {
            let residual = join_lines(&line_texts(&table.residual));
            Ok((table.macros, residual))
        },
        Err(d) => Err(d),
    }
}

/// Expands the macros of the source text `file` of the unit `path`, and
/// gives the instructions as one text, one instruction to a line.
pub fn expand_macros(file: &str, path: &str) -> (r: Result<String, Diagnostic>)
    ensures
        outcome(r) == expanded_text(file@, path@),
{
    let lines = normalize(file);
    let table = match build_macro_table(&lines, path) {
        Ok(table) => table,
        Err(d) => {
            return Err(d);
        },
    };
    match expand(&table.macros, &table.residual, path) {
        Ok(stream) => Ok(join_lines(&instructions(&stream))),
        Err(d) => Err(d),
    }
}

/// Builds the label table of the source text `file` of the unit `path`.
/// The offsets count the instructions of the expanded stream.
pub fn parse_labels(file: &str, path: &str) -> (r: Result<Vec<Label>, Diagnostic>)
    ensures
        outcomes(r) == label_table_of(file@, path@),
{
    match assemble(file, path) {
        Ok(assembly) => Ok(assembly.labels),
        Err(d) => Err(d),
    }
}

} // verus!
