//! The macro table builder: one pass over the source lines that collects the
//! macro definitions and leaves the residual source, the lines that belong to
//! no definition.
//!
//! The pass is a state machine. Between definitions it is `Scanning`; from a
//! macro header to the `end` that closes it, it is `InMacroBody`.

use vstd::prelude::*;
use vstd::string::*;
use crate::diagnostic::{diagnosis, outcome, Diagnostic, DiagnosticView, ErrorKind};
use crate::line::{classify_chars, kind_of, LineKind, LineView, SourceLine};
use crate::mnemonic::{is_mnemonic, is_reserved};
use crate::substitution::{
    entries, first_unprefixed, has_prefix, lemma_all_prefixed, parse_parameters,
};
use crate::text::{
    find_break, first_break, lemma_views_push, slice, to_chars, to_strings, to_text, views,
    Delimiter,
};

verus! {

/// A macro: a named template of instructions. The parameters stand in the
/// order in which an invocation binds them; the body holds the lines between
/// the header and `end`, as they were written.
#[derive(Clone, Debug, PartialEq, Eq)]
pub struct Macro {
    pub name: String,
    pub parameters: Vec<String>,
    pub body: Vec<String>,
}

/// What a `Macro` stands for.
pub struct MacroView {
    pub name: Seq<char>,
    pub parameters: Seq<Seq<char>>,
    pub body: Seq<Seq<char>>,
}

impl View for Macro {
    type V = MacroView;

    open spec fn view(&self) -> MacroView {
        MacroView {
            name: self.name@,
            parameters: views(self.parameters@),
            body: views(self.body@),
        }
    }
}

/// Where the builder stands between two lines.
#[derive(Clone, Debug, PartialEq, Eq)]
pub enum BuilderState {
    /// No macro is open.
    Scanning,
    /// A macro is open: what is known of it so far, the number of the line
    /// that opened it, and that line.
    InMacroBody { definition: Macro, opened_at: usize, opening_text: String },
}

/// What a `BuilderState` stands for.
pub enum StateView {
    Scanning,
    InMacroBody { definition: MacroView, opened_at: nat, opening_text: Seq<char> },
}

impl View for BuilderState {
    type V = StateView;

    open spec fn view(&self) -> StateView {
        match self {
            BuilderState::Scanning => StateView::Scanning,
            BuilderState::InMacroBody { definition, opened_at, opening_text } => {
                StateView::InMacroBody {
                    definition: definition@,
                    opened_at: *opened_at as nat,
                    opening_text: opening_text@,
                }
            },
        }
    }
}

/// The builder between two lines: the macros that are closed, the residual
/// source so far, and the state.
#[derive(Clone, Debug, PartialEq, Eq)]
pub struct MacroTableBuilder {
    pub finished: Vec<Macro>,
    pub residual: Vec<SourceLine>,
    pub state: BuilderState,
}

/// What a `MacroTableBuilder` stands for.
pub struct BuilderView {
    pub finished: Seq<MacroView>,
    pub residual: Seq<LineView>,
    pub state: StateView,
}

impl View for MacroTableBuilder {
    type V = BuilderView;

    open spec fn view(&self) -> BuilderView {
        BuilderView {
            finished: views(self.finished@),
            residual: views(self.residual@),
            state: self.state@,
        }
    }
}

/// What the pass leaves: the macros in the order of their definitions, and
/// the residual source.
#[derive(Clone, Debug, PartialEq, Eq)]
pub struct MacroTable {
    pub macros: Vec<Macro>,
    pub residual: Vec<SourceLine>,
}

/// What a `MacroTable` stands for.
pub struct TableView {
    pub macros: Seq<MacroView>,
    pub residual: Seq<LineView>,
}

impl View for MacroTable {
    type V = TableView;

    open spec fn view(&self) -> TableView {
        TableView { macros: views(self.macros@), residual: views(self.residual@) }
    }
}

/// In a macro header, the index of the white space that ends the name, or
/// the length of the header where the name ends it.
pub open spec fn header_break(text: Seq<char>) -> int {
    1 + first_break(text.skip(1), Delimiter::Space)
}

/// The name that a macro header declares: what stands between `@` and the
/// first white space.
pub open spec fn header_name(text: Seq<char>) -> Seq<char> {
    text.subrange(1, header_break(text))
}

/// Whether a macro of that name is among `macros`.
pub open spec fn declared(macros: Seq<MacroView>, name: Seq<char>) -> bool {
    exists|i: int| 0 <= i < macros.len() && (#[trigger] macros[i]).name == name
}

/// The builder before the first line.
pub open spec fn start() -> BuilderView {
    BuilderView { finished: Seq::empty(), residual: Seq::empty(), state: StateView::Scanning }
}

/// The builder with a macro open whose header is `line`.
pub open spec fn entered(b: BuilderView, line: LineView, parameters: Seq<Seq<char>>) -> BuilderView {
    BuilderView {
        finished: b.finished,
        residual: b.residual,
        state: StateView::InMacroBody {
            definition: MacroView {
                name: header_name(line.text),
                parameters,
                body: Seq::empty(),
            },
            opened_at: line.number,
            opening_text: line.text,
        },
    }
}

/// What a macro header does while no macro is open. The name must not be an
/// instruction's, nor that of an earlier macro, and every parameter must
/// begin with `%`: the first of these that fails is reported.
pub open spec fn opened(b: BuilderView, line: LineView, file: Seq<char>) -> Result<
    BuilderView,
    DiagnosticView,
> {
    let name = header_name(line.text);
    let at = header_break(line.text);
    if is_reserved(name) {
        Err(diagnosis(ErrorKind::ReservedNameError, name, file, line, None))
    } else if declared(b.finished, name) {
        Err(diagnosis(ErrorKind::DuplicateMacroError, name, file, line, None))
    } else if at < line.text.len() {
        let list = line.text.skip(at + 1);
        match first_unprefixed(list, at + 1) {
            Some(column) => Err(
                diagnosis(
                    ErrorKind::InvalidArgumentPrefixError,
                    Seq::empty(),
                    file,
                    line,
                    Some(column as nat),
                ),
            ),
            None => Ok(entered(b, line, entries(list))),
        }
    } else {
        Ok(entered(b, line, Seq::empty()))
    }
}

/// What one line does to the builder.
///
/// While scanning, a header opens a macro, `end` is an error, and any other
/// line joins the residual source. Inside a macro, a header is an error,
/// `end` closes the macro, a content line joins the body, and comments,
/// labels and blank lines are dropped.
pub open spec fn step(b: BuilderView, line: LineView, file: Seq<char>) -> Result<
    BuilderView,
    DiagnosticView,
> {
    match b.state {
        StateView::Scanning => match kind_of(line.text) {
            LineKind::MacroHeader => opened(b, line, file),
            LineKind::MacroFooter => Err(
                diagnosis(ErrorKind::DanglingEndError, Seq::empty(), file, line, None),
            ),
            _ => Ok(
                BuilderView {
                    finished: b.finished,
                    residual: b.residual.push(line),
                    state: b.state,
                },
            ),
        },
        StateView::InMacroBody { definition, opened_at, opening_text } => match kind_of(
            line.text,
        ) {
            LineKind::MacroHeader => Err(
                diagnosis(
                    ErrorKind::NestedMacroError { opened_at: opened_at as usize },
                    Seq::empty(),
                    file,
                    line,
                    None,
                ),
            ),
            LineKind::MacroFooter => Ok(
                BuilderView {
                    finished: b.finished.push(definition),
                    residual: b.residual,
                    state: StateView::Scanning,
                },
            ),
            LineKind::Content => Ok(
                BuilderView {
                    finished: b.finished,
                    residual: b.residual,
                    state: StateView::InMacroBody {
                        definition: MacroView {
                            name: definition.name,
                            parameters: definition.parameters,
                            body: definition.body.push(line.text),
                        },
                        opened_at,
                        opening_text,
                    },
                },
            ),
            _ => Ok(b),
        },
    }
}

/// What the end of the source does: a macro that is still open is an error,
/// reported at the line that opened it.
pub open spec fn finished(b: BuilderView, file: Seq<char>) -> Result<TableView, DiagnosticView> {
    match b.state {
        StateView::Scanning => Ok(TableView { macros: b.finished, residual: b.residual }),
        StateView::InMacroBody { definition, opened_at, opening_text } => Err(
            diagnosis(
                ErrorKind::UnterminatedMacroError,
                definition.name,
                file,
                LineView { text: opening_text, number: opened_at },
                None,
            ),
        ),
    }
}

/// The builder after the given lines, or the first error among them.
pub open spec fn scanned(lines: Seq<LineView>, file: Seq<char>) -> Result<
    BuilderView,
    DiagnosticView,
>
    decreases lines.len(),
{
    if lines.len() == 0 {
        Ok(start())
    } else {
        match scanned(lines.drop_last(), file) {
            Err(e) => Err(e),
            Ok(b) => step(b, lines.last(), file),
        }
    }
}

/// The macro table of a source, or its first error.
pub open spec fn macro_table(lines: Seq<LineView>, file: Seq<char>) -> Result<
    TableView,
    DiagnosticView,
> {
    match scanned(lines, file) {
        Err(e) => Err(e),
        Ok(b) => finished(b, file),
    }
}

/// What holds of every macro table: no two macros share a name, no name is
/// an instruction's, and every parameter begins with `%`.
pub open spec fn well_formed(macros: Seq<MacroView>) -> bool {
    &&& forall|i: int, j: int|
        0 <= i < j < macros.len() ==> (#[trigger] macros[i]).name != (#[trigger] macros[j]).name
    &&& forall|i: int| 0 <= i < macros.len() ==> !is_reserved((#[trigger] macros[i]).name)
    &&& forall|i: int, k: int|
        0 <= i < macros.len() && 0 <= k < macros[i].parameters.len() ==> has_prefix(
            #[trigger] macros[i].parameters[k],
        )
}

/// What holds of the builder between any two lines: the closed macros are
/// well formed, and so they stay when the open one joins them.
pub open spec fn sound(b: BuilderView) -> bool {
    match b.state {
        StateView::Scanning => well_formed(b.finished),
        StateView::InMacroBody { definition, .. } => well_formed(b.finished.push(definition)),
    }
}

/// A step keeps the builder sound.
pub proof fn lemma_step_sound(b: BuilderView, line: LineView, file: Seq<char>)
    requires
        sound(b),
        step(b, line, file) is Ok,
    ensures
        sound(step(b, line, file)->Ok_0),
{
    let next = step(b, line, file)->Ok_0;
    match b.state {
        StateView::Scanning => {
            if kind_of(line.text) == LineKind::MacroHeader {
                let at = header_break(line.text);
                let definition = next.state->definition;
                if at < line.text.len() {
                    lemma_all_prefixed(line.text.skip(at + 1), at + 1);
                }
                let all = b.finished.push(definition);
                assert forall|i: int, j: int| 0 <= i < j < all.len() implies (#[trigger] all[i]).name
                    != (#[trigger] all[j]).name by {
                    if j == b.finished.len() {
                        assert(b.finished[i].name != definition.name);
                    }
                }
            }
        },
        StateView::InMacroBody { definition, .. } => {
            if kind_of(line.text) == LineKind::Content {
                let before = b.finished.push(definition);
                let after = b.finished.push(next.state->definition);
                assert forall|i: int| 0 <= i < after.len() implies (#[trigger] after[i]).name
                    == before[i].name && after[i].parameters == before[i].parameters by {}
            } else if kind_of(line.text) == LineKind::MacroFooter {
            }
        },
    }
}

/// Every builder that a scan reaches is sound.
pub proof fn lemma_scanned_sound(lines: Seq<LineView>, file: Seq<char>)
    requires
        scanned(lines, file) is Ok,
    ensures
        sound(scanned(lines, file)->Ok_0),
    decreases lines.len(),
{
    if lines.len() > 0 {
        lemma_scanned_sound(lines.drop_last(), file);
        lemma_step_sound(scanned(lines.drop_last(), file)->Ok_0, lines.last(), file);
    }
}

/// An error among the first `n` lines is the error of the whole source.
pub proof fn lemma_scanned_fails(lines: Seq<LineView>, file: Seq<char>, n: int)
    requires
        0 <= n <= lines.len(),
        scanned(lines.take(n), file) is Err,
    ensures
        scanned(lines, file) == scanned(lines.take(n), file),
    decreases lines.len() - n,
{
    if n == lines.len() {
        assert(lines.take(n) =~= lines);
    } else {
        assert(lines.take(n + 1).drop_last() =~= lines.take(n));
        lemma_scanned_fails(lines, file, n + 1);
    }
}

fn is_declared(macros: &Vec<Macro>, name: &String) -> (r: bool)
    ensures
        r == declared(views(macros@), name@),
{
    let mut i: usize = 0;
    while i < macros.len()
        invariant
            i <= macros.len(),
            forall|j: int| 0 <= j < i ==> (#[trigger] views(macros@)[j]).name != name@,
        decreases macros.len() - i,
    {
        if macros[i].name == *name {
            assert(views(macros@)[i as int].name == name@);
            return true;
        }
        i += 1;
    }
    false
}

fn open_macro(
    finished: Vec<Macro>,
    residual: Vec<SourceLine>,
    chars: &Vec<char>,
    line: &SourceLine,
    file: &str,
) -> (r: Result<MacroTableBuilder, Diagnostic>)
    requires
        chars@ == line@.text,
        chars@.len() > 0,
    ensures
        outcome(r) == opened(
            BuilderView {
                finished: views(finished@),
                residual: views(residual@),
                state: StateView::Scanning,
            },
            line@,
            file@,
        ),
{
    let at = find_break(chars, 1, Delimiter::Space);
    let letters = slice(chars, 1, at);
    let name = to_text(&letters);
    if is_mnemonic(&letters) {
        return Err(Diagnostic::report(ErrorKind::ReservedNameError, name.as_str(), file, line, None));
    }
    if is_declared(&finished, &name) {
        return Err(
            Diagnostic::report(ErrorKind::DuplicateMacroError, name.as_str(), file, line, None),
        );
    }
    let mut parameters: Vec<String> = Vec::new();
    if at < chars.len() {
        let list = slice(chars, at + 1, chars.len());
        assert(list@ =~= chars@.skip(at + 1));
        match parse_parameters(&list, at + 1) {
            Err(column) => {
                return Err(
                    Diagnostic::report(
                        ErrorKind::InvalidArgumentPrefixError,
                        "",
                        file,
                        line,
                        Some(column),
                    ),
                );
            },
            Ok(parts) => {
                parameters = to_strings(&parts);
            },
        }
    } else {
        assert(views(parameters@) =~= Seq::<Seq<char>>::empty());
    }
    let body: Vec<String> = Vec::new();
    assert(views(body@) =~= Seq::<Seq<char>>::empty());
    Ok(
        MacroTableBuilder {
            finished,
            residual,
            state: BuilderState::InMacroBody {
                definition: Macro { name, parameters, body },
                opened_at: line.number,
                opening_text: line.text.clone(),
            },
        },
    )
}

impl MacroTableBuilder {
    /// The builder before the first line.
    pub fn new() -> (b: MacroTableBuilder)
        ensures
            b@ == start(),
    {
        let b = MacroTableBuilder {
            finished: Vec::new(),
            residual: Vec::new(),
            state: BuilderState::Scanning,
        };
        assert(b@.finished =~= Seq::<MacroView>::empty());
        assert(b@.residual =~= Seq::<LineView>::empty());
        b
    }

    /// Takes one line of the unit `file`, and gives the builder after it or
    /// the diagnostic that the line raises.
    pub fn step(self, line: &SourceLine, file: &str) -> (r: Result<MacroTableBuilder, Diagnostic>)
        ensures
            outcome(r) == step(self@, line@, file@),
    {
        let chars = to_chars(line.text.as_str());
        let kind = classify_chars(&chars);
        let MacroTableBuilder { finished, residual, state } = self;
        match state {
            BuilderState::Scanning => match kind {
                LineKind::MacroHeader => open_macro(finished, residual, &chars, line, file),
                LineKind::MacroFooter => Err(
                    Diagnostic::report(ErrorKind::DanglingEndError, "", file, line, None),
                ),
                _ => {
                    let mut residual = residual;
                    proof {
                        lemma_views_push(residual@, *line);
                    }
                    residual.push(line.duplicate());
                    assert(views(residual@) =~= views(self.residual@).push(line@));
                    Ok(MacroTableBuilder { finished, residual, state: BuilderState::Scanning })
                },
            },
            BuilderState::InMacroBody { definition, opened_at, opening_text } => match kind {
                LineKind::MacroHeader => Err(
                    Diagnostic::report(
                        ErrorKind::NestedMacroError { opened_at },
                        "",
                        file,
                        line,
                        None,
                    ),
                ),
                LineKind::MacroFooter => {
                    let mut finished = finished;
                    proof {
                        lemma_views_push(finished@, definition);
                    }
                    finished.push(definition);
                    Ok(MacroTableBuilder { finished, residual, state: BuilderState::Scanning })
                },
                LineKind::Content => {
                    let Macro { name, parameters, body } = definition;
                    let mut body = body;
                    proof {
                        lemma_views_push(body@, line.text);
                    }
                    body.push(line.text.clone());
                    assert(views(body@) =~= views(definition.body@).push(line@.text));
                    Ok(
                        MacroTableBuilder {
                            finished,
                            residual,
                            state: BuilderState::InMacroBody {
                                definition: Macro { name, parameters, body },
                                opened_at,
                                opening_text,
                            },
                        },
                    )
                },
                _ => Ok(
                    MacroTableBuilder {
                        finished,
                        residual,
                        state: BuilderState::InMacroBody { definition, opened_at, opening_text },
                    },
                ),
            },
        }
    }

    /// Ends the pass: gives the macro table, or the diagnostic for a macro
    /// that was never closed.
    pub fn finish(self, file: &str) -> (r: Result<MacroTable, Diagnostic>)
        ensures
            outcome(r) == finished(self@, file@),
    {
        let MacroTableBuilder { finished, residual, state } = self;
        match state {
            BuilderState::Scanning => Ok(MacroTable { macros: finished, residual }),
            BuilderState::InMacroBody { definition, opened_at, opening_text } => {
                let opening = SourceLine { text: opening_text, number: opened_at };
                Err(
                    Diagnostic::report(
                        ErrorKind::UnterminatedMacroError,
                        definition.name.as_str(),
                        file,
                        &opening,
                        None,
                    ),
                )
            },
        }
    }
}

/// Collects the macro definitions of the unit `file` and its residual
/// source, or gives the first diagnostic that a line raises.
pub fn build_macro_table(lines: &Vec<SourceLine>, file: &str) -> (r: Result<MacroTable, Diagnostic>)
    ensures
        outcome(r) == macro_table(views(lines@), file@),
        r is Ok ==> well_formed(r->Ok_0@.macros),
{
    let mut builder = MacroTableBuilder::new();
    let mut i: usize = 0;
    assert(views(lines@).take(0) =~= Seq::<LineView>::empty());
    while i < lines.len()
        invariant
            i <= lines.len(),
            scanned(views(lines@).take(i as int), file@) == Ok::<BuilderView, DiagnosticView>(
                builder@,
            ),
        decreases lines.len() - i,
    {
        proof {
            assert(views(lines@).take(i + 1).drop_last() =~= views(lines@).take(i as int));
            assert(views(lines@).take(i + 1).last() == lines@[i as int]@);
        }
        match builder.step(&lines[i], file) {
            Err(d) => {
                proof {
                    lemma_scanned_fails(views(lines@), file@, i + 1);
                }
                return Err(d);
            },
            Ok(next) => {
                builder = next;
            },
        }
        i += 1;
    }
    proof {
        assert(views(lines@).take(lines@.len() as int) =~= views(lines@));
        lemma_scanned_sound(views(lines@), file@);
    }
    builder.finish(file)
}

} // verus!
