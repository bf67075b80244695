//! The macro expander: the pass over the residual source that replaces each
//! macro invocation by the macro's body, with the arguments in the place of
//! the parameters.
//!
//! What it produces is the expanded stream: the instruction lines, one
//! instruction each, with the label lines still standing where the source has
//! them, so that the label table can be taken from it. Invocations inside a
//! macro's body are not expanded again.

use vstd::prelude::*;
use vstd::string::*;
use crate::diagnostic::{diagnosis, outcomes, Diagnostic, DiagnosticView, ErrorKind};
use crate::line::{classify_chars, kind_of, LineKind, LineView, SourceLine};
use crate::macro_table::{Macro, MacroView};
use crate::mnemonic::{is_mnemonic, is_reserved};
use crate::substitution::{entries, split_entries, substitute, substituted};
use crate::text::{
    find_break, first_break, lemma_views_push, slice, to_char_lists, to_chars, to_text, views,
    Delimiter,
};

verus! {

/// One line of the expanded stream.
#[derive(Clone, Debug, PartialEq, Eq)]
pub enum Emitted {
    /// A label line of the source, kept where it stood.
    Label(SourceLine),
    /// One instruction, as the text of its line.
    Instruction(String),
}

/// What an `Emitted` stands for.
pub enum EmittedView {
    Label(LineView),
    Instruction(Seq<char>),
}

impl View for Emitted {
    type V = EmittedView;

    open spec fn view(&self) -> EmittedView {
        match self {
            Emitted::Label(line) => EmittedView::Label(line@),
            Emitted::Instruction(text) => EmittedView::Instruction(text@),
        }
    }
}

/// The first word of a line: what stands before the first white space.
pub open spec fn leading_token(text: Seq<char>) -> Seq<char> {
    text.take(first_break(text, Delimiter::Space))
}

/// What follows the white space that ends the first word; empty where the
/// line is one word.
pub open spec fn argument_text(text: Seq<char>) -> Seq<char> {
    let at = first_break(text, Delimiter::Space);
    if 0 <= at < text.len() {
        text.skip(at + 1)
    } else {
        Seq::empty()
    }
}

/// The first macro of the given name, if there is one.
pub open spec fn lookup(macros: Seq<MacroView>, name: Seq<char>) -> Option<MacroView>
    decreases macros.len(),
{
    if macros.len() == 0 {
        None
    } else {
        match lookup(macros.drop_last(), name) {
            Some(m) => Some(m),
            None => if macros.last().name == name {
                Some(macros.last())
            } else {
                None
            },
        }
    }
}

/// What an invocation of `m` on `line` gives: the body of `m`, each line
/// with every parameter replaced by the argument at its position. The
/// arguments are the entries of the text behind the macro's name, so a line
/// that is the name alone passes one empty argument. There must be as many
/// arguments as parameters.
pub open spec fn invoked(m: MacroView, line: LineView, file: Seq<char>) -> Result<
    Seq<EmittedView>,
    DiagnosticView,
> {
    let arguments = entries(argument_text(line.text));
    if arguments.len() == m.parameters.len() {
        Ok(
            Seq::new(
                m.body.len(),
                |i: int| EmittedView::Instruction(substituted(m.body[i], m.parameters, arguments)),
            ),
        )
    } else {
        Err(
            diagnosis(
                ErrorKind::ArityMismatchError {
                    expected: m.parameters.len() as usize,
                    found: arguments.len() as usize,
                },
                m.name,
                file,
                line,
                None,
            ),
        )
    }
}

/// What one line of the residual source gives. A label line stays. A content
/// line that begins with an instruction's name is copied; one that begins
/// with a macro's name is replaced by the invocation's result; any other is
/// an error. Every other kind of line gives nothing.
pub open spec fn expansion(macros: Seq<MacroView>, line: LineView, file: Seq<char>) -> Result<
    Seq<EmittedView>,
    DiagnosticView,
> {
    let token = leading_token(line.text);
    match kind_of(line.text) {
        LineKind::Label => Ok(seq![EmittedView::Label(line)]),
        LineKind::Content => if is_reserved(token) {
            Ok(seq![EmittedView::Instruction(line.text)])
        } else {
            match lookup(macros, token) {
                Some(m) => invoked(m, line, file),
                None => Err(diagnosis(ErrorKind::UnknownInstructionError, token, file, line, None)),
            }
        },
        _ => Ok(Seq::empty()),
    }
}

/// The expanded stream of the given lines, or the first error among them.
pub open spec fn expanded(macros: Seq<MacroView>, lines: Seq<LineView>, file: Seq<char>) -> Result<
    Seq<EmittedView>,
    DiagnosticView,
>
    decreases lines.len(),
{
    if lines.len() == 0 {
        Ok(Seq::empty())
    } else {
        match expanded(macros, lines.drop_last(), file) {
            Err(e) => Err(e),
            Ok(before) => match expansion(macros, lines.last(), file) {
                Err(e) => Err(e),
                Ok(more) => Ok(before + more),
            },
        }
    }
}

/// The instructions of a stream, in order: the stream without its labels.
pub open spec fn instructions_of(stream: Seq<EmittedView>) -> Seq<Seq<char>>
    decreases stream.len(),
{
    if stream.len() == 0 {
        Seq::empty()
    } else {
        match stream.last() {
            EmittedView::Instruction(text) => instructions_of(stream.drop_last()).push(text),
            EmittedView::Label(_) => instructions_of(stream.drop_last()),
        }
    }
}

/// A macro found among the first `n` is the macro found among all.
pub proof fn lemma_lookup_found(macros: Seq<MacroView>, name: Seq<char>, n: int)
    requires
        0 <= n <= macros.len(),
        lookup(macros.take(n), name) is Some,
    ensures
        lookup(macros, name) == lookup(macros.take(n), name),
    decreases macros.len() - n,
{
    if n == macros.len() {
        assert(macros.take(n) =~= macros);
    } else {
        assert(macros.take(n + 1).drop_last() =~= macros.take(n));
        lemma_lookup_found(macros, name, n + 1);
    }
}

/// An error among the first `n` lines is the error of the whole source.
pub proof fn lemma_expanded_fails(
    macros: Seq<MacroView>,
    lines: Seq<LineView>,
    file: Seq<char>,
    n: int,
)
    requires
        0 <= n <= lines.len(),
        expanded(macros, lines.take(n), file) is Err,
    ensures
        expanded(macros, lines, file) == expanded(macros, lines.take(n), file),
    decreases lines.len() - n,
{
    if n == lines.len() {
        assert(lines.take(n) =~= lines);
    } else {
        assert(lines.take(n + 1).drop_last() =~= lines.take(n));
        lemma_expanded_fails(macros, lines, file, n + 1);
    }
}

/// The views of two lists, one after the other, are the views of the lists
/// joined.
pub proof fn lemma_views_add<T: View>(a: Seq<T>, b: Seq<T>)
    ensures
        views(a + b) == views(a) + views(b),
{
    assert(views(a + b) =~= views(a) + views(b));
}

/// The first macro of the given name.
pub fn find_macro<'a>(macros: &'a Vec<Macro>, name: &String) -> (r: Option<&'a Macro>)
    ensures
        match r {
            Some(m) => lookup(views(macros@), name@) == Some(m@),
            None => lookup(views(macros@), name@) is None,
        },
{
    let mut i: usize = 0;
    assert(views(macros@).take(0) =~= Seq::<MacroView>::empty());
    while i < macros.len()
        invariant
            i <= macros.len(),
            lookup(views(macros@).take(i as int), name@) is None,
        decreases macros.len() - i,
    {
        proof {
            assert(views(macros@).take(i + 1).drop_last() =~= views(macros@).take(i as int));
            assert(views(macros@).take(i + 1).last() == macros@[i as int]@);
        }
        if macros[i].name == *name {
            proof {
                lemma_lookup_found(views(macros@), name@, i + 1);
            }
            return Some(&macros[i]);
        }
        i += 1;
    }
    assert(views(macros@).take(macros@.len() as int) =~= views(macros@));
    None
}

/// Expands the invocation of `m` that stands on `line` of the unit `file`.
pub fn invoke(m: &Macro, line: &SourceLine, file: &str) -> (r: Result<Vec<Emitted>, Diagnostic>)
    ensures
        outcomes(r) == invoked(m@, line@, file@),
{
    let chars = to_chars(line.text.as_str());
    let at = find_break(&chars, 0, Delimiter::Space);
    let mut rest: Vec<char> = Vec::new();
    proof {
        assert(chars@.skip(0) =~= chars@);
    }
    if at < chars.len() {
        rest = slice(&chars, at + 1, chars.len());
        assert(rest@ =~= chars@.skip(at + 1));
    } else {
        assert(rest@ =~= Seq::<char>::empty());
    }
    let arguments = split_entries(&rest);
    let parameters = to_char_lists(&m.parameters);
    if arguments.len() != m.parameters.len() {
        return Err(
            Diagnostic::report(
                ErrorKind::ArityMismatchError {
                    expected: m.parameters.len(),
                    found: arguments.len(),
                },
                m.name.as_str(),
                file,
                line,
                None,
            ),
        );
    }
    let mut out: Vec<Emitted> = Vec::new();
    let mut i: usize = 0;
    let ghost goal = invoked(m@, line@, file@)->Ok_0;
    while i < m.body.len()
        invariant
            i <= m.body.len(),
            out.len() == i,
            parameters.len() == arguments.len(),
            views(parameters@) == m@.parameters,
            views(arguments@) == entries(argument_text(line@.text)),
            invoked(m@, line@, file@) == Ok::<Seq<EmittedView>, DiagnosticView>(goal),
            views(out@) == goal.take(i as int),
        decreases m.body.len() - i,
    {
        let text = substitute(&to_chars(m.body[i].as_str()), &parameters, &arguments);
        let ghost before = out@;
        out.push(Emitted::Instruction(to_text(&text)));
        proof {
            assert forall|j: int| 0 <= j <= i implies views(out@)[j] == goal[j] by {
                if j < i {
                    assert(views(out@)[j] == views(before)[j]);
                }
            }
            assert(views(out@) =~= goal.take(i + 1));
        }
        i += 1;
    }
    assert(goal.take(goal.len() as int) =~= goal);
    Ok(out)
}

/// Expands one line of the residual source of the unit `file`.
pub fn expand_line(macros: &Vec<Macro>, line: &SourceLine, file: &str) -> (r: Result<
    Vec<Emitted>,
    Diagnostic,
>)
    ensures
        outcomes(r) == expansion(views(macros@), line@, file@),
{
    let chars = to_chars(line.text.as_str());
    let mut out: Vec<Emitted> = Vec::new();
    match classify_chars(&chars) {
        LineKind::Label => {
            out.push(Emitted::Label(line.duplicate()));
            assert(views(out@) =~= seq![EmittedView::Label(line@)]);
            Ok(out)
        },
        LineKind::Content => {
            let at = find_break(&chars, 0, Delimiter::Space);
            let token = slice(&chars, 0, at);
            proof {
                assert(chars@.skip(0) =~= chars@);
                assert(token@ =~= leading_token(line@.text));
            }
            if is_mnemonic(&token) {
                out.push(Emitted::Instruction(line.text.clone()));
                assert(views(out@) =~= seq![EmittedView::Instruction(line@.text)]);
                return Ok(out);
            }
            let name = to_text(&token);
            match find_macro(macros, &name) {
                Some(m) => invoke(m, line, file),
                None => Err(
                    Diagnostic::report(
                        ErrorKind::UnknownInstructionError,
                        name.as_str(),
                        file,
                        line,
                        None,
                    ),
                ),
            }
        },
        _ => {
            assert(views(out@) =~= Seq::<EmittedView>::empty());
            Ok(out)
        },
    }
}

/// Expands the residual source of the unit `file` with the given macros:
/// gives the expanded stream, or the first diagnostic that a line raises.
pub fn expand(macros: &Vec<Macro>, residual: &Vec<SourceLine>, file: &str) -> (r: Result<
    Vec<Emitted>,
    Diagnostic,
>)
    ensures
        outcomes(r) == expanded(views(macros@), views(residual@), file@),
{
    let mut stream: Vec<Emitted> = Vec::new();
    let mut i: usize = 0;
    proof {
        assert(views(residual@).take(0) =~= Seq::<LineView>::empty());
        assert(views(stream@) =~= Seq::<EmittedView>::empty());
    }
    while i < residual.len()
        invariant
            i <= residual.len(),
            expanded(views(macros@), views(residual@).take(i as int), file@) == Ok::<
                Seq<EmittedView>,
                DiagnosticView,
            >(views(stream@)),
        decreases residual.len() - i,
    {
        proof {
            assert(views(residual@).take(i + 1).drop_last() =~= views(residual@).take(i as int));
            assert(views(residual@).take(i + 1).last() == residual@[i as int]@);
        }
        match expand_line(macros, &residual[i], file) {
            Err(d) => {
                proof {
                    lemma_expanded_fails(views(macros@), views(residual@), file@, i + 1);
                }
                return Err(d);
            },
            Ok(more) => {
                let mut more = more;
                proof {
                    lemma_views_add(stream@, more@);
                }
                stream.append(&mut more);
            },
        }
        i += 1;
    }
    assert(views(residual@).take(residual@.len() as int) =~= views(residual@));
    Ok(stream)
}

/// The instructions of an expanded stream, in order.
pub fn instructions(stream: &Vec<Emitted>) -> (lines: Vec<String>)
    ensures
        views(lines@) == instructions_of(views(stream@)),
{
    let mut lines: Vec<String> = Vec::new();
    let mut i: usize = 0;
    proof {
        assert(views(stream@).take(0) =~= Seq::<EmittedView>::empty());
        assert(views(lines@) =~= Seq::<Seq<char>>::empty());
    }
    while i < stream.len()
        invariant
            i <= stream.len(),
            views(lines@) == instructions_of(views(stream@).take(i as int)),
        decreases stream.len() - i,
    {
        proof {
            assert(views(stream@).take(i + 1).drop_last() =~= views(stream@).take(i as int));
            assert(views(stream@).take(i + 1).last() == stream@[i as int]@);
        }
        match &stream[i] {
            Emitted::Instruction(text) => {
                proof {
                    lemma_views_push(lines@, *text);
                }
                lines.push(text.clone());
            },
            Emitted::Label(_) => {},
        }
        i += 1;
    }
    assert(views(stream@).take(stream@.len() as int) =~= views(stream@));
    lines
}

} // verus!
