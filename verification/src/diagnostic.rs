//! Diagnostics: the errors of a compilation unit as values, and the text
//! that reports one.
//!
//! Every diagnostic is fatal for its unit. The first one found is the only
//! one returned, and no output goes with it.

use vstd::prelude::*;
use vstd::string::*;
use crate::format::{blanks, decimal, format_number, pad};
use crate::line::{LineView, SourceLine};
use crate::text::{append, to_chars, to_text, views};

verus! {

/// What went wrong.
#[derive(Clone, Copy, Debug, PartialEq, Eq, Structural)]
pub enum ErrorKind {
    /// A macro header stands inside a macro that began on line `opened_at`.
    NestedMacroError { opened_at: usize },
    /// A macro takes the name of an instruction.
    ReservedNameError,
    /// A macro takes the name of an earlier macro.
    DuplicateMacroError,
    /// A macro parameter does not begin with `%`.
    InvalidArgumentPrefixError,
    /// `end` stands where no macro is open.
    DanglingEndError,
    /// The source ends inside a macro.
    UnterminatedMacroError,
    /// A macro is invoked with `found` arguments and has `expected` parameters.
    ArityMismatchError { expected: usize, found: usize },
    /// A label takes the name of the label declared on line `first_defined_at`.
    DuplicateLabelError { first_defined_at: usize },
    /// A line names neither an instruction nor a macro.
    UnknownInstructionError,
}

/// One error of a compilation unit, with the place it was found at.
#[derive(Clone, Debug, PartialEq, Eq)]
pub struct Diagnostic {
    pub kind: ErrorKind,
    /// The error in words.
    pub message: String,
    /// The name of the compilation unit.
    pub file: String,
    /// The number of the offending line, counted from 1.
    pub line: usize,
    /// Where it is known: how many characters of the line come before the
    /// offending one.
    pub column: Option<usize>,
    /// The offending line, in normal form.
    pub excerpt: String,
}

/// What a `Diagnostic` stands for.
pub struct DiagnosticView {
    pub kind: ErrorKind,
    pub message: Seq<char>,
    pub file: Seq<char>,
    pub line: nat,
    pub column: Option<nat>,
    pub excerpt: Seq<char>,
}

impl View for Diagnostic {
    type V = DiagnosticView;

    open spec fn view(&self) -> DiagnosticView {
        DiagnosticView {
            kind: self.kind,
            message: self.message@,
            file: self.file@,
            line: self.line as nat,
            column: match self.column {
                Some(c) => Some(c as nat),
                None => None,
            },
            excerpt: self.excerpt@,
        }
    }
}

/// What a pass returns, in terms of what its result stands for.
pub open spec fn outcome<T: View>(r: Result<T, Diagnostic>) -> Result<T::V, DiagnosticView> {
    match r {
        Ok(value) => Ok(value@),
        Err(d) => Err(d@),
    }
}

/// What a pass that gives a list returns, in terms of what the items stand
/// for.
pub open spec fn outcomes<T: View>(r: Result<Vec<T>, Diagnostic>) -> Result<
    Seq<T::V>,
    DiagnosticView,
> {
    match r {
        Ok(items) => Ok(views(items@)),
        Err(d) => Err(d@),
    }
}

/// The name under which a kind of error is reported.
pub open spec fn kind_name(kind: ErrorKind) -> Seq<char> {
    match kind {
        ErrorKind::NestedMacroError { .. } => "NestedMacroError"@,
        ErrorKind::ReservedNameError => "ReservedNameError"@,
        ErrorKind::DuplicateMacroError => "DuplicateMacroError"@,
        ErrorKind::InvalidArgumentPrefixError => "InvalidArgumentPrefixError"@,
        ErrorKind::DanglingEndError => "DanglingEndError"@,
        ErrorKind::UnterminatedMacroError => "UnterminatedMacroError"@,
        ErrorKind::ArityMismatchError { .. } => "ArityMismatchError"@,
        ErrorKind::DuplicateLabelError { .. } => "DuplicateLabelError"@,
        ErrorKind::UnknownInstructionError => "UnknownInstructionError"@,
    }
}

/// The message of an error of the given kind about `subject`: the name of
/// the macro, label or instruction concerned, where the message names one.
pub open spec fn message_for(kind: ErrorKind, subject: Seq<char>) -> Seq<char> {
    match kind {
        ErrorKind::NestedMacroError { .. } => "macro inside another macro"@,
        ErrorKind::ReservedNameError => "macros cannot share a name with a cpu instruction"@,
        ErrorKind::DuplicateMacroError => "macro '"@ + subject + "' already declared"@,
        ErrorKind::InvalidArgumentPrefixError => "macro arguments must begin with '%'"@,
        ErrorKind::DanglingEndError => "'end' keyword with no macro to close"@,
        ErrorKind::UnterminatedMacroError => "macro '"@ + subject + "' not ended"@,
        ErrorKind::ArityMismatchError { .. } => "incorrect number of arguments"@,
        ErrorKind::DuplicateLabelError { .. } => "label '"@ + subject + "' already declared"@,
        ErrorKind::UnknownInstructionError => "unknown instruction '"@ + subject + "'"@,
    }
}

/// The diagnostic of the given kind about `subject`, found on `line` of the
/// unit `file`.
pub open spec fn diagnosis(
    kind: ErrorKind,
    subject: Seq<char>,
    file: Seq<char>,
    line: LineView,
    column: Option<nat>,
) -> DiagnosticView {
    DiagnosticView {
        kind,
        message: message_for(kind, subject),
        file,
        line: line.number,
        column,
        excerpt: line.text,
    }
}

/// What a report adds after the frame: the second place or the numbers that
/// the kind of error carries.
pub open spec fn note(kind: ErrorKind) -> Seq<char> {
    match kind {
        ErrorKind::NestedMacroError { opened_at } => " first macro defined on line "@ + decimal(
            opened_at as nat,
        ),
        ErrorKind::ArityMismatchError { expected, found } => " expected "@ + decimal(
            expected as nat,
        ) + " arguments, found "@ + decimal(found as nat),
        ErrorKind::DuplicateLabelError { first_defined_at } => " first declared on line "@
            + decimal(first_defined_at as nat),
        _ => Seq::empty(),
    }
}

/// The caret under the offending column, where the column is known.
pub open spec fn marker(column: Option<nat>) -> Seq<char> {
    match column {
        Some(c) => " "@ + blanks(c) + "^"@,
        None => Seq::empty(),
    }
}

/// The report of a diagnostic: the kind and the message, the unit and the
/// line number, then the offending line in a frame, with a caret under the
/// offending column where it is known.
pub open spec fn rendered(d: DiagnosticView) -> Seq<char> {
    let number = decimal(d.line);
    let gutter = blanks(number.len());
    "error["@ + kind_name(d.kind) + "]: "@ + d.message + "\n--> "@ + d.file + ":"@ + number + "\n"@
        + gutter + " |\n"@ + number + " | "@ + d.excerpt + "\n"@ + gutter + " |"@ + marker(
        d.column,
    ) + note(d.kind) + "\n"@
}

fn kind_label(kind: ErrorKind) -> (name: &'static str)
    ensures
        name@ == kind_name(kind),
{
    match kind {
        ErrorKind::NestedMacroError { .. } => "NestedMacroError",
        ErrorKind::ReservedNameError => "ReservedNameError",
        ErrorKind::DuplicateMacroError => "DuplicateMacroError",
        ErrorKind::InvalidArgumentPrefixError => "InvalidArgumentPrefixError",
        ErrorKind::DanglingEndError => "DanglingEndError",
        ErrorKind::UnterminatedMacroError => "UnterminatedMacroError",
        ErrorKind::ArityMismatchError { .. } => "ArityMismatchError",
        ErrorKind::DuplicateLabelError { .. } => "DuplicateLabelError",
        ErrorKind::UnknownInstructionError => "UnknownInstructionError",
    }
}

fn framed(before: &str, subject: &str, after: &str) -> (text: String)
    ensures
        text@ == before@ + subject@ + after@,
{
    let mut text = String::from_str(before);
    text.append(subject);
    text.append(after);
    text
}

fn message_text(kind: ErrorKind, subject: &str) -> (message: String)
    ensures
        message@ == message_for(kind, subject@),
{
    match kind {
        ErrorKind::NestedMacroError { .. } => String::from_str("macro inside another macro"),
        ErrorKind::ReservedNameError => String::from_str(
            "macros cannot share a name with a cpu instruction",
        ),
        ErrorKind::DuplicateMacroError => framed("macro '", subject, "' already declared"),
        ErrorKind::InvalidArgumentPrefixError => String::from_str(
            "macro arguments must begin with '%'",
        ),
        ErrorKind::DanglingEndError => String::from_str("'end' keyword with no macro to close"),
        ErrorKind::UnterminatedMacroError => framed("macro '", subject, "' not ended"),
        ErrorKind::ArityMismatchError { .. } => String::from_str("incorrect number of arguments"),
        ErrorKind::DuplicateLabelError { .. } => framed("label '", subject, "' already declared"),
        ErrorKind::UnknownInstructionError => framed("unknown instruction '", subject, "'"),
    }
}

fn note_text(kind: ErrorKind) -> (text: Vec<char>)
    ensures
        text@ == note(kind),
{
    match kind {
        ErrorKind::NestedMacroError { opened_at } => {
            let mut text = to_chars(" first macro defined on line ");
            append(&mut text, &format_number(opened_at));
            text
        },
        ErrorKind::ArityMismatchError { expected, found } => {
            let mut text = to_chars(" expected ");
            append(&mut text, &format_number(expected));
            append(&mut text, &to_chars(" arguments, found "));
            append(&mut text, &format_number(found));
            text
        },
        ErrorKind::DuplicateLabelError { first_defined_at } => {
            let mut text = to_chars(" first declared on line ");
            append(&mut text, &format_number(first_defined_at));
            text
        },
        _ => Vec::new(),
    }
}

fn marker_text(column: Option<usize>) -> (text: Vec<char>)
    ensures
        text@ == marker(
            match column {
                Some(c) => Some(c as nat),
                None => None,
            },
        ),
{
    match column {
        Some(c) => {
            let mut text = to_chars(" ");
            append(&mut text, &pad(c));
            append(&mut text, &to_chars("^"));
            text
        },
        None => Vec::new(),
    }
}

impl Diagnostic {
    /// The diagnostic of the given kind about `subject`, found on `line` of
    /// the unit `file`.
    pub fn report(
        kind: ErrorKind,
        subject: &str,
        file: &str,
        line: &SourceLine,
        column: Option<usize>,
    ) -> (d: Diagnostic)
        ensures
            d@ == diagnosis(
                kind,
                subject@,
                file@,
                line@,
                match column {
                    Some(c) => Some(c as nat),
                    None => None,
                },
            ),
    {
        Diagnostic {
            kind,
            message: message_text(kind, subject),
            file: String::from_str(file),
            line: line.number,
            column,
            excerpt: line.text.clone(),
        }
    }

    /// The report of this diagnostic, as the text to show.
    pub fn render(&self) -> (report: String)
        ensures
            report@ == rendered(self@),
    {
        let number = format_number(self.line);
        let gutter = pad(number.len());
        let mut out = to_chars("error[");
        append(&mut out, &to_chars(kind_label(self.kind)));
        append(&mut out, &to_chars("]: "));
        append(&mut out, &to_chars(self.message.as_str()));
        append(&mut out, &to_chars("\n--> "));
        append(&mut out, &to_chars(self.file.as_str()));
        append(&mut out, &to_chars(":"));
        append(&mut out, &number);
        append(&mut out, &to_chars("\n"));
        append(&mut out, &gutter);
        append(&mut out, &to_chars(" |\n"));
        append(&mut out, &number);
        append(&mut out, &to_chars(" | "));
        append(&mut out, &to_chars(self.excerpt.as_str()));
        append(&mut out, &to_chars("\n"));
        append(&mut out, &gutter);
        append(&mut out, &to_chars(" |"));
        append(&mut out, &marker_text(self.column));
        append(&mut out, &note_text(self.kind));
        append(&mut out, &to_chars("\n"));
        to_text(&out)
    }
}

} // verus!
