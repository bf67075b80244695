//! Front end of a two-pass assembler for a small fixed-width instruction set:
//! macro definition and expansion, and the label table that goes with it.
//!
//! A source text is cut into lines (`line`). One pass collects the macro
//! definitions and leaves the residual source (`macro_table`); a second
//! pass expands the macro invocations in it (`expand`); a last pass gives
//! each label its byte offset in the expanded stream (`label`). `assembler`
//! runs the passes on a text. An error is a value (`diagnostic`), and the
//! first one ends the unit.
//!
//! Every pass is specified by a function on `Seq<char>` and proved against
//! it. `laws`, `hygiene` and `joining` prove what holds of the passes
//! together.

pub mod assembler;
pub mod diagnostic;
pub mod expand;
pub mod format;
pub mod hygiene;
pub mod joining;
pub mod label;
pub mod laws;
pub mod line;
pub mod macro_table;
pub mod mnemonic;
pub mod substitution;
pub mod text;
