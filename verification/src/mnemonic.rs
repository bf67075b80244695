//! The reserved mnemonics: the instruction names of the target machine.

use vstd::prelude::*;
use vstd::string::*;
use crate::text::{same_text, to_chars};

verus! {

/// Whether `token` is one of the 25 instruction names. No macro may take
/// one of them as its name.
pub open spec fn is_reserved(token: Seq<char>) -> bool {
    ||| token == "ldr"@
    ||| token == "lda"@
    ||| token == "ldi"@
    ||| token == "st"@
    ||| token == "add"@
    ||| token == "adc"@
    ||| token == "sub"@
    ||| token == "or"@
    ||| token == "and"@
    ||| token == "xor"@
    ||| token == "not"@
    ||| token == "lsl"@
    ||| token == "lsr"@
    ||| token == "cmp"@
    ||| token == "breq"@
    ||| token == "brne"@
    ||| token == "brgt"@
    ||| token == "brlt"@
    ||| token == "brge"@
    ||| token == "brle"@
    ||| token == "jmp"@
    ||| token == "out"@
    ||| token == "in"@
    ||| token == "nop"@
    ||| token == "halt"@
}

/// Whether the characters spell the given word.
pub fn is_word(token: &Vec<char>, word: &str) -> (r: bool)
    ensures
        r == (token@ == word@),
{
    let letters = to_chars(word);
    same_text(token, &letters)
}

/// Whether the characters spell a reserved mnemonic. The test looks at the
/// length first, so that only the words of that length are compared.
pub fn is_mnemonic(token: &Vec<char>) -> (r: bool)
    ensures
        r == is_reserved(token@),
{
    proof {
        reveal_strlit("ldr");
        reveal_strlit("lda");
        reveal_strlit("ldi");
        reveal_strlit("st");
        reveal_strlit("add");
        reveal_strlit("adc");
        reveal_strlit("sub");
        reveal_strlit("or");
        reveal_strlit("and");
        reveal_strlit("xor");
        reveal_strlit("not");
        reveal_strlit("lsl");
        reveal_strlit("lsr");
        reveal_strlit("cmp");
        reveal_strlit("breq");
        reveal_strlit("brne");
        reveal_strlit("brgt");
        reveal_strlit("brlt");
        reveal_strlit("brge");
        reveal_strlit("brle");
        reveal_strlit("jmp");
        reveal_strlit("out");
        reveal_strlit("in");
        reveal_strlit("nop");
        reveal_strlit("halt");
    }
    if token.len() == 2 {
        is_word(token, "st") || is_word(token, "or") || is_word(token, "in")
    } else if token.len() == 3 {
        is_word(token, "ldr") || is_word(token, "lda") || is_word(token, "ldi") || is_word(
            token,
            "add",
        ) || is_word(token, "adc") || is_word(token, "sub") || is_word(token, "and") || is_word(
            token,
            "xor",
        ) || is_word(token, "not") || is_word(token, "lsl") || is_word(token, "lsr") || is_word(
            token,
            "cmp",
        ) || is_word(token, "jmp") || is_word(token, "out") || is_word(token, "nop")
    } else if token.len() == 4 {
        is_word(token, "breq") || is_word(token, "brne") || is_word(token, "brgt") || is_word(
            token,
            "brlt",
        ) || is_word(token, "brge") || is_word(token, "brle") || is_word(token, "halt")
    } else {
        false
    }
}

} // verus!
