use if_true::assembler::{assemble, expand_macros, parse_labels, parse_macros};
use if_true::diagnostic::ErrorKind;

#[test]
fn double_expands_to_add() {
    let out = expand_macros("@double %x\nadd %x, %x\nend\ndouble r1", "t.asm").unwrap();
    assert_eq!(out, "add r1, r1");
}

#[test]
fn arity_mismatch_reports_expected_and_found() {
    let err = expand_macros("@foo %a, %b\nadd %a, %b\nend\nfoo 1, 2, 3", "t.asm").unwrap_err();
    assert_eq!(err.kind, ErrorKind::ArityMismatchError { expected: 2, found: 3 });
    assert_eq!(err.line, 4);
    assert_eq!(err.excerpt, "foo 1, 2, 3");
    assert_eq!(err.file, "t.asm");
    assert_eq!(err.message, "incorrect number of arguments");
}

#[test]
fn header_inside_macro_is_nested_error_at_second_header() {
    let err = expand_macros("@a\nnop\n@b\nnop\nend\nend", "t.asm").unwrap_err();
    assert_eq!(err.kind, ErrorKind::NestedMacroError { opened_at: 1 });
    assert_eq!(err.line, 3);
    assert_eq!(err.excerpt, "@b");
}

#[test]
fn unknown_leading_word_is_an_error() {
    let err = expand_macros("nop\nfrobnicate r1\nhalt", "t.asm").unwrap_err();
    assert_eq!(err.kind, ErrorKind::UnknownInstructionError);
    assert_eq!(err.line, 2);
    assert_eq!(err.message, "unknown instruction 'frobnicate'");
}

#[test]
fn plain_program_expands_to_itself() {
    let out = expand_macros("ldi r1, 5\nadd r1, r2\nhalt", "t.asm").unwrap();
    assert_eq!(out, "ldi r1, 5\nadd r1, r2\nhalt");
}

#[test]
fn plain_program_is_normalized() {
    let out = expand_macros("  LDI R1, 5  \r\n\n// note\n\tAdd r1, R2\nHALT\n", "t.asm").unwrap();
    assert_eq!(out, "ldi r1, 5\nadd r1, r2\nhalt");
}

#[test]
fn expanding_twice_changes_nothing() {
    let source = "@inc %r\nldi r9, 1\nadd %r, r9\nend\n.start\ninc r1\ninc r2\njmp start";
    let once = expand_macros(source, "t.asm").unwrap();
    assert_eq!(once, "ldi r9, 1\nadd r1, r9\nldi r9, 1\nadd r2, r9\njmp start");
    let twice = expand_macros(&once, "t.asm").unwrap();
    assert_eq!(twice, once);
}

#[test]
fn macro_with_several_lines_and_parameters() {
    let source = "@swap %a, %b\nxor %a, %b\nxor %b, %a\nxor %a, %b\nend\nswap r1, r2";
    let out = expand_macros(source, "t.asm").unwrap();
    assert_eq!(out, "xor r1, r2\nxor r2, r1\nxor r1, r2");
}

#[test]
fn macro_with_empty_body_gives_no_line() {
    let out = expand_macros("@none %x\nend\nnop\nnone 1\nhalt", "t.asm").unwrap();
    assert_eq!(out, "nop\nhalt");
}

#[test]
fn substitution_is_sequential() {
    let source = "@pair %a, %b\nadd %a, %b\nend\npair %b, r2";
    let out = expand_macros(source, "t.asm").unwrap();
    assert_eq!(out, "add r2, r2");
}

#[test]
fn parameter_that_is_prefix_of_another_is_replaced_first() {
    let source = "@m %a, %ab\nadd %ab, %a\nend\nm r1, r2";
    let out = expand_macros(source, "t.asm").unwrap();
    assert_eq!(out, "add r1b, r1");
}

#[test]
fn invocations_in_a_body_are_not_expanded_again() {
    let source = "@inner\nnop\nend\n@outer %x\ninner\nend\nouter 1";
    let out = expand_macros(source, "t.asm").unwrap();
    assert_eq!(out, "inner");
}

#[test]
fn bare_name_passes_one_empty_argument() {
    let out = expand_macros("@clear %r\nxor r1, r1%r\nend\nclear", "t.asm").unwrap();
    assert_eq!(out, "xor r1, r1");
    let err = expand_macros("@stop\nhalt\nend\nstop", "t.asm").unwrap_err();
    assert_eq!(err.kind, ErrorKind::ArityMismatchError { expected: 0, found: 1 });
}

#[test]
fn comments_labels_and_blanks_in_a_body_are_dropped() {
    let source = "@m\n// inside\n.inner\n\nnop\nend";
    let (macros, residual) = parse_macros(source, "t.asm").unwrap();
    assert_eq!(macros.len(), 1);
    assert_eq!(macros[0].name, "m");
    assert!(macros[0].parameters.is_empty());
    assert_eq!(macros[0].body, vec!["nop".to_string()]);
    assert_eq!(residual, "");
    assert!(parse_labels(source, "t.asm").unwrap().is_empty());
}

#[test]
fn residual_keeps_what_is_outside_definitions() {
    let source = "// top\n.start\n@m %x\nadd %x, %x\nend\n\nm r1\nhalt";
    let (macros, residual) = parse_macros(source, "t.asm").unwrap();
    assert_eq!(macros.len(), 1);
    assert_eq!(macros[0].parameters, vec!["%x".to_string()]);
    assert_eq!(macros[0].body, vec!["add %x, %x".to_string()]);
    assert_eq!(residual, "// top\n.start\n\nm r1\nhalt");
}

#[test]
fn header_parameters_are_trimmed() {
    let (macros, _) = parse_macros("@M   %A ,%b,   %c\nend", "t.asm").unwrap();
    assert_eq!(macros[0].name, "m");
    assert_eq!(
        macros[0].parameters,
        vec!["%a".to_string(), "%b".to_string(), "%c".to_string()]
    );
}

#[test]
fn reserved_name_is_refused() {
    let err = parse_macros("@add %x\nnop\nend", "t.asm").unwrap_err();
    assert_eq!(err.kind, ErrorKind::ReservedNameError);
    assert_eq!(err.line, 1);
    assert_eq!(err.message, "macros cannot share a name with a cpu instruction");
}

#[test]
fn every_mnemonic_is_reserved() {
    let names = [
        "ldr", "lda", "ldi", "st", "add", "adc", "sub", "or", "and", "xor", "not", "lsl", "lsr",
        "cmp", "breq", "brne", "brgt", "brlt", "brge", "brle", "jmp", "out", "in", "nop", "halt",
    ];
    for name in names {
        let source = format!("@{}\nend", name);
        let err = parse_macros(&source, "t.asm").unwrap_err();
        assert_eq!(err.kind, ErrorKind::ReservedNameError);
        let plain = format!("{} r1", name);
        assert_eq!(expand_macros(&plain, "t.asm").unwrap(), plain);
    }
    assert!(parse_macros("@halts\nend", "t.asm").is_ok());
    assert!(parse_macros("@ad\nend", "t.asm").is_ok());
}

#[test]
fn duplicate_macro_is_refused() {
    let err = parse_macros("@m\nend\n@n\nend\n@m %x\nend", "t.asm").unwrap_err();
    assert_eq!(err.kind, ErrorKind::DuplicateMacroError);
    assert_eq!(err.line, 5);
    assert_eq!(err.message, "macro 'm' already declared");
}

#[test]
fn parameter_without_prefix_is_refused_with_its_column() {
    let err = parse_macros("nop\n@m %a,  b, %c\nend", "t.asm").unwrap_err();
    assert_eq!(err.kind, ErrorKind::InvalidArgumentPrefixError);
    assert_eq!(err.line, 2);
    assert_eq!(err.column, Some(8));
    assert_eq!(err.excerpt, "@m %a,  b, %c");
}

#[test]
fn empty_parameter_is_refused() {
    let err = parse_macros("@m %a,,%c\nend", "t.asm").unwrap_err();
    assert_eq!(err.kind, ErrorKind::InvalidArgumentPrefixError);
    assert_eq!(err.column, Some(6));
}

#[test]
fn reserved_name_is_reported_before_a_bad_parameter() {
    let err = parse_macros("@sub x\nend", "t.asm").unwrap_err();
    assert_eq!(err.kind, ErrorKind::ReservedNameError);
}

#[test]
fn end_without_macro_is_refused() {
    let err = parse_macros("nop\nend", "t.asm").unwrap_err();
    assert_eq!(err.kind, ErrorKind::DanglingEndError);
    assert_eq!(err.line, 2);
    assert_eq!(err.column, None);
}

#[test]
fn unterminated_macro_is_refused_at_its_header() {
    let err = parse_macros("nop\n@m %x\nadd %x, %x", "t.asm").unwrap_err();
    assert_eq!(err.kind, ErrorKind::UnterminatedMacroError);
    assert_eq!(err.line, 2);
    assert_eq!(err.excerpt, "@m %x");
    assert_eq!(err.message, "macro 'm' not ended");
}

#[test]
fn first_error_wins() {
    let err = assemble("frob\n@add\nend", "t.asm").unwrap_err();
    assert_eq!(err.kind, ErrorKind::ReservedNameError);
    let err = assemble(".a\n.a\nfrob", "t.asm").unwrap_err();
    assert_eq!(err.kind, ErrorKind::UnknownInstructionError);
}

#[test]
fn empty_source_assembles_to_nothing() {
    let assembly = assemble("", "t.asm").unwrap();
    assert!(assembly.instructions.is_empty());
    assert!(assembly.labels.is_empty());
    assert_eq!(expand_macros("", "t.asm").unwrap(), "");
}
