use if_true::assembler::{assemble_lines, expand_macros, parse_macros};
use if_true::diagnostic::ErrorKind;
use if_true::expand::{expand, expand_line, find_macro, instructions, invoke, Emitted};
use if_true::line::{classify, normalize, LineKind, SourceLine};
use if_true::macro_table::{build_macro_table, BuilderState, Macro, MacroTableBuilder};
use if_true::mnemonic::is_mnemonic;
use if_true::substitution::{parse_parameters, substitute};
use if_true::text::to_text;

fn chars(s: &str) -> Vec<char> {
    s.chars().collect()
}

fn line(text: &str, number: usize) -> SourceLine {
    SourceLine { text: text.to_string(), number }
}

fn double() -> Macro {
    Macro {
        name: "double".to_string(),
        parameters: vec!["%x".to_string()],
        body: vec!["add %x, %x".to_string()],
    }
}

#[test]
fn builder_starts_scanning() {
    let builder = MacroTableBuilder::new();
    assert_eq!(builder.state, BuilderState::Scanning);
    assert!(builder.finished.is_empty());
    assert!(builder.residual.is_empty());
}

#[test]
fn builder_walks_through_a_definition() {
    let builder = MacroTableBuilder::new();
    let builder = builder.step(&line("nop", 1), "t.asm").unwrap();
    assert_eq!(builder.state, BuilderState::Scanning);
    assert_eq!(builder.residual, vec![line("nop", 1)]);

    let builder = builder.step(&line("@double %x", 2), "t.asm").unwrap();
    let opened = BuilderState::InMacroBody {
        definition: Macro {
            name: "double".to_string(),
            parameters: vec!["%x".to_string()],
            body: vec![],
        },
        opened_at: 2,
        opening_text: "@double %x".to_string(),
    };
    assert_eq!(builder.state, opened);

    let builder = builder.step(&line("// inside", 3), "t.asm").unwrap();
    assert_eq!(builder.state, opened);
    let builder = builder.step(&line("add %x, %x", 4), "t.asm").unwrap();
    let builder = builder.step(&line("end", 5), "t.asm").unwrap();
    assert_eq!(builder.state, BuilderState::Scanning);
    assert_eq!(builder.finished, vec![double()]);
    assert_eq!(builder.residual, vec![line("nop", 1)]);

    let table = builder.finish("t.asm").unwrap();
    assert_eq!(table.macros, vec![double()]);
    assert_eq!(table.residual, vec![line("nop", 1)]);
}

#[test]
fn builder_refuses_what_the_state_forbids() {
    let scanning = MacroTableBuilder::new();
    let err = scanning.step(&line("end", 9), "t.asm").unwrap_err();
    assert_eq!(err.kind, ErrorKind::DanglingEndError);
    assert_eq!(err.line, 9);

    let inside = MacroTableBuilder::new().step(&line("@a", 4), "t.asm").unwrap();
    let err = inside.clone().step(&line("@b", 6), "t.asm").unwrap_err();
    assert_eq!(err.kind, ErrorKind::NestedMacroError { opened_at: 4 });
    assert_eq!(err.line, 6);

    let err = inside.finish("t.asm").unwrap_err();
    assert_eq!(err.kind, ErrorKind::UnterminatedMacroError);
    assert_eq!(err.line, 4);
    assert_eq!(err.excerpt, "@a");
}

#[test]
fn macro_table_of_lines() {
    let lines = normalize(".top\n@double %x\nadd %x, %x\nend\ndouble r1");
    let table = build_macro_table(&lines, "t.asm").unwrap();
    assert_eq!(table.macros, vec![double()]);
    assert_eq!(table.residual, vec![line(".top", 1), line("double r1", 5)]);
}

#[test]
fn macro_is_found_by_name() {
    let other = Macro { name: "double".to_string(), parameters: vec![], body: vec![] };
    let macros = vec![double(), other];
    assert_eq!(find_macro(&macros, &"double".to_string()), Some(&macros[0]));
    assert_eq!(find_macro(&macros, &"triple".to_string()), None);
}

#[test]
fn invocation_binds_arguments_in_order() {
    let out = invoke(&double(), &line("double r7", 3), "t.asm").unwrap();
    assert_eq!(out, vec![Emitted::Instruction("add r7, r7".to_string())]);
    let err = invoke(&double(), &line("double r7, r8", 3), "t.asm").unwrap_err();
    assert_eq!(err.kind, ErrorKind::ArityMismatchError { expected: 1, found: 2 });
    assert_eq!(err.line, 3);
}

#[test]
fn lines_expand_by_their_kind() {
    let macros = vec![double()];
    assert_eq!(expand_line(&macros, &line("", 1), "t.asm").unwrap(), vec![]);
    assert_eq!(expand_line(&macros, &line("// c", 1), "t.asm").unwrap(), vec![]);
    assert_eq!(expand_line(&macros, &line("@m", 1), "t.asm").unwrap(), vec![]);
    assert_eq!(expand_line(&macros, &line("end", 1), "t.asm").unwrap(), vec![]);
    assert_eq!(
        expand_line(&macros, &line(".here", 1), "t.asm").unwrap(),
        vec![Emitted::Label(line(".here", 1))]
    );
    assert_eq!(
        expand_line(&macros, &line("jmp here", 1), "t.asm").unwrap(),
        vec![Emitted::Instruction("jmp here".to_string())]
    );
    assert_eq!(
        expand_line(&macros, &line("double r2", 1), "t.asm").unwrap(),
        vec![Emitted::Instruction("add r2, r2".to_string())]
    );
    let err = expand_line(&macros, &line("triple r2", 8), "t.asm").unwrap_err();
    assert_eq!(err.kind, ErrorKind::UnknownInstructionError);
    assert_eq!(err.line, 8);
}

#[test]
fn stream_keeps_labels_where_they_stand() {
    let macros = vec![double()];
    let residual = vec![line("nop", 1), line(".a", 2), line("double r1", 6), line(".b", 7)];
    let stream = expand(&macros, &residual, "t.asm").unwrap();
    assert_eq!(
        stream,
        vec![
            Emitted::Instruction("nop".to_string()),
            Emitted::Label(line(".a", 2)),
            Emitted::Instruction("add r1, r1".to_string()),
            Emitted::Label(line(".b", 7)),
        ]
    );
    assert_eq!(instructions(&stream), vec!["nop".to_string(), "add r1, r1".to_string()]);
}

#[test]
fn lines_assemble_like_their_text() {
    let lines = vec![line(".a", 1), line("nop", 2), line(".b", 3)];
    let assembly = assemble_lines(&lines, "t.asm").unwrap();
    assert_eq!(assembly.instructions, vec!["nop".to_string()]);
    assert_eq!(assembly.labels.len(), 2);
    assert_eq!(assembly.labels[1].byte_offset, 4);
}

#[test]
fn invocation_replaces_in_the_joined_body() {
    let source = "@m %a, %b\nadd %a, %b\nsub %b, %a\nst %a\nend\nm r1, r2";
    let (macros, _) = parse_macros(source, "t.asm").unwrap();
    let expected = macros[0].body.join("\n").replace("%a", "r1").replace("%b", "r2");
    assert_eq!(expand_macros(source, "t.asm").unwrap(), expected);
}

#[test]
fn hygienic_invocation_leaves_only_instructions() {
    let source = "@m %a, %b\nadd %a, %b\nbrne %b\nhalt\nend\n.l\nm r1, 0x10\nm r2, l";
    let out = expand_macros(source, "t.asm").unwrap();
    assert_eq!(out, "add r1, 0x10\nbrne 0x10\nhalt\nadd r2, l\nbrne l\nhalt");
    for text in out.lines() {
        assert_eq!(classify(text), LineKind::Content);
        assert!(!text.contains('%'));
        let word: Vec<char> = text.split(' ').next().unwrap().chars().collect();
        assert!(is_mnemonic(&word));
    }
}

#[test]
fn careless_invocation_leaves_what_it_is_given() {
    let out = expand_macros("@m %x\n%x\nend\nm .oops", "t.asm").unwrap();
    assert_eq!(out, ".oops");
    let out = expand_macros("@m %x\nadd %x, %y\nend\nm %x", "t.asm").unwrap();
    assert_eq!(out, "add %x, %y");
    let out = expand_macros("@m %r\nadd %%rr\nend\nm r1", "t.asm").unwrap();
    assert_eq!(out, "add %r1r");
}

#[test]
fn output_that_is_no_instruction_does_not_expand_again() {
    let once = expand_macros("@m %x\n%x\nend\nm frob r1", "t.asm").unwrap();
    assert_eq!(once, "frob r1");
    let err = expand_macros(&once, "t.asm").unwrap_err();
    assert_eq!(err.kind, ErrorKind::UnknownInstructionError);
}

#[test]
fn parameters_are_parsed_with_their_columns() {
    let got = parse_parameters(&chars("%a, %b"), 3).unwrap();
    let got: Vec<String> = got.iter().map(to_text).collect();
    assert_eq!(got, vec!["%a", "%b"]);
    assert_eq!(parse_parameters(&chars("%a,   b"), 3), Err(9));
    assert_eq!(parse_parameters(&chars(""), 4), Err(4));
    assert_eq!(parse_parameters(&chars("%a,  "), 0), Err(5));
}

#[test]
fn substitution_takes_parameters_in_turn() {
    let parameters = vec![chars("%a"), chars("%b")];
    let arguments = vec![chars("%b"), chars("x")];
    let got = substitute(&chars("%a %b"), &parameters, &arguments);
    assert_eq!(to_text(&got), "x x");
}
