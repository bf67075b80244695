use if_true::assembler::{assemble, parse_labels};
use if_true::diagnostic::ErrorKind;
use if_true::expand::Emitted;
use if_true::label::{label_table, Label};
use if_true::line::SourceLine;

#[test]
fn offsets_count_expanded_instructions() {
    let source = "@two %r\nldi %r, 0\nadd %r, %r\nend\n.first\ntwo r1\n.second\nnop\ntwo r2\n.third\n.fourth";
    let labels = parse_labels(source, "t.asm").unwrap();
    assert_eq!(
        labels,
        vec![
            Label { name: "first".to_string(), byte_offset: 0 },
            Label { name: "second".to_string(), byte_offset: 8 },
            Label { name: "third".to_string(), byte_offset: 20 },
            Label { name: "fourth".to_string(), byte_offset: 20 },
        ]
    );
}

#[test]
fn offsets_in_a_plain_program() {
    let labels = parse_labels("nop\n// c\n\n.a\nnop\nnop\n.b\nhalt", "t.asm").unwrap();
    assert_eq!(labels[0], Label { name: "a".to_string(), byte_offset: 4 });
    assert_eq!(labels[1], Label { name: "b".to_string(), byte_offset: 12 });
}

#[test]
fn assembly_holds_instructions_and_labels() {
    let assembly = assemble(".LOOP\nADD r1, r2\nJMP loop", "t.asm").unwrap();
    assert_eq!(assembly.instructions, vec!["add r1, r2".to_string(), "jmp loop".to_string()]);
    assert_eq!(assembly.labels, vec![Label { name: "loop".to_string(), byte_offset: 0 }]);
    assert_eq!(assembly.text(), "add r1, r2\njmp loop");
}

#[test]
fn duplicate_label_names_both_lines() {
    let err = parse_labels(".a\nnop\n.b\n.a\nnop", "t.asm").unwrap_err();
    assert_eq!(err.kind, ErrorKind::DuplicateLabelError { first_defined_at: 1 });
    assert_eq!(err.line, 4);
    assert_eq!(err.excerpt, ".a");
    assert_eq!(err.message, "label 'a' already declared");
}

#[test]
fn label_table_of_a_stream() {
    let stream = vec![
        Emitted::Instruction("nop".to_string()),
        Emitted::Label(SourceLine { text: ".x".to_string(), number: 7 }),
        Emitted::Instruction("nop".to_string()),
        Emitted::Instruction("nop".to_string()),
        Emitted::Label(SourceLine { text: ".y z".to_string(), number: 9 }),
    ];
    let labels = label_table(&stream, "t.asm").unwrap();
    assert_eq!(
        labels,
        vec![
            Label { name: "x".to_string(), byte_offset: 4 },
            Label { name: "y z".to_string(), byte_offset: 12 },
        ]
    );
}
