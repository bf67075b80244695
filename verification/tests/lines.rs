use if_true::diagnostic::{Diagnostic, ErrorKind};
use if_true::format::{format_number, join_lines};
use if_true::line::{classify, normalize, LineKind, SourceLine};
use if_true::substitution::{replace, split_entries};
use if_true::text::{to_chars, to_text, trim};

fn chars(s: &str) -> Vec<char> {
    s.chars().collect()
}

#[test]
fn lines_are_classified() {
    assert_eq!(classify(""), LineKind::Blank);
    assert_eq!(classify("// add r1"), LineKind::Comment);
    assert_eq!(classify("//"), LineKind::Comment);
    assert_eq!(classify("/ x"), LineKind::Content);
    assert_eq!(classify(".loop"), LineKind::Label);
    assert_eq!(classify("."), LineKind::Label);
    assert_eq!(classify("@m %x"), LineKind::MacroHeader);
    assert_eq!(classify("end"), LineKind::MacroFooter);
    assert_eq!(classify("endless"), LineKind::Content);
    assert_eq!(classify("en"), LineKind::Content);
    assert_eq!(classify("end x"), LineKind::Content);
    assert_eq!(classify("add r1, r2"), LineKind::Content);
}

#[test]
fn source_is_cut_trimmed_lowered_and_numbered() {
    let lines = normalize("  ADD R1 \r\n\nEnd\r\n.Loop\n last\r");
    let expected = vec![
        SourceLine { text: "add r1".to_string(), number: 1 },
        SourceLine { text: "".to_string(), number: 2 },
        SourceLine { text: "end".to_string(), number: 3 },
        SourceLine { text: ".loop".to_string(), number: 4 },
        SourceLine { text: "last".to_string(), number: 5 },
    ];
    assert_eq!(lines, expected);
}

#[test]
fn normalize_agrees_with_std_lines() {
    for source in ["", "\n", "a", "a\n", "a\n\n", "\r\n", "a\r\nb", "a\rb\n", "\n\na", "x\r\r\n"] {
        let expected: Vec<String> = source.lines().map(|s| s.trim().to_lowercase()).collect();
        let got: Vec<String> = normalize(source).into_iter().map(|l| l.text).collect();
        assert_eq!(got, expected);
    }
}

#[test]
fn lowering_changes_the_text() {
    let lines = normalize("ÀB");
    assert_eq!(lines[0].text, "àb");
    assert_eq!(lines[0].kind(), LineKind::Content);
}

#[test]
fn unicode_white_space_is_trimmed() {
    let lines = normalize("\u{a0}\u{2003}nop\u{3000}");
    assert_eq!(lines[0].text, "nop");
    assert_eq!(to_text(&trim(&chars(" \t x y \n"))), "x y");
    assert_eq!(to_text(&trim(&chars("   "))), "");
}

#[test]
fn text_round_trips() {
    assert_eq!(to_chars("a→b"), vec!['a', '→', 'b']);
    assert_eq!(to_text(&vec!['a', '→', 'b']), "a→b");
}

#[test]
fn replace_agrees_with_std() {
    let cases = [
        ("add %x, %x", "%x", "r1"),
        ("aaa", "aa", "b"),
        ("abc", "", "-"),
        ("", "", "-"),
        ("", "a", "b"),
        ("%%xx", "%x", ""),
        ("abcabc", "abc", "abcabc"),
        ("xay", "a", ""),
    ];
    for (text, from, to) in cases {
        let got = to_text(&replace(&chars(text), &chars(from), &chars(to)));
        assert_eq!(got, text.replace(from, to));
    }
}

#[test]
fn entries_are_split_at_commas_and_trimmed() {
    let got: Vec<String> = split_entries(&chars(" r1 ,r2,, r3 x ")).iter().map(to_text).collect();
    assert_eq!(got, vec!["r1", "r2", "", "r3 x"]);
    let got: Vec<String> = split_entries(&chars("")).iter().map(to_text).collect();
    assert_eq!(got, vec![""]);
}

#[test]
fn numbers_are_written_in_decimal() {
    assert_eq!(to_text(&format_number(0)), "0");
    assert_eq!(to_text(&format_number(7)), "7");
    assert_eq!(to_text(&format_number(10)), "10");
    assert_eq!(to_text(&format_number(1234567890)), "1234567890");
    assert_eq!(to_text(&format_number(usize::MAX)), usize::MAX.to_string());
}

#[test]
fn lines_are_joined_by_line_feeds() {
    assert_eq!(join_lines(&vec![]), "");
    assert_eq!(join_lines(&vec!["a".to_string()]), "a");
    assert_eq!(join_lines(&vec!["a".to_string(), "".to_string(), "b".to_string()]), "a\n\nb");
}

#[test]
fn report_shows_kind_place_and_excerpt() {
    let line = SourceLine { text: "@m %a,  b".to_string(), number: 12 };
    let d = Diagnostic::report(ErrorKind::InvalidArgumentPrefixError, "", "prog.asm", &line, Some(8));
    assert_eq!(
        d.render(),
        "error[InvalidArgumentPrefixError]: macro arguments must begin with '%'\n\
         --> prog.asm:12\n   |\n12 | @m %a,  b\n   |         ^\n"
    );
}

#[test]
fn report_adds_the_note_of_its_kind() {
    let line = SourceLine { text: "foo 1, 2, 3".to_string(), number: 4 };
    let kind = ErrorKind::ArityMismatchError { expected: 2, found: 3 };
    let d = Diagnostic::report(kind, "foo", "t.asm", &line, None);
    assert_eq!(
        d.render(),
        "error[ArityMismatchError]: incorrect number of arguments\n\
         --> t.asm:4\n  |\n4 | foo 1, 2, 3\n  | expected 2 arguments, found 3\n"
    );
    let line = SourceLine { text: "@b".to_string(), number: 3 };
    let d = Diagnostic::report(ErrorKind::NestedMacroError { opened_at: 1 }, "", "t.asm", &line, None);
    assert_eq!(
        d.render(),
        "error[NestedMacroError]: macro inside another macro\n\
         --> t.asm:3\n  |\n3 | @b\n  | first macro defined on line 1\n"
    );
    let line = SourceLine { text: "end".to_string(), number: 100 };
    let d = Diagnostic::report(ErrorKind::DanglingEndError, "", "t.asm", &line, None);
    assert_eq!(
        d.render(),
        "error[DanglingEndError]: 'end' keyword with no macro to close\n\
         --> t.asm:100\n    |\n100 | end\n    |\n"
    );
}
