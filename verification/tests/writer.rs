use steit::gen::writer::{push_spaces, Writer};

fn shape(writer: &Writer) -> Vec<(usize, String)> {
    writer.lines().iter().map(|line| (line.level, line.text.clone())).collect()
}

#[test]
fn a_new_writer_has_no_lines() {
    let writer = Writer::new(4);
    assert!(writer.lines().is_empty());
    assert_eq!(writer.depth(), 0);
    assert_eq!(writer.to_text(), "");
}

#[test]
fn lines_stand_at_the_depth_of_the_writer() {
    let mut writer = Writer::new(4);
    writer.writeln("a {");
    writer.indent();
    writer.writeln("b {");
    writer.indent();
    writer.writeln("c");
    writer.outdent();
    writer.writeln("}");
    writer.outdent();
    writer.writeln("}");
    assert_eq!(
        shape(&writer),
        vec![
            (0, "a {".to_string()),
            (1, "b {".to_string()),
            (2, "c".to_string()),
            (1, "}".to_string()),
            (0, "}".to_string()),
        ]
    );
    assert_eq!(writer.to_text(), "a {\n    b {\n        c\n    }\n}\n");
}

#[test]
fn empty_lines_have_no_spaces() {
    let mut writer = Writer::new(2);
    writer.indent();
    writer.writeln("a");
    writer.newline();
    writer.writeln("");
    writer.writeln("b");
    assert_eq!(writer.to_text(), "  a\n\n\n  b\n");
    assert_eq!(writer.depth(), 1);
}

#[test]
fn indent_and_outdent_with_a_line() {
    let mut writer = Writer::new(3);
    writer.writeln("if {");
    writer.indent_writeln("for {");
    writer.indent_writeln("x");
    assert_eq!(writer.depth(), 2);
    writer.outdent_writeln("}");
    writer.outdent_writeln("}");
    assert_eq!(writer.depth(), 0);
    assert_eq!(writer.to_text(), "if {\n   for {\n      x\n   }\n}\n");
}

#[test]
fn outdent_stops_at_depth_zero() {
    let mut writer = Writer::new(4);
    writer.outdent();
    assert_eq!(writer.depth(), 0);
    writer.outdent_writeln("a");
    assert_eq!(writer.depth(), 0);
    writer.indent();
    writer.outdent();
    writer.outdent();
    writer.writeln("b");
    assert_eq!(writer.to_text(), "a\nb\n");
}

#[test]
fn an_indent_size_of_zero_gives_no_spaces() {
    let mut writer = Writer::new(0);
    writer.indent();
    writer.indent();
    writer.writeln("a");
    assert_eq!(writer.to_text(), "a\n");
}

#[test]
fn spaces_are_level_times_size() {
    let mut out = String::from("|");
    push_spaces(&mut out, 3, 2);
    out.push('|');
    push_spaces(&mut out, 0, 5);
    push_spaces(&mut out, 5, 0);
    out.push('|');
    push_spaces(&mut out, 1, 1);
    assert_eq!(out, "|      || ");
}
