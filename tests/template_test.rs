use ers::{Block, Class, Pos, Template, TemplateWriteError};

fn block(class: Class, content: &str, line_no: usize) -> Block {
    Block { class, content: content.to_string(), pos: Pos { line_no } }
}

#[test]
fn test_template_new() {
    let some_blocks: Vec<Block> = vec![];
    let template = Template::new("some_path.ers".to_string(), some_blocks);

    assert!(Vec::<Block>::new() == template.blocks);
}

#[test]
fn test_template_write() {
    let mut out_writer = String::new();

    let tmpl: Template = Template::new(
        "foo.ers".to_string(),
        vec![
            block(Class::Text, "<html>", 4),
            block(Class::Header, "use std::io;", 1),
            block(Class::Declaration, "pub fn Template(writer: &mut Writer, i : int)", 2),
            block(Class::Code, "for n in range(0, i - 1) {", 3),
            block(Class::Text, "<p class=\"foobar\">", 5),
            block(Class::Print, "n + 1", 6),
            block(Class::Text, "</p>", 7),
            block(Class::Code, "}", 8),
            block(Class::Text, "</html>", 9),
        ],
    );
    let written = tmpl.write_formatted(&mut out_writer);

    assert_eq!(written, Ok(9));
    let expected = [
        "\n//line 1\nuse std::io;\n",
        "\n//line 2\npub fn Template(writer: &mut Writer, i : int) {\n",
        "\n//line 4\nwriter.write_line(\"<html>\");\n",
        "\n//line 3\nfor n in range(0, i - 1) {\n",
        "\n//line 5\nwriter.write_line(\"<p class=\\\"foobar\\\">\");\n",
        "\n//line 6\nwriter.write_line(format!(\"{:?}\", n + 1));\n",
        "\n//line 7\nwriter.write_line(\"</p>\");\n",
        "\n//line 8\n}\n",
        "\n//line 9\nwriter.write_line(\"</html>\");\n",
        "writer.flush();\n}\n\n",
    ]
    .concat();
    assert_eq!(out_writer, expected);
}

#[test]
fn write_orders_headers_then_declarations_then_body() {
    let tmpl = Template::new(
        "order.ers".to_string(),
        vec![
            block(Class::Text, "T", 1),
            block(Class::Header, "H", 2),
            block(Class::Declaration, "D", 3),
            block(Class::Code, "C", 4),
            block(Class::Print, "P", 5),
        ],
    );
    let mut out = String::new();
    assert_eq!(tmpl.write_formatted(&mut out), Ok(5));
    let expected = "\n//line 2\nH\n\n//line 3\nD {\n\n//line 1\nwriter.write_line(\"T\");\n\n//line 4\nC\n\n//line 5\nwriter.write_line(format!(\"{:?}\", P));\nwriter.flush();\n}\n\n";
    assert_eq!(out, expected);
}

#[test]
fn write_keeps_order_within_each_pass() {
    let tmpl = Template::new(
        "order.ers".to_string(),
        vec![
            block(Class::Header, "H1", 1),
            block(Class::Code, "C1", 2),
            block(Class::Header, "H2", 3),
            block(Class::Code, "C2", 4),
        ],
    );
    let mut out = String::new();
    assert_eq!(tmpl.write_formatted(&mut out), Ok(4));
    assert_eq!(out, "\n//line 1\nH1\n\n//line 3\nH2\n\n//line 2\nC1\n\n//line 4\nC2\nwriter.flush();\n}\n\n");
}

#[test]
fn write_empty_template_emits_only_the_epilogue() {
    let tmpl = Template::new("e.ers".to_string(), vec![]);
    let mut out = String::from("prefix");
    assert_eq!(tmpl.write_formatted(&mut out), Ok(0));
    assert_eq!(out, "prefixwriter.flush();\n}\n\n");
}

#[test]
fn write_without_declaration_still_succeeds() {
    let tmpl = Template::new("n.ers".to_string(), vec![block(Class::Text, "x", 1)]);
    let mut out = String::new();
    let r: Result<usize, TemplateWriteError> = tmpl.write_formatted(&mut out);
    assert_eq!(r, Ok(1));
    assert_ne!(r, Err(TemplateWriteError::DeclarationNotFound));
}

#[test]
fn block_write_escapes_text() {
    let b = block(Class::Text, "say \"hi\"\\\n\t", 12);
    let mut out = String::new();
    b.write(&mut out);
    assert_eq!(out, "\n//line 12\nwriter.write_line(\"say \\\"hi\\\"\\\\\\n\\t\");\n");
}

#[test]
fn block_write_keeps_code_verbatim() {
    let b = block(Class::Code, "if a == \"b\" {", 7);
    let mut out = String::new();
    b.write(&mut out);
    assert_eq!(out, "\n//line 7\nif a == \"b\" {\n");
}

#[test]
fn block_write_with_uses_the_given_escape() {
    let b = block(Class::Text, "raw", 1);
    let mut out = String::new();
    b.write_with(&"ESC".to_string(), &mut out);
    assert_eq!(out, "\n//line 1\nwriter.write_line(\"ESC\");\n");
}

#[test]
fn pos_write_gives_decimal_line() {
    let mut out = String::new();
    Pos { line_no: 0 }.write(&mut out);
    Pos { line_no: 9 }.write(&mut out);
    Pos { line_no: 10 }.write(&mut out);
    Pos { line_no: 1203 }.write(&mut out);
    assert_eq!(out, "\n//line 0\n\n//line 9\n\n//line 10\n\n//line 1203\n");
}
