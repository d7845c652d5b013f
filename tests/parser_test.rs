use ers::{Block, Class, Parser, Pos};

fn block(class: Class, content: &str, line_no: usize) -> Block {
    Block { class, content: content.to_string(), pos: Pos { line_no } }
}

#[test]
fn test_parser_parsepath() {
    let parser = Parser::new();
    let path = "test/fixtures/parsefile.ers".to_string();
    let source = "<%! pub fn Template(writer: &mut Writer, i: int) %>\n<%% use std::io; %>\n<html>\n<% for n in range(0, i - 1) { %>\n<p class=\"foobar<%= n %>\">\n  <%= n + 1 %>\n</p>\n<% } %>\n</html>\n";
    let template = parser.parse(path.clone(), source);
    let bs = &template.blocks;

    assert_eq!(path, template.path);
    assert!(bs.len() > 0);

    assert!(bs[0] == block(Class::Declaration, " pub fn Template(writer: &mut Writer, i: int) ", 1));
    assert!(bs[1] == block(Class::Text, "\n", 2));
    assert!(bs[2] == block(Class::Header, " use std::io; ", 2));
    assert!(bs[3] == block(Class::Text, "\n", 3));
    assert!(bs[4] == block(Class::Text, "<html>\n", 4));
    assert!(bs[5] == block(Class::Code, " for n in range(0, i - 1) { ", 4));
    assert!(bs[6] == block(Class::Text, "\n", 5));
    assert!(bs[7] == block(Class::Text, "<p class=\"foobar", 5));
    assert!(bs[8] == block(Class::Print, " n ", 5));
    assert!(bs[9] == block(Class::Text, "\">\n  ", 6));
    assert!(bs[10] == block(Class::Print, " n + 1 ", 6));
    assert!(bs[11] == block(Class::Text, "\n", 7));
    assert!(bs[12] == block(Class::Text, "</p>\n", 8));
    assert!(bs[13] == block(Class::Code, " } ", 8));
    assert!(bs[14] == block(Class::Text, "\n", 9));
    assert!(bs[15] == block(Class::Text, "</html>\n", 10));
}

#[test]
fn parser_new_has_version_one() {
    assert_eq!(Parser::new().version, 1);
}

#[test]
fn parse_round_trip_fixture() {
    let source = "<%! pub fn Template(writer, i) %>\n<%% use io; %>\n<html>\n<% for n in range(0,i-1) { %>\n<p>\n<%= n+1 %>\n</p>\n<% } %>\n</html>\n";
    let template = Parser::new().parse("round_trip.ers".to_string(), source);
    let expected = vec![
        block(Class::Declaration, " pub fn Template(writer, i) ", 1),
        block(Class::Text, "\n", 2),
        block(Class::Header, " use io; ", 2),
        block(Class::Text, "\n", 3),
        block(Class::Text, "<html>\n", 4),
        block(Class::Code, " for n in range(0,i-1) { ", 4),
        block(Class::Text, "\n", 5),
        block(Class::Text, "<p>\n", 6),
        block(Class::Print, " n+1 ", 6),
        block(Class::Text, "\n", 7),
        block(Class::Text, "</p>\n", 8),
        block(Class::Code, " } ", 8),
        block(Class::Text, "\n", 9),
        block(Class::Text, "</html>\n", 10),
    ];
    assert_eq!(template.blocks.len(), 14);
    assert_eq!(template.blocks, expected);
    assert_eq!(template.path, "round_trip.ers");
}

#[test]
fn parse_tagless_template_is_one_block() {
    let template = Parser::new().parse("p.ers".to_string(), "plain\ntext\n");
    assert_eq!(template.blocks, vec![block(Class::Text, "plain\ntext\n", 3)]);
}

#[test]
fn parse_empty_template_has_no_blocks() {
    let template = Parser::new().parse("p.ers".to_string(), "");
    assert!(template.blocks.is_empty());
}

#[test]
fn parse_unterminated_tag_truncates() {
    let template = Parser::new().parse("p.ers".to_string(), "<% a");
    assert!(template.blocks.is_empty());

    let template = Parser::new().parse("p.ers".to_string(), "before\n<%= x <% y");
    assert_eq!(template.blocks, vec![block(Class::Text, "before\n", 2)]);
}

#[test]
fn parse_stops_at_header_with_newline() {
    let template = Parser::new().parse("p.ers".to_string(), "<%! f %><%% a\n %>tail");
    assert_eq!(template.blocks, vec![block(Class::Declaration, " f ", 1)]);
}
