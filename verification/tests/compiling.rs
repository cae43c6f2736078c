use markdown_compiler::compile_markdown;
use markdown_compiler::errors::{ParserError, SpanKind};
use markdown_compiler::parser::{CSLanguage, MDValue};
use markdown_compiler::tokenizer::TokenKind;

#[test]
fn empty_text_compiles_to_nothing() {
    assert_eq!(compile_markdown(""), Ok("".to_owned()));
}

#[test]
fn header_lines_compile_to_headers() {
    assert_eq!(compile_markdown("# Hello World"), Ok("<h1>Hello World</h1>".to_owned()));
    assert_eq!(compile_markdown("## Hello World"), Ok("<h2>Hello World</h2>".to_owned()));
    assert_eq!(compile_markdown("### Hello World"), Ok("<h3>Hello World</h3>".to_owned()));
    assert_eq!(compile_markdown("#### Hello World"), Ok("<h4>Hello World</h4>".to_owned()));
}

#[test]
fn blocks_are_written_in_order() {
    assert_eq!(
        compile_markdown("# Title\nSome text.\n`let x`\n```rust\nfn main() {}\n```\n"),
        Ok("<h1>Title</h1>\nSome text.\n<code>let x</code>\n<code>fn main() {}\n</code>\n"
            .to_owned())
    );
}

#[test]
fn each_block_as_html() {
    assert_eq!(MDValue::BigHeader("a".to_owned()).to_string(), "<h1>a</h1>");
    assert_eq!(MDValue::MediumHeader("a".to_owned()).to_string(), "<h2>a</h2>");
    assert_eq!(MDValue::SmallHeader("a".to_owned()).to_string(), "<h3>a</h3>");
    assert_eq!(MDValue::VerySmallHeader("a".to_owned()).to_string(), "<h4>a</h4>");
    assert_eq!(
        MDValue::CodeSnippet((CSLanguage::C, "int a;\n".to_owned())).to_string(),
        "<code>int a;\n</code>"
    );
    assert_eq!(MDValue::Text("a b".to_owned()).to_string(), "a b");
    assert_eq!(MDValue::NewLine.to_string(), "\n");
}

#[test]
fn text_is_not_escaped() {
    assert_eq!(
        compile_markdown("`a <b>&amp;</b>`"),
        Ok("<code>a <b>&amp;</b></code>".to_owned())
    );
    assert_eq!(MDValue::Text("<i>&</i>".to_owned()).to_string(), "<i>&</i>");
}

#[test]
fn invalid_character_fails_the_whole_text() {
    assert_eq!(
        compile_markdown("# Title\nfine so far\nnot [this]"),
        Err(ParserError::InvalidCharacter { position: 24, character: '[' })
    );
}

#[test]
fn scanner_failure_comes_before_parser_failure() {
    assert_eq!(
        compile_markdown("*bold* {"),
        Err(ParserError::InvalidCharacter { position: 7, character: '{' })
    );
}

#[test]
fn parser_failures_fail_the_whole_text() {
    assert_eq!(
        compile_markdown("# Title\n*bold*"),
        Err(ParserError::UnsupportedFeature { marker: '*' })
    );
    assert_eq!(
        compile_markdown("text\n```rust\nfn main() {}"),
        Err(ParserError::UnterminatedSpan { kind: SpanKind::Fenced, start_position: 2 })
    );
    assert_eq!(
        compile_markdown("`x"),
        Err(ParserError::UnterminatedSpan { kind: SpanKind::Inline, start_position: 0 })
    );
    assert_eq!(
        compile_markdown("# \n"),
        Err(ParserError::UnexpectedToken {
            position: 1,
            expected: vec![TokenKind::Pad, TokenKind::String],
            got: Some(markdown_compiler::tokenizer::Token::NewLine),
        })
    );
}
