use markdown_compiler::errors::{ParserError, SpanKind};
use markdown_compiler::parser::{CSLanguage, MDParser, MDValue};
use markdown_compiler::tokenizer::{Token, TokenKind, Tokenizer};

fn parse(source: &str) -> Result<Vec<MDValue>, ParserError> {
    let mut parser = MDParser::new(Tokenizer::new(source).unwrap());
    let mut values = vec![];
    while let Some(outcome) = parser.next() {
        values.push(outcome?);
    }
    Ok(values)
}

fn snippet(language: CSLanguage, text: &str) -> MDValue {
    MDValue::CodeSnippet((language, text.to_owned()))
}

#[test]
fn empty_text_has_no_blocks() {
    assert_eq!(parse(""), Ok(vec![]));
    assert_eq!(parse("    "), Ok(vec![]));
}

#[test]
fn headers_of_each_level() {
    assert_eq!(parse("# Title"), Ok(vec![MDValue::BigHeader("Title".to_owned())]));
    assert_eq!(parse("## Title"), Ok(vec![MDValue::MediumHeader("Title".to_owned())]));
    assert_eq!(parse("### Title"), Ok(vec![MDValue::SmallHeader("Title".to_owned())]));
    assert_eq!(parse("#### Title"), Ok(vec![MDValue::VerySmallHeader("Title".to_owned())]));
}

#[test]
fn header_text_keeps_inner_spaces() {
    assert_eq!(
        parse("##   What's new, (really)? "),
        Ok(vec![MDValue::MediumHeader("What's new, (really)? ".to_owned())])
    );
}

#[test]
fn text_and_line_breaks_pass_through() {
    assert_eq!(
        parse("one\ntwo\n\n"),
        Ok(vec![
            MDValue::Text("one".to_owned()),
            MDValue::NewLine,
            MDValue::Text("two".to_owned()),
            MDValue::NewLine,
            MDValue::NewLine,
        ])
    );
}

#[test]
fn inline_code() {
    assert_eq!(parse("`code`"), Ok(vec![snippet(CSLanguage::Uknown, "code")]));
}

#[test]
fn inline_code_is_not_searched_for_a_language() {
    assert_eq!(parse("`rust\nx`"), Ok(vec![snippet(CSLanguage::Uknown, "rust\nx")]));
}

#[test]
fn fence_with_each_language() {
    assert_eq!(
        parse("```rust\nfn main() {}\n```"),
        Ok(vec![snippet(CSLanguage::Rust, "fn main() {}\n")])
    );
    assert_eq!(parse("```c\nint a;\n```"), Ok(vec![snippet(CSLanguage::C, "int a;\n")]));
    assert_eq!(parse("```cpp\nint a;\n```"), Ok(vec![snippet(CSLanguage::Cpp, "int a;\n")]));
    assert_eq!(parse("```c++\nint a;\n```"), Ok(vec![snippet(CSLanguage::Cpp, "int a;\n")]));
}

#[test]
fn fence_body_keeps_its_lines() {
    assert_eq!(
        parse("```rust\nfn main() {\n\n    let a = 1;\n}\n```"),
        Ok(vec![snippet(CSLanguage::Rust, "fn main() {\n\n    let a = 1;\n}\n")])
    );
}

#[test]
fn fence_without_a_known_language_keeps_its_content() {
    assert_eq!(
        parse("```python\nprint(1)\n```"),
        Ok(vec![snippet(CSLanguage::Uknown, "python\nprint(1)\n")])
    );
    assert_eq!(
        parse("```rust \nfn main() {}\n```"),
        Ok(vec![snippet(CSLanguage::Uknown, "rust \nfn main() {}\n")])
    );
    assert_eq!(parse("```Rust\nx\n```"), Ok(vec![snippet(CSLanguage::Uknown, "Rust\nx\n")]));
    assert_eq!(parse("```just text```"), Ok(vec![snippet(CSLanguage::Uknown, "just text")]));
}

#[test]
fn extract_lang_strips_the_language_line() {
    assert_eq!(
        MDParser::extract_lang("rust\nfn main() {\n}\n".to_owned()),
        (CSLanguage::Rust, "fn main() {\n}\n".to_owned())
    );
    assert_eq!(
        MDParser::extract_lang("cpp\nint a;\n".to_owned()),
        (CSLanguage::Cpp, "int a;\n".to_owned())
    );
    assert_eq!(
        MDParser::extract_lang("c++\nint a;\n".to_owned()),
        (CSLanguage::Cpp, "int a;\n".to_owned())
    );
    assert_eq!(
        MDParser::extract_lang("c\nint a;\n".to_owned()),
        (CSLanguage::C, "int a;\n".to_owned())
    );
}

#[test]
fn extract_lang_closes_every_line() {
    assert_eq!(
        MDParser::extract_lang("rust\na\nb".to_owned()),
        (CSLanguage::Rust, "a\nb\n".to_owned())
    );
    assert_eq!(
        MDParser::extract_lang("rust\n\n\nb".to_owned()),
        (CSLanguage::Rust, "\n\nb\n".to_owned())
    );
}

#[test]
fn extract_lang_with_nothing_behind_the_language() {
    assert_eq!(MDParser::extract_lang("rust".to_owned()), (CSLanguage::Rust, "".to_owned()));
    assert_eq!(MDParser::extract_lang("rust\n".to_owned()), (CSLanguage::Rust, "".to_owned()));
    assert_eq!(MDParser::extract_lang("c".to_owned()), (CSLanguage::C, "".to_owned()));
}

#[test]
fn extract_lang_takes_carriage_returns_off_line_endings() {
    assert_eq!(
        MDParser::extract_lang("rust\r\na\r\nb\r".to_owned()),
        (CSLanguage::Rust, "a\nb\r\n".to_owned())
    );
    assert_eq!(
        MDParser::extract_lang("rust\r".to_owned()),
        (CSLanguage::Uknown, "rust\r".to_owned())
    );
}

#[test]
fn extract_lang_without_a_language() {
    assert_eq!(MDParser::extract_lang("".to_owned()), (CSLanguage::Uknown, "".to_owned()));
    assert_eq!(
        MDParser::extract_lang("\nrust\n".to_owned()),
        (CSLanguage::Uknown, "\nrust\n".to_owned())
    );
    assert_eq!(
        MDParser::extract_lang("rusty\nx".to_owned()),
        (CSLanguage::Uknown, "rusty\nx".to_owned())
    );
    assert_eq!(
        MDParser::extract_lang("cp\nx".to_owned()),
        (CSLanguage::Uknown, "cp\nx".to_owned())
    );
}

#[test]
fn unterminated_fence() {
    let unterminated =
        Err(ParserError::UnterminatedSpan { kind: SpanKind::Fenced, start_position: 0 });
    assert_eq!(parse("```rust\nfn main() {}"), unterminated);
    assert_eq!(parse("```rust\nfn main() {}`"), unterminated);
    assert_eq!(parse("```rust\nfn main() {}``"), unterminated);
    assert_eq!(parse("```"), unterminated);
    assert_eq!(parse("``"), unterminated);
}

#[test]
fn unterminated_fence_behind_other_blocks() {
    assert_eq!(
        parse("# a\n```c\nint a;"),
        Err(ParserError::UnterminatedSpan { kind: SpanKind::Fenced, start_position: 3 })
    );
}

#[test]
fn unterminated_inline_code() {
    let unterminated =
        Err(ParserError::UnterminatedSpan { kind: SpanKind::Inline, start_position: 0 });
    assert_eq!(parse("`code"), unterminated);
    assert_eq!(parse("`"), unterminated);
}

#[test]
fn header_without_text() {
    assert_eq!(
        parse("#"),
        Err(ParserError::UnexpectedToken {
            position: 1,
            expected: vec![TokenKind::Pad, TokenKind::String],
            got: None,
        })
    );
    assert_eq!(
        parse("##\nx"),
        Err(ParserError::UnexpectedToken {
            position: 2,
            expected: vec![TokenKind::Pad, TokenKind::String],
            got: Some(Token::NewLine),
        })
    );
    assert_eq!(
        parse("####"),
        Err(ParserError::UnexpectedToken {
            position: 4,
            expected: vec![TokenKind::String],
            got: None,
        })
    );
}

#[test]
fn fifth_header_marker_is_unexpected() {
    assert_eq!(
        parse("##### Title"),
        Err(ParserError::UnexpectedToken {
            position: 4,
            expected: vec![TokenKind::String],
            got: Some(Token::Pad),
        })
    );
}

#[test]
fn two_backticks_are_unexpected() {
    assert_eq!(
        parse("``x"),
        Err(ParserError::UnexpectedToken {
            position: 2,
            expected: vec![TokenKind::ReversedQuote],
            got: Some(Token::String("x".to_owned())),
        })
    );
}

#[test]
fn backtick_before_something_else_than_code() {
    assert_eq!(
        parse("`#x`"),
        Err(ParserError::UnexpectedToken {
            position: 1,
            expected: vec![TokenKind::ReversedQuote, TokenKind::Code],
            got: Some(Token::Pad),
        })
    );
}

#[test]
fn fence_before_something_else_than_code() {
    assert_eq!(
        parse("```\nfoo```"),
        Err(ParserError::UnexpectedToken {
            position: 3,
            expected: vec![TokenKind::Code],
            got: Some(Token::NewLine),
        })
    );
    assert_eq!(
        parse("``````"),
        Err(ParserError::UnexpectedToken {
            position: 3,
            expected: vec![TokenKind::Code],
            got: Some(Token::ReversedQuote),
        })
    );
}

#[test]
fn emphasis_is_not_supported() {
    assert_eq!(parse("*bold*"), Err(ParserError::UnsupportedFeature { marker: '*' }));
    assert_eq!(parse("_italic_"), Err(ParserError::UnsupportedFeature { marker: '_' }));
    assert_eq!(parse("some *bold*"), Err(ParserError::UnsupportedFeature { marker: '*' }));
}

#[test]
fn nothing_is_parsed_after_a_failure() {
    let mut parser = MDParser::new(Tokenizer::new("a\n*b\nc").unwrap());
    assert_eq!(parser.next(), Some(Ok(MDValue::Text("a".to_owned()))));
    assert_eq!(parser.next(), Some(Ok(MDValue::NewLine)));
    assert_eq!(parser.next(), Some(Err(ParserError::UnsupportedFeature { marker: '*' })));
    assert_eq!(parser.next(), None);
    assert_eq!(parser.next(), None);
}

#[test]
fn end_of_the_blocks_is_reported_again() {
    let mut parser = MDParser::new(Tokenizer::new("a").unwrap());
    assert_eq!(parser.next(), Some(Ok(MDValue::Text("a".to_owned()))));
    assert_eq!(parser.next(), None);
    assert_eq!(parser.next(), None);
}

#[test]
fn parser_reads_on_behind_the_cursor() {
    let mut tokenizer = Tokenizer::new("# a\nb").unwrap();
    tokenizer.next();
    tokenizer.next();
    let mut parser = MDParser::new(tokenizer);
    assert_eq!(parser.next(), Some(Ok(MDValue::NewLine)));
    assert_eq!(parser.next(), Some(Ok(MDValue::Text("b".to_owned()))));
    assert_eq!(parser.next(), None);
}

#[test]
fn parser_behind_the_last_token_has_no_blocks() {
    let mut tokenizer = Tokenizer::new("a\nb").unwrap();
    while let Some(_) = tokenizer.next() {}
    let mut parser = MDParser::new(tokenizer);
    assert_eq!(parser.next(), None);
}

#[test]
fn parser_on_a_stepped_back_cursor() {
    let mut tokenizer = Tokenizer::new("a\nb").unwrap();
    while let Some(_) = tokenizer.next() {}
    tokenizer.next_back();
    let mut parser = MDParser::new(tokenizer);
    assert_eq!(parser.next(), None);

    let mut tokenizer = Tokenizer::new("a\nb").unwrap();
    tokenizer.next_back();
    let mut parser = MDParser::new(tokenizer);
    assert_eq!(parser.next(), Some(Ok(MDValue::Text("a".to_owned()))));
}

#[test]
fn block_clone_is_equal() {
    let block = snippet(CSLanguage::Rust, "fn main() {}\n");
    assert_eq!(block.clone(), block);
    let block = MDValue::BigHeader("Title".to_owned());
    assert_eq!(block.clone(), block);
}
