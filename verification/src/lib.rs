//! A compiler from a small markdown dialect to HTML.
//!
//! A text is scanned into tokens, the tokens are parsed into document blocks,
//! and the blocks are written as HTML, each stage in one pass over the whole
//! output of the stage before it. The dialect has headers of four levels,
//! inline and fenced code, plain text and line breaks.

pub mod compiler;
pub mod errors;
pub mod laws;
pub mod parser;
pub mod text;
pub mod tokenizer;

use vstd::prelude::*;
use crate::compiler::html_of_all;
use crate::errors::{ErrorView, ParserError};
use crate::parser::{lemma_step_advances, parse, parse_from, DocumentBlock, MDParser, MDValue};
use crate::tokenizer::{lex, TokenView, Tokenizer};

verus! {

/// The HTML of the markdown text `source`, or the first failure met: that of
/// the scanner if there is one, else that of the parser.
pub open spec fn compile(source: Seq<char>) -> Result<Seq<char>, ErrorView> {
    match lex(source) {
        Ok(tokens) => match parse(tokens) {
            Ok(blocks) => Ok(html_of_all(blocks)),
            Err(error) => Err(error),
        },
        Err(error) => Err(error),
    }
}

/// The blocks `made`, followed by what is parsed behind them.
spec fn made_then(made: Seq<DocumentBlock>, rest: Result<Seq<DocumentBlock>, ErrorView>) -> Result<
    Seq<DocumentBlock>,
    ErrorView,
> {
    match rest {
        Ok(blocks) => Ok(made + blocks),
        Err(error) => Err(error),
    }
}

/// Compiles the markdown text `source` to HTML: scans it, parses the tokens,
/// and writes the blocks. Returns the whole HTML or the first failure, never
/// a part of the output.
pub fn compile_markdown(source: &str) -> (compiled: Result<String, ParserError>)
    ensures
        match compile(source@) {
            Ok(html) => compiled matches Ok(written) && written@ == html,
            Err(error) => compiled matches Err(e) && e@ == error,
        },
{
    let tokenizer = match Tokenizer::new(source) {
        Ok(tokenizer) => tokenizer,
        Err(error) => {
            return Err(error);
        },
    };
    let ghost tokens = tokenizer.tokens();
    let mut parser = MDParser::new(tokenizer);
    let mut values: Vec<MDValue> = Vec::new();
    loop
        invariant
            lex(source@) == Ok::<Seq<TokenView>, ErrorView>(tokens),
            parser.tokens() == tokens,
            parse(tokens) == made_then(values.deep_view(), parse_from(tokens, parser.position())),
        ensures
            parse(tokens) == Ok::<Seq<DocumentBlock>, ErrorView>(values.deep_view()),
        decreases tokens.len() - parser.position(),
    {
        let ghost made = values.deep_view();
        proof {
            lemma_step_advances(tokens, parser.position());
        }
        match parser.next() {
            None => {
                break;
            },
            Some(Ok(value)) => {
                values.push(value);
                proof {
                    assert(values.deep_view() == made.push(value@));
                    if let Ok(rest) = parse_from(tokens, parser.position()) {
                        assert(made + (seq![value@] + rest) == made.push(value@) + rest);
                    }
                }
            },
            Some(Err(error)) => {
                return Err(error);
            },
        }
    }
    let ghost blocks = values.deep_view();
    let mut final_value = String::new();
    let mut i: usize = 0;
    assert(blocks.skip(0) == blocks);
    while i < values.len()
        invariant
            0 <= i <= values.len(),
            blocks == values.deep_view(),
            final_value@ + html_of_all(blocks.skip(i as int)) == html_of_all(blocks),
        decreases values.len() - i,
    {
        let html = values[i].to_string();
        proof {
            let left = blocks.skip(i as int);
            assert(left.drop_first() == blocks.skip(i + 1));
        }
        final_value.append(html.as_str());
        i = i + 1;
    }
    Ok(final_value)
}

} // verus!
