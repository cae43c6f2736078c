//! The ways in which compiling a document can fail.

use vstd::prelude::*;
use crate::tokenizer::{Token, TokenKind, TokenView};

verus! {

/// Which code span was left open.
#[derive(Debug, Clone, Copy, PartialEq, Eq, Structural)]
pub enum SpanKind {
    /// A span between single backticks.
    Inline,
    /// A span between triple backticks.
    Fenced,
}

/// The first failure met while compiling a document. Nothing is produced
/// beside it.
#[derive(Debug, PartialEq, Eq)]
pub enum ParserError {
    /// The scanner met a character outside the grammar. `position` counts
    /// characters from the start of the text.
    InvalidCharacter { position: usize, character: char },
    /// The parser met a token that continues no production. `position` counts
    /// tokens from the start of the token sequence, `expected` lists the kinds
    /// that would have been accepted there, and `got` is the token found, or
    /// `None` where the tokens ran out.
    UnexpectedToken { position: usize, expected: Vec<TokenKind>, got: Option<Token> },
    /// The tokens ran out inside a code span. `start_position` is the index of
    /// its opening backtick in the token sequence.
    UnterminatedSpan { kind: SpanKind, start_position: usize },
    /// An emphasis marker, `*` or `_`: known to the grammar, not yet compiled.
    UnsupportedFeature { marker: char },
}

/// The mathematical value of a [`ParserError`].
pub enum ErrorView {
    InvalidCharacter { position: int, character: char },
    UnexpectedToken { position: int, expected: Seq<TokenKind>, got: Option<TokenView> },
    UnterminatedSpan { kind: SpanKind, start_position: int },
    UnsupportedFeature { marker: char },
}

impl View for ParserError {
    type V = ErrorView;

    open spec fn view(&self) -> ErrorView {
        match *self {
            ParserError::InvalidCharacter { position, character } => ErrorView::InvalidCharacter {
                position: position as int,
                character,
            },
            ParserError::UnexpectedToken { position, expected, got } => ErrorView::UnexpectedToken {
                position: position as int,
                expected: expected@,
                got: got.deep_view(),
            },
            ParserError::UnterminatedSpan { kind, start_position } => ErrorView::UnterminatedSpan {
                kind,
                start_position: start_position as int,
            },
            ParserError::UnsupportedFeature { marker } => ErrorView::UnsupportedFeature { marker },
        }
    }
}

} // verus!
