//! The parser: from tokens to document blocks.

use vstd::prelude::*;
use crate::errors::{ErrorView, ParserError, SpanKind};
use crate::text::{append_chars, chars_of, lemma_scan_while, push_char, scan_while};
use crate::tokenizer::{token_at, Token, TokenKind, TokenView, Tokenizer};

verus! {

/// The language of a code snippet, kept for syntax highlighting.
#[derive(Debug, Copy, Clone, PartialEq, Eq, Structural)]
pub enum CSLanguage {
    /// No language was named, or none that is known.
    Uknown,
    Rust,
    C,
    Cpp,
}

/// A block of the document, ready to be written as HTML.
#[derive(Debug, PartialEq)]
pub enum MDValue {
    BigHeader(String),
    MediumHeader(String),
    SmallHeader(String),
    VerySmallHeader(String),
    CodeSnippet((CSLanguage, String)),
    Text(String),
    NewLine,
}

/// The mathematical value of an [`MDValue`]. The four headers are one variant
/// with a level from 1 to 4.
pub enum DocumentBlock {
    Header { level: int, text: Seq<char> },
    CodeSnippet { language: CSLanguage, text: Seq<char> },
    Text { text: Seq<char> },
    LineBreak,
}

impl View for MDValue {
    type V = DocumentBlock;

    open spec fn view(&self) -> DocumentBlock {
        match *self {
            MDValue::BigHeader(text) => DocumentBlock::Header { level: 1, text: text@ },
            MDValue::MediumHeader(text) => DocumentBlock::Header { level: 2, text: text@ },
            MDValue::SmallHeader(text) => DocumentBlock::Header { level: 3, text: text@ },
            MDValue::VerySmallHeader(text) => DocumentBlock::Header { level: 4, text: text@ },
            MDValue::CodeSnippet(snippet) => DocumentBlock::CodeSnippet {
                language: snippet.0,
                text: snippet.1@,
            },
            MDValue::Text(text) => DocumentBlock::Text { text: text@ },
            MDValue::NewLine => DocumentBlock::LineBreak,
        }
    }
}

impl Clone for MDValue {
    fn clone(&self) -> (copy: MDValue)
        ensures
            copy == *self,
    {
        match self {
            MDValue::BigHeader(text) => MDValue::BigHeader(text.clone()),
            MDValue::MediumHeader(text) => MDValue::MediumHeader(text.clone()),
            MDValue::SmallHeader(text) => MDValue::SmallHeader(text.clone()),
            MDValue::VerySmallHeader(text) => MDValue::VerySmallHeader(text.clone()),
            MDValue::CodeSnippet(snippet) => MDValue::CodeSnippet((snippet.0, snippet.1.clone())),
            MDValue::Text(text) => MDValue::Text(text.clone()),
            MDValue::NewLine => MDValue::NewLine,
        }
    }
}

impl DeepView for MDValue {
    type V = DocumentBlock;

    open spec fn deep_view(&self) -> DocumentBlock {
        self@
    }
}

// ---------------------------------------------------------------------------
// The language line of a fenced snippet
// ---------------------------------------------------------------------------

/// The index of the first line feed of `s` at or after `from`, or the length
/// of `s` where there is none.
pub open spec fn line_end(s: Seq<char>, from: int) -> int {
    scan_while(s, from, |c: char| c != '\n')
}

/// The line of `s` that starts at `from`, without its line ending. A line
/// ends with a line feed, or with a carriage return and a line feed, or with
/// the text.
pub open spec fn line_at(s: Seq<char>, from: int) -> Seq<char> {
    let end = line_end(s, from);
    if from < end < s.len() && s[end - 1] == '\r' {
        s.subrange(from, end - 1)
    } else {
        s.subrange(from, end)
    }
}

/// The lines of `s` from `from` on, each followed by one line feed.
pub open spec fn relined(s: Seq<char>, from: int) -> Seq<char>
    decreases s.len() + 1 - from,
{
    if 0 <= from < s.len() {
        proof {
            lemma_scan_while(s, from, |c: char| c != '\n');
        }
        line_at(s, from) + seq!['\n'] + relined(s, line_end(s, from) + 1)
    } else {
        Seq::empty()
    }
}

/// The language that a line names: `rust`, `c`, and `cpp` or `c++`.
pub open spec fn language_named(line: Seq<char>) -> CSLanguage {
    if line == seq!['r', 'u', 's', 't'] {
        CSLanguage::Rust
    } else if line == seq!['c', '+', '+'] || line == seq!['c', 'p', 'p'] {
        CSLanguage::Cpp
    } else if line == seq!['c'] {
        CSLanguage::C
    } else {
        CSLanguage::Uknown
    }
}

/// The language of a fenced snippet with content `code`: the one that its
/// first line names.
pub open spec fn snippet_language(code: Seq<char>) -> CSLanguage {
    language_named(line_at(code, 0))
}

/// The text of a fenced snippet with content `code`: the lines behind the
/// first where that one names a language, else the content as it stands.
pub open spec fn snippet_text(code: Seq<char>) -> Seq<char> {
    if snippet_language(code) == CSLanguage::Uknown {
        code
    } else {
        relined(code, line_end(code, 0) + 1)
    }
}

// ---------------------------------------------------------------------------
// The productions
// ---------------------------------------------------------------------------

/// What one call of the parser does at a position of the token sequence.
pub enum Step {
    /// No token is left.
    End,
    /// The tokens from the position up to `next` make one block.
    Block { block: DocumentBlock, next: int },
    /// The tokens at the position match no production.
    Fail { error: ErrorView },
}

/// The error for a token, or the end of the tokens, met at `position` in
/// place of one of the kinds `expected`.
pub open spec fn unexpected(
    tokens: Seq<TokenView>,
    position: int,
    expected: Seq<TokenKind>,
) -> Step {
    Step::Fail {
        error: ErrorView::UnexpectedToken { position, expected, got: token_at(tokens, position) },
    }
}

/// The error for tokens that run out inside the code span opened at `start`.
pub open spec fn unterminated(kind: SpanKind, start: int) -> Step {
    Step::Fail { error: ErrorView::UnterminatedSpan { kind, start_position: start } }
}

/// The number of `Pad` tokens in a row from `pos` on, counted up to 4, for a
/// token sequence with a `Pad` at `pos`.
pub open spec fn header_level(tokens: Seq<TokenView>, pos: int) -> int {
    if token_at(tokens, pos + 1) != Some(TokenView::Pad) {
        1
    } else if token_at(tokens, pos + 2) != Some(TokenView::Pad) {
        2
    } else if token_at(tokens, pos + 3) != Some(TokenView::Pad) {
        3
    } else {
        4
    }
}

/// The header production, for a token sequence with a `Pad` at `pos`: one to
/// four `Pad`s, then a `String` with the header's text.
pub open spec fn header_step(tokens: Seq<TokenView>, pos: int) -> Step {
    let level = header_level(tokens, pos);
    match token_at(tokens, pos + level) {
        Some(TokenView::String(text)) => Step::Block {
            block: DocumentBlock::Header { level, text },
            next: pos + level + 1,
        },
        _ => if level < 4 {
            unexpected(tokens, pos + level, seq![TokenKind::Pad, TokenKind::String])
        } else {
            unexpected(tokens, pos + level, seq![TokenKind::String])
        },
    }
}

/// The inline code production, for a token sequence with a `ReversedQuote`
/// at `pos` and no second one behind it: the quote, a `Code`, a closing quote.
pub open spec fn inline_step(tokens: Seq<TokenView>, pos: int) -> Step {
    match token_at(tokens, pos + 1) {
        None => unterminated(SpanKind::Inline, pos),
        Some(TokenView::Code(text)) => match token_at(tokens, pos + 2) {
            None => unterminated(SpanKind::Inline, pos),
            Some(TokenView::ReversedQuote) => Step::Block {
                block: DocumentBlock::CodeSnippet { language: CSLanguage::Uknown, text },
                next: pos + 3,
            },
            Some(_) => unexpected(tokens, pos + 2, seq![TokenKind::ReversedQuote]),
        },
        Some(_) => unexpected(
            tokens,
            pos + 1,
            seq![TokenKind::ReversedQuote, TokenKind::Code],
        ),
    }
}

/// The index of the first token from `from` on that is no `ReversedQuote`,
/// looking at `count` tokens at most.
pub open spec fn quotes_until(tokens: Seq<TokenView>, from: int, count: nat) -> int
    decreases count,
{
    if count > 0 && token_at(tokens, from) == Some(TokenView::ReversedQuote) {
        quotes_until(tokens, from + 1, (count - 1) as nat)
    } else {
        from
    }
}

/// The fenced code production, for a token sequence with `ReversedQuote`s at
/// `pos` and `pos + 1`: three quotes, a `Code`, three closing quotes.
pub open spec fn fenced_step(tokens: Seq<TokenView>, pos: int) -> Step {
    match token_at(tokens, pos + 2) {
        None => unterminated(SpanKind::Fenced, pos),
        Some(TokenView::ReversedQuote) => match token_at(tokens, pos + 3) {
            None => unterminated(SpanKind::Fenced, pos),
            Some(TokenView::Code(code)) => {
                let stop = quotes_until(tokens, pos + 4, 3);
                if stop == pos + 7 {
                    Step::Block {
                        block: DocumentBlock::CodeSnippet {
                            language: snippet_language(code),
                            text: snippet_text(code),
                        },
                        next: pos + 7,
                    }
                } else if stop >= tokens.len() {
                    unterminated(SpanKind::Fenced, pos)
                } else {
                    unexpected(tokens, stop, seq![TokenKind::ReversedQuote])
                }
            },
            Some(_) => unexpected(tokens, pos + 3, seq![TokenKind::Code]),
        },
        Some(_) => unexpected(tokens, pos + 2, seq![TokenKind::ReversedQuote]),
    }
}

/// What the parser does at `pos`: the production that the token there opens.
///
/// Where the tokens run out inside a code span the step fails with
/// `UnterminatedSpan`; every other mismatch is an `UnexpectedToken` at the
/// index of the mismatch, and an emphasis marker an `UnsupportedFeature`.
pub open spec fn parse_step(tokens: Seq<TokenView>, pos: int) -> Step {
    match token_at(tokens, pos) {
        None => Step::End,
        Some(TokenView::Pad) => header_step(tokens, pos),
        Some(TokenView::ReversedQuote) => match token_at(tokens, pos + 1) {
            Some(TokenView::ReversedQuote) => fenced_step(tokens, pos),
            _ => inline_step(tokens, pos),
        },
        Some(TokenView::NewLine) => Step::Block { block: DocumentBlock::LineBreak, next: pos + 1 },
        Some(TokenView::String(text)) => Step::Block {
            block: DocumentBlock::Text { text },
            next: pos + 1,
        },
        Some(TokenView::Asterisk) => Step::Fail {
            error: ErrorView::UnsupportedFeature { marker: '*' },
        },
        Some(TokenView::LowBar) => Step::Fail {
            error: ErrorView::UnsupportedFeature { marker: '_' },
        },
        Some(TokenView::Code(_)) => unexpected(
            tokens,
            pos,
            seq![
                TokenKind::Pad,
                TokenKind::String,
                TokenKind::NewLine,
                TokenKind::ReversedQuote,
            ],
        ),
    }
}

/// A block never ends before the position behind its first token, nor behind
/// the end of the tokens.
pub proof fn lemma_step_advances(tokens: Seq<TokenView>, pos: int)
    ensures
        parse_step(tokens, pos) matches Step::Block { next, .. } ==> pos < next <= tokens.len(),
{
    reveal_with_fuel(quotes_until, 4);
}

/// The blocks of the tokens from `pos` on, or the first failure.
pub open spec fn parse_from(tokens: Seq<TokenView>, pos: int) -> Result<
    Seq<DocumentBlock>,
    ErrorView,
>
    decreases tokens.len() - pos,
{
    match parse_step(tokens, pos) {
        Step::End => Ok(Seq::empty()),
        Step::Block { block, next } => {
            proof {
                lemma_step_advances(tokens, pos);
            }
            match parse_from(tokens, next) {
                Ok(rest) => Ok(seq![block] + rest),
                Err(error) => Err(error),
            }
        },
        Step::Fail { error } => Err(error),
    }
}

/// The blocks of a whole token sequence, or the first failure.
pub open spec fn parse(tokens: Seq<TokenView>) -> Result<Seq<DocumentBlock>, ErrorView> {
    parse_from(tokens, 0)
}


/// Whether `outcome` is what a production hands back for the step `step`: the
/// block with the position behind it, or the failure.
spec fn outcome_of(step: Step, outcome: Result<(MDValue, usize), ParserError>) -> bool {
    match step {
        Step::End => false,
        Step::Block { block, next } => {
            &&& outcome matches Ok(made)
            &&& made.0@ == block
            &&& made.1 == next
        },
        Step::Fail { error } => outcome matches Err(e) && e@ == error,
    }
}

/// The token `ahead` places behind `pos`, if there is one.
fn peek(tokens: &Vec<Token>, pos: usize, ahead: usize) -> (token: Option<&Token>)
    requires
        pos <= tokens.len(),
    ensures
        token.deep_view() == token_at(tokens.deep_view(), pos + ahead),
        token is Some ==> pos + ahead < tokens.len(),
{
    if ahead < tokens.len() - pos {
        Some(&tokens[pos + ahead])
    } else {
        None
    }
}

/// The error for what stands at `position` in place of a token of one of the
/// kinds `expected`.
fn unexpected_at(
    tokens: &Vec<Token>,
    position: usize,
    expected: Vec<TokenKind>,
) -> (error: ParserError)
    requires
        position <= tokens.len(),
    ensures
        unexpected(tokens.deep_view(), position as int, expected@) == (Step::Fail {
            error: error@,
        }),
{
    let got = if position < tokens.len() {
        Some(tokens[position].clone())
    } else {
        None
    };
    ParserError::UnexpectedToken { position, expected, got }
}

/// The header production at `pos`.
fn header(tokens: &Vec<Token>, pos: usize) -> (outcome: Result<(MDValue, usize), ParserError>)
    requires
        pos < tokens.len(),
        tokens[pos as int]@ == TokenView::Pad,
    ensures
        outcome_of(header_step(tokens.deep_view(), pos as int), outcome),
{
    let level: usize = match peek(tokens, pos, 1) {
        Some(Token::Pad) => match peek(tokens, pos, 2) {
            Some(Token::Pad) => match peek(tokens, pos, 3) {
                Some(Token::Pad) => 4,
                _ => 3,
            },
            _ => 2,
        },
        _ => 1,
    };
    match peek(tokens, pos, level) {
        Some(Token::String(text)) => {
            let text = text.clone();
            let block = if level == 1 {
                MDValue::BigHeader(text)
            } else if level == 2 {
                MDValue::MediumHeader(text)
            } else if level == 3 {
                MDValue::SmallHeader(text)
            } else {
                MDValue::VerySmallHeader(text)
            };
            Ok((block, pos + level + 1))
        },
        _ => {
            let expected = if level < 4 {
                vec![TokenKind::Pad, TokenKind::String]
            } else {
                vec![TokenKind::String]
            };
            assert(expected@ == if level < 4 {
                seq![TokenKind::Pad, TokenKind::String]
            } else {
                seq![TokenKind::String]
            });
            Err(unexpected_at(tokens, pos + level, expected))
        },
    }
}

/// The index of the first line feed at or after `from`, or the length of
/// `chars`.
fn find_line_end(chars: &Vec<char>, from: usize) -> (end: usize)
    requires
        from <= chars.len(),
    ensures
        end == line_end(chars@, from as int),
        from <= end <= chars.len(),
{
    let mut end: usize = from;
    while end < chars.len() && chars[end] != '\n'
        invariant
            from <= end <= chars.len(),
            line_end(chars@, from as int) == line_end(chars@, end as int),
        decreases chars.len() - end,
    {
        end = end + 1;
    }
    end
}

/// Where the content of the line from `from` to its end `end` stops: before
/// the carriage return of a line that ends with one and a line feed.
fn find_line_stop(chars: &Vec<char>, from: usize, end: usize) -> (stop: usize)
    requires
        from <= end <= chars.len(),
        end == line_end(chars@, from as int),
    ensures
        from <= stop <= end,
        chars@.subrange(from as int, stop as int) == line_at(chars@, from as int),
{
    if from < end && end < chars.len() && chars[end - 1] == '\r' {
        end - 1
    } else {
        end
    }
}

/// Whether the characters `chars[from..to]` are those of `word`.
fn spells(chars: &Vec<char>, from: usize, to: usize, word: &[char]) -> (same: bool)
    requires
        from <= to <= chars.len(),
    ensures
        same == (chars@.subrange(from as int, to as int) == word@),
{
    let ghost line = chars@.subrange(from as int, to as int);
    if to - from != word.len() {
        return false;
    }
    let mut i: usize = 0;
    while i < word.len()
        invariant
            from <= to <= chars.len(),
            to - from == word.len(),
            line == chars@.subrange(from as int, to as int),
            0 <= i <= word.len(),
            forall|k: int| 0 <= k < i ==> line[k] == word@[k],
        decreases word.len() - i,
    {
        if chars[from + i] != word[i] {
            return false;
        }
        i = i + 1;
    }
    assert(line =~= word@);
    true
}

/// The language named by the characters `chars[from..to]`.
fn language_of(chars: &Vec<char>, from: usize, to: usize) -> (language: CSLanguage)
    requires
        from <= to <= chars.len(),
    ensures
        language == language_named(chars@.subrange(from as int, to as int)),
{
    let rust = ['r', 'u', 's', 't'];
    let cxx = ['c', '+', '+'];
    let cpp = ['c', 'p', 'p'];
    let c = ['c'];
    assert(rust@ == seq!['r', 'u', 's', 't']);
    assert(cxx@ == seq!['c', '+', '+']);
    assert(cpp@ == seq!['c', 'p', 'p']);
    assert(c@ == seq!['c']);
    if spells(chars, from, to, rust.as_slice()) {
        CSLanguage::Rust
    } else if spells(chars, from, to, cxx.as_slice()) || spells(chars, from, to, cpp.as_slice()) {
        CSLanguage::Cpp
    } else if spells(chars, from, to, c.as_slice()) {
        CSLanguage::C
    } else {
        CSLanguage::Uknown
    }
}

/// The lines of `chars` from `from` on, each followed by one line feed.
fn reline(chars: &Vec<char>, from: usize) -> (text: String)
    requires
        from <= chars.len(),
    ensures
        text@ == relined(chars@, from as int),
{
    let mut text = String::new();
    let mut pos: usize = from;
    while pos < chars.len()
        invariant
            from <= pos <= chars.len(),
            text@ + relined(chars@, pos as int) == relined(chars@, from as int),
        decreases chars.len() - pos,
    {
        let end = find_line_end(chars, pos);
        let stop = find_line_stop(chars, pos, end);
        let ghost before = text@;
        append_chars(&mut text, chars, pos, stop);
        push_char(&mut text, '\n');
        let follows: usize = if end < chars.len() {
            end + 1
        } else {
            end
        };
        assert(relined(chars@, end + 1) == relined(chars@, follows as int));
        assert(text@ == before + (line_at(chars@, pos as int) + seq!['\n']));
        pos = follows;
    }
    text
}

/// The inline code production at `pos`.
fn inline_code(tokens: &Vec<Token>, pos: usize) -> (outcome: Result<
    (MDValue, usize),
    ParserError,
>)
    requires
        pos < tokens.len(),
    ensures
        outcome_of(inline_step(tokens.deep_view(), pos as int), outcome),
{
    match peek(tokens, pos, 1) {
        None => Err(ParserError::UnterminatedSpan { kind: SpanKind::Inline, start_position: pos }),
        Some(Token::Code(text)) => match peek(tokens, pos, 2) {
            None => Err(
                ParserError::UnterminatedSpan { kind: SpanKind::Inline, start_position: pos },
            ),
            Some(Token::ReversedQuote) => Ok(
                (MDValue::CodeSnippet((CSLanguage::Uknown, text.clone())), pos + 3),
            ),
            Some(_) => {
                let expected = vec![TokenKind::ReversedQuote];
                assert(expected@ == seq![TokenKind::ReversedQuote]);
                Err(unexpected_at(tokens, pos + 2, expected))
            },
        },
        Some(_) => {
            let expected = vec![TokenKind::ReversedQuote, TokenKind::Code];
            assert(expected@ == seq![TokenKind::ReversedQuote, TokenKind::Code]);
            Err(unexpected_at(tokens, pos + 1, expected))
        },
    }
}

/// The index of the first token from `pos + ahead` on that is no
/// `ReversedQuote`, looking at `count` tokens at most.
fn skip_quotes(tokens: &Vec<Token>, pos: usize, ahead: usize, count: usize) -> (stop: usize)
    requires
        pos + ahead <= tokens.len(),
    ensures
        stop == quotes_until(tokens.deep_view(), pos + ahead, count as nat),
        pos + ahead <= stop <= tokens.len(),
        stop <= pos + ahead + count,
{
    let mut stop: usize = pos + ahead;
    let mut left: usize = count;
    while left > 0 && stop < tokens.len() && matches!(tokens[stop], Token::ReversedQuote)
        invariant
            pos + ahead <= stop <= tokens.len(),
            stop + left == pos + ahead + count,
            quotes_until(tokens.deep_view(), pos + ahead, count as nat) == quotes_until(
                tokens.deep_view(),
                stop as int,
                left as nat,
            ),
        decreases left,
    {
        stop = stop + 1;
        left = left - 1;
    }
    stop
}

/// The fenced code production at `pos`.
fn fenced_code(tokens: &Vec<Token>, pos: usize) -> (outcome: Result<
    (MDValue, usize),
    ParserError,
>)
    requires
        pos + 1 < tokens.len(),
    ensures
        outcome_of(fenced_step(tokens.deep_view(), pos as int), outcome),
{
    let unterminated = ParserError::UnterminatedSpan {
        kind: SpanKind::Fenced,
        start_position: pos,
    };
    match peek(tokens, pos, 2) {
        None => Err(unterminated),
        Some(Token::ReversedQuote) => match peek(tokens, pos, 3) {
            None => Err(unterminated),
            Some(Token::Code(code)) => {
                let stop = skip_quotes(tokens, pos, 4, 3);
                if stop - pos == 7 {
                    Ok((MDValue::CodeSnippet(MDParser::extract_lang(code.clone())), pos + 7))
                } else if stop >= tokens.len() {
                    Err(unterminated)
                } else {
                    let expected = vec![TokenKind::ReversedQuote];
                    assert(expected@ == seq![TokenKind::ReversedQuote]);
                    Err(unexpected_at(tokens, stop, expected))
                }
            },
            Some(_) => {
                let expected = vec![TokenKind::Code];
                assert(expected@ == seq![TokenKind::Code]);
                Err(unexpected_at(tokens, pos + 3, expected))
            },
        },
        Some(_) => {
            let expected = vec![TokenKind::ReversedQuote];
            assert(expected@ == seq![TokenKind::ReversedQuote]);
            Err(unexpected_at(tokens, pos + 2, expected))
        },
    }
}

/// A cursor over a token sequence that hands out one document block per call.
pub struct MDParser {
    /// The tokens to parse.
    source: Vec<Token>,
    /// The index of the first token not yet parsed.
    position: usize,
}

impl MDParser {
    #[verifier::type_invariant]
    spec fn position_in_bounds(&self) -> bool {
        self.position <= self.source.len()
    }

    /// The tokens that this parser reads.
    pub closed spec fn tokens(&self) -> Seq<TokenView> {
        self.source.deep_view()
    }

    /// The index of the first token not yet parsed.
    pub closed spec fn position(&self) -> int {
        self.position as int
    }

    /// A parser over the tokens of `tokens` that lie behind its cursor: all of
    /// them for a tokenizer fresh from `new` or `reset`.
    pub fn new(tokens: Tokenizer) -> (parser: Self)
        ensures
            parser.tokens() == tokens.tokens(),
            parser.position() == Tokenizer::cursor_after_next(
                tokens.tokens().len() as int,
                tokens.cursor(),
            ),
    {
        let (source, position) = tokens.into_parts();
        MDParser { source, position }
    }

    /// Splits the content of a fenced snippet into its language and its text.
    ///
    /// Where the first line names a language, the text is made of the lines
    /// behind it, each closed by one line feed. Else the language is unknown
    /// and the text is the content as it stands.
    pub fn extract_lang(code: String) -> (snippet: (CSLanguage, String))
        ensures
            snippet.0 == snippet_language(code@),
            snippet.1@ == snippet_text(code@),
    {
        let chars = chars_of(code.as_str());
        let end = find_line_end(&chars, 0);
        let stop = find_line_stop(&chars, 0, end);
        let language = language_of(&chars, 0, stop);
        match language {
            CSLanguage::Uknown => (language, code),
            _ => {
                let follows: usize = if end < chars.len() {
                    end + 1
                } else {
                    end
                };
                assert(relined(chars@, end + 1) == relined(chars@, follows as int));
                (language, reline(&chars, follows))
            },
        }
    }

    /// Parses the next block.
    ///
    /// Returns `None` where no token is left, the block and moves behind its
    /// tokens where they match a production, and else the failure, moving to
    /// the end of the tokens: nothing is parsed after a failure.
    pub fn next(&mut self) -> (outcome: Option<Result<MDValue, ParserError>>)
        ensures
            final(self).tokens() == old(self).tokens(),
            match parse_step(old(self).tokens(), old(self).position()) {
                Step::End => {
                    &&& outcome is None
                    &&& final(self).position() == old(self).position()
                },
                Step::Block { block, next } => {
                    &&& outcome matches Some(Ok(value)) && value@ == block
                    &&& final(self).position() == next
                },
                Step::Fail { error } => {
                    &&& outcome matches Some(Err(e)) && e@ == error
                    &&& final(self).position() == old(self).tokens().len()
                },
            },
    {
        proof {
            use_type_invariant(&*self);
        }
        let pos = self.position;
        let made = match peek(&self.source, pos, 0) {
            None => {
                return None;
            },
            Some(Token::Pad) => header(&self.source, pos),
            Some(Token::ReversedQuote) => match peek(&self.source, pos, 1) {
                Some(Token::ReversedQuote) => fenced_code(&self.source, pos),
                _ => inline_code(&self.source, pos),
            },
            Some(Token::NewLine) => Ok((MDValue::NewLine, pos + 1)),
            Some(Token::String(text)) => Ok((MDValue::Text(text.clone()), pos + 1)),
            Some(Token::Asterisk) => Err(ParserError::UnsupportedFeature { marker: '*' }),
            Some(Token::LowBar) => Err(ParserError::UnsupportedFeature { marker: '_' }),
            Some(Token::Code(_)) => {
                let expected = vec![
                    TokenKind::Pad,
                    TokenKind::String,
                    TokenKind::NewLine,
                    TokenKind::ReversedQuote,
                ];
                assert(expected@ == seq![
                    TokenKind::Pad,
                    TokenKind::String,
                    TokenKind::NewLine,
                    TokenKind::ReversedQuote,
                ]);
                Err(unexpected_at(&self.source, pos, expected))
            },
        };
        proof {
            lemma_step_advances(self.source.deep_view(), pos as int);
        }
        match made {
            Ok((block, next)) => {
                self.position = next;
                Some(Ok(block))
            },
            Err(error) => {
                self.position = self.source.len();
                Some(Err(error))
            },
        }
    }
}

} // verus!
