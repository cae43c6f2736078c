//! The scanner: from text to a sequence of tokens.

use vstd::prelude::*;
use crate::errors::{ErrorView, ParserError};
use crate::text::{chars_of, lemma_scan_while, scan_while, string_of};

verus! {

/// A lexical unit of the markdown dialect.
///
/// `Code` is kept apart from `String` because it may hold any character but
/// the backtick, reserved ones included. The scanner makes one only behind
/// the first or the third backtick of a span.
#[derive(Debug, PartialEq, Eq)]
pub enum Token {
    /// `#`, the header marker.
    Pad,
    /// A run of plain text.
    String(String),
    /// A line feed.
    NewLine,
    /// A backtick, the code delimiter.
    ReversedQuote,
    /// `_`, reserved for italics.
    LowBar,
    /// `*`, reserved for bold text.
    Asterisk,
    /// The raw content of a code span.
    Code(String),
}

/// The mathematical value of a [`Token`]: its texts are character sequences.
pub enum TokenView {
    Pad,
    String(Seq<char>),
    NewLine,
    ReversedQuote,
    LowBar,
    Asterisk,
    Code(Seq<char>),
}

impl View for Token {
    type V = TokenView;

    open spec fn view(&self) -> TokenView {
        match *self {
            Token::Pad => TokenView::Pad,
            Token::String(s) => TokenView::String(s@),
            Token::NewLine => TokenView::NewLine,
            Token::ReversedQuote => TokenView::ReversedQuote,
            Token::LowBar => TokenView::LowBar,
            Token::Asterisk => TokenView::Asterisk,
            Token::Code(s) => TokenView::Code(s@),
        }
    }
}

impl DeepView for Token {
    type V = TokenView;

    open spec fn deep_view(&self) -> TokenView {
        self@
    }
}

impl Clone for Token {
    fn clone(&self) -> (copy: Token)
        ensures
            copy == *self,
    {
        match self {
            Token::Pad => Token::Pad,
            Token::String(s) => Token::String(s.clone()),
            Token::NewLine => Token::NewLine,
            Token::ReversedQuote => Token::ReversedQuote,
            Token::LowBar => Token::LowBar,
            Token::Asterisk => Token::Asterisk,
            Token::Code(s) => Token::Code(s.clone()),
        }
    }
}

/// The kind of a token, without its text.
#[derive(Debug, Clone, Copy, PartialEq, Eq, Structural)]
pub enum TokenKind {
    Pad,
    String,
    NewLine,
    ReversedQuote,
    LowBar,
    Asterisk,
    Code,
}

impl TokenView {
    /// The kind of this token.
    pub open spec fn kind(self) -> TokenKind {
        match self {
            TokenView::Pad => TokenKind::Pad,
            TokenView::String(_) => TokenKind::String,
            TokenView::NewLine => TokenKind::NewLine,
            TokenView::ReversedQuote => TokenKind::ReversedQuote,
            TokenView::LowBar => TokenKind::LowBar,
            TokenView::Asterisk => TokenKind::Asterisk,
            TokenView::Code(_) => TokenKind::Code,
        }
    }
}

impl Token {
    /// The kind of this token.
    pub fn kind(&self) -> (k: TokenKind)
        ensures
            k == self@.kind(),
    {
        match self {
            Token::Pad => TokenKind::Pad,
            Token::String(_) => TokenKind::String,
            Token::NewLine => TokenKind::NewLine,
            Token::ReversedQuote => TokenKind::ReversedQuote,
            Token::LowBar => TokenKind::LowBar,
            Token::Asterisk => TokenKind::Asterisk,
            Token::Code(_) => TokenKind::Code,
        }
    }
}

/// The token at index `i`, if there is one.
pub open spec fn token_at(tokens: Seq<TokenView>, i: int) -> Option<TokenView> {
    if 0 <= i < tokens.len() {
        Some(tokens[i])
    } else {
        None
    }
}

// ---------------------------------------------------------------------------
// The character classes
// ---------------------------------------------------------------------------

/// A character of plain text: a letter or digit of ASCII, or one of
/// `" . ? \u{bf} , : ( ) '`. Such a character starts a token.
pub open spec fn is_plain_char(c: char) -> bool {
    ||| 'a' <= c <= 'z'
    ||| 'A' <= c <= 'Z'
    ||| '0' <= c <= '9'
    ||| c == '"'
    ||| c == '.'
    ||| c == '?'
    ||| c == '\u{bf}'
    ||| c == ','
    ||| c == ':'
    ||| c == '('
    ||| c == ')'
    ||| c == '\''
}

/// A character that goes on a run of plain text: a plain one, or a space.
pub open spec fn is_run_char(c: char) -> bool {
    is_plain_char(c) || c == ' '
}

/// A character that ends a run of plain text and is a token of its own.
pub open spec fn is_run_stop(c: char) -> bool {
    c == '\n' || c == '#' || c == '_' || c == '`' || c == '*'
}

fn plain_char(c: char) -> (plain: bool)
    ensures
        plain == is_plain_char(c),
{
    ('a' <= c && c <= 'z') || ('A' <= c && c <= 'Z') || ('0' <= c && c <= '9') || c == '"' || c
        == '.' || c == '?' || c == '\u{bf}' || c == ',' || c == ':' || c == '(' || c == ')' || c
        == '\''
}

fn run_stop(c: char) -> (stop: bool)
    ensures
        stop == is_run_stop(c),
{
    c == '\n' || c == '#' || c == '_' || c == '`' || c == '*'
}

// ---------------------------------------------------------------------------
// The scanner as a function of the text
// ---------------------------------------------------------------------------

/// What the scanner remembers of the backticks it has met.
pub struct ScanState {
    /// The backticks met since the last code span was closed.
    pub quotes: nat,
    /// Whether the next plain character or space starts a `Code`.
    pub capturing: bool,
    /// Whether a `Code` was scanned since the last code span was closed.
    pub captured: bool,
}

impl ScanState {
    /// The state at the start of a text.
    pub open spec fn initial() -> ScanState {
        ScanState { quotes: 0, capturing: false, captured: false }
    }

    /// The state behind one more backtick. The first and the third backtick
    /// turn capturing on, every other one turns it off; the second or the
    /// sixth, met after a `Code`, closes the span and clears the state.
    pub open spec fn after_backtick(self) -> ScanState {
        let quotes = self.quotes + 1;
        if self.captured && (quotes == 2 || quotes == 6) {
            ScanState::initial()
        } else {
            ScanState { quotes, capturing: quotes == 1 || quotes == 3, captured: self.captured }
        }
    }

    /// The state behind a `Code`.
    pub open spec fn after_code(self) -> ScanState {
        ScanState { quotes: self.quotes, capturing: self.capturing, captured: true }
    }
}

/// The index at which the run of plain text that holds `from` ends.
pub open spec fn plain_run_end(src: Seq<char>, from: int) -> int {
    scan_while(src, from, |c: char| is_run_char(c))
}

/// The index of the first backtick at or after `from`, or the length of
/// `src`: where the code content that holds `from` ends.
pub open spec fn code_run_end(src: Seq<char>, from: int) -> int {
    scan_while(src, from, |c: char| c != '`')
}

/// The index at which the next token starts: `from`, or the first character
/// at or after it that is no space where no code is being captured.
pub open spec fn token_start(src: Seq<char>, from: int, capturing: bool) -> int {
    if capturing {
        from
    } else {
        scan_while(src, from, |c: char| c == ' ')
    }
}

/// What the scanner finds at a position of the text.
pub enum Scan {
    /// Nothing but spaces is left.
    End,
    /// One token, which ends before `next` and leaves the scanner in `state`.
    Emit { token: TokenView, next: int, state: ScanState },
    /// A character outside the grammar.
    Fail { error: ErrorView },
}

/// The next token of `src` at or after `pos`, for a scanner in `state`.
///
/// A backtick, a line feed, `#`, `_` and `*` are tokens of their own in either
/// mode. A plain character, or while capturing a space, starts a `Code` that
/// runs up to the next backtick where code is being captured, and else a
/// `String` that runs up to the next character that is neither plain nor a
/// space; that one must end a run, or it is invalid. Any other character is
/// invalid.
pub open spec fn next_token(src: Seq<char>, pos: int, state: ScanState) -> Scan {
    let start = token_start(src, pos, state.capturing);
    if 0 <= start < src.len() {
        let c = src[start];
        if c == '`' {
            Scan::Emit {
                token: TokenView::ReversedQuote,
                next: start + 1,
                state: state.after_backtick(),
            }
        } else if c == '\n' {
            Scan::Emit { token: TokenView::NewLine, next: start + 1, state }
        } else if c == '#' {
            Scan::Emit { token: TokenView::Pad, next: start + 1, state }
        } else if c == '_' {
            Scan::Emit { token: TokenView::LowBar, next: start + 1, state }
        } else if c == '*' {
            Scan::Emit { token: TokenView::Asterisk, next: start + 1, state }
        } else if state.capturing && is_run_char(c) {
            let end = code_run_end(src, start);
            Scan::Emit {
                token: TokenView::Code(src.subrange(start, end)),
                next: end,
                state: state.after_code(),
            }
        } else if is_plain_char(c) {
            let end = plain_run_end(src, start);
            if end < src.len() && !is_run_stop(src[end]) {
                Scan::Fail {
                    error: ErrorView::InvalidCharacter { position: end, character: src[end] },
                }
            } else {
                Scan::Emit { token: TokenView::String(src.subrange(start, end)), next: end, state }
            }
        } else {
            Scan::Fail { error: ErrorView::InvalidCharacter { position: start, character: c } }
        }
    } else {
        Scan::End
    }
}

/// A token ends behind the position at which it was looked for, within the
/// text.
pub proof fn lemma_next_token_advances(src: Seq<char>, pos: int, state: ScanState)
    ensures
        next_token(src, pos, state) matches Scan::Emit { next, .. } ==> pos < next <= src.len(),
{
    if 0 <= pos <= src.len() {
        lemma_scan_while(src, pos, |c: char| c == ' ');
        let start = token_start(src, pos, state.capturing);
        if start < src.len() {
            lemma_scan_while(src, start, |c: char| c != '`');
            lemma_scan_while(src, start, |c: char| is_run_char(c));
        }
    }
}

/// The tokens of `src` from `pos` on for a scanner in `state`, or the first
/// invalid character.
pub open spec fn lex_from(src: Seq<char>, pos: int, state: ScanState) -> Result<
    Seq<TokenView>,
    ErrorView,
>
    decreases src.len() - pos,
{
    match next_token(src, pos, state) {
        Scan::End => Ok(Seq::empty()),
        Scan::Emit { token, next, state: then } => {
            proof {
                lemma_next_token_advances(src, pos, state);
            }
            match lex_from(src, next, then) {
                Ok(rest) => Ok(seq![token] + rest),
                Err(error) => Err(error),
            }
        },
        Scan::Fail { error } => Err(error),
    }
}

/// The tokens of the text `src`, or the first invalid character.
pub open spec fn lex(src: Seq<char>) -> Result<Seq<TokenView>, ErrorView> {
    lex_from(src, 0, ScanState::initial())
}

/// The tokens of the text `src`, and none where it holds an invalid character.
pub open spec fn tokens_of(src: Seq<char>) -> Seq<TokenView> {
    match lex(src) {
        Ok(tokens) => tokens,
        Err(_) => Seq::empty(),
    }
}


/// A scanner over one text, which hands out one token per call.
struct TokenizerIterator {
    /// The characters of the text.
    source: Vec<char>,
    /// The index of the first character not yet scanned.
    position: usize,
    /// The backticks met since the last code span was closed.
    number_of_quotes: usize,
    /// Whether the next plain character or space starts a `Code`.
    possible_code: bool,
    /// Whether a `Code` was scanned since the last code span was closed.
    done_code: bool,
}

impl TokenizerIterator {
    #[verifier::type_invariant]
    spec fn counters_in_bounds(&self) -> bool {
        self.number_of_quotes <= self.position <= self.source.len()
    }

    /// The text that is scanned.
    spec fn text(&self) -> Seq<char> {
        self.source@
    }

    /// The index of the first character not yet scanned.
    spec fn position(&self) -> int {
        self.position as int
    }

    /// What the scanner remembers of the backticks it has met.
    spec fn state(&self) -> ScanState {
        ScanState {
            quotes: self.number_of_quotes as nat,
            capturing: self.possible_code,
            captured: self.done_code,
        }
    }

    /// A scanner at the start of `source`.
    fn new(source: &str) -> (scanner: Self)
        ensures
            scanner.text() == source@,
            scanner.position() == 0,
            scanner.state() == ScanState::initial(),
    {
        TokenizerIterator {
            source: chars_of(source),
            position: 0,
            number_of_quotes: 0,
            possible_code: false,
            done_code: false,
        }
    }

    /// Scans the run of plain text that starts at the position, and stops
    /// behind it. Fails where the run ends on a character that may not follow
    /// it.
    fn parse_string(&mut self) -> (run: Result<String, ParserError>)
        requires
            old(self).position() < old(self).text().len(),
            is_plain_char(old(self).text()[old(self).position()]),
        ensures
            final(self).text() == old(self).text(),
            final(self).state() == old(self).state(),
            final(self).position() == plain_run_end(old(self).text(), old(self).position()),
            old(self).position() < final(self).position(),
            match run {
                Ok(string) => {
                    &&& string@ == old(self).text().subrange(
                        old(self).position(),
                        final(self).position(),
                    )
                    &&& (final(self).position() < old(self).text().len() ==> is_run_stop(
                        old(self).text()[final(self).position()],
                    ))
                },
                Err(error) => {
                    &&& final(self).position() < old(self).text().len()
                    &&& !is_run_stop(old(self).text()[final(self).position()])
                    &&& error@ == (ErrorView::InvalidCharacter {
                        position: final(self).position(),
                        character: old(self).text()[final(self).position()],
                    })
                },
            },
    {
        proof {
            use_type_invariant(&*self);
        }
        let start = self.position;
        let mut end: usize = start;
        while end < self.source.len() && (plain_char(self.source[end]) || self.source[end] == ' ')
            invariant
                start <= end <= self.source.len(),
                plain_run_end(self.source@, start as int) == plain_run_end(
                    self.source@,
                    end as int,
                ),
            decreases self.source.len() - end,
        {
            end = end + 1;
        }
        self.position = end;
        if end < self.source.len() && !run_stop(self.source[end]) {
            Err(ParserError::InvalidCharacter { position: end, character: self.source[end] })
        } else {
            Ok(string_of(&self.source, start, end))
        }
    }

    /// Scans the code content that starts at the position, up to the next
    /// backtick or the end of the text, and stops behind it.
    fn parse_code(&mut self) -> (code: String)
        requires
            old(self).position() < old(self).text().len(),
            old(self).text()[old(self).position()] != '`',
        ensures
            final(self).text() == old(self).text(),
            final(self).state() == old(self).state().after_code(),
            final(self).position() == code_run_end(old(self).text(), old(self).position()),
            old(self).position() < final(self).position(),
            code@ == old(self).text().subrange(old(self).position(), final(self).position()),
    {
        proof {
            use_type_invariant(&*self);
        }
        let start = self.position;
        let mut end: usize = start;
        while end < self.source.len() && self.source[end] != '`'
            invariant
                start <= end <= self.source.len(),
                code_run_end(self.source@, start as int) == code_run_end(self.source@, end as int),
            decreases self.source.len() - end,
        {
            end = end + 1;
        }
        self.position = end;
        self.done_code = true;
        string_of(&self.source, start, end)
    }

    /// Scans the next token.
    ///
    /// Returns `None` where nothing but spaces is left, the token where one
    /// starts behind the position, and else the invalid character; nothing is
    /// scanned after a failure.
    fn next(&mut self) -> (outcome: Option<Result<Token, ParserError>>)
        ensures
            final(self).text() == old(self).text(),
            match next_token(old(self).text(), old(self).position(), old(self).state()) {
                Scan::End => {
                    &&& outcome is None
                    &&& final(self).position() == old(self).text().len()
                    &&& final(self).state() == old(self).state()
                },
                Scan::Emit { token, next, state } => {
                    &&& outcome matches Some(Ok(found)) && found@ == token
                    &&& final(self).position() == next
                    &&& final(self).state() == state
                },
                Scan::Fail { error } => {
                    &&& outcome matches Some(Err(e)) && e@ == error
                    &&& final(self).position() == old(self).text().len()
                },
            },
    {
        proof {
            use_type_invariant(&*self);
        }
        let mut start: usize = self.position;
        if !self.possible_code {
            while start < self.source.len() && self.source[start] == ' '
                invariant
                    self.position <= start <= self.source.len(),
                    token_start(self.source@, self.position as int, false) == token_start(
                        self.source@,
                        start as int,
                        false,
                    ),
                decreases self.source.len() - start,
            {
                start = start + 1;
            }
        }
        self.position = start;
        if start >= self.source.len() {
            return None;
        }
        let c = self.source[start];
        if c == '`' {
            self.position = start + 1;
            self.number_of_quotes = self.number_of_quotes + 1;
            self.possible_code = self.number_of_quotes == 1 || self.number_of_quotes == 3;
            if self.done_code && (self.number_of_quotes == 6 || self.number_of_quotes == 2) {
                self.number_of_quotes = 0;
                self.done_code = false;
                self.possible_code = false;
            }
            Some(Ok(Token::ReversedQuote))
        } else if c == '\n' {
            self.position = start + 1;
            Some(Ok(Token::NewLine))
        } else if c == '#' {
            self.position = start + 1;
            Some(Ok(Token::Pad))
        } else if c == '_' {
            self.position = start + 1;
            Some(Ok(Token::LowBar))
        } else if c == '*' {
            self.position = start + 1;
            Some(Ok(Token::Asterisk))
        } else if self.possible_code && (plain_char(c) || c == ' ') {
            Some(Ok(Token::Code(self.parse_code())))
        } else if plain_char(c) {
            match self.parse_string() {
                Ok(string) => Some(Ok(Token::String(string))),
                Err(error) => {
                    self.position = self.source.len();
                    Some(Err(error))
                },
            }
        } else {
            self.position = self.source.len();
            Some(Err(ParserError::InvalidCharacter { position: start, character: c }))
        }
    }
}


/// The tokens `found`, followed by what is scanned behind them.
spec fn found_then(found: Seq<TokenView>, rest: Result<Seq<TokenView>, ErrorView>) -> Result<
    Seq<TokenView>,
    ErrorView,
> {
    match rest {
        Ok(tokens) => Ok(found + tokens),
        Err(error) => Err(error),
    }
}

/// Scans `source` from its start to its end.
fn scan_all(source: &str) -> (scanned: Result<Vec<Token>, ParserError>)
    ensures
        match lex(source@) {
            Ok(tokens) => scanned matches Ok(found) && found.deep_view() == tokens,
            Err(error) => scanned matches Err(e) && e@ == error,
        },
{
    let mut scanner = TokenizerIterator::new(source);
    let mut tokens: Vec<Token> = Vec::new();
    loop
        invariant
            scanner.text() == source@,
            lex(source@) == found_then(
                tokens.deep_view(),
                lex_from(source@, scanner.position(), scanner.state()),
            ),
        decreases source@.len() - scanner.position(),
    {
        let ghost before = tokens.deep_view();
        let ghost pos = scanner.position();
        let ghost state = scanner.state();
        proof {
            use_type_invariant(&scanner);
            lemma_next_token_advances(source@, pos, state);
        }
        match scanner.next() {
            None => {
                return Ok(tokens);
            },
            Some(Ok(token)) => {
                tokens.push(token);
                proof {
                    assert(tokens.deep_view() == before.push(token@));
                    if let Ok(rest) = lex_from(source@, scanner.position(), scanner.state()) {
                        assert(before + (seq![token@] + rest) == before.push(token@) + rest);
                    }
                }
            },
            Some(Err(error)) => {
                return Err(error);
            },
        }
    }
}

/// Where the cursor of a tokenizer stands.
#[derive(Debug)]
enum Cursor {
    /// Before the first token.
    Start,
    /// On the token with this index.
    On(usize),
    /// Behind the last token.
    End,
}

/// The tokens of one text, scanned once and in full, with a cursor over them.
///
/// The cursor starts before the first token. Once it has moved behind the
/// last token it stays there: the tokens are handed out again only after a
/// step back, and scanned again only by `reset`.
#[derive(Debug)]
pub struct Tokenizer {
    /// The tokens of the text, in source order.
    tokens: Vec<Token>,
    /// Where the cursor stands.
    curr_token: Cursor,
}

impl Tokenizer {
    #[verifier::type_invariant]
    spec fn cursor_in_bounds(&self) -> bool {
        self.curr_token matches Cursor::On(i) ==> i < self.tokens.len()
    }

    /// The tokens held, in source order.
    pub closed spec fn tokens(&self) -> Seq<TokenView> {
        self.tokens.deep_view()
    }

    /// Where the cursor stands: the index of the token it stands on, -1 before
    /// the first token, and the number of tokens behind the last one.
    pub closed spec fn cursor(&self) -> int {
        match self.curr_token {
            Cursor::Start => -1,
            Cursor::On(i) => i as int,
            Cursor::End => self.tokens.len() as int,
        }
    }

    /// Whether this tokenizer is as `new` and `reset` leave one for the text
    /// `source`: it holds the tokens of the text and its cursor stands before
    /// the first of them.
    pub open spec fn is_fresh_from(&self, source: Seq<char>) -> bool {
        self.tokens() == tokens_of(source) && self.cursor() == -1
    }

    /// Where `next` moves a cursor over `len` tokens: one token on, and no
    /// further than behind the last token.
    pub open spec fn cursor_after_next(len: int, cursor: int) -> int {
        if cursor + 1 < len {
            cursor + 1
        } else {
            len
        }
    }

    /// Where `next_back` moves a cursor over `len` tokens: one token back, and
    /// no further than before the first token.
    pub open spec fn cursor_after_next_back(len: int, cursor: int) -> int {
        if cursor >= 1 {
            cursor - 1
        } else {
            -1
        }
    }

    /// Scans `source` in full. The cursor of the new tokenizer stands before
    /// the first token. Fails on the first character outside the grammar.
    pub fn new(source: &str) -> (made: Result<Self, ParserError>)
        ensures
            match lex(source@) {
                Ok(_) => made matches Ok(tokenizer) && tokenizer.is_fresh_from(source@),
                Err(error) => made matches Err(e) && e@ == error,
            },
    {
        match scan_all(source) {
            Ok(tokens) => Ok(Tokenizer { tokens, curr_token: Cursor::Start }),
            Err(error) => Err(error),
        }
    }

    /// Drops the tokens held and scans `source` in their place. The cursor
    /// then stands before the first token. Where `source` holds a character
    /// outside the grammar, the tokenizer is left without tokens.
    pub fn reset(&mut self, source: &str) -> (done: Result<(), ParserError>)
        ensures
            final(self).is_fresh_from(source@),
            match lex(source@) {
                Ok(_) => done is Ok,
                Err(error) => done matches Err(e) && e@ == error,
            },
    {
        self.curr_token = Cursor::Start;
        match scan_all(source) {
            Ok(tokens) => {
                self.tokens = tokens;
                Ok(())
            },
            Err(error) => {
                self.tokens = Vec::new();
                assert(self.tokens.deep_view() == Seq::<TokenView>::empty());
                Err(error)
            },
        }
    }

    /// Moves the cursor one token on and returns the token it then stands on,
    /// or `None` where it then stands behind the last token. From there it
    /// moves no further.
    pub fn next(&mut self) -> (token: Option<Token>)
        ensures
            final(self).tokens() == old(self).tokens(),
            final(self).cursor() == Self::cursor_after_next(
                old(self).tokens().len() as int,
                old(self).cursor(),
            ),
            token.deep_view() == token_at(old(self).tokens(), final(self).cursor()),
    {
        proof {
            use_type_invariant(&*self);
        }
        let target: usize = match self.curr_token {
            Cursor::Start => 0,
            Cursor::On(i) => i + 1,
            Cursor::End => self.tokens.len(),
        };
        if target < self.tokens.len() {
            self.curr_token = Cursor::On(target);
            Some(self.tokens[target].clone())
        } else {
            self.curr_token = Cursor::End;
            None
        }
    }

    /// Moves the cursor one token back and returns the token it then stands
    /// on, or `None` where it then stands before the first token. From there
    /// it moves no further.
    pub fn next_back(&mut self) -> (token: Option<Token>)
        ensures
            final(self).tokens() == old(self).tokens(),
            final(self).cursor() == Self::cursor_after_next_back(
                old(self).tokens().len() as int,
                old(self).cursor(),
            ),
            token.deep_view() == token_at(old(self).tokens(), final(self).cursor()),
    {
        proof {
            use_type_invariant(&*self);
        }
        let target: usize = match self.curr_token {
            Cursor::Start => 0,
            Cursor::On(i) => i,
            Cursor::End => self.tokens.len(),
        };
        if target > 0 {
            self.curr_token = Cursor::On(target - 1);
            Some(self.tokens[target - 1].clone())
        } else {
            self.curr_token = Cursor::Start;
            None
        }
    }

    /// Gives up the tokens, and the index of the first token behind the
    /// cursor.
    pub(crate) fn into_parts(self) -> (parts: (Vec<Token>, usize))
        ensures
            parts.0.deep_view() == self.tokens(),
            parts.1 == Self::cursor_after_next(self.tokens().len() as int, self.cursor()),
            parts.1 <= parts.0.len(),
    {
        proof {
            use_type_invariant(&self);
        }
        let start: usize = match self.curr_token {
            Cursor::Start => 0,
            Cursor::On(i) => i + 1,
            Cursor::End => self.tokens.len(),
        };
        (self.tokens, start)
    }
}

} // verus!
