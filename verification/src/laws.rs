//! What holds of the scanner, the parser and the renderer taken together.

use vstd::prelude::*;
use crate::compile;
use crate::compiler::{code_html, header_html, html_of, html_of_all};
use crate::errors::{ErrorView, SpanKind};
use crate::parser::{
    language_named, line_at, line_end, parse, parse_from, parse_step, quotes_until, relined,
    snippet_language, snippet_text, CSLanguage, DocumentBlock, Step,
};
use crate::text::{lemma_scan_while, lemma_scan_while_stops_at};
use crate::tokenizer::{
    is_plain_char, is_run_char, lex, lex_from, token_at, ScanState, TokenView, Tokenizer,
};

verus! {

/// The text of a header line: `level` times `#`, a space, and `text`.
pub open spec fn header_source(level: int, text: Seq<char>) -> Seq<char> {
    Seq::new(level as nat, |i: int| '#') + seq![' '] + text
}

/// The tokens of a header line: `level` times `Pad`, and a `String`.
pub open spec fn header_tokens(level: int, text: Seq<char>) -> Seq<TokenView> {
    Seq::new(level as nat, |i: int| TokenView::Pad).push(TokenView::String(text))
}

/// Behind the last character nothing is scanned, in any state.
pub proof fn lemma_lex_at_end(src: Seq<char>, state: ScanState)
    ensures
        lex_from(src, src.len() as int, state) == Ok::<Seq<TokenView>, ErrorView>(Seq::empty()),
{
}

proof fn lemma_lex_header_from(level: int, text: Seq<char>, k: int)
    requires
        0 <= k <= level,
        text.len() > 0,
        is_plain_char(text[0]),
        forall|i: int| 0 <= i < text.len() ==> is_run_char(#[trigger] text[i]),
    ensures
        lex_from(header_source(level, text), k, ScanState::initial()) == Ok::<
            Seq<TokenView>,
            ErrorView,
        >(header_tokens(level - k, text)),
    decreases level - k,
{
    let src = header_source(level, text);
    let state = ScanState::initial();
    let len = src.len() as int;
    if k < level {
        lemma_lex_header_from(level, text, k + 1);
        assert(seq![TokenView::Pad] + header_tokens(level - k - 1, text) == header_tokens(
            level - k,
            text,
        ));
    } else {
        assert forall|i: int| level + 1 <= i < len implies is_run_char(#[trigger] src[i]) by {}
        lemma_scan_while_stops_at(src, level, |c: char| c == ' ', level + 1);
        lemma_scan_while_stops_at(src, level + 1, |c: char| is_run_char(c), len);
        assert(src.subrange(level + 1, len) == text);
        lemma_lex_at_end(src, state);
        assert(seq![TokenView::String(text)] + Seq::<TokenView>::empty() == header_tokens(
            0,
            text,
        ));
    }
}

/// A header line compiles to a header: for a level from 1 to 4 and a text of
/// plain characters and spaces that starts with a plain character, the line
/// made of `level` times `#`, a space and the text is scanned to `level` times
/// `Pad` and a `String` with the text, which is parsed to the one header of
/// that level and text, which is written as the text between `<hN>` and
/// `</hN>`.
pub proof fn lemma_header_line(level: int, text: Seq<char>)
    requires
        1 <= level <= 4,
        text.len() > 0,
        is_plain_char(text[0]),
        forall|i: int| 0 <= i < text.len() ==> is_run_char(#[trigger] text[i]),
    ensures
        lex(header_source(level, text)) == Ok::<Seq<TokenView>, ErrorView>(
            header_tokens(level, text),
        ),
        parse(header_tokens(level, text)) == Ok::<Seq<DocumentBlock>, ErrorView>(
            seq![DocumentBlock::Header { level, text }],
        ),
        compile(header_source(level, text)) == Ok::<Seq<char>, ErrorView>(
            header_html(level, text),
        ),
{
    lemma_lex_header_from(level, text, 0);
    let tokens = header_tokens(level, text);
    let block = DocumentBlock::Header { level, text };
    assert(parse_from(tokens, level + 1) == Ok::<Seq<DocumentBlock>, ErrorView>(Seq::empty()));
    lemma_html_of_one(block);
}

/// The HTML of a single block is that of the block.
pub proof fn lemma_html_of_one(block: DocumentBlock)
    ensures
        html_of_all(seq![block]) == html_of(block),
{
    let blocks = seq![block];
    assert(html_of_all(blocks.drop_first()) == Seq::<char>::empty());
}

// ---------------------------------------------------------------------------
// Code spans
// ---------------------------------------------------------------------------

/// `count` backticks.
pub open spec fn backticks(count: int) -> Seq<char> {
    Seq::new(count as nat, |i: int| '`')
}

/// `count` times `ReversedQuote`.
pub open spec fn quotes(count: int) -> Seq<TokenView> {
    Seq::new(count as nat, |i: int| TokenView::ReversedQuote)
}

/// Whether the scanner takes `content`, met while capturing, for one `Code`
/// that holds all of it: it starts with a plain character or a space and
/// holds no backtick.
pub open spec fn is_code_content(content: Seq<char>) -> bool {
    &&& content.len() > 0
    &&& is_run_char(content[0])
    &&& forall|i: int| 0 <= i < content.len() ==> #[trigger] content[i] != '`'
}

/// The text of a code span: `content` between `open` backticks before it and
/// `close` backticks behind it.
pub open spec fn span_source(open: int, content: Seq<char>, close: int) -> Seq<char> {
    backticks(open) + content + backticks(close)
}

/// The tokens of a code span: a `Code` between `open` quotes before it and
/// `close` quotes behind it.
pub open spec fn span_tokens(open: int, content: Seq<char>, close: int) -> Seq<TokenView> {
    quotes(open).push(TokenView::Code(content)) + quotes(close)
}

/// The state of the scanner behind `met` backticks with no `Code` among them.
spec fn opening_state(met: int) -> ScanState {
    ScanState { quotes: met as nat, capturing: met == 1 || met == 3, captured: false }
}

/// The state of the scanner behind a `Code` that followed `open` backticks
/// and is followed by `met` more.
spec fn closing_state(open: int, met: int) -> ScanState {
    if met == open {
        ScanState::initial()
    } else {
        ScanState {
            quotes: (open + met) as nat,
            capturing: met == 0,
            captured: true,
        }
    }
}

proof fn lemma_lex_closing(src: Seq<char>, pos: int, open: int, met: int, close: int)
    requires
        open == 1 || open == 3,
        0 <= met <= close <= open,
        0 <= pos,
        src.len() == pos + close - met,
        forall|i: int| pos <= i < src.len() ==> #[trigger] src[i] == '`',
    ensures
        lex_from(src, pos, closing_state(open, met)) == Ok::<Seq<TokenView>, ErrorView>(
            quotes(close - met),
        ),
    decreases close - met,
{
    let state = closing_state(open, met);
    if met < close {
        lemma_lex_closing(src, pos + 1, open, met + 1, close);
        assert(seq![TokenView::ReversedQuote] + quotes(close - met - 1) == quotes(close - met));
    } else {
        lemma_lex_at_end(src, state);
        assert(quotes(0) == Seq::<TokenView>::empty());
    }
}

proof fn lemma_lex_span_from(open: int, content: Seq<char>, close: int, met: int)
    requires
        open == 1 || open == 3,
        0 <= met <= open,
        0 <= close <= open,
        is_code_content(content),
    ensures
        lex_from(span_source(open, content, close), met, opening_state(met)) == Ok::<
            Seq<TokenView>,
            ErrorView,
        >(span_tokens(open - met, content, close)),
    decreases open - met,
{
    let src = span_source(open, content, close);
    let state = opening_state(met);
    let behind = open + content.len();
    if met < open {
        lemma_lex_span_from(open, content, close, met + 1);
        assert(seq![TokenView::ReversedQuote] + span_tokens(open - met - 1, content, close)
            == span_tokens(open - met, content, close));
    } else {
        assert forall|i: int| open <= i < behind implies #[trigger] src[i] != '`' by {}
        assert forall|i: int| behind <= i < src.len() implies #[trigger] src[i] == '`' by {}
        lemma_scan_while_stops_at(src, open, |c: char| c != '`', behind);
        assert(src.subrange(open, behind) == content);
        lemma_lex_closing(src, behind, open, 0, close);
        assert(seq![TokenView::Code(content)] + quotes(close) == span_tokens(0, content, close));
    }
}

/// A code span is scanned to its quotes and one `Code`: for one or three
/// opening backticks, content that `is_code_content`, and no more closing
/// backticks than opening ones.
pub proof fn lemma_lex_span(open: int, content: Seq<char>, close: int)
    requires
        open == 1 || open == 3,
        0 <= close <= open,
        is_code_content(content),
    ensures
        lex(span_source(open, content, close)) == Ok::<Seq<TokenView>, ErrorView>(
            span_tokens(open, content, close),
        ),
{
    lemma_lex_span_from(open, content, close, 0);
}

/// The failure of a fenced span whose tokens run out.
pub open spec fn unterminated_fence() -> ErrorView {
    ErrorView::UnterminatedSpan { kind: SpanKind::Fenced, start_position: 0 }
}

/// An inline span compiles to a snippet of unknown language: content that
/// `is_code_content` between single backticks is scanned to a `Code` between
/// two quotes, which is parsed to the one snippet that holds the content as
/// it stands.
pub proof fn lemma_inline_span(content: Seq<char>)
    requires
        is_code_content(content),
    ensures
        lex(span_source(1, content, 1)) == Ok::<Seq<TokenView>, ErrorView>(
            span_tokens(1, content, 1),
        ),
        parse(span_tokens(1, content, 1)) == Ok::<Seq<DocumentBlock>, ErrorView>(
            seq![DocumentBlock::CodeSnippet { language: CSLanguage::Uknown, text: content }],
        ),
        compile(span_source(1, content, 1)) == Ok::<Seq<char>, ErrorView>(code_html(content)),
{
    lemma_lex_span(1, content, 1);
    let tokens = span_tokens(1, content, 1);
    let block = DocumentBlock::CodeSnippet { language: CSLanguage::Uknown, text: content };
    assert(parse_from(tokens, 3) == Ok::<Seq<DocumentBlock>, ErrorView>(Seq::empty()));
    lemma_html_of_one(block);
}

/// A fenced span compiles to one snippet: content that `is_code_content`
/// between triple backticks is scanned to a `Code` between three quotes on
/// either side, which is parsed to the one snippet with the language and the
/// text that the content gives.
pub proof fn lemma_fenced_span(content: Seq<char>)
    requires
        is_code_content(content),
    ensures
        lex(span_source(3, content, 3)) == Ok::<Seq<TokenView>, ErrorView>(
            span_tokens(3, content, 3),
        ),
        parse(span_tokens(3, content, 3)) == Ok::<Seq<DocumentBlock>, ErrorView>(
            seq![
                DocumentBlock::CodeSnippet {
                    language: snippet_language(content),
                    text: snippet_text(content),
                },
            ],
        ),
        compile(span_source(3, content, 3)) == Ok::<Seq<char>, ErrorView>(
            code_html(snippet_text(content)),
        ),
{
    lemma_lex_span(3, content, 3);
    let tokens = span_tokens(3, content, 3);
    let block = DocumentBlock::CodeSnippet {
        language: snippet_language(content),
        text: snippet_text(content),
    };
    assert(quotes_until(tokens, 4, 3) == 7) by {
        reveal_with_fuel(quotes_until, 4);
    }
    assert(parse_from(tokens, 7) == Ok::<Seq<DocumentBlock>, ErrorView>(Seq::empty()));
    lemma_html_of_one(block);
}

/// A fence that is not closed fails as an unterminated fenced span: three
/// backticks, then nothing or content that `is_code_content`, then fewer than
/// three backticks where there is content, and the end of the text.
pub proof fn lemma_open_fence(content: Seq<char>, close: int)
    requires
        0 <= close < 3,
        is_code_content(content) || (content.len() == 0 && close == 0),
    ensures
        compile(span_source(3, content, close)) == Err::<Seq<char>, ErrorView>(
            unterminated_fence(),
        ),
{
    let src = span_source(3, content, close);
    if content.len() == 0 {
        let tokens = quotes(3);
        assert(lex(src) == Ok::<Seq<TokenView>, ErrorView>(tokens)) by {
            lemma_lex_fence_alone();
        }
    } else {
        lemma_lex_span(3, content, close);
        let tokens = span_tokens(3, content, close);
        assert(quotes_until(tokens, 4, 3) == 4 + close) by {
            reveal_with_fuel(quotes_until, 4);
        }
    }
}

proof fn lemma_lex_fence_alone()
    ensures
        lex(backticks(3)) == Ok::<Seq<TokenView>, ErrorView>(quotes(3)),
{
    let src = backticks(3);
    lemma_lex_at_end(src, opening_state(3));
    let one = seq![TokenView::ReversedQuote];
    assert(lex_from(src, 2, opening_state(2)) == Ok::<Seq<TokenView>, ErrorView>(
        one + Seq::empty(),
    ));
    assert(lex_from(src, 1, opening_state(1)) == Ok::<Seq<TokenView>, ErrorView>(
        one + (one + Seq::empty()),
    ));
    assert(one + (one + (one + Seq::empty())) == quotes(3));
}

// ---------------------------------------------------------------------------
// The language line
// ---------------------------------------------------------------------------

proof fn lemma_relined_behind(prefix: Seq<char>, body: Seq<char>, from: int)
    requires
        0 <= from <= body.len(),
    ensures
        relined(prefix + body, prefix.len() + from) == relined(body, from),
    decreases body.len() - from,
{
    let whole = prefix + body;
    let shift = prefix.len() as int;
    if from < body.len() {
        let end = line_end(body, from);
        lemma_scan_while(body, from, |c: char| c != '\n');
        assert forall|i: int| shift + from <= i < shift + end implies #[trigger] whole[i]
            != '\n' by {}
        lemma_scan_while_stops_at(whole, shift + from, |c: char| c != '\n', shift + end);
        if end < body.len() {
            lemma_relined_behind(prefix, body, end + 1);
        }
        assert(relined(whole, shift + end + 1) == relined(body, end + 1));
    }
}

proof fn lemma_relined_from_line_start(body: Seq<char>, from: int)
    requires
        0 <= from <= body.len(),
        body.len() == 0 || body.last() == '\n',
        forall|i: int| 0 < i < body.len() && #[trigger] body[i] == '\n' ==> body[i - 1] != '\r',
    ensures
        relined(body, from) == body.subrange(from, body.len() as int),
    decreases body.len() - from,
{
    if from < body.len() {
        let end = line_end(body, from);
        lemma_scan_while(body, from, |c: char| c != '\n');
        lemma_relined_from_line_start(body, end + 1);
    }
}

/// A text made of lines that are each closed by a line feed alone is kept as
/// it stands: where `body` is empty or ends with a line feed, and no line
/// feed of it follows a carriage return, its lines, each followed by one line
/// feed, are `body` itself.
pub proof fn lemma_closed_lines_are_kept(body: Seq<char>)
    requires
        body.len() == 0 || body.last() == '\n',
        forall|i: int| 0 < i < body.len() && #[trigger] body[i] == '\n' ==> body[i - 1] != '\r',
    ensures
        relined(body, 0) == body,
{
    lemma_relined_from_line_start(body, 0);
    assert(body.subrange(0, body.len() as int) == body);
}

/// A fence with a language line compiles to a snippet of that language: for
/// a first line `tag` that names a language and a `body` without backticks,
/// the tag, a line feed and the body between triple backticks compile to the
/// one snippet with the language of the tag, whose text is made of the lines
/// of the body, each closed by one line feed.
pub proof fn lemma_fence_with_language(tag: Seq<char>, body: Seq<char>)
    requires
        language_named(tag) != CSLanguage::Uknown,
        forall|i: int| 0 <= i < body.len() ==> #[trigger] body[i] != '`',
    ensures
        is_code_content(tag + seq!['\n'] + body),
        snippet_language(tag + seq!['\n'] + body) == language_named(tag),
        snippet_text(tag + seq!['\n'] + body) == relined(body, 0),
        parse(span_tokens(3, tag + seq!['\n'] + body, 3)) == Ok::<Seq<DocumentBlock>, ErrorView>(
            seq![
                DocumentBlock::CodeSnippet {
                    language: language_named(tag),
                    text: relined(body, 0),
                },
            ],
        ),
        compile(span_source(3, tag + seq!['\n'] + body, 3)) == Ok::<Seq<char>, ErrorView>(
            code_html(relined(body, 0)),
        ),
{
    let content = tag + seq!['\n'] + body;
    let n = tag.len() as int;
    assert forall|i: int| 0 <= i < content.len() implies #[trigger] content[i] != '`' by {}
    assert forall|i: int| 0 <= i < n implies #[trigger] content[i] != '\n' by {}
    lemma_scan_while_stops_at(content, 0, |c: char| c != '\n', n);
    assert(line_at(content, 0) == tag);
    lemma_relined_behind(tag + seq!['\n'], body, 0);
    lemma_fenced_span(content);
}

/// A fence without a language line compiles to a snippet of unknown language
/// that holds all of its content: for content that `is_code_content` and
/// whose first line names no language.
pub proof fn lemma_fence_without_language(content: Seq<char>)
    requires
        is_code_content(content),
        snippet_language(content) == CSLanguage::Uknown,
    ensures
        parse(span_tokens(3, content, 3)) == Ok::<Seq<DocumentBlock>, ErrorView>(
            seq![DocumentBlock::CodeSnippet { language: CSLanguage::Uknown, text: content }],
        ),
        compile(span_source(3, content, 3)) == Ok::<Seq<char>, ErrorView>(code_html(content)),
{
    lemma_fenced_span(content);
}

// ---------------------------------------------------------------------------
// Scanning again, and what a failure reports
// ---------------------------------------------------------------------------

/// Scanning a text again gives the same tokens: two tokenizers that `new` or
/// `reset` left for the same text hold identical token sequences, with their
/// cursors in the same place.
pub proof fn lemma_same_text_same_tokens(first: Tokenizer, again: Tokenizer, source: Seq<char>)
    requires
        first.is_fresh_from(source),
        again.is_fresh_from(source),
    ensures
        first.tokens() == again.tokens(),
        first.cursor() == again.cursor(),
{
}

/// What the parser reports as unexpected is what stands at the reported
/// position, and is of none of the kinds reported as expected.
pub proof fn lemma_unexpected_is_not_expected(tokens: Seq<TokenView>, pos: int)
    ensures
        parse_step(tokens, pos) matches Step::Fail {
            error: ErrorView::UnexpectedToken { position, expected, got },
        } ==> {
            &&& got == token_at(tokens, position)
            &&& got matches Some(token) ==> !expected.contains(token.kind())
        },
{
    reveal_with_fuel(quotes_until, 4);
}

} // verus!
