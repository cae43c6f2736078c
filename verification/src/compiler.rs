//! The renderer: from document blocks to HTML text.

use vstd::prelude::*;
use crate::parser::{DocumentBlock, MDValue};

verus! {

/// The digit that stands for a header level in a tag.
pub open spec fn level_digit(level: int) -> char {
    if level == 1 {
        '1'
    } else if level == 2 {
        '2'
    } else if level == 3 {
        '3'
    } else {
        '4'
    }
}

/// The HTML of a header: its text between `<hN>` and `</hN>`, where `N` is
/// the digit of its level.
pub open spec fn header_html(level: int, text: Seq<char>) -> Seq<char> {
    seq!['<', 'h', level_digit(level), '>'] + text + seq!['<', '/', 'h', level_digit(level), '>']
}

/// The HTML of a code snippet: its text between `<code>` and `</code>`.
pub open spec fn code_html(text: Seq<char>) -> Seq<char> {
    seq!['<', 'c', 'o', 'd', 'e', '>'] + text + seq!['<', '/', 'c', 'o', 'd', 'e', '>']
}

/// The HTML of one block: that of a header or of a snippet, a text as it
/// stands, a line break as one line feed. No character of a text is escaped.
pub open spec fn html_of(block: DocumentBlock) -> Seq<char> {
    match block {
        DocumentBlock::Header { level, text } => header_html(level, text),
        DocumentBlock::CodeSnippet { language, text } => code_html(text),
        DocumentBlock::Text { text } => text,
        DocumentBlock::LineBreak => seq!['\n'],
    }
}

/// The HTML of a sequence of blocks: that of each, in order, with nothing
/// between them.
pub open spec fn html_of_all(blocks: Seq<DocumentBlock>) -> Seq<char>
    decreases blocks.len(),
{
    if blocks.len() == 0 {
        Seq::empty()
    } else {
        html_of(blocks[0]) + html_of_all(blocks.drop_first())
    }
}

impl MDValue {
    /// The HTML of this block.
    pub fn to_string(&self) -> (html: String)
        ensures
            html@ == html_of(self@),
    {
        let mut html = String::new();
        match self {
            MDValue::BigHeader(text) => {
                proof {
                    reveal_strlit("<h1>");
                    reveal_strlit("</h1>");
                }
                html.append("<h1>");
                html.append(text.as_str());
                html.append("</h1>");
            },
            MDValue::MediumHeader(text) => {
                proof {
                    reveal_strlit("<h2>");
                    reveal_strlit("</h2>");
                }
                html.append("<h2>");
                html.append(text.as_str());
                html.append("</h2>");
            },
            MDValue::SmallHeader(text) => {
                proof {
                    reveal_strlit("<h3>");
                    reveal_strlit("</h3>");
                }
                html.append("<h3>");
                html.append(text.as_str());
                html.append("</h3>");
            },
            MDValue::VerySmallHeader(text) => {
                proof {
                    reveal_strlit("<h4>");
                    reveal_strlit("</h4>");
                }
                html.append("<h4>");
                html.append(text.as_str());
                html.append("</h4>");
            },
            MDValue::CodeSnippet(snippet) => {
                proof {
                    reveal_strlit("<code>");
                    reveal_strlit("</code>");
                }
                html.append("<code>");
                html.append(snippet.1.as_str());
                html.append("</code>");
            },
            MDValue::Text(text) => {
                html.append(text.as_str());
            },
            MDValue::NewLine => {
                proof {
                    reveal_strlit("\n");
                }
                html.append("\n");
            },
        }
        html
    }
}

} // verus!
