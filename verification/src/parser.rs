//! Reading Markdown text into events.

use crate::event::{Event, EventView};
use crate::level::HeadingLevel;
use pulldown_cmark::Event::{Code, End, Html, InlineHtml, Start, Text};
use pulldown_cmark::{Options, Parser, Tag, TagEnd};
use vstd::prelude::*;

verus! {

/// The events that the parser of the `pulldown_cmark` crate reads from a
/// Markdown text, with strikethrough and footnotes enabled and no other
/// extension.
pub uninterp spec fn markdown_events(text: Seq<char>) -> Seq<EventView>;

/// Calls `Parser::new_ext` with the options `ENABLE_STRIKETHROUGH` and
/// `ENABLE_FOOTNOTES`, and walks the parser to its end. Each event is
/// handed out as the event of this library that stands for it: the
/// markers of headings with their levels, the markers of emphasis and of
/// strong emphasis, text, code and HTML, in a block or inline, with their
/// strings, and `Other` for all the rest. A level of the parser is found again by its
/// number, which is 1 for its `H1` and 6 for its `H6`.
///
/// The parser is made for any text and stops at the end of it. Nothing
/// is claimed of which events come out: they are named.
#[verifier::external_body]
pub(crate) fn parse_markdown(text: &str) -> (events: Vec<Event>)
    ensures
        events.deep_view() == markdown_events(text@),
{
    let options = Options::ENABLE_STRIKETHROUGH | Options::ENABLE_FOOTNOTES;
    Parser::new_ext(text, options).map(|event| match event {
        Start(Tag::Heading { level, .. }) => Event::HeadingStart(HeadingLevel::from_rank(level as usize).unwrap()),
        End(TagEnd::Heading(level)) => Event::HeadingEnd(HeadingLevel::from_rank(level as usize).unwrap()),
        Start(Tag::Emphasis) => Event::EmphasisStart,
        End(TagEnd::Emphasis) => Event::EmphasisEnd,
        Start(Tag::Strong) => Event::StrongStart,
        End(TagEnd::Strong) => Event::StrongEnd,
        Text(s) => Event::Text(s.into_string()),
        Code(s) => Event::Code(s.into_string()),
        Html(s) | InlineHtml(s) => Event::Html(s.into_string()),
        _ => Event::Other,
    }).collect()
}

} // verus!
