//! The parse events that a table of contents is built from.

use crate::level::HeadingLevel;
use vstd::prelude::*;

verus! {

/// One event of a parsed Markdown document, as far as a table of contents
/// reads it.
#[derive(Debug, PartialEq, Eq)]
pub enum Event {
    /// The start of a heading of the given level.
    HeadingStart(HeadingLevel),
    /// The end of a heading of the given level.
    HeadingEnd(HeadingLevel),
    /// Plain text.
    Text(String),
    /// An inline code span, without its backticks.
    Code(String),
    /// The start of emphasised text.
    EmphasisStart,
    /// The end of emphasised text.
    EmphasisEnd,
    /// The start of strongly emphasised text.
    StrongStart,
    /// The end of strongly emphasised text.
    StrongEnd,
    /// Raw HTML.
    Html(String),
    /// Any other event. A table of contents ignores it.
    Other,
}

/// What an [`Event`] stands for: the same event, its strings taken as
/// sequences of characters.
pub enum EventView {
    HeadingStart(HeadingLevel),
    HeadingEnd(HeadingLevel),
    Text(Seq<char>),
    Code(Seq<char>),
    EmphasisStart,
    EmphasisEnd,
    StrongStart,
    StrongEnd,
    Html(Seq<char>),
    Other,
}

impl EventView {
    /// Whether the event starts or ends a heading.
    pub open spec fn is_heading_marker(self) -> bool {
        self is HeadingStart || self is HeadingEnd
    }
}

impl View for Event {
    type V = EventView;

    open spec fn view(&self) -> EventView {
        match self {
            Event::HeadingStart(level) => EventView::HeadingStart(*level),
            Event::HeadingEnd(level) => EventView::HeadingEnd(*level),
            Event::Text(s) => EventView::Text(s@),
            Event::Code(s) => EventView::Code(s@),
            Event::EmphasisStart => EventView::EmphasisStart,
            Event::EmphasisEnd => EventView::EmphasisEnd,
            Event::StrongStart => EventView::StrongStart,
            Event::StrongEnd => EventView::StrongEnd,
            Event::Html(s) => EventView::Html(s@),
            Event::Other => EventView::Other,
        }
    }
}

impl DeepView for Event {
    type V = EventView;

    open spec fn deep_view(&self) -> EventView {
        self@
    }
}

impl Clone for Event {
    fn clone(&self) -> (copy: Self)
        ensures
            copy@ == self@,
    {
        match self {
            Event::HeadingStart(level) => Event::HeadingStart(*level),
            Event::HeadingEnd(level) => Event::HeadingEnd(*level),
            Event::Text(s) => Event::Text(s.clone()),
            Event::Code(s) => Event::Code(s.clone()),
            Event::EmphasisStart => Event::EmphasisStart,
            Event::EmphasisEnd => Event::EmphasisEnd,
            Event::StrongStart => Event::StrongStart,
            Event::StrongEnd => Event::StrongEnd,
            Event::Html(s) => Event::Html(s.clone()),
            Event::Other => Event::Other,
        }
    }
}

} // verus!
