//! The table of contents of a document.

use crate::collect::{
    closed_headings, is_well_nested, lemma_open_heading_marker_free, lemma_well_nested_prefix,
    open_heading, well_nested,
};
use crate::event::Event;
use crate::heading::{Heading, HeadingView};
use crate::level::HeadingLevel;
use crate::parser::{markdown_events, parse_markdown};
use crate::render::{
    heading_text, lemma_all_levels, lemma_github_renders, lemma_toc_text_push, level_filter,
    push_entry, renders, toc_text, ItemSymbol, Options,
};
use crate::slug::{github_anchors, yields, Slugify};
use std::borrow::Cow;
use vstd::prelude::*;

verus! {

/// The headings of a document, in the order of the document.
#[derive(Debug)]
pub struct TableOfContents {
    headings: Vec<Heading>,
}

impl View for TableOfContents {
    type V = Seq<HeadingView>;

    closed spec fn view(&self) -> Seq<HeadingView> {
        self.headings.deep_view()
    }
}

impl TableOfContents {
    /// The table of contents of a Markdown text.
    ///
    /// The text is parsed with strikethrough and footnotes enabled, and
    /// with no extension that would change the text of a heading. Every
    /// end marker among the events of the text has to close an open
    /// heading of its own level: [`TableOfContents::try_new`] tests that.
    pub fn new(text: &str) -> (toc: Self)
        requires
            well_nested(markdown_events(text@)),
        ensures
            toc@ == closed_headings(markdown_events(text@)),
    {
        let events = parse_markdown(text);
        TableOfContents::new_with_events(events.as_slice())
    }

    /// The table of contents of a Markdown text, or `None` where an end
    /// marker among the events of the text closes no open heading of its
    /// level.
    pub fn try_new(text: &str) -> (toc: Option<Self>)
        ensures
            toc is Some <==> well_nested(markdown_events(text@)),
            toc matches Some(t) ==> t@ == closed_headings(markdown_events(text@)),
    {
        let events = parse_markdown(text);
        if is_well_nested(events.as_slice()) {
            Some(TableOfContents::new(text))
        } else {
            None
        }
    }

    /// The table of contents of the given events.
    ///
    /// Every end marker among the events has to close an open heading of
    /// its own level.
    pub fn new_with_events(events: &[Event]) -> (toc: Self)
        requires
            well_nested(events.deep_view()),
        ensures
            toc@ == closed_headings(events.deep_view()),
    {
        let ghost all = events.deep_view();
        let mut headings: Vec<Heading> = Vec::new();
        let mut level: Option<HeadingLevel> = None;
        let mut inner: Vec<Event> = Vec::new();
        let mut i: usize = 0;
        while i < events.len()
            invariant
                i <= events.len(),
                all == events.deep_view(),
                well_nested(all),
                headings.deep_view() == closed_headings(all.take(i as int)),
                match open_heading(all.take(i as int)) {
                    Some(heading) => level == Some(heading.level) && inner.deep_view()
                        == heading.events,
                    None => level is None,
                },
            decreases events.len() - i,
        {
            let ghost before = all.take(i as int);
            let ghost after = all.take(i + 1);
            proof {
                assert(after.drop_last() =~= before);
                lemma_open_heading_marker_free(before);
                lemma_well_nested_prefix(all, i + 1);
            }
            match &events[i] {
                Event::HeadingStart(start) => {
                    level = Some(*start);
                    inner = Vec::new();
                },
                Event::HeadingEnd(end) => {
                    let mut sealed: Vec<Event> = Vec::new();
                    core::mem::swap(&mut inner, &mut sealed);
                    headings.push(Heading::new(*end, sealed));
                    level = None;
                },
                event => {
                    if level.is_some() {
                        inner.push(event.clone());
                    }
                },
            }
            i += 1;
        }
        assert(all.take(i as int) =~= all);
        TableOfContents { headings }
    }

    /// The table of contents of the given events, or `None` where an end
    /// marker among them closes no open heading of its level.
    pub fn try_new_with_events(events: &[Event]) -> (toc: Option<Self>)
        ensures
            toc is Some <==> well_nested(events.deep_view()),
            toc matches Some(t) ==> t@ == closed_headings(events.deep_view()),
    {
        if is_well_nested(events) {
            Some(TableOfContents::new_with_events(events))
        } else {
            None
        }
    }

    /// The headings, in the order of the document.
    pub fn headings(&self) -> (headings: &[Heading])
        ensures
            headings.deep_view() == self@,
    {
        self.headings.as_slice()
    }

    /// Renders the table of contents as Markdown: a list of links, one
    /// for each heading, with hyphens as symbols, two spaces for each
    /// level below the first, and anchors made GitHub's way.
    #[must_use]
    pub fn to_cmark(&self) -> (out: String)
        ensures
            out@ == toc_text(
                self@,
                github_anchors(Map::empty(), self@.map_values(heading_text())),
                ItemSymbol::Hyphen,
                2,
                HeadingLevel::H1,
            ),
    {
        let options = Options::default();
        let ghost given = options;
        let out = self.to_cmark_with_options(options);
        proof {
            lemma_github_renders(self@, given, out@);
            lemma_all_levels(self@);
        }
        out
    }

    /// Renders the table of contents as Markdown with the given options:
    /// one line for each heading of the levels asked for, in the order of
    /// the document, with the anchor that the slugifier of the options
    /// returns for the plain text of the heading.
    #[must_use]
    pub fn to_cmark_with_options<S: Slugify>(&self, options: Options<S>) -> (out: String)
        ensures
            renders(self@, options, out@),
    {
        let ghost start = options.slugifier;
        let Options { item_symbol, first_level, last_level, indent, slugifier } = options;
        let mut slugger = slugifier;
        let ghost pick = level_filter(first_level, last_level);
        let ghost mut anchors: Seq<Seq<char>> = Seq::empty();
        let mut buf = String::new();
        let mut i: usize = 0;
        proof {
            reveal(Seq::filter);
            assert(buf@ =~= toc_text(
                Seq::empty(),
                anchors,
                item_symbol,
                indent as nat,
                first_level,
            ));
        }
        while i < self.headings.len()
            invariant
                i <= self.headings.len(),
                self@ == self.headings.deep_view(),
                pick == level_filter(first_level, last_level),
                anchors.len() == self@.take(i as int).filter(pick).len(),
                yields(
                    start,
                    self@.take(i as int).filter(pick).map_values(heading_text()),
                    anchors,
                    slugger,
                ),
                buf@ == toc_text(
                    self@.take(i as int).filter(pick),
                    anchors,
                    item_symbol,
                    indent as nat,
                    first_level,
                ),
            decreases self.headings.len() - i,
        {
            let heading = &self.headings[i];
            let ghost entries = self@.take(i as int).filter(pick);
            proof {
                assert(self@.take(i + 1) =~= self@.take(i as int).push(heading@));
                self@.take(i as int).lemma_filter_push(heading@, pick);
            }
            let rank = heading.level().rank();
            if first_level.rank() <= rank && rank <= last_level.rank() {
                let text = heading.text();
                let ghost mid = slugger;
                let anchor = slugger.slugify(text.as_str());
                let target: &str = match &anchor {
                    Cow::Borrowed(borrowed) => borrowed,
                    Cow::Owned(owned) => owned.as_str(),
                };
                push_entry(&mut buf, item_symbol, indent, first_level, heading, target);
                proof {
                    let texts = entries.map_values(heading_text());
                    let more = entries.push(heading@).map_values(heading_text());
                    lemma_toc_text_push(
                        entries,
                        anchors,
                        item_symbol,
                        indent as nat,
                        first_level,
                        heading@,
                        anchor@,
                    );
                    assert(more.drop_last() =~= texts);
                    assert(anchors.push(anchor@).drop_last() =~= anchors);
                    assert(mid.slugify_spec(more.last(), anchors.push(anchor@).last(), &slugger));
                    anchors = anchors.push(anchor@);
                }
            }
            i += 1;
        }
        proof {
            assert(self@.take(i as int) =~= self@);
        }
        buf
    }
}

} // verus!
