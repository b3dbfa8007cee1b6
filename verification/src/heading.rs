//! Headings and the text they hold.

use crate::event::{Event, EventView};
use crate::level::HeadingLevel;
use vstd::prelude::*;
use vstd::string::StringExecFns;

verus! {

/// One heading of a document: its level, and the events between its start
/// and its end, in the order of the document.
#[derive(Debug)]
pub struct Heading {
    events: Vec<Event>,
    level: HeadingLevel,
}

/// What a [`Heading`] stands for.
pub struct HeadingView {
    pub level: HeadingLevel,
    pub events: Seq<EventView>,
}

/// No event of `events` starts or ends a heading.
pub open spec fn marker_free(events: Seq<EventView>) -> bool {
    forall|i: int| 0 <= i < events.len() ==> !(#[trigger] events[i]).is_heading_marker()
}

/// What an event adds to the plain text of a heading: the characters of
/// text and of code, and nothing of any markup.
pub open spec fn plain_piece(event: EventView) -> Seq<char> {
    match event {
        EventView::Text(s) => s,
        EventView::Code(s) => s,
        _ => Seq::empty(),
    }
}

/// The plain text of a run of events: their text and code, in order.
pub open spec fn plain_text(events: Seq<EventView>) -> Seq<char> {
    events.map_values(|e: EventView| plain_piece(e)).flatten()
}

impl View for Heading {
    type V = HeadingView;

    closed spec fn view(&self) -> HeadingView {
        HeadingView { level: self.level, events: self.events.deep_view() }
    }
}

impl DeepView for Heading {
    type V = HeadingView;

    open spec fn deep_view(&self) -> HeadingView {
        self@
    }
}

impl Clone for Heading {
    fn clone(&self) -> (copy: Self)
        ensures
            copy@ == self@,
    {
        proof {
            use_type_invariant(self);
        }
        Heading { events: copy_events(self.events.as_slice()), level: self.level }
    }
}

/// A copy of the given events.
pub(crate) fn copy_events(events: &[Event]) -> (copy: Vec<Event>)
    ensures
        copy.deep_view() == events.deep_view(),
{
    let mut copy: Vec<Event> = Vec::new();
    let mut i: usize = 0;
    while i < events.len()
        invariant
            i <= events.len(),
            copy.deep_view() == events.deep_view().take(i as int),
        decreases events.len() - i,
    {
        let ghost before = copy.deep_view();
        copy.push(events[i].clone());
        assert(events.deep_view().take(i + 1) =~= before.push(events[i as int]@));
        i += 1;
    }
    copy
}

impl Heading {
    /// A heading holds no start or end of a heading.
    #[verifier::type_invariant]
    spec fn holds_no_marker(self) -> bool {
        marker_free(self.events.deep_view())
    }

    /// The heading of the given level that holds the given events.
    pub(crate) fn new(level: HeadingLevel, events: Vec<Event>) -> (heading: Heading)
        requires
            marker_free(events.deep_view()),
        ensures
            heading@ == (HeadingView { level, events: events.deep_view() }),
    {
        Heading { events, level }
    }

    /// The events between the start and the end of the heading.
    pub fn events(&self) -> (events: &[Event])
        ensures
            events.deep_view() == self@.events,
            marker_free(self@.events),
    {
        proof {
            use_type_invariant(self);
        }
        self.events.as_slice()
    }

    /// The level of the heading.
    pub fn level(&self) -> (level: HeadingLevel)
        ensures
            level == self@.level,
    {
        self.level
    }

    /// The text of the heading without its markup: what an anchor is
    /// made from.
    pub fn text(&self) -> (text: String)
        ensures
            text@ == plain_text(self@.events),
    {
        let mut buf = String::new();
        let ghost events = self.events.deep_view();
        let ghost pieces = events.map_values(|e: EventView| plain_piece(e));
        let mut i: usize = 0;
        while i < self.events.len()
            invariant
                i <= self.events.len(),
                events == self.events.deep_view(),
                pieces == events.map_values(|e: EventView| plain_piece(e)),
                buf@ == pieces.take(i as int).flatten(),
            decreases self.events.len() - i,
        {
            proof {
                assert(pieces.take(i + 1) =~= pieces.take(i as int).push(pieces[i as int]));
                pieces.take(i as int).lemma_flatten_push(pieces[i as int]);
            }
            match &self.events[i] {
                Event::Text(s) => buf.append(s.as_str()),
                Event::Code(s) => buf.append(s.as_str()),
                _ => {},
            }
            i += 1;
        }
        assert(pieces.take(i as int) =~= pieces);
        buf
    }
}

} // verus!
