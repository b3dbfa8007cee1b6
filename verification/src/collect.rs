//! How headings are found in a stream of events.
//!
//! A heading starts at a start marker and is closed by the next end
//! marker. The events between the two are the events of the heading.
//! Events outside any heading are dropped.

use crate::event::{Event, EventView};
use crate::heading::{marker_free, HeadingView};
use crate::level::HeadingLevel;
use vstd::prelude::*;

verus! {

/// The heading that is open once `events` have been read, if any: the one
/// whose start has been read and whose end has not.
///
/// A start marker opens a heading and leaves behind one that was open
/// before it; an end marker leaves none open; any other event joins the
/// open heading.
pub open spec fn open_heading(events: Seq<EventView>) -> Option<HeadingView>
    decreases events.len(),
{
    if events.len() == 0 {
        None
    } else {
        match events.last() {
            EventView::HeadingStart(level) => Some(HeadingView { level, events: Seq::empty() }),
            EventView::HeadingEnd(_) => None,
            event => match open_heading(events.drop_last()) {
                Some(heading) => Some(
                    HeadingView { level: heading.level, events: heading.events.push(event) },
                ),
                None => None,
            },
        }
    }
}

/// The headings that `events` hold, in the order of their end markers:
/// each end marker closes the heading that is open before it.
pub open spec fn closed_headings(events: Seq<EventView>) -> Seq<HeadingView>
    decreases events.len(),
{
    if events.len() == 0 {
        Seq::empty()
    } else {
        let before = closed_headings(events.drop_last());
        match (events.last(), open_heading(events.drop_last())) {
            (EventView::HeadingEnd(_), Some(heading)) => before.push(heading),
            _ => before,
        }
    }
}

/// Whether the end marker `event` may follow `before`: a heading of the
/// marker's level is open there. Any other event may follow.
pub open spec fn closes_open_heading(before: Seq<EventView>, event: EventView) -> bool {
    match event {
        EventView::HeadingEnd(level) => match open_heading(before) {
            Some(heading) => heading.level == level,
            None => false,
        },
        _ => true,
    }
}

/// Every end marker of `events` closes an open heading of its own level.
pub open spec fn well_nested(events: Seq<EventView>) -> bool
    decreases events.len(),
{
    events.len() == 0 || (well_nested(events.drop_last()) && closes_open_heading(
        events.drop_last(),
        events.last(),
    ))
}

/// Whether every end marker among the events closes an open heading of
/// its own level.
pub fn is_well_nested(events: &[Event]) -> (nested: bool)
    ensures
        nested == well_nested(events.deep_view()),
{
    let ghost all = events.deep_view();
    let mut open: Option<HeadingLevel> = None;
    let mut i: usize = 0;
    while i < events.len()
        invariant
            i <= events.len(),
            all == events.deep_view(),
            well_nested(all.take(i as int)),
            match open_heading(all.take(i as int)) {
                Some(heading) => open == Some(heading.level),
                None => open is None,
            },
        decreases events.len() - i,
    {
        let ghost before = all.take(i as int);
        let ghost after = all.take(i + 1);
        proof {
            assert(after.drop_last() =~= before);
        }
        match &events[i] {
            Event::HeadingStart(start) => {
                open = Some(*start);
            },
            Event::HeadingEnd(end) => {
                let matches_open = match open {
                    Some(level) => level == *end,
                    None => false,
                };
                if !matches_open {
                    proof {
                        if well_nested(all) {
                            lemma_well_nested_prefix(all, i + 1);
                        }
                    }
                    return false;
                }
                open = None;
            },
            _ => {},
        }
        i += 1;
    }
    assert(all.take(i as int) =~= all);
    true
}

/// What holds of a stream holds of its beginnings: the first `n` events of
/// a well nested stream are well nested.
pub proof fn lemma_well_nested_prefix(events: Seq<EventView>, n: int)
    requires
        well_nested(events),
        0 <= n <= events.len(),
    ensures
        well_nested(events.take(n)),
    decreases events.len(),
{
    if n == events.len() {
        assert(events.take(n) =~= events);
    } else {
        assert(events.drop_last().take(n) =~= events.take(n));
        lemma_well_nested_prefix(events.drop_last(), n);
    }
}

/// An open heading holds no start or end of a heading.
pub proof fn lemma_open_heading_marker_free(events: Seq<EventView>)
    ensures
        open_heading(events) matches Some(heading) ==> marker_free(heading.events),
    decreases events.len(),
{
    if events.len() > 0 {
        lemma_open_heading_marker_free(events.drop_last());
    }
}

/// No collected heading holds the start or the end of a heading: headings
/// do not nest.
pub proof fn lemma_closed_headings_marker_free(events: Seq<EventView>)
    ensures
        forall|i: int|
            0 <= i < closed_headings(events).len() ==> marker_free(
                (#[trigger] closed_headings(events)[i]).events,
            ),
    decreases events.len(),
{
    if events.len() > 0 {
        lemma_closed_headings_marker_free(events.drop_last());
        lemma_open_heading_marker_free(events.drop_last());
    }
}

/// After a start marker and events that are no markers, the heading of
/// that start is open and holds those events.
pub proof fn lemma_open_heading_after_start(events: Seq<EventView>, start: int)
    requires
        0 <= start < events.len(),
        events[start] is HeadingStart,
        marker_free(events.subrange(start + 1, events.len() as int)),
    ensures
        open_heading(events) == Some(
            HeadingView {
                level: events[start]->HeadingStart_0,
                events: events.subrange(start + 1, events.len() as int),
            },
        ),
    decreases events.len(),
{
    let inner = events.subrange(start + 1, events.len() as int);
    if start == events.len() - 1 {
        assert(inner =~= Seq::empty());
    } else {
        let init = events.drop_last();
        let init_inner = init.subrange(start + 1, init.len() as int);
        assert(!inner[inner.len() - 1].is_heading_marker());
        assert forall|i: int| 0 <= i < init_inner.len() implies !init_inner[i].is_heading_marker() by {
            assert(init_inner[i] == inner[i]);
        }
        lemma_open_heading_after_start(init, start);
        assert(inner =~= init_inner.push(events.last()));
    }
}

/// A heading is what stands between its markers: where a start marker is
/// followed by events that are no markers and then by an end marker, the
/// end marker closes the heading of the start's level that holds exactly
/// the events between the two, and nothing else is collected on the way.
pub proof fn lemma_heading_between_markers(events: Seq<EventView>, start: int, end: int)
    requires
        0 <= start < end < events.len(),
        events[start] is HeadingStart,
        events[end] is HeadingEnd,
        marker_free(events.subrange(start + 1, end)),
    ensures
        closed_headings(events.take(end + 1)) == closed_headings(events.take(start)).push(
            HeadingView {
                level: events[start]->HeadingStart_0,
                events: events.subrange(start + 1, end),
            },
        ),
{
    let upto = events.take(end);
    assert(upto.subrange(start + 1, upto.len() as int) =~= events.subrange(start + 1, end));
    lemma_open_heading_after_start(upto, start);
    assert(events.take(end + 1).drop_last() =~= upto);
    assert forall|i: int| start <= i < upto.len() implies !(#[trigger] upto[i] is HeadingEnd) by {
        if i > start {
            let inner = events.subrange(start + 1, end);
            assert(!inner[i - start - 1].is_heading_marker());
        }
    }
    lemma_closed_headings_unchanged(upto, start);
    assert(upto.take(start) =~= events.take(start));
}

/// The test that picks the end markers.
pub open spec fn is_end_marker() -> spec_fn(EventView) -> bool {
    |event: EventView| event is HeadingEnd
}

/// In a well nested stream each end marker closes one heading: there are as
/// many headings as end markers.
pub proof fn lemma_one_heading_for_each_end(events: Seq<EventView>)
    requires
        well_nested(events),
    ensures
        closed_headings(events).len() == events.filter(is_end_marker()).len(),
    decreases events.len(),
{
    reveal(Seq::filter);
    if events.len() > 0 {
        lemma_one_heading_for_each_end(events.drop_last());
    }
}

/// Events that are no end markers close no heading: a stream holds the
/// headings that it holds up to its last end marker, and a stream without
/// end markers holds none.
pub proof fn lemma_closed_headings_unchanged(events: Seq<EventView>, from: int)
    requires
        0 <= from <= events.len(),
        forall|i: int| from <= i < events.len() ==> !(#[trigger] events[i] is HeadingEnd),
    ensures
        closed_headings(events) == closed_headings(events.take(from)),
        from == 0 ==> closed_headings(events) == Seq::<HeadingView>::empty(),
    decreases events.len(),
{
    if from == events.len() {
        assert(events.take(from) =~= events);
    } else {
        assert(events.drop_last().take(from) =~= events.take(from));
        lemma_closed_headings_unchanged(events.drop_last(), from);
    }
}

} // verus!
