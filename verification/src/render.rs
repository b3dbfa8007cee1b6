//! Rendering the events of a heading back to Markdown, and the options of
//! a rendered table of contents.

use crate::event::{Event, EventView};
use crate::heading::{plain_text, Heading, HeadingView};
use crate::level::HeadingLevel;
use crate::slug::{github_anchors, lemma_github_yields, yields, GitHubSlugifier, Slugify};
use core::ops::RangeInclusive;
use vstd::prelude::*;
use vstd::string::StringExecFns;

verus! {

/// The Markdown that stands for one event in the label of a link: the
/// markers of emphasis, text and raw HTML as they are, code between
/// backticks, and nothing for any other event.
pub open spec fn markup(event: EventView) -> Seq<char> {
    match event {
        EventView::EmphasisStart | EventView::EmphasisEnd => seq!['*'],
        EventView::StrongStart | EventView::StrongEnd => seq!['*', '*'],
        EventView::Text(s) => s,
        EventView::Code(s) => seq!['`'] + s + seq!['`'],
        EventView::Html(s) => s,
        _ => Seq::empty(),
    }
}

/// The Markdown of a run of events: the Markdown of each, in order.
pub open spec fn label(events: Seq<EventView>) -> Seq<char> {
    events.map_values(|e: EventView| markup(e)).flatten()
}

/// Renders the events of a heading as Markdown, to serve as the label of a
/// link.
pub fn to_cmark(events: &[Event]) -> (rendered: String)
    ensures
        rendered@ == label(events.deep_view()),
{
    let mut buf = String::new();
    let ghost pieces = events.deep_view().map_values(|e: EventView| markup(e));
    let mut i: usize = 0;
    while i < events.len()
        invariant
            i <= events.len(),
            pieces == events.deep_view().map_values(|e: EventView| markup(e)),
            buf@ == pieces.take(i as int).flatten(),
        decreases events.len() - i,
    {
        proof {
            assert(pieces.take(i + 1) =~= pieces.take(i as int).push(pieces[i as int]));
            pieces.take(i as int).lemma_flatten_push(pieces[i as int]);
            reveal_strlit("*");
            reveal_strlit("**");
            reveal_strlit("`");
        }
        match &events[i] {
            Event::EmphasisStart | Event::EmphasisEnd => buf.append("*"),
            Event::StrongStart | Event::StrongEnd => buf.append("**"),
            Event::Text(s) => buf.append(s.as_str()),
            Event::Code(s) => {
                buf.append("`");
                buf.append(s.as_str());
                buf.append("`");
            },
            Event::Html(s) => buf.append(s.as_str()),
            _ => {},
        }
        i += 1;
    }
    assert(pieces.take(i as int) =~= pieces);
    buf
}

/// The symbol that starts each entry of a rendered table of contents.
#[derive(Clone, Copy, Debug, PartialEq, Eq, Structural)]
pub enum ItemSymbol {
    /// `-`
    Hyphen,
    /// `*`
    Asterisk,
}

impl ItemSymbol {
    /// The character of the symbol.
    pub open spec fn glyph(self) -> char {
        match self {
            ItemSymbol::Hyphen => '-',
            ItemSymbol::Asterisk => '*',
        }
    }

    /// The symbol as Markdown.
    pub fn as_str(self) -> (symbol: &'static str)
        ensures
            symbol@ == seq![self.glyph()],
    {
        proof {
            reveal_strlit("-");
            reveal_strlit("*");
        }
        let symbol = match self {
            ItemSymbol::Hyphen => "-",
            ItemSymbol::Asterisk => "*",
        };
        symbol
    }
}

/// `RangeInclusive::into_inner` hands out the two bounds that the range
/// was made of.
pub assume_specification<Idx>[ RangeInclusive::<Idx>::into_inner ](
    range: RangeInclusive<Idx>,
) -> (bounds: (Idx, Idx))
    ensures
        bounds.0 == range@.start,
        bounds.1 == range@.end,
;

/// How a table of contents is rendered.
pub struct Options<S = GitHubSlugifier> {
    /// The symbol that starts each entry.
    pub item_symbol: ItemSymbol,
    /// The highest level of heading that is rendered. Its entries are not
    /// indented.
    pub first_level: HeadingLevel,
    /// The deepest level of heading that is rendered.
    pub last_level: HeadingLevel,
    /// The number of spaces by which an entry is indented for each level
    /// below the first.
    pub indent: usize,
    /// What makes the anchors.
    pub slugifier: S,
}

impl Default for Options<GitHubSlugifier> {
    /// Hyphens, all levels, two spaces for each level, and anchors the way
    /// GitHub makes them, with no text seen yet.
    fn default() -> (options: Self)
        ensures
            options.item_symbol == ItemSymbol::Hyphen,
            options.first_level == HeadingLevel::H1,
            options.last_level == HeadingLevel::H6,
            options.indent == 2,
            options.slugifier@ == Map::<Seq<char>, u64>::empty(),
    {
        Options {
            item_symbol: ItemSymbol::Hyphen,
            first_level: HeadingLevel::H1,
            last_level: HeadingLevel::H6,
            indent: 2,
            slugifier: GitHubSlugifier::default(),
        }
    }
}

impl<S: Slugify> Options<S> {
    /// The same options with the given symbol for the entries.
    #[must_use]
    pub fn item_symbol(self, item_symbol: ItemSymbol) -> (options: Self)
        ensures
            options == (Options {
                item_symbol,
                first_level: self.first_level,
                last_level: self.last_level,
                indent: self.indent,
                slugifier: self.slugifier,
            }),
    {
        let mut options = self;
        options.item_symbol = item_symbol;
        options
    }

    /// The same options, rendering only the headings whose level lies
    /// between the two bounds of the given range, the bounds included.
    #[must_use]
    pub fn levels(self, levels: RangeInclusive<HeadingLevel>) -> (options: Self)
        ensures
            options == (Options {
                item_symbol: self.item_symbol,
                first_level: levels@.start,
                last_level: levels@.end,
                indent: self.indent,
                slugifier: self.slugifier,
            }),
    {
        let (first_level, last_level) = levels.into_inner();
        let mut options = self;
        options.first_level = first_level;
        options.last_level = last_level;
        options
    }

    /// The same options with the given number of spaces for each level of
    /// indentation.
    #[must_use]
    pub fn indent(self, indent: usize) -> (options: Self)
        ensures
            options == (Options {
                item_symbol: self.item_symbol,
                first_level: self.first_level,
                last_level: self.last_level,
                indent,
                slugifier: self.slugifier,
            }),
    {
        let mut options = self;
        options.indent = indent;
        options
    }

    /// The same options with the given slugifier to make the anchors.
    #[must_use]
    pub fn slugifier<T: Slugify>(self, slugifier: T) -> (options: Options<T>)
        ensures
            options == (Options {
                item_symbol: self.item_symbol,
                first_level: self.first_level,
                last_level: self.last_level,
                indent: self.indent,
                slugifier,
            }),
    {
        Options {
            item_symbol: self.item_symbol,
            first_level: self.first_level,
            last_level: self.last_level,
            indent: self.indent,
            slugifier,
        }
    }
}

/// Whether a heading of the given level is rendered where the levels from
/// `first` to `last` are.
pub open spec fn in_levels(level: HeadingLevel, first: HeadingLevel, last: HeadingLevel) -> bool {
    first.rank() <= level.rank() <= last.rank()
}

/// The test that picks the headings whose level lies between `first` and
/// `last`.
pub open spec fn level_filter(
    first: HeadingLevel,
    last: HeadingLevel,
) -> spec_fn(HeadingView) -> bool {
    |heading: HeadingView| in_levels(heading.level, first, last)
}

/// The function that gives the plain text of a heading.
pub open spec fn heading_text() -> spec_fn(HeadingView) -> Seq<char> {
    |heading: HeadingView| plain_text(heading.events)
}

/// The number of spaces before the entry of a heading: `indent` for each
/// level that the heading lies below `floor`, the first level rendered.
pub open spec fn indentation(indent: nat, level: HeadingLevel, floor: HeadingLevel) -> nat {
    if level.rank() >= floor.rank() {
        (indent * (level.rank() - floor.rank())) as nat
    } else {
        0
    }
}

/// A run of `n` spaces.
pub open spec fn spaces(n: nat) -> Seq<char> {
    Seq::new(n, |i: int| ' ')
}

/// The line of one heading in a table of contents: the indentation, the
/// symbol, and a link with the heading as its label and the anchor as its
/// target.
pub open spec fn entry(
    item_symbol: ItemSymbol,
    indent: nat,
    floor: HeadingLevel,
    heading: HeadingView,
    anchor: Seq<char>,
) -> Seq<char> {
    spaces(indentation(indent, heading.level, floor)) + seq![item_symbol.glyph(), ' ', '[']
        + label(heading.events) + seq![']', '(', '#'] + anchor + seq![')', '\n']
}

/// The lines of the given headings with the given anchors, one after the
/// other.
pub open spec fn toc_text(
    entries: Seq<HeadingView>,
    anchors: Seq<Seq<char>>,
    item_symbol: ItemSymbol,
    indent: nat,
    floor: HeadingLevel,
) -> Seq<char> {
    Seq::new(
        entries.len(),
        |i: int| entry(item_symbol, indent, floor, entries[i], anchors[i]),
    ).flatten()
}

/// Whether `out` may be what the headings `toc` render to with the given
/// options: the headings of the levels asked for, in their order, each on
/// its line, with the anchors that the slugifier returns for their texts,
/// one text after the other.
pub open spec fn renders<S: Slugify>(
    toc: Seq<HeadingView>,
    options: Options<S>,
    out: Seq<char>,
) -> bool {
    let entries = toc.filter(level_filter(options.first_level, options.last_level));
    let texts = entries.map_values(heading_text());
    exists|anchors: Seq<Seq<char>>, end: S|
        #[trigger] yields(options.slugifier, texts, anchors, end) && out == toc_text(
            entries,
            anchors,
            options.item_symbol,
            options.indent as nat,
            options.first_level,
        )
}

/// What the headings `toc` render to with anchors made GitHub's way by a
/// slugifier that starts with `counts`.
pub open spec fn github_toc(
    toc: Seq<HeadingView>,
    item_symbol: ItemSymbol,
    first: HeadingLevel,
    last: HeadingLevel,
    indent: nat,
    counts: Map<Seq<char>, u64>,
) -> Seq<char> {
    let entries = toc.filter(level_filter(first, last));
    toc_text(
        entries,
        github_anchors(counts, entries.map_values(heading_text())),
        item_symbol,
        indent,
        first,
    )
}

/// With anchors made GitHub's way, the headings and the options leave one
/// rendering only.
pub proof fn lemma_github_renders(
    toc: Seq<HeadingView>,
    options: Options<GitHubSlugifier>,
    out: Seq<char>,
)
    requires
        renders(toc, options, out),
    ensures
        out == github_toc(
            toc,
            options.item_symbol,
            options.first_level,
            options.last_level,
            options.indent as nat,
            options.slugifier@,
        ),
{
    let entries = toc.filter(level_filter(options.first_level, options.last_level));
    let texts = entries.map_values(heading_text());
    let (anchors, end) = choose|anchors: Seq<Seq<char>>, end: GitHubSlugifier|
        #[trigger] yields(options.slugifier, texts, anchors, end) && out == toc_text(
            entries,
            anchors,
            options.item_symbol,
            options.indent as nat,
            options.first_level,
        );
    lemma_github_yields(options.slugifier, texts, anchors, end);
}

/// A table of contents without headings renders to the empty text,
/// whatever the options are.
pub proof fn lemma_nothing_to_render<S: Slugify>(options: Options<S>, out: Seq<char>)
    requires
        renders(Seq::empty(), options, out),
    ensures
        out == Seq::<char>::empty(),
{
    reveal(Seq::filter);
    reveal_with_fuel(Seq::flatten, 1);
}

/// Where every level is rendered, every heading is.
pub proof fn lemma_all_levels(toc: Seq<HeadingView>)
    ensures
        toc.filter(level_filter(HeadingLevel::H1, HeadingLevel::H6)) == toc,
    decreases toc.len(),
{
    let pick = level_filter(HeadingLevel::H1, HeadingLevel::H6);
    reveal(Seq::filter);
    if toc.len() > 0 {
        lemma_all_levels(toc.drop_last());
    }
}

/// Of two headings that are rendered with the same first level, the deeper
/// one is indented by `indent` more spaces for each level between them.
pub proof fn lemma_indentation_grows_with_level(
    indent: nat,
    floor: HeadingLevel,
    higher: HeadingLevel,
    deeper: HeadingLevel,
)
    requires
        floor.rank() <= higher.rank() < deeper.rank(),
    ensures
        indentation(indent, deeper, floor) - indentation(indent, higher, floor)
            == indent * (deeper.rank() - higher.rank()),
        indentation(indent, floor, floor) == 0,
{
    assert(indent * (deeper.rank() - floor.rank()) == indent * (higher.rank() - floor.rank())
        + indent * (deeper.rank() - higher.rank())) by (nonlinear_arith);
    assert(indent * (higher.rank() - floor.rank()) >= 0) by (nonlinear_arith)
        requires
            higher.rank() - floor.rank() >= 0,
            indent >= 0,
    ;
    assert(indent * (deeper.rank() - floor.rank()) >= 0) by (nonlinear_arith)
        requires
            deeper.rank() - floor.rank() >= 0,
            indent >= 0,
    ;
}

/// The line of a heading begins with as many spaces as its indentation
/// asks for, and the symbol follows them.
pub proof fn lemma_entry_begins_with_indentation(
    item_symbol: ItemSymbol,
    indent: nat,
    floor: HeadingLevel,
    heading: HeadingView,
    anchor: Seq<char>,
)
    ensures
        ({
            let line = entry(item_symbol, indent, floor, heading, anchor);
            let width = indentation(indent, heading.level, floor);
            &&& width < line.len()
            &&& forall|i: int| 0 <= i < width ==> line[i] == ' '
            &&& line[width as int] == item_symbol.glyph()
        }),
{
}

/// One more line at the end of a table of contents.
pub proof fn lemma_toc_text_push(
    entries: Seq<HeadingView>,
    anchors: Seq<Seq<char>>,
    item_symbol: ItemSymbol,
    indent: nat,
    floor: HeadingLevel,
    heading: HeadingView,
    anchor: Seq<char>,
)
    requires
        entries.len() == anchors.len(),
    ensures
        toc_text(entries.push(heading), anchors.push(anchor), item_symbol, indent, floor)
            == toc_text(entries, anchors, item_symbol, indent, floor)
            + entry(item_symbol, indent, floor, heading, anchor),
{
    let lines = Seq::new(
        entries.len(),
        |i: int| entry(item_symbol, indent, floor, entries[i], anchors[i]),
    );
    let more = Seq::new(
        entries.push(heading).len(),
        |i: int|
            entry(item_symbol, indent, floor, entries.push(heading)[i], anchors.push(anchor)[i]),
    );
    assert(more =~= lines.push(entry(item_symbol, indent, floor, heading, anchor)));
    lines.lemma_flatten_push(entry(item_symbol, indent, floor, heading, anchor));
}

/// Appends `n` spaces for each of `depth` levels.
fn push_spaces(buf: &mut String, n: usize, depth: usize)
    ensures
        final(buf)@ == old(buf)@ + spaces((n * depth) as nat),
{
    let ghost start = buf@;
    let mut level: usize = 0;
    while level < depth
        invariant
            level <= depth,
            buf@ == start + spaces((n * level) as nat),
        decreases depth - level,
    {
        let mut k: usize = 0;
        while k < n
            invariant
                k <= n,
                level < depth,
                buf@ == start + spaces((n * level + k) as nat),
            decreases n - k,
        {
            proof {
                reveal_strlit(" ");
            }
            buf.append(" ");
            k += 1;
        }
        assert(n * (level + 1) == n * level + n) by (nonlinear_arith);
        level += 1;
    }
}

/// Appends the line of a heading to a table of contents.
pub fn push_entry(
    buf: &mut String,
    item_symbol: ItemSymbol,
    indent: usize,
    floor: HeadingLevel,
    heading: &Heading,
    anchor: &str,
)
    requires
        floor.rank() <= heading@.level.rank(),
    ensures
        final(buf)@ == old(buf)@ + entry(item_symbol, indent as nat, floor, heading@, anchor@),
{
    let title = to_cmark(heading.events());
    push_spaces(buf, indent, heading.level().rank() - floor.rank());
    buf.append(item_symbol.as_str());
    buf.append(" [");
    buf.append(title.as_str());
    buf.append("](#");
    buf.append(anchor);
    buf.append(")\n");
    proof {
        reveal_strlit(" [");
        reveal_strlit("](#");
        reveal_strlit(")\n");
    }
}

} // verus!
