use pulldown_cmark::Parser;
use pulldown_cmark_toc::{Event, HeadingLevel, ItemSymbol, Options, TableOfContents};

fn text(s: &str) -> Event {
    Event::Text(s.to_string())
}

fn code(s: &str) -> Event {
    Event::Code(s.to_string())
}

/// The events of a parser as a heading of the first level holds them.
fn held_events(parser: Parser) -> Vec<Event> {
    let mut events = vec![Event::HeadingStart(HeadingLevel::H1)];
    for event in parser {
        events.push(match event {
            pulldown_cmark::Event::Text(s) => Event::Text(s.into_string()),
            pulldown_cmark::Event::Code(s) => Event::Code(s.into_string()),
            _ => Event::Other,
        });
    }
    events.push(Event::HeadingEnd(HeadingLevel::H1));
    events
}

fn sample() -> TableOfContents {
    TableOfContents::new("# Heading\n\n## Subheading\n\n## Subheading with `code`\n")
}

#[test]
fn heading_text_with_code() {
    let toc = TableOfContents::new_with_events(&[
        Event::HeadingStart(HeadingLevel::H1),
        code("Another"),
        text(" heading"),
        Event::HeadingEnd(HeadingLevel::H1),
    ]);
    let heading = &toc.headings()[0];
    assert_eq!(heading.text(), "Another heading");
}

#[test]
fn heading_text_with_links() {
    let events = held_events(Parser::new("Here [TOML](https://toml.io)"));
    let toc = TableOfContents::new_with_events(&events);
    let heading = &toc.headings()[0];
    assert_eq!(heading.text(), "Here TOML");
}

#[test]
fn toc_new() {
    let toc = TableOfContents::new("# Heading\n\n## `Another` heading\n");
    assert_eq!(toc.headings()[0].events(), [text("Heading")]);
    assert_eq!(toc.headings()[0].level(), HeadingLevel::H1);
    assert_eq!(
        toc.headings()[1].events(),
        [code("Another"), text(" heading")]
    );
    assert_eq!(toc.headings()[1].level(), HeadingLevel::H2);
    assert_eq!(toc.headings().len(), 2);
}

#[test]
fn toc_new_does_not_enable_smart_punctuation() {
    let toc = TableOfContents::new("# What's the deal with ellipsis ...?\n");
    assert_eq!(
        toc.headings()[0].text(),
        "What's the deal with ellipsis ...?"
    );
}

#[test]
fn toc_new_does_not_enable_heading_attributes() {
    let toc = TableOfContents::new("# text { #id .class1 .class2 }\n");
    assert_eq!(toc.headings()[0].text(), "text { #id .class1 .class2 }");
}

#[test]
fn toc_to_cmark_unique_anchors() {
    let toc = TableOfContents::new("# Heading\n\n# Heading\n\n# `Heading`");
    assert_eq!(
        toc.to_cmark(),
        "- [Heading](#heading)\n- [Heading](#heading-1)\n- [`Heading`](#heading-2)\n"
    )
}

#[test]
fn toc_to_cmark_renders_nested_list() {
    assert_eq!(
        sample().to_cmark(),
        "- [Heading](#heading)\n  - [Subheading](#subheading)\n  - [Subheading with `code`](#subheading-with-code)\n"
    );
}

#[test]
fn toc_to_cmark_two_levels() {
    let toc = TableOfContents::new("# Heading\n## Subheading\n");
    assert_eq!(
        toc.to_cmark(),
        "- [Heading](#heading)\n  - [Subheading](#subheading)\n"
    );
}

#[test]
fn toc_to_cmark_with_options_filters_levels() {
    let options = Options::default()
        .item_symbol(ItemSymbol::Asterisk)
        .levels(HeadingLevel::H2..=HeadingLevel::H6)
        .indent(4);
    assert_eq!(
        sample().to_cmark_with_options(options),
        "* [Subheading](#subheading)\n* [Subheading with `code`](#subheading-with-code)\n"
    );
}

#[test]
fn toc_to_cmark_with_options_single_entry() {
    let toc = TableOfContents::new("# Heading\n## Subheading\n");
    let options = Options::default()
        .item_symbol(ItemSymbol::Asterisk)
        .levels(HeadingLevel::H2..=HeadingLevel::H6)
        .indent(4);
    assert_eq!(toc.to_cmark_with_options(options), "* [Subheading](#subheading)\n");
}

#[test]
fn toc_to_cmark_with_options_indents_by_level_below_floor() {
    let toc = TableOfContents::new("# One\n## Two\n### Three\n#### Four\n");
    let options = Options::default()
        .levels(HeadingLevel::H2..=HeadingLevel::H4)
        .indent(3);
    assert_eq!(
        toc.to_cmark_with_options(options),
        "- [Two](#two)\n   - [Three](#three)\n      - [Four](#four)\n"
    );
}

#[test]
fn toc_to_cmark_with_options_zero_indent() {
    let options = Options::default().indent(0);
    assert_eq!(
        sample().to_cmark_with_options(options),
        "- [Heading](#heading)\n- [Subheading](#subheading)\n- [Subheading with `code`](#subheading-with-code)\n"
    );
}

#[test]
fn toc_to_cmark_with_options_empty_range_renders_nothing() {
    let options = Options::default().levels(HeadingLevel::H3..=HeadingLevel::H2);
    assert_eq!(sample().to_cmark_with_options(options), "");
}

#[test]
fn toc_filtered_heading_consumes_no_anchor() {
    let toc = TableOfContents::new("# Same\n## Same\n## Same\n");
    let options = Options::default().levels(HeadingLevel::H2..=HeadingLevel::H6);
    assert_eq!(
        toc.to_cmark_with_options(options),
        "- [Same](#same)\n- [Same](#same-1)\n"
    );
}

#[test]
fn toc_render_twice_gives_the_same_text() {
    let toc = sample();
    assert_eq!(toc.to_cmark(), toc.to_cmark());
}

#[test]
fn toc_of_empty_text_is_empty() {
    let toc = TableOfContents::new("");
    assert_eq!(toc.headings().len(), 0);
    assert_eq!(toc.to_cmark(), "");
}

#[test]
fn toc_of_text_without_headings_is_empty() {
    let toc = TableOfContents::new("Just a paragraph with `code` and *emphasis*.\n");
    assert_eq!(toc.headings().len(), 0);
    assert_eq!(toc.to_cmark(), "");
}

#[test]
fn toc_try_new_accepts_parsed_text() {
    let toc = TableOfContents::try_new("# Heading\n\nText\n\n## Other\n").unwrap();
    assert_eq!(toc.headings().len(), 2);
    assert_eq!(toc.to_cmark(), "- [Heading](#heading)\n  - [Other](#other)\n");
}

#[test]
fn toc_new_keeps_emphasis_markers_in_events() {
    let toc = TableOfContents::new("## Another *heading*\n");
    assert_eq!(
        toc.headings()[0].events(),
        [
            text("Another "),
            Event::EmphasisStart,
            text("heading"),
            Event::EmphasisEnd
        ]
    );
    assert_eq!(toc.to_cmark(), "  - [Another *heading*](#another-heading)\n");
}

#[test]
fn toc_new_keeps_strong_markers_in_events() {
    let toc = TableOfContents::new("# A **bold** move\n");
    assert_eq!(
        toc.headings()[0].events(),
        [
            text("A "),
            Event::StrongStart,
            text("bold"),
            Event::StrongEnd,
            text(" move")
        ]
    );
    assert_eq!(toc.to_cmark(), "- [A **bold** move](#a-bold-move)\n");
}

#[test]
fn toc_new_enables_strikethrough() {
    let toc = TableOfContents::new("# Some ~~struck~~ text\n");
    assert_eq!(
        toc.headings()[0].events(),
        [text("Some "), Event::Other, text("struck"), Event::Other, text(" text")]
    );
}

#[test]
fn toc_new_reads_setext_headings() {
    let toc = TableOfContents::new("Title\n=====\n\nSection\n-------\n");
    assert_eq!(toc.headings()[0].level(), HeadingLevel::H1);
    assert_eq!(toc.headings()[1].level(), HeadingLevel::H2);
    assert_eq!(toc.headings()[1].text(), "Section");
}

#[test]
fn toc_new_reads_all_six_levels() {
    let toc = TableOfContents::new("# a\n## b\n### c\n#### d\n##### e\n###### f\n");
    let levels: Vec<HeadingLevel> = toc.headings().iter().map(|h| h.level()).collect();
    assert_eq!(
        levels,
        [
            HeadingLevel::H1,
            HeadingLevel::H2,
            HeadingLevel::H3,
            HeadingLevel::H4,
            HeadingLevel::H5,
            HeadingLevel::H6
        ]
    );
}

#[test]
fn toc_new_with_events_drops_events_outside_headings() {
    let toc = TableOfContents::new_with_events(&[
        text("before"),
        Event::HeadingStart(HeadingLevel::H2),
        text("inside"),
        Event::HeadingEnd(HeadingLevel::H2),
        code("after"),
        Event::Other,
    ]);
    assert_eq!(toc.headings().len(), 1);
    assert_eq!(toc.headings()[0].events(), [text("inside")]);
    assert_eq!(toc.headings()[0].level(), HeadingLevel::H2);
}

#[test]
fn toc_new_with_events_keeps_other_events_of_a_heading() {
    let toc = TableOfContents::new_with_events(&[
        Event::HeadingStart(HeadingLevel::H3),
        Event::Other,
        Event::Html("<b>".to_string()),
        Event::HeadingEnd(HeadingLevel::H3),
    ]);
    assert_eq!(
        toc.headings()[0].events(),
        [Event::Other, Event::Html("<b>".to_string())]
    );
}

#[test]
fn toc_new_with_events_second_start_replaces_open_heading() {
    let toc = TableOfContents::new_with_events(&[
        Event::HeadingStart(HeadingLevel::H1),
        text("lost"),
        Event::HeadingStart(HeadingLevel::H2),
        text("kept"),
        Event::HeadingEnd(HeadingLevel::H2),
    ]);
    assert_eq!(toc.headings().len(), 1);
    assert_eq!(toc.headings()[0].level(), HeadingLevel::H2);
    assert_eq!(toc.headings()[0].events(), [text("kept")]);
}

#[test]
fn toc_new_with_events_of_nothing_is_empty() {
    let toc = TableOfContents::new_with_events(&[]);
    assert_eq!(toc.headings().len(), 0);
    assert_eq!(toc.to_cmark(), "");
}

#[test]
fn toc_try_new_with_events_refuses_end_of_other_level() {
    let events = [
        Event::HeadingStart(HeadingLevel::H1),
        text("Heading"),
        Event::HeadingEnd(HeadingLevel::H2),
    ];
    assert!(!pulldown_cmark_toc::collect::is_well_nested(&events));
    assert!(TableOfContents::try_new_with_events(&events).is_none());
}

#[test]
fn toc_try_new_with_events_refuses_end_without_start() {
    let events = [text("Heading"), Event::HeadingEnd(HeadingLevel::H1)];
    assert!(!pulldown_cmark_toc::collect::is_well_nested(&events));
    assert!(TableOfContents::try_new_with_events(&events).is_none());
}

#[test]
fn toc_try_new_with_events_refuses_second_end() {
    let events = [
        Event::HeadingStart(HeadingLevel::H1),
        Event::HeadingEnd(HeadingLevel::H1),
        Event::HeadingEnd(HeadingLevel::H1),
    ];
    assert!(TableOfContents::try_new_with_events(&events).is_none());
}

#[test]
fn toc_try_new_with_events_accepts_matching_markers() {
    let events = [
        Event::HeadingStart(HeadingLevel::H1),
        text("One"),
        Event::HeadingEnd(HeadingLevel::H1),
        Event::HeadingStart(HeadingLevel::H4),
        Event::HeadingEnd(HeadingLevel::H4),
    ];
    assert!(pulldown_cmark_toc::collect::is_well_nested(&events));
    let toc = TableOfContents::try_new_with_events(&events).unwrap();
    assert_eq!(toc.headings().len(), 2);
    assert_eq!(toc.headings()[1].events().len(), 0);
    assert_eq!(toc.to_cmark(), "- [One](#one)\n      - [](#)\n");
}

#[test]
fn heading_clone_keeps_level_and_events() {
    let toc = TableOfContents::new("## `Another` heading\n");
    let copy = toc.headings()[0].clone();
    assert_eq!(copy.level(), HeadingLevel::H2);
    assert_eq!(copy.events(), [code("Another"), text(" heading")]);
}

#[test]
fn toc_to_cmark_numbers_many_duplicates() {
    let text = "## Same\n".repeat(200);
    let toc = TableOfContents::new(&text);
    let rendered = toc.to_cmark();
    let lines: Vec<&str> = rendered.lines().collect();
    assert_eq!(lines.len(), 200);
    assert_eq!(lines[0], "  - [Same](#same)");
    assert_eq!(lines[10], "  - [Same](#same-10)");
    assert_eq!(lines[199], "  - [Same](#same-199)");
}

#[test]
fn toc_new_keeps_inline_html_in_label_and_out_of_anchor() {
    let toc = TableOfContents::new("# Press <kbd>Enter</kbd> now\n");
    assert_eq!(
        toc.headings()[0].events(),
        [
            text("Press "),
            Event::Html("<kbd>".to_string()),
            text("Enter"),
            Event::Html("</kbd>".to_string()),
            text(" now")
        ]
    );
    assert_eq!(toc.headings()[0].text(), "Press Enter now");
    assert_eq!(
        toc.to_cmark(),
        "- [Press <kbd>Enter</kbd> now](#press-enter-now)\n"
    );
}

#[test]
fn toc_guide_example() {
    let toc = TableOfContents::new("# Guide\n\n## Install\n\n## Use\n");
    assert_eq!(
        toc.to_cmark(),
        "- [Guide](#guide)\n  - [Install](#install)\n  - [Use](#use)\n"
    );
    let options = Options::default().levels(HeadingLevel::H2..=HeadingLevel::H6);
    assert_eq!(
        toc.to_cmark_with_options(options),
        "- [Install](#install)\n- [Use](#use)\n"
    );
}
