use pulldown_cmark_toc::render::{push_entry, to_cmark};
use pulldown_cmark_toc::{Event, HeadingLevel, ItemSymbol, Options, TableOfContents};

fn text(s: &str) -> Event {
    Event::Text(s.to_string())
}

#[test]
fn render_emphasis_round_trip() {
    let events = [
        text("Another "),
        Event::EmphasisStart,
        text("heading"),
        Event::EmphasisEnd,
    ];
    assert_eq!(to_cmark(&events), "Another *heading*");
}

#[test]
fn render_strong() {
    let events = [Event::StrongStart, text("bold"), Event::StrongEnd];
    assert_eq!(to_cmark(&events), "**bold**");
}

#[test]
fn render_code_in_backticks() {
    let events = [text("Subheading with "), Event::Code("code".to_string())];
    assert_eq!(to_cmark(&events), "Subheading with `code`");
}

#[test]
fn render_html_as_it_is() {
    let events = [text("a "), Event::Html("<b>x & y</b>".to_string())];
    assert_eq!(to_cmark(&events), "a <b>x & y</b>");
}

#[test]
fn render_skips_other_events_and_markers() {
    let events = [
        Event::Other,
        Event::HeadingStart(HeadingLevel::H1),
        text("TOML"),
        Event::HeadingEnd(HeadingLevel::H1),
        Event::Other,
    ];
    assert_eq!(to_cmark(&events), "TOML");
}

#[test]
fn render_nothing() {
    assert_eq!(to_cmark(&[]), "");
}

#[test]
fn render_label_keeps_backticks_and_anchor_drops_them() {
    let toc = TableOfContents::new_with_events(&[
        Event::HeadingStart(HeadingLevel::H1),
        text("Subheading with "),
        Event::Code("code".to_string()),
        Event::HeadingEnd(HeadingLevel::H1),
    ]);
    assert_eq!(toc.headings()[0].text(), "Subheading with code");
    assert_eq!(
        toc.to_cmark(),
        "- [Subheading with `code`](#subheading-with-code)\n"
    );
}

#[test]
fn render_text_leaves_markup_and_html_out() {
    let toc = TableOfContents::new_with_events(&[
        Event::HeadingStart(HeadingLevel::H1),
        Event::StrongStart,
        text("a"),
        Event::StrongEnd,
        Event::Html("<i>".to_string()),
        Event::Code("b".to_string()),
        Event::Other,
        Event::HeadingEnd(HeadingLevel::H1),
    ]);
    assert_eq!(toc.headings()[0].text(), "ab");
    assert_eq!(to_cmark(toc.headings()[0].events()), "**a**<i>`b`");
}

#[test]
fn item_symbol_as_str() {
    assert_eq!(ItemSymbol::Hyphen.as_str(), "-");
    assert_eq!(ItemSymbol::Asterisk.as_str(), "*");
}

#[test]
fn options_default_values() {
    let options = Options::default();
    assert_eq!(options.item_symbol, ItemSymbol::Hyphen);
    assert_eq!(options.first_level, HeadingLevel::H1);
    assert_eq!(options.last_level, HeadingLevel::H6);
    assert_eq!(options.indent, 2);
}

#[test]
fn options_builders_change_one_option_each() {
    let options = Options::default().item_symbol(ItemSymbol::Asterisk);
    assert_eq!(options.item_symbol, ItemSymbol::Asterisk);
    assert_eq!(options.indent, 2);
    let options = options.indent(7);
    assert_eq!(options.item_symbol, ItemSymbol::Asterisk);
    assert_eq!(options.indent, 7);
    let options = options.levels(HeadingLevel::H3..=HeadingLevel::H5);
    assert_eq!(options.first_level, HeadingLevel::H3);
    assert_eq!(options.last_level, HeadingLevel::H5);
    assert_eq!(options.indent, 7);
    assert_eq!(options.item_symbol, ItemSymbol::Asterisk);
}

#[test]
fn push_entry_writes_one_line() {
    let toc = TableOfContents::new_with_events(&[
        Event::HeadingStart(HeadingLevel::H3),
        text("Deep "),
        Event::Code("one".to_string()),
        Event::HeadingEnd(HeadingLevel::H3),
    ]);
    let mut buf = String::from("before\n");
    push_entry(
        &mut buf,
        ItemSymbol::Asterisk,
        3,
        HeadingLevel::H1,
        &toc.headings()[0],
        "given-anchor",
    );
    assert_eq!(buf, "before\n      * [Deep `one`](#given-anchor)\n");
}

#[test]
fn push_entry_at_the_floor_is_flush_left() {
    let toc = TableOfContents::new_with_events(&[
        Event::HeadingStart(HeadingLevel::H4),
        text("Floor"),
        Event::HeadingEnd(HeadingLevel::H4),
    ]);
    let mut buf = String::new();
    push_entry(
        &mut buf,
        ItemSymbol::Hyphen,
        8,
        HeadingLevel::H4,
        &toc.headings()[0],
        "floor",
    );
    assert_eq!(buf, "- [Floor](#floor)\n");
}

#[test]
fn indentation_differs_by_indent_times_levels_between() {
    let toc = TableOfContents::new("## A\n##### B\n");
    let options = Options::default()
        .levels(HeadingLevel::H2..=HeadingLevel::H6)
        .indent(3);
    let rendered = toc.to_cmark_with_options(options);
    let widths: Vec<usize> = rendered
        .lines()
        .map(|line| line.len() - line.trim_start().len())
        .collect();
    assert_eq!(widths, [0, 9]);
}
