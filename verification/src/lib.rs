//! Tables of contents for Markdown documents.
//!
//! A document is read as a stream of parse events. The headings are
//! collected from the stream, and rendered as a nested list of links, one
//! per heading, each pointing at the anchor of its heading.
//!
//! ```
//! use pulldown_cmark_toc::{HeadingLevel, Options, TableOfContents};
//!
//! let toc = TableOfContents::new("# Guide\n\n## Install\n\n## Use\n");
//! assert_eq!(
//!     toc.to_cmark(),
//!     "- [Guide](#guide)\n  - [Install](#install)\n  - [Use](#use)\n"
//! );
//!
//! let options = Options::default().levels(HeadingLevel::H2..=HeadingLevel::H6);
//! assert_eq!(
//!     toc.to_cmark_with_options(options),
//!     "- [Install](#install)\n- [Use](#use)\n"
//! );
//! ```
//!
//! The modules, from the events up:
//!
//! - [`level`] and [`event`] hold what a document is read as;
//! - [`collect`] says which headings a stream of events holds;
//! - [`heading`] and [`toc`] hold the headings and build them;
//! - [`render`] says what a table of contents looks like, line by line;
//! - [`slug`] makes the anchors;
//! - [`parser`] reads Markdown text into events.

pub mod collect;
pub mod event;
pub mod heading;
pub mod level;
pub mod parser;
pub mod render;
pub mod slug;
pub mod toc;

pub use event::{Event, EventView};
pub use heading::{Heading, HeadingView};
pub use level::HeadingLevel;
pub use render::{ItemSymbol, Options};
pub use slug::{GitHubSlugifier, Slugify};
pub use toc::TableOfContents;
