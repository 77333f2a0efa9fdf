//! Canonical re-indentation of XML documents.
//!
//! A document is read as a sequence of lexical events. An indentation state
//! machine decides, event by event, whether a line break and an indent go
//! before the event's markup: every element starts on a line of its own, two
//! spaces deeper than its parent, text stays next to the tag that encloses
//! it, comments are dropped and a leading declaration is kept as it is.
//!
//! The events come from `quick_xml`'s reader. What the reader gives for a
//! text is taken on trust, in [`source`]; the state machine, the layout and
//! the markup are verified against their specifications, and [`laws`] holds
//! what follows from them.

pub mod event;
pub mod format_xml;
pub mod laws;
pub mod layout;
pub mod machine;
pub mod source;

pub use format_xml::{format_events, prettify_xml, PrettifyError};
