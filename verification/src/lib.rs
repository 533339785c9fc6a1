//! A bounded, most-recent window of structured trace events, with a small
//! declarative filter language for deciding which events to surface.
//!
//! The crate keeps the data model (levels, fields, spans, events), a
//! capacity-bounded FIFO event buffer, and a filter grammar of the shape
//! `target[span{field=value}]=level` together with its matching engine.
//! Presentation (drawing the panel) lives outside the library.

use vstd::prelude::*;

pub mod buffer;
pub mod field;
pub mod filter;
pub mod level;
pub mod span;
pub mod text;
pub mod event;

pub use buffer::EventBuffer;
pub use event::Event;
pub use field::Field;
pub use filter::EventFilter;
pub use filter::ParseError;
pub use level::Level;
pub use span::Span;

verus! {

/// Configuration for the log panel: whether the filter entry row is shown.
#[derive(Debug)]
pub struct Widget {
    pub filter: bool,
    pub _non_exhaustive_but_allow_fru: (),
}

impl Default for Widget {
    /// The default panel shows the filter entry row.
    fn default() -> (r: Self)
        ensures
            r.filter,
    {
        Widget { filter: true, _non_exhaustive_but_allow_fru: () }
    }
}

} // verus!
