//! A streaming line filter and colorizer engine.
//!
//! A run is configured once as an ordered chain of commands—pattern
//! filters, highlights, substitutions, timestamp-range selection and
//! per-thread coloring—and the engine then evaluates the chain over every
//! incoming line, deciding whether the (possibly transformed) line is
//! emitted.  The chain is built by [`Context::new`] from raw command-line
//! arguments; [`Context::evaluate`] processes one line and carries the
//! cross-line state (block selection, thread color registry) forward.

pub mod ansi;
pub mod command;
pub mod context;
pub mod eval;
pub mod laws;
pub mod matcher;
pub mod style;
pub mod text;
pub mod threads;

pub use command::Command;
pub use command::LineSelection;
pub use command::MultilineSelectionState;
pub use command::ParseError;
pub use command::RunOption;
pub use context::Context;
pub use matcher::Matcher;
pub use style::Style;
pub use style::StyleGenerator;
pub use threads::HighlightThreadsIdData;
pub use threads::HighlightThreadsState;
