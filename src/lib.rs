//! A tagged event filter: rules that compare a text projected from each tag
//! of an event against a pattern, grouped by the tag dimension they target.
pub mod filter;
pub mod pattern;

pub use filter::{Event, Filter, Matcher, RuntimeError, Tag, TaggedFilterer};
pub use pattern::{GlobPattern, Op, Pattern, PatternError, RegexPattern};
