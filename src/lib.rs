//! Verified core of `cxt`: the navigation and multi-selection state machine of the
//! interactive file picker, the ranking of search results, and the decisions of the
//! content aggregator.

pub mod path;
pub mod text;
pub mod selection;
pub mod listing;
pub mod search;
pub mod history;
pub mod viewport;
pub mod browser;
pub mod cli;
pub mod path_formatter;
pub mod content_aggregator;
pub mod output;
