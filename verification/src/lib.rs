//! Core of a chat bot that answers competitive-programming queries.
//!
//! The library covers the query-dispatch and response-formatting pipeline:
//! decoding the search service's numeric tier encoding and its tolerant
//! count fields, escaping text for MarkdownV2 templates, parsing and
//! routing `/label args...` commands, scanning free text for problem-number
//! mentions, and rendering search results into reply text. All network and
//! chat-platform plumbing lives outside the library and hands it plain
//! values.

pub mod command;
pub mod error;
pub mod mention;
pub mod render;
pub mod solved;
pub mod util;
