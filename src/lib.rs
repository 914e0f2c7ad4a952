//! A pager core for reading text with fixation points: code-point text
//! operations, pagination into screen-sized pages, a search index with
//! position-aware navigation, word segmentation with emphasis ranges, and the
//! browsing session that ties them to input events.

pub mod codepoints;
pub mod matching;
pub mod text;
pub mod pages;
pub mod search;
pub mod fixation;
pub mod session;
