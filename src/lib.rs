//! A multi-pattern text search engine: byte-order-mark aware decoding, line
//! splitting, first-match-wins pattern matching, merging of per-file results,
//! splitting of search roots, and the delimited report format.

pub mod decode;
pub mod lines;
pub mod pattern;
pub mod search;
pub mod aggregate;
pub mod roots;
pub mod load;
pub mod report;
