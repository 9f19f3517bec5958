//! Rule-based sentence segmentation of English text.
//!
//! A document is rewritten by an ordered chain of regular-expression rules that
//! mask every period, question mark and exclamation mark that does not end a
//! sentence, is then cut at the terminators that are left, and each sentence
//! has its masks taken off again.
pub mod abbreviation_replacer;
pub mod error;
pub mod list_item_replacer;
pub mod masks;
pub mod regex;
pub mod rule;
pub mod segmenter;
pub mod text;
pub mod util;

pub use segmenter::Segmenter;
