//! Three-way classification of the lines of two ordered text sources: lines
//! found only in the first, lines found only in the second, and lines found
//! in both.

pub mod classify;
pub mod comparator;
pub mod config;
pub mod format;
pub mod laws;
pub mod line;
pub mod merge;
pub mod order;
pub mod record;
pub mod sequences;
pub mod source;
pub mod stream;

pub use crate::classify::{classify, classify_raw, classify_texts, with_keys};
pub use crate::comparator::Comparator;
pub use crate::config::Config;
pub use crate::format::{render, render_all, Columns};
pub use crate::line::Line;
pub use crate::merge::decide;
pub use crate::order::{compare_keys, Rank};
pub use crate::record::{Column, Record};
pub use crate::source::{decode_line, plan, ConfigError, Source};
pub use crate::stream::{Action, Merger, Slot};
