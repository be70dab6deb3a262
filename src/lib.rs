//! Line-oriented text comparison with optional noise filters, and a UTC
//! timestamp value type.

pub mod compare;
pub mod slash_fmt;
pub mod text;
pub mod timestamp;


pub use slash_fmt::SlashFmt;
pub use timestamp::Timestamp;
pub use compare::{compare_lines, CompareError};

