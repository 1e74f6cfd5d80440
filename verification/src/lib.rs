//! A year's calendar as a grid of fixed-width text blocks.
//!
//! [`calendar`] lays the twelve months of a year out in four rows of three blocks;
//! [`display`] puts them side by side under the year and says of every character
//! what it stands for, so that a caller can set weekends, the gutter of week
//! numbers and one marked day off in colour.

pub mod compose;
pub mod date;
pub mod grid;
pub mod layout;
pub mod locale;
pub mod position;
pub mod style;
pub mod text;
pub mod weeks;

pub use crate::compose::display;
pub use crate::layout::calendar;
pub use crate::layout::ConfigError;
pub use crate::locale::LocaleInfo;
pub use crate::style::Cell;
pub use crate::style::Role;
