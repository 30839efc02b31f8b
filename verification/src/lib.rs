//! Range-aware hex table rendering: byte classification, range resolution
//! and fixed-width row output for a terminal hex viewer.

pub mod args;
pub mod category;
pub mod cell;
pub mod frame;
pub mod hex;
pub mod message;
pub mod number;
pub mod range;
pub mod row;
pub mod text;
pub mod width;

pub use crate::args::{parse_arguments, ArgError, FileInfo, Parsed};
pub use crate::category::{classify, ByteCategory, Color};
pub use crate::cell::{color_code_char, color_code_hex};
pub use crate::number::{atoi, parse_number};
pub use crate::range::{resolve, AlignedRange};
pub use crate::row::{render_row, render_rows};
