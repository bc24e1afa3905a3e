//! Labels that mix styled text with inline pictograms.
//!
//! A label's text is split into alternating runs of styled text and single
//! pictograms, the split is remembered per label between redraws, and each
//! redraw turns it into the ordered items a flowing container places.

pub mod grapheme;
pub mod label;
pub mod layout;
pub mod pictogram;
pub mod response;
pub mod rich_text;
pub mod segment;
pub mod state;

pub use crate::label::{EmojiLabel, TextWrapMode};
pub use crate::response::Sense;
pub use crate::rich_text::ExposedRichText;
