//! Time, tokens, slugs and text.

pub mod text;
pub mod time;
pub mod token;
