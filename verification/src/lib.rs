//! A small verified library around the basics: integer arithmetic, a record
//! type with structural equality, text handled both by Unicode code point and
//! by byte, substring search, replacement and splitting, a key-value mapping,
//! and byte-range slicing of text.

pub mod arith;
pub mod decimal;
pub mod encoding;
pub mod mapping;
pub mod replace;
pub mod search;
pub mod slice;
pub mod split;
pub mod text;
pub mod user;
