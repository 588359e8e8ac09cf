//! A 128-bit universally unique identifier: generation, total ordering, and the
//! canonical hyphenated text form.

mod generate;
mod text;
mod value;

pub use generate::{
    from_random_words, from_time_fields, gregorian_ticks, UUID, UUID_random, UUID_time,
};
pub use text::{from_str, parse, ParseError};
pub use value::{clone, compare, UUID};
