//! Character-level helpers on strings.
//!
//! Contracts speak of a string through its view, the sequence of its
//! characters.

pub mod chars;
pub mod classes;
pub mod number;
pub mod trim;

pub use chars::{
    chars_of, clone_text, ends_with, push_text, same_chars, starts_with, text_of, text_of_range,
};
pub use classes::{
    ascii_lower, ascii_lowered, char_width, exceeds_bytes, is_white_space, is_whitespace,
    reads_as, utf8_len, width_of,
};
pub use number::{
    decimal, digit, digit_char, digit_value, digits_value, number_text, parse_number,
    push_decimal,
};
pub use trim::{lemma_trim_end, lemma_trim_start, trim, trim_end, trim_start};
