//! A reversible, position-symmetric substitution cipher over ASCII letters and
//! digits: each character is replaced by the character at the mirror-image
//! position of its own class table (digits, vowels, or consonants), the
//! original letter casing is kept, and everything else passes through
//! unchanged. Because mirroring a mirrored index returns the original index,
//! the same function both encodes and decodes.

pub mod casing;
pub mod cipher;
pub mod tables;

pub use casing::apply_casing;
pub use casing::get_casing;
pub use casing::Case;
pub use cipher::inverse_char;
pub use cipher::inverse_string;
pub use tables::is_consonant;
pub use tables::is_vowel;
