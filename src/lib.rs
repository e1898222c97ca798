//! A small password generator: an alphabet built from character classes, a
//! linear-congruential draw over it, a strength estimate, and the parsers for
//! the interactive answers that configure a run.
//!
//! The generator is not cryptographically secure: its seed comes from the
//! wall clock and its sequence is predictable.

pub mod alphabet;
pub mod generator;
pub mod input;
pub mod strength;

pub use alphabet::{build_alphabet, PasswordOptions, LOWERCASE, NUMBERS, SYMBOLS, UPPERCASE};
pub use generator::{
    generate_password, generate_password_with_seed, next_seed, INCREMENT, MULTIPLIER,
    SEED_MODULUS,
};
pub use input::{
    parse_length, parse_length_token, parse_yes_no, yes_no_token, MAX_LENGTH, MIN_LENGTH,
};
pub use strength::{calculate_strength, class_variety, strength_for, Strength};
