//! Betacode transliteration: validation of ASCII Betacode text and its
//! conversion to precomposed Greek Unicode, with the inverse transform.

pub mod alphabet;
pub mod case;
pub mod cli;
pub mod converter;
pub mod diacritics;
pub mod inverse;
pub mod laws;
pub mod sigma;
pub mod text;
pub mod tokens;
pub mod validator;
