//! Generation and validation of legacy product activation keys.
//!
//! A key is either a retail key, `AAA-CCCCCCC`, or an OEM key,
//! `BBBBB-OEM-DDDDDDD-EEEEE`. Every block of a key obeys a checksum rule of
//! its own. [`validate_product_key`] decides whether a string is such a key,
//! and [`generate_product_key`] draws one at random. Both are verified
//! against the same mathematical description of a valid key, so a generated
//! key always validates.

pub mod digits;
mod entropy;
pub mod generation;
pub mod kinds;
pub mod validation;

pub use crate::kinds::Choice;
pub use crate::kinds::Error;
pub use crate::kinds::Error::{InvalidFormat, InvalidKey};
pub use crate::kinds::KeyType;
pub use crate::kinds::KeyType::{Oem, Retail};
pub use crate::validation::validate_product_key;
pub use crate::generation::generate_product_key;
