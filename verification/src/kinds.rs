//! The closed choices of the key scheme: key shapes, block kinds and the
//! reasons for which a key is turned down.

use vstd::prelude::*;
use vstd::string::*;

verus! {

/// The shape of a product key.
#[derive(Clone, Copy, Debug, PartialEq, Eq, Structural)]
pub enum KeyType {
    /// `BBBBB-OEM-DDDDDDD-EEEEE`
    Oem,
    /// `AAA-CCCCCCC`
    Retail,
}

/// The reason for which a string is not a valid product key.
#[derive(Clone, Copy, Debug, PartialEq, Eq, Structural)]
pub enum Error {
    /// The string has the shape of a key, but a block breaks its checksum rule.
    InvalidKey,
    /// The string has the shape of neither key type.
    InvalidFormat,
}

impl Error {
    /// The text that describes the error to a user.
    pub open spec fn message_text(self) -> Seq<char> {
        match self {
            Error::InvalidKey => "Invalid key"@,
            Error::InvalidFormat => "Invalid format"@,
        }
    }

    /// Returns the text that describes the error to a user.
    pub fn message(&self) -> (text: String)
        ensures
            text@ == self.message_text(),
    {
        match self {
            Error::InvalidKey => String::from_str("Invalid key"),
            Error::InvalidFormat => String::from_str("Invalid format"),
        }
    }
}

/// The kind of a block. Retail keys are made of an `A` and a `C` block, OEM
/// keys of a `B`, a `D` and an `E` block.
#[derive(Clone, Copy, Debug, PartialEq, Eq, Structural)]
pub enum Choice {
    /// Three digits, any value but a repeated digit from 333 to 999.
    A,
    /// Five digits: a day of the year from 000 to 366 and a year from 04 to 93.
    B,
    /// Seven digits without a 9 whose sum is a multiple of seven.
    C,
    /// Seven digits whose sum is a multiple of seven.
    D,
    /// Five digits of any value.
    E,
}

impl Choice {
    /// The number of digits of a block of this kind.
    pub open spec fn width(self) -> nat {
        match self {
            Choice::A => 3,
            Choice::B => 5,
            Choice::C => 7,
            Choice::D => 7,
            Choice::E => 5,
        }
    }
}

} // verus!
