//! Fixed-point software version numbers as found in descriptor values.
//!
//! A version is stored as a decimal integer whose two least significant
//! digits are the minor part and whose remaining digits are the major part,
//! e.g. `380` means v3.80. The raw value `0xffff` is reserved and stands for
//! "no version available".

use vstd::prelude::*;

verus! {

/// A software version, decoded from a 16-bit raw value.
#[derive(Debug, PartialEq, Hash, Eq, Copy, Clone, Structural)]
#[non_exhaustive]
pub enum Version {
    /// No version available (raw value `0xffff`).
    Null,
    /// Plain `{major}.{minor}` format, e.g. major 3, minor 80 for v3.80.
    Simple { major: u16, minor: u8 },
}

impl Version {
    /// What a raw 16-bit value decodes to.
    pub open spec fn spec_new_raw(value: u16) -> Version {
        if value == 0xffff {
            Version::Null
        } else {
            Version::Simple { major: (value / 100) as u16, minor: (value % 100) as u8 }
        }
    }

    /// Decode a raw 16-bit value.
    pub fn new_raw(value: u16) -> (r: Version)
        ensures
            r == Version::spec_new_raw(value),
    {
        if value == 0xffff {
            Version::Null
        } else {
            Version::Simple { major: value / 100, minor: (value % 100) as u8 }
        }
    }

    pub fn new(major: u16, minor: u8) -> (r: Version)
        ensures
            r == (Version::Simple { major, minor }),
    {
        Version::Simple { major, minor }
    }

    /// The raw 16-bit value this version encodes back to.
    pub open spec fn spec_value(&self) -> int {
        match self {
            Version::Null => 0xffff,
            Version::Simple { major, minor } => *major * 100 + *minor,
        }
    }

    /// True when the raw value fits the 16-bit wire field.
    pub open spec fn value_fits(&self) -> bool {
        self.spec_value() <= 0xffff
    }

    pub fn value(&self) -> (r: u16)
        requires
            self.value_fits(),
        ensures
            r == self.spec_value(),
    {
        match self {
            Version::Null => 0xffff,
            Version::Simple { major, minor } => *major * 100 + *minor as u16,
        }
    }
}

/// Law: decoding a raw value and encoding it back is the identity.
pub proof fn lemma_version_raw_round_trip(value: u16)
    ensures
        Version::spec_new_raw(value).value_fits(),
        Version::spec_new_raw(value).spec_value() == value,
{
    if value != 0xffff {
        assert(value == 100 * (value as int / 100) + value as int % 100) by {
            vstd::arithmetic::div_mod::lemma_fundamental_div_mod(value as int, 100);
        };
    }
}

} // verus!
