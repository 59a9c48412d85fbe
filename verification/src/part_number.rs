//! Part numbers: the 9-byte packed identifier embedded in the main header.
//!
//! The text form is "AAA-BCCCC-DD". On the wire the twelve characters are
//! packed six bits each (after subtracting 0x20) into nine bytes, most
//! significant group first. The meaning of the four fields is not fully
//! known; they are kept as plain numbers.

use vstd::prelude::*;

verus! {

use vstd::utf8::encode_utf8;
use crate::record::text::lemma_ascii_bytes_utf8;
use crate::record::text::vec_into_string;
use crate::wire;
use crate::wire::word_value;
use crate::wire::Endianness;
use crate::GcdError;

/// The only known representation of a part number.
#[derive(Debug, PartialEq, Hash, Eq, Copy, Clone, Structural)]
pub struct PnSimple {
    pub kind: u16,
    pub hw_kind: u8,
    pub hw_id: u16,
    pub rel: u8,
}

/// A part number; it could represent software, a device, or part of one.
#[derive(Debug, PartialEq, Hash, Eq, Copy, Clone, Structural)]
pub enum PartNumber {
    /// The plain "AAA-BCCCC-DD" format.
    Simple(PnSimple),
}

/// True for the ASCII digits.
pub open spec fn is_ascii_digit(b: u8) -> bool {
    0x30 <= b <= 0x39
}

impl PnSimple {
    /// The field ranges parsing can produce: three, four and two decimal
    /// digits respectively. The hardware kind byte is unconstrained.
    pub open spec fn wf(&self) -> bool {
        self.kind <= 999 && self.hw_id <= 9999 && self.rel <= 99
    }
}

impl PartNumber {
    pub open spec fn wf(&self) -> bool {
        match self {
            PartNumber::Simple(p) => p.wf(),
        }
    }

    /// What the text form parses to: exactly three digits, a dash, one
    /// arbitrary byte and four digits, a dash, and two digits. The hardware
    /// kind byte has 0x30 subtracted from it, wrapping.
    pub open spec fn spec_parse(s: Seq<u8>) -> Result<PartNumber, GcdError> {
        if s.len() >= 12 && is_ascii_digit(s[0]) && is_ascii_digit(s[1]) && is_ascii_digit(s[2])
            && s[3] == 0x2d && is_ascii_digit(s[5]) && is_ascii_digit(s[6]) && is_ascii_digit(s[7])
            && is_ascii_digit(s[8]) && s[9] == 0x2d && is_ascii_digit(s[10]) && is_ascii_digit(
            s[11],
        ) {
            Ok(
                PartNumber::Simple(
                    PnSimple {
                        kind: (100 * (s[0] - 0x30) + 10 * (s[1] - 0x30) + (s[2] - 0x30)) as u16,
                        hw_kind: ((s[4] + 256 - 0x30) % 256) as u8,
                        hw_id: (1000 * (s[5] - 0x30) + 100 * (s[6] - 0x30) + 10 * (s[7] - 0x30) + (
                        s[8] - 0x30)) as u16,
                        rel: (10 * (s[10] - 0x30) + (s[11] - 0x30)) as u8,
                    },
                ),
            )
        } else {
            Err(GcdError::PartNumberInvalid)
        }
    }

    /// Parse the text form from raw bytes.
    fn parse(input: &Vec<u8>) -> (r: Result<PartNumber, GcdError>)
        ensures
            r == PartNumber::spec_parse(input@),
            r matches Ok(p) ==> p.wf(),
    {
        if input.len() < 12 {
            return Err(GcdError::PartNumberInvalid);
        }
        if !(input[0] >= 0x30 && input[0] <= 0x39 && input[1] >= 0x30 && input[1] <= 0x39
            && input[2] >= 0x30 && input[2] <= 0x39 && input[3] == 0x2d && input[5] >= 0x30
            && input[5] <= 0x39 && input[6] >= 0x30 && input[6] <= 0x39 && input[7] >= 0x30
            && input[7] <= 0x39 && input[8] >= 0x30 && input[8] <= 0x39 && input[9] == 0x2d
            && input[10] >= 0x30 && input[10] <= 0x39 && input[11] >= 0x30 && input[11] <= 0x39) {
            return Err(GcdError::PartNumberInvalid);
        }
        let kind: u16 = 100 * ((input[0] - 0x30) as u16) + 10 * ((input[1] - 0x30) as u16) + (
        input[2] - 0x30) as u16;
        let hw_kind: u8 = (((input[4] as u16) + 256 - 0x30) % 256) as u8;
        let hw_id: u16 = 1000 * ((input[5] - 0x30) as u16) + 100 * ((input[6] - 0x30) as u16) + 10
            * ((input[7] - 0x30) as u16) + (input[8] - 0x30) as u16;
        let rel: u8 = 10 * (input[10] - 0x30) + (input[11] - 0x30);
        Ok(PartNumber::Simple(PnSimple { kind, hw_kind, hw_id, rel }))
    }

    /// The twelve packed characters of a 9-byte value: six bits each, most
    /// significant group first, shifted up by 0x20.
    pub open spec fn spec_unpack(num: int, n: nat) -> Seq<u8>
        decreases n,
    {
        if n == 0 {
            Seq::empty()
        } else {
            PartNumber::spec_unpack(num / 64, (n - 1) as nat).push(((num % 64) + 0x20) as u8)
        }
    }

    /// What a 9-byte packed value decodes to.
    pub open spec fn spec_from_raw(e: Endianness, x: Seq<u8>) -> Result<PartNumber, GcdError> {
        if x.len() < 9 {
            Err(GcdError::PartNumberTooSmall)
        } else {
            PartNumber::spec_parse(
                PartNumber::spec_unpack(word_value(e, x.subrange(0, 9)), 12),
            )
        }
    }

    /// Decode a part number from its 9-byte packed form.
    pub fn from_raw(e: Endianness, x: &Vec<u8>) -> (r: Result<PartNumber, GcdError>)
        ensures
            r == PartNumber::spec_from_raw(e, x@),
            r matches Ok(p) ==> p.wf(),
    {
        if x.len() < 9 {
            return Err(GcdError::PartNumberTooSmall);
        }
        let num = wire::read_uint(e, x, 0, 9);
        let mut buff: Vec<u8> = Vec::new();
        unpack_chars(&mut buff, num, 12);
        proof {
            assert(buff@ =~= PartNumber::spec_unpack(num as int, 12));
        }
        PartNumber::parse(&buff)
    }

    /// What a text string parses to: it must hold at least the twelve
    /// characters of the format.
    pub open spec fn spec_from_str(s: Seq<char>) -> Result<PartNumber, GcdError> {
        if encode_utf8(s).len() < 12 {
            Err(GcdError::PartNumberTooSmall)
        } else {
            PartNumber::spec_parse(encode_utf8(s))
        }
    }

    /// Parse a part number from its text form.
    pub fn from_str(s: &str) -> (r: Result<PartNumber, GcdError>)
        ensures
            r == PartNumber::spec_from_str(s@),
            r matches Ok(p) ==> p.wf(),
    {
        let bytes = s.as_bytes_vec();
        if bytes.len() < 12 {
            return Err(GcdError::PartNumberTooSmall);
        }
        PartNumber::parse(&bytes)
    }

    /// The decimal digits of a value below 1000, without leading zeros.
    pub open spec fn spec_dec_u8(v: u8) -> Seq<u8> {
        if v < 10 {
            seq![(0x30 + v) as u8]
        } else if v < 100 {
            seq![(0x30 + v / 10) as u8, (0x30 + v % 10) as u8]
        } else {
            seq![(0x30 + v / 100) as u8, (0x30 + (v / 10) % 10) as u8, (0x30 + v % 10) as u8]
        }
    }

    /// The text form this part number renders to, as ASCII bytes: the kind
    /// zero-padded to three digits, the hardware kind in plain decimal, the
    /// hardware id zero-padded to four, the release zero-padded to two.
    pub open spec fn spec_string_bytes(&self) -> Seq<u8> {
        match self {
            PartNumber::Simple(p) => seq![
                (0x30 + (p.kind / 100) % 10) as u8,
                (0x30 + (p.kind / 10) % 10) as u8,
                (0x30 + p.kind % 10) as u8,
                0x2du8,
            ] + PartNumber::spec_dec_u8(p.hw_kind) + seq![
                (0x30 + (p.hw_id / 1000) % 10) as u8,
                (0x30 + (p.hw_id / 100) % 10) as u8,
                (0x30 + (p.hw_id / 10) % 10) as u8,
                (0x30 + p.hw_id % 10) as u8,
                0x2du8,
                (0x30 + (p.rel / 10) % 10) as u8,
                (0x30 + p.rel % 10) as u8,
            ],
        }
    }

    /// Render the text form.
    pub fn to_string(&self) -> (r: String)
        ensures
            encode_utf8(r@) == self.spec_string_bytes(),
    {
        let mut out: Vec<u8> = Vec::new();
        match self {
            PartNumber::Simple(p) => {
                out.push(0x30 + (p.kind / 100 % 10) as u8);
                out.push(0x30 + (p.kind / 10 % 10) as u8);
                out.push(0x30 + (p.kind % 10) as u8);
                out.push(0x2d);
                if p.hw_kind < 10 {
                    out.push(0x30 + p.hw_kind);
                } else if p.hw_kind < 100 {
                    out.push(0x30 + p.hw_kind / 10);
                    out.push(0x30 + p.hw_kind % 10);
                } else {
                    out.push(0x30 + p.hw_kind / 100);
                    out.push(0x30 + (p.hw_kind / 10) % 10);
                    out.push(0x30 + p.hw_kind % 10);
                }
                out.push(0x30 + (p.hw_id / 1000 % 10) as u8);
                out.push(0x30 + (p.hw_id / 100 % 10) as u8);
                out.push(0x30 + (p.hw_id / 10 % 10) as u8);
                out.push(0x30 + (p.hw_id % 10) as u8);
                out.push(0x2d);
                out.push(0x30 + (p.rel / 10 % 10) as u8);
                out.push(0x30 + (p.rel % 10) as u8);
            },
        }
        proof {
            assert(out@ =~= self.spec_string_bytes());
            assert(forall|i: int| 0 <= i < out@.len() ==> out@[i] < 0x80);
            lemma_ascii_bytes_utf8(out@);
        }
        match vec_into_string(out) {
            Ok(s) => {
                proof {
                    vstd::utf8::decode_utf8_encode_utf8(self.spec_string_bytes());
                }
                s
            },
            Err(_) => {
                proof {
                    assert(false);
                }
                String::new()
            },
        }
    }
}

/// Append the `n` six-bit groups of `num`, most significant first, each
/// shifted up by 0x20.
fn unpack_chars(out: &mut Vec<u8>, num: u128, n: usize)
    requires
        n <= 22,
    ensures
        final(out)@ == old(out)@ + PartNumber::spec_unpack(num as int, n as nat),
    decreases n,
{
    if n == 0 {
        proof {
            assert(out@ =~= out@ + PartNumber::spec_unpack(num as int, 0));
        }
    } else {
        unpack_chars(out, num / 64, n - 1);
        out.push(((num % 64) + 0x20) as u8);
        proof {
            assert(final(out)@ =~= old(out)@ + PartNumber::spec_unpack(num as int, n as nat));
        }
    }
}

} // verus!
