//! The main header record: the first data-carrying record of a file.
//!
//! Only two concrete values are known: a 9-byte packed part number and a
//! 2-byte hardware id. Anything else is rejected, since the format is not
//! understood beyond these constants.

use vstd::prelude::*;

verus! {

use crate::wire;
use crate::wire::pow256;
use crate::wire::word_bytes;
use crate::wire::word_value;
use crate::wire::Endianness;
use crate::GcdError;
use crate::RecordHeader;

pub const ID: u16 = 3;

pub const DEFAULT_HWID: u16 = 0x0037;

/// The 9-byte packed encoding of the part number "010-10037-00".
pub const DEFAULT_PART_NUMBER: u128 = 0x41140D4504135CD410;

/// The two known main header values.
#[derive(Debug, PartialEq, Hash, Eq, Copy, Clone, Structural)]
pub enum MainRecord {
    /// The only known value is "010-10037-00".
    DefaultPartNumber,
    /// The only known value is 0x0037.
    DefaultHWID,
}

impl MainRecord {
    /// What a payload validates to: 9 bytes equal to the known part number,
    /// or 2 bytes equal to the known hardware id; anything else is an error.
    pub open spec fn spec_new(e: Endianness, data: Seq<u8>) -> Result<MainRecord, GcdError> {
        if data.len() == 9 {
            if word_value(e, data) == DEFAULT_PART_NUMBER {
                Ok(MainRecord::DefaultPartNumber)
            } else {
                Err(GcdError::InvalidMainRecord)
            }
        } else if data.len() == 2 {
            if word_value(e, data) == DEFAULT_HWID {
                Ok(MainRecord::DefaultHWID)
            } else {
                Err(GcdError::InvalidMainRecord)
            }
        } else {
            Err(GcdError::InvalidMainRecord)
        }
    }

    /// Validate a main header payload.
    pub fn new(e: Endianness, data: &Vec<u8>) -> (r: Result<MainRecord, GcdError>)
        ensures
            r == MainRecord::spec_new(e, data@),
    {
        if data.len() == 9 {
            let pn = wire::read_uint(e, data, 0, 9);
            proof {
                assert(data@.subrange(0, 9) =~= data@);
            }
            if pn == DEFAULT_PART_NUMBER {
                Ok(MainRecord::DefaultPartNumber)
            } else {
                Err(GcdError::InvalidMainRecord)
            }
        } else if data.len() == 2 {
            let hwid = wire::read_u16(e, data, 0);
            proof {
                assert(data@.subrange(0, 2) =~= data@);
                wire::lemma_word_value_bound(e, data@);
                reveal_with_fuel(pow256, 3);
            }
            if hwid == DEFAULT_HWID {
                Ok(MainRecord::DefaultHWID)
            } else {
                Err(GcdError::InvalidMainRecord)
            }
        } else {
            Err(GcdError::InvalidMainRecord)
        }
    }

    pub open spec fn spec_len(&self) -> u16 {
        match self {
            MainRecord::DefaultPartNumber => 9,
            MainRecord::DefaultHWID => 2,
        }
    }

    pub fn len(&self) -> (r: u16)
        ensures
            r == self.spec_len(),
    {
        match self {
            MainRecord::DefaultPartNumber => 9,
            MainRecord::DefaultHWID => 2,
        }
    }

    /// The payload bytes of the known constant this record stands for.
    pub open spec fn spec_payload_bytes(&self, e: Endianness) -> Seq<u8> {
        match self {
            MainRecord::DefaultPartNumber => word_bytes(e, DEFAULT_PART_NUMBER as int, 9),
            MainRecord::DefaultHWID => word_bytes(e, DEFAULT_HWID as int, 2),
        }
    }

    /// The full wire bytes: header, then the constant payload.
    pub open spec fn spec_record_bytes(&self, e: Endianness) -> Seq<u8> {
        RecordHeader::MainHeader(self.spec_len()).spec_bytes(e) + self.spec_payload_bytes(e)
    }

    /// Append the header and the constant payload to `out`.
    pub fn record_to_raw(&self, e: Endianness, out: &mut Vec<u8>)
        ensures
            final(out)@ == old(out)@ + self.spec_record_bytes(e),
    {
        RecordHeader::MainHeader(self.len()).to_raw(e, out);
        match self {
            MainRecord::DefaultPartNumber => {
                proof {
                    reveal_with_fuel(pow256, 10);
                }
                wire::write_uint(e, out, DEFAULT_PART_NUMBER, 9);
            },
            MainRecord::DefaultHWID => {
                wire::write_u16(e, out, DEFAULT_HWID);
            },
        }
        proof {
            assert(final(out)@ =~= old(out)@ + self.spec_record_bytes(e));
        }
    }
}

/// Law: decoding the payload a main record encodes yields the record back,
/// and re-encoding a decoded payload yields the same bytes.
pub proof fn lemma_main_round_trip(e: Endianness, r: MainRecord, data: Seq<u8>)
    ensures
        MainRecord::spec_new(e, r.spec_payload_bytes(e)) == Ok::<MainRecord, GcdError>(r),
        MainRecord::spec_new(e, data) matches Ok(m) ==> m.spec_payload_bytes(e) == data,
{
    reveal_with_fuel(pow256, 10);
    wire::lemma_word_bytes_len(e, DEFAULT_PART_NUMBER as int, 9);
    wire::lemma_word_bytes_len(e, DEFAULT_HWID as int, 2);
    wire::lemma_word_value_of_bytes(e, DEFAULT_PART_NUMBER as int, 9);
    wire::lemma_word_value_of_bytes(e, DEFAULT_HWID as int, 2);
    match MainRecord::spec_new(e, data) {
        Ok(_) => {
            wire::lemma_word_bytes_of_value(e, data);
        },
        Err(_) => {},
    }
}

} // verus!
