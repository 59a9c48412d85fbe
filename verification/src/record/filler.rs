//! The filler record: a run of zero bytes, usually aligning the next record.

use vstd::prelude::*;

verus! {

use crate::wire::Endianness;
use crate::GcdError;
use crate::RecordHeader;

pub const ID: u16 = 2;

/// A validated filler record: `N` zero bytes.
#[derive(Debug, PartialEq, Hash, Eq, Copy, Clone, Structural)]
#[non_exhaustive]
pub enum FillerRecord {
    Zeros(u16),
}

impl FillerRecord {
    /// What a payload validates to: every byte must be zero.
    pub open spec fn spec_new(data: Seq<u8>) -> Result<FillerRecord, GcdError> {
        if forall|i: int| 0 <= i < data.len() ==> data[i] == 0 {
            Ok(FillerRecord::Zeros(data.len() as u16))
        } else {
            Err(GcdError::InvalidFiller)
        }
    }

    /// Validate a filler payload.
    pub fn new(data: &Vec<u8>) -> (r: Result<FillerRecord, GcdError>)
        requires
            data@.len() <= 0xffff,
        ensures
            r == FillerRecord::spec_new(data@),
    {
        let mut i: usize = 0;
        while i < data.len()
            invariant
                0 <= i <= data@.len() <= 0xffff,
                forall|j: int| 0 <= j < i ==> data@[j] == 0,
            decreases data@.len() - i,
        {
            if data[i] != 0 {
                return Err(GcdError::InvalidFiller);
            }
            i = i + 1;
        }
        Ok(FillerRecord::Zeros(data.len() as u16))
    }

    pub open spec fn spec_len(&self) -> u16 {
        match self {
            FillerRecord::Zeros(len) => *len,
        }
    }

    pub fn len(&self) -> (r: u16)
        ensures
            r == self.spec_len(),
    {
        match self {
            FillerRecord::Zeros(len) => *len,
        }
    }

    pub fn header(&self) -> (r: RecordHeader)
        ensures
            r == RecordHeader::Filler(self.spec_len()),
    {
        RecordHeader::Filler(self.len())
    }

    /// The payload bytes: all zeros.
    pub open spec fn spec_payload_bytes(&self) -> Seq<u8> {
        Seq::new(self.spec_len() as nat, |i: int| 0u8)
    }

    /// The full wire bytes: header, then the zero payload.
    pub open spec fn spec_record_bytes(&self, e: Endianness) -> Seq<u8> {
        RecordHeader::Filler(self.spec_len()).spec_bytes(e) + self.spec_payload_bytes()
    }

    /// Append the header and the zero payload to `out`.
    pub fn record_to_raw(&self, e: Endianness, out: &mut Vec<u8>)
        ensures
            final(out)@ == old(out)@ + self.spec_record_bytes(e),
    {
        self.header().to_raw(e, out);
        let ghost mid = out@;
        let len = self.len();
        let mut i: u16 = 0;
        while i < len
            invariant
                0 <= i <= len,
                len == self.spec_len(),
                out@ == mid + Seq::new(i as nat, |j: int| 0u8),
            decreases len - i,
        {
            out.push(0);
            proof {
                assert(out@ =~= mid + Seq::new((i + 1) as nat, |j: int| 0u8));
            }
            i = i + 1;
        }
        proof {
            assert(final(out)@ =~= old(out)@ + self.spec_record_bytes(e));
        }
    }
}

/// Law: decoding the payload a filler record encodes yields the record back,
/// and any all-zero payload decodes to the filler whose payload it is.
pub proof fn lemma_filler_round_trip(r: FillerRecord, data: Seq<u8>)
    requires
        data.len() <= 0xffff,
    ensures
        FillerRecord::spec_new(r.spec_payload_bytes()) == Ok::<FillerRecord, GcdError>(r),
        FillerRecord::spec_new(data) matches Ok(f) ==> f.spec_payload_bytes() == data,
{
    match FillerRecord::spec_new(data) {
        Ok(f) => {
            assert(f.spec_payload_bytes() =~= data);
        },
        Err(_) => {},
    }
}

} // verus!
