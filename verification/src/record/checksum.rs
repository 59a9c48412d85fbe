//! The checksum record: a single payload byte chosen so that the running
//! sum of every byte since the previous checkpoint, including this byte,
//! is zero modulo 256.

use vstd::prelude::*;

verus! {

use crate::wire;
use crate::wire::byte_sum;
use crate::wire::byte_sum_int;
use crate::wire::Endianness;
use crate::GcdError;
use crate::RecordHeader;

pub const ID: u16 = 1;

pub const LEN: u16 = 1;

/// A validated checksum record. It carries no payload of interest: decoding
/// it proves that the checkpoint's sum closed at zero.
#[derive(Debug, PartialEq, Hash, Eq, Copy, Clone, Structural)]
#[non_exhaustive]
pub enum ChecksumRecord {
    Simple,
}

impl ChecksumRecord {
    /// What a payload and an accumulated sum validate to: the payload must be
    /// exactly one byte and the sum (which already folded that byte in) zero.
    pub open spec fn spec_new(data: Seq<u8>, checksum: u8) -> Result<ChecksumRecord, GcdError> {
        if data.len() == 1 && checksum == 0 {
            Ok(ChecksumRecord::Simple)
        } else {
            Err(GcdError::InvalidChecksum)
        }
    }

    /// Validate a checksum payload against the accumulated sum.
    pub fn new(data: &Vec<u8>, checksum: u8) -> (r: Result<ChecksumRecord, GcdError>)
        ensures
            r == ChecksumRecord::spec_new(data@, checksum),
    {
        if data.len() != 1 || checksum != 0 {
            Err(GcdError::InvalidChecksum)
        } else {
            Ok(ChecksumRecord::Simple)
        }
    }

    pub open spec fn spec_len(&self) -> u16 {
        LEN
    }

    pub fn len(&self) -> (r: u16)
        ensures
            r == self.spec_len(),
    {
        LEN
    }

    /// The full wire bytes of a checksum record written while the running sum
    /// is `sum_before`: the header, then the byte that returns the sum to
    /// zero once the header itself has been folded in.
    pub open spec fn spec_record_bytes(e: Endianness, sum_before: u8) -> Seq<u8> {
        let hdr = RecordHeader::Checksum.spec_bytes(e);
        let folded = (sum_before as int + byte_sum_int(hdr)) % 256;
        hdr + seq![((256 - folded) % 256) as u8]
    }

    /// Append the header and computed checksum byte, given the running sum
    /// accumulated so far.
    pub fn record_to_raw(e: Endianness, out: &mut Vec<u8>, checksum: u8)
        ensures
            final(out)@ == old(out)@ + ChecksumRecord::spec_record_bytes(e, checksum),
    {
        let start = out.len();
        RecordHeader::Checksum.to_raw(e, out);
        let ghost hdr = RecordHeader::Checksum.spec_bytes(e);
        proof {
            wire::lemma_word_bytes_len(e, ID as int, 2);
            wire::lemma_word_bytes_len(e, LEN as int, 2);
            assert(out@.subrange(start as int, out@.len() as int) =~= hdr);
        }
        let folded = wire::sum_range(out, start, out.len(), checksum);
        proof {
            wire::lemma_byte_sum_int_nonneg(hdr);
            vstd::arithmetic::div_mod::lemma_add_mod_noop(
                checksum as int,
                byte_sum_int(hdr),
                256,
            );
            vstd::arithmetic::div_mod::lemma_small_mod(checksum as nat, 256);
        }
        let value: u8 = ((256 - folded as u16) % 256) as u8;
        out.push(value);
        proof {
            assert(final(out)@ =~= old(out)@ + ChecksumRecord::spec_record_bytes(e, checksum));
        }
    }
}

/// Law: appending a checksum record written at the stream's running sum
/// closes the checkpoint: the whole stream then sums to zero.
pub proof fn lemma_checksum_record_closes(e: Endianness, stream: Seq<u8>)
    ensures
        byte_sum(stream + ChecksumRecord::spec_record_bytes(e, byte_sum(stream))) == 0,
{
    let hdr = RecordHeader::Checksum.spec_bytes(e);
    let sum_before = byte_sum(stream);
    let folded = (sum_before as int + byte_sum_int(hdr)) % 256;
    let c = ((256 - folded) % 256) as u8;
    let rec = ChecksumRecord::spec_record_bytes(e, sum_before);
    assert(stream + rec =~= (stream + hdr).push(c));
    wire::lemma_byte_sum_int_append(stream, hdr);
    wire::lemma_byte_sum_int_nonneg(stream);
    wire::lemma_byte_sum_int_nonneg(hdr);
    assert((stream + hdr).push(c).drop_last() =~= stream + hdr);
    let total = byte_sum_int(stream) + byte_sum_int(hdr);
    assert(byte_sum_int((stream + hdr).push(c)) == total + c);
    assert((sum_before as int + byte_sum_int(hdr)) % 256 == total % 256) by {
        vstd::arithmetic::div_mod::lemma_add_mod_noop(byte_sum_int(stream), byte_sum_int(hdr), 256);
        vstd::arithmetic::div_mod::lemma_add_mod_noop(sum_before as int, byte_sum_int(hdr), 256);
        vstd::arithmetic::div_mod::lemma_mod_twice(byte_sum_int(stream), 256);
    };
    assert((total + c) % 256 == 0) by {
        vstd::arithmetic::div_mod::lemma_add_mod_noop(total, c as int, 256);
        vstd::arithmetic::div_mod::lemma_small_mod(c as nat, 256);
        vstd::arithmetic::div_mod::lemma_mod_twice(total, 256);
    };
}

} // verus!
