//! Compose a new GCD stream: the fixed signature once, then records, with
//! the running checksum folded over every byte written.

use vstd::prelude::*;

verus! {

use crate::record::checksum::ChecksumRecord;
use crate::wire;
use crate::wire::byte_sum;
use crate::wire::Endianness;
use crate::GcdError;
use crate::Record;
use crate::RecordHeader;
use crate::RecordModel;

/// The fixed 8-byte file signature: the ASCII magic and the 16-bit format
/// version, which is always 100.
pub open spec fn signature_bytes(e: Endianness) -> Seq<u8> {
    seq![0x47u8, 0x41u8, 0x52u8, 0x4du8, 0x49u8, 0x4eu8] + wire::word_bytes(e, 100, 2)
}

/// A writer that serializes records into an in-memory stream, keeping the
/// running checksum of every byte written so far.
pub struct Composer {
    endian: Endianness,
    out: Vec<u8>,
    sum: u8,
}

impl Composer {
    /// The bytes written so far.
    pub closed spec fn stream(&self) -> Seq<u8> {
        self.out@
    }

    /// The byte order this composer writes with.
    pub closed spec fn spec_endian(&self) -> Endianness {
        self.endian
    }

    /// The running sum matches the stream.
    pub closed spec fn wf(&self) -> bool {
        self.sum == byte_sum(self.out@)
    }

    /// Open a stream: writes the signature and version.
    pub fn new(endian: Endianness) -> (r: Composer)
        ensures
            r.wf(),
            r.spec_endian() == endian,
            r.stream() == signature_bytes(endian),
    {
        let mut out: Vec<u8> = Vec::new();
        out.push(0x47);
        out.push(0x41);
        out.push(0x52);
        out.push(0x4d);
        out.push(0x49);
        out.push(0x4e);
        wire::write_u16(endian, &mut out, 100);
        proof {
            assert(out@ =~= signature_bytes(endian));
        }
        let sum = wire::sum_range(&out, 0, out.len(), 0);
        proof {
            assert(out@.subrange(0, out@.len() as int) =~= out@);
        }
        Composer { endian, out, sum }
    }

    /// The running sum of every byte written so far.
    pub fn sum(&self) -> (r: u8)
        requires
            self.wf(),
        ensures
            r == byte_sum(self.stream()),
    {
        self.sum
    }

    /// Hand the composed stream out.
    pub fn into_bytes(self) -> (r: Vec<u8>)
        ensures
            r@ == self.stream(),
    {
        self.out
    }

    /// Extend the stream and fold the new bytes into the running sum.
    fn append_bytes(&mut self, data: &Vec<u8>)
        requires
            old(self).wf(),
        ensures
            final(self).wf(),
            final(self).stream() == old(self).stream() + data@,
            final(self).spec_endian() == old(self).spec_endian(),
    {
        let start = self.out.len();
        self.out.extend_from_slice(data.as_slice());
        proof {
            assert(self.out@ =~= old(self).out@ + data@);
        }
        let new_sum = wire::sum_range(&self.out, start, self.out.len(), self.sum);
        proof {
            assert(self.out@.subrange(start as int, self.out@.len() as int) =~= data@);
            wire::lemma_byte_sum_append(old(self).out@, data@);
            assert(new_sum == byte_sum(self.out@));
        }
        self.sum = new_sum;
    }

    /// Write a record with no encoding at all: an arbitrary id and payload.
    /// Writing to the in-memory stream cannot fail; the result keeps the
    /// shape of a fallible writing interface.
    pub fn write_record_raw(&mut self, id: u16, data: &Vec<u8>) -> (r: Result<(), GcdError>)
        requires
            old(self).wf(),
            data@.len() <= 0xffff,
        ensures
            r is Ok,
            final(self).wf(),
            final(self).spec_endian() == old(self).spec_endian(),
            final(self).stream() == old(self).stream() + (RecordHeader::Unknown {
                id,
                len: data@.len() as u16,
            }).spec_bytes(old(self).spec_endian()) + data@,
    {
        let mut buf: Vec<u8> = Vec::new();
        (RecordHeader::Unknown { id, len: data.len() as u16 }).to_raw(self.endian, &mut buf);
        buf.extend_from_slice(data.as_slice());
        self.append_bytes(&buf);
        proof {
            assert(final(self).stream() =~= old(self).stream() + (RecordHeader::Unknown {
                id,
                len: data@.len() as u16,
            }).spec_bytes(old(self).spec_endian()) + data@);
        }
        Ok(())
    }

    /// Write a record, encoding its payload. The stream grows by exactly the
    /// record's wire bytes, with the checksum record closing the running sum.
    /// Writing to the in-memory stream cannot fail; the result keeps the
    /// shape of a fallible writing interface. The composer does not enforce
    /// the reader's grammar: supplying records in a valid order is the
    /// caller's responsibility.
    pub fn write_record(&mut self, record: &Record) -> (r: Result<(), GcdError>)
        requires
            old(self).wf(),
            record@.encodable(),
        ensures
            r is Ok,
            final(self).wf(),
            final(self).spec_endian() == old(self).spec_endian(),
            final(self).stream() == old(self).stream() + record@.wire_bytes(
                old(self).spec_endian(),
                byte_sum(old(self).stream()),
            ),
    {
        let e = self.endian;
        let mut buf: Vec<u8> = Vec::new();
        match record {
            Record::Checksum(_) => {
                ChecksumRecord::record_to_raw(e, &mut buf, self.sum);
            },
            Record::Filler(filler) => {
                filler.record_to_raw(e, &mut buf);
            },
            Record::MainHeader(header) => {
                header.record_to_raw(e, &mut buf);
            },
            Record::Text(text) => {
                text.record_to_raw(e, &mut buf);
            },
            Record::Descriptor(desc) => {
                desc.record_type_to_raw(e, &mut buf);
                desc.record_data_to_raw(e, &mut buf);
            },
            Record::FirmwareData(firm) => {
                firm.record_to_raw(e, &mut buf);
            },
            Record::End => {
                RecordHeader::End.to_raw(e, &mut buf);
            },
        }
        proof {
            assert(buf@ =~= record@.wire_bytes(
                old(self).spec_endian(),
                byte_sum(old(self).stream()),
            ));
        }
        self.append_bytes(&buf);
        Ok(())
    }
}

/// Law (checksum checkpoint): after writing a checksum record the whole
/// stream sums to zero: the record's payload byte is the closing byte.
pub proof fn lemma_composer_checkpoint_closes(e: Endianness, stream: Seq<u8>, c: ChecksumRecord)
    ensures
        byte_sum(stream + RecordModel::Checksum(c).wire_bytes(e, byte_sum(stream))) == 0,
{
    crate::record::checksum::lemma_checksum_record_closes(e, stream);
}

} // verus!
