//! Codec for the GCD firmware container format: a byte stream is decoded into
//! a validated sequence of typed records, and a record sequence is encoded
//! back into a byte-exact stream.
//!
//! A file is an 8-byte signature followed by records, each a 4-byte header
//! (16-bit id, 16-bit payload length) and a payload. A running modulo-256
//! checksum spans the whole stream and is checkpointed by checksum records.

use vstd::prelude::*;

pub mod composer;
pub mod parser;
pub mod record;
pub mod wire;

mod part_number;
mod version;

pub use part_number::PartNumber;
pub use part_number::PnSimple;
pub use version::Version;
pub use wire::Endianness;

verus! {

use crate::record::checksum;
use crate::record::checksum::ChecksumRecord;
use crate::record::descriptor::data_models_bytes;
use crate::record::descriptor::data_models_types;
use crate::record::descriptor::data_models_wf;
use crate::record::descriptor::types_bytes;
use crate::record::descriptor::types_data_len;
use crate::record::descriptor::types_len;
use crate::record::descriptor::DescriptorRecord;
use crate::record::descriptor::descriptor_data::DescriptorDataModel;
use crate::record::filler;
use crate::record::filler::FillerRecord;
use crate::record::firmware::FirmwareModel;
use crate::record::firmware::FirmwareRecord;
use crate::record::main;
use crate::record::main::MainRecord;
use crate::record::text;
use crate::record::text::TextModel;
use crate::record::text::TextRecord;
use crate::wire::word_bytes;
use crate::wire::word_value;

/// Length in bytes of an encoded record header.
pub const RECORD_HEADER_LEN: usize = 4;

/// Record id that marks the end of the file.
pub const END_ID: u16 = 0xffff;

/// Every way a stream can disagree with the inferred format. All of these are
/// terminal: the reader or writer that reported one is not usable afterwards.
#[derive(Debug, PartialEq, Eq, Copy, Clone, Structural)]
pub enum GcdError {
    /// The stream does not begin with the known 6-byte signature.
    InvalidSignature,
    /// The 16-bit format version after the signature is not the known one.
    InvalidVersion,
    /// Fewer bytes remain than a header or declared payload needs.
    UnexpectedEof,
    /// A header buffer shorter than the 4 header bytes.
    HeaderTooSmall,
    /// A checksum record whose accumulated sum is not zero, or whose payload
    /// is not exactly one byte.
    InvalidChecksum,
    /// A filler record with a non-zero payload byte.
    InvalidFiller,
    /// A main header whose length or value is not one of the two known forms.
    InvalidMainRecord,
    /// A descriptor type record with an odd payload length.
    DescriptorTypeOddLength,
    /// A descriptor type entry running past the declared payload.
    DescriptorTruncated,
    /// A descriptor type entry whose kind bits are not one of the known kinds.
    UnknownDescriptorKind,
    /// A descriptor data payload whose length is not the sum the type record
    /// declared.
    DescriptorDataLenMismatch,
    /// A descriptor that declares no firmware id.
    FirmwareIdMissing,
    /// A descriptor that declares no firmware length.
    FirmwareLenMissing,
    /// A firmware chunk whose id is not the active firmware id.
    FirmwareIdMismatch,
    /// A firmware chunk longer than the length still expected.
    FirmwareChunkTooBig,
    /// A firmware block closed before its declared length was received.
    FirmwareTruncated,
    /// A record kind that the grammar does not allow in the current state.
    GrammarViolation,
    /// A read attempted after the end record.
    ReadAfterEnd,
    /// A part number shorter than its fixed 9-byte encoding.
    PartNumberTooSmall,
    /// Text that does not parse as a part number.
    PartNumberInvalid,
}

/// A record header: which kind of record follows, and its payload length.
/// Ids not tied to a known kind are kept as `Unknown`; they carry firmware
/// chunks whose meaning a descriptor establishes.
#[derive(Debug, PartialEq, Hash, Eq, Copy, Clone, Structural)]
pub enum RecordHeader {
    /// A one byte record that, if read, results in a zero running sum.
    Checksum,
    /// A record holding nothing but zeros, usually aligning the next record.
    Filler(u16),
    /// Only two variations are known, a hardware id and a part number.
    MainHeader(u16),
    /// Arbitrary data, usually one line of valid text.
    Text(u16),
    /// Declares the slots of a descriptor; combined with the data record.
    DescriptorType(u16),
    /// Supplies the values of a descriptor; needs the type record to read.
    DescriptorData(u16),
    /// Marks the end of the file; always the last header.
    End,
    /// A header with an unknown id: a firmware chunk when a descriptor
    /// declared the id, otherwise undefined.
    Unknown { id: u16, len: u16 },
}

impl RecordHeader {
    /// The wire id of this header.
    pub open spec fn spec_id(&self) -> u16 {
        match self {
            RecordHeader::Unknown { id, .. } => *id,
            RecordHeader::Checksum => checksum::ID,
            RecordHeader::Filler(_) => filler::ID,
            RecordHeader::MainHeader(_) => main::ID,
            RecordHeader::Text(_) => text::ID,
            RecordHeader::DescriptorType(_) => record::descriptor::descriptor_type::ID,
            RecordHeader::DescriptorData(_) => record::descriptor::descriptor_data::ID,
            RecordHeader::End => END_ID,
        }
    }

    /// Return the id from the header.
    pub fn id(&self) -> (r: u16)
        ensures
            r == self.spec_id(),
    {
        match self {
            RecordHeader::Unknown { id, .. } => *id,
            RecordHeader::Checksum => checksum::ID,
            RecordHeader::Filler(_) => filler::ID,
            RecordHeader::MainHeader(_) => main::ID,
            RecordHeader::Text(_) => text::ID,
            RecordHeader::DescriptorType(_) => record::descriptor::descriptor_type::ID,
            RecordHeader::DescriptorData(_) => record::descriptor::descriptor_data::ID,
            RecordHeader::End => END_ID,
        }
    }

    /// The payload length this header declares (not the header's own length).
    pub open spec fn spec_len(&self) -> u16 {
        match self {
            RecordHeader::Unknown { len, .. } => *len,
            RecordHeader::Checksum => checksum::LEN,
            RecordHeader::Filler(len) => *len,
            RecordHeader::MainHeader(len) => *len,
            RecordHeader::Text(len) => *len,
            RecordHeader::DescriptorType(len) => *len,
            RecordHeader::DescriptorData(len) => *len,
            RecordHeader::End => 0,
        }
    }

    /// Return the payload length from the header.
    pub fn len(&self) -> (r: u16)
        ensures
            r == self.spec_len(),
    {
        match self {
            RecordHeader::Unknown { len, .. } => *len,
            RecordHeader::Checksum => checksum::LEN,
            RecordHeader::Filler(len) => *len,
            RecordHeader::MainHeader(len) => *len,
            RecordHeader::Text(len) => *len,
            RecordHeader::DescriptorType(len) => *len,
            RecordHeader::DescriptorData(len) => *len,
            RecordHeader::End => 0,
        }
    }

    /// Which header an `(id, len)` pair decodes to. A checksum id with a
    /// length other than one, or the end id with a non-zero length, is kept
    /// as `Unknown`.
    pub open spec fn spec_from_value(id: u16, len: u16) -> RecordHeader {
        if id == checksum::ID && len == 1 {
            RecordHeader::Checksum
        } else if id == filler::ID {
            RecordHeader::Filler(len)
        } else if id == main::ID {
            RecordHeader::MainHeader(len)
        } else if id == text::ID {
            RecordHeader::Text(len)
        } else if id == record::descriptor::descriptor_type::ID {
            RecordHeader::DescriptorType(len)
        } else if id == record::descriptor::descriptor_data::ID {
            RecordHeader::DescriptorData(len)
        } else if id == END_ID && len == 0 {
            RecordHeader::End
        } else {
            RecordHeader::Unknown { id, len }
        }
    }

    /// Create a header from the id and length values.
    pub fn from_value(id: u16, len: u16) -> (r: RecordHeader)
        ensures
            r == RecordHeader::spec_from_value(id, len),
    {
        if id == checksum::ID && len == 1 {
            RecordHeader::Checksum
        } else if id == filler::ID {
            RecordHeader::Filler(len)
        } else if id == main::ID {
            RecordHeader::MainHeader(len)
        } else if id == text::ID {
            RecordHeader::Text(len)
        } else if id == record::descriptor::descriptor_type::ID {
            RecordHeader::DescriptorType(len)
        } else if id == record::descriptor::descriptor_data::ID {
            RecordHeader::DescriptorData(len)
        } else if id == END_ID && len == 0 {
            RecordHeader::End
        } else {
            RecordHeader::Unknown { id, len }
        }
    }

    /// The 4 bytes this header encodes to.
    pub open spec fn spec_bytes(&self, e: Endianness) -> Seq<u8> {
        word_bytes(e, self.spec_id() as int, 2) + word_bytes(e, self.spec_len() as int, 2)
    }

    /// What a 4-byte buffer decodes to.
    pub open spec fn spec_from_raw(e: Endianness, data: Seq<u8>) -> Result<RecordHeader, GcdError> {
        if data.len() < 4 {
            Err(GcdError::HeaderTooSmall)
        } else {
            Ok(
                RecordHeader::spec_from_value(
                    word_value(e, data.subrange(0, 2)) as u16,
                    word_value(e, data.subrange(2, 4)) as u16,
                ),
            )
        }
    }

    /// Create the header from the first 4 raw bytes of `data`.
    pub fn from_raw(e: Endianness, data: &Vec<u8>) -> (r: Result<RecordHeader, GcdError>)
        ensures
            r == RecordHeader::spec_from_raw(e, data@),
    {
        if data.len() < 4 {
            return Err(GcdError::HeaderTooSmall);
        }
        let id = wire::read_u16(e, data, 0);
        let len = wire::read_u16(e, data, 2);
        proof {
            wire::lemma_word_value_bound(e, data@.subrange(0, 2));
            wire::lemma_word_value_bound(e, data@.subrange(2, 4));
        }
        Ok(RecordHeader::from_value(id, len))
    }

    /// Append the 4 header bytes to `out`.
    pub fn to_raw(&self, e: Endianness, out: &mut Vec<u8>)
        ensures
            final(out)@ == old(out)@ + self.spec_bytes(e),
    {
        wire::write_u16(e, out, self.id());
        wire::write_u16(e, out, self.len());
        proof {
            assert(final(out)@ =~= old(out)@ + self.spec_bytes(e));
        }
    }
}

/// All known records.
#[derive(Debug, PartialEq, Hash, Eq, Clone)]
pub enum Record {
    Checksum(ChecksumRecord),
    Filler(FillerRecord),
    MainHeader(MainRecord),
    Text(TextRecord),
    Descriptor(DescriptorRecord),
    FirmwareData(FirmwareRecord),
    End,
}

/// The mathematical shape of a record, with every variable payload
/// abstracted to a sequence.
pub ghost enum RecordModel {
    Checksum(ChecksumRecord),
    Filler(FillerRecord),
    MainHeader(MainRecord),
    Text(TextModel),
    Descriptor(Seq<DescriptorDataModel>),
    FirmwareData(FirmwareModel),
    End,
}

impl View for Record {
    type V = RecordModel;

    open spec fn view(&self) -> RecordModel {
        match self {
            Record::Checksum(c) => RecordModel::Checksum(*c),
            Record::Filler(f) => RecordModel::Filler(*f),
            Record::MainHeader(m) => RecordModel::MainHeader(*m),
            Record::Text(t) => RecordModel::Text(t@),
            Record::Descriptor(d) => RecordModel::Descriptor(d@),
            Record::FirmwareData(f) => RecordModel::FirmwareData(f@),
            Record::End => RecordModel::End,
        }
    }
}

impl RecordModel {
    /// True when the record can be written to the wire: every variable
    /// payload fits its 16-bit length field.
    pub open spec fn encodable(&self) -> bool {
        match self {
            RecordModel::Checksum(_) => true,
            RecordModel::Filler(_) => true,
            RecordModel::MainHeader(_) => true,
            RecordModel::Text(t) => t.payload_bytes().len() <= 0xffff,
            RecordModel::Descriptor(ms) => ms.len() <= 0x4000 && data_models_wf(*ms)
                && types_len(data_models_types(*ms)) <= 0xffff && types_data_len(
                data_models_types(*ms),
            ) <= 0xffff,
            RecordModel::FirmwareData(f) => f.data.len() <= 0xffff,
            RecordModel::End => true,
        }
    }

    /// The wire bytes a record encodes to when the running sum so far is
    /// `sum_before`. Only the checksum record depends on the sum: its
    /// payload byte closes the checkpoint.
    pub open spec fn wire_bytes(&self, e: Endianness, sum_before: u8) -> Seq<u8> {
        match self {
            RecordModel::Checksum(_) => ChecksumRecord::spec_record_bytes(e, sum_before),
            RecordModel::Filler(f) => f.spec_record_bytes(e),
            RecordModel::MainHeader(m) => m.spec_record_bytes(e),
            RecordModel::Text(t) => RecordHeader::Text(t.payload_bytes().len() as u16).spec_bytes(
                e,
            ) + t.payload_bytes(),
            RecordModel::Descriptor(ms) => RecordHeader::DescriptorType(
                types_len(data_models_types(*ms)) as u16,
            ).spec_bytes(e) + types_bytes(e, data_models_types(*ms)) + RecordHeader::DescriptorData(
                types_data_len(data_models_types(*ms)) as u16,
            ).spec_bytes(e) + data_models_bytes(e, *ms),
            RecordModel::FirmwareData(f) => (RecordHeader::Unknown {
                id: f.id,
                len: f.data.len() as u16,
            }).spec_bytes(e) + f.data,
            RecordModel::End => RecordHeader::End.spec_bytes(e),
        }
    }
}

} // verus!
