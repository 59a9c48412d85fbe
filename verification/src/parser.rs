//! Parse an existing GCD stream: pull headers and payloads off the byte
//! stream, advance the file grammar, and yield one record per call.
//!
//! The accepted grammar, with checksum and filler records legal in any
//! state and text records legal anywhere before the end record:
//!
//! ```text
//! File := Checksum* Main Checksum* (DescriptorType DescriptorData FirmwareData* Checksum*)+ End
//! ```

use vstd::prelude::*;

verus! {

use vstd::utf8::decode_utf8;
use vstd::utf8::valid_utf8;
use crate::record::checksum::ChecksumRecord;
use crate::record::descriptor::descriptor_data::DescriptorDataModel;
use crate::record::descriptor::descriptor_data::DescriptorDecoded;
use crate::record::descriptor::types_data_len;
use crate::record::descriptor::types_wf;
use crate::record::descriptor::DescriptorRecord;
use crate::record::descriptor::DescriptorTypeRecord;
use crate::record::descriptor::descriptor_type::DescriptorType;
use crate::record::filler::FillerRecord;
use crate::record::firmware::FirmwareModel;
use crate::record::firmware::FirmwareRecord;
use crate::record::main::MainRecord;
use crate::record::text::TextModel;
use crate::record::text::TextRecord;
use crate::wire;
use crate::wire::byte_sum;
use crate::wire::word_value;
use crate::wire::Endianness;
use crate::GcdError;
use crate::Record;
use crate::RecordHeader;
use crate::RecordModel;

/// The id of the TrueType font resource, whose chunks are additionally
/// obfuscated with a fixed XOR constant.
pub const FONT_RESOURCE_ID: u16 = 0x05A5;

/// The fixed XOR constant applied to font resource chunks.
pub const FONT_XOR: u8 = 0x76;

/// Where in the file grammar the parser stands.
#[derive(Debug, PartialEq, Eq, Copy, Clone, Structural)]
pub enum ParseState {
    /// Before the main header: only global records.
    TextGlobal,
    /// The main header was read; a descriptor must follow.
    Main,
    /// A descriptor type record is buffered, its data record must follow.
    DescriptorType,
    /// A descriptor pair is complete; chunks or a new descriptor follow.
    DescriptorData,
    /// Firmware chunks are streaming in.
    FirmwareData,
    /// The end record was read; nothing more may follow.
    End,
}

/// Firmware reassembly state, extracted from the active descriptor.
struct FirmwareData {
    /// Id of the firmware chunks.
    id: u16,
    /// XOR key used to decode the firmware; zero means no key.
    xor_key: u8,
    /// Declared total firmware length.
    lenght: u32,
    /// Length that still has to arrive before the block may close.
    lenght_left: u32,
}

/// The mathematical state of a parser: the stream, the read position, the
/// grammar state, the buffered descriptor slots, and the firmware counters.
/// The running checksum is determined by the stream and position.
pub ghost struct ParserModel {
    pub endian: Endianness,
    pub bytes: Seq<u8>,
    pub pos: int,
    pub state: ParseState,
    pub desc_type: Seq<DescriptorType>,
    pub fw_id: u16,
    pub fw_xor_key: u8,
    pub fw_len: u32,
    pub fw_left: u32,
}

impl ParserModel {
    /// The running checksum of everything read so far.
    pub open spec fn sum(&self) -> u8 {
        byte_sum(self.bytes.take(self.pos))
    }

    /// The payload of `len` bytes at the read position.
    pub open spec fn payload(&self, len: int) -> Seq<u8> {
        self.bytes.subrange(self.pos, self.pos + len)
    }

    /// The model after consuming `n` bytes.
    pub open spec fn advanced(&self, n: int) -> ParserModel {
        ParserModel { pos: self.pos + n, ..*self }
    }
}

/// One byte of a firmware chunk after the parser's decoding passes: the
/// descriptor's XOR key if one was declared, and the fixed font constant
/// when the firmware id is the font resource id. The two passes are
/// independent and both apply when both conditions hold.
pub open spec fn decode_byte(b: u8, key: u8, fw_id: u16) -> u8 {
    let b1 = if key != 0 {
        b ^ key
    } else {
        b
    };
    if fw_id == FONT_RESOURCE_ID {
        b1 ^ FONT_XOR
    } else {
        b1
    }
}

/// A whole firmware chunk after the parser's decoding passes.
pub open spec fn decode_chunk(data: Seq<u8>, key: u8, fw_id: u16) -> Seq<u8> {
    Seq::new(data.len(), |i: int| decode_byte(data[i], key, fw_id))
}

/// The firmware id, firmware length and XOR key a descriptor declares,
/// reading its slots in order with the last declaration winning. The three
/// part-length slots are treated as the plain firmware length.
pub open spec fn spec_extract(ms: Seq<DescriptorDataModel>) -> (
    Option<u16>,
    Option<u32>,
    Option<u8>,
)
    decreases ms.len(),
{
    if ms.len() == 0 {
        (None, None, None)
    } else {
        let prev = spec_extract(ms.drop_last());
        match ms.last().spec_decode() {
            Some(DescriptorDecoded::FirmwareId(x)) => (Some(x), prev.1, prev.2),
            Some(DescriptorDecoded::FirmwareLen(x)) => (prev.0, Some(x), prev.2),
            Some(DescriptorDecoded::Firmware2000P1Len(x)) => (prev.0, Some(x), prev.2),
            Some(DescriptorDecoded::Firmware2000P2Len(x)) => (prev.0, Some(x), prev.2),
            Some(DescriptorDecoded::Firmware2000P3Len(x)) => (prev.0, Some(x), prev.2),
            Some(DescriptorDecoded::XorKey(x)) => (prev.0, prev.1, Some(x)),
            _ => prev,
        }
    }
}

/// What opening a stream yields: the signature and version are checked.
pub open spec fn spec_open(e: Endianness, bytes: Seq<u8>) -> Result<(), GcdError> {
    if bytes.len() < 8 {
        Err(GcdError::UnexpectedEof)
    } else if !(bytes[0] == 0x47 && bytes[1] == 0x41 && bytes[2] == 0x52 && bytes[3] == 0x4d
        && bytes[4] == 0x49 && bytes[5] == 0x4e) {
        Err(GcdError::InvalidSignature)
    } else if word_value(e, bytes.subrange(6, 8)) != 100 {
        Err(GcdError::InvalidVersion)
    } else {
        Ok(())
    }
}

/// Reading a checksum record's payload byte: the running sum including that
/// byte must be zero.
pub open spec fn spec_checksum_step(m: ParserModel) -> (ParserModel, Result<
    RecordModel,
    GcdError,
>) {
    if m.pos + 1 > m.bytes.len() {
        (m, Err(GcdError::UnexpectedEof))
    } else {
        let m2 = m.advanced(1);
        match ChecksumRecord::spec_new(m.payload(1), m2.sum()) {
            Ok(c) => (m2, Ok(RecordModel::Checksum(c))),
            Err(err) => (m2, Err(err)),
        }
    }
}

/// Reading a filler record's payload: every byte must be zero.
pub open spec fn spec_filler_step(m: ParserModel, len: u16) -> (ParserModel, Result<
    RecordModel,
    GcdError,
>) {
    if m.pos + len > m.bytes.len() {
        (m, Err(GcdError::UnexpectedEof))
    } else {
        let m2 = m.advanced(len as int);
        match FillerRecord::spec_new(m.payload(len as int)) {
            Ok(f) => (m2, Ok(RecordModel::Filler(f))),
            Err(err) => (m2, Err(err)),
        }
    }
}

/// Reading a text record's payload: text when valid UTF-8, a blob otherwise.
pub open spec fn spec_text_step(m: ParserModel, len: u16) -> (ParserModel, Result<
    RecordModel,
    GcdError,
>) {
    if m.pos + len > m.bytes.len() {
        (m, Err(GcdError::UnexpectedEof))
    } else {
        let pay = m.payload(len as int);
        let t = if valid_utf8(pay) {
            TextModel::Simple(decode_utf8(pay))
        } else {
            TextModel::Blob(pay)
        };
        (m.advanced(len as int), Ok(RecordModel::Text(t)))
    }
}

/// Reading the main header's payload: one of the two known constants.
pub open spec fn spec_main_step(m: ParserModel, len: u16) -> (ParserModel, Result<
    RecordModel,
    GcdError,
>) {
    if m.pos + len > m.bytes.len() {
        (m, Err(GcdError::UnexpectedEof))
    } else {
        let m2 = m.advanced(len as int);
        match MainRecord::spec_new(m.endian, m.payload(len as int)) {
            Ok(h) => (m2, Ok(RecordModel::MainHeader(h))),
            Err(err) => (m2, Err(err)),
        }
    }
}

/// Reading and buffering a descriptor type record: the slot declarations
/// replace the buffered ones; no record is emitted.
pub open spec fn spec_desc_type_step(m: ParserModel, len: u16) -> (ParserModel, Option<GcdError>) {
    if len % 2 != 0 {
        (m, Some(GcdError::DescriptorTypeOddLength))
    } else if m.pos + len > m.bytes.len() {
        (m, Some(GcdError::UnexpectedEof))
    } else {
        let m2 = m.advanced(len as int);
        match DescriptorTypeRecord::spec_new(m.endian, m.payload(len as int)) {
            Ok(ts) => (ParserModel { desc_type: ts, ..m2 }, None),
            Err(err) => (m2, Some(err)),
        }
    }
}

/// Reading a descriptor data record under the buffered type record: the
/// payload must be exactly as long as the declared total; the decoded slots
/// must declare a firmware id and length, which (with the optional XOR key,
/// defaulting to zero) overwrite the firmware reassembly state.
pub open spec fn spec_desc_data_step(m: ParserModel, len: u16) -> (ParserModel, Result<
    RecordModel,
    GcdError,
>) {
    if types_data_len(m.desc_type) != len {
        (m, Err(GcdError::DescriptorDataLenMismatch))
    } else if m.pos + len > m.bytes.len() {
        (m, Err(GcdError::UnexpectedEof))
    } else {
        let m2 = m.advanced(len as int);
        match DescriptorRecord::spec_new(m.endian, m.desc_type, m.payload(len as int)) {
            Ok(ms) => match spec_extract(ms) {
                (None, _, _) => (m2, Err(GcdError::FirmwareIdMissing)),
                (Some(_), None, _) => (m2, Err(GcdError::FirmwareLenMissing)),
                (Some(id), Some(l), xor_key) => {
                    let key = match xor_key {
                        Some(k) => k,
                        None => 0u8,
                    };
                    let m3 = ParserModel {
                        fw_id: id,
                        fw_xor_key: key,
                        fw_len: l,
                        fw_left: l,
                        ..m2
                    };
                    (m3, Ok(RecordModel::Descriptor(ms)))
                },
            },
            Err(err) => (m2, Err(err)),
        }
    }
}

/// Reading one firmware chunk: its id must be the active firmware id, its
/// length must not exceed what is still expected, and its bytes are decoded
/// with the active XOR passes.
pub open spec fn spec_firmware_step(m: ParserModel, id: u16, len: u16) -> (ParserModel, Result<
    RecordModel,
    GcdError,
>) {
    if id != m.fw_id {
        (m, Err(GcdError::FirmwareIdMismatch))
    } else if m.fw_left < len {
        (m, Err(GcdError::FirmwareChunkTooBig))
    } else if m.pos + len > m.bytes.len() {
        (m, Err(GcdError::UnexpectedEof))
    } else {
        let m2 = ParserModel { fw_left: (m.fw_left - len) as u32, ..m.advanced(len as int) };
        let data = decode_chunk(m.payload(len as int), m.fw_xor_key, m.fw_id);
        (m2, Ok(RecordModel::FirmwareData(FirmwareModel { id, data })))
    }
}

/// Closing the active firmware block: a non-zero remainder is fatal.
pub open spec fn spec_fw_end(m: ParserModel) -> Option<GcdError> {
    if m.fw_left != 0 {
        Some(GcdError::FirmwareTruncated)
    } else {
        None
    }
}

/// What one `read_record` call yields: the next record and the parser state
/// after it, or the error that ends the stream. Descriptor type records are
/// buffered, so one call may consume several wire records.
pub open spec fn spec_read_record(m: ParserModel) -> (ParserModel, Result<RecordModel, GcdError>)
    decreases m.bytes.len() - m.pos,
    when 0 <= m.pos <= m.bytes.len()
{
    if m.state == ParseState::End {
        (m, Err(GcdError::ReadAfterEnd))
    } else if m.pos + 4 > m.bytes.len() {
        (m, Err(GcdError::UnexpectedEof))
    } else {
        let hdr = RecordHeader::spec_from_value(
            word_value(m.endian, m.bytes.subrange(m.pos, m.pos + 2)) as u16,
            word_value(m.endian, m.bytes.subrange(m.pos + 2, m.pos + 4)) as u16,
        );
        let m1 = m.advanced(4);
        match (m.state, hdr) {
            (_, RecordHeader::Checksum) => spec_checksum_step(m1),
            (_, RecordHeader::Filler(len)) => spec_filler_step(m1, len),
            (ParseState::TextGlobal, RecordHeader::Text(len)) => spec_text_step(m1, len),
            (ParseState::TextGlobal, RecordHeader::MainHeader(len)) => {
                let (m2, res) = spec_main_step(m1, len);
                (ParserModel { state: ParseState::Main, ..m2 }, res)
            },
            (ParseState::Main, RecordHeader::Text(len)) => spec_text_step(m1, len),
            (ParseState::Main, RecordHeader::DescriptorType(len)) => {
                match spec_desc_type_step(m1, len) {
                    (m2, None) => spec_read_record(
                        ParserModel { state: ParseState::DescriptorType, ..m2 },
                    ),
                    (m2, Some(err)) => (m2, Err(err)),
                }
            },
            (ParseState::DescriptorType, RecordHeader::DescriptorData(len)) => {
                let (m2, res) = spec_desc_data_step(m1, len);
                (ParserModel { state: ParseState::DescriptorData, ..m2 }, res)
            },
            (ParseState::DescriptorData, RecordHeader::DescriptorType(len)) => {
                match spec_fw_end(m1) {
                    Some(err) => (m1, Err(err)),
                    None => match spec_desc_type_step(m1, len) {
                        (m2, None) => spec_read_record(
                            ParserModel { state: ParseState::DescriptorType, ..m2 },
                        ),
                        (m2, Some(err)) => (m2, Err(err)),
                    },
                }
            },
            (ParseState::DescriptorData, RecordHeader::Unknown { id, len }) => {
                let (m2, res) = spec_firmware_step(m1, id, len);
                (ParserModel { state: ParseState::FirmwareData, ..m2 }, res)
            },
            (ParseState::DescriptorData, RecordHeader::Text(len)) => spec_text_step(m1, len),
            (ParseState::DescriptorData, RecordHeader::End) => {
                match spec_fw_end(m1) {
                    Some(err) => (m1, Err(err)),
                    None => (
                        ParserModel { state: ParseState::End, ..m1 },
                        Ok(RecordModel::End),
                    ),
                }
            },
            (ParseState::FirmwareData, RecordHeader::Text(len)) => spec_text_step(m1, len),
            (ParseState::FirmwareData, RecordHeader::Unknown { id, len }) => {
                let (m2, res) = spec_firmware_step(m1, id, len);
                (ParserModel { state: ParseState::FirmwareData, ..m2 }, res)
            },
            (ParseState::FirmwareData, RecordHeader::End) => {
                match spec_fw_end(m1) {
                    Some(err) => (m1, Err(err)),
                    None => (
                        ParserModel { state: ParseState::End, ..m1 },
                        Ok(RecordModel::End),
                    ),
                }
            },
            (ParseState::FirmwareData, RecordHeader::DescriptorType(len)) => {
                match spec_fw_end(m1) {
                    Some(err) => (m1, Err(err)),
                    None => match spec_desc_type_step(m1, len) {
                        (m2, None) => spec_read_record(
                            ParserModel { state: ParseState::DescriptorType, ..m2 },
                        ),
                        (m2, Some(err)) => (m2, Err(err)),
                    },
                }
            },
            _ => (m1, Err(GcdError::GrammarViolation)),
        }
    }
}

/// The total of a sequence of chunk lengths.
pub open spec fn chunk_sum(chunks: Seq<int>) -> int
    decreases chunks.len(),
{
    if chunks.len() == 0 {
        0
    } else {
        chunk_sum(chunks.drop_last()) + chunks.last()
    }
}

/// The remaining length after accounting a sequence of chunks against a
/// declared total, chunk by chunk as `spec_firmware_step` does: `None` once
/// some chunk exceeds what is still expected.
pub open spec fn remaining_after(total: int, chunks: Seq<int>) -> Option<int>
    decreases chunks.len(),
{
    if chunks.len() == 0 {
        Some(total)
    } else {
        match remaining_after(total, chunks.drop_last()) {
            None => None,
            Some(r) => if chunks.last() <= r {
                Some(r - chunks.last())
            } else {
                None
            },
        }
    }
}

/// Law (firmware reassembly): accounting non-negative chunk lengths against
/// a declared total length succeeds exactly as long as no prefix exceeds the
/// total, and leaves the difference. So chunks summing to the total close
/// the block cleanly at zero; a shortfall leaves a non-zero remainder, which
/// closing rejects; and a sequence whose total exceeds the declared length
/// fails at the first chunk that oversteps.
pub proof fn lemma_firmware_reassembly(total: int, chunks: Seq<int>)
    requires
        total >= 0,
        forall|i: int| 0 <= i < chunks.len() ==> chunks[i] >= 0,
    ensures
        remaining_after(total, chunks) == if chunk_sum(chunks) <= total {
            Some(total - chunk_sum(chunks))
        } else {
            None::<int>
        },
    decreases chunks.len(),
{
    if chunks.len() > 0 {
        assert(chunks.last() == chunks[chunks.len() - 1] && chunks.last() >= 0);
        lemma_firmware_reassembly(total, chunks.drop_last());
        lemma_chunk_sum_nonneg(chunks.drop_last());
    }
}

proof fn lemma_chunk_sum_nonneg(chunks: Seq<int>)
    requires
        forall|i: int| 0 <= i < chunks.len() ==> chunks[i] >= 0,
    ensures
        chunk_sum(chunks) >= 0,
    decreases chunks.len(),
{
    if chunks.len() > 0 {
        lemma_chunk_sum_nonneg(chunks.drop_last());
    }
}

/// Law (XOR obfuscation): a chunk byte for the font resource id with no XOR
/// key declared comes out as the byte XORed with the font constant; with a
/// key `k` declared, the key is applied first and the font constant on top.
pub proof fn lemma_font_chunk_xor(data: Seq<u8>, k: u8, i: int)
    requires
        0 <= i < data.len(),
        k != 0,
    ensures
        decode_chunk(data, 0, FONT_RESOURCE_ID)[i] == data[i] ^ FONT_XOR,
        decode_chunk(data, k, FONT_RESOURCE_ID)[i] == (data[i] ^ k) ^ FONT_XOR,
{
}

/// A stateful reader over one in-memory stream.
pub struct Parser {
    endian: Endianness,
    bytes: Vec<u8>,
    pos: usize,
    sum: u8,
    state: ParseState,
    descriptor_type: DescriptorTypeRecord,
    firmware: FirmwareData,
}

impl View for Parser {
    type V = ParserModel;

    closed spec fn view(&self) -> ParserModel {
        ParserModel {
            endian: self.endian,
            bytes: self.bytes@,
            pos: self.pos as int,
            state: self.state,
            desc_type: self.descriptor_type@,
            fw_id: self.firmware.id,
            fw_xor_key: self.firmware.xor_key,
            fw_len: self.firmware.lenght,
            fw_left: self.firmware.lenght_left,
        }
    }
}

impl Parser {
    /// The parser's bookkeeping matches its model: the position is inside
    /// the stream, the running sum covers exactly the bytes read, and the
    /// buffered descriptor slots are as parsing produced them.
    pub closed spec fn wf(&self) -> bool {
        &&& self.pos <= self.bytes@.len()
        &&& self.sum == byte_sum(self.bytes@.take(self.pos as int))
        &&& self.descriptor_type@.len() <= 0x8000
        &&& types_wf(self.descriptor_type@)
        &&& self.firmware.lenght_left <= self.firmware.lenght
    }

    /// Open a stream: checks the signature and the format version.
    pub fn new(bytes: Vec<u8>, endian: Endianness) -> (r: Result<Parser, GcdError>)
        ensures
            match r {
                Ok(p) => spec_open(endian, bytes@) is Ok && p.wf() && p@ == (ParserModel {
                    endian,
                    bytes: bytes@,
                    pos: 8,
                    state: ParseState::TextGlobal,
                    desc_type: Seq::empty(),
                    fw_id: 0,
                    fw_xor_key: 0,
                    fw_len: 0,
                    fw_left: 0,
                }),
                Err(err) => spec_open(endian, bytes@) == Err::<(), GcdError>(err),
            },
    {
        if bytes.len() < 8 {
            return Err(GcdError::UnexpectedEof);
        }
        if !(bytes[0] == 0x47 && bytes[1] == 0x41 && bytes[2] == 0x52 && bytes[3] == 0x4d
            && bytes[4] == 0x49 && bytes[5] == 0x4e) {
            return Err(GcdError::InvalidSignature);
        }
        let version = wire::read_u16(endian, &bytes, 6);
        if version != 100 {
            return Err(GcdError::InvalidVersion);
        }
        let sum = wire::sum_range(&bytes, 0, 8, 0);
        proof {
            assert(bytes@.subrange(0, 8) =~= bytes@.take(8));
        }
        Ok(
            Parser {
                endian,
                bytes,
                pos: 8,
                sum,
                state: ParseState::TextGlobal,
                descriptor_type: DescriptorTypeRecord::Simple(Vec::new()),
                firmware: FirmwareData { id: 0, xor_key: 0, lenght: 0, lenght_left: 0 },
            },
        )
    }

    /// The running sum of every byte read so far.
    pub fn sum(&self) -> (r: u8)
        requires
            self.wf(),
        ensures
            r == self@.sum(),
    {
        self.sum
    }

    /// How many bytes of the stream were not consumed yet. Whether trailing
    /// bytes after the end record are an error is left to the caller: the
    /// reader itself refuses further reads but never inspects them.
    pub fn remaining(&self) -> (r: usize)
        requires
            self.wf(),
        ensures
            r == self@.bytes.len() - self@.pos,
    {
        self.bytes.len() - self.pos
    }

    /// Consume `len` payload bytes, folding them into the running sum.
    fn take_payload(&mut self, len: u16) -> (r: Result<Vec<u8>, GcdError>)
        requires
            old(self).wf(),
        ensures
            final(self).wf(),
            match r {
                Ok(v) => old(self)@.pos + len <= old(self)@.bytes.len() && v@ == old(self)@.payload(
                    len as int,
                ) && final(self)@ == old(self)@.advanced(len as int),
                Err(err) => err == GcdError::UnexpectedEof && old(self)@.pos + len > old(self)@.bytes.len() && final(self)@ == old(self)@,
            },
    {
        if self.bytes.len() - self.pos < len as usize {
            return Err(GcdError::UnexpectedEof);
        }
        let mut v: Vec<u8> = Vec::new();
        let mut j: usize = 0;
        while j < len as usize
            invariant
                j <= len,
                self.pos + len <= self.bytes@.len() <= usize::MAX,
                v@ =~= self.bytes@.subrange(self.pos as int, self.pos + j),
            decreases len as usize - j,
        {
            v.push(self.bytes[self.pos + j]);
            proof {
                assert(v@ =~= self.bytes@.subrange(self.pos as int, self.pos + j + 1));
            }
            j = j + 1;
        }
        let new_sum = wire::sum_range(&self.bytes, self.pos, self.pos + len as usize, self.sum);
        proof {
            assert(self.bytes@.take(self.pos + len as int) =~= self.bytes@.take(self.pos as int)
                + self.bytes@.subrange(self.pos as int, self.pos + len as int));
            wire::lemma_byte_sum_append(
                self.bytes@.take(self.pos as int),
                self.bytes@.subrange(self.pos as int, self.pos + len as int),
            );
        }
        self.sum = new_sum;
        self.pos = self.pos + len as usize;
        Ok(v)
    }

    /// Read the next 4-byte record header.
    fn parse_record(&mut self) -> (r: Result<RecordHeader, GcdError>)
        requires
            old(self).wf(),
        ensures
            final(self).wf(),
            match r {
                Ok(h) => old(self)@.pos + 4 <= old(self)@.bytes.len() && h
                    == RecordHeader::spec_from_value(
                    word_value(
                        old(self)@.endian,
                        old(self)@.bytes.subrange(old(self)@.pos, old(self)@.pos + 2),
                    ) as u16,
                    word_value(
                        old(self)@.endian,
                        old(self)@.bytes.subrange(old(self)@.pos + 2, old(self)@.pos + 4),
                    ) as u16,
                ) && final(self)@ == old(self)@.advanced(4),
                Err(err) => err == GcdError::UnexpectedEof && old(self)@.pos + 4 > old(self)@.bytes.len() && final(self)@ == old(self)@,
            },
    {
        match self.take_payload(4) {
            Err(err) => Err(err),
            Ok(hdr) => {
                let id = wire::read_u16(self.endian, &hdr, 0);
                let len = wire::read_u16(self.endian, &hdr, 2);
                proof {
                    assert(hdr@.subrange(0, 2) =~= old(self)@.bytes.subrange(
                        old(self)@.pos,
                        old(self)@.pos + 2,
                    ));
                    assert(hdr@.subrange(2, 4) =~= old(self)@.bytes.subrange(
                        old(self)@.pos + 2,
                        old(self)@.pos + 4,
                    ));
                }
                Ok(RecordHeader::from_value(id, len))
            },
        }
    }

    /// Read and validate a checksum record's payload byte.
    fn parse_checksum(&mut self) -> (r: Result<ChecksumRecord, GcdError>)
        requires
            old(self).wf(),
        ensures
            final(self).wf(),
            ({
                let (m2, res) = spec_checksum_step(old(self)@);
                match r {
                    Ok(c) => res == Ok::<RecordModel, GcdError>(RecordModel::Checksum(c)) && final(self)@ == m2,
                    Err(err) => res == Err::<RecordModel, GcdError>(err),
                }
            }),
    {
        let data = match self.take_payload(1) {
            Ok(v) => v,
            Err(err) => {
                return Err(err);
            },
        };
        let checksum = self.sum;
        ChecksumRecord::new(&data, checksum)
    }

    /// Read and validate a filler record's payload.
    fn parse_filler(&mut self, lenght: u16) -> (r: Result<FillerRecord, GcdError>)
        requires
            old(self).wf(),
        ensures
            final(self).wf(),
            ({
                let (m2, res) = spec_filler_step(old(self)@, lenght);
                match r {
                    Ok(f) => res == Ok::<RecordModel, GcdError>(RecordModel::Filler(f)) && final(self)@ == m2,
                    Err(err) => res == Err::<RecordModel, GcdError>(err),
                }
            }),
    {
        let data = match self.take_payload(lenght) {
            Ok(v) => v,
            Err(err) => {
                return Err(err);
            },
        };
        FillerRecord::new(&data)
    }

    /// Read and validate the main header's payload.
    fn parse_main_header(&mut self, lenght: u16) -> (r: Result<MainRecord, GcdError>)
        requires
            old(self).wf(),
        ensures
            final(self).wf(),
            ({
                let (m2, res) = spec_main_step(old(self)@, lenght);
                match r {
                    Ok(h) => res == Ok::<RecordModel, GcdError>(RecordModel::MainHeader(h))
                        && final(self)@ == m2,
                    Err(err) => res == Err::<RecordModel, GcdError>(err),
                }
            }),
    {
        let data = match self.take_payload(lenght) {
            Ok(v) => v,
            Err(err) => {
                return Err(err);
            },
        };
        MainRecord::new(self.endian, &data)
    }

    /// Read a text record's payload.
    fn parse_text(&mut self, lenght: u16) -> (r: Result<TextRecord, GcdError>)
        requires
            old(self).wf(),
        ensures
            final(self).wf(),
            ({
                let (m2, res) = spec_text_step(old(self)@, lenght);
                match r {
                    Ok(t) => res == Ok::<RecordModel, GcdError>(RecordModel::Text(t@)) && final(self)@ == m2 && t.wf(),
                    Err(err) => res == Err::<RecordModel, GcdError>(err),
                }
            }),
    {
        let data = match self.take_payload(lenght) {
            Ok(v) => v,
            Err(err) => {
                return Err(err);
            },
        };
        Ok(TextRecord::new(data))
    }

    /// Read a descriptor type record and buffer its slot declarations.
    fn parse_descriptor_type(&mut self, lenght: u16) -> (r: Result<(), GcdError>)
        requires
            old(self).wf(),
        ensures
            final(self).wf(),
            ({
                let (m2, res) = spec_desc_type_step(old(self)@, lenght);
                match r {
                    Ok(()) => res is None && final(self)@ == m2,
                    Err(err) => res == Some(err),
                }
            }),
    {
        if lenght % 2 != 0 {
            return Err(GcdError::DescriptorTypeOddLength);
        }
        let data = match self.take_payload(lenght) {
            Ok(v) => v,
            Err(err) => {
                return Err(err);
            },
        };
        let rec = match DescriptorTypeRecord::new(self.endian, &data) {
            Ok(rec) => rec,
            Err(err) => {
                return Err(err);
            },
        };
        self.descriptor_type = rec;
        Ok(())
    }

    /// Read a descriptor data record under the buffered type record, and
    /// extract the firmware id, length and optional XOR key into the
    /// reassembly state.
    fn parse_descriptor_data(&mut self, lenght: u16) -> (r: Result<DescriptorRecord, GcdError>)
        requires
            old(self).wf(),
        ensures
            final(self).wf(),
            ({
                let (m2, res) = spec_desc_data_step(old(self)@, lenght);
                match r {
                    Ok(d) => res == Ok::<RecordModel, GcdError>(RecordModel::Descriptor(d@))
                        && final(self)@ == m2,
                    Err(err) => res == Err::<RecordModel, GcdError>(err),
                }
            }),
    {
        let declared = self.descriptor_type.data_len_total();
        if declared != lenght as usize {
            return Err(GcdError::DescriptorDataLenMismatch);
        }
        let data = match self.take_payload(lenght) {
            Ok(v) => v,
            Err(err) => {
                return Err(err);
            },
        };
        let descriptor = match DescriptorRecord::new(self.endian, &data, &self.descriptor_type) {
            Ok(d) => d,
            Err(err) => {
                return Err(err);
            },
        };
        let values = descriptor.iter();
        let mut firmware_id: Option<u16> = None;
        let mut firmware_lenght: Option<u32> = None;
        let mut xor_key: Option<u8> = None;
        let mut i: usize = 0;
        proof {
            assert(descriptor@.take(0) =~= Seq::<DescriptorDataModel>::empty());
        }
        while i < values.len()
            invariant
                0 <= i <= values@.len(),
                values@.map_values(|d: crate::record::descriptor::descriptor_data::DescriptorData|
                    d@) == descriptor@,
                (firmware_id, firmware_lenght, xor_key) == spec_extract(
                    descriptor@.take(i as int),
                ),
            decreases values@.len() - i,
        {
            proof {
                assert(descriptor@.take(i + 1).drop_last() =~= descriptor@.take(i as int));
                assert(descriptor@.take(i + 1).last() == descriptor@[i as int]);
                assert(descriptor@[i as int] == values@[i as int]@);
            }
            match values[i].decode() {
                Some(DescriptorDecoded::FirmwareId(x)) => {
                    firmware_id = Some(x);
                },
                Some(DescriptorDecoded::FirmwareLen(x)) => {
                    firmware_lenght = Some(x);
                },
                Some(DescriptorDecoded::XorKey(x)) => {
                    xor_key = Some(x);
                },
                Some(DescriptorDecoded::Firmware2000P1Len(x)) => {
                    firmware_lenght = Some(x);
                },
                Some(DescriptorDecoded::Firmware2000P2Len(x)) => {
                    firmware_lenght = Some(x);
                },
                Some(DescriptorDecoded::Firmware2000P3Len(x)) => {
                    firmware_lenght = Some(x);
                },
                _ => {},
            }
            i = i + 1;
        }
        proof {
            assert(descriptor@.take(values@.len() as int) =~= descriptor@);
        }
        let id = match firmware_id {
            None => {
                return Err(GcdError::FirmwareIdMissing);
            },
            Some(x) => x,
        };
        let l = match firmware_lenght {
            None => {
                return Err(GcdError::FirmwareLenMissing);
            },
            Some(x) => x,
        };
        self.firmware.id = id;
        self.firmware.lenght = l;
        self.firmware.xor_key = match xor_key {
            Some(k) => k,
            None => 0,
        };
        self.firmware.lenght_left = l;
        Ok(descriptor)
    }

    /// Read one firmware chunk, account for it, and decode its bytes.
    fn parse_firmware_data(&mut self, record_id: u16, record_len: u16) -> (r: Result<
        FirmwareRecord,
        GcdError,
    >)
        requires
            old(self).wf(),
        ensures
            final(self).wf(),
            ({
                let (m2, res) = spec_firmware_step(old(self)@, record_id, record_len);
                match r {
                    Ok(f) => res == Ok::<RecordModel, GcdError>(RecordModel::FirmwareData(f@))
                        && final(self)@ == m2 && f.wf(),
                    Err(err) => res == Err::<RecordModel, GcdError>(err),
                }
            }),
    {
        if record_id != self.firmware.id {
            return Err(GcdError::FirmwareIdMismatch);
        }
        if self.firmware.lenght_left < record_len as u32 {
            return Err(GcdError::FirmwareChunkTooBig);
        }
        self.firmware.lenght_left = self.firmware.lenght_left - record_len as u32;
        let buf = match self.take_payload(record_len) {
            Ok(v) => v,
            Err(err) => {
                return Err(err);
            },
        };
        let key = self.firmware.xor_key;
        let fw_id = self.firmware.id;
        let mut decoded: Vec<u8> = Vec::new();
        let mut j: usize = 0;
        while j < buf.len()
            invariant
                0 <= j <= buf@.len(),
                decoded@ =~= decode_chunk(buf@, key, fw_id).take(j as int),
            decreases buf@.len() - j,
        {
            let b = buf[j];
            let b1 = if key != 0 {
                b ^ key
            } else {
                b
            };
            let b2 = if fw_id == FONT_RESOURCE_ID {
                b1 ^ FONT_XOR
            } else {
                b1
            };
            decoded.push(b2);
            proof {
                assert(decoded@ =~= decode_chunk(buf@, key, fw_id).take(j + 1));
            }
            j = j + 1;
        }
        proof {
            assert(decode_chunk(buf@, key, fw_id).take(buf@.len() as int) =~= decode_chunk(
                buf@,
                key,
                fw_id,
            ));
        }
        Ok(FirmwareRecord::new(decoded, record_id))
    }

    /// Check that the active firmware block was fully received.
    fn check_firmware_end(&mut self) -> (r: Result<(), GcdError>)
        requires
            old(self).wf(),
        ensures
            final(self).wf(),
            final(self)@ == old(self)@,
            match r {
                Ok(()) => spec_fw_end(old(self)@) is None,
                Err(err) => spec_fw_end(old(self)@) == Some(err),
            },
    {
        if self.firmware.lenght_left != 0 {
            return Err(GcdError::FirmwareTruncated);
        }
        Ok(())
    }

    /// Read the next record. One call may consume several wire records,
    /// since descriptor type records are buffered until their data record
    /// arrives. After an error the parser is not usable further.
    pub fn read_record(&mut self) -> (r: Result<Record, GcdError>)
        requires
            old(self).wf(),
        ensures
            final(self).wf(),
            ({
                let (m2, res) = spec_read_record(old(self)@);
                match r {
                    Ok(rec) => res matches Ok(rm) && rec@ == rm && final(self)@ == m2,
                    Err(err) => res == Err::<RecordModel, GcdError>(err),
                }
            }),
    {
        loop
            invariant
                self.wf(),
                spec_read_record(old(self)@) == spec_read_record(self@),
            decreases self.bytes@.len() - self.pos,
        {
            if matches!(self.state, ParseState::End) {
                return Err(GcdError::ReadAfterEnd);
            }
            let state = self.state;
            let record = match self.parse_record() {
                Ok(h) => h,
                Err(err) => {
                    return Err(err);
                },
            };
            match (state, record) {
                (_, RecordHeader::Checksum) => {
                    match self.parse_checksum() {
                        Ok(c) => {
                            return Ok(Record::Checksum(c));
                        },
                        Err(err) => {
                            return Err(err);
                        },
                    }
                },
                (_, RecordHeader::Filler(len)) => {
                    match self.parse_filler(len) {
                        Ok(f) => {
                            return Ok(Record::Filler(f));
                        },
                        Err(err) => {
                            return Err(err);
                        },
                    }
                },
                (ParseState::TextGlobal, RecordHeader::Text(len))
                | (ParseState::Main, RecordHeader::Text(len))
                | (ParseState::DescriptorData, RecordHeader::Text(len))
                | (ParseState::FirmwareData, RecordHeader::Text(len)) => {
                    match self.parse_text(len) {
                        Ok(t) => {
                            return Ok(Record::Text(t));
                        },
                        Err(err) => {
                            return Err(err);
                        },
                    }
                },
                (ParseState::TextGlobal, RecordHeader::MainHeader(len)) => {
                    match self.parse_main_header(len) {
                        Ok(h) => {
                            self.state = ParseState::Main;
                            return Ok(Record::MainHeader(h));
                        },
                        Err(err) => {
                            return Err(err);
                        },
                    }
                },
                (ParseState::Main, RecordHeader::DescriptorType(len)) => {
                    match self.parse_descriptor_type(len) {
                        Ok(()) => {
                            self.state = ParseState::DescriptorType;
                        },
                        Err(err) => {
                            return Err(err);
                        },
                    }
                },
                (ParseState::DescriptorType, RecordHeader::DescriptorData(len)) => {
                    match self.parse_descriptor_data(len) {
                        Ok(d) => {
                            self.state = ParseState::DescriptorData;
                            return Ok(Record::Descriptor(d));
                        },
                        Err(err) => {
                            return Err(err);
                        },
                    }
                },
                (ParseState::DescriptorData, RecordHeader::DescriptorType(len))
                | (ParseState::FirmwareData, RecordHeader::DescriptorType(len)) => {
                    match self.check_firmware_end() {
                        Ok(()) => {},
                        Err(err) => {
                            return Err(err);
                        },
                    }
                    match self.parse_descriptor_type(len) {
                        Ok(()) => {
                            self.state = ParseState::DescriptorType;
                        },
                        Err(err) => {
                            return Err(err);
                        },
                    }
                },
                (ParseState::DescriptorData, RecordHeader::Unknown { id, len })
                | (ParseState::FirmwareData, RecordHeader::Unknown { id, len }) => {
                    match self.parse_firmware_data(id, len) {
                        Ok(f) => {
                            self.state = ParseState::FirmwareData;
                            return Ok(Record::FirmwareData(f));
                        },
                        Err(err) => {
                            return Err(err);
                        },
                    }
                },
                (ParseState::DescriptorData, RecordHeader::End)
                | (ParseState::FirmwareData, RecordHeader::End) => {
                    match self.check_firmware_end() {
                        Ok(()) => {
                            self.state = ParseState::End;
                            return Ok(Record::End);
                        },
                        Err(err) => {
                            return Err(err);
                        },
                    }
                },
                _ => {
                    return Err(GcdError::GrammarViolation);
                },
            }
        }
    }
}


/// True of record ids that name a known record kind: a firmware chunk may
/// not use one, since its header would parse as that kind.
pub open spec fn is_reserved_id(id: u16) -> bool {
    id == 1 || id == 2 || id == 3 || id == 5 || id == 6 || id == 7 || id == 0xffff
}

/// True when the record's payloads would survive the reader's own decoding:
/// a text blob holds only what text decoding rejects, and descriptor slot
/// ids fit their twelve wire bits.
pub open spec fn record_model_readable(rm: RecordModel) -> bool {
    match rm {
        RecordModel::Text(TextModel::Blob(b)) => !valid_utf8(b),
        RecordModel::Descriptor(ms) => types_wf(crate::record::descriptor::data_models_types(ms)),
        _ => true,
    }
}

/// True when the grammar and the reassembly state admit this record at this
/// point of the stream, so that reading it back cannot fail: the writer does
/// not enforce the grammar, so this is the reader's side of the bargain. A
/// firmware chunk additionally needs no XOR pass active, since the writer
/// emits chunk bytes verbatim while the reader decodes them.
pub open spec fn record_admissible(m: ParserModel, rm: RecordModel) -> bool {
    match rm {
        RecordModel::Checksum(_) => m.state != ParseState::End,
        RecordModel::Filler(_) => m.state != ParseState::End,
        RecordModel::MainHeader(_) => m.state == ParseState::TextGlobal,
        RecordModel::Text(_) => m.state == ParseState::TextGlobal || m.state == ParseState::Main
            || m.state == ParseState::DescriptorData || m.state == ParseState::FirmwareData,
        RecordModel::Descriptor(ms) => (m.state == ParseState::Main || ((m.state
            == ParseState::DescriptorData || m.state == ParseState::FirmwareData) && m.fw_left
            == 0)) && spec_extract(ms).0 is Some && spec_extract(ms).1 is Some,
        RecordModel::FirmwareData(f) => (m.state == ParseState::DescriptorData || m.state
            == ParseState::FirmwareData) && f.id == m.fw_id && f.data.len() <= m.fw_left
            && m.fw_xor_key == 0 && m.fw_id != FONT_RESOURCE_ID && !is_reserved_id(f.id),
        RecordModel::End => (m.state == ParseState::DescriptorData || m.state
            == ParseState::FirmwareData) && m.fw_left == 0,
    }
}

/// The parser state after reading back one admissible composed record: the
/// position moves past its wire bytes, the grammar state advances, and a
/// descriptor overwrites the buffered slots and the reassembly counters.
pub open spec fn record_next_model(m: ParserModel, rm: RecordModel) -> ParserModel {
    let base = m.advanced(rm.wire_bytes(m.endian, m.sum()).len() as int);
    match rm {
        RecordModel::Checksum(_) => base,
        RecordModel::Filler(_) => base,
        RecordModel::Text(_) => base,
        RecordModel::MainHeader(_) => ParserModel { state: ParseState::Main, ..base },
        RecordModel::Descriptor(ms) => {
            let (fw_id, fw_len, xor_key) = spec_extract(ms);
            let key = match xor_key {
                Some(k) => k,
                None => 0u8,
            };
            let id = match fw_id {
                Some(id) => id,
                None => 0u16,
            };
            let l = match fw_len {
                Some(l) => l,
                None => 0u32,
            };
            ParserModel {
                state: ParseState::DescriptorData,
                desc_type: crate::record::descriptor::data_models_types(ms),
                fw_id: id,
                fw_xor_key: key,
                fw_len: l,
                fw_left: l,
                ..base
            }
        },
        RecordModel::FirmwareData(f) => ParserModel {
            state: ParseState::FirmwareData,
            fw_left: (m.fw_left - f.data.len()) as u32,
            ..base
        },
        RecordModel::End => ParserModel { state: ParseState::End, ..base },
    }
}

/// The two 16-bit header words of an encoded record header read back as the
/// id and length they were written from, wherever the header stands.
proof fn lemma_header_words(
    e: Endianness,
    consumed: Seq<u8>,
    h: RecordHeader,
    rest: Seq<u8>,
    suffix: Seq<u8>,
)
    ensures
        ({
            let s = consumed + (h.spec_bytes(e) + rest) + suffix;
            let pos = consumed.len() as int;
            s.len() == consumed.len() + 4 + rest.len() + suffix.len() && word_value(
                e,
                s.subrange(pos, pos + 2),
            ) == h.spec_id() && word_value(e, s.subrange(pos + 2, pos + 4)) == h.spec_len()
        }),
{
    let s = consumed + (h.spec_bytes(e) + rest) + suffix;
    let pos = consumed.len() as int;
    wire::lemma_word_bytes_len(e, h.spec_id() as int, 2);
    wire::lemma_word_bytes_len(e, h.spec_len() as int, 2);
    assert(s.subrange(pos, pos + 2) =~= wire::word_bytes(e, h.spec_id() as int, 2));
    assert(s.subrange(pos + 2, pos + 4) =~= wire::word_bytes(e, h.spec_len() as int, 2));
    reveal_with_fuel(wire::pow256, 3);
    wire::lemma_word_value_of_bytes(e, h.spec_id() as int, 2);
    wire::lemma_word_value_of_bytes(e, h.spec_len() as int, 2);
}

/// Law (writer/reader round trip): a record the writer encodes at the
/// reader's position is read back verbatim, whenever the grammar admits it
/// there. One call consumes exactly the record's wire bytes.
#[verifier::rlimit(100)]
pub proof fn lemma_composed_record_reads_back(m: ParserModel, rm: RecordModel, suffix: Seq<u8>)
    requires
        0 <= m.pos <= m.bytes.len(),
        m.bytes == m.bytes.take(m.pos) + rm.wire_bytes(m.endian, m.sum()) + suffix,
        rm.encodable(),
        record_model_readable(rm),
        record_admissible(m, rm),
    ensures
        spec_read_record(m) == (record_next_model(m, rm), Ok::<RecordModel, GcdError>(rm)),
{
    let e = m.endian;
    let consumed = m.bytes.take(m.pos);
    let wire_rec = rm.wire_bytes(e, m.sum());
    match rm {
        RecordModel::Checksum(c) => {
            let hdr = RecordHeader::Checksum.spec_bytes(e);
            let folded = (m.sum() as int + wire::byte_sum_int(hdr)) % 256;
            let cbyte = ((256 - folded) % 256) as u8;
            assert(wire_rec == hdr + seq![cbyte]);
            lemma_header_words(e, consumed, RecordHeader::Checksum, seq![cbyte], suffix);
            let m1 = m.advanced(4);
            assert(m1.payload(1) =~= seq![cbyte]);
            assert(m.bytes.take(m.pos + 5) =~= consumed + wire_rec);
            crate::record::checksum::lemma_checksum_record_closes(e, consumed);
            assert(byte_sum(m.bytes.take(m.pos + 5)) == 0);
            wire::lemma_word_bytes_len(e, 1, 2);
            assert(wire_rec.len() == 5);
        },
        RecordModel::Filler(f) => {
            let h = RecordHeader::Filler(f.spec_len());
            let pay = f.spec_payload_bytes();
            assert(wire_rec == h.spec_bytes(e) + pay);
            lemma_header_words(e, consumed, h, pay, suffix);
            let m1 = m.advanced(4);
            assert(m1.payload(f.spec_len() as int) =~= pay);
            assert(FillerRecord::spec_new(pay) == Ok::<FillerRecord, GcdError>(f));
            wire::lemma_word_bytes_len(e, crate::record::filler::ID as int, 2);
            assert(wire_rec.len() == 4 + f.spec_len());
        },
        RecordModel::MainHeader(mh) => {
            let h = RecordHeader::MainHeader(mh.spec_len());
            let pay = mh.spec_payload_bytes(e);
            assert(wire_rec == h.spec_bytes(e) + pay);
            crate::record::main::lemma_main_round_trip(e, mh, pay);
            assert(pay.len() == mh.spec_len());
            lemma_header_words(e, consumed, h, pay, suffix);
            let m1 = m.advanced(4);
            assert(m1.payload(mh.spec_len() as int) =~= pay);
            assert(wire_rec.len() == 4 + mh.spec_len());
        },
        RecordModel::Text(t) => {
            let pay = t.payload_bytes();
            let h = RecordHeader::Text(pay.len() as u16);
            assert(wire_rec == h.spec_bytes(e) + pay);
            lemma_header_words(e, consumed, h, pay, suffix);
            let m1 = m.advanced(4);
            assert(m1.payload(pay.len() as int) =~= pay);
            match t {
                TextModel::Simple(s) => {
                    vstd::utf8::encode_utf8_valid_utf8(s);
                    vstd::utf8::encode_utf8_decode_utf8(s);
                },
                TextModel::Blob(b) => {},
            }
            wire::lemma_word_bytes_len(e, crate::record::text::ID as int, 2);
            assert(wire_rec.len() == 4 + pay.len());
        },
        RecordModel::FirmwareData(f) => {
            let h = RecordHeader::Unknown { id: f.id, len: f.data.len() as u16 };
            assert(wire_rec == h.spec_bytes(e) + f.data);
            lemma_header_words(e, consumed, h, f.data, suffix);
            let m1 = m.advanced(4);
            assert(m1.payload(f.data.len() as int) =~= f.data);
            assert(decode_chunk(f.data, m.fw_xor_key, m.fw_id) =~= f.data);
            wire::lemma_word_bytes_len(e, f.id as int, 2);
            assert(wire_rec.len() == 4 + f.data.len());
        },
        RecordModel::End => {
            assert(wire_rec == RecordHeader::End.spec_bytes(e) + Seq::<u8>::empty());
            lemma_header_words(e, consumed, RecordHeader::End, Seq::empty(), suffix);
            wire::lemma_word_bytes_len(e, 0xffff, 2);
            assert(wire_rec.len() == 4);
        },
        RecordModel::Descriptor(ms) => {
            lemma_descriptor_reads_back(m, ms, suffix);
        },
    }
}

/// The descriptor case of the writer/reader round trip: the type record is
/// read and buffered, and the data record is decoded under it, yielding the
/// slot values the writer encoded.
#[verifier::rlimit(100)]
proof fn lemma_descriptor_reads_back(m: ParserModel, ms: Seq<DescriptorDataModel>, suffix: Seq<u8>)
    requires
        0 <= m.pos <= m.bytes.len(),
        m.bytes == m.bytes.take(m.pos) + RecordModel::Descriptor(ms).wire_bytes(m.endian, m.sum())
            + suffix,
        RecordModel::Descriptor(ms).encodable(),
        record_model_readable(RecordModel::Descriptor(ms)),
        record_admissible(m, RecordModel::Descriptor(ms)),
    ensures
        spec_read_record(m) == (
            record_next_model(m, RecordModel::Descriptor(ms)),
            Ok::<RecordModel, GcdError>(RecordModel::Descriptor(ms)),
        ),
{
    let e = m.endian;
    let consumed = m.bytes.take(m.pos);
    let ts = crate::record::descriptor::data_models_types(ms);
    let tl = crate::record::descriptor::types_len(ts);
    let dl = types_data_len(ts);
    let tb = crate::record::descriptor::types_bytes(e, ts);
    let db = crate::record::descriptor::data_models_bytes(e, ms);
    let ht = RecordHeader::DescriptorType(tl as u16);
    let hd = RecordHeader::DescriptorData(dl as u16);
    let wire_rec = RecordModel::Descriptor(ms).wire_bytes(e, m.sum());
    crate::record::descriptor::lemma_types_len_even(ts);
    crate::record::descriptor::lemma_types_bytes_len(e, ts);
    crate::record::descriptor::lemma_data_models_bytes_len(e, ms);
    crate::record::descriptor::lemma_types_data_len_nonneg(ts);
    assert(wire_rec =~= ht.spec_bytes(e) + (tb + (hd.spec_bytes(e) + db)));
    assert(m.bytes =~= consumed + (ht.spec_bytes(e) + (tb + (hd.spec_bytes(e) + db))) + suffix);
    lemma_header_words(e, consumed, ht, tb + (hd.spec_bytes(e) + db), suffix);
    let m1 = m.advanced(4);

    // the type record payload parses to the declared slots
    assert(m1.payload(tl) =~= tb);
    crate::record::descriptor::lemma_parse_types_of_bytes(e, Seq::empty(), ts);
    assert(Seq::<u8>::empty() + tb =~= tb);
    assert(DescriptorTypeRecord::spec_new(e, tb) == Ok::<Seq<DescriptorType>, GcdError>(ts));
    let (mt, terr) = spec_desc_type_step(m1, tl as u16);
    assert(terr is None && mt == (ParserModel { desc_type: ts, ..m1.advanced(tl) }));

    // the reader then continues with the buffered slots and the data record
    let m_rec = ParserModel { state: ParseState::DescriptorType, ..mt };
    let consumed2 = m.bytes.take(m_rec.pos);
    assert(consumed2 =~= consumed + ht.spec_bytes(e) + tb);
    assert(m.bytes =~= consumed2 + (hd.spec_bytes(e) + db) + suffix);
    lemma_header_words(e, consumed2, hd, db, suffix);
    let m3 = m_rec.advanced(4);
    assert(m3.payload(dl) =~= db);
    crate::record::descriptor::lemma_parse_data_of_bytes(e, Seq::empty(), ms);
    assert(Seq::<u8>::empty() + db =~= db);
    assert(DescriptorRecord::spec_new(e, ts, db) == Ok::<Seq<DescriptorDataModel>, GcdError>(ms));
    let (md, res) = spec_desc_data_step(m3, dl as u16);
    assert(res == Ok::<RecordModel, GcdError>(RecordModel::Descriptor(ms)));
    assert(spec_read_record(m_rec) == (
        ParserModel { state: ParseState::DescriptorData, ..md },
        res,
    ));
    assert(wire_rec.len() == 4 + tl + 4 + dl);
}


/// The wire bytes of a whole record sequence, each record encoded at the
/// running sum the previous ones leave behind.
pub open spec fn wires_from(m: ParserModel, rms: Seq<RecordModel>) -> Seq<u8>
    decreases rms.len(),
{
    if rms.len() == 0 {
        Seq::empty()
    } else {
        rms[0].wire_bytes(m.endian, m.sum()) + wires_from(
            record_next_model(m, rms[0]),
            rms.drop_first(),
        )
    }
}

/// True when each record of the sequence is encodable, survives decoding,
/// and is admitted by the grammar in the state its predecessors leave.
pub open spec fn records_admissible(m: ParserModel, rms: Seq<RecordModel>) -> bool
    decreases rms.len(),
{
    rms.len() == 0 || (rms[0].encodable() && record_model_readable(rms[0]) && record_admissible(
        m,
        rms[0],
    ) && records_admissible(record_next_model(m, rms[0]), rms.drop_first()))
}

/// True when successive reads yield exactly the given records, in order,
/// each leaving the parser in the expected state.
pub open spec fn reads_back(m: ParserModel, rms: Seq<RecordModel>) -> bool
    decreases rms.len(),
{
    rms.len() == 0 || (spec_read_record(m) == (
        record_next_model(m, rms[0]),
        Ok::<RecordModel, GcdError>(rms[0]),
    ) && reads_back(record_next_model(m, rms[0]), rms.drop_first()))
}

/// Law (grammar, stream round trip): a record sequence the writer encodes
/// in a grammar-admissible order is read back record by record, in that
/// order. In particular text, main header, text, a descriptor pair, a
/// matching chunk and the end record are accepted in this order.
pub proof fn lemma_composed_stream_reads_back(
    m: ParserModel,
    rms: Seq<RecordModel>,
    suffix: Seq<u8>,
)
    requires
        0 <= m.pos <= m.bytes.len(),
        m.bytes == m.bytes.take(m.pos) + wires_from(m, rms) + suffix,
        records_admissible(m, rms),
    ensures
        reads_back(m, rms),
    decreases rms.len(),
{
    if rms.len() > 0 {
        let r0 = rms[0];
        let w0 = r0.wire_bytes(m.endian, m.sum());
        let next = record_next_model(m, r0);
        let rest = rms.drop_first();
        assert(m.bytes == m.bytes.take(m.pos) + w0 + (wires_from(next, rest) + suffix)) by {
            assert(m.bytes.take(m.pos) + (w0 + wires_from(next, rest)) + suffix =~= m.bytes.take(
                m.pos,
            ) + w0 + (wires_from(next, rest) + suffix));
        };
        lemma_composed_record_reads_back(m, r0, wires_from(next, rest) + suffix);
        assert(next.bytes.take(next.pos) =~= m.bytes.take(m.pos) + w0);
        assert(next.bytes == next.bytes.take(next.pos) + wires_from(next, rest) + suffix) by {
            assert(m.bytes.take(m.pos) + w0 + (wires_from(next, rest) + suffix) =~= (m.bytes.take(
                m.pos,
            ) + w0) + wires_from(next, rest) + suffix);
        };
        lemma_composed_stream_reads_back(next, rest, suffix);
    }
}

/// Law (grammar, negative): a descriptor data record before any descriptor
/// type record violates the grammar and is rejected.
pub proof fn lemma_data_before_type_rejected(m: ParserModel, len: u16)
    requires
        0 <= m.pos,
        m.pos + 4 <= m.bytes.len(),
        m.state == ParseState::TextGlobal || m.state == ParseState::Main,
        RecordHeader::spec_from_value(
            word_value(m.endian, m.bytes.subrange(m.pos, m.pos + 2)) as u16,
            word_value(m.endian, m.bytes.subrange(m.pos + 2, m.pos + 4)) as u16,
        ) == RecordHeader::DescriptorData(len),
    ensures
        spec_read_record(m).1 == Err::<RecordModel, GcdError>(GcdError::GrammarViolation),
{
}

} // verus!
