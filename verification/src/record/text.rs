//! The text record: a payload that is kept as text when it is valid UTF-8,
//! and as an opaque byte blob otherwise. Either way the payload bytes are
//! preserved exactly.

use vstd::prelude::*;

verus! {

use vstd::utf8::decode_utf8;
use vstd::utf8::encode_utf8;
use vstd::utf8::valid_utf8;
use crate::wire::Endianness;
use crate::RecordHeader;

pub const ID: u16 = 5;

/// A text record: decoded text, or the raw bytes when decoding failed.
#[derive(Debug, PartialEq, Hash, Eq, Clone)]
pub enum TextRecord {
    Simple(String),
    Blob(Vec<u8>),
}

/// The mathematical shape of a text record: the character sequence of the
/// text, or the byte sequence of the blob.
pub ghost enum TextModel {
    Simple(Seq<char>),
    Blob(Seq<u8>),
}

impl TextModel {
    /// The payload bytes this record stands for.
    pub open spec fn payload_bytes(&self) -> Seq<u8> {
        match self {
            TextModel::Simple(s) => encode_utf8(*s),
            TextModel::Blob(b) => *b,
        }
    }
}

impl View for TextRecord {
    type V = TextModel;

    open spec fn view(&self) -> TextModel {
        match self {
            TextRecord::Simple(s) => TextModel::Simple(s@),
            TextRecord::Blob(b) => TextModel::Blob(b@),
        }
    }
}

/// Relies on String::from_utf8: it succeeds exactly on valid UTF-8, decoding
/// it, and its error hands the input bytes back unchanged.
#[verifier::external_body]
pub(crate) fn vec_into_string(data: Vec<u8>) -> (r: Result<String, Vec<u8>>)
    ensures
        match r {
            Ok(s) => valid_utf8(data@) && s@ == decode_utf8(data@),
            Err(v) => !valid_utf8(data@) && v@ == data@,
        },
{
    match String::from_utf8(data) {
        Ok(s) => Ok(s),
        Err(e) => Err(e.into_bytes()),
    }
}

impl TextRecord {
    /// The payload bytes this record stands for: the UTF-8 encoding of the
    /// text, or the blob itself.
    pub open spec fn spec_payload_bytes(&self) -> Seq<u8> {
        self@.payload_bytes()
    }

    /// A record as decoding produces it: a blob only holds bytes that do not
    /// decode as text.
    pub open spec fn wf(&self) -> bool {
        match self {
            TextRecord::Simple(_) => true,
            TextRecord::Blob(b) => !valid_utf8(b@),
        }
    }

    /// Decode a text payload: text when the bytes are valid UTF-8, an opaque
    /// blob otherwise. The payload bytes are kept exactly either way.
    pub fn new(data: Vec<u8>) -> (r: TextRecord)
        ensures
            valid_utf8(data@) ==> (r matches TextRecord::Simple(s) && s@ == decode_utf8(data@)),
            !valid_utf8(data@) ==> (r matches TextRecord::Blob(b) && b@ == data@),
            r.spec_payload_bytes() == data@,
            r.wf(),
    {
        proof {
            if valid_utf8(data@) {
                vstd::utf8::decode_utf8_encode_utf8(data@);
            }
        }
        match vec_into_string(data) {
            Ok(s) => TextRecord::Simple(s),
            Err(b) => TextRecord::Blob(b),
        }
    }

    pub fn len(&self) -> (r: u16)
        requires
            self.spec_payload_bytes().len() <= 0xffff,
        ensures
            r == self.spec_payload_bytes().len(),
    {
        match self {
            TextRecord::Simple(s) => s.as_str().len() as u16,
            TextRecord::Blob(b) => b.len() as u16,
        }
    }

    /// The payload bytes, verbatim.
    pub fn value(&self) -> (r: &[u8])
        ensures
            r@ == self.spec_payload_bytes(),
    {
        match self {
            TextRecord::Simple(s) => s.as_str().as_bytes(),
            TextRecord::Blob(b) => b.as_slice(),
        }
    }

    /// The full wire bytes: header, then the payload verbatim.
    pub open spec fn spec_record_bytes(&self, e: Endianness) -> Seq<u8> {
        RecordHeader::Text(self.spec_payload_bytes().len() as u16).spec_bytes(e)
            + self.spec_payload_bytes()
    }

    /// Append the header and the payload to `out`.
    pub fn record_to_raw(&self, e: Endianness, out: &mut Vec<u8>)
        requires
            self.spec_payload_bytes().len() <= 0xffff,
        ensures
            final(out)@ == old(out)@ + self.spec_record_bytes(e),
    {
        RecordHeader::Text(self.len()).to_raw(e, out);
        let value = self.value();
        out.extend_from_slice(value);
        proof {
            assert(final(out)@ =~= old(out)@ + self.spec_record_bytes(e));
        }
    }
}

/// Bytes below 0x80 are valid UTF-8 and decode to the characters with the
/// same code points.
pub proof fn lemma_ascii_bytes_utf8(bytes: Seq<u8>)
    requires
        forall|i: int| 0 <= i < bytes.len() ==> bytes[i] < 0x80,
    ensures
        valid_utf8(bytes),
        decode_utf8(bytes) == Seq::new(bytes.len(), |i: int| bytes[i] as char),
{
    let chars = Seq::new(bytes.len(), |i: int| bytes[i] as char);
    assert(vstd::utf8::is_ascii_chars(chars));
    vstd::utf8::is_ascii_chars_encode_utf8(chars);
    assert(encode_utf8(chars) =~= bytes);
    vstd::utf8::encode_utf8_valid_utf8(chars);
    vstd::utf8::encode_utf8_decode_utf8(chars);
}

/// Law: decoding the payload a record encodes reproduces the record: a text
/// record's payload is valid UTF-8 and decodes to the same text, and a blob
/// produced by decoding stays a blob, since its bytes are not valid UTF-8.
pub proof fn lemma_text_round_trip(r: TextRecord)
    requires
        r.wf(),
    ensures
        r matches TextRecord::Simple(s) ==> valid_utf8(r.spec_payload_bytes()) && decode_utf8(
            r.spec_payload_bytes(),
        ) == s@,
        r matches TextRecord::Blob(b) ==> !valid_utf8(r.spec_payload_bytes()),
{
    match r {
        TextRecord::Simple(s) => {
            vstd::utf8::encode_utf8_decode_utf8(s@);
            vstd::utf8::encode_utf8_valid_utf8(s@);
        },
        TextRecord::Blob(_) => {},
    }
}

} // verus!
