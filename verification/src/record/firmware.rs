//! The firmware data record: a raw chunk of a firmware image, tagged with
//! the id the preceding descriptor declared.

use vstd::prelude::*;

verus! {

use crate::wire::Endianness;
use crate::RecordHeader;

/// One firmware chunk. Some files carry an explicit empty chunk when the
/// declared firmware length is zero.
#[derive(Debug, PartialEq, Hash, Eq, Clone)]
pub enum FirmwareRecord {
    /// Empty firmware chunk.
    EmptyChunk { id: u16 },
    /// Chunk of firmware data.
    Chunk { id: u16, data: Vec<u8> },
}

/// The mathematical shape of a firmware chunk: its id and payload bytes.
/// An empty payload stands for the explicit empty chunk variant.
pub ghost struct FirmwareModel {
    pub id: u16,
    pub data: Seq<u8>,
}

impl View for FirmwareRecord {
    type V = FirmwareModel;

    open spec fn view(&self) -> FirmwareModel {
        match self {
            FirmwareRecord::EmptyChunk { id } => FirmwareModel { id: *id, data: Seq::empty() },
            FirmwareRecord::Chunk { id, data } => FirmwareModel { id: *id, data: data@ },
        }
    }
}

impl FirmwareRecord {
    /// The id the chunk is tagged with.
    pub open spec fn spec_id(&self) -> u16 {
        self@.id
    }

    /// The chunk's payload bytes.
    pub open spec fn spec_data(&self) -> Seq<u8> {
        self@.data
    }

    /// A record as construction produces it: a non-empty chunk uses `Chunk`,
    /// an empty one uses `EmptyChunk`, and the payload fits the wire field.
    pub open spec fn wf(&self) -> bool {
        match self {
            FirmwareRecord::EmptyChunk { .. } => true,
            FirmwareRecord::Chunk { data, .. } => 0 < data@.len() <= 0xffff,
        }
    }

    /// Build a chunk record; an empty payload becomes the explicit empty
    /// chunk variant.
    pub fn new(data: Vec<u8>, id: u16) -> (r: FirmwareRecord)
        requires
            data@.len() <= 0xffff,
        ensures
            r.spec_id() == id,
            r.spec_data() == data@,
            r.wf(),
    {
        if data.len() == 0 {
            proof {
                assert(data@ =~= Seq::<u8>::empty());
            }
            FirmwareRecord::EmptyChunk { id }
        } else {
            FirmwareRecord::Chunk { id, data }
        }
    }

    pub fn len(&self) -> (r: u16)
        requires
            self.spec_data().len() <= 0xffff,
        ensures
            r == self.spec_data().len(),
    {
        match self {
            FirmwareRecord::EmptyChunk { .. } => 0,
            FirmwareRecord::Chunk { data, .. } => data.len() as u16,
        }
    }

    pub fn id(&self) -> (r: u16)
        ensures
            r == self.spec_id(),
    {
        match self {
            FirmwareRecord::EmptyChunk { id } => *id,
            FirmwareRecord::Chunk { id, .. } => *id,
        }
    }

    /// The payload bytes, as a fresh vector.
    pub fn data(&self) -> (r: Vec<u8>)
        ensures
            r@ == self.spec_data(),
    {
        match self {
            FirmwareRecord::EmptyChunk { .. } => Vec::new(),
            FirmwareRecord::Chunk { data, .. } => {
                let mut copy: Vec<u8> = Vec::new();
                copy.extend_from_slice(data.as_slice());
                proof {
                    assert(copy@ =~= data@);
                }
                copy
            },
        }
    }

    /// The full wire bytes: a header carrying the firmware's own id, then
    /// the payload verbatim.
    pub open spec fn spec_record_bytes(&self, e: Endianness) -> Seq<u8> {
        (RecordHeader::Unknown { id: self.spec_id(), len: self.spec_data().len() as u16 })
            .spec_bytes(e) + self.spec_data()
    }

    /// Append the header and the payload to `out`.
    pub fn record_to_raw(&self, e: Endianness, out: &mut Vec<u8>)
        requires
            self.spec_data().len() <= 0xffff,
        ensures
            final(out)@ == old(out)@ + self.spec_record_bytes(e),
    {
        (RecordHeader::Unknown { id: self.id(), len: self.len() }).to_raw(e, out);
        match self {
            FirmwareRecord::EmptyChunk { .. } => {},
            FirmwareRecord::Chunk { data, .. } => {
                out.extend_from_slice(data.as_slice());
            },
        }
        proof {
            assert(final(out)@ =~= old(out)@ + self.spec_record_bytes(e));
        }
    }
}

} // verus!
