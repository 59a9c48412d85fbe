//! One decoded value slot of a descriptor data record, read under the
//! matching slot declaration of the type record, plus the advisory lookup
//! that maps well-known `(kind, id)` pairs to their meaning.

use vstd::prelude::*;

verus! {

use super::descriptor_type::DescriptorType;
use crate::wire;
use crate::wire::pow256;
use crate::wire::word_bytes;
use crate::wire::word_value;
use crate::wire::Endianness;
use crate::GcdError;
use crate::Version;

pub const ID: u16 = 7;

/// One slot value, as wide as its type declaration says.
#[derive(Debug, PartialEq, Hash, Eq, Clone)]
pub enum DescriptorData {
    U8 { id: u16, data: u8 },
    U16 { id: u16, data: u16 },
    U32 { id: u16, data: u32 },
    U64 { id: u16, data: u64 },
    Other { id: u16, data: Vec<u8> },
    End,
}

/// The mathematical shape of a slot value: as `DescriptorData`, with the
/// variable-length payload abstracted to a byte sequence.
pub ghost enum DescriptorDataModel {
    U8 { id: u16, data: u8 },
    U16 { id: u16, data: u16 },
    U32 { id: u16, data: u32 },
    U64 { id: u16, data: u64 },
    Other { id: u16, data: Seq<u8> },
    End,
}

impl View for DescriptorData {
    type V = DescriptorDataModel;

    open spec fn view(&self) -> DescriptorDataModel {
        match self {
            DescriptorData::U8 { id, data } => DescriptorDataModel::U8 { id: *id, data: *data },
            DescriptorData::U16 { id, data } => DescriptorDataModel::U16 { id: *id, data: *data },
            DescriptorData::U32 { id, data } => DescriptorDataModel::U32 { id: *id, data: *data },
            DescriptorData::U64 { id, data } => DescriptorDataModel::U64 { id: *id, data: *data },
            DescriptorData::Other { id, data } => DescriptorDataModel::Other {
                id: *id,
                data: data@,
            },
            DescriptorData::End => DescriptorDataModel::End,
        }
    }
}

impl DescriptorDataModel {
    /// The type declaration this value answers to.
    pub open spec fn descriptor_type(&self) -> DescriptorType {
        match self {
            DescriptorDataModel::U8 { id, .. } => DescriptorType::U8 { id: *id },
            DescriptorDataModel::U16 { id, .. } => DescriptorType::U16 { id: *id },
            DescriptorDataModel::U32 { id, .. } => DescriptorType::U32 { id: *id },
            DescriptorDataModel::U64 { id, .. } => DescriptorType::U64 { id: *id },
            DescriptorDataModel::Other { id, data } => DescriptorType::Other {
                id: *id,
                lenght: data.len() as u16,
            },
            DescriptorDataModel::End => DescriptorType::End,
        }
    }

    /// A value as decoding produces it: a variable payload fits the 16-bit
    /// length field.
    pub open spec fn wf(&self) -> bool {
        match self {
            DescriptorDataModel::Other { data, .. } => data.len() <= 0xffff,
            _ => true,
        }
    }

    /// The bytes of this value inside the data record.
    pub open spec fn value_bytes(&self, e: Endianness) -> Seq<u8> {
        match self {
            DescriptorDataModel::U8 { data, .. } => seq![*data],
            DescriptorDataModel::U16 { data, .. } => word_bytes(e, *data as int, 2),
            DescriptorDataModel::U32 { data, .. } => word_bytes(e, *data as int, 4),
            DescriptorDataModel::U64 { data, .. } => word_bytes(e, *data as int, 8),
            DescriptorDataModel::Other { data, .. } => *data,
            DescriptorDataModel::End => Seq::empty(),
        }
    }

    /// The advisory meaning of a well-known `(kind, id)` pair, if any.
    pub open spec fn spec_decode(&self) -> Option<DescriptorDecoded> {
        match self {
            DescriptorDataModel::End => Some(DescriptorDecoded::End),
            DescriptorDataModel::U8 { id, data } => {
                if id == 10 {
                    Some(DescriptorDecoded::XorKey(*data))
                } else {
                    None
                }
            },
            DescriptorDataModel::U16 { id, data } => {
                if id == 9 {
                    Some(DescriptorDecoded::HWID(*data))
                } else if id == 10 {
                    Some(DescriptorDecoded::FirmwareId(*data))
                } else if id == 12 {
                    Some(DescriptorDecoded::VersionId12(Version::spec_new_raw(*data)))
                } else if id == 13 {
                    Some(DescriptorDecoded::VersionSw(Version::spec_new_raw(*data)))
                } else if id == 20 {
                    Some(DescriptorDecoded::VersionId20(Version::spec_new_raw(*data)))
                } else if id == 21 {
                    Some(DescriptorDecoded::VersionRemote(Version::spec_new_raw(*data)))
                } else {
                    None
                }
            },
            DescriptorDataModel::U32 { id, data } => {
                if id == 21 {
                    Some(DescriptorDecoded::FirmwareLen(*data))
                } else if id == 23 {
                    Some(DescriptorDecoded::Firmware2000P1Len(*data))
                } else if id == 24 {
                    Some(DescriptorDecoded::Firmware2000P2Len(*data))
                } else if id == 25 {
                    Some(DescriptorDecoded::Firmware2000P3Len(*data))
                } else if id == 26 {
                    Some(DescriptorDecoded::FirmwareAddr(*data))
                } else {
                    None
                }
            },
            _ => None,
        }
    }
}

impl DescriptorData {
    /// What reading one value at offset `pos` under declaration `t` yields.
    pub open spec fn spec_from_raw(
        e: Endianness,
        t: DescriptorType,
        data: Seq<u8>,
        pos: int,
    ) -> Result<DescriptorDataModel, GcdError> {
        if pos + t.spec_data_len() > data.len() {
            Err(GcdError::DescriptorTruncated)
        } else {
            match t {
                DescriptorType::U8 { id } => Ok(
                    DescriptorDataModel::U8 { id, data: data[pos] },
                ),
                DescriptorType::U16 { id } => Ok(
                    DescriptorDataModel::U16 {
                        id,
                        data: word_value(e, data.subrange(pos, pos + 2)) as u16,
                    },
                ),
                DescriptorType::U32 { id } => Ok(
                    DescriptorDataModel::U32 {
                        id,
                        data: word_value(e, data.subrange(pos, pos + 4)) as u32,
                    },
                ),
                DescriptorType::U64 { id } => Ok(
                    DescriptorDataModel::U64 {
                        id,
                        data: word_value(e, data.subrange(pos, pos + 8)) as u64,
                    },
                ),
                DescriptorType::Other { id, lenght } => Ok(
                    DescriptorDataModel::Other {
                        id,
                        data: data.subrange(pos, pos + lenght),
                    },
                ),
                DescriptorType::End => Ok(DescriptorDataModel::End),
            }
        }
    }

    /// Read one value at offset `pos` under declaration `t`, returning the
    /// next offset with it.
    pub fn from_raw(
        e: Endianness,
        descriptor_type: &DescriptorType,
        data: &Vec<u8>,
        pos: usize,
    ) -> (r: Result<(usize, DescriptorData), GcdError>)
        requires
            pos <= data@.len(),
        ensures
            match r {
                Ok((next, d)) => DescriptorData::spec_from_raw(
                    e,
                    *descriptor_type,
                    data@,
                    pos as int,
                ) == Ok::<DescriptorDataModel, GcdError>(d@) && next == pos
                    + descriptor_type.spec_data_len() && d@.wf(),
                Err(err) => DescriptorData::spec_from_raw(e, *descriptor_type, data@, pos as int)
                    == Err::<DescriptorDataModel, GcdError>(err),
            },
    {
        let dl = descriptor_type.data_len();
        if data.len() - pos < dl as usize {
            return Err(GcdError::DescriptorTruncated);
        }
        match descriptor_type {
            DescriptorType::U8 { id } => Ok((pos + 1, DescriptorData::U8 { id: *id, data: data[pos] })),
            DescriptorType::U16 { id } => {
                let v = wire::read_u16(e, data, pos);
                Ok((pos + 2, DescriptorData::U16 { id: *id, data: v }))
            },
            DescriptorType::U32 { id } => {
                let v = wire::read_uint(e, data, pos, 4);
                proof {
                    wire::lemma_word_value_bound(e, data@.subrange(pos as int, pos + 4));
                    reveal_with_fuel(pow256, 5);
                }
                Ok((pos + 4, DescriptorData::U32 { id: *id, data: v as u32 }))
            },
            DescriptorType::U64 { id } => {
                let v = wire::read_uint(e, data, pos, 8);
                proof {
                    wire::lemma_word_value_bound(e, data@.subrange(pos as int, pos + 8));
                    reveal_with_fuel(pow256, 9);
                }
                Ok((pos + 8, DescriptorData::U64 { id: *id, data: v as u64 }))
            },
            DescriptorType::Other { id, lenght } => {
                let mut value: Vec<u8> = Vec::new();
                let mut j: usize = 0;
                while j < *lenght as usize
                    invariant
                        j <= *lenght,
                        pos + *lenght <= data@.len() <= usize::MAX,
                        value@ =~= data@.subrange(pos as int, pos + j),
                    decreases *lenght as usize - j,
                {
                    value.push(data[pos + j]);
                    proof {
                        assert(value@ =~= data@.subrange(pos as int, pos + j + 1));
                    }
                    j = j + 1;
                }
                Ok((pos + *lenght as usize, DescriptorData::Other { id: *id, data: value }))
            },
            DescriptorType::End => Ok((pos, DescriptorData::End)),
        }
    }

    /// Append this value's data record bytes to `out`.
    pub fn to_raw(&self, e: Endianness, out: &mut Vec<u8>)
        requires
            self@.wf(),
        ensures
            final(out)@ == old(out)@ + self@.value_bytes(e),
    {
        match self {
            DescriptorData::U8 { data, .. } => {
                out.push(*data);
                proof {
                    assert(final(out)@ =~= old(out)@ + self@.value_bytes(e));
                }
            },
            DescriptorData::U16 { data, .. } => {
                wire::write_u16(e, out, *data);
            },
            DescriptorData::U32 { data, .. } => {
                proof {
                    reveal_with_fuel(pow256, 5);
                }
                wire::write_uint(e, out, *data as u128, 4);
            },
            DescriptorData::U64 { data, .. } => {
                proof {
                    reveal_with_fuel(pow256, 9);
                }
                wire::write_uint(e, out, *data as u128, 8);
            },
            DescriptorData::Other { data, .. } => {
                out.extend_from_slice(data.as_slice());
            },
            DescriptorData::End => {
                proof {
                    assert(final(out)@ =~= old(out)@ + self@.value_bytes(e));
                }
            },
        }
    }

    /// The type declaration this value answers to.
    pub fn descriptor_type(&self) -> (r: DescriptorType)
        requires
            self@.wf(),
        ensures
            r == self@.descriptor_type(),
    {
        match self {
            DescriptorData::U8 { id, .. } => DescriptorType::U8 { id: *id },
            DescriptorData::U16 { id, .. } => DescriptorType::U16 { id: *id },
            DescriptorData::U32 { id, .. } => DescriptorType::U32 { id: *id },
            DescriptorData::U64 { id, .. } => DescriptorType::U64 { id: *id },
            DescriptorData::Other { id, data } => DescriptorType::Other {
                id: *id,
                lenght: data.len() as u16,
            },
            DescriptorData::End => DescriptorType::End,
        }
    }

    /// The number of data record bytes this value occupies.
    pub fn len(&self) -> (r: u16)
        requires
            self@.wf(),
        ensures
            r == self@.descriptor_type().spec_data_len(),
    {
        self.descriptor_type().data_len()
    }

    /// The advisory meaning of this value, if its `(kind, id)` pair is a
    /// well-known one. Unrecognized pairs are no error: they mean nothing.
    pub fn decode(&self) -> (r: Option<DescriptorDecoded>)
        ensures
            r == self@.spec_decode(),
    {
        DescriptorDecoded::decode(self)
    }
}

/// The advisory meanings of the well-known descriptor slots.
#[derive(Debug, PartialEq, Hash, Eq, Copy, Clone, Structural)]
pub enum DescriptorDecoded {
    End,
    HWID(u16),
    XorKey(u8),
    FirmwareId(u16),
    FirmwareLen(u32),
    FirmwareAddr(u32),
    VersionSw(Version),
    VersionRemote(Version),
    VersionId12(Version),
    VersionId20(Version),
    Firmware2000P1Len(u32),
    Firmware2000P2Len(u32),
    Firmware2000P3Len(u32),
}

impl DescriptorDecoded {
    /// Look up the advisory meaning of a slot value.
    pub fn decode(src: &DescriptorData) -> (r: Option<DescriptorDecoded>)
        ensures
            r == src@.spec_decode(),
    {
        match src {
            DescriptorData::End => Some(DescriptorDecoded::End),
            DescriptorData::U8 { id: 10, data } => Some(DescriptorDecoded::XorKey(*data)),
            DescriptorData::U16 { id: 9, data } => Some(DescriptorDecoded::HWID(*data)),
            DescriptorData::U16 { id: 10, data } => Some(DescriptorDecoded::FirmwareId(*data)),
            DescriptorData::U16 { id: 12, data } => Some(
                DescriptorDecoded::VersionId12(Version::new_raw(*data)),
            ),
            DescriptorData::U16 { id: 13, data } => Some(
                DescriptorDecoded::VersionSw(Version::new_raw(*data)),
            ),
            DescriptorData::U16 { id: 20, data } => Some(
                DescriptorDecoded::VersionId20(Version::new_raw(*data)),
            ),
            DescriptorData::U16 { id: 21, data } => Some(
                DescriptorDecoded::VersionRemote(Version::new_raw(*data)),
            ),
            DescriptorData::U32 { id: 21, data } => Some(DescriptorDecoded::FirmwareLen(*data)),
            DescriptorData::U32 { id: 23, data } => Some(
                DescriptorDecoded::Firmware2000P1Len(*data),
            ),
            DescriptorData::U32 { id: 24, data } => Some(
                DescriptorDecoded::Firmware2000P2Len(*data),
            ),
            DescriptorData::U32 { id: 25, data } => Some(
                DescriptorDecoded::Firmware2000P3Len(*data),
            ),
            DescriptorData::U32 { id: 26, data } => Some(DescriptorDecoded::FirmwareAddr(*data)),
            DescriptorData::U8 { .. } => None,
            DescriptorData::U16 { .. } => None,
            DescriptorData::U32 { .. } => None,
            DescriptorData::U64 { .. } => None,
            DescriptorData::Other { .. } => None,
        }
    }
}

/// Law: reading back the bytes a well-formed slot value encodes, under the
/// type declaration it answers to, yields that value again.
pub proof fn lemma_descriptor_data_round_trip(
    e: Endianness,
    m: DescriptorDataModel,
    prefix: Seq<u8>,
    suffix: Seq<u8>,
)
    requires
        m.wf(),
    ensures
        DescriptorData::spec_from_raw(
            e,
            m.descriptor_type(),
            prefix + m.value_bytes(e) + suffix,
            prefix.len() as int,
        ) == Ok::<DescriptorDataModel, GcdError>(m),
{
    let s = prefix + m.value_bytes(e) + suffix;
    let pos = prefix.len() as int;
    match m {
        DescriptorDataModel::U8 { id, data } => {
            assert(s[pos] == data);
        },
        DescriptorDataModel::U16 { id, data } => {
            wire::lemma_word_bytes_len(e, data as int, 2);
            assert(s.subrange(pos, pos + 2) =~= word_bytes(e, data as int, 2));
            reveal_with_fuel(pow256, 3);
            wire::lemma_word_value_of_bytes(e, data as int, 2);
        },
        DescriptorDataModel::U32 { id, data } => {
            wire::lemma_word_bytes_len(e, data as int, 4);
            assert(s.subrange(pos, pos + 4) =~= word_bytes(e, data as int, 4));
            reveal_with_fuel(pow256, 5);
            wire::lemma_word_value_of_bytes(e, data as int, 4);
        },
        DescriptorDataModel::U64 { id, data } => {
            wire::lemma_word_bytes_len(e, data as int, 8);
            assert(s.subrange(pos, pos + 8) =~= word_bytes(e, data as int, 8));
            reveal_with_fuel(pow256, 9);
            wire::lemma_word_value_of_bytes(e, data as int, 8);
        },
        DescriptorDataModel::Other { id, data } => {
            assert(s.subrange(pos, pos + data.len()) =~= data);
        },
        DescriptorDataModel::End => {},
    }
}

} // verus!
