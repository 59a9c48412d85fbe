//! One slot declaration of a descriptor type record.
//!
//! A slot is a 16-bit value `0xKIII`: the top 4 bits `K` select the primitive
//! kind, the low 12 bits `III` are the slot id. Kind 4 ("other") is followed
//! by a further 16-bit explicit byte length. Kind 5 ends the list; only id 3
//! has been observed there.

use vstd::prelude::*;

verus! {

use crate::wire;
use crate::wire::word_bytes;
use crate::wire::word_value;
use crate::wire::Endianness;
use crate::GcdError;

pub const ID: u16 = 6;

/// The primitive kind and id of one descriptor slot.
#[derive(Debug, PartialEq, Hash, Eq, Copy, Clone, Structural)]
pub enum DescriptorType {
    U8 { id: u16 },
    U16 { id: u16 },
    U32 { id: u16 },
    U64 { id: u16 },
    Other { id: u16, lenght: u16 },
    End,
}

impl DescriptorType {
    pub open spec fn spec_kind(&self) -> u8 {
        match self {
            DescriptorType::U8 { .. } => 0,
            DescriptorType::U16 { .. } => 1,
            DescriptorType::U32 { .. } => 2,
            DescriptorType::U64 { .. } => 3,
            DescriptorType::Other { .. } => 4,
            DescriptorType::End => 5,
        }
    }

    pub fn kind(&self) -> (r: u8)
        ensures
            r == self.spec_kind(),
    {
        match self {
            DescriptorType::U8 { .. } => 0,
            DescriptorType::U16 { .. } => 1,
            DescriptorType::U32 { .. } => 2,
            DescriptorType::U64 { .. } => 3,
            DescriptorType::Other { .. } => 4,
            DescriptorType::End => 5,
        }
    }

    pub open spec fn spec_slot_id(&self) -> u16 {
        match self {
            DescriptorType::U8 { id } => *id,
            DescriptorType::U16 { id } => *id,
            DescriptorType::U32 { id } => *id,
            DescriptorType::U64 { id } => *id,
            DescriptorType::Other { id, .. } => *id,
            DescriptorType::End => 3,
        }
    }

    pub fn id(&self) -> (r: u16)
        ensures
            r == self.spec_slot_id(),
    {
        match self {
            DescriptorType::U8 { id } => *id,
            DescriptorType::U16 { id } => *id,
            DescriptorType::U32 { id } => *id,
            DescriptorType::U64 { id } => *id,
            DescriptorType::Other { id, .. } => *id,
            DescriptorType::End => 3,
        }
    }

    /// A slot as decoding produces it: the id fits the low 12 bits.
    pub open spec fn wf(&self) -> bool {
        self.spec_slot_id() <= 0x0fff
    }

    /// The combined 16-bit kind-and-id value.
    pub open spec fn spec_value(&self) -> u16 {
        ((self.spec_kind() as u16) << 12) | self.spec_slot_id()
    }

    pub fn value(&self) -> (r: u16)
        ensures
            r == self.spec_value(),
    {
        ((self.kind() as u16) << 12) | self.id()
    }

    /// The number of bytes this slot occupies in the type record: its 16-bit
    /// value, plus the explicit length field of an "other" slot.
    pub open spec fn spec_len(&self) -> u16 {
        match self {
            DescriptorType::Other { .. } => 4,
            _ => 2,
        }
    }

    pub fn len(&self) -> (r: u16)
        ensures
            r == self.spec_len(),
    {
        match self {
            DescriptorType::Other { .. } => 4,
            _ => 2,
        }
    }

    /// The number of bytes of the data record this slot's value occupies.
    pub open spec fn spec_data_len(&self) -> u16 {
        match self {
            DescriptorType::U8 { .. } => 1,
            DescriptorType::U16 { .. } => 2,
            DescriptorType::U32 { .. } => 4,
            DescriptorType::U64 { .. } => 8,
            DescriptorType::Other { lenght, .. } => *lenght,
            DescriptorType::End => 0,
        }
    }

    pub fn data_len(&self) -> (r: u16)
        ensures
            r == self.spec_data_len(),
    {
        match self {
            DescriptorType::U8 { .. } => 1,
            DescriptorType::U16 { .. } => 2,
            DescriptorType::U32 { .. } => 4,
            DescriptorType::U64 { .. } => 8,
            DescriptorType::Other { lenght, .. } => *lenght,
            DescriptorType::End => 0,
        }
    }

    /// What decoding at offset `pos` yields: the next offset and the slot, or
    /// an error when the bytes run out or the kind bits are unknown.
    pub open spec fn spec_from_raw(e: Endianness, data: Seq<u8>, pos: int) -> Result<
        (int, DescriptorType),
        GcdError,
    > {
        if pos + 2 > data.len() {
            Err(GcdError::DescriptorTruncated)
        } else {
            let value = word_value(e, data.subrange(pos, pos + 2)) as u16;
            let kind = value >> 12;
            let id = value & 0x0fff;
            if kind == 0 {
                Ok((pos + 2, DescriptorType::U8 { id }))
            } else if kind == 1 {
                Ok((pos + 2, DescriptorType::U16 { id }))
            } else if kind == 2 {
                Ok((pos + 2, DescriptorType::U32 { id }))
            } else if kind == 3 {
                Ok((pos + 2, DescriptorType::U64 { id }))
            } else if kind == 4 {
                if pos + 4 > data.len() {
                    Err(GcdError::DescriptorTruncated)
                } else {
                    let lenght = word_value(e, data.subrange(pos + 2, pos + 4)) as u16;
                    Ok((pos + 4, DescriptorType::Other { id, lenght }))
                }
            } else if kind == 5 {
                Ok((pos + 2, DescriptorType::End))
            } else {
                Err(GcdError::UnknownDescriptorKind)
            }
        }
    }

    /// Decode one slot from `data` at offset `pos`.
    pub fn from_raw(e: Endianness, data: &Vec<u8>, pos: usize) -> (r: Result<
        (usize, DescriptorType),
        GcdError,
    >)
        requires
            pos <= data@.len(),
        ensures
            match r {
                Ok((next, t)) => Ok::<(int, DescriptorType), GcdError>((next as int, t))
                    == DescriptorType::spec_from_raw(e, data@, pos as int) && t.wf() && next == pos
                    + t.spec_len(),
                Err(err) => Err::<(int, DescriptorType), GcdError>(err)
                    == DescriptorType::spec_from_raw(e, data@, pos as int),
            },
    {
        if data.len() - pos < 2 {
            return Err(GcdError::DescriptorTruncated);
        }
        let value = wire::read_u16(e, data, pos);
        proof {
            wire::lemma_word_value_bound(e, data@.subrange(pos as int, pos + 2));
        }
        let kind = value >> 12;
        let id = value & 0x0fff;
        proof {
            let v = value;
            assert((v & 0x0fff) <= 0x0fff) by (bit_vector);
        }
        if kind == 0 {
            Ok((pos + 2, DescriptorType::U8 { id }))
        } else if kind == 1 {
            Ok((pos + 2, DescriptorType::U16 { id }))
        } else if kind == 2 {
            Ok((pos + 2, DescriptorType::U32 { id }))
        } else if kind == 3 {
            Ok((pos + 2, DescriptorType::U64 { id }))
        } else if kind == 4 {
            if data.len() - pos < 4 {
                return Err(GcdError::DescriptorTruncated);
            }
            let lenght = wire::read_u16(e, data, pos + 2);
            proof {
                wire::lemma_word_value_bound(e, data@.subrange(pos + 2, pos + 4));
            }
            Ok((pos + 4, DescriptorType::Other { id, lenght }))
        } else if kind == 5 {
            Ok((pos + 2, DescriptorType::End))
        } else {
            Err(GcdError::UnknownDescriptorKind)
        }
    }

    /// The bytes of this slot in the type record: its 16-bit value, and the
    /// explicit length for an "other" slot.
    pub open spec fn spec_to_bytes(&self, e: Endianness) -> Seq<u8> {
        match self {
            DescriptorType::Other { lenght, .. } => word_bytes(e, self.spec_value() as int, 2)
                + word_bytes(e, *lenght as int, 2),
            _ => word_bytes(e, self.spec_value() as int, 2),
        }
    }

    /// Append this slot's type record bytes to `out`.
    pub fn to_raw(&self, e: Endianness, out: &mut Vec<u8>)
        ensures
            final(out)@ == old(out)@ + self.spec_to_bytes(e),
    {
        wire::write_u16(e, out, self.value());
        match self {
            DescriptorType::Other { lenght, .. } => {
                wire::write_u16(e, out, *lenght);
            },
            _ => {},
        }
        proof {
            assert(final(out)@ =~= old(out)@ + self.spec_to_bytes(e));
        }
    }
}

/// Law: decoding the bytes a well-formed slot encodes, wherever they stand
/// in a stream, yields that slot back and consumes exactly its bytes.
pub proof fn lemma_descriptor_type_round_trip(
    e: Endianness,
    t: DescriptorType,
    prefix: Seq<u8>,
    suffix: Seq<u8>,
)
    requires
        t.wf(),
    ensures
        DescriptorType::spec_from_raw(e, prefix + t.spec_to_bytes(e) + suffix, prefix.len() as int)
            == Ok::<(int, DescriptorType), GcdError>((prefix.len() + t.spec_len() as int, t)),
{
    let s = prefix + t.spec_to_bytes(e) + suffix;
    let pos = prefix.len() as int;
    let v = t.spec_value();
    wire::lemma_word_bytes_len(e, v as int, 2);
    wire::lemma_word_value_bound(e, word_bytes(e, v as int, 2));
    assert(s.subrange(pos, pos + 2) =~= word_bytes(e, v as int, 2));
    assert(word_value(e, word_bytes(e, v as int, 2)) == v) by {
        reveal_with_fuel(wire::pow256, 3);
        wire::lemma_word_value_of_bytes(e, v as int, 2);
    };
    let k = t.spec_kind() as u16;
    let i = t.spec_slot_id();
    assert((((k << 12) | i) >> 12) == k && (((k << 12) | i) & 0x0fff) == i) by (bit_vector)
        requires
            k <= 5,
            i <= 0x0fff,
    ;
    if let DescriptorType::Other { lenght, .. } = t {
        wire::lemma_word_bytes_len(e, lenght as int, 2);
        assert(s.subrange(pos + 2, pos + 4) =~= word_bytes(e, lenght as int, 2));
        assert(word_value(e, word_bytes(e, lenght as int, 2)) == lenght) by {
            reveal_with_fuel(wire::pow256, 3);
            wire::lemma_word_value_of_bytes(e, lenght as int, 2);
        };
    }
}

} // verus!
