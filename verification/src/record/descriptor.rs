//! The descriptor subsystem: a type record declaring a sequence of typed
//! slots, and a data record supplying the slot values in the same order.
//! The two wire records are interpreted together.

use vstd::prelude::*;

pub mod descriptor_data;
pub mod descriptor_type;

verus! {

use descriptor_data::DescriptorData;
use descriptor_data::DescriptorDataModel;
use descriptor_type::DescriptorType;
use crate::wire;
use crate::wire::Endianness;
use crate::GcdError;
use crate::RecordHeader;

/// True when every slot of the sequence is well formed.
pub open spec fn types_wf(ts: Seq<DescriptorType>) -> bool {
    forall|i: int| 0 <= i < ts.len() ==> (#[trigger] ts[i]).wf()
}

/// The total number of data record bytes a slot sequence declares.
pub open spec fn types_data_len(ts: Seq<DescriptorType>) -> int
    decreases ts.len(),
{
    if ts.len() == 0 {
        0
    } else {
        types_data_len(ts.drop_last()) + ts.last().spec_data_len()
    }
}

/// The type record bytes of a slot sequence, concatenated in order.
pub open spec fn types_bytes(e: Endianness, ts: Seq<DescriptorType>) -> Seq<u8>
    decreases ts.len(),
{
    if ts.len() == 0 {
        Seq::empty()
    } else {
        types_bytes(e, ts.drop_last()) + ts.last().spec_to_bytes(e)
    }
}

/// The total number of type record bytes a slot sequence occupies.
pub open spec fn types_len(ts: Seq<DescriptorType>) -> int
    decreases ts.len(),
{
    if ts.len() == 0 {
        0
    } else {
        types_len(ts.drop_last()) + ts.last().spec_len()
    }
}

pub proof fn lemma_types_data_len_nonneg(ts: Seq<DescriptorType>)
    ensures
        types_data_len(ts) >= 0,
    decreases ts.len(),
{
    if ts.len() > 0 {
        lemma_types_data_len_nonneg(ts.drop_last());
    }
}

/// A parse result with already-parsed items stitched back on the front:
/// how a suspended parse relates to the parse of the whole input.
pub open spec fn prepend_parsed<T>(acc: Seq<T>, r: Result<Seq<T>, GcdError>) -> Result<
    Seq<T>,
    GcdError,
> {
    match r {
        Ok(rest) => Ok(acc + rest),
        Err(err) => Err(err),
    }
}

/// What a whole type record payload parses to, reading slot after slot until
/// the payload is exactly consumed.
pub open spec fn spec_parse_types(e: Endianness, data: Seq<u8>, pos: int) -> Result<
    Seq<DescriptorType>,
    GcdError,
>
    decreases data.len() - pos,
    when 0 <= pos <= data.len()
{
    if pos == data.len() {
        Ok(Seq::empty())
    } else {
        match DescriptorType::spec_from_raw(e, data, pos) {
            Err(err) => Err(err),
            Ok((next, t)) => match spec_parse_types(e, data, next) {
                Err(err) => Err(err),
                Ok(rest) => Ok(seq![t] + rest),
            },
        }
    }
}

/// The slot declarations of one descriptor, as parsed from a type record.
#[derive(Debug, PartialEq, Hash, Eq, Clone)]
pub enum DescriptorTypeRecord {
    Simple(Vec<DescriptorType>),
}

impl View for DescriptorTypeRecord {
    type V = Seq<DescriptorType>;

    open spec fn view(&self) -> Seq<DescriptorType> {
        match self {
            DescriptorTypeRecord::Simple(ts) => ts@,
        }
    }
}

impl DescriptorTypeRecord {
    /// What a type record payload validates to: the length must be even, and
    /// every slot must parse.
    pub open spec fn spec_new(e: Endianness, data: Seq<u8>) -> Result<
        Seq<DescriptorType>,
        GcdError,
    > {
        if data.len() % 2 != 0 {
            Err(GcdError::DescriptorTypeOddLength)
        } else {
            spec_parse_types(e, data, 0)
        }
    }

    /// Parse a type record payload into its slot declarations.
    pub fn new(e: Endianness, data: &Vec<u8>) -> (r: Result<DescriptorTypeRecord, GcdError>)
        requires
            data@.len() <= 0xffff,
        ensures
            match r {
                Ok(rec) => DescriptorTypeRecord::spec_new(e, data@) == Ok::<
                    Seq<DescriptorType>,
                    GcdError,
                >(rec@) && types_wf(rec@) && 2 * rec@.len() <= data@.len(),
                Err(err) => DescriptorTypeRecord::spec_new(e, data@) == Err::<
                    Seq<DescriptorType>,
                    GcdError,
                >(err),
            },
    {
        if data.len() % 2 != 0 {
            return Err(GcdError::DescriptorTypeOddLength);
        }
        let mut descriptors: Vec<DescriptorType> = Vec::new();
        let mut pos: usize = 0;
        while pos < data.len()
            invariant
                0 <= pos <= data@.len() <= 0xffff,
                data@.len() % 2 == 0,
                2 * descriptors@.len() <= pos,
                types_wf(descriptors@),
                spec_parse_types(e, data@, 0) == prepend_parsed(
                    descriptors@,
                    spec_parse_types(e, data@, pos as int),
                ),
            decreases data@.len() - pos,
        {
            let ghost pos0 = pos as int;
            let ghost acc0 = descriptors@;
            match DescriptorType::from_raw(e, data, pos) {
                Err(err) => {
                    proof {
                        assert(spec_parse_types(e, data@, pos as int) == Err::<
                            Seq<DescriptorType>,
                            GcdError,
                        >(err));
                    }
                    return Err(err);
                },
                Ok((next, t)) => {
                    descriptors.push(t);
                    pos = next;
                    proof {
                        match spec_parse_types(e, data@, pos as int) {
                            Ok(rest) => {
                                assert(acc0 + (seq![t] + rest) =~= descriptors@ + rest);
                            },
                            Err(_) => {},
                        }
                    }
                },
            }
        }
        proof {
            assert(spec_parse_types(e, data@, pos as int) == Ok::<Seq<DescriptorType>, GcdError>(
                Seq::empty(),
            ));
            assert(descriptors@ + Seq::<DescriptorType>::empty() =~= descriptors@);
        }
        Ok(DescriptorTypeRecord::Simple(descriptors))
    }

    /// The number of slots declared.
    pub fn len(&self) -> (r: usize)
        ensures
            r == self@.len(),
    {
        match self {
            DescriptorTypeRecord::Simple(descs) => descs.len(),
        }
    }

    /// The total data record length the slots declare.
    pub fn data_len(&self) -> (r: u16)
        requires
            self@.len() <= 0x8000,
            types_data_len(self@) <= 0xffff,
        ensures
            r == types_data_len(self@),
    {
        let total = self.data_len_total();
        total as u16
    }

    /// The total data record length the slots declare, unbounded.
    pub fn data_len_total(&self) -> (r: usize)
        requires
            self@.len() <= 0x8000,
        ensures
            r == types_data_len(self@),
    {
        match self {
            DescriptorTypeRecord::Simple(descs) => {
                let mut total: usize = 0;
                let mut i: usize = 0;
                while i < descs.len()
                    invariant
                        0 <= i <= descs@.len() <= 0x8000,
                        total == types_data_len(descs@.take(i as int)),
                        total <= 0xffff * i,
                    decreases descs@.len() - i,
                {
                    proof {
                        assert(descs@.take(i + 1).drop_last() =~= descs@.take(i as int));
                    }
                    total = total + descs[i].data_len() as usize;
                    i = i + 1;
                }
                proof {
                    assert(descs@.take(descs@.len() as int) =~= descs@);
                }
                total
            },
        }
    }

    /// The declared slots.
    pub fn iter(&self) -> (r: &Vec<DescriptorType>)
        ensures
            r@ == self@,
    {
        match self {
            DescriptorTypeRecord::Simple(descs) => descs,
        }
    }
}

impl Default for DescriptorTypeRecord {
    fn default() -> (r: Self)
        ensures
            r@ == Seq::<DescriptorType>::empty(),
    {
        DescriptorTypeRecord::Simple(Vec::new())
    }
}

/// What a whole data record payload parses to under a slot sequence, one
/// value per slot, in declaration order.
pub open spec fn spec_parse_data(
    e: Endianness,
    ts: Seq<DescriptorType>,
    data: Seq<u8>,
    pos: int,
) -> Result<Seq<DescriptorDataModel>, GcdError>
    decreases ts.len(),
{
    if ts.len() == 0 {
        Ok(Seq::empty())
    } else {
        match DescriptorData::spec_from_raw(e, ts[0], data, pos) {
            Err(err) => Err(err),
            Ok(m) => match spec_parse_data(
                e,
                ts.drop_first(),
                data,
                pos + ts[0].spec_data_len(),
            ) {
                Err(err) => Err(err),
                Ok(rest) => Ok(seq![m] + rest),
            },
        }
    }
}

/// A fully decoded descriptor: the slot values of one type/data record pair.
#[derive(Debug, PartialEq, Hash, Eq, Clone)]
pub enum DescriptorRecord {
    Simple(Vec<DescriptorData>),
}

impl View for DescriptorRecord {
    type V = Seq<DescriptorDataModel>;

    open spec fn view(&self) -> Seq<DescriptorDataModel> {
        match self {
            DescriptorRecord::Simple(ds) => ds@.map_values(|d: DescriptorData| d@),
        }
    }
}

/// True when every slot value of the sequence is well formed.
pub open spec fn data_models_wf(ms: Seq<DescriptorDataModel>) -> bool {
    forall|i: int| 0 <= i < ms.len() ==> (#[trigger] ms[i]).wf()
}

/// The slot declarations a value sequence answers to.
pub open spec fn data_models_types(ms: Seq<DescriptorDataModel>) -> Seq<DescriptorType> {
    ms.map_values(|m: DescriptorDataModel| m.descriptor_type())
}

/// The data record bytes of a value sequence, concatenated in order.
pub open spec fn data_models_bytes(e: Endianness, ms: Seq<DescriptorDataModel>) -> Seq<u8>
    decreases ms.len(),
{
    if ms.len() == 0 {
        Seq::empty()
    } else {
        data_models_bytes(e, ms.drop_last()) + ms.last().value_bytes(e)
    }
}

impl DescriptorRecord {
    /// What a data record payload validates to under a slot sequence: its
    /// length must be exactly the declared total, and then every slot value
    /// is read in order.
    pub open spec fn spec_new(e: Endianness, ts: Seq<DescriptorType>, data: Seq<u8>) -> Result<
        Seq<DescriptorDataModel>,
        GcdError,
    > {
        if types_data_len(ts) != data.len() {
            Err(GcdError::DescriptorDataLenMismatch)
        } else {
            spec_parse_data(e, ts, data, 0)
        }
    }

    /// Parse a data record payload under the previously parsed type record.
    pub fn new(e: Endianness, data: &Vec<u8>, desc_type: &DescriptorTypeRecord) -> (r: Result<
        DescriptorRecord,
        GcdError,
    >)
        requires
            desc_type@.len() <= 0x8000,
        ensures
            match r {
                Ok(rec) => DescriptorRecord::spec_new(e, desc_type@, data@) == Ok::<
                    Seq<DescriptorDataModel>,
                    GcdError,
                >(rec@) && data_models_wf(rec@) && rec@.len() == desc_type@.len(),
                Err(err) => DescriptorRecord::spec_new(e, desc_type@, data@) == Err::<
                    Seq<DescriptorDataModel>,
                    GcdError,
                >(err),
            },
    {
        let declared = desc_type.data_len_total();
        if declared != data.len() {
            return Err(GcdError::DescriptorDataLenMismatch);
        }
        let types = desc_type.iter();
        let mut values: Vec<DescriptorData> = Vec::new();
        let mut pos: usize = 0;
        let mut i: usize = 0;
        proof {
            lemma_parse_data_pos_bound(e, desc_type@, data@, 0);
            assert(desc_type@.skip(0) =~= desc_type@);
            assert(values@.map_values(|d: DescriptorData| d@) =~= Seq::<
                DescriptorDataModel,
            >::empty());
            match spec_parse_data(e, desc_type@, data@, 0) {
                Ok(rest) => {
                    assert(Seq::<DescriptorDataModel>::empty() + rest =~= rest);
                },
                Err(_) => {},
            }
        }
        while i < types.len()
            invariant
                0 <= i <= types@.len() <= 0x8000,
                types@ == desc_type@,
                values@.len() == i,
                0 <= pos <= data@.len() <= usize::MAX,
                pos + types_data_len(desc_type@.skip(i as int)) <= data@.len(),
                data_models_wf(values@.map_values(|d: DescriptorData| d@)),
                spec_parse_data(e, desc_type@, data@, 0) == prepend_parsed(
                    values@.map_values(|d: DescriptorData| d@),
                    spec_parse_data(e, desc_type@.skip(i as int), data@, pos as int),
                ),
            decreases types@.len() - i,
        {
            let ghost pos0 = pos as int;
            let ghost acc0 = values@.map_values(|d: DescriptorData| d@);
            let ghost ts_i = desc_type@.skip(i as int);
            proof {
                assert(ts_i[0] == desc_type@[i as int]);
                lemma_types_data_len_skip_first(ts_i);
                lemma_types_data_len_nonneg(ts_i.drop_first());
                assert(desc_type@.skip(i + 1) =~= ts_i.drop_first());
            }
            match DescriptorData::from_raw(e, &types[i], data, pos) {
                Err(err) => {
                    return Err(err);
                },
                Ok((next, d)) => {
                    values.push(d);
                    pos = next;
                    proof {
                        assert(values@.map_values(|dd: DescriptorData| dd@) =~= acc0.push(d@));
                        match spec_parse_data(e, ts_i.drop_first(), data@, pos as int) {
                            Ok(rest) => {
                                assert(acc0 + (seq![d@] + rest) =~= acc0.push(d@) + rest);
                            },
                            Err(_) => {},
                        }
                    }
                    i = i + 1;
                },
            }
        }
        proof {
            assert(desc_type@.skip(i as int) =~= Seq::<DescriptorType>::empty());
            assert(values@.map_values(|d: DescriptorData| d@) + Seq::<
                DescriptorDataModel,
            >::empty() =~= values@.map_values(|d: DescriptorData| d@));
        }
        Ok(DescriptorRecord::Simple(values))
    }

    /// The decoded slot values.
    pub fn iter(&self) -> (r: &Vec<DescriptorData>)
        ensures
            r@.map_values(|d: DescriptorData| d@) == self@,
    {
        match self {
            DescriptorRecord::Simple(descs) => descs,
        }
    }

    /// The payload length of the type record this descriptor encodes to.
    pub fn record_type_len(&self) -> (r: u16)
        requires
            self@.len() <= 0x4000,
            data_models_wf(self@),
            types_len(data_models_types(self@)) <= 0xffff,
        ensures
            r == types_len(data_models_types(self@)),
    {
        match self {
            DescriptorRecord::Simple(descs) => {
                let mut total: usize = 0;
                let mut i: usize = 0;
                while i < descs.len()
                    invariant
                        0 <= i <= descs@.len() <= 0x4000,
                        self@ == descs@.map_values(|d: DescriptorData| d@),
                        data_models_wf(self@),
                        total == types_len(data_models_types(self@).take(i as int)),
                        total <= 4 * i,
                    decreases descs@.len() - i,
                {
                    proof {
                        assert(data_models_types(self@).take(i + 1).drop_last() =~= data_models_types(
                            self@,
                        ).take(i as int));
                        assert(data_models_types(self@)[i as int] == descs@[i as int]@
                            .descriptor_type());
                    }
                    total = total + descs[i].descriptor_type().len() as usize;
                    i = i + 1;
                }
                proof {
                    assert(data_models_types(self@).take(descs@.len() as int) =~= data_models_types(
                        self@,
                    ));
                }
                total as u16
            },
        }
    }

    /// The payload length of the data record this descriptor encodes to.
    pub fn record_data_len(&self) -> (r: u16)
        requires
            self@.len() <= 0x8000,
            data_models_wf(self@),
            types_data_len(data_models_types(self@)) <= 0xffff,
        ensures
            r == types_data_len(data_models_types(self@)),
    {
        match self {
            DescriptorRecord::Simple(descs) => {
                let mut total: usize = 0;
                let mut i: usize = 0;
                proof {
                    lemma_types_data_len_nonneg(data_models_types(self@));
                }
                while i < descs.len()
                    invariant
                        0 <= i <= descs@.len() <= 0x8000,
                        self@ == descs@.map_values(|d: DescriptorData| d@),
                        data_models_wf(self@),
                        total == types_data_len(data_models_types(self@).take(i as int)),
                        total <= 0xffff * i,
                    decreases descs@.len() - i,
                {
                    proof {
                        assert(data_models_types(self@).take(i + 1).drop_last() =~= data_models_types(
                            self@,
                        ).take(i as int));
                        assert(data_models_types(self@)[i as int] == descs@[i as int]@
                            .descriptor_type());
                    }
                    total = total + descs[i].len() as usize;
                    i = i + 1;
                }
                proof {
                    assert(data_models_types(self@).take(descs@.len() as int) =~= data_models_types(
                        self@,
                    ));
                }
                total as u16
            },
        }
    }

    /// The full wire bytes of the type record this descriptor encodes to.
    pub open spec fn spec_type_record_bytes(&self, e: Endianness) -> Seq<u8> {
        RecordHeader::DescriptorType(types_len(data_models_types(self@)) as u16).spec_bytes(e)
            + types_bytes(e, data_models_types(self@))
    }

    /// The full wire bytes of the data record this descriptor encodes to.
    pub open spec fn spec_data_record_bytes(&self, e: Endianness) -> Seq<u8> {
        RecordHeader::DescriptorData(types_data_len(data_models_types(self@)) as u16).spec_bytes(e)
            + data_models_bytes(e, self@)
    }

    /// Append the type record (header and slot declarations) to `out`.
    pub fn record_type_to_raw(&self, e: Endianness, out: &mut Vec<u8>)
        requires
            self@.len() <= 0x4000,
            data_models_wf(self@),
            types_len(data_models_types(self@)) <= 0xffff,
        ensures
            final(out)@ == old(out)@ + self.spec_type_record_bytes(e),
    {
        let type_len = self.record_type_len();
        RecordHeader::DescriptorType(type_len).to_raw(e, out);
        let ghost mid = out@;
        match self {
            DescriptorRecord::Simple(descs) => {
                let mut i: usize = 0;
                proof {
                    assert(data_models_types(self@).take(0) =~= Seq::<DescriptorType>::empty());
                    assert(out@ =~= mid + types_bytes(e, data_models_types(self@).take(0)));
                }
                while i < descs.len()
                    invariant
                        0 <= i <= descs@.len(),
                        self@ == descs@.map_values(|d: DescriptorData| d@),
                        data_models_wf(self@),
                        out@ == mid + types_bytes(e, data_models_types(self@).take(i as int)),
                    decreases descs@.len() - i,
                {
                    proof {
                        assert(data_models_types(self@).take(i + 1).drop_last() =~= data_models_types(
                            self@,
                        ).take(i as int));
                        assert(data_models_types(self@)[i as int] == descs@[i as int]@
                            .descriptor_type());
                    }
                    let t = descs[i].descriptor_type();
                    t.to_raw(e, out);
                    proof {
                        assert(out@ =~= mid + types_bytes(
                            e,
                            data_models_types(self@).take(i + 1),
                        ));
                    }
                    i = i + 1;
                }
                proof {
                    assert(data_models_types(self@).take(descs@.len() as int) =~= data_models_types(
                        self@,
                    ));
                    assert(final(out)@ =~= old(out)@ + self.spec_type_record_bytes(e));
                }
            },
        }
    }

    /// Append the data record (header and slot values) to `out`.
    pub fn record_data_to_raw(&self, e: Endianness, out: &mut Vec<u8>)
        requires
            self@.len() <= 0x8000,
            data_models_wf(self@),
            types_data_len(data_models_types(self@)) <= 0xffff,
        ensures
            final(out)@ == old(out)@ + self.spec_data_record_bytes(e),
    {
        let data_len = self.record_data_len();
        RecordHeader::DescriptorData(data_len).to_raw(e, out);
        let ghost mid = out@;
        match self {
            DescriptorRecord::Simple(descs) => {
                let mut i: usize = 0;
                proof {
                    assert(self@.take(0) =~= Seq::<DescriptorDataModel>::empty());
                    assert(out@ =~= mid + data_models_bytes(e, self@.take(0)));
                }
                while i < descs.len()
                    invariant
                        0 <= i <= descs@.len(),
                        self@ == descs@.map_values(|d: DescriptorData| d@),
                        data_models_wf(self@),
                        out@ == mid + data_models_bytes(e, self@.take(i as int)),
                    decreases descs@.len() - i,
                {
                    proof {
                        assert(self@.take(i + 1).drop_last() =~= self@.take(i as int));
                        assert(self@[i as int] == descs@[i as int]@);
                    }
                    descs[i].to_raw(e, out);
                    proof {
                        assert(out@ =~= mid + data_models_bytes(e, self@.take(i + 1)));
                    }
                    i = i + 1;
                }
                proof {
                    assert(self@.take(descs@.len() as int) =~= self@);
                    assert(final(out)@ =~= old(out)@ + self.spec_data_record_bytes(e));
                }
            },
        }
    }
}

/// Sum of declared data lengths, split at the first slot.
proof fn lemma_types_data_len_skip_first(ts: Seq<DescriptorType>)
    requires
        ts.len() > 0,
    ensures
        types_data_len(ts) == ts[0].spec_data_len() + types_data_len(ts.drop_first()),
    decreases ts.len(),
{
    if ts.len() == 1 {
        assert(ts.drop_first() =~= Seq::<DescriptorType>::empty());
        assert(ts.drop_last() =~= Seq::<DescriptorType>::empty());
    } else {
        assert(ts.drop_last().drop_first() =~= ts.drop_first().drop_last());
        assert(ts.drop_first().last() == ts.last());
        assert(ts.drop_last()[0] == ts[0]);
        lemma_types_data_len_skip_first(ts.drop_last());
    }
}

/// When the remaining payload covers the declared total, every slot value
/// parses: reading never runs past the payload.
pub proof fn lemma_parse_data_pos_bound(
    e: Endianness,
    ts: Seq<DescriptorType>,
    data: Seq<u8>,
    pos: int,
)
    requires
        0 <= pos,
        pos + types_data_len(ts) <= data.len(),
    ensures
        spec_parse_data(e, ts, data, pos) is Ok,
    decreases ts.len(),
{
    if ts.len() > 0 {
        lemma_types_data_len_skip_first(ts);
        lemma_types_data_len_nonneg(ts.drop_first());
        lemma_parse_data_pos_bound(e, ts.drop_first(), data, pos + ts[0].spec_data_len());
    }
}

/// Concatenated type record bytes, split at the first slot.
proof fn lemma_types_bytes_skip_first(e: Endianness, ts: Seq<DescriptorType>)
    requires
        ts.len() > 0,
    ensures
        types_bytes(e, ts) == ts[0].spec_to_bytes(e) + types_bytes(e, ts.drop_first()),
    decreases ts.len(),
{
    if ts.len() == 1 {
        assert(ts.drop_first() =~= Seq::<DescriptorType>::empty());
        assert(ts.drop_last() =~= Seq::<DescriptorType>::empty());
        assert(types_bytes(e, ts) =~= ts[0].spec_to_bytes(e) + types_bytes(e, ts.drop_first()));
    } else {
        assert(ts.drop_last().drop_first() =~= ts.drop_first().drop_last());
        assert(ts.drop_first().last() == ts.last());
        assert(ts.drop_last()[0] == ts[0]);
        lemma_types_bytes_skip_first(e, ts.drop_last());
        assert(types_bytes(e, ts) =~= ts[0].spec_to_bytes(e) + types_bytes(e, ts.drop_first()));
    }
}

/// Concatenated data record bytes, split at the first value.
proof fn lemma_data_models_bytes_skip_first(e: Endianness, ms: Seq<DescriptorDataModel>)
    requires
        ms.len() > 0,
    ensures
        data_models_bytes(e, ms) == ms[0].value_bytes(e) + data_models_bytes(e, ms.drop_first()),
    decreases ms.len(),
{
    if ms.len() == 1 {
        assert(ms.drop_first() =~= Seq::<DescriptorDataModel>::empty());
        assert(ms.drop_last() =~= Seq::<DescriptorDataModel>::empty());
        assert(data_models_bytes(e, ms) =~= ms[0].value_bytes(e) + data_models_bytes(
            e,
            ms.drop_first(),
        ));
    } else {
        assert(ms.drop_last().drop_first() =~= ms.drop_first().drop_last());
        assert(ms.drop_first().last() == ms.last());
        assert(ms.drop_last()[0] == ms[0]);
        lemma_data_models_bytes_skip_first(e, ms.drop_last());
        assert(data_models_bytes(e, ms) =~= ms[0].value_bytes(e) + data_models_bytes(
            e,
            ms.drop_first(),
        ));
    }
}

/// Law (type record round trip): parsing the payload a well-formed slot
/// sequence encodes yields that sequence back, wherever the payload begins.
pub proof fn lemma_parse_types_of_bytes(e: Endianness, prefix: Seq<u8>, ts: Seq<DescriptorType>)
    requires
        types_wf(ts),
    ensures
        spec_parse_types(e, prefix + types_bytes(e, ts), prefix.len() as int) == Ok::<
            Seq<DescriptorType>,
            GcdError,
        >(ts),
    decreases ts.len(),
{
    let s = prefix + types_bytes(e, ts);
    if ts.len() == 0 {
        assert(s =~= prefix);
        assert(ts =~= Seq::<DescriptorType>::empty());
    } else {
        let t0 = ts[0];
        let rest = ts.drop_first();
        lemma_types_bytes_skip_first(e, ts);
        assert(s =~= prefix + t0.spec_to_bytes(e) + types_bytes(e, rest));
        descriptor_type::lemma_descriptor_type_round_trip(
            e,
            t0,
            prefix,
            types_bytes(e, rest),
        );
        wire::lemma_word_bytes_len(e, t0.spec_value() as int, 2);
        assert(t0.spec_to_bytes(e).len() == t0.spec_len()) by {
            if let DescriptorType::Other { lenght, .. } = t0 {
                wire::lemma_word_bytes_len(e, lenght as int, 2);
            }
        };
        lemma_parse_types_of_bytes(e, prefix + t0.spec_to_bytes(e), rest);
        assert(prefix + t0.spec_to_bytes(e) + types_bytes(e, rest) =~= s);
        assert(spec_parse_types(e, s, prefix.len() + t0.spec_len()) == Ok::<
            Seq<DescriptorType>,
            GcdError,
        >(rest));
        assert(seq![t0] + rest =~= ts);
    }
}

/// Law (data record round trip): parsing the payload a well-formed value
/// sequence encodes, under the slot declarations it answers to, yields that
/// value sequence back.
pub proof fn lemma_parse_data_of_bytes(e: Endianness, prefix: Seq<u8>, ms: Seq<DescriptorDataModel>)
    requires
        data_models_wf(ms),
    ensures
        spec_parse_data(
            e,
            data_models_types(ms),
            prefix + data_models_bytes(e, ms),
            prefix.len() as int,
        ) == Ok::<Seq<DescriptorDataModel>, GcdError>(ms),
    decreases ms.len(),
{
    let s = prefix + data_models_bytes(e, ms);
    let ts = data_models_types(ms);
    if ms.len() == 0 {
        assert(ms =~= Seq::<DescriptorDataModel>::empty());
        assert(ts.len() == 0);
    } else {
        let m0 = ms[0];
        let rest = ms.drop_first();
        lemma_data_models_bytes_skip_first(e, ms);
        assert(s =~= prefix + m0.value_bytes(e) + data_models_bytes(e, rest));
        descriptor_data::lemma_descriptor_data_round_trip(
            e,
            m0,
            prefix,
            data_models_bytes(e, rest),
        );
        lemma_value_bytes_len(e, m0);
        lemma_parse_data_of_bytes(e, prefix + m0.value_bytes(e), rest);
        assert(data_models_types(rest) =~= ts.drop_first());
        assert(prefix + m0.value_bytes(e) + data_models_bytes(e, rest) =~= s);
        assert(ts[0] == m0.descriptor_type());
        assert(spec_parse_data(
            e,
            ts.drop_first(),
            s,
            prefix.len() + m0.descriptor_type().spec_data_len(),
        ) == Ok::<Seq<DescriptorDataModel>, GcdError>(rest));
        assert(seq![m0] + rest =~= ms);
    }
}

/// A well-formed slot value occupies exactly as many bytes as its type
/// declaration says.
pub proof fn lemma_value_bytes_len(e: Endianness, m: DescriptorDataModel)
    requires
        m.wf(),
    ensures
        m.value_bytes(e).len() == m.descriptor_type().spec_data_len(),
{
    match m {
        DescriptorDataModel::U16 { data, .. } => {
            wire::lemma_word_bytes_len(e, data as int, 2);
        },
        DescriptorDataModel::U32 { data, .. } => {
            wire::lemma_word_bytes_len(e, data as int, 4);
        },
        DescriptorDataModel::U64 { data, .. } => {
            wire::lemma_word_bytes_len(e, data as int, 8);
        },
        _ => {},
    }
}

/// Law (data record byte round trip): whenever a data payload slice parses
/// under a slot sequence, the parsed values re-encode to exactly that slice,
/// and answer to exactly those slots.
pub proof fn lemma_parse_data_exact(
    e: Endianness,
    ts: Seq<DescriptorType>,
    data: Seq<u8>,
    pos: int,
    ms: Seq<DescriptorDataModel>,
)
    requires
        0 <= pos <= data.len(),
        spec_parse_data(e, ts, data, pos) == Ok::<Seq<DescriptorDataModel>, GcdError>(ms),
    ensures
        data_models_types(ms) == ts,
        pos + types_data_len(ts) <= data.len(),
        data_models_bytes(e, ms) == data.subrange(pos, pos + types_data_len(ts)),
    decreases ts.len(),
{
    if ts.len() == 0 {
        assert(data_models_types(ms) =~= ts);
        assert(data_models_bytes(e, ms) =~= data.subrange(pos, pos));
    } else {
        let m0 = match DescriptorData::spec_from_raw(e, ts[0], data, pos) {
            Ok(m0) => m0,
            Err(_) => arbitrary(),
        };
        let dl0 = ts[0].spec_data_len() as int;
        let rest = match spec_parse_data(e, ts.drop_first(), data, pos + dl0) {
            Ok(rest) => rest,
            Err(_) => arbitrary(),
        };
        assert(ms == seq![m0] + rest);
        lemma_parse_data_exact(e, ts.drop_first(), data, pos + dl0, rest);
        lemma_types_data_len_skip_first(ts);
        assert(ms.drop_first() =~= rest);
        assert(ms[0] == m0);
        assert(m0.descriptor_type() == ts[0] && m0.value_bytes(e) == data.subrange(
            pos,
            pos + dl0,
        )) by {
            match ts[0] {
                DescriptorType::U8 { id } => {
                    assert(data.subrange(pos, pos + 1) =~= seq![data[pos]]);
                },
                DescriptorType::U16 { id } => {
                    reveal_with_fuel(wire::pow256, 3);
                    wire::lemma_word_value_bound(e, data.subrange(pos, pos + 2));
                    wire::lemma_word_bytes_of_value(e, data.subrange(pos, pos + 2));
                },
                DescriptorType::U32 { id } => {
                    reveal_with_fuel(wire::pow256, 5);
                    wire::lemma_word_value_bound(e, data.subrange(pos, pos + 4));
                    wire::lemma_word_bytes_of_value(e, data.subrange(pos, pos + 4));
                },
                DescriptorType::U64 { id } => {
                    reveal_with_fuel(wire::pow256, 9);
                    wire::lemma_word_value_bound(e, data.subrange(pos, pos + 8));
                    wire::lemma_word_bytes_of_value(e, data.subrange(pos, pos + 8));
                },
                DescriptorType::Other { id, lenght } => {},
                DescriptorType::End => {
                    assert(data.subrange(pos, pos) =~= Seq::<u8>::empty());
                },
            }
        };
        assert forall|i: int| 0 <= i < ms.len() implies data_models_types(ms)[i] == ts[i] by {
            if i == 0 {
                assert(data_models_types(ms)[0] == m0.descriptor_type());
            } else {
                assert(ms[i] == rest[i - 1]);
                assert(data_models_types(rest)[i - 1] == ts.drop_first()[i - 1]);
            }
        };
        assert(data_models_types(ms) =~= ts);
        lemma_types_data_len_nonneg(ts.drop_first());
        lemma_data_models_bytes_skip_first(e, ms);
        assert(data_models_bytes(e, rest) == data.subrange(
            pos + dl0,
            pos + dl0 + types_data_len(ts.drop_first()),
        ));
        assert(data_models_bytes(e, ms) =~= data.subrange(pos, pos + types_data_len(ts)));
    }
}

/// Law (type record byte round trip): the encoding of a well-formed slot
/// sequence parses back to that sequence, so re-encoding the parse result
/// reproduces the payload. A payload is in this round trip exactly when it
/// is such an encoding; a list-end slot stored with id bits other than 3
/// parses, but re-encodes to the canonical value.
pub proof fn lemma_types_bytes_reencode(e: Endianness, ts: Seq<DescriptorType>)
    requires
        types_wf(ts),
    ensures
        ({
            let parsed = spec_parse_types(e, types_bytes(e, ts), 0);
            parsed == Ok::<Seq<DescriptorType>, GcdError>(ts) && types_bytes(
                e,
                match parsed {
                    Ok(ts2) => ts2,
                    Err(_) => arbitrary(),
                },
            ) == types_bytes(e, ts)
        }),
{
    lemma_parse_types_of_bytes(e, Seq::empty(), ts);
    assert(Seq::<u8>::empty() + types_bytes(e, ts) =~= types_bytes(e, ts));
}

/// A type record payload always has even length: every slot occupies two
/// or four bytes.
pub proof fn lemma_types_len_even(ts: Seq<DescriptorType>)
    ensures
        0 <= types_len(ts),
        types_len(ts) % 2 == 0,
    decreases ts.len(),
{
    if ts.len() > 0 {
        lemma_types_len_even(ts.drop_last());
    }
}

/// The encoded type record payload is as long as the slots declare.
pub proof fn lemma_types_bytes_len(e: Endianness, ts: Seq<DescriptorType>)
    ensures
        types_bytes(e, ts).len() == types_len(ts),
    decreases ts.len(),
{
    if ts.len() > 0 {
        lemma_types_bytes_len(e, ts.drop_last());
        let t = ts.last();
        wire::lemma_word_bytes_len(e, t.spec_value() as int, 2);
        if let DescriptorType::Other { lenght, .. } = t {
            wire::lemma_word_bytes_len(e, lenght as int, 2);
        }
    }
}

/// The encoded data record payload is as long as the slots declare.
pub proof fn lemma_data_models_bytes_len(e: Endianness, ms: Seq<DescriptorDataModel>)
    requires
        data_models_wf(ms),
    ensures
        data_models_bytes(e, ms).len() == types_data_len(data_models_types(ms)),
    decreases ms.len(),
{
    if ms.len() > 0 {
        assert(data_models_wf(ms.drop_last())) by {
            assert(forall|i: int|
                0 <= i < ms.len() - 1 ==> ms.drop_last()[i] == #[trigger] ms[i]);
        };
        lemma_data_models_bytes_len(e, ms.drop_last());
        assert(data_models_types(ms.drop_last()) =~= data_models_types(ms).drop_last());
        assert(data_models_types(ms).last() == ms.last().descriptor_type());
        lemma_value_bytes_len(e, ms.last());
    }
}

/// Law (descriptor pairing): under a slot sequence `ts`, a data payload
/// validates exactly when its length is the sum of the lengths `ts`
/// declares; any shorter or longer payload is rejected.
pub proof fn lemma_descriptor_pairing(e: Endianness, ts: Seq<DescriptorType>, data: Seq<u8>)
    ensures
        DescriptorRecord::spec_new(e, ts, data) is Ok <==> data.len() == types_data_len(ts),
{
    if data.len() == types_data_len(ts) {
        lemma_parse_data_pos_bound(e, ts, data, 0);
    }
}

} // verus!
