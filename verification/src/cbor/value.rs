//! Data items as values, and what they are as mathematical models.
use vstd::prelude::*;
use vstd::utf8::encode_utf8;

verus! {

/// A data item.
#[derive(Debug, PartialEq, Eq)]
pub enum CborValue {
    /// An unsigned integer.
    Unsigned(u64),
    /// The negative integer `-1 - n`.
    Negative(u64),
    /// A byte string.
    Bytes(Vec<u8>),
    /// A text string.
    Text(String),
    /// A sequence of items.
    Array(Vec<CborValue>),
    /// A sequence of key and value pairs, in the order of the encoding.
    Dict(Vec<(CborValue, CborValue)>),
    /// A simple value: `20` is false, `21` true, `22` null, `23` undefined.
    Simple(u8),
    /// The bits of a half-precision number.
    Float16(u16),
    /// The bits of a single-precision number.
    Float32(u32),
    /// The bits of a double-precision number.
    Float64(u64),
}

/// The mathematical model of a data item.
#[verifier::ext_equal]
pub enum CborModel {
    Unsigned(u64),
    Negative(u64),
    Bytes(Seq<u8>),
    Text(Seq<char>),
    Array(Seq<CborModel>),
    Dict(Seq<(CborModel, CborModel)>),
    Simple(u8),
    Float16(u16),
    Float32(u32),
    Float64(u64),
}

pub const SIMPLE_FALSE: u8 = 20;

pub const SIMPLE_TRUE: u8 = 21;

pub const SIMPLE_NULL: u8 = 22;

impl CborValue {
    /// The model of this item.
    pub open spec fn model(&self) -> CborModel
        decreases self,
    {
        match self {
            CborValue::Unsigned(n) => CborModel::Unsigned(*n),
            CborValue::Negative(n) => CborModel::Negative(*n),
            CborValue::Bytes(b) => CborModel::Bytes(b@),
            CborValue::Text(s) => CborModel::Text(s@),
            CborValue::Array(items) => CborModel::Array(
                Seq::new(
                    items@.len(),
                    |i: int|
                        if 0 <= i < items@.len() {
                            items@[i].model()
                        } else {
                            CborModel::Simple(0)
                        },
                ),
            ),
            CborValue::Dict(entries) => CborModel::Dict(
                Seq::new(
                    entries@.len(),
                    |i: int|
                        if 0 <= i < entries@.len() {
                            (entries@[i].0.model(), entries@[i].1.model())
                        } else {
                            (CborModel::Simple(0), CborModel::Simple(0))
                        },
                ),
            ),
            CborValue::Simple(v) => CborModel::Simple(*v),
            CborValue::Float16(b) => CborModel::Float16(*b),
            CborValue::Float32(b) => CborModel::Float32(*b),
            CborValue::Float64(b) => CborModel::Float64(*b),
        }
    }
}

impl Clone for CborValue {
    fn clone(&self) -> (copy: Self)
        ensures
            copy@ == self@,
        decreases self,
    {
        match self {
            CborValue::Unsigned(n) => CborValue::Unsigned(*n),
            CborValue::Negative(n) => CborValue::Negative(*n),
            CborValue::Bytes(b) => CborValue::Bytes(vstd::slice::slice_to_vec(b.as_slice())),
            CborValue::Text(s) => CborValue::Text(s.clone()),
            CborValue::Array(items) => {
                let mut copies: Vec<CborValue> = Vec::new();
                let mut i: usize = 0;
                while i < items.len()
                    invariant
                        i <= items.len(),
                        copies.len() == i,
                        self == CborValue::Array(*items),
                        forall|j: int| 0 <= j < i ==> (#[trigger] copies[j])@ == items[j]@,
                    decreases items.len() - i,
                {
                    assert(self->Array_0 == *items);
                    assert(decreases_to!(self => self->Array_0));
                    assert(decreases_to!(*items => items[i as int]));
                    let copy = items[i].clone();
                    copies.push(copy);
                    i = i + 1;
                }
                let copy = CborValue::Array(copies);
                assert(copy@->Array_0 =~= self@->Array_0);
                copy
            },
            CborValue::Dict(entries) => {
                let mut copies: Vec<(CborValue, CborValue)> = Vec::new();
                let mut i: usize = 0;
                while i < entries.len()
                    invariant
                        i <= entries.len(),
                        copies.len() == i,
                        self == CborValue::Dict(*entries),
                        forall|j: int|
                            0 <= j < i ==> (#[trigger] copies[j]).0@ == entries[j].0@ && copies[j].1@
                                == entries[j].1@,
                    decreases entries.len() - i,
                {
                    assert(self->Dict_0 == *entries);
                    assert(decreases_to!(self => self->Dict_0));
                    assert(decreases_to!(*entries => entries[i as int]));
                    assert(decreases_to!(entries[i as int] => entries[i as int].0));
                    let key = entries[i].0.clone();
                    let value = entries[i].1.clone();
                    copies.push((key, value));
                    i = i + 1;
                }
                let copy = CborValue::Dict(copies);
                assert(copy@->Dict_0 =~= self@->Dict_0);
                copy
            },
            CborValue::Simple(v) => CborValue::Simple(*v),
            CborValue::Float16(b) => CborValue::Float16(*b),
            CborValue::Float32(b) => CborValue::Float32(*b),
            CborValue::Float64(b) => CborValue::Float64(*b),
        }
    }
}

impl View for CborValue {
    type V = CborModel;

    open spec fn view(&self) -> CborModel {
        self.model()
    }
}

/// The models of a sequence of items.
pub open spec fn models(items: Seq<CborValue>) -> Seq<CborModel> {
    Seq::new(items.len(), |i: int| items[i].model())
}

/// The models of a sequence of pairs.
pub open spec fn pair_models(entries: Seq<(CborValue, CborValue)>) -> Seq<(CborModel, CborModel)> {
    Seq::new(entries.len(), |i: int| (entries[i].0.model(), entries[i].1.model()))
}

pub proof fn lemma_array_model(items: Vec<CborValue>)
    ensures
        CborValue::Array(items).model() == CborModel::Array(models(items@)),
{
    assert(CborValue::Array(items).model()->Array_0 =~= models(items@));
}

pub proof fn lemma_dict_model(entries: Vec<(CborValue, CborValue)>)
    ensures
        CborValue::Dict(entries).model() == CborModel::Dict(pair_models(entries@)),
{
    assert(CborValue::Dict(entries).model()->Dict_0 =~= pair_models(entries@));
}

/// The model of a boolean.
pub open spec fn boolean(b: bool) -> CborModel {
    CborModel::Simple(if b { SIMPLE_TRUE } else { SIMPLE_FALSE })
}

/// The model of the integer `i`.
pub open spec fn integer(i: int) -> CborModel
    recommends
        -0x1_0000_0000_0000_0000 <= i < 0x1_0000_0000_0000_0000,
{
    if i >= 0 {
        CborModel::Unsigned(i as u64)
    } else {
        CborModel::Negative((-1 - i) as u64)
    }
}

/// Whether `m` can be written out and read back: every length fits the
/// argument of a head, no simple value lies in the reserved range, and
/// arrays and maps are nested at most `depth` deep.
pub open spec fn well_formed(m: CborModel, depth: nat) -> bool
    decreases m,
{
    match m {
        CborModel::Bytes(b) => b.len() <= u64::MAX,
        CborModel::Text(s) => encode_utf8(s).len() <= u64::MAX,
        CborModel::Array(items) => depth > 0 && items.len() <= u64::MAX && forall|i: int|
            0 <= i < items.len() ==> well_formed(#[trigger] items[i], (depth - 1) as nat),
        CborModel::Dict(entries) => depth > 0 && entries.len() <= u64::MAX && forall|i: int|
            0 <= i < entries.len() ==> well_formed((#[trigger] entries[i]).0, (depth - 1) as nat)
                && well_formed(entries[i].1, (depth - 1) as nat),
        CborModel::Simple(v) => v < 24 || v >= 32,
        _ => true,
    }
}

/// The encoding of the items of `items` from index `from` on, one after
/// another.
pub open spec fn encode_items(items: Seq<CborModel>, from: int) -> Seq<u8>
    decreases items, items.len() - from,
{
    if 0 <= from < items.len() {
        encode_value(items[from]) + encode_items(items, from + 1)
    } else {
        Seq::empty()
    }
}

/// The encoding of the pairs of `entries` from index `from` on: each key,
/// then its value.
pub open spec fn encode_entries(entries: Seq<(CborModel, CborModel)>, from: int) -> Seq<u8>
    decreases entries, entries.len() - from,
{
    if 0 <= from < entries.len() {
        encode_value(entries[from].0) + encode_value(entries[from].1) + encode_entries(
            entries,
            from + 1,
        )
    } else {
        Seq::empty()
    }
}

/// The encoding of a data item: every head in its shortest form, every
/// length definite.
pub open spec fn encode_value(m: CborModel) -> Seq<u8>
    decreases m,
{
    match m {
        CborModel::Unsigned(n) => crate::cbor::head::encode_head(0, n),
        CborModel::Negative(n) => crate::cbor::head::encode_head(1, n),
        CborModel::Bytes(b) => crate::cbor::head::encode_head(2, b.len() as u64) + b,
        CborModel::Text(s) => crate::cbor::head::encode_head(3, encode_utf8(s).len() as u64)
            + encode_utf8(s),
        CborModel::Array(items) => crate::cbor::head::encode_head(4, items.len() as u64)
            + encode_items(items, 0),
        CborModel::Dict(entries) => crate::cbor::head::encode_head(5, entries.len() as u64)
            + encode_entries(entries, 0),
        CborModel::Simple(v) => if v < 24 {
            seq![crate::cbor::head::initial_byte(7, v)]
        } else {
            crate::cbor::head::encode_head_wide(7, 1, v as u64)
        },
        CborModel::Float16(b) => crate::cbor::head::encode_head_wide(7, 2, b as u64),
        CborModel::Float32(b) => crate::cbor::head::encode_head_wide(7, 4, b as u64),
        CborModel::Float64(b) => crate::cbor::head::encode_head_wide(7, 8, b),
    }
}

} // verus!
