//! Maps read by key, and items read and made by type.
use crate::cbor::decode::CodecError;
use crate::cbor::value::{
    boolean, integer, lemma_dict_model, pair_models, CborModel, CborValue, SIMPLE_FALSE,
    SIMPLE_TRUE,
};
use vstd::prelude::*;
use vstd::slice::slice_to_vec;

verus! {

/// The entry of a map: a text key and its value.
pub open spec fn entry(key: Seq<char>, value: CborModel) -> (CborModel, CborModel) {
    (CborModel::Text(key), value)
}

/// The entry of `key` and `value` where `present`, and no entry where not: a
/// field that is left out of a payload.
pub open spec fn optional(present: bool, key: Seq<char>, value: CborModel) -> Seq<
    (CborModel, CborModel),
> {
    if present {
        seq![entry(key, value)]
    } else {
        Seq::empty()
    }
}

/// The greatest unsigned integer that an item holds.
pub open spec fn unsigned_max() -> int {
    0xffff_ffff_ffff_ffff
}

/// The value of the first entry from index `from` on whose key is the text
/// `key`.
pub open spec fn lookup_from(entries: Seq<(CborModel, CborModel)>, key: Seq<char>, from: int)
    -> Option<CborModel>
    decreases entries.len() - from,
{
    if 0 <= from < entries.len() {
        if entries[from].0 == CborModel::Text(key) {
            Some(entries[from].1)
        } else {
            lookup_from(entries, key, from + 1)
        }
    } else {
        None
    }
}

/// The value of the first entry whose key is the text `key`.
pub open spec fn lookup(entries: Seq<(CborModel, CborModel)>, key: Seq<char>) -> Option<
    CborModel,
> {
    lookup_from(entries, key, 0)
}

/// The entries of `m`, where it is a map.
pub open spec fn entries_of(m: CborModel) -> Option<Seq<(CborModel, CborModel)>> {
    match m {
        CborModel::Dict(entries) => Some(entries),
        _ => None,
    }
}

/// The integer that `m` is, where it is one.
pub open spec fn as_integer(m: CborModel) -> Option<int> {
    match m {
        CborModel::Unsigned(n) => Some(n as int),
        CborModel::Negative(n) => Some(-1 - n),
        _ => None,
    }
}

/// The integer under `key`, where it lies between `min` and `max`: nothing
/// where the key is absent, an error where its value is anything else.
pub open spec fn integer_at(
    entries: Seq<(CborModel, CborModel)>,
    key: Seq<char>,
    min: int,
    max: int,
) -> Result<Option<int>, CodecError> {
    match lookup(entries, key) {
        None => Ok(None),
        Some(m) => match as_integer(m) {
            Some(i) => if min <= i <= max {
                Ok(Some(i))
            } else {
                Err(CodecError::Mismatch)
            },
            None => Err(CodecError::Mismatch),
        },
    }
}

/// The text under `key`: nothing where the key is absent, an error where
/// its value is no text.
pub open spec fn text_at(entries: Seq<(CborModel, CborModel)>, key: Seq<char>) -> Result<
    Option<Seq<char>>,
    CodecError,
> {
    match lookup(entries, key) {
        None => Ok(None),
        Some(CborModel::Text(s)) => Ok(Some(s)),
        Some(_) => Err(CodecError::Mismatch),
    }
}

/// The byte string under `key`: nothing where the key is absent, an error
/// where its value is no byte string.
pub open spec fn bytes_at(entries: Seq<(CborModel, CborModel)>, key: Seq<char>) -> Result<
    Option<Seq<u8>>,
    CodecError,
> {
    match lookup(entries, key) {
        None => Ok(None),
        Some(CborModel::Bytes(b)) => Ok(Some(b)),
        Some(_) => Err(CodecError::Mismatch),
    }
}

/// The boolean under `key`: nothing where the key is absent, an error where
/// its value is no boolean.
pub open spec fn bool_at(entries: Seq<(CborModel, CborModel)>, key: Seq<char>) -> Result<
    Option<bool>,
    CodecError,
> {
    match lookup(entries, key) {
        None => Ok(None),
        Some(CborModel::Simple(v)) => if v == SIMPLE_TRUE {
            Ok(Some(true))
        } else if v == SIMPLE_FALSE {
            Ok(Some(false))
        } else {
            Err(CodecError::Mismatch)
        },
        Some(_) => Err(CodecError::Mismatch),
    }
}

/// The records of a map from names to records: every key has to be a text
/// and every value has to be a record as `parse_one` reads it. The records
/// keep the order of the map.
pub open spec fn named_records<R>(
    entries: Seq<(CborModel, CborModel)>,
    parse_one: spec_fn(CborModel) -> Result<R, CodecError>,
) -> Result<Seq<(Seq<char>, R)>, CodecError> {
    if forall|i: int|
        0 <= i < entries.len() ==> (#[trigger] entries[i]).0 is Text && parse_one(entries[i].1)
            is Ok {
        Ok(
            Seq::new(
                entries.len(),
                |i: int| (entries[i].0->Text_0, parse_one(entries[i].1)->Ok_0),
            ),
        )
    } else {
        Err(CodecError::Mismatch)
    }
}

/// The entries of a map from names to records, each record written out by
/// `payload_one`.
pub open spec fn record_entries<R>(
    records: Seq<(Seq<char>, R)>,
    payload_one: spec_fn(R) -> CborModel,
) -> Seq<(CborModel, CborModel)> {
    Seq::new(records.len(), |i: int| (CborModel::Text(records[i].0), payload_one(records[i].1)))
}

/// The names and records of a sequence of pairs.
pub open spec fn named<R>(pairs: Seq<(String, R)>) -> Seq<(Seq<char>, R)> {
    Seq::new(pairs.len(), |i: int| (pairs[i].0@, pairs[i].1))
}

/// What was found, where something had to be.
pub open spec fn required<T>(found: Result<Option<T>, CodecError>) -> Result<T, CodecError> {
    match found {
        Ok(Some(v)) => Ok(v),
        Ok(None) => Err(CodecError::Mismatch),
        Err(e) => Err(e),
    }
}

/// The payload of a command that takes no arguments: the empty map.
pub open spec fn empty_payload() -> CborModel {
    CborModel::Dict(Seq::empty())
}

/// The payload of a command that takes no arguments.
pub fn empty_value() -> (v: CborValue)
    ensures
        v@ == empty_payload(),
{
    let es: Vec<(CborValue, CborValue)> = Vec::new();
    assert(pair_models(es@) =~= Seq::empty());
    dict_value(es)
}

/// A text item with the characters of `s`.
pub fn text_value(s: &str) -> (v: CborValue)
    ensures
        v@ == CborModel::Text(s@),
{
    CborValue::Text(s.to_owned())
}

/// A byte string item with the bytes of `b`.
pub fn bytes_value(b: &[u8]) -> (v: CborValue)
    ensures
        v@ == CborModel::Bytes(b@),
{
    CborValue::Bytes(slice_to_vec(b))
}

/// A boolean item.
pub fn bool_value(b: bool) -> (v: CborValue)
    ensures
        v@ == boolean(b),
{
    if b {
        CborValue::Simple(SIMPLE_TRUE)
    } else {
        CborValue::Simple(SIMPLE_FALSE)
    }
}

/// An integer item.
pub fn integer_value(i: i64) -> (v: CborValue)
    ensures
        v@ == integer(i as int),
{
    if i >= 0 {
        CborValue::Unsigned(i as u64)
    } else {
        CborValue::Negative((-1 - i) as u64)
    }
}

/// Appends the entry of text key `key` and `value` to the entries of a map.
pub fn put(entries: &mut Vec<(CborValue, CborValue)>, key: &str, value: CborValue)
    ensures
        pair_models(final(entries)@) == pair_models(old(entries)@).push(entry(key@, value@)),
{
    let key_item = text_value(key);
    entries.push((key_item, value));
    assert(pair_models(final(entries)@) =~= pair_models(old(entries)@).push(entry(key@, value@)));
}

/// The map with the given entries.
pub fn dict_value(entries: Vec<(CborValue, CborValue)>) -> (v: CborValue)
    ensures
        v@ == CborModel::Dict(pair_models(entries@)),
{
    proof {
        lemma_dict_model(entries);
    }
    CborValue::Dict(entries)
}

/// The entries of `value`, where it is a map.
pub fn entries<'a>(value: &'a CborValue) -> (r: Result<
    &'a Vec<(CborValue, CborValue)>,
    CodecError,
>)
    ensures
        match entries_of(value@) {
            Some(ms) => r matches Ok(es) && pair_models(es@) == ms,
            None => r == Err::<&Vec<(CborValue, CborValue)>, CodecError>(CodecError::Mismatch),
        },
{
    match value {
        CborValue::Dict(es) => {
            proof {
                lemma_dict_model(*es);
            }
            Ok(es)
        },
        _ => Err(CodecError::Mismatch),
    }
}

/// Finds the value of the first entry whose key is the text `key`.
pub fn find<'a>(entries: &'a Vec<(CborValue, CborValue)>, key: &str) -> (r: Option<&'a CborValue>)
    ensures
        match lookup(pair_models(entries@), key@) {
            Some(m) => r matches Some(v) && v@ == m,
            None => r is None,
        },
{
    let wanted = key.to_owned();
    let ghost ms = pair_models(entries@);
    let mut i: usize = 0;
    while i < entries.len()
        invariant
            i <= entries.len(),
            wanted@ == key@,
            ms == pair_models(entries@),
            lookup(ms, key@) == lookup_from(ms, key@, i as int),
        decreases entries.len() - i,
    {
        let found = match &entries[i].0 {
            CborValue::Text(s) => *s == wanted,
            _ => false,
        };
        assert(found == (ms[i as int].0 == CborModel::Text(key@)));
        if found {
            return Some(&entries[i].1);
        }
        i = i + 1;
    }
    None
}

/// Reads the integer under `key`, where it lies between `min` and `max`.
pub fn find_integer(entries: &Vec<(CborValue, CborValue)>, key: &str, min: i128, max: i128) -> (r:
    Result<Option<i128>, CodecError>)
    ensures
        match integer_at(pair_models(entries@), key@, min as int, max as int) {
            Ok(Some(i)) => r matches Ok(Some(v)) && v == i,
            Ok(None) => r matches Ok(None),
            Err(e) => r matches Err(f) && f == e,
        },
{
    match find(entries, key) {
        None => Ok(None),
        Some(value) => {
            let i: i128 = match value {
                CborValue::Unsigned(n) => *n as i128,
                CborValue::Negative(n) => -1 - (*n as i128),
                _ => {
                    return Err(CodecError::Mismatch);
                },
            };
            if min <= i && i <= max {
                Ok(Some(i))
            } else {
                Err(CodecError::Mismatch)
            }
        },
    }
}

/// Reads the text under `key`.
pub fn find_text(entries: &Vec<(CborValue, CborValue)>, key: &str) -> (r: Result<
    Option<String>,
    CodecError,
>)
    ensures
        match text_at(pair_models(entries@), key@) {
            Ok(Some(t)) => r matches Ok(Some(s)) && s@ == t,
            Ok(None) => r matches Ok(None),
            Err(e) => r matches Err(f) && f == e,
        },
{
    match find(entries, key) {
        None => Ok(None),
        Some(value) => match value {
            CborValue::Text(s) => Ok(Some(s.clone())),
            _ => Err(CodecError::Mismatch),
        },
    }
}

/// Reads the byte string under `key`.
pub fn find_bytes(entries: &Vec<(CborValue, CborValue)>, key: &str) -> (r: Result<
    Option<Vec<u8>>,
    CodecError,
>)
    ensures
        match bytes_at(pair_models(entries@), key@) {
            Ok(Some(t)) => r matches Ok(Some(b)) && b@ == t,
            Ok(None) => r matches Ok(None),
            Err(e) => r matches Err(f) && f == e,
        },
{
    match find(entries, key) {
        None => Ok(None),
        Some(value) => match value {
            CborValue::Bytes(b) => Ok(Some(slice_to_vec(b.as_slice()))),
            _ => Err(CodecError::Mismatch),
        },
    }
}

/// Reads the boolean under `key`.
pub fn find_bool(entries: &Vec<(CborValue, CborValue)>, key: &str) -> (r: Result<
    Option<bool>,
    CodecError,
>)
    ensures
        r == bool_at(pair_models(entries@), key@),
{
    match find(entries, key) {
        None => Ok(None),
        Some(value) => match value {
            CborValue::Simple(v) => if *v == SIMPLE_TRUE {
                Ok(Some(true))
            } else if *v == SIMPLE_FALSE {
                Ok(Some(false))
            } else {
                Err(CodecError::Mismatch)
            },
            _ => Err(CodecError::Mismatch),
        },
    }
}

} // verus!
