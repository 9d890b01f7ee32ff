//! What writing and reading have to do with each other.
use crate::cbor::decode::{
    decode_item, decode_list, decode_pairs, decode_plain, decode_value, lemma_untagged,
    NESTING_LIMIT,
};
use crate::cbor::head::decode_head;
use crate::cbor::head::{
    encode_head, lemma_decode_head, lemma_decode_head_wide, lemma_encode_head_len,
    lemma_encode_head_wide_len, lemma_pow256_values,
};
use crate::cbor::access::{entry, optional};
use crate::cbor::value::{encode_entries, encode_items, encode_value, well_formed, CborModel};
use vstd::prelude::*;
use vstd::utf8::{encode_scalar, encode_utf8, encode_utf8_decode_utf8, encode_utf8_valid_utf8};

verus! {

/// The encoding of an item has at least one byte.
pub proof fn lemma_encoding_not_empty(m: CborModel)
    ensures
        encode_value(m).len() >= 1,
{
    match m {
        CborModel::Unsigned(n) => lemma_encode_head_len(0, n),
        CborModel::Negative(n) => lemma_encode_head_len(1, n),
        CborModel::Bytes(b) => lemma_encode_head_len(2, b.len() as u64),
        CborModel::Text(s) => lemma_encode_head_len(3, encode_utf8(s).len() as u64),
        CborModel::Array(items) => lemma_encode_head_len(4, items.len() as u64),
        CborModel::Dict(entries) => lemma_encode_head_len(5, entries.len() as u64),
        CborModel::Simple(v) => lemma_encode_head_wide_len(7, 1, v as u64),
        CborModel::Float16(b) => lemma_encode_head_wide_len(7, 2, b as u64),
        CborModel::Float32(b) => lemma_encode_head_wide_len(7, 4, b as u64),
        CborModel::Float64(b) => lemma_encode_head_wide_len(7, 8, b),
    }
}

/// Whether `bytes` start with an item that has no tag in front of it.
pub open spec fn untagged(bytes: Seq<u8>) -> bool {
    decode_head(bytes) matches Some(head) ==> head.major != 6
}

proof fn lemma_decode_integer_of_encoding(m: CborModel, depth: nat, rest: Seq<u8>)
    requires
        m is Unsigned || m is Negative,
    ensures
        untagged(encode_value(m) + rest),
        decode_plain(encode_value(m) + rest, depth) == Some((m, encode_value(m).len() as int)),
{
    match m {
        CborModel::Unsigned(n) => {
            lemma_decode_head(0, n, rest);
            lemma_encode_head_len(0, n);
        },
        CborModel::Negative(n) => {
            lemma_decode_head(1, n, rest);
            lemma_encode_head_len(1, n);
        },
        _ => {},
    }
}

proof fn lemma_decode_simple_of_encoding(m: CborModel, depth: nat, rest: Seq<u8>)
    requires
        m matches CborModel::Simple(v) && (v < 24 || v >= 32),
    ensures
        untagged(encode_value(m) + rest),
        decode_plain(encode_value(m) + rest, depth) == Some((m, encode_value(m).len() as int)),
{
    let bytes = encode_value(m) + rest;
    let v = m->Simple_0;
    if v < 24 {
        assert(bytes[0] == (7 * 32 + v) as u8);
    } else {
        lemma_pow256_values();
        lemma_decode_head_wide(7, 1, v as u64, rest);
        lemma_encode_head_wide_len(7, 1, v as u64);
    }
}

proof fn lemma_decode_float_of_encoding(m: CborModel, depth: nat, rest: Seq<u8>)
    requires
        m is Float16 || m is Float32 || m is Float64,
    ensures
        untagged(encode_value(m) + rest),
        decode_plain(encode_value(m) + rest, depth) == Some((m, encode_value(m).len() as int)),
{
    lemma_pow256_values();
    match m {
        CborModel::Float16(b) => {
            lemma_decode_head_wide(7, 2, b as u64, rest);
            lemma_encode_head_wide_len(7, 2, b as u64);
        },
        CborModel::Float32(b) => {
            lemma_decode_head_wide(7, 4, b as u64, rest);
            lemma_encode_head_wide_len(7, 4, b as u64);
        },
        CborModel::Float64(b) => {
            lemma_decode_head_wide(7, 8, b, rest);
            lemma_encode_head_wide_len(7, 8, b);
        },
        _ => {},
    }
}

proof fn lemma_decode_bytes_of_encoding(m: CborModel, depth: nat, rest: Seq<u8>)
    requires
        m is Bytes,
        well_formed(m, depth),
    ensures
        untagged(encode_value(m) + rest),
        decode_plain(encode_value(m) + rest, depth) == Some((m, encode_value(m).len() as int)),
{
    let bytes = encode_value(m) + rest;
    let b = m->Bytes_0;
    let head = encode_head(2, b.len() as u64);
    lemma_decode_head(2, b.len() as u64, b + rest);
    lemma_encode_head_len(2, b.len() as u64);
    assert(bytes =~= head + (b + rest));
    assert(bytes.skip(head.len() as int) =~= b + rest);
    assert((b + rest).take(b.len() as int) =~= b);
}

proof fn lemma_decode_text_of_encoding(m: CborModel, depth: nat, rest: Seq<u8>)
    requires
        m is Text,
        well_formed(m, depth),
    ensures
        untagged(encode_value(m) + rest),
        decode_plain(encode_value(m) + rest, depth) == Some((m, encode_value(m).len() as int)),
{
    let bytes = encode_value(m) + rest;
    let raw = encode_utf8(m->Text_0);
    let head = encode_head(3, raw.len() as u64);
    lemma_decode_head(3, raw.len() as u64, raw + rest);
    lemma_encode_head_len(3, raw.len() as u64);
    encode_utf8_valid_utf8(m->Text_0);
    encode_utf8_decode_utf8(m->Text_0);
    assert(bytes =~= head + (raw + rest));
    assert(bytes.skip(head.len() as int) =~= raw + rest);
    assert((raw + rest).take(raw.len() as int) =~= raw);
}

/// Reading what was written gives the item back and stops right behind it,
/// whatever bytes follow.
#[verifier::rlimit(60)]
pub proof fn lemma_decode_item_of_encoding(m: CborModel, depth: nat, rest: Seq<u8>)
    requires
        well_formed(m, depth),
    ensures
        decode_item(encode_value(m) + rest, depth) == Some((m, encode_value(m).len() as int)),
    decreases m, 0nat,
{
    let bytes = encode_value(m) + rest;
    match m {
        CborModel::Unsigned(_) | CborModel::Negative(_) => {
            lemma_decode_integer_of_encoding(m, depth, rest);
        },
        CborModel::Bytes(_) => {
            lemma_decode_bytes_of_encoding(m, depth, rest);
        },
        CborModel::Text(_) => {
            lemma_decode_text_of_encoding(m, depth, rest);
        },
        CborModel::Array(items) => {
            let head = encode_head(4, items.len() as u64);
            let body = encode_items(items, 0);
            lemma_decode_head(4, items.len() as u64, body + rest);
            lemma_encode_head_len(4, items.len() as u64);
            assert(bytes =~= head + (body + rest));
            assert(bytes.skip(head.len() as int) =~= body + rest);
            assert(m->Array_0 == items);
            assert(decreases_to!(m => m->Array_0));
            lemma_decode_list_of_encoding(items, 0, (depth - 1) as nat, rest);
            assert(items.skip(0) =~= items);
            assert(decode_plain(bytes, depth) == Some((m, encode_value(m).len() as int)));
        },
        CborModel::Dict(entries) => {
            let head = encode_head(5, entries.len() as u64);
            let body = encode_entries(entries, 0);
            lemma_decode_head(5, entries.len() as u64, body + rest);
            lemma_encode_head_len(5, entries.len() as u64);
            assert(bytes =~= head + (body + rest));
            assert(bytes.skip(head.len() as int) =~= body + rest);
            assert(m->Dict_0 == entries);
            assert(decreases_to!(m => m->Dict_0));
            lemma_decode_pairs_of_encoding(entries, 0, (depth - 1) as nat, rest);
            assert(entries.skip(0) =~= entries);
            assert(decode_plain(bytes, depth) == Some((m, encode_value(m).len() as int)));
        },
        CborModel::Simple(_) => {
            lemma_decode_simple_of_encoding(m, depth, rest);
        },
        CborModel::Float16(_) | CborModel::Float32(_) | CborModel::Float64(_) => {
            lemma_decode_float_of_encoding(m, depth, rest);
        },
    }
    lemma_untagged(bytes, depth);
}

/// Reading as many items as were written, from `from` on, gives them back.
#[verifier::rlimit(60)]
pub proof fn lemma_decode_list_of_encoding(
    items: Seq<CborModel>,
    from: int,
    depth: nat,
    rest: Seq<u8>,
)
    requires
        0 <= from <= items.len(),
        forall|i: int| from <= i < items.len() ==> well_formed(#[trigger] items[i], depth),
    ensures
        decode_list(encode_items(items, from) + rest, Some((items.len() - from) as nat), depth)
            == Some((items.skip(from), encode_items(items, from).len() as int)),
    decreases items, items.len() - from,
{
    if from == items.len() {
        assert(items.skip(from) =~= Seq::<CborModel>::empty());
    } else {
        let first = encode_value(items[from]);
        let others = encode_items(items, from + 1);
        let bytes = encode_items(items, from) + rest;
        assert(bytes =~= first + (others + rest));
        lemma_decode_item_of_encoding(items[from], depth, others + rest);
        lemma_encoding_not_empty(items[from]);
        assert(bytes.skip(first.len() as int) =~= others + rest);
        lemma_decode_list_of_encoding(items, from + 1, depth, rest);
        assert(seq![items[from]] + items.skip(from + 1) =~= items.skip(from));
    }
}

/// Reading as many pairs as were written, from `from` on, gives them back.
#[verifier::rlimit(60)]
pub proof fn lemma_decode_pairs_of_encoding(
    entries: Seq<(CborModel, CborModel)>,
    from: int,
    depth: nat,
    rest: Seq<u8>,
)
    requires
        0 <= from <= entries.len(),
        forall|i: int|
            from <= i < entries.len() ==> well_formed((#[trigger] entries[i]).0, depth)
                && well_formed(entries[i].1, depth),
    ensures
        decode_pairs(
            encode_entries(entries, from) + rest,
            Some((entries.len() - from) as nat),
            depth,
        ) == Some((entries.skip(from), encode_entries(entries, from).len() as int)),
    decreases entries, entries.len() - from,
{
    if from == entries.len() {
        assert(entries.skip(from) =~= Seq::<(CborModel, CborModel)>::empty());
    } else {
        let key = encode_value(entries[from].0);
        let value = encode_value(entries[from].1);
        let others = encode_entries(entries, from + 1);
        let bytes = encode_entries(entries, from) + rest;
        assert(bytes =~= key + (value + (others + rest)));
        assert(decreases_to!(entries => entries[from]));
        assert(decreases_to!(entries[from] => entries[from].0));
        assert(decreases_to!(entries[from] => entries[from].1));
        lemma_decode_item_of_encoding(entries[from].0, depth, value + (others + rest));
        lemma_encoding_not_empty(entries[from].0);
        assert(bytes.skip(key.len() as int) =~= value + (others + rest));
        lemma_decode_item_of_encoding(entries[from].1, depth, others + rest);
        lemma_encoding_not_empty(entries[from].1);
        assert(bytes.skip((key.len() + value.len()) as int) =~= others + rest);
        lemma_decode_pairs_of_encoding(entries, from + 1, depth, rest);
        assert(seq![entries[from]] + entries.skip(from + 1) =~= entries.skip(from));
    }
}

/// Writing an item and reading the bytes gives the item back: no two items
/// have the same encoding.
pub proof fn lemma_decode_of_encoding(m: CborModel)
    requires
        well_formed(m, NESTING_LIMIT as nat),
    ensures
        decode_value(encode_value(m)) == Some(m),
{
    lemma_decode_item_of_encoding(m, NESTING_LIMIT as nat, Seq::empty());
    assert(encode_value(m) + Seq::<u8>::empty() =~= encode_value(m));
}

/// A text of `n` characters has at most `4 * n` bytes.
pub proof fn lemma_utf8_len(s: Seq<char>)
    ensures
        encode_utf8(s).len() <= 4 * s.len(),
    decreases s.len(),
{
    if s.len() > 0 {
        lemma_utf8_len(s.drop_first());
        assert(encode_scalar(s[0] as u32).len() <= 4);
    }
}

/// The encoding of a text item of `n` characters has at most `9 + 4 * n`
/// bytes.
pub proof fn lemma_text_item_len(s: Seq<char>)
    ensures
        encode_value(CborModel::Text(s)).len() <= 9 + 4 * s.len(),
{
    lemma_utf8_len(s);
    lemma_encode_head_len(3, encode_utf8(s).len() as u64);
}

/// The length of the encoding of the entries of a map.
pub open spec fn entries_len(entries: Seq<(CborModel, CborModel)>) -> nat {
    encode_entries(entries, 0).len()
}

/// The entries from `from` on are encoded as they would be without the
/// entries before them.
pub proof fn lemma_encode_entries_shift(
    a: Seq<(CborModel, CborModel)>,
    b: Seq<(CborModel, CborModel)>,
    from: int,
)
    requires
        0 <= from <= b.len(),
    ensures
        encode_entries(a + b, a.len() + from) == encode_entries(b, from),
    decreases b.len() - from,
{
    if from < b.len() {
        lemma_encode_entries_shift(a, b, from + 1);
        assert((a + b)[a.len() + from] == b[from]);
    }
}

/// The encoding of two runs of entries, one after the other, is that of the
/// first followed by that of the second.
pub proof fn lemma_encode_entries_add(
    a: Seq<(CborModel, CborModel)>,
    b: Seq<(CborModel, CborModel)>,
    from: int,
)
    requires
        0 <= from <= a.len(),
    ensures
        encode_entries(a + b, from) == encode_entries(a, from) + encode_entries(b, 0),
    decreases a.len() - from,
{
    if from < a.len() {
        lemma_encode_entries_add(a, b, from + 1);
        assert((a + b)[from] == a[from]);
        assert(encode_entries(a + b, from) =~= encode_entries(a, from) + encode_entries(b, 0));
    } else {
        lemma_encode_entries_shift(a, b, 0);
        assert(encode_entries(a, from) =~= Seq::<u8>::empty());
        assert(encode_entries(a + b, from) =~= encode_entries(a, from) + encode_entries(b, 0));
    }
}

/// The length of the encoding of two runs of entries is the sum of their
/// lengths.
pub proof fn lemma_entries_len_add(a: Seq<(CborModel, CborModel)>, b: Seq<(CborModel, CborModel)>)
    ensures
        entries_len(a + b) == entries_len(a) + entries_len(b),
{
    lemma_encode_entries_add(a, b, 0);
}

/// The length of the encoding of one entry.
pub proof fn lemma_entries_len_one(key: Seq<char>, value: CborModel)
    ensures
        entries_len(seq![entry(key, value)]) == encode_value(CborModel::Text(key)).len()
            + encode_value(value).len(),
{
    reveal_with_fuel(encode_entries, 2);
    let es = seq![entry(key, value)];
    assert(encode_entries(es, 1) =~= Seq::<u8>::empty());
}

/// The length of the encoding of a field that may be left out.
pub proof fn lemma_entries_len_optional(present: bool, key: Seq<char>, value: CborModel)
    ensures
        entries_len(optional(present, key, value)) == if present {
            encode_value(CborModel::Text(key)).len() + encode_value(value).len()
        } else {
            0
        },
{
    if present {
        lemma_entries_len_one(key, value);
    }
}

/// The length of the encoding of an unsigned integer.
pub proof fn lemma_unsigned_len(n: u64)
    ensures
        1 <= encode_value(CborModel::Unsigned(n)).len() <= 9,
        encode_value(CborModel::Unsigned(u64::MAX)).len() == 9,
{
    lemma_encode_head_len(0, n);
    lemma_encode_head_len(0, u64::MAX);
}

/// The length of the encoding of a byte string of at most 65535 bytes.
pub proof fn lemma_bytes_len(b: Seq<u8>)
    requires
        b.len() <= 0xffff,
    ensures
        encode_value(CborModel::Bytes(b)).len() <= 3 + b.len(),
        encode_value(CborModel::Bytes(Seq::empty())).len() == 1,
{
    lemma_encode_head_len(2, b.len() as u64);
    lemma_encode_head_len(2, 0);
    assert(Seq::<u8>::empty().len() == 0);
}

/// The length of the encoding of a map of fewer than 24 entries.
pub proof fn lemma_dict_len(entries: Seq<(CborModel, CborModel)>)
    requires
        entries.len() < 24,
    ensures
        encode_value(CborModel::Dict(entries)).len() == 1 + entries_len(entries),
{
    lemma_encode_head_len(5, entries.len() as u64);
}

/// Whether every key and every value of `entries` can be read back at
/// nesting depth `depth`.
pub open spec fn entries_well_formed(entries: Seq<(CborModel, CborModel)>, depth: nat) -> bool {
    forall|i: int|
        0 <= i < entries.len() ==> well_formed((#[trigger] entries[i]).0, depth) && well_formed(
            entries[i].1,
            depth,
        )
}

/// Two runs of entries that can be read back can be read back one after
/// the other.
pub proof fn lemma_entries_well_formed_add(
    a: Seq<(CborModel, CborModel)>,
    b: Seq<(CborModel, CborModel)>,
    depth: nat,
)
    requires
        entries_well_formed(a, depth),
        entries_well_formed(b, depth),
    ensures
        entries_well_formed(a + b, depth),
{
    assert forall|i: int| 0 <= i < (a + b).len() implies well_formed(
        (#[trigger] (a + b)[i]).0,
        depth,
    ) && well_formed((a + b)[i].1, depth) by {
        if i < a.len() {
            assert((a + b)[i] == a[i]);
        } else {
            assert((a + b)[i] == b[i - a.len()]);
        }
    }
}

/// A field under a short key can be read back where its value can,
/// whether it is left out or not.
pub proof fn lemma_field_well_formed(key: Seq<char>, value: CborModel, depth: nat)
    requires
        key.len() <= 64,
        well_formed(value, depth),
    ensures
        entries_well_formed(seq![entry(key, value)], depth),
        forall|present: bool| entries_well_formed(#[trigger] optional(present, key, value), depth),
{
    lemma_utf8_len(key);
    assert(well_formed(CborModel::Text(key), depth));
    assert forall|present: bool| entries_well_formed(
        #[trigger] optional(present, key, value),
        depth,
    ) by {
        if present {
            assert(optional(present, key, value) =~= seq![entry(key, value)]);
        }
    }
}

/// A map whose entries can be read back can be read back.
pub proof fn lemma_dict_well_formed(entries: Seq<(CborModel, CborModel)>, depth: nat)
    requires
        entries_well_formed(entries, depth),
        entries.len() <= u64::MAX,
    ensures
        well_formed(CborModel::Dict(entries), depth + 1),
{
}

} // verus!
