//! Writing data items out.
use crate::cbor::head::{write_head, write_head_wide};
use crate::cbor::value::{
    encode_entries, encode_items, encode_value, lemma_array_model, lemma_dict_model, models,
    pair_models, CborValue,
};
use vstd::prelude::*;

verus! {

/// Appends the encoding of `value` to `out`.
pub fn write_value(out: &mut Vec<u8>, value: &CborValue)
    ensures
        final(out)@ == old(out)@ + encode_value(value@),
    decreases value,
{
    match value {
        CborValue::Unsigned(n) => {
            write_head(out, 0, *n);
        },
        CborValue::Negative(n) => {
            write_head(out, 1, *n);
        },
        CborValue::Bytes(b) => {
            write_head(out, 2, b.len() as u64);
            out.extend_from_slice(b.as_slice());
            assert(final(out)@ =~= old(out)@ + encode_value(value@));
        },
        CborValue::Text(s) => {
            let bytes = s.as_str().as_bytes();
            write_head(out, 3, bytes.len() as u64);
            out.extend_from_slice(bytes);
            assert(final(out)@ =~= old(out)@ + encode_value(value@));
        },
        CborValue::Array(items) => {
            write_head(out, 4, items.len() as u64);
            let ghost start = out@;
            let ghost all = models(items@);
            proof {
                lemma_array_model(*items);
            }
            let mut i: usize = 0;
            while i < items.len()
                invariant
                    i <= items.len(),
                    all == models(items@),
                    out@ + encode_items(all, i as int) == start + encode_items(all, 0),
                    value == CborValue::Array(*items),
                decreases items.len() - i,
            {
                let ghost before = out@;
                assert(value->Array_0 == *items);
                assert(decreases_to!(value => value->Array_0));
                assert(decreases_to!(*items => items[i as int]));
                write_value(out, &items[i]);
                assert(before + encode_items(all, i as int) =~= out@ + encode_items(all, i + 1));
                i = i + 1;
            }
            assert(final(out)@ =~= old(out)@ + encode_value(value@));
        },
        CborValue::Dict(entries) => {
            write_head(out, 5, entries.len() as u64);
            let ghost start = out@;
            let ghost all = pair_models(entries@);
            proof {
                lemma_dict_model(*entries);
            }
            let mut i: usize = 0;
            while i < entries.len()
                invariant
                    i <= entries.len(),
                    all == pair_models(entries@),
                    out@ + encode_entries(all, i as int) == start + encode_entries(all, 0),
                    value == CborValue::Dict(*entries),
                decreases entries.len() - i,
            {
                let ghost before = out@;
                assert(value->Dict_0 == *entries);
                assert(decreases_to!(value => value->Dict_0));
                assert(decreases_to!(*entries => entries[i as int]));
                assert(decreases_to!(entries[i as int] => entries[i as int].0));
                write_value(out, &entries[i].0);
                write_value(out, &entries[i].1);
                assert(before + encode_entries(all, i as int) =~= out@ + encode_entries(
                    all,
                    i + 1,
                ));
                i = i + 1;
            }
            assert(final(out)@ =~= old(out)@ + encode_value(value@));
        },
        CborValue::Simple(v) => {
            if *v < 24 {
                out.push(7 * 32 + *v);
                assert(final(out)@ =~= old(out)@ + encode_value(value@));
            } else {
                write_head_wide(out, 7, 1, *v as u64);
            }
        },
        CborValue::Float16(b) => {
            write_head_wide(out, 7, 2, *b as u64);
        },
        CborValue::Float32(b) => {
            write_head_wide(out, 7, 4, *b as u64);
        },
        CborValue::Float64(b) => {
            write_head_wide(out, 7, 8, *b);
        },
    }
}

/// The encoding of `value`.
pub fn encode(value: &CborValue) -> (bytes: Vec<u8>)
    ensures
        bytes@ == encode_value(value@),
{
    let mut out: Vec<u8> = Vec::new();
    write_value(&mut out, value);
    assert(out@ =~= encode_value(value@));
    out
}

} // verus!
