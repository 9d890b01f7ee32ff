//! Reading data items: what a byte sequence spells, and the reader that
//! finds it.
use crate::cbor::head::{decode_head, read_head, Head, BREAK_BYTE, INFO_INDEFINITE};
use crate::cbor::value::{lemma_array_model, lemma_dict_model, models, pair_models, CborModel, CborValue};
use vstd::prelude::*;
use vstd::slice::{slice_subrange, slice_to_vec};
use vstd::string::StringExecFns;
use vstd::utf8::{decode_utf8, encode_utf8, encode_utf8_decode_utf8, valid_utf8};

verus! {

/// Why bytes could not be turned into a value.
#[derive(Debug, Clone, Copy, PartialEq, Eq, Structural)]
pub enum CodecError {
    /// The bytes are not one well-formed data item.
    Malformed,
    /// The data item is well-formed but not of the expected shape.
    Mismatch,
}

/// How deep arrays and maps may be nested in an item that is read.
pub const NESTING_LIMIT: usize = 256;

/// The number of items that a definite-length head announces, or `None` for
/// an indefinite length.
pub open spec fn announced(head: Head) -> Option<nat> {
    if head.info == INFO_INDEFINITE {
        None
    } else {
        Some(head.arg as nat)
    }
}

/// One less than `count`, where there is a count.
pub open spec fn one_less(count: Option<nat>) -> Option<nat> {
    match count {
        Some(n) => Some((n - 1) as nat),
        None => None,
    }
}

/// The number of bytes that the tags in front of an item take. A tag says
/// how an item is meant, and is passed over.
pub open spec fn tags_len(bytes: Seq<u8>) -> int
    decreases bytes.len(),
{
    match decode_head(bytes) {
        Some(head) => if head.major == 6 && head.info != INFO_INDEFINITE && 0 < head.len
            <= bytes.len() {
            head.len + tags_len(bytes.skip(head.len as int))
        } else {
            0
        },
        None => 0,
    }
}

/// The bytes of a byte string of indefinite length, and the number of
/// bytes that its chunks and the break byte behind them take. Each chunk is
/// a byte string of definite length.
pub open spec fn decode_byte_chunks(bytes: Seq<u8>) -> Option<(Seq<u8>, int)>
    decreases bytes.len(),
{
    if bytes.len() > 0 && bytes[0] == BREAK_BYTE {
        Some((Seq::empty(), 1))
    } else {
        match decode_head(bytes) {
            None => None,
            Some(head) => if head.major != 2 || head.info == INFO_INDEFINITE || head.len <= 0
                || bytes.len() - head.len < head.arg {
                None
            } else {
                match decode_byte_chunks(bytes.skip(head.len + head.arg)) {
                    None => None,
                    Some((more, used)) => Some(
                        (
                            bytes.subrange(head.len as int, head.len + head.arg) + more,
                            head.len + head.arg + used,
                        ),
                    ),
                }
            },
        }
    }
}

/// The characters of a text string of indefinite length, and the number of
/// bytes that its chunks and the break byte behind them take. Each chunk is
/// a text string of definite length.
pub open spec fn decode_text_chunks(bytes: Seq<u8>) -> Option<(Seq<char>, int)>
    decreases bytes.len(),
{
    if bytes.len() > 0 && bytes[0] == BREAK_BYTE {
        Some((Seq::empty(), 1))
    } else {
        match decode_head(bytes) {
            None => None,
            Some(head) => if head.major != 3 || head.info == INFO_INDEFINITE || head.len <= 0
                || bytes.len() - head.len < head.arg || !valid_utf8(
                bytes.subrange(head.len as int, head.len + head.arg),
            ) {
                None
            } else {
                match decode_text_chunks(bytes.skip(head.len + head.arg)) {
                    None => None,
                    Some((more, used)) => Some(
                        (
                            decode_utf8(bytes.subrange(head.len as int, head.len + head.arg))
                                + more,
                            head.len + head.arg + used,
                        ),
                    ),
                }
            },
        }
    }
}

/// The data item without tags that `bytes` start with, and the number of
/// bytes it takes. Heads may be longer than needed, and strings, arrays
/// and maps may have an indefinite length. Arrays and maps may be nested
/// `depth` deep.
pub open spec fn decode_plain(bytes: Seq<u8>, depth: nat) -> Option<(CborModel, int)>
    decreases depth, 0nat,
{
    match decode_head(bytes) {
        None => None,
        Some(head) => {
            let rest = bytes.skip(head.len as int);
            if head.major == 0 {
                if head.info == INFO_INDEFINITE {
                    None
                } else {
                    Some((CborModel::Unsigned(head.arg), head.len as int))
                }
            } else if head.major == 1 {
                if head.info == INFO_INDEFINITE {
                    None
                } else {
                    Some((CborModel::Negative(head.arg), head.len as int))
                }
            } else if head.major == 2 {
                if head.info == INFO_INDEFINITE {
                    match decode_byte_chunks(rest) {
                        Some((raw, used)) => Some((CborModel::Bytes(raw), head.len + used)),
                        None => None,
                    }
                } else if rest.len() < head.arg {
                    None
                } else {
                    Some((CborModel::Bytes(rest.take(head.arg as int)), head.len + head.arg))
                }
            } else if head.major == 3 {
                if head.info == INFO_INDEFINITE {
                    match decode_text_chunks(rest) {
                        Some((text, used)) => Some((CborModel::Text(text), head.len + used)),
                        None => None,
                    }
                } else if rest.len() < head.arg || !valid_utf8(rest.take(head.arg as int)) {
                    None
                } else {
                    Some(
                        (
                            CborModel::Text(decode_utf8(rest.take(head.arg as int))),
                            head.len + head.arg,
                        ),
                    )
                }
            } else if head.major == 4 {
                if depth == 0 {
                    None
                } else {
                    match decode_list(rest, announced(head), (depth - 1) as nat) {
                        Some((items, used)) => Some((CborModel::Array(items), head.len + used)),
                        None => None,
                    }
                }
            } else if head.major == 5 {
                if depth == 0 {
                    None
                } else {
                    match decode_pairs(rest, announced(head), (depth - 1) as nat) {
                        Some((entries, used)) => Some((CborModel::Dict(entries), head.len + used)),
                        None => None,
                    }
                }
            } else if head.major == 7 {
                if head.info < 24 {
                    Some((CborModel::Simple(head.info), head.len as int))
                } else if head.info == 24 {
                    if head.arg < 32 {
                        None
                    } else {
                        Some((CborModel::Simple(head.arg as u8), head.len as int))
                    }
                } else if head.info == 25 {
                    Some((CborModel::Float16(head.arg as u16), head.len as int))
                } else if head.info == 26 {
                    Some((CborModel::Float32(head.arg as u32), head.len as int))
                } else if head.info == 27 {
                    Some((CborModel::Float64(head.arg), head.len as int))
                } else {
                    None
                }
            } else {
                None
            }
        },
    }
}

/// The data item that `bytes` start with, and the number of bytes it takes
/// with the tags in front of it. Arrays and maps may be nested `depth`
/// deep.
pub open spec fn decode_item(bytes: Seq<u8>, depth: nat) -> Option<(CborModel, int)>
    decreases depth, 1nat,
{
    match decode_plain(bytes.skip(tags_len(bytes)), depth) {
        Some((m, used)) => Some((m, tags_len(bytes) + used)),
        None => None,
    }
}

/// The items that `bytes` start with, and the number of bytes they take:
/// `count` items, or, without a count, the items up to a break byte, which
/// is taken too.
pub open spec fn decode_list(bytes: Seq<u8>, count: Option<nat>, depth: nat) -> Option<
    (Seq<CborModel>, int),
>
    decreases depth, bytes.len() + 2,
{
    if count == Some(0nat) {
        Some((Seq::empty(), 0))
    } else if count is None && bytes.len() > 0 && bytes[0] == BREAK_BYTE {
        Some((Seq::empty(), 1))
    } else {
        match decode_item(bytes, depth) {
            None => None,
            Some((first, used)) => if 0 < used <= bytes.len() {
                match decode_list(bytes.skip(used), one_less(count), depth) {
                    None => None,
                    Some((others, more)) => Some((seq![first] + others, used + more)),
                }
            } else {
                None
            },
        }
    }
}

/// The pairs of key and value that `bytes` start with, and the number of
/// bytes they take: `count` pairs, or, without a count, the pairs up to a
/// break byte, which is taken too.
pub open spec fn decode_pairs(bytes: Seq<u8>, count: Option<nat>, depth: nat) -> Option<
    (Seq<(CborModel, CborModel)>, int),
>
    decreases depth, bytes.len() + 2,
{
    if count == Some(0nat) {
        Some((Seq::empty(), 0))
    } else if count is None && bytes.len() > 0 && bytes[0] == BREAK_BYTE {
        Some((Seq::empty(), 1))
    } else {
        match decode_item(bytes, depth) {
            None => None,
            Some((key, used)) => if 0 < used <= bytes.len() {
                match decode_item(bytes.skip(used), depth) {
                    None => None,
                    Some((value, used2)) => if 0 < used2 <= bytes.len() - used {
                        match decode_pairs(bytes.skip(used + used2), one_less(count), depth) {
                            None => None,
                            Some((others, more)) => Some(
                                (seq![(key, value)] + others, used + used2 + more),
                            ),
                        }
                    } else {
                        None
                    },
                }
            } else {
                None
            },
        }
    }
}

/// The data item that `bytes` spell from the first byte to the last.
pub open spec fn decode_value(bytes: Seq<u8>) -> Option<CborModel> {
    match decode_item(bytes, NESTING_LIMIT as nat) {
        Some((m, used)) => if used == bytes.len() {
            Some(m)
        } else {
            None
        },
        None => None,
    }
}

/// The tags in front of an item take no more bytes than there are.
pub proof fn lemma_tags_len(bytes: Seq<u8>)
    ensures
        0 <= tags_len(bytes) <= bytes.len(),
    decreases bytes.len(),
{
    if let Some(head) = decode_head(bytes) {
        if head.major == 6 && head.info != INFO_INDEFINITE && 0 < head.len <= bytes.len() {
            lemma_tags_len(bytes.skip(head.len as int));
        }
    }
}

/// An item without a tag in front of it is read as it stands.
pub proof fn lemma_untagged(bytes: Seq<u8>, depth: nat)
    requires
        decode_head(bytes) matches Some(head) ==> head.major != 6,
    ensures
        decode_item(bytes, depth) == decode_plain(bytes, depth),
{
    assert(bytes.skip(0) =~= bytes);
}

/// The chunks of a byte string take at least one byte and no more than
/// there are.
pub proof fn lemma_byte_chunks_used(bytes: Seq<u8>)
    ensures
        decode_byte_chunks(bytes) matches Some((_, used)) ==> 0 < used <= bytes.len(),
    decreases bytes.len(),
{
    if bytes.len() > 0 && bytes[0] == BREAK_BYTE {
    } else if let Some(head) = decode_head(bytes) {
        if !(head.major != 2 || head.info == INFO_INDEFINITE || head.len <= 0 || bytes.len()
            - head.len < head.arg) {
            lemma_byte_chunks_used(bytes.skip(head.len + head.arg));
        }
    }
}

/// The chunks of a text string take at least one byte and no more than
/// there are.
pub proof fn lemma_text_chunks_used(bytes: Seq<u8>)
    ensures
        decode_text_chunks(bytes) matches Some((_, used)) ==> 0 < used <= bytes.len(),
    decreases bytes.len(),
{
    if bytes.len() > 0 && bytes[0] == BREAK_BYTE {
    } else if let Some(head) = decode_head(bytes) {
        if !(head.major != 3 || head.info == INFO_INDEFINITE || head.len <= 0 || bytes.len()
            - head.len < head.arg) {
            lemma_text_chunks_used(bytes.skip(head.len + head.arg));
        }
    }
}

/// An item without tags takes at least one byte and no more than there
/// are.
pub proof fn lemma_decode_plain_used(bytes: Seq<u8>, depth: nat)
    ensures
        decode_plain(bytes, depth) matches Some((_, used)) ==> 0 < used <= bytes.len(),
    decreases depth, 0nat,
{
    if let Some(head) = decode_head(bytes) {
        let rest = bytes.skip(head.len as int);
        if head.major == 2 {
            lemma_byte_chunks_used(rest);
        }
        if head.major == 3 {
            lemma_text_chunks_used(rest);
        }
        if depth > 0 {
            if head.major == 4 {
                lemma_decode_list_used(rest, announced(head), (depth - 1) as nat);
            }
            if head.major == 5 {
                lemma_decode_pairs_used(rest, announced(head), (depth - 1) as nat);
            }
        }
    }
}

/// An item takes at least one byte and no more than there are.
pub proof fn lemma_decode_item_used(bytes: Seq<u8>, depth: nat)
    ensures
        decode_item(bytes, depth) matches Some((_, used)) ==> 0 < used <= bytes.len(),
    decreases depth, 1nat,
{
    lemma_tags_len(bytes);
    lemma_decode_plain_used(bytes.skip(tags_len(bytes)), depth);
}

pub proof fn lemma_decode_list_used(bytes: Seq<u8>, count: Option<nat>, depth: nat)
    ensures
        decode_list(bytes, count, depth) matches Some((items, used)) ==> 0 <= used <= bytes.len()
            && (count matches Some(n) ==> items.len() == n),
    decreases depth, bytes.len() + 2,
{
    if count == Some(0nat) {
    } else if count is None && bytes.len() > 0 && bytes[0] == BREAK_BYTE {
    } else {
        if let Some((first, used)) = decode_item(bytes, depth) {
            if 0 < used <= bytes.len() {
                lemma_decode_list_used(bytes.skip(used), one_less(count), depth);
            }
        }
    }
}

pub proof fn lemma_decode_pairs_used(bytes: Seq<u8>, count: Option<nat>, depth: nat)
    ensures
        decode_pairs(bytes, count, depth) matches Some((entries, used)) ==> 0 <= used
            <= bytes.len() && (count matches Some(n) ==> entries.len() == n),
    decreases depth, bytes.len() + 2,
{
    if count == Some(0nat) {
    } else if count is None && bytes.len() > 0 && bytes[0] == BREAK_BYTE {
    } else {
        if let Some((key, used)) = decode_item(bytes, depth) {
            if 0 < used <= bytes.len() {
                if let Some((value, used2)) = decode_item(bytes.skip(used), depth) {
                    if 0 < used2 <= bytes.len() - used {
                        lemma_decode_pairs_used(bytes.skip(used + used2), one_less(count), depth);
                    }
                }
            }
        }
    }
}

/// `String::from_utf8` of std: the text that `bytes` hold, where they are
/// valid UTF-8, and nothing where they are not. The text has exactly the
/// bytes that were given.
#[verifier::external_body]
fn string_from_utf8(bytes: Vec<u8>) -> (text: Option<String>)
    ensures
        text is Some <==> valid_utf8(bytes@),
        text matches Some(s) ==> encode_utf8(s@) == bytes@,
{
    match String::from_utf8(bytes) {
        Ok(s) => Some(s),
        Err(_) => None,
    }
}

/// What remains of a list once `prefix` has been read in `offset` bytes and
/// `tail` is what the rest spells.
pub open spec fn after<T>(prefix: Seq<T>, offset: int, tail: Option<(Seq<T>, int)>) -> Option<
    (Seq<T>, int),
> {
    match tail {
        Some((items, used)) => Some((prefix + items, offset + used)),
        None => None,
    }
}

/// The count that a head announces, as a number.
fn announced_count(head: &Head) -> (count: Option<u64>)
    ensures
        count is Some <==> announced(*head) is Some,
        count matches Some(n) ==> announced(*head) == Some(n as nat),
{
    if head.info == INFO_INDEFINITE {
        None
    } else {
        Some(head.arg)
    }
}

/// Reads the chunks of a byte string of indefinite length that start at
/// `pos`; gives the bytes with the position behind the break byte.
pub fn read_byte_chunks(bytes: &[u8], pos: usize) -> (r: Option<(Vec<u8>, usize)>)
    requires
        pos <= bytes.len(),
    ensures
        match decode_byte_chunks(bytes@.skip(pos as int)) {
            Some((raw, used)) => r matches Some((v, next)) && v@ == raw && next == pos + used && pos
                < next <= bytes.len(),
            None => r is None,
        },
{
    let ghost whole = decode_byte_chunks(bytes@.skip(pos as int));
    let mut raw: Vec<u8> = Vec::new();
    let mut cur: usize = pos;
    assert(raw@ + Seq::<u8>::empty() =~= Seq::<u8>::empty());
    loop
        invariant
            pos <= cur <= bytes.len(),
            whole == decode_byte_chunks(bytes@.skip(pos as int)),
            whole == after(raw@, cur - pos, decode_byte_chunks(bytes@.skip(cur as int))),
        decreases bytes.len() - cur,
    {
        let ghost tail = bytes@.skip(cur as int);
        let ghost before = raw@;
        proof {
            lemma_byte_chunks_used(tail);
            assert(before + Seq::<u8>::empty() =~= before);
        }
        if cur < bytes.len() && bytes[cur] == BREAK_BYTE {
            return Some((raw, cur + 1));
        }
        let head = match read_head(bytes, cur) {
            Some(head) => head,
            None => {
                return None;
            },
        };
        if head.major != 2 || head.info == INFO_INDEFINITE || head.arg > (bytes.len() - cur
            - head.len) as u64 {
            return None;
        }
        let start: usize = cur + head.len;
        let end: usize = start + head.arg as usize;
        let chunk = slice_subrange(bytes, start, end);
        raw.extend_from_slice(chunk);
        proof {
            let taken = head.len + head.arg;
            assert(chunk@ =~= tail.subrange(head.len as int, taken));
            assert(tail.skip(taken) =~= bytes@.skip(end as int));
            if let Some((more, used)) = decode_byte_chunks(bytes@.skip(end as int)) {
                assert(before + (chunk@ + more) =~= (before + chunk@) + more);
            }
        }
        cur = end;
    }
}

/// Reads the chunks of a text string of indefinite length that start at
/// `pos`; gives the text with the position behind the break byte.
pub fn read_text_chunks(bytes: &[u8], pos: usize) -> (r: Option<(String, usize)>)
    requires
        pos <= bytes.len(),
    ensures
        match decode_text_chunks(bytes@.skip(pos as int)) {
            Some((text, used)) => r matches Some((v, next)) && v@ == text && next == pos + used
                && pos < next <= bytes.len(),
            None => r is None,
        },
{
    let ghost whole = decode_text_chunks(bytes@.skip(pos as int));
    let mut text = String::new();
    let mut cur: usize = pos;
    assert(text@ + Seq::<char>::empty() =~= Seq::<char>::empty());
    loop
        invariant
            pos <= cur <= bytes.len(),
            whole == decode_text_chunks(bytes@.skip(pos as int)),
            whole == after(text@, cur - pos, decode_text_chunks(bytes@.skip(cur as int))),
        decreases bytes.len() - cur,
    {
        let ghost tail = bytes@.skip(cur as int);
        let ghost before = text@;
        proof {
            lemma_text_chunks_used(tail);
            assert(before + Seq::<char>::empty() =~= before);
        }
        if cur < bytes.len() && bytes[cur] == BREAK_BYTE {
            return Some((text, cur + 1));
        }
        let head = match read_head(bytes, cur) {
            Some(head) => head,
            None => {
                return None;
            },
        };
        if head.major != 3 || head.info == INFO_INDEFINITE || head.arg > (bytes.len() - cur
            - head.len) as u64 {
            return None;
        }
        let start: usize = cur + head.len;
        let end: usize = start + head.arg as usize;
        let chunk = slice_to_vec(slice_subrange(bytes, start, end));
        let ghost taken = head.len + head.arg;
        assert(chunk@ =~= tail.subrange(head.len as int, taken));
        let piece = match string_from_utf8(chunk) {
            Some(piece) => piece,
            None => {
                return None;
            },
        };
        text.append(piece.as_str());
        proof {
            encode_utf8_decode_utf8(piece@);
            assert(tail.skip(taken) =~= bytes@.skip(end as int));
            if let Some((more, used)) = decode_text_chunks(bytes@.skip(end as int)) {
                assert(before + (piece@ + more) =~= (before + piece@) + more);
            }
        }
        cur = end;
    }
}

/// Reads the item without tags that starts at `pos`; gives it with the
/// position behind it.
pub fn read_plain(bytes: &[u8], pos: usize, depth: usize) -> (r: Option<(CborValue, usize)>)
    requires
        pos <= bytes.len(),
    ensures
        match decode_plain(bytes@.skip(pos as int), depth as nat) {
            Some((m, used)) => r matches Some((v, next)) && v@ == m && next == pos + used && pos
                < next <= bytes.len(),
            None => r is None,
        },
    decreases depth, 0nat,
{
    let ghost tail = bytes@.skip(pos as int);
    proof {
        lemma_decode_plain_used(tail, depth as nat);
    }
    let head = match read_head(bytes, pos) {
        Some(head) => head,
        None => {
            return None;
        },
    };
    let body: usize = pos + head.len;
    let ghost rest = tail.skip(head.len as int);
    assert(rest =~= bytes@.skip(body as int));
    if head.major == 0 {
        if head.info == INFO_INDEFINITE {
            None
        } else {
            Some((CborValue::Unsigned(head.arg), body))
        }
    } else if head.major == 1 {
        if head.info == INFO_INDEFINITE {
            None
        } else {
            Some((CborValue::Negative(head.arg), body))
        }
    } else if head.major == 2 || head.major == 3 {
        if head.info == INFO_INDEFINITE {
            if head.major == 2 {
                return match read_byte_chunks(bytes, body) {
                    Some((raw, next)) => Some((CborValue::Bytes(raw), next)),
                    None => None,
                };
            } else {
                return match read_text_chunks(bytes, body) {
                    Some((text, next)) => Some((CborValue::Text(text), next)),
                    None => None,
                };
            }
        }
        if head.arg > (bytes.len() - body) as u64 {
            return None;
        }
        let len: usize = head.arg as usize;
        let raw = slice_to_vec(slice_subrange(bytes, body, body + len));
        assert(raw@ =~= rest.take(head.arg as int));
        if head.major == 2 {
            Some((CborValue::Bytes(raw), body + len))
        } else {
            match string_from_utf8(raw) {
                Some(text) => {
                    proof {
                        encode_utf8_decode_utf8(text@);
                    }
                    Some((CborValue::Text(text), body + len))
                },
                None => None,
            }
        }
    } else if head.major == 4 {
        if depth == 0 {
            return None;
        }
        match read_list(bytes, body, announced_count(&head), depth - 1) {
            Some((items, next)) => {
                proof {
                    lemma_array_model(items);
                }
                Some((CborValue::Array(items), next))
            },
            None => None,
        }
    } else if head.major == 5 {
        if depth == 0 {
            return None;
        }
        match read_pairs(bytes, body, announced_count(&head), depth - 1) {
            Some((entries, next)) => {
                proof {
                    lemma_dict_model(entries);
                }
                Some((CborValue::Dict(entries), next))
            },
            None => None,
        }
    } else if head.major == 7 {
        if head.info < 24 {
            Some((CborValue::Simple(head.info), body))
        } else if head.info == 24 {
            if head.arg < 32 {
                None
            } else {
                Some((CborValue::Simple(head.arg as u8), body))
            }
        } else if head.info == 25 {
            Some((CborValue::Float16(head.arg as u16), body))
        } else if head.info == 26 {
            Some((CborValue::Float32(head.arg as u32), body))
        } else if head.info == 27 {
            Some((CborValue::Float64(head.arg), body))
        } else {
            None
        }
    } else {
        None
    }
}

/// Reads the item that starts at `pos`, with the tags in front of it, which
/// are passed over; gives it with the position behind it.
pub fn read_item(bytes: &[u8], pos: usize, depth: usize) -> (r: Option<(CborValue, usize)>)
    requires
        pos <= bytes.len(),
    ensures
        match decode_item(bytes@.skip(pos as int), depth as nat) {
            Some((m, used)) => r matches Some((v, next)) && v@ == m && next == pos + used && pos
                < next <= bytes.len(),
            None => r is None,
        },
    decreases depth, 1nat,
{
    let ghost start = bytes@.skip(pos as int);
    let mut cur: usize = pos;
    loop
        invariant
            pos <= cur <= bytes.len(),
            start == bytes@.skip(pos as int),
            tags_len(start) == (cur - pos) + tags_len(bytes@.skip(cur as int)),
            start.skip(cur - pos) == bytes@.skip(cur as int),
        decreases bytes.len() - cur,
    {
        let ghost tail = bytes@.skip(cur as int);
        let tagged = match read_head(bytes, cur) {
            Some(head) => if head.major == 6 && head.info != INFO_INDEFINITE {
                Some(head.len)
            } else {
                None
            },
            None => None,
        };
        match tagged {
            Some(len) => {
                proof {
                    assert(tail.skip(len as int) =~= bytes@.skip(cur + len));
                    assert(start.skip(cur + len - pos) =~= bytes@.skip(cur + len));
                }
                cur = cur + len;
            },
            None => {
                proof {
                    assert(tail.skip(0) =~= tail);
                    lemma_decode_plain_used(tail, depth as nat);
                }
                return read_plain(bytes, cur, depth);
            },
        }
    }
}

/// Reads the items that start at `pos`: `count` of them, or, without a
/// count, those up to a break byte. Gives them with the position behind
/// them.
pub fn read_list(bytes: &[u8], pos: usize, count: Option<u64>, depth: usize) -> (r: Option<
    (Vec<CborValue>, usize),
>)
    requires
        pos <= bytes.len(),
    ensures
        match decode_list(
            bytes@.skip(pos as int),
            match count {
                Some(n) => Some(n as nat),
                None => None,
            },
            depth as nat,
        ) {
            Some((ms, used)) => r matches Some((vs, next)) && models(vs@) == ms && next == pos
                + used && pos <= next <= bytes.len(),
            None => r is None,
        },
    decreases depth, 2nat,
{
    let ghost whole = decode_list(
        bytes@.skip(pos as int),
        match count {
            Some(n) => Some(n as nat),
            None => None,
        },
        depth as nat,
    );
    let mut items: Vec<CborValue> = Vec::new();
    let mut cur: usize = pos;
    let mut left: Option<u64> = count;
    assert(models(items@) + Seq::<CborModel>::empty() =~= Seq::<CborModel>::empty());
    loop
        invariant
            pos <= cur <= bytes.len(),
            whole == after(
                models(items@),
                cur - pos,
                decode_list(
                    bytes@.skip(cur as int),
                    match left {
                        Some(n) => Some(n as nat),
                        None => None,
                    },
                    depth as nat,
                ),
            ),
            whole == decode_list(
                bytes@.skip(pos as int),
                match count {
                    Some(n) => Some(n as nat),
                    None => None,
                },
                depth as nat,
            ),
        decreases bytes.len() - cur,
    {
        let ghost tail = bytes@.skip(cur as int);
        let ghost before = models(items@);
        proof {
            lemma_decode_item_used(tail, depth as nat);
            assert(before + Seq::<CborModel>::empty() =~= before);
        }
        match left {
            Some(n) => {
                if n == 0 {
                    return Some((items, cur));
                }
                left = Some(n - 1);
            },
            None => {
                if cur < bytes.len() && bytes[cur] == BREAK_BYTE {
                    return Some((items, cur + 1));
                }
            },
        }
        match read_item(bytes, cur, depth) {
            Some((item, next)) => {
                let ghost used = next - cur;
                let ghost first = item@;
                items.push(item);
                proof {
                    assert(tail.skip(used) =~= bytes@.skip(next as int));
                    assert(models(items@) =~= before.push(first));
                    let rest = decode_list(
                        bytes@.skip(next as int),
                        match left {
                            Some(n) => Some(n as nat),
                            None => None,
                        },
                        depth as nat,
                    );
                    if let Some((others, more)) = rest {
                        assert(before + (seq![first] + others) =~= before.push(first) + others);
                    }
                }
                cur = next;
            },
            None => {
                return None;
            },
        }
    }
}

/// Reads the pairs of key and value that start at `pos`: `count` of them,
/// or, without a count, those up to a break byte. Gives them with the
/// position behind them.
pub fn read_pairs(bytes: &[u8], pos: usize, count: Option<u64>, depth: usize) -> (r: Option<
    (Vec<(CborValue, CborValue)>, usize),
>)
    requires
        pos <= bytes.len(),
    ensures
        match decode_pairs(
            bytes@.skip(pos as int),
            match count {
                Some(n) => Some(n as nat),
                None => None,
            },
            depth as nat,
        ) {
            Some((ms, used)) => r matches Some((vs, next)) && pair_models(vs@) == ms && next == pos
                + used && pos <= next <= bytes.len(),
            None => r is None,
        },
    decreases depth, 2nat,
{
    let ghost whole = decode_pairs(
        bytes@.skip(pos as int),
        match count {
            Some(n) => Some(n as nat),
            None => None,
        },
        depth as nat,
    );
    let mut entries: Vec<(CborValue, CborValue)> = Vec::new();
    let mut cur: usize = pos;
    let mut left: Option<u64> = count;
    assert(pair_models(entries@) + Seq::<(CborModel, CborModel)>::empty() =~= Seq::<
        (CborModel, CborModel),
    >::empty());
    loop
        invariant
            pos <= cur <= bytes.len(),
            whole == after(
                pair_models(entries@),
                cur - pos,
                decode_pairs(
                    bytes@.skip(cur as int),
                    match left {
                        Some(n) => Some(n as nat),
                        None => None,
                    },
                    depth as nat,
                ),
            ),
            whole == decode_pairs(
                bytes@.skip(pos as int),
                match count {
                    Some(n) => Some(n as nat),
                    None => None,
                },
                depth as nat,
            ),
        decreases bytes.len() - cur,
    {
        let ghost tail = bytes@.skip(cur as int);
        let ghost before = pair_models(entries@);
        proof {
            lemma_decode_item_used(tail, depth as nat);
            assert(before + Seq::<(CborModel, CborModel)>::empty() =~= before);
        }
        match left {
            Some(n) => {
                if n == 0 {
                    return Some((entries, cur));
                }
                left = Some(n - 1);
            },
            None => {
                if cur < bytes.len() && bytes[cur] == BREAK_BYTE {
                    return Some((entries, cur + 1));
                }
            },
        }
        let (key, mid) = match read_item(bytes, cur, depth) {
            Some(found) => found,
            None => {
                return None;
            },
        };
        proof {
            assert(tail.skip(mid - cur) =~= bytes@.skip(mid as int));
            lemma_decode_item_used(bytes@.skip(mid as int), depth as nat);
        }
        let (value, next) = match read_item(bytes, mid, depth) {
            Some(found) => found,
            None => {
                return None;
            },
        };
        let ghost pair = (key@, value@);
        entries.push((key, value));
        proof {
            assert(tail.skip(next - cur) =~= bytes@.skip(next as int));
            assert(pair_models(entries@) =~= before.push(pair));
            let rest = decode_pairs(
                bytes@.skip(next as int),
                match left {
                    Some(n) => Some(n as nat),
                    None => None,
                },
                depth as nat,
            );
            if let Some((others, more)) = rest {
                assert(before + (seq![pair] + others) =~= before.push(pair) + others);
            }
        }
        cur = next;
    }
}

/// Reads the one data item that `bytes` spell from the first byte to the
/// last.
pub fn decode(bytes: &[u8]) -> (r: Result<CborValue, CodecError>)
    ensures
        r matches Ok(v) ==> decode_value(bytes@) == Some(v@),
        r is Err <==> decode_value(bytes@) is None,
        r matches Err(e) ==> e == CodecError::Malformed,
{
    assert(bytes@.skip(0) =~= bytes@);
    match read_item(bytes, 0, NESTING_LIMIT) {
        Some((value, next)) => {
            if next == bytes.len() {
                Ok(value)
            } else {
                Err(CodecError::Malformed)
            }
        },
        None => Err(CodecError::Malformed),
    }
}

} // verus!
