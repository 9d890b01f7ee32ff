//! The head of a data item: one initial byte that holds the major type and a
//! short argument, followed by zero to eight bytes of a longer argument.
use vstd::prelude::*;

verus! {

pub const MAJOR_UNSIGNED: u8 = 0;

pub const MAJOR_NEGATIVE: u8 = 1;

pub const MAJOR_BYTES: u8 = 2;

pub const MAJOR_TEXT: u8 = 3;

pub const MAJOR_ARRAY: u8 = 4;

pub const MAJOR_DICT: u8 = 5;

pub const MAJOR_TAG: u8 = 6;

pub const MAJOR_SIMPLE: u8 = 7;

/// Additional information that announces an indefinite length, or, with
/// major type 7, the end of one.
pub const INFO_INDEFINITE: u8 = 31;

/// The initial byte that ends an indefinite-length array or map.
pub const BREAK_BYTE: u8 = 0xff;

/// `256` to the power `n`.
pub open spec fn pow256(n: nat) -> nat
    decreases n,
{
    if n == 0 {
        1
    } else {
        256 * pow256((n - 1) as nat)
    }
}

/// The `n` low base-256 digits of `x`, most significant first.
pub open spec fn be_bytes(x: nat, n: nat) -> Seq<u8>
    decreases n,
{
    if n == 0 {
        Seq::empty()
    } else {
        be_bytes(x / 256, (n - 1) as nat).push((x % 256) as u8)
    }
}

/// The number that `bytes` spell in base 256, most significant digit first.
pub open spec fn be_value(bytes: Seq<u8>) -> nat
    decreases bytes.len(),
{
    if bytes.len() == 0 {
        0
    } else {
        be_value(bytes.drop_last()) * 256 + bytes.last() as nat
    }
}

pub proof fn lemma_pow256_values()
    ensures
        pow256(0) == 1,
        pow256(1) == 0x100,
        pow256(2) == 0x1_0000,
        pow256(4) == 0x1_0000_0000,
        pow256(8) == 0x1_0000_0000_0000_0000,
{
    reveal_with_fuel(pow256, 9);
}

pub proof fn lemma_pow256_monotonic(a: nat, b: nat)
    requires
        a <= b,
    ensures
        pow256(a) <= pow256(b),
        pow256(a) >= 1,
    decreases b,
{
    if b > a {
        lemma_pow256_monotonic(a, (b - 1) as nat);
    } else if a > 0 {
        lemma_pow256_monotonic((a - 1) as nat, (b - 1) as nat);
    }
}

pub proof fn lemma_be_bytes_len(x: nat, n: nat)
    ensures
        be_bytes(x, n).len() == n,
    decreases n,
{
    if n > 0 {
        lemma_be_bytes_len(x / 256, (n - 1) as nat);
    }
}

/// Every sequence of digits spells a number below `256` to its length.
pub proof fn lemma_be_value_bound(bytes: Seq<u8>)
    ensures
        be_value(bytes) < pow256(bytes.len()),
    decreases bytes.len(),
{
    if bytes.len() > 0 {
        lemma_be_value_bound(bytes.drop_last());
    }
}

/// Reading back the digits of a number that fits in them gives the number.
pub proof fn lemma_be_value_of_bytes(x: nat, n: nat)
    requires
        x < pow256(n),
    ensures
        be_value(be_bytes(x, n)) == x,
    decreases n,
{
    if n > 0 {
        let hi = be_bytes(x / 256, (n - 1) as nat);
        lemma_be_value_of_bytes(x / 256, (n - 1) as nat);
        lemma_be_bytes_len(x / 256, (n - 1) as nat);
        assert(be_bytes(x, n).drop_last() =~= hi);
        assert(be_bytes(x, n).last() == (x % 256) as u8);
    }
}

/// The number of argument bytes that follow the initial byte in the shortest
/// head that can hold `arg`.
pub open spec fn arg_width(arg: u64) -> nat {
    if arg < 24 {
        0
    } else if arg < 0x100 {
        1
    } else if arg < 0x1_0000 {
        2
    } else if arg < 0x1_0000_0000 {
        4
    } else {
        8
    }
}

/// The additional information that announces `width` argument bytes.
pub open spec fn width_info(width: nat) -> u8 {
    if width == 1 {
        24
    } else if width == 2 {
        25
    } else if width == 4 {
        26
    } else {
        27
    }
}

/// The number of argument bytes that additional information `info` announces.
pub open spec fn info_width(info: u8) -> nat {
    if info == 24 {
        1
    } else if info == 25 {
        2
    } else if info == 26 {
        4
    } else if info == 27 {
        8
    } else {
        0
    }
}

/// The initial byte: the major type in the high three bits, the additional
/// information in the low five.
pub open spec fn initial_byte(major: u8, info: u8) -> u8 {
    (major * 32 + info) as u8
}

/// A head that spells `arg` in exactly `width` argument bytes.
pub open spec fn encode_head_wide(major: u8, width: nat, arg: u64) -> Seq<u8> {
    seq![initial_byte(major, width_info(width))] + be_bytes(arg as nat, width)
}

/// The shortest head for `major` and `arg`.
pub open spec fn encode_head(major: u8, arg: u64) -> Seq<u8> {
    if arg < 24 {
        seq![initial_byte(major, arg as u8)]
    } else {
        encode_head_wide(major, arg_width(arg), arg)
    }
}

/// What a head says.
pub struct Head {
    /// The major type, `0` to `7`.
    pub major: u8,
    /// The additional information, `0` to `31`.
    pub info: u8,
    /// The argument; `0` where the additional information is `31`.
    pub arg: u64,
    /// The number of bytes that the head takes, `1` to `9`.
    pub len: usize,
}

/// The head that `bytes` start with. There is none where `bytes` is empty,
/// ends inside the argument, or holds additional information `28` to `30`.
pub open spec fn decode_head(bytes: Seq<u8>) -> Option<Head> {
    if bytes.len() == 0 {
        None
    } else {
        let major = bytes[0] / 32;
        let info = bytes[0] % 32;
        if info < 24 {
            Some(Head { major, info, arg: info as u64, len: 1 })
        } else if info <= 27 {
            let width = info_width(info);
            if bytes.len() < 1 + width {
                None
            } else {
                Some(
                    Head {
                        major,
                        info,
                        arg: be_value(bytes.subrange(1, (1 + width) as int)) as u64,
                        len: (1 + width) as usize,
                    },
                )
            }
        } else if info == INFO_INDEFINITE {
            Some(Head { major, info, arg: 0, len: 1 })
        } else {
            None
        }
    }
}

pub proof fn lemma_encode_head_len(major: u8, arg: u64)
    ensures
        encode_head(major, arg).len() == 1 + arg_width(arg),
        1 <= encode_head(major, arg).len() <= 9,
{
    lemma_be_bytes_len(arg as nat, arg_width(arg));
}

pub proof fn lemma_encode_head_wide_len(major: u8, width: nat, arg: u64)
    ensures
        encode_head_wide(major, width, arg).len() == 1 + width,
{
    lemma_be_bytes_len(arg as nat, width);
}

/// A head of any announced width reads back as what was written, whatever
/// follows it.
pub proof fn lemma_decode_head_wide(major: u8, width: nat, arg: u64, rest: Seq<u8>)
    requires
        major < 8,
        width == 1 || width == 2 || width == 4 || width == 8,
        arg < pow256(width),
    ensures
        decode_head(encode_head_wide(major, width, arg) + rest) == Some(
            Head { major, info: width_info(width), arg, len: (1 + width) as usize },
        ),
{
    let head = encode_head_wide(major, width, arg);
    let bytes = head + rest;
    lemma_be_bytes_len(arg as nat, width);
    lemma_be_value_of_bytes(arg as nat, width);
    assert(bytes[0] == initial_byte(major, width_info(width)));
    assert(bytes.subrange(1, (1 + width) as int) =~= be_bytes(arg as nat, width));
}

/// The shortest head reads back as what was written, whatever follows it.
pub proof fn lemma_decode_head(major: u8, arg: u64, rest: Seq<u8>)
    requires
        major < 8,
    ensures
        decode_head(encode_head(major, arg) + rest) == Some(
            Head {
                major,
                info: if arg < 24 {
                    arg as u8
                } else {
                    width_info(arg_width(arg))
                },
                arg,
                len: (1 + arg_width(arg)) as usize,
            },
        ),
{
    if arg < 24 {
        let bytes = encode_head(major, arg) + rest;
        assert(bytes[0] == initial_byte(major, arg as u8));
    } else {
        lemma_pow256_values();
        lemma_decode_head_wide(major, arg_width(arg), arg, rest);
    }
}

/// Appends the `n` low base-256 digits of `x` to `out`, most significant first.
pub fn push_be(out: &mut Vec<u8>, x: u64, n: usize)
    requires
        n <= 8,
    ensures
        final(out)@ == old(out)@ + be_bytes(x as nat, n as nat),
    decreases n,
{
    if n > 0 {
        push_be(out, x / 256, n - 1);
        out.push((x % 256) as u8);
        assert(final(out)@ =~= old(out)@ + be_bytes(x as nat, n as nat));
    } else {
        assert(out@ =~= old(out)@ + be_bytes(x as nat, 0));
    }
}

/// Reads the number that the `n` bytes from `pos` on spell in base 256.
pub fn read_be(bytes: &[u8], pos: usize, n: usize) -> (value: u64)
    requires
        n <= 8,
        pos + n <= bytes.len(),
    ensures
        value == be_value(bytes@.subrange(pos as int, pos + n)),
{
    let mut value: u64 = 0;
    let mut i: usize = 0;
    while i < n
        invariant
            i <= n <= 8,
            pos + n <= bytes.len(),
            value == be_value(bytes@.subrange(pos as int, pos + i)),
            value < pow256(i as nat),
        decreases n - i,
    {
        let digit: u8 = bytes[pos + i];
        proof {
            let next = bytes@.subrange(pos as int, pos + i + 1);
            assert(next.drop_last() =~= bytes@.subrange(pos as int, pos + i));
            assert(next.last() == digit);
            lemma_pow256_monotonic((i + 1) as nat, 8);
            lemma_pow256_values();
            lemma_be_value_bound(next);
        }
        value = value * 256 + digit as u64;
        i = i + 1;
    }
    value
}

/// Appends the shortest head for `major` and `arg` to `out`.
pub fn write_head(out: &mut Vec<u8>, major: u8, arg: u64)
    requires
        major < 8,
    ensures
        final(out)@ == old(out)@ + encode_head(major, arg),
{
    if arg < 24 {
        out.push(major * 32 + arg as u8);
        assert(final(out)@ =~= old(out)@ + encode_head(major, arg));
    } else if arg < 0x100 {
        write_head_wide(out, major, 1, arg);
    } else if arg < 0x1_0000 {
        write_head_wide(out, major, 2, arg);
    } else if arg < 0x1_0000_0000 {
        write_head_wide(out, major, 4, arg);
    } else {
        write_head_wide(out, major, 8, arg);
    }
}

/// Appends a head that spells `arg` in exactly `width` argument bytes.
pub fn write_head_wide(out: &mut Vec<u8>, major: u8, width: usize, arg: u64)
    requires
        major < 8,
        width == 1 || width == 2 || width == 4 || width == 8,
    ensures
        final(out)@ == old(out)@ + encode_head_wide(major, width as nat, arg),
{
    let info: u8 = if width == 1 {
        24
    } else if width == 2 {
        25
    } else if width == 4 {
        26
    } else {
        27
    };
    out.push(major * 32 + info);
    push_be(out, arg, width);
    assert(final(out)@ =~= old(out)@ + encode_head_wide(major, width as nat, arg));
}

/// Reads the head that starts at `pos`.
pub fn read_head(bytes: &[u8], pos: usize) -> (head: Option<Head>)
    requires
        pos <= bytes.len(),
    ensures
        head == decode_head(bytes@.skip(pos as int)),
{
    if pos >= bytes.len() {
        return None;
    }
    let first: u8 = bytes[pos];
    let major: u8 = first / 32;
    let info: u8 = first % 32;
    let ghost tail = bytes@.skip(pos as int);
    assert(tail[0] == first);
    if info < 24 {
        Some(Head { major, info, arg: info as u64, len: 1 })
    } else if info <= 27 {
        let width: usize = if info == 24 {
            1
        } else if info == 25 {
            2
        } else if info == 26 {
            4
        } else {
            8
        };
        if bytes.len() - pos < 1 + width {
            None
        } else {
            let arg = read_be(bytes, pos + 1, width);
            assert(tail.subrange(1, 1 + width) =~= bytes@.subrange(pos + 1, pos + 1 + width));
            Some(Head { major, info, arg, len: 1 + width })
        }
    } else if info == INFO_INDEFINITE {
        Some(Head { major, info, arg: 0, len: 1 })
    } else {
        None
    }
}

} // verus!
