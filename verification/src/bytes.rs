//! Numbers as bytes, in both orders.

use vstd::prelude::*;

verus! {

/// `n` in `width` bytes, the lowest first; what does not fit is dropped.
pub open spec fn le_bytes(n: nat, width: nat) -> Seq<u8>
    decreases width,
{
    if width == 0 {
        Seq::empty()
    } else {
        seq![(n % 256) as u8] + le_bytes(n / 256, (width - 1) as nat)
    }
}

/// The number that bytes stand for, the lowest first.
pub open spec fn le_value(bytes: Seq<u8>) -> nat
    decreases bytes.len(),
{
    if bytes.len() == 0 {
        0
    } else {
        bytes[0] as nat + 256 * le_value(bytes.skip(1))
    }
}

/// `n` in `width` bytes, the highest first; what does not fit is dropped.
pub open spec fn be_bytes(n: nat, width: nat) -> Seq<u8>
    decreases width,
{
    if width == 0 {
        Seq::empty()
    } else {
        be_bytes(n / 256, (width - 1) as nat).push((n % 256) as u8)
    }
}

/// The number that bytes stand for, the highest first.
pub open spec fn be_value(bytes: Seq<u8>) -> nat
    decreases bytes.len(),
{
    if bytes.len() == 0 {
        0
    } else {
        256 * be_value(bytes.drop_last()) + bytes.last() as nat
    }
}

/// How many numbers `width` bytes can tell apart.
pub open spec fn byte_range(width: nat) -> nat
    decreases width,
{
    if width == 0 {
        1
    } else {
        256 * byte_range((width - 1) as nat)
    }
}

/// Four bytes hold 32 bits and eight bytes hold 64.
pub proof fn lemma_byte_ranges()
    ensures
        byte_range(4) == 0x1_0000_0000,
        byte_range(8) == 0x1_0000_0000_0000_0000,
{
    reveal_with_fuel(byte_range, 9);
}

/// A number that fits comes back from its bytes.
pub proof fn lemma_le_bytes(n: nat, width: nat)
    ensures
        le_bytes(n, width).len() == width,
        n < byte_range(width) ==> le_value(le_bytes(n, width)) == n,
    decreases width,
{
    if width > 0 {
        lemma_le_bytes(n / 256, (width - 1) as nat);
        assert(le_bytes(n, width).skip(1) =~= le_bytes(n / 256, (width - 1) as nat));
    }
}

/// Bytes come back from the number that they stand for.
pub proof fn lemma_le_value(bytes: Seq<u8>)
    ensures
        le_value(bytes) < byte_range(bytes.len()),
        le_bytes(le_value(bytes), bytes.len()) == bytes,
    decreases bytes.len(),
{
    if bytes.len() > 0 {
        let rest = bytes.skip(1);
        lemma_le_value(rest);
        assert(le_value(bytes) % 256 == bytes[0]);
        assert(le_value(bytes) / 256 == le_value(rest));
        assert(le_bytes(le_value(bytes), bytes.len()) =~= bytes);
    } else {
        assert(le_bytes(le_value(bytes), bytes.len()) =~= bytes);
    }
}

/// A number that fits comes back from its bytes.
pub proof fn lemma_be_bytes(n: nat, width: nat)
    ensures
        be_bytes(n, width).len() == width,
        n < byte_range(width) ==> be_value(be_bytes(n, width)) == n,
    decreases width,
{
    if width > 0 {
        lemma_be_bytes(n / 256, (width - 1) as nat);
        assert(be_bytes(n, width).drop_last() =~= be_bytes(n / 256, (width - 1) as nat));
    }
}

/// The four bytes of a number, the highest first.
pub(crate) fn u32_to_be(n: u32) -> (bytes: Vec<u8>)
    ensures
        bytes@ == be_bytes(n as nat, 4),
{
    let bytes: Vec<u8> = vec![
        (n / 0x100_0000) as u8,
        (n / 0x1_0000 % 256) as u8,
        (n / 0x100 % 256) as u8,
        (n % 256) as u8,
    ];
    proof {
        reveal_with_fuel(be_bytes, 5);
        assert(n / 256 / 256 == n / 0x1_0000);
        assert(n / 256 / 256 / 256 == n / 0x100_0000);
        assert(n / 0x100_0000 < 256);
        assert(bytes@ =~= be_bytes(n as nat, 4));
    }
    bytes
}

/// The number that four bytes stand for, the highest first.
pub(crate) fn u32_from_be(bytes: [u8; 4]) -> (n: u32)
    ensures
        n == be_value(bytes@),
{
    proof {
        reveal_with_fuel(be_value, 5);
    }
    bytes[0] as u32 * 0x100_0000 + bytes[1] as u32 * 0x1_0000 + bytes[2] as u32 * 0x100
        + bytes[3] as u32
}

/// The bytes of a number one by one, the lowest first: four of a 32-bit number
/// and eight of a 64-bit one.
pub proof fn law_bytes_from_the_lowest(n: u32, m: u64)
    ensures
        le_bytes(n as nat, 4) == seq![
            (n % 0x100) as u8,
            (n / 0x100 % 0x100) as u8,
            (n / 0x1_0000 % 0x100) as u8,
            (n / 0x100_0000) as u8,
        ],
        le_bytes(m as nat, 8) == seq![
            (m % 0x100) as u8,
            (m / 0x100 % 0x100) as u8,
            (m / 0x1_0000 % 0x100) as u8,
            (m / 0x100_0000 % 0x100) as u8,
            (m / 0x1_0000_0000 % 0x100) as u8,
            (m / 0x100_0000_0000 % 0x100) as u8,
            (m / 0x1_0000_0000_0000 % 0x100) as u8,
            (m / 0x100_0000_0000_0000) as u8,
        ],
{
    reveal_with_fuel(le_bytes, 9);
    assert(n / 256 / 256 == n / 0x1_0000);
    assert(n / 256 / 256 / 256 == n / 0x100_0000);
    assert(n / 0x100_0000 < 256);
    assert(m / 256 / 256 == m / 0x1_0000);
    assert(m / 0x1_0000 / 256 == m / 0x100_0000);
    assert(m / 0x100_0000 / 256 == m / 0x1_0000_0000);
    assert(m / 0x1_0000_0000 / 256 == m / 0x100_0000_0000);
    assert(m / 0x100_0000_0000 / 256 == m / 0x1_0000_0000_0000);
    assert(m / 0x1_0000_0000_0000 / 256 == m / 0x100_0000_0000_0000);
    assert(m / 0x100_0000_0000_0000 < 256);
}

/// The number that four or eight bytes stand for, the lowest first.
pub proof fn law_value_from_the_lowest(b: Seq<u8>)
    ensures
        b.len() == 4 ==> le_value(b) == b[0] + 0x100 * b[1] + 0x1_0000 * b[2] + 0x100_0000 * b[3],
        b.len() == 8 ==> le_value(b) == b[0] + 0x100 * b[1] + 0x1_0000 * b[2] + 0x100_0000 * b[3]
            + 0x1_0000_0000 * b[4] + 0x100_0000_0000 * b[5] + 0x1_0000_0000_0000 * b[6]
            + 0x100_0000_0000_0000 * b[7],
{
    reveal_with_fuel(le_value, 9);
}

/// The four bytes of a 32-bit number one by one, the highest first, and the number
/// that four bytes stand for in that order.
pub proof fn law_bytes_from_the_highest(n: u32, b: Seq<u8>)
    ensures
        be_bytes(n as nat, 4) == seq![
            (n / 0x100_0000) as u8,
            (n / 0x1_0000 % 0x100) as u8,
            (n / 0x100 % 0x100) as u8,
            (n % 0x100) as u8,
        ],
        b.len() == 4 ==> be_value(b) == 0x100_0000 * b[0] + 0x1_0000 * b[1] + 0x100 * b[2] + b[3],
{
    reveal_with_fuel(be_bytes, 5);
    reveal_with_fuel(be_value, 5);
    assert(n / 256 / 256 == n / 0x1_0000);
    assert(n / 256 / 256 / 256 == n / 0x100_0000);
    assert(n / 0x100_0000 < 256);
}

} // verus!
