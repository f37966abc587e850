//! The plain values the trackers work on: addresses, 256-bit words and
//! transaction positions.

use vstd::prelude::*;

verus! {

/// A 160-bit account address, split at its big-endian bytes: the first four
/// bytes as a `u32`, the remaining sixteen as a `u128`.
///
/// Tuples of integers order lexicographically, so addresses order exactly as
/// their twenty bytes do.
pub type Address = (u32, u128);

/// A 256-bit word, split at its big-endian bytes: the first sixteen bytes as
/// a `u128`, the last sixteen as a `u128`.
pub type Word = (u128, u128);

/// The key of a storage slot: the 32-byte big-endian encoding of the stack
/// operand that names the slot, which is the operand word itself.
pub type StorageKey = Word;

/// The value held by a storage slot. Zero stands for "absent" and "cleared".
pub type StorageValue = Word;

/// The position of a transaction inside its block.
pub type TxIndex = u64;

/// The zero word.
pub const ZERO: Word = (0, 0);

/// The number that an address stands for.
pub open spec fn address_value(a: Address) -> nat {
    (a.0 as nat) * 0x1_0000_0000_0000_0000_0000_0000_0000_0000 + (a.1 as nat)
}

/// The number that a word stands for.
pub open spec fn word_value(w: Word) -> nat {
    (w.0 as nat) * 0x1_0000_0000_0000_0000_0000_0000_0000_0000 + (w.1 as nat)
}

/// Whether two addresses are the same address.
pub fn same_address(a: Address, b: Address) -> (same: bool)
    ensures
        same == (a == b),
{
    a.0 == b.0 && a.1 == b.1
}

/// Whether two words are the same word.
pub fn same_word(a: Word, b: Word) -> (same: bool)
    ensures
        same == (a == b),
{
    a.0 == b.0 && a.1 == b.1
}

/// The number that a sequence of bytes stands for, most significant byte
/// first.
pub open spec fn be_value(bytes: Seq<u8>) -> nat
    decreases bytes.len(),
{
    if bytes.len() == 0 {
        0
    } else {
        be_value(bytes.drop_last()) * 256 + bytes.last() as nat
    }
}

/// 256 to the power of `n`: the number of values that `n` bytes can take.
pub open spec fn pow256(n: nat) -> nat
    decreases n,
{
    if n == 0 {
        1
    } else {
        256 * pow256((n - 1) as nat)
    }
}

/// Sixteen bytes fill a `u128` exactly, and four bytes a `u32`.
pub proof fn lemma_pow256_of_widths()
    ensures
        pow256(4) == 0x1_0000_0000,
        pow256(16) == 0x1_0000_0000_0000_0000_0000_0000_0000_0000,
        forall|n: nat|
            n <= 16 ==> #[trigger] pow256(n) <= 0x1_0000_0000_0000_0000_0000_0000_0000_0000,
{
    reveal_with_fuel(pow256, 17);
    assert forall|n: nat| n <= 16 implies #[trigger] pow256(n)
        <= 0x1_0000_0000_0000_0000_0000_0000_0000_0000 by {
        lemma_pow256_grows(n, 16);
    }
}

/// More bytes can take more values.
pub proof fn lemma_pow256_grows(m: nat, n: nat)
    requires
        m <= n,
    ensures
        0 < pow256(m) <= pow256(n),
    decreases n,
{
    if m < n {
        lemma_pow256_grows(m, (n - 1) as nat);
    } else if n > 0 {
        lemma_pow256_grows((m - 1) as nat, (n - 1) as nat);
    }
}

/// A number written in `n` bytes is below 256 to the power of `n`.
pub proof fn lemma_be_value_bound(bytes: Seq<u8>)
    ensures
        be_value(bytes) < pow256(bytes.len()),
    decreases bytes.len(),
{
    if bytes.len() > 0 {
        lemma_be_value_bound(bytes.drop_last());
    }
}

/// The value of two byte strings written one after the other: the first
/// moves up by the length of the second.
pub proof fn lemma_be_value_concat(high: Seq<u8>, low: Seq<u8>)
    ensures
        be_value(high + low) == be_value(high) * pow256(low.len()) + be_value(low),
    decreases low.len(),
{
    if low.len() == 0 {
        assert(high + low =~= high);
        assert(be_value(high) * pow256(0) == be_value(high)) by {
            assert(pow256(0) == 1);
        }
    } else {
        let shorter = low.drop_last();
        lemma_be_value_concat(high, shorter);
        assert((high + low).drop_last() =~= high + shorter);
        assert((high + low).last() == low.last());
        let h = be_value(high) as int;
        let p = pow256(shorter.len()) as int;
        let s = be_value(shorter) as int;
        assert(be_value(high + low) == (h * p + s) * 256 + low.last() as nat);
        assert(pow256(low.len()) == 256 * p);
        assert(be_value(low) == s * 256 + low.last() as nat);
        assert((h * p + s) * 256 == h * (256 * p) + s * 256) by (nonlinear_arith);
        assert(be_value(high) * pow256(low.len()) == h * (256 * p));
    }
}

/// Byte strings of one length that stand for the same number are the same.
pub proof fn lemma_be_value_is_injective(left: Seq<u8>, right: Seq<u8>)
    requires
        left.len() == right.len(),
        be_value(left) == be_value(right),
    ensures
        left == right,
    decreases left.len(),
{
    if left.len() > 0 {
        lemma_be_value_is_injective(left.drop_last(), right.drop_last());
        assert(left =~= left.drop_last().push(left.last()));
        assert(right =~= right.drop_last().push(right.last()));
    } else {
        assert(left =~= right);
    }
}

/// The encoding of words is exact: two words have the same 32 bytes exactly
/// if they are the same word. Nothing of a word is cut off or filled in, so
/// distinct stack operands name distinct slots.
pub proof fn lemma_word_encoding_is_exact(
    left: Word,
    left_bytes: Seq<u8>,
    right: Word,
    right_bytes: Seq<u8>,
)
    requires
        left_bytes.len() == right_bytes.len(),
        be_value(left_bytes) == word_value(left),
        be_value(right_bytes) == word_value(right),
    ensures
        left == right <==> left_bytes == right_bytes,
{
    if left == right {
        lemma_be_value_is_injective(left_bytes, right_bytes);
    }
}

/// The encoding of addresses is exact: two addresses have the same 20 bytes
/// exactly if they are the same address.
pub proof fn lemma_address_encoding_is_exact(
    left: Address,
    left_bytes: Seq<u8>,
    right: Address,
    right_bytes: Seq<u8>,
)
    requires
        left_bytes.len() == right_bytes.len(),
        be_value(left_bytes) == address_value(left),
        be_value(right_bytes) == address_value(right),
    ensures
        left == right <==> left_bytes == right_bytes,
{
    if left == right {
        lemma_be_value_is_injective(left_bytes, right_bytes);
    }
}

/// Reads `count` bytes of `bytes` from `start` on as one number, most
/// significant byte first.
fn read_be(bytes: &[u8], start: usize, count: usize) -> (value: u128)
    requires
        count <= 16,
        start + count <= bytes@.len(),
    ensures
        value == be_value(bytes@.subrange(start as int, start + count)),
{
    let mut value: u128 = 0;
    let mut i: usize = 0;
    let len = bytes.len();
    assert(bytes@.subrange(start as int, start + 0) =~= Seq::<u8>::empty());
    while i < count
        invariant
            i <= count <= 16,
            start + count <= len,
            len == bytes@.len(),
            value == be_value(bytes@.subrange(start as int, start + i)),
        decreases count - i,
    {
        proof {
            let seen = bytes@.subrange(start as int, start + i);
            let next = bytes@.subrange(start as int, start + i + 1);
            assert(next.drop_last() =~= seen);
            assert(next.last() == bytes@[start + i]);
            lemma_be_value_bound(next);
            lemma_pow256_of_widths();
        }
        value = value * 256 + bytes[start + i] as u128;
        i = i + 1;
    }
    value
}

/// The word that 32 bytes encode, most significant byte first.
pub fn word_from_be_bytes(bytes: &[u8; 32]) -> (word: Word)
    ensures
        word_value(word) == be_value(bytes@),
{
    let high = read_be(bytes.as_slice(), 0, 16);
    let low = read_be(bytes.as_slice(), 16, 16);
    proof {
        lemma_be_value_concat(bytes@.subrange(0, 16), bytes@.subrange(16, 32));
        assert(bytes@.subrange(0, 16) + bytes@.subrange(16, 32) =~= bytes@);
        lemma_pow256_of_widths();
    }
    (high, low)
}

/// The address that 20 bytes encode, most significant byte first.
pub fn address_from_be_bytes(bytes: &[u8; 20]) -> (address: Address)
    ensures
        address_value(address) == be_value(bytes@),
{
    let high = read_be(bytes.as_slice(), 0, 4);
    let low = read_be(bytes.as_slice(), 4, 16);
    proof {
        lemma_be_value_concat(bytes@.subrange(0, 4), bytes@.subrange(4, 20));
        assert(bytes@.subrange(0, 4) + bytes@.subrange(4, 20) =~= bytes@);
        lemma_be_value_bound(bytes@.subrange(0, 4));
        lemma_pow256_of_widths();
    }
    (high as u32, low)
}

/// Writes `value` into the `count` bytes of `out` from `start` on, most
/// significant byte first, and leaves the other bytes alone.
fn write_be<const N: usize>(out: &mut [u8; N], start: usize, count: usize, value: u128)
    requires
        start + count <= N,
        value < pow256(count as nat),
    ensures
        be_value(final(out)@.subrange(start as int, start + count)) == value,
        forall|j: int|
            0 <= j < N && !(start <= j < start + count) ==> final(out)@[j] == old(out)@[j],
{
    let mut rest: u128 = value;
    let mut i: usize = count;
    assert(out@.subrange(start + count, start + count) =~= Seq::<u8>::empty());
    assert(rest * pow256(0) == rest) by {
        assert(pow256(0) == 1);
    }
    while i > 0
        invariant
            i <= count,
            start + count <= N,
            rest < pow256(i as nat),
            rest * pow256((count - i) as nat) + be_value(out@.subrange(start + i, start + count))
                == value,
            forall|j: int| 0 <= j < N && !(start <= j < start + count) ==> out@[j] == old(out)@[j],
        decreases i,
    {
        let ghost written = out@.subrange(start + i, start + count);
        let ghost carried = rest;
        i = i - 1;
        let byte = (rest % 256) as u8;
        out[start + i] = byte;
        rest = rest / 256;
        proof {
            let now = out@.subrange(start + i, start + count);
            assert(now =~= seq![byte] + written);
            lemma_be_value_concat(seq![byte], written);
            assert(be_value(seq![byte]) == byte as nat) by {
                reveal_with_fuel(be_value, 2);
                assert(seq![byte].drop_last() =~= Seq::<u8>::empty());
            }
            let p = pow256((count - i - 1) as nat) as int;
            assert(pow256((count - i) as nat) == 256 * p);
            assert(carried == rest * 256 + byte);
            assert((rest * 256 + byte) * p == rest * (256 * p) + byte * p) by (nonlinear_arith);
        }
    }
    assert(rest == 0) by {
        assert(pow256(0) == 1);
    }
}

/// The 32 bytes that encode a word, most significant byte first.
pub fn word_to_be_bytes(word: Word) -> (bytes: [u8; 32])
    ensures
        be_value(bytes@) == word_value(word),
{
    let mut bytes = [0u8; 32];
    proof {
        lemma_pow256_of_widths();
    }
    write_be(&mut bytes, 0, 16, word.0);
    let ghost high = bytes@.subrange(0, 16);
    write_be(&mut bytes, 16, 16, word.1);
    proof {
        assert(bytes@.subrange(0, 16) =~= high);
        lemma_be_value_concat(bytes@.subrange(0, 16), bytes@.subrange(16, 32));
        assert(bytes@.subrange(0, 16) + bytes@.subrange(16, 32) =~= bytes@);
    }
    bytes
}

/// The 20 bytes that encode an address, most significant byte first.
pub fn address_to_be_bytes(address: Address) -> (bytes: [u8; 20])
    ensures
        be_value(bytes@) == address_value(address),
{
    let mut bytes = [0u8; 20];
    proof {
        lemma_pow256_of_widths();
    }
    write_be(&mut bytes, 0, 4, address.0 as u128);
    let ghost high = bytes@.subrange(0, 4);
    write_be(&mut bytes, 4, 16, address.1);
    proof {
        assert(bytes@.subrange(0, 4) =~= high);
        lemma_be_value_concat(bytes@.subrange(0, 4), bytes@.subrange(4, 20));
        assert(bytes@.subrange(0, 4) + bytes@.subrange(4, 20) =~= bytes@);
    }
    bytes
}

} // verus!
