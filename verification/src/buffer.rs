//! Numbers in bytes, and bytes in memory of eight-byte numbers.
use vstd::bytes::{
    lemma_auto_spec_u64_to_from_le_bytes, spec_u64_from_le_bytes, spec_u64_to_le_bytes,
    u64_from_le_bytes,
};
use vstd::prelude::*;
use vstd::slice::slice_subrange;

verus! {

/// The 16-bit number that is stored at `at`, low byte first.
pub open spec fn le16(bytes: Seq<u8>, at: int) -> int {
    bytes[at] + 0x100 * bytes[at + 1]
}

/// The 32-bit number that is stored at `at`, low byte first.
pub open spec fn le32(bytes: Seq<u8>, at: int) -> int {
    le16(bytes, at) + 0x1_0000 * le16(bytes, at + 2)
}

/// Reads the 16-bit number that is stored at `at`.
pub fn read_le16(bytes: &[u8], at: usize) -> (number: u16)
    requires
        at + 2 <= bytes.len(),
    ensures
        number == le16(bytes@, at as int),
{
    bytes[at] as u16 + 0x100 * (bytes[at + 1] as u16)
}

/// Reads the 32-bit number that is stored at `at`.
pub fn read_le32(bytes: &[u8], at: usize) -> (number: u32)
    requires
        at + 4 <= bytes.len(),
    ensures
        number == le32(bytes@, at as int),
{
    read_le16(bytes, at) as u32 + 0x1_0000 * (read_le16(bytes, at + 2) as u32)
}

/// The lesser of two numbers.
pub open spec fn lesser(a: int, b: int) -> int {
    if a <= b {
        a
    } else {
        b
    }
}

/// The greater of two numbers.
pub open spec fn greater(a: int, b: int) -> int {
    if a >= b {
        a
    } else {
        b
    }
}

/// The bytes of eight-byte numbers, low byte first.
pub open spec fn stored(words: Seq<u64>) -> Seq<u8> {
    Seq::new(8 * words.len(), |i: int| spec_u64_to_le_bytes(words[i / 8])[i % 8])
}

/// One more number adds its eight bytes.
proof fn lemma_stored_push(words: Seq<u64>, bytes: Seq<u8>)
    requires
        bytes.len() == 8,
    ensures
        stored(words.push(spec_u64_from_le_bytes(bytes))) == stored(words) + bytes,
{
    let word = spec_u64_from_le_bytes(bytes);
    lemma_auto_spec_u64_to_from_le_bytes();
    assert(spec_u64_to_le_bytes(word) == bytes);
    assert(stored(words.push(word)) =~= stored(words) + bytes);
}

/// Stores bytes as eight-byte numbers. Zeros fill the last one up.
pub fn store(bytes: &[u8]) -> (words: Vec<u64>)
    ensures
        bytes.len() <= 8 * words.len() < bytes.len() + 8,
        stored(words@).take(bytes.len() as int) == bytes@,
        forall|i: int| bytes.len() <= i < 8 * words.len() ==> stored(words@)[i] == 0,
{
    let mut words: Vec<u64> = Vec::new();
    let mut at: usize = 0;
    assert(stored(words@) =~= bytes@.take(0));
    while bytes.len() - at >= 8
        invariant
            at <= bytes.len(),
            at == 8 * words.len(),
            stored(words@) == bytes@.take(at as int),
        decreases bytes.len() - at,
    {
        let next = slice_subrange(bytes, at, at + 8);
        proof {
            lemma_stored_push(words@, next@);
        }
        words.push(u64_from_le_bytes(next));
        at += 8;
        assert(stored(words@) =~= bytes@.take(at as int));
    }
    if at < bytes.len() {
        let mut last: Vec<u8> = Vec::new();
        while last.len() < 8
            invariant
                at < bytes.len() < at + 8,
                last.len() <= 8,
                forall|i: int|
                    0 <= i < last.len() && at + i < bytes.len() ==> last@[i] == bytes@[at + i],
                forall|i: int|
                    0 <= i < last.len() && at + i >= bytes.len() ==> last@[i] == 0,
            decreases 8 - last.len(),
        {
            let byte: u8 = if last.len() < bytes.len() - at {
                bytes[at + last.len()]
            } else {
                0
            };
            last.push(byte);
        }
        proof {
            lemma_stored_push(words@, last@);
        }
        words.push(u64_from_le_bytes(last.as_slice()));
    }
    assert(stored(words@).take(bytes.len() as int) =~= bytes@);
    words
}

} // verus!
