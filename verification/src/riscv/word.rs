//! Machine words: every instruction is one 32-bit word, stored as four bytes
//! with the least significant byte first.

use vstd::prelude::*;

verus! {

/// The four bytes of a word, least significant first.
pub open spec fn le_bytes(word: u32) -> Seq<u8> {
    seq![
        (word & 0xff) as u8,
        ((word >> 8) & 0xff) as u8,
        ((word >> 16) & 0xff) as u8,
        ((word >> 24) & 0xff) as u8,
    ]
}

/// The word that four bytes spell, least significant byte first.
pub open spec fn le_word(bytes: Seq<u8>) -> u32 {
    (bytes[0] as u32) | (bytes[1] as u32) << 8 | (bytes[2] as u32) << 16 | (bytes[3] as u32) << 24
}

/// Reading back the bytes of a word gives the word.
pub proof fn lemma_le_round_trip(word: u32)
    ensures
        le_bytes(word).len() == 4,
        le_word(le_bytes(word)) == word,
{
    let b0 = (word & 0xff) as u8;
    let b1 = ((word >> 8) & 0xff) as u8;
    let b2 = ((word >> 16) & 0xff) as u8;
    let b3 = ((word >> 24) & 0xff) as u8;
    assert(word == (b0 as u32) | (b1 as u32) << 8 | (b2 as u32) << 16 | (b3 as u32) << 24)
        by (bit_vector)
        requires
            b0 == (word & 0xff) as u8,
            b1 == ((word >> 8) & 0xff) as u8,
            b2 == ((word >> 16) & 0xff) as u8,
            b3 == ((word >> 24) & 0xff) as u8,
    ;
}

/// Two words with the same bytes are the same word.
pub proof fn lemma_le_bytes_injective(a: u32, b: u32)
    requires
        le_bytes(a) == le_bytes(b),
    ensures
        a == b,
{
    lemma_le_round_trip(a);
    lemma_le_round_trip(b);
}

/// Splits a word into its four bytes, least significant first.
pub fn to_le_bytes(word: u32) -> (bytes: Vec<u8>)
    ensures
        bytes@ == le_bytes(word),
        bytes@.len() == 4,
{
    let b0 = #[verifier::truncate] ((word & 0xff) as u8);
    let b1 = #[verifier::truncate] (((word >> 8) & 0xff) as u8);
    let b2 = #[verifier::truncate] (((word >> 16) & 0xff) as u8);
    let b3 = #[verifier::truncate] (((word >> 24) & 0xff) as u8);
    let mut bytes: Vec<u8> = Vec::with_capacity(4);
    bytes.push(b0);
    bytes.push(b1);
    bytes.push(b2);
    bytes.push(b3);
    assert(bytes@ =~= le_bytes(word));
    bytes
}

} // verus!
