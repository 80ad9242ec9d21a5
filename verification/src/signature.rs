//! The byte signatures that betray a known injection technique.

use vstd::prelude::*;

verus! {

/// The names under which the known signatures are reported.
#[derive(Clone, Copy, Debug, PartialEq, Eq, Structural)]
pub enum SignatureName {
    S1,
    S2,
}

/// A named byte pattern. A signature never changes once it is compiled.
#[derive(Debug)]
pub struct Signature {
    pub name: SignatureName,
    pub pattern: Vec<u8>,
}

/// The words from which the first signature is compiled.
pub const S1_WORDS: [u32; 4] = [4242546329, 4601, 0, 0];

/// The words from which the second signature is compiled.
pub const S2_WORDS: [u32; 4] = [4242546329, 505, 0, 0];

/// The four bytes of `word`, least significant first.
pub open spec fn word_bytes(word: u32) -> Seq<u8> {
    seq![
        (word & 0xff) as u8,
        ((word >> 8) & 0xff) as u8,
        ((word >> 16) & 0xff) as u8,
        ((word >> 24) & 0xff) as u8,
    ]
}

/// The bytes of each word of `words` in turn, each word least significant byte first.
pub open spec fn pattern_of(words: Seq<u32>) -> Seq<u8>
    decreases words.len(),
{
    if words.len() == 0 {
        Seq::empty()
    } else {
        pattern_of(words.drop_last()) + word_bytes(words.last())
    }
}

/// The pattern of the first signature, byte by byte.
pub open spec fn s1_pattern() -> Seq<u8> {
    seq![153u8, 30, 224, 252, 249, 17, 0, 0, 0, 0, 0, 0, 0, 0, 0, 0]
}

/// The pattern of the second signature, byte by byte.
pub open spec fn s2_pattern() -> Seq<u8> {
    seq![153u8, 30, 224, 252, 249, 1, 0, 0, 0, 0, 0, 0, 0, 0, 0, 0]
}

/// Every word contributes exactly four bytes to a pattern.
pub proof fn lemma_pattern_len(words: Seq<u32>)
    ensures
        pattern_of(words).len() == 4 * words.len(),
    decreases words.len(),
{
    if words.len() > 0 {
        lemma_pattern_len(words.drop_last());
    }
}

/// Compiles a pattern from its numeric encoding.
pub fn compile_pattern(words: &[u32]) -> (pattern: Vec<u8>)
    ensures
        pattern@ == pattern_of(words@),
        pattern@.len() == 4 * words@.len(),
{
    let mut pattern: Vec<u8> = Vec::new();
    let mut k: usize = 0;
    while k < words.len()
        invariant
            k <= words.len(),
            pattern@ == pattern_of(words@.take(k as int)),
        decreases words.len() - k,
    {
        let word: u32 = words[k];
        let b0: u8 = (word & 0xff) as u8;
        let b1: u8 = ((word >> 8) & 0xff) as u8;
        let b2: u8 = ((word >> 16) & 0xff) as u8;
        let b3: u8 = ((word >> 24) & 0xff) as u8;
        proof {
            let before = words@.take(k as int);
            let after = words@.take(k + 1);
            assert(after.drop_last() == before);
        }
        pattern.push(b0);
        pattern.push(b1);
        pattern.push(b2);
        pattern.push(b3);
        k += 1;
    }
    proof {
        assert(words@.take(k as int) == words@);
        lemma_pattern_len(words@);
    }
    pattern
}

/// `table` is the built-in table: the first signature, then the second.
pub open spec fn is_known_table(table: Seq<Signature>) -> bool {
    &&& table.len() == 2
    &&& table[0].name == SignatureName::S1
    &&& table[0].pattern@ == s1_pattern()
    &&& table[1].name == SignatureName::S2
    &&& table[1].pattern@ == s2_pattern()
}

/// The numeric encodings compile to the byte patterns written out above.
pub proof fn lemma_known_patterns()
    ensures
        pattern_of(S1_WORDS@) == s1_pattern(),
        pattern_of(S2_WORDS@) == s2_pattern(),
{
    reveal_with_fuel(pattern_of, 5);
    assert(word_bytes(4242546329u32) == seq![153u8, 30, 224, 252]) by {
        assert(4242546329u32 & 0xff == 153) by (bit_vector);
        assert((4242546329u32 >> 8) & 0xff == 30) by (bit_vector);
        assert((4242546329u32 >> 16) & 0xff == 224) by (bit_vector);
        assert((4242546329u32 >> 24) & 0xff == 252) by (bit_vector);
    }
    assert(word_bytes(4601u32) == seq![249u8, 17, 0, 0]) by {
        assert(4601u32 & 0xff == 249) by (bit_vector);
        assert((4601u32 >> 8) & 0xff == 17) by (bit_vector);
        assert((4601u32 >> 16) & 0xff == 0) by (bit_vector);
        assert((4601u32 >> 24) & 0xff == 0) by (bit_vector);
    }
    assert(word_bytes(505u32) == seq![249u8, 1, 0, 0]) by {
        assert(505u32 & 0xff == 249) by (bit_vector);
        assert((505u32 >> 8) & 0xff == 1) by (bit_vector);
        assert((505u32 >> 16) & 0xff == 0) by (bit_vector);
        assert((505u32 >> 24) & 0xff == 0) by (bit_vector);
    }
    assert(word_bytes(0u32) == seq![0u8, 0, 0, 0]) by {
        assert(0u32 & 0xff == 0) by (bit_vector);
        assert((0u32 >> 8) & 0xff == 0) by (bit_vector);
        assert((0u32 >> 16) & 0xff == 0) by (bit_vector);
        assert((0u32 >> 24) & 0xff == 0) by (bit_vector);
    }
    let w1 = S1_WORDS@;
    assert(pattern_of(w1) == Seq::<u8>::empty() + word_bytes(w1[0]) + word_bytes(w1[1])
        + word_bytes(w1[2]) + word_bytes(w1[3]));
    let w2 = S2_WORDS@;
    assert(pattern_of(w2) == Seq::<u8>::empty() + word_bytes(w2[0]) + word_bytes(w2[1])
        + word_bytes(w2[2]) + word_bytes(w2[3]));
}

/// The built-in table of signatures, compiled from their numeric encodings.
pub fn known_signatures() -> (table: Vec<Signature>)
    ensures
        is_known_table(table@),
{
    proof {
        lemma_known_patterns();
    }
    let first = Signature { name: SignatureName::S1, pattern: compile_pattern(&S1_WORDS) };
    let second = Signature { name: SignatureName::S2, pattern: compile_pattern(&S2_WORDS) };
    let mut table: Vec<Signature> = Vec::new();
    table.push(first);
    table.push(second);
    table
}

} // verus!
