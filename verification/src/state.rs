//! The serialised plugin state: the parameter block as little-endian 32-bit
//! words, and the rule that tells the current layout from an earlier one.

use vstd::prelude::*;

use crate::contract::{PARAMETER_COUNT, PREVIOUS_PARAMETER_COUNTS};

verus! {

/// Length of the serialised state, in bytes.
pub const STATE_BYTES: usize = PARAMETER_COUNT * 4;

/// Byte `k` (0 = least significant) of a word.
pub open spec fn word_byte(word: u32, k: int) -> u8 {
    if k == 0 {
        (word % 256) as u8
    } else if k == 1 {
        ((word / 256) % 256) as u8
    } else if k == 2 {
        ((word / 65536) % 256) as u8
    } else {
        (word / 16777216) as u8
    }
}

/// The word whose little-endian bytes are `b0 b1 b2 b3`.
pub open spec fn word_from_bytes(b0: u8, b1: u8, b2: u8, b3: u8) -> u32 {
    (b0 + 256 * b1 + 65536 * b2 + 16777216 * b3) as u32
}

/// The bytes a block of words is written as.
pub open spec fn encoded(words: Seq<u32>) -> Seq<u8> {
    Seq::new(words.len() * 4, |i: int| word_byte(words[i / 4], i % 4))
}

/// Word `i` of a byte block.
pub open spec fn word_at(bytes: Seq<u8>, i: int) -> u32 {
    word_from_bytes(bytes[4 * i], bytes[4 * i + 1], bytes[4 * i + 2], bytes[4 * i + 3])
}

/// A block of `count` words is a layout this build can read: the current
/// one, or one it has grown out of.
pub open spec fn is_known_layout(count: int) -> bool {
    count == PARAMETER_COUNT || count == PREVIOUS_PARAMETER_COUNTS[0]
}

/// What a saved block decodes to: its words when its length is a whole
/// number of words and names a known layout, and nothing otherwise.
pub open spec fn decoded(bytes: Seq<u8>) -> Option<Seq<u32>> {
    if bytes.len() % 4 == 0 && is_known_layout((bytes.len() / 4) as int) {
        Some(Seq::new(bytes.len() / 4, |i: int| word_at(bytes, i)))
    } else {
        None
    }
}

proof fn lemma_byte_split(word: u32)
    ensures
        (word & 0xff) as u8 == word_byte(word, 0),
        ((word >> 8u32) & 0xff) as u8 == word_byte(word, 1),
        ((word >> 16u32) & 0xff) as u8 == word_byte(word, 2),
        (word >> 24u32) as u8 == word_byte(word, 3),
{
    assert((word & 0xff) == word % 256) by (bit_vector);
    assert(((word >> 8u32) & 0xff) == (word / 256) % 256) by (bit_vector);
    assert(((word >> 16u32) & 0xff) == (word / 65536) % 256) by (bit_vector);
    assert((word >> 24u32) == word / 16777216) by (bit_vector);
}

proof fn lemma_byte_join(b0: u8, b1: u8, b2: u8, b3: u8)
    ensures
        (b0 as u32) | ((b1 as u32) << 8u32) | ((b2 as u32) << 16u32) | ((b3 as u32) << 24u32)
            == word_from_bytes(b0, b1, b2, b3),
{
    assert((b0 as u32) | ((b1 as u32) << 8u32) | ((b2 as u32) << 16u32) | ((b3 as u32) << 24u32)
        == (b0 as u32) + 256 * (b1 as u32) + 65536 * (b2 as u32) + 16777216 * (b3 as u32)) by (bit_vector);
}

/// Reading the bytes of a word back gives the word.
pub proof fn lemma_word_round_trip(word: u32)
    ensures
        word_from_bytes(word_byte(word, 0), word_byte(word, 1), word_byte(word, 2), word_byte(word, 3)) == word,
{
    let b0 = word_byte(word, 0);
    let b1 = word_byte(word, 1);
    let b2 = word_byte(word, 2);
    let b3 = word_byte(word, 3);
    assert(b0 + 256 * b1 + 65536 * b2 + 16777216 * b3 == word) by (nonlinear_arith)
        requires
            b0 == word % 256,
            b1 == (word / 256) % 256,
            b2 == (word / 65536) % 256,
            b3 == word / 16777216,
            word < 4294967296,
    ;
}

/// Writes the parameter block into `destination`. Refuses, and leaves the
/// destination untouched, when it cannot hold a whole block.
pub fn save_state(words: &[u32; PARAMETER_COUNT], destination: &mut [u8]) -> (written: Option<usize>)
    ensures
        old(destination)@.len() < STATE_BYTES ==> written is None && final(destination)@ == old(destination)@,
        old(destination)@.len() >= STATE_BYTES ==> {
            &&& written == Some(STATE_BYTES)
            &&& final(destination)@ == encoded(words@) + old(destination)@.skip(STATE_BYTES as int)
        },
{
    if destination.len() < STATE_BYTES {
        return None;
    }
    let mut index: usize = 0;
    while index < PARAMETER_COUNT
        invariant
            0 <= index <= PARAMETER_COUNT,
            destination@.len() == old(destination)@.len(),
            destination@.len() >= STATE_BYTES,
            forall|i: int| 0 <= i < 4 * index ==> destination@[i] == word_byte(words@[i / 4], i % 4),
            forall|i: int| 4 * index <= i < destination@.len() ==> destination@[i] == old(destination)@[i],
        decreases PARAMETER_COUNT - index,
    {
        let word = words[index];
        proof {
            lemma_byte_split(word);
        }
        let base = 4 * index;
        destination[base] = (word & 0xff) as u8;
        destination[base + 1] = ((word >> 8u32) & 0xff) as u8;
        destination[base + 2] = ((word >> 16u32) & 0xff) as u8;
        destination[base + 3] = (word >> 24u32) as u8;
        index += 1;
    }
    assert(destination@ =~= encoded(words@) + old(destination)@.skip(STATE_BYTES as int));
    Some(STATE_BYTES)
}

/// Reads a saved block back into words, including one written by an earlier
/// build. A length that belongs to no layout is refused outright.
pub fn load_state(state: &[u8]) -> (words: Option<Vec<u32>>)
    ensures
        words matches Some(w) ==> decoded(state@) == Some(w@),
        words is None ==> decoded(state@) is None,
{
    if state.len() % 4 != 0 {
        return None;
    }
    let count = state.len() / 4;
    if count != PARAMETER_COUNT && count != PREVIOUS_PARAMETER_COUNTS[0] {
        return None;
    }
    let mut words: Vec<u32> = Vec::new();
    let mut index: usize = 0;
    while index < count
        invariant
            0 <= index <= count,
            count == state@.len() / 4,
            count <= PARAMETER_COUNT,
            state@.len() % 4 == 0,
            words@.len() == index,
            forall|i: int| 0 <= i < index ==> words@[i] == word_at(state@, i),
        decreases count - index,
    {
        let base = 4 * index;
        let b0 = state[base];
        let b1 = state[base + 1];
        let b2 = state[base + 2];
        let b3 = state[base + 3];
        proof {
            lemma_byte_join(b0, b1, b2, b3);
        }
        words.push((b0 as u32) | ((b1 as u32) << 8u32) | ((b2 as u32) << 16u32) | ((b3 as u32) << 24u32));
        index += 1;
    }
    assert(words@ =~= Seq::new(state@.len() / 4, |i: int| word_at(state@, i)));
    Some(words)
}

proof fn lemma_words_of_encoding(words: Seq<u32>, i: int)
    requires
        0 <= i < words.len(),
    ensures
        word_at(encoded(words), i) == words[i],
{
    let bytes = encoded(words);
    assert((4 * i) / 4 == i && (4 * i) % 4 == 0);
    assert((4 * i + 1) / 4 == i && (4 * i + 1) % 4 == 1);
    assert((4 * i + 2) / 4 == i && (4 * i + 2) % 4 == 2);
    assert((4 * i + 3) / 4 == i && (4 * i + 3) % 4 == 3);
    lemma_word_round_trip(words[i]);
}

/// A saved block loads back to exactly the words that were saved.
pub proof fn lemma_state_round_trip(words: Seq<u32>)
    requires
        words.len() == PARAMETER_COUNT,
    ensures
        decoded(encoded(words)) == Some(words),
{
    let bytes = encoded(words);
    assert(bytes.len() / 4 == PARAMETER_COUNT);
    assert forall|i: int| 0 <= i < words.len() implies word_at(bytes, i) == words[i] by {
        lemma_words_of_encoding(words, i);
    }
    assert(Seq::new(bytes.len() / 4, |i: int| word_at(bytes, i)) =~= words);
}

/// A block in the layout before the last parameter was appended still loads:
/// it gives back the words it holds, and nothing for the parameters it
/// predates.
pub proof fn lemma_earlier_layout_loads(words: Seq<u32>)
    requires
        words.len() == PREVIOUS_PARAMETER_COUNTS[0],
    ensures
        decoded(encoded(words)) == Some(words),
{
    let bytes = encoded(words);
    assert(bytes.len() / 4 == PREVIOUS_PARAMETER_COUNTS[0]);
    assert forall|i: int| 0 <= i < words.len() implies word_at(bytes, i) == words[i] by {
        lemma_words_of_encoding(words, i);
    }
    assert(Seq::new(bytes.len() / 4, |i: int| word_at(bytes, i)) =~= words);
}

/// Cutting the current block down to an earlier layout is a migration: the
/// words it keeps load back unchanged.
pub proof fn lemma_truncated_block_is_a_migration(words: Seq<u32>)
    requires
        words.len() == PARAMETER_COUNT,
    ensures
        decoded(encoded(words).take(4 * PREVIOUS_PARAMETER_COUNTS[0])) == Some(words.take(PREVIOUS_PARAMETER_COUNTS[0] as int)),
{
    let older = words.take(PREVIOUS_PARAMETER_COUNTS[0] as int);
    assert(encoded(words).take(4 * PREVIOUS_PARAMETER_COUNTS[0]) =~= encoded(older));
    lemma_earlier_layout_loads(older);
}

/// The block a restore produces from per-value verdicts: the canonical word
/// each leading value was validated to, and the default for every parameter
/// the block predates. A block with more values than parameters, or with one
/// refused value, produces nothing: a restore is all or nothing.
pub open spec fn restored(verdicts: Seq<Option<u32>>, defaults: Seq<u32>) -> Option<Seq<u32>> {
    if verdicts.len() <= PARAMETER_COUNT && forall|i: int| 0 <= i < verdicts.len() ==> (#[trigger] verdicts[i]) is Some {
        Some(Seq::new(PARAMETER_COUNT as nat, |i: int| if i < verdicts.len() { verdicts[i]->0 } else { defaults[i] }))
    } else {
        None
    }
}

/// Builds the parameter block a restore leaves behind. `verdicts[i]` is what
/// validating the `i`-th saved value gave: its canonical word, or `None` when
/// the contract refuses it. Parameters past the end of the saved block keep
/// their defaults; one refused value, or a value with no parameter to hold it,
/// refuses the whole block.
pub fn restore_block(verdicts: &[Option<u32>], defaults: &[u32; PARAMETER_COUNT]) -> (block: Option<[u32; PARAMETER_COUNT]>)
    ensures
        block matches Some(b) ==> restored(verdicts@, defaults@) == Some(b@),
        block is None ==> restored(verdicts@, defaults@) is None,
{
    if verdicts.len() > PARAMETER_COUNT {
        return None;
    }
    let mut block: [u32; PARAMETER_COUNT] = *defaults;
    let mut index: usize = 0;
    while index < verdicts.len()
        invariant
            0 <= index <= verdicts@.len(),
            verdicts@.len() <= PARAMETER_COUNT,
            block@.len() == PARAMETER_COUNT,
            forall|i: int| 0 <= i < index ==> (#[trigger] verdicts@[i]) is Some && block@[i] == verdicts@[i]->0,
            forall|i: int| index <= i < PARAMETER_COUNT ==> block@[i] == defaults@[i],
        decreases verdicts@.len() - index,
    {
        match verdicts[index] {
            Some(word) => {
                block[index] = word;
            },
            None => {
                return None;
            },
        }
        index += 1;
    }
    assert(block@ =~= Seq::new(
        PARAMETER_COUNT as nat,
        |i: int| if i < verdicts@.len() { verdicts@[i]->0 } else { defaults@[i] },
    ));
    Some(block)
}

/// Validating a restored block is all or nothing: when every value of a
/// saved block is accepted as it stands, the restore gives back exactly the
/// saved words, followed by the defaults of the parameters it predates.
pub proof fn lemma_accepted_block_restores_unchanged(words: Seq<u32>, defaults: Seq<u32>)
    requires
        words.len() <= PARAMETER_COUNT,
        defaults.len() == PARAMETER_COUNT,
    ensures
        restored(words.map_values(|w: u32| Some(w)), defaults) == Some(
            words + defaults.subrange(words.len() as int, PARAMETER_COUNT as int),
        ),
{
    let verdicts = words.map_values(|w: u32| Some(w));
    assert(forall|i: int| 0 <= i < verdicts.len() ==> (#[trigger] verdicts[i]) is Some);
    assert(Seq::new(PARAMETER_COUNT as nat, |i: int| if i < verdicts.len() { verdicts[i]->0 } else { defaults[i] })
        =~= words + defaults.subrange(words.len() as int, PARAMETER_COUNT as int));
}

} // verus!
