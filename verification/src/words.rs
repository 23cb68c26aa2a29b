//! The word stream: header words, instruction framing and literal strings.

use crate::error::ReflectError;
use crate::views::agrees;
use vstd::prelude::*;
use vstd::utf8::{decode_utf8, valid_utf8};

verus! {

/// The first word of every SPIR-V module.
pub const MAGIC_NUMBER: u32 = 0x0723_0203;

/// The number of header words before the first instruction.
pub const STARTING_WORD: usize = 5;

/// The number of bytes in a word.
pub const SPIRV_WORD_SIZE: usize = 4;

/// The word count in the upper half of an instruction's first word.
pub open spec fn spec_word_count(word: u32) -> u32 {
    word / 0x1_0000
}

/// The opcode in the lower half of an instruction's first word.
pub open spec fn spec_opcode(word: u32) -> u32 {
    word % 0x1_0000
}

/// The word count in the upper half of an instruction's first word.
pub fn word_count_of(word: u32) -> (count: u32)
    ensures
        count == spec_word_count(word),
        count <= 0xFFFF,
{
    word / 0x1_0000
}

/// The opcode in the lower half of an instruction's first word.
pub fn opcode_of(word: u32) -> (code: u32)
    ensures
        code == spec_opcode(word),
        code <= 0xFFFF,
{
    word % 0x1_0000
}

/// Byte `k` of `word`, the lowest byte first. Any `k` above 3 gives the
/// highest byte.
pub open spec fn spec_byte_of(word: u32, k: int) -> u8 {
    if k == 0 {
        (word % 0x100) as u8
    } else if k == 1 {
        ((word / 0x100) % 0x100) as u8
    } else if k == 2 {
        ((word / 0x1_0000) % 0x100) as u8
    } else {
        ((word / 0x100_0000) % 0x100) as u8
    }
}

/// Byte `k` of `word`, the lowest byte first.
pub fn byte_of(word: u32, k: usize) -> (byte: u8)
    ensures
        byte == spec_byte_of(word, k as int),
{
    if k == 0 {
        (word % 0x100) as u8
    } else if k == 1 {
        ((word / 0x100) % 0x100) as u8
    } else if k == 2 {
        ((word / 0x1_0000) % 0x100) as u8
    } else {
        ((word / 0x100_0000) % 0x100) as u8
    }
}

/// Byte `k` of the words that begin at `start`: four bytes to a word, the
/// lowest byte of each word first.
pub open spec fn spec_byte_at(words: Seq<u32>, start: int, k: int) -> u8 {
    spec_byte_of(words[start + k / 4], k % 4)
}

/// The place of the first zero byte at or after byte `k` of the words that
/// begin at `start`, or `limit` where there is none before it.
pub open spec fn spec_zero_from(words: Seq<u32>, start: int, k: int, limit: int) -> int
    decreases limit - k,
{
    if k >= limit {
        limit
    } else if spec_byte_at(words, start, k) == 0 {
        k
    } else {
        spec_zero_from(words, start, k + 1, limit)
    }
}

/// The bytes of the literal string in the words from `start` up to `end`:
/// those before the first zero byte. `None` where no byte is zero.
pub open spec fn spec_literal_bytes(words: Seq<u32>, start: int, end: int) -> Option<Seq<u8>> {
    let limit = 4 * (end - start);
    let len = spec_zero_from(words, start, 0, limit);
    if len < limit {
        Some(Seq::new(len as nat, |k: int| spec_byte_at(words, start, k)))
    } else {
        None
    }
}

/// The literal string in the words from `start` up to `end`. It must end in
/// a zero byte there and be UTF-8.
pub open spec fn spec_literal(
    words: Seq<u32>,
    start: int,
    end: int,
) -> Result<Seq<char>, ReflectError> {
    match spec_literal_bytes(words, start, end) {
        Some(bytes) => if valid_utf8(bytes) {
            Ok(decode_utf8(bytes))
        } else {
            Err(ReflectError::InvalidString)
        },
        None => Err(ReflectError::InvalidString),
    }
}

/// The number of words that a literal string of `len` bytes fills, its
/// zero byte included.
pub open spec fn spec_literal_words(len: int) -> int {
    (len + 1 + 3) / 4
}

/// The number of words that a literal string of `len` bytes fills, its
/// zero byte included.
pub fn literal_words(len: usize) -> (count: usize)
    ensures
        count == spec_literal_words(len as int),
        count == len / 4 + 1,
{
    len / 4 + 1
}

/// `String::from_utf8`: the bytes are turned into a string exactly when
/// they are UTF-8, and the string then holds the characters that they
/// encode.
#[verifier::external_body]
fn string_from_utf8(bytes: Vec<u8>) -> (text: Option<String>)
    ensures
        text.is_some() == valid_utf8(bytes@),
        text matches Some(s) ==> s@ == decode_utf8(bytes@),
{
    String::from_utf8(bytes).ok()
}

/// The bytes of the literal string in the words from `start` up to `end`.
pub fn literal_bytes(words: &Vec<u32>, start: usize, end: usize) -> (bytes: Option<Vec<u8>>)
    requires
        start <= end <= words@.len(),
    ensures
        match bytes {
            Some(b) => spec_literal_bytes(words@, start as int, end as int) == Some(b@),
            None => spec_literal_bytes(words@, start as int, end as int).is_none(),
        },
{
    let ghost limit: int = 4 * (end - start);
    let mut bytes: Vec<u8> = Vec::new();
    let mut w: usize = start;
    while w < end
        invariant
            start <= w <= end <= words@.len(),
            limit == 4 * (end - start),
            bytes@.len() == 4 * (w - start),
            spec_zero_from(words@, start as int, 0, limit) == spec_zero_from(
                words@,
                start as int,
                4 * (w - start),
                limit,
            ),
            forall|k: int|
                0 <= k < bytes@.len() ==> bytes@[k] == spec_byte_at(words@, start as int, k),
        decreases end - w,
    {
        let word = words[w];
        let mut k: usize = 0;
        while k < 4
            invariant
                start <= w < end <= words@.len(),
                limit == 4 * (end - start),
                k <= 4,
                word == words@[w as int],
                bytes@.len() == 4 * (w - start) + k,
                spec_zero_from(words@, start as int, 0, limit) == spec_zero_from(
                    words@,
                    start as int,
                    4 * (w - start) + k,
                    limit,
                ),
                forall|j: int|
                    0 <= j < bytes@.len() ==> bytes@[j] == spec_byte_at(words@, start as int, j),
            decreases 4 - k,
        {
            let byte = byte_of(word, k);
            let ghost at: int = 4 * (w - start) + k;
            assert(at / 4 == w - start && at % 4 == k);
            assert(byte == spec_byte_at(words@, start as int, at));
            if byte == 0 {
                assert(spec_zero_from(words@, start as int, at, limit) == at);
                assert(
                    bytes@ =~= Seq::new(at as nat, |j: int| spec_byte_at(words@, start as int, j))
                );
                return Some(bytes);
            }
            bytes.push(byte);
            k += 1;
        }
        w += 1;
    }
    None
}

/// The word whose bytes are `b0` to `b3`, the lowest first.
pub open spec fn spec_word_le(b0: u8, b1: u8, b2: u8, b3: u8) -> u32 {
    (b0 + 0x100 * b1 + 0x1_0000 * b2 + 0x100_0000 * b3) as u32
}

/// The word whose bytes are `b0` to `b3`, the highest first.
pub open spec fn spec_word_be(b0: u8, b1: u8, b2: u8, b3: u8) -> u32 {
    (b3 + 0x100 * b2 + 0x1_0000 * b1 + 0x100_0000 * b0) as u32
}

/// The words that `bytes` hold, four bytes to a word in the order of the
/// bytes: each word with its lowest byte first where `little` is true, and
/// with its highest byte first where it is not.
pub open spec fn spec_words_of(bytes: Seq<u8>, little: bool) -> Seq<u32> {
    Seq::new(
        bytes.len() / 4,
        |i: int|
            if little {
                spec_word_le(bytes[4 * i], bytes[4 * i + 1], bytes[4 * i + 2], bytes[4 * i + 3])
            } else {
                spec_word_be(bytes[4 * i], bytes[4 * i + 1], bytes[4 * i + 2], bytes[4 * i + 3])
            },
    )
}

/// `u32::from_ne_bytes`: the word that the host reads from four bytes of
/// memory. It has the first byte as its lowest on a little-endian host and
/// as its highest on a big-endian one.
#[verifier::external_body]
fn word_from_bytes(b0: u8, b1: u8, b2: u8, b3: u8) -> (word: u32)
    ensures
        word == spec_word_le(b0, b1, b2, b3) || word == spec_word_be(b0, b1, b2, b3),
{
    u32::from_ne_bytes([b0, b1, b2, b3])
}

/// The word whose bytes are `b0` to `b3`, in the byte order that `little`
/// names.
fn compose_word(b0: u8, b1: u8, b2: u8, b3: u8, little: bool) -> (word: u32)
    ensures
        word == if little {
            spec_word_le(b0, b1, b2, b3)
        } else {
            spec_word_be(b0, b1, b2, b3)
        },
{
    if little {
        b0 as u32 + 0x100 * (b1 as u32) + 0x1_0000 * (b2 as u32) + 0x100_0000 * (b3 as u32)
    } else {
        b3 as u32 + 0x100 * (b2 as u32) + 0x1_0000 * (b1 as u32) + 0x100_0000 * (b0 as u32)
    }
}

/// The words that `bytes` hold in the byte order that `little` names.
/// Bytes at the end that do not fill a word are left out.
pub fn words_from_bytes(bytes: &[u8], little: bool) -> (words: Vec<u32>)
    ensures
        words@ == spec_words_of(bytes@, little),
{
    let count = bytes.len() / SPIRV_WORD_SIZE;
    let mut words: Vec<u32> = Vec::with_capacity(count);
    let mut i: usize = 0;
    while i < count
        invariant
            i <= count,
            count == bytes@.len() / 4,
            bytes@.len() <= usize::MAX,
            words@.len() == i,
            forall|j: int| 0 <= j < i ==> words@[j] == spec_words_of(bytes@, little)[j],
        decreases count - i,
    {
        let at = 4 * i;
        words.push(compose_word(bytes[at], bytes[at + 1], bytes[at + 2], bytes[at + 3], little));
        i += 1;
    }
    assert(words@ =~= spec_words_of(bytes@, little));
    words
}

/// The words that the host reads from `bytes`: those that `bytes` hold in
/// the byte order of the host, which reads the bytes 1, 0, 0, 0 as the
/// word 1 where it is little-endian.
pub fn words_in_host_order(bytes: &[u8]) -> (words: Vec<u32>)
    ensures
        words@ == spec_words_of(bytes@, true) || words@ == spec_words_of(bytes@, false),
{
    let little = word_from_bytes(1, 0, 0, 0) == 1;
    words_from_bytes(bytes, little)
}

/// The first zero byte is found inside the limit or at it, and no byte
/// before it is zero.
pub proof fn lemma_zero_from(words: Seq<u32>, start: int, k: int, limit: int)
    requires
        0 <= k <= limit,
    ensures
        k <= spec_zero_from(words, start, k, limit) <= limit,
    decreases limit - k,
{
    if k < limit && spec_byte_at(words, start, k) != 0 {
        lemma_zero_from(words, start, k + 1, limit);
    }
}

/// A literal string that ends inside its words fills no more than these
/// words.
pub proof fn lemma_literal_words(words: Seq<u32>, start: int, end: int)
    requires
        start <= end,
        spec_literal_bytes(words, start, end).is_some(),
    ensures
        start + spec_literal_words(spec_literal_bytes(words, start, end).unwrap().len() as int)
            <= end,
{
    lemma_zero_from(words, start, 0, 4 * (end - start));
}

/// The literal string in the words from `start` up to `end`, and the
/// number of bytes that encode it.
pub fn literal_with_length(words: &Vec<u32>, start: usize, end: usize) -> (text: Result<
    (String, usize),
    ReflectError,
>)
    requires
        start <= end <= words@.len(),
    ensures
        match text {
            Ok((s, n)) => spec_literal(words@, start as int, end as int) == Ok::<
                Seq<char>,
                ReflectError,
            >(s@) && spec_literal_bytes(words@, start as int, end as int).is_some()
                && spec_literal_bytes(words@, start as int, end as int).unwrap().len() == n,
            Err(e) => spec_literal(words@, start as int, end as int) == Err::<
                Seq<char>,
                ReflectError,
            >(e),
        },
{
    match literal_bytes(words, start, end) {
        Some(bytes) => {
            let length = bytes.len();
            match string_from_utf8(bytes) {
                Some(s) => Ok((s, length)),
                None => Err(ReflectError::InvalidString),
            }
        },
        None => Err(ReflectError::InvalidString),
    }
}

/// The literal string in the words from `start` up to `end`.
pub fn literal(words: &Vec<u32>, start: usize, end: usize) -> (text: Result<String, ReflectError>)
    requires
        start <= end <= words@.len(),
    ensures
        agrees(text, spec_literal(words@, start as int, end as int)),
{
    match literal_with_length(words, start, end) {
        Ok((s, _)) => Ok(s),
        Err(e) => Err(e),
    }
}

} // verus!
