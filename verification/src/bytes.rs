//! Numbers as the bytes that carry them.

use vstd::prelude::*;

verus! {

/// The 16-bit number with low byte `lo` and high byte `hi`.
pub open spec fn spec_le16(lo: u8, hi: u8) -> u16 {
    (lo as int + 256 * (hi as int)) as u16
}

/// The 32-bit number whose bytes are `b0` to `b3`, lowest first.
pub open spec fn spec_le32(b0: u8, b1: u8, b2: u8, b3: u8) -> u32 {
    (b0 as int + 256 * (b1 as int) + 65536 * (b2 as int) + 16777216 * (b3 as int)) as u32
}

/// Byte `k` of `word`, counted from the lowest.
pub open spec fn spec_byte_of(word: u32, k: int) -> u8 {
    if k == 0 {
        (word % 256) as u8
    } else if k == 1 {
        ((word / 256) % 256) as u8
    } else if k == 2 {
        ((word / 65536) % 256) as u8
    } else {
        (word / 16777216) as u8
    }
}

/// The first `n` 32-bit words of `bytes`, each with its lowest byte first.
pub open spec fn spec_words(bytes: Seq<u8>, n: nat) -> Seq<u32> {
    Seq::new(
        n,
        |k: int| spec_le32(bytes[4 * k], bytes[4 * k + 1], bytes[4 * k + 2], bytes[4 * k + 3]),
    )
}

/// The bytes of `words`, four for each word, lowest first.
pub open spec fn spec_word_bytes(words: Seq<u32>) -> Seq<u8> {
    Seq::new(4 * words.len(), |i: int| spec_byte_of(words[i / 4], i % 4))
}

pub fn le16(lo: u8, hi: u8) -> (n: u16)
    ensures
        n == spec_le16(lo, hi),
{
    lo as u16 + 256 * (hi as u16)
}

pub fn le32(b0: u8, b1: u8, b2: u8, b3: u8) -> (n: u32)
    ensures
        n == spec_le32(b0, b1, b2, b3),
{
    b0 as u32 + 256 * (b1 as u32) + 65536 * (b2 as u32) + 16777216 * (b3 as u32)
}

/// The words of `bytes[from..]`, `count` of them.
pub fn read_words(bytes: &[u8], from: usize, count: usize) -> (words: Vec<u32>)
    requires
        from + 4 * count <= bytes@.len(),
    ensures
        words@ == spec_words(bytes@.subrange(from as int, bytes@.len() as int), count as nat),
{
    let total: usize = bytes.len();
    let mut words: Vec<u32> = Vec::new();
    let mut k: usize = 0;
    while k < count
        invariant
            k <= count,
            from + 4 * count <= bytes@.len() == total,
            words@.len() == k,
            forall|j: int|
                0 <= j < k ==> #[trigger] words@[j] == spec_le32(
                    bytes@[from + 4 * j],
                    bytes@[from + 4 * j + 1],
                    bytes@[from + 4 * j + 2],
                    bytes@[from + 4 * j + 3],
                ),
        decreases count - k,
    {
        let at: usize = from + 4 * k;
        words.push(le32(bytes[at], bytes[at + 1], bytes[at + 2], bytes[at + 3]));
        k += 1;
    }
    assert(words@ =~= spec_words(bytes@.subrange(from as int, bytes@.len() as int), count as nat));
    words
}

/// Appends the four bytes of `word` to `out`, lowest first.
pub fn push_word(out: &mut Vec<u8>, word: u32)
    ensures
        final(out)@ == old(out)@ + spec_word_bytes(seq![word]),
{
    out.push((word % 256) as u8);
    out.push(((word / 256) % 256) as u8);
    out.push(((word / 65536) % 256) as u8);
    out.push((word / 16777216) as u8);
    assert(out@ =~= old(out)@ + spec_word_bytes(seq![word]));
}

/// The bytes of a longer sequence of words are those of its front and
/// those of its last word.
pub proof fn lemma_word_bytes_push(words: Seq<u32>, word: u32)
    ensures
        spec_word_bytes(words.push(word)) == spec_word_bytes(words) + spec_word_bytes(seq![word]),
{
    assert(spec_word_bytes(words.push(word)) =~= spec_word_bytes(words) + spec_word_bytes(
        seq![word],
    ));
}

/// The bytes of a word spell that word.
pub proof fn lemma_word_of_bytes(word: u32)
    ensures
        spec_le32(
            spec_byte_of(word, 0),
            spec_byte_of(word, 1),
            spec_byte_of(word, 2),
            spec_byte_of(word, 3),
        ) == word,
{
}

/// Reading `count` words from the bytes of `words`, from word `from` on,
/// gives those words back.
pub proof fn lemma_words_of_bytes(words: Seq<u32>, from: int, count: int)
    requires
        0 <= from,
        0 <= count,
        from + count <= words.len(),
    ensures
        spec_words(
            spec_word_bytes(words).subrange(4 * from, spec_word_bytes(words).len() as int),
            count as nat,
        ) == words.subrange(from, from + count),
{
    let bytes = spec_word_bytes(words);
    let tail = bytes.subrange(4 * from, bytes.len() as int);
    let got = spec_words(tail, count as nat);
    let want = words.subrange(from, from + count);
    assert forall|k: int| 0 <= k < count implies #[trigger] got[k] == want[k] by {
        let w = words[from + k];
        lemma_word_of_bytes(w);
        assert(tail[4 * k] == bytes[4 * (from + k)]);
        assert(tail[4 * k + 1] == bytes[4 * (from + k) + 1]);
        assert(tail[4 * k + 2] == bytes[4 * (from + k) + 2]);
        assert(tail[4 * k + 3] == bytes[4 * (from + k) + 3]);
        assert(bytes[4 * (from + k)] == spec_byte_of(w, 0));
        assert(bytes[4 * (from + k) + 1] == spec_byte_of(w, 1));
        assert(bytes[4 * (from + k) + 2] == spec_byte_of(w, 2));
        assert(bytes[4 * (from + k) + 3] == spec_byte_of(w, 3));
    }
    assert(got =~= want);
}

} // verus!
