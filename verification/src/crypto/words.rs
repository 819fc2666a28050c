//! Conversion between byte strings and big-endian 32-bit words.

use vstd::prelude::*;

verus! {

/// The big-endian value of the four bytes of `b` that start at `4 * i`.
pub open spec fn be_word(b: Seq<u8>, i: int) -> u32 {
    (b[4 * i] as int * 16777216 + b[4 * i + 1] as int * 65536 + b[4 * i + 2] as int * 256
        + b[4 * i + 3] as int) as u32
}

/// Byte `k` (0 is the most significant) of the big-endian encoding of `w`.
pub open spec fn word_byte(w: u32, k: int) -> u8 {
    if k == 0 {
        (w / 16777216) as u8
    } else if k == 1 {
        ((w / 65536) % 256) as u8
    } else if k == 2 {
        ((w / 256) % 256) as u8
    } else {
        (w % 256) as u8
    }
}

/// The words read from `b`, four bytes each; trailing bytes that do not fill
/// a word are dropped.
pub open spec fn bytes_to_words(b: Seq<u8>) -> Seq<u32> {
    Seq::new(b.len() / 4, |i: int| be_word(b, i))
}

/// The big-endian bytes of each word of `w`, in order.
pub open spec fn words_to_bytes(w: Seq<u32>) -> Seq<u8> {
    Seq::new(4 * w.len(), |i: int| word_byte(w[i / 4], i % 4))
}

proof fn lemma_word_bytes_value(w: u32)
    ensures
        word_byte(w, 0) as int * 16777216 + word_byte(w, 1) as int * 65536 + word_byte(w, 2) as int
            * 256 + word_byte(w, 3) as int == w as int,
{
    let x = w as int;
    assert(x / 16777216 < 256);
    assert((x / 16777216) * 16777216 + ((x / 65536) % 256) * 65536 + ((x / 256) % 256) * 256 + x
        % 256 == x) by (nonlinear_arith)
        requires
            0 <= x < 4294967296,
    ;
}

proof fn lemma_be_word_bytes(b0: u8, b1: u8, b2: u8, b3: u8)
    ensures
        ({
            let w = (b0 as int * 16777216 + b1 as int * 65536 + b2 as int * 256 + b3 as int) as u32;
            &&& word_byte(w, 0) == b0
            &&& word_byte(w, 1) == b1
            &&& word_byte(w, 2) == b2
            &&& word_byte(w, 3) == b3
        }),
{
    let x = b0 as int * 16777216 + b1 as int * 65536 + b2 as int * 256 + b3 as int;
    assert(x / 16777216 == b0 && (x / 65536) % 256 == b1 && (x / 256) % 256 == b2 && x % 256
        == b3) by (nonlinear_arith)
        requires
            x == b0 as int * 16777216 + b1 as int * 65536 + b2 as int * 256 + b3 as int,
            0 <= b0 < 256,
            0 <= b1 < 256,
            0 <= b2 < 256,
            0 <= b3 < 256,
    ;
}

/// Reads `data` as a sequence of big-endian 32-bit words. Only whole words
/// are read: a trailing group of fewer than four bytes is ignored.
pub fn bin_to_i32a(data: &[u8]) -> (result: Vec<u32>)
    ensures
        result@ == bytes_to_words(data@),
{
    let len = data.len();
    let n = len / 4;
    let mut result: Vec<u32> = Vec::with_capacity(n);
    let mut i: usize = 0;
    while i < n
        invariant
            len == data@.len(),
            n == len / 4,
            i <= n,
            result@.len() == i,
            forall|j: int| 0 <= j < i ==> result@[j] == be_word(data@, j),
        decreases n - i,
    {
        assert(4 * i + 3 < data@.len());
        let b0 = data[4 * i] as u32;
        let b1 = data[4 * i + 1] as u32;
        let b2 = data[4 * i + 2] as u32;
        let b3 = data[4 * i + 3] as u32;
        let w: u32 = b0 * 16777216 + b1 * 65536 + b2 * 256 + b3;
        result.push(w);
        i = i + 1;
    }
    assert(result@ =~= bytes_to_words(data@));
    result
}

/// Writes each word of `data` as four big-endian bytes.
pub fn i32a_to_bin(data: &[u32]) -> (result: Vec<u8>)
    requires
        4 * data@.len() <= usize::MAX,
    ensures
        result@ == words_to_bytes(data@),
{
    let mut result: Vec<u8> = Vec::with_capacity(4 * data.len());
    let mut i: usize = 0;
    while i < data.len()
        invariant
            4 * data@.len() <= usize::MAX,
            i <= data@.len(),
            result@.len() == 4 * i,
            forall|j: int| 0 <= j < 4 * i ==> result@[j] == word_byte(data@[j / 4], j % 4),
        decreases data@.len() - i,
    {
        let w = data[i];
        result.push((w / 16777216) as u8);
        result.push(((w / 65536) % 256) as u8);
        result.push(((w / 256) % 256) as u8);
        result.push((w % 256) as u8);
        assert forall|j: int| 4 * i <= j < 4 * i + 4 implies result@[j] == word_byte(
            data@[j / 4],
            j % 4,
        ) by {
            assert(j / 4 == i);
        }
        i = i + 1;
    }
    assert(result@ =~= words_to_bytes(data@));
    result
}

/// Writing words as bytes and reading them back gives the same words.
pub proof fn lemma_words_round_trip(w: Seq<u32>)
    ensures
        bytes_to_words(words_to_bytes(w)) == w,
{
    let b = words_to_bytes(w);
    assert forall|i: int| 0 <= i < w.len() implies #[trigger] be_word(b, i) == w[i] by {
        assert((4 * i) / 4 == i && (4 * i + 1) / 4 == i && (4 * i + 2) / 4 == i && (4 * i + 3) / 4
            == i);
        assert((4 * i) % 4 == 0 && (4 * i + 1) % 4 == 1 && (4 * i + 2) % 4 == 2 && (4 * i + 3) % 4
            == 3);
        lemma_word_bytes_value(w[i]);
    }
    assert(bytes_to_words(b) =~= w);
}

/// Reading words from bytes and writing them back gives the bytes of the
/// whole words, that is, the input without its trailing partial word.
pub proof fn lemma_bytes_round_trip(b: Seq<u8>)
    ensures
        words_to_bytes(bytes_to_words(b)) == b.take(4 * (b.len() / 4) as int),
{
    let w = bytes_to_words(b);
    let r = words_to_bytes(w);
    assert forall|j: int| 0 <= j < 4 * (b.len() / 4) implies #[trigger] r[j] == b[j] by {
        let i = j / 4;
        let k = j % 4;
        assert(0 <= i < b.len() / 4);
        assert(4 * i + k == j);
        lemma_be_word_bytes(b[4 * i], b[4 * i + 1], b[4 * i + 2], b[4 * i + 3]);
    }
    assert(r =~= b.take(4 * (b.len() / 4) as int));
}

} // verus!
