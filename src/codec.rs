use vstd::prelude::*;

verus! {

/// Number of pixel values in one input frame (a 28 by 28 image, row-major).
pub const INPUT_VALUES: usize = 784;

/// Byte length of one inbound binary payload.
pub const INPUT_FRAME_BYTES: usize = 3136;

/// Number of classes scored by the model.
pub const CLASS_COUNT: usize = 10;

/// Byte length of one outbound binary payload.
pub const OUTPUT_FRAME_BYTES: usize = 40;

/// The big-endian 32-bit word made of four bytes.
pub open spec fn be_word(b0: u8, b1: u8, b2: u8, b3: u8) -> u32 {
    ((b0 as u32) << 24u32) | ((b1 as u32) << 16u32) | ((b2 as u32) << 8u32) | (b3 as u32)
}

/// The `i`-th big-endian word of a byte sequence.
pub open spec fn word_at(bytes: Seq<u8>, i: int) -> u32 {
    be_word(bytes[4 * i], bytes[4 * i + 1], bytes[4 * i + 2], bytes[4 * i + 3])
}

/// The words of a byte sequence, four bytes each (a trailing partial word is dropped).
pub open spec fn words_of(bytes: Seq<u8>) -> Seq<u32> {
    Seq::new((bytes.len() / 4) as nat, |i: int| word_at(bytes, i))
}

/// Byte `k` (0 = most significant) of the big-endian form of `w`.
pub open spec fn byte_of(w: u32, k: int) -> u8 {
    if k == 0 {
        (w >> 24u32) as u8
    } else if k == 1 {
        (w >> 16u32) as u8
    } else if k == 2 {
        (w >> 8u32) as u8
    } else {
        w as u8
    }
}

/// The big-endian bytes of a sequence of words, four per word.
pub open spec fn bytes_of(words: Seq<u32>) -> Seq<u8> {
    Seq::new(4 * words.len(), |j: int| byte_of(words[j / 4], j % 4))
}

/// What an inbound binary payload decodes to: the pixel words when the
/// length is exactly one frame, nothing otherwise.
pub open spec fn decoded(payload: Seq<u8>) -> Option<Seq<u32>> {
    if payload.len() == INPUT_FRAME_BYTES {
        Some(words_of(payload))
    } else {
        None
    }
}

proof fn lemma_be_word_bytes(w: u32)
    ensures
        be_word(byte_of(w, 0), byte_of(w, 1), byte_of(w, 2), byte_of(w, 3)) == w,
{
    assert(((((w >> 24u32) as u8) as u32) << 24u32) | ((((w >> 16u32) as u8) as u32) << 16u32)
        | ((((w >> 8u32) as u8) as u32) << 8u32) | ((w as u8) as u32) == w) by (bit_vector);
}

proof fn lemma_bytes_be_word(b0: u8, b1: u8, b2: u8, b3: u8)
    ensures
        byte_of(be_word(b0, b1, b2, b3), 0) == b0,
        byte_of(be_word(b0, b1, b2, b3), 1) == b1,
        byte_of(be_word(b0, b1, b2, b3), 2) == b2,
        byte_of(be_word(b0, b1, b2, b3), 3) == b3,
{
    let w = be_word(b0, b1, b2, b3);
    assert(w == ((b0 as u32) << 24u32) | ((b1 as u32) << 16u32) | ((b2 as u32) << 8u32) | (b3 as u32));
    assert(((((b0 as u32) << 24u32) | ((b1 as u32) << 16u32) | ((b2 as u32) << 8u32) | (b3 as u32)) >> 24u32) as u8 == b0) by (bit_vector);
    assert(((((b0 as u32) << 24u32) | ((b1 as u32) << 16u32) | ((b2 as u32) << 8u32) | (b3 as u32)) >> 16u32) as u8 == b1) by (bit_vector);
    assert(((((b0 as u32) << 24u32) | ((b1 as u32) << 16u32) | ((b2 as u32) << 8u32) | (b3 as u32)) >> 8u32) as u8 == b2) by (bit_vector);
    assert((((b0 as u32) << 24u32) | ((b1 as u32) << 16u32) | ((b2 as u32) << 8u32) | (b3 as u32)) as u8 == b3) by (bit_vector);
}

fn read_word(b0: u8, b1: u8, b2: u8, b3: u8) -> (r: u32)
    ensures
        r == be_word(b0, b1, b2, b3),
{
    ((b0 as u32) << 24u32) | ((b1 as u32) << 16u32) | ((b2 as u32) << 8u32) | (b3 as u32)
}

/// Decodes an inbound binary payload into the pixel words of one input
/// frame: `Some` exactly when the payload is one frame long, holding its
/// big-endian 32-bit words in payload order.
pub fn decode_input(payload: &[u8]) -> (r: Option<Vec<u32>>)
    ensures
        r is Some <==> payload@.len() == INPUT_FRAME_BYTES,
        r is Some ==> decoded(payload@) == Some(r->0@),
        r is None ==> decoded(payload@) is None,
{
    if payload.len() != INPUT_FRAME_BYTES {
        return None;
    }
    let mut words: Vec<u32> = Vec::with_capacity(INPUT_VALUES);
    let mut i: usize = 0;
    while i < INPUT_VALUES
        invariant
            payload@.len() == INPUT_FRAME_BYTES,
            i <= INPUT_VALUES,
            words@ =~= words_of(payload@).subrange(0, i as int),
        decreases INPUT_VALUES - i,
    {
        let k = 4 * i;
        let w = read_word(payload[k], payload[k + 1], payload[k + 2], payload[k + 3]);
        words.push(w);
        i = i + 1;
    }
    assert(words@ =~= words_of(payload@));
    Some(words)
}

/// Encodes words, such as the class probabilities of one response, as
/// their big-endian bytes in order, four per word.
pub fn encode_output(words: &[u32]) -> (r: Vec<u8>)
    requires
        words@.len() <= usize::MAX / 4,
    ensures
        r@ == bytes_of(words@),
        words@.len() == CLASS_COUNT ==> r@.len() == OUTPUT_FRAME_BYTES,
{
    let mut out: Vec<u8> = Vec::with_capacity(4 * words.len());
    let mut i: usize = 0;
    while i < words.len()
        invariant
            i <= words@.len(),
            words@.len() <= usize::MAX / 4,
            out@ =~= bytes_of(words@.subrange(0, i as int)),
        decreases words@.len() - i,
    {
        let w = words[i];
        out.push((w >> 24u32) as u8);
        out.push((w >> 16u32) as u8);
        out.push((w >> 8u32) as u8);
        out.push(w as u8);
        proof {
            let prev = bytes_of(words@.subrange(0, i as int));
            let next = bytes_of(words@.subrange(0, i + 1));
            assert forall|j: int| 0 <= j < next.len() implies out@[j] == next[j] by {
                if j < 4 * i {
                    assert(words@.subrange(0, i + 1)[j / 4] == words@.subrange(0, i as int)[j / 4]);
                } else {
                    assert(j / 4 == i);
                }
            }
            assert(out@ =~= next);
        }
        i = i + 1;
    }
    assert(words@.subrange(0, words@.len() as int) =~= words@);
    out
}

/// Encoding a frame's words and decoding the bytes gives the words back.
pub proof fn lemma_decode_encode(words: Seq<u32>)
    requires
        words.len() == INPUT_VALUES,
    ensures
        decoded(bytes_of(words)) == Some(words),
{
    let b = bytes_of(words);
    assert forall|i: int| 0 <= i < words.len() implies word_at(b, i) == words[i] by {
        assert((4 * i) / 4 == i);
        assert((4 * i + 1) / 4 == i && (4 * i + 1) % 4 == 1);
        assert((4 * i + 2) / 4 == i && (4 * i + 2) % 4 == 2);
        assert((4 * i + 3) / 4 == i && (4 * i + 3) % 4 == 3);
        lemma_be_word_bytes(words[i]);
    }
    assert(words_of(b) =~= words);
}

/// Decoding a valid payload and encoding the words gives the payload back.
pub proof fn lemma_encode_decode(payload: Seq<u8>)
    requires
        payload.len() == INPUT_FRAME_BYTES,
    ensures
        decoded(payload) is Some,
        bytes_of(decoded(payload)->0) == payload,
{
    let ws = words_of(payload);
    let b = bytes_of(ws);
    assert forall|j: int| 0 <= j < payload.len() implies b[j] == payload[j] by {
        let i = j / 4;
        let k = j % 4;
        assert(4 * i + k == j);
        lemma_bytes_be_word(payload[4 * i], payload[4 * i + 1], payload[4 * i + 2], payload[4 * i + 3]);
    }
    assert(b =~= payload);
}

} // verus!
