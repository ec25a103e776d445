//! Word-level and byte-level codec for holding-register responses.
//!
//! A Modbus device transports each holding register as one 16-bit word and
//! publishes multi-word numeric values most-significant word first. The
//! functions here turn a word sequence into the byte image that scalar
//! decoding expects (least-significant byte first), and back, and decode the
//! image into an unsigned scalar. Everything is stated against the
//! mathematical word value [`word_value`].

use vstd::prelude::*;

verus! {

/// Low byte of a register word.
pub open spec fn word_lo(w: u16) -> u8 {
    (w & 0xFF) as u8
}

/// High byte of a register word.
pub open spec fn word_hi(w: u16) -> u8 {
    (w >> 8) as u8
}

/// Byte image of a numeric value: words in reverse order, each word low byte
/// first, so that the least significant byte of the whole value comes first.
pub open spec fn numeric_bytes(words: Seq<u16>) -> Seq<u8> {
    Seq::new(
        2 * words.len(),
        |i: int|
            {
                let w = words[words.len() - 1 - i / 2];
                if i % 2 == 0 {
                    word_lo(w)
                } else {
                    word_hi(w)
                }
            },
    )
}

/// Byte image of a string value: words in order, each word high byte first,
/// so that the bytes appear in reading order.
pub open spec fn string_bytes(words: Seq<u16>) -> Seq<u8> {
    Seq::new(
        2 * words.len(),
        |i: int|
            {
                let w = words[i / 2];
                if i % 2 == 0 {
                    word_hi(w)
                } else {
                    word_lo(w)
                }
            },
    )
}

/// The unsigned value of a word sequence, most significant word first.
pub open spec fn word_value(words: Seq<u16>) -> nat
    decreases words.len(),
{
    if words.len() == 0 {
        0
    } else {
        0x10000 * word_value(words.drop_last()) + words.last() as nat
    }
}

/// The unsigned value of a byte sequence, least significant byte first.
pub open spec fn byte_value(bytes: Seq<u8>) -> nat
    decreases bytes.len(),
{
    if bytes.len() == 0 {
        0
    } else {
        bytes[0] as nat + 256 * byte_value(bytes.skip(1))
    }
}

/// Strict upper bound of [`byte_value`] for a sequence of `n` bytes.
pub open spec fn byte_bound(n: nat) -> nat
    decreases n,
{
    if n == 0 {
        1
    } else {
        256 * byte_bound((n - 1) as nat)
    }
}

pub proof fn lemma_byte_value_bound(bytes: Seq<u8>)
    ensures
        byte_value(bytes) < byte_bound(bytes.len()),
    decreases bytes.len(),
{
    if bytes.len() > 0 {
        lemma_byte_value_bound(bytes.skip(1));
    }
}

/// The numeric byte image carries exactly the word value of the response.
pub proof fn lemma_numeric_bytes_value(words: Seq<u16>)
    ensures
        byte_value(numeric_bytes(words)) == word_value(words),
    decreases words.len(),
{
    if words.len() == 0 {
        assert(numeric_bytes(words) =~= Seq::<u8>::empty());
    } else {
        let w = words.last();
        let bytes = numeric_bytes(words);
        assert(bytes.skip(1).skip(1) =~= numeric_bytes(words.drop_last()));
        lemma_numeric_bytes_value(words.drop_last());
        assert(bytes.len() == 2 * words.len());
        assert(bytes[0] == word_lo(w));
        assert(bytes.skip(1)[0] == word_hi(w));
        assert(byte_value(bytes) == bytes[0] + 256 * byte_value(bytes.skip(1)));
        assert(byte_value(bytes.skip(1)) == bytes.skip(1)[0] + 256 * byte_value(
            bytes.skip(1).skip(1),
        ));
        assert(w & 0xFF < 256 && w >> 8 < 256) by (bit_vector);
        assert((w & 0xFF) + 256 * (w >> 8) == w) by (bit_vector);
        assert(bytes[0] as nat + 256 * (bytes.skip(1)[0] as nat) == w as nat);
        assert(byte_value(bytes) == w as nat + 0x10000 * word_value(words.drop_last()));
    }
}

/// Decode the byte image of a numeric value into the unsigned scalar it
/// carries, least significant byte first.
pub fn decode_unsigned(bytes: &Vec<u8>) -> (r: u64)
    requires
        bytes@.len() <= 8,
    ensures
        r as nat == byte_value(bytes@),
{
    proof {
        lemma_byte_value_bound(bytes@);
    }
    let mut r: u64 = 0;
    let mut i: usize = bytes.len();
    while i > 0
        invariant
            i <= bytes@.len() <= 8,
            r as nat == byte_value(bytes@.skip(i as int)),
            byte_value(bytes@) < byte_bound(bytes@.len()),
        decreases i,
    {
        i = i - 1;
        proof {
            lemma_byte_value_bound(bytes@.skip(i as int));
            lemma_byte_bound_monotone((bytes@.len() - i) as nat, 8);
            lemma_byte_bound_values();
            assert(bytes@.skip(i as int).skip(1) =~= bytes@.skip(i as int + 1));
        }
        r = r * 256 + bytes[i] as u64;
    }
    proof {
        assert(bytes@.skip(0) =~= bytes@);
    }
    r
}

/// The byte bounds that scalar decoding relies on, written out.
pub proof fn lemma_byte_bound_values()
    ensures
        byte_bound(1) == 0x100,
        byte_bound(2) == 0x1_0000,
        byte_bound(4) == 0x1_0000_0000,
        byte_bound(8) == 0x1_0000_0000_0000_0000,
{
    reveal_with_fuel(byte_bound, 9);
}

pub proof fn lemma_byte_bound_monotone(m: nat, n: nat)
    requires
        m <= n,
    ensures
        byte_bound(m) <= byte_bound(n),
    decreases n,
{
    if m < n && n > 0 {
        lemma_byte_bound_monotone(m, (n - 1) as nat);
    }
}

/// Words whose numeric byte image is exactly `bytes` (even length).
pub open spec fn assemble_numeric(bytes: Seq<u8>) -> Seq<u16> {
    Seq::new(
        bytes.len() / 2,
        |j: int|
            {
                let p = bytes.len() / 2 - 1 - j;
                (bytes[2 * p] + 256 * bytes[2 * p + 1]) as u16
            },
    )
}

/// Words whose string byte image is exactly `bytes` (even length).
pub open spec fn assemble_string(bytes: Seq<u8>) -> Seq<u16> {
    Seq::new(bytes.len() / 2, |j: int| (bytes[2 * j + 1] + 256 * bytes[2 * j]) as u16)
}

/// Packing bytes into words and emitting them again is the identity, for the
/// numeric layout.
pub proof fn lemma_assemble_numeric_inverse(bytes: Seq<u8>)
    requires
        bytes.len() % 2 == 0,
    ensures
        numeric_bytes(assemble_numeric(bytes)) =~= bytes,
{
    let words = assemble_numeric(bytes);
    assert forall|i: int| 0 <= i < 2 * words.len() implies numeric_bytes(words)[i] == bytes[i] by {
        let w = words[words.len() - 1 - i / 2];
        let b0 = bytes[2 * (i / 2)];
        let b1 = bytes[2 * (i / 2) + 1];
        assert(w == (b0 + 256 * b1) as u16);
        assert(((b0 + 256 * b1) as u16) & 0xFF == b0 && ((b0 + 256 * b1) as u16) >> 8 == b1)
            by (bit_vector);
    }
}

/// Packing bytes into words and emitting them again is the identity, for the
/// string layout.
pub proof fn lemma_assemble_string_inverse(bytes: Seq<u8>)
    requires
        bytes.len() % 2 == 0,
    ensures
        string_bytes(assemble_string(bytes)) =~= bytes,
{
    let words = assemble_string(bytes);
    assert forall|i: int| 0 <= i < 2 * words.len() implies string_bytes(words)[i] == bytes[i] by {
        let w = words[i / 2];
        let b0 = bytes[2 * (i / 2)];
        let b1 = bytes[2 * (i / 2) + 1];
        assert(w == (b1 + 256 * b0) as u16);
        assert(((b1 + 256 * b0) as u16) & 0xFF == b1 && ((b1 + 256 * b0) as u16) >> 8 == b0)
            by (bit_vector);
    }
}

/// Pack a little-endian byte image into wire words, numeric layout.
pub fn pack_numeric_words(bytes: &Vec<u8>) -> (words: Vec<u16>)
    requires
        bytes@.len() % 2 == 0,
    ensures
        words@ == assemble_numeric(bytes@),
{
    let n = bytes.len() / 2;
    let mut words: Vec<u16> = Vec::new();
    let mut j: usize = 0;
    while j < n
        invariant
            j <= n,
            n == bytes@.len() / 2,
            bytes@.len() % 2 == 0,
            bytes@.len() <= usize::MAX,
            words@ == assemble_numeric(bytes@).take(j as int),
        decreases n - j,
    {
        let p = n - 1 - j;
        assert(2 * p + 1 < bytes@.len());
        let w = bytes[2 * p] as u16 + 256 * bytes[2 * p + 1] as u16;
        words.push(w);
        j = j + 1;
        assert(words@ =~= assemble_numeric(bytes@).take(j as int));
    }
    assert(assemble_numeric(bytes@).take(n as int) =~= assemble_numeric(bytes@));
    words
}

/// Pack a reading-order byte image into wire words, string layout.
pub fn pack_string_words(bytes: &Vec<u8>) -> (words: Vec<u16>)
    requires
        bytes@.len() % 2 == 0,
    ensures
        words@ == assemble_string(bytes@),
{
    let n = bytes.len() / 2;
    let mut words: Vec<u16> = Vec::new();
    let mut j: usize = 0;
    while j < n
        invariant
            j <= n,
            n == bytes@.len() / 2,
            bytes@.len() % 2 == 0,
            bytes@.len() <= usize::MAX,
            words@ == assemble_string(bytes@).take(j as int),
        decreases n - j,
    {
        assert(2 * j + 1 < bytes@.len());
        let w = bytes[2 * j + 1] as u16 + 256 * bytes[2 * j] as u16;
        words.push(w);
        j = j + 1;
        assert(words@ =~= assemble_string(bytes@).take(j as int));
    }
    assert(assemble_string(bytes@).take(n as int) =~= assemble_string(bytes@));
    words
}

/// Emit the byte image of a numeric register response.
pub fn parse_numeric_bytes(data: &Vec<u16>) -> (bytes: Vec<u8>)
    ensures
        bytes@ == numeric_bytes(data@),
{
    let mut bytes: Vec<u8> = Vec::new();
    let mut i: usize = data.len();
    while i > 0
        invariant
            i <= data@.len(),
            bytes@ == numeric_bytes(data@.skip(i as int)),
        decreases i,
    {
        i = i - 1;
        let w = data[i];
        assert(w >> 8 < 256) by (bit_vector);
        bytes.push((w & 0xFF) as u8);
        bytes.push((w >> 8) as u8);
        assert(bytes@ =~= numeric_bytes(data@.skip(i as int)));
    }
    assert(data@.skip(0) =~= data@);
    bytes
}

/// Emit the byte image of a string register response.
pub fn parse_string_bytes(data: &Vec<u16>) -> (bytes: Vec<u8>)
    ensures
        bytes@ == string_bytes(data@),
{
    let mut bytes: Vec<u8> = Vec::new();
    let mut i: usize = 0;
    while i < data.len()
        invariant
            i <= data@.len(),
            bytes@ == string_bytes(data@.take(i as int)),
        decreases data@.len() - i,
    {
        let w = data[i];
        assert(w >> 8 < 256) by (bit_vector);
        bytes.push((w >> 8) as u8);
        bytes.push((w & 0xFF) as u8);
        i = i + 1;
        assert(bytes@ =~= string_bytes(data@.take(i as int)));
    }
    assert(data@.take(data@.len() as int) =~= data@);
    bytes
}

} // verus!
