//! The typed register model: declarative kinds and parsed values.
//!
//! A holding-register response is a word sequence; a [`RegisterKind`] says
//! how many words one register spans and how the words decode into a typed
//! value. Numeric kinds decode most-significant word first into the raw
//! scalar, then apply the optional decimal multiplier; string kinds decode
//! the bytes in reading order as UTF-8. Values of the two float kinds carry
//! the raw bit image of the wire words: the verifier holds no floating
//! point, so giving those bits a numeric reading is the boundary's work.

use vstd::prelude::*;

use crate::codec::{
    byte_value, decode_unsigned, lemma_byte_bound_values, lemma_byte_value_bound,
    lemma_numeric_bytes_value, numeric_bytes, parse_numeric_bytes, parse_string_bytes,
    string_bytes, word_value,
};
use crate::codec::{
    assemble_numeric, assemble_string, lemma_assemble_numeric_inverse,
    lemma_assemble_string_inverse, pack_numeric_words, pack_string_words,
};
use crate::decimal::{scale_i16, scale_i32, scale_i64, scale_u16, scale_u32, scale_u64};
use crate::decimal::{scaled, wf_decimal_opt, Decimal};
use crate::text::{dec_chars, i64_text, int_chars, u64_text};

verus! {

/// A string register kind: how many words the string spans.
#[derive(Debug, Clone, Copy, PartialEq, Eq, Structural)]
pub struct StringRegisterKind {
    pub length: u16,
}

/// A numeric register kind: the optional decimal multiplier.
#[derive(Debug, Clone, Copy, PartialEq, Eq)]
pub struct NumericRegisterKind {
    pub multiplier: Option<Decimal>,
}

/// The declarative kind of one register.
#[derive(Debug, Clone, Copy, PartialEq)]
pub enum RegisterKind {
    U16(NumericRegisterKind),
    U32(NumericRegisterKind),
    U64(NumericRegisterKind),
    S16(NumericRegisterKind),
    S32(NumericRegisterKind),
    S64(NumericRegisterKind),
    F32(NumericRegisterKind),
    F64(NumericRegisterKind),
    String(StringRegisterKind),
}

/// A parsed register value. The float kinds hold the raw bit image.
#[derive(Debug, Clone, PartialEq)]
pub enum RegisterValue {
    U16(u16),
    U32(u32),
    U64(u64),
    S16(i16),
    S32(i32),
    S64(i64),
    F32(u32),
    F64(u64),
    String(String),
}

/// The mathematical shape of a parsed value: scalars as themselves, strings
/// as character sequences.
pub enum ValueModel {
    U16(u16),
    U32(u32),
    U64(u64),
    S16(i16),
    S32(i32),
    S64(i64),
    F32(u32),
    F64(u64),
    String(Seq<char>),
}

impl View for RegisterValue {
    type V = ValueModel;

    open spec fn view(&self) -> ValueModel {
        match self {
            RegisterValue::U16(v) => ValueModel::U16(*v),
            RegisterValue::U32(v) => ValueModel::U32(*v),
            RegisterValue::U64(v) => ValueModel::U64(*v),
            RegisterValue::S16(v) => ValueModel::S16(*v),
            RegisterValue::S32(v) => ValueModel::S32(*v),
            RegisterValue::S64(v) => ValueModel::S64(*v),
            RegisterValue::F32(v) => ValueModel::F32(*v),
            RegisterValue::F64(v) => ValueModel::F64(*v),
            RegisterValue::String(s) => ValueModel::String(s@),
        }
    }
}

/// Whatever declares or carries a register knows its span quantity.
pub trait RegisterStorage: Sized {
    spec fn quantity_spec(&self) -> nat;

    fn quantity(&self) -> (q: u16)
        ensures
            q as nat == self.quantity_spec(),
    ;
}

/// Words per register: one for 16-bit kinds, two for 32-bit kinds, four for
/// 64-bit kinds, the declared length for strings.
pub open spec fn kind_quantity(kind: RegisterKind) -> nat {
    match kind {
        RegisterKind::U16(_) => 1,
        RegisterKind::U32(_) => 2,
        RegisterKind::U64(_) => 4,
        RegisterKind::S16(_) => 1,
        RegisterKind::S32(_) => 2,
        RegisterKind::S64(_) => 4,
        RegisterKind::F32(_) => 2,
        RegisterKind::F64(_) => 4,
        RegisterKind::String(k) => k.length as nat,
    }
}

impl RegisterStorage for RegisterKind {
    open spec fn quantity_spec(&self) -> nat {
        kind_quantity(*self)
    }

    fn quantity(&self) -> (q: u16) {
        match self {
            RegisterKind::U16(_) => 1,
            RegisterKind::U32(_) => 2,
            RegisterKind::U64(_) => 4,
            RegisterKind::S16(_) => 1,
            RegisterKind::S32(_) => 2,
            RegisterKind::S64(_) => 4,
            RegisterKind::F32(_) => 2,
            RegisterKind::F64(_) => 4,
            RegisterKind::String(k) => k.length,
        }
    }
}

impl RegisterStorage for RegisterValue {
    /// A string value of `2n` bytes spans `n` words; an odd byte count — not
    /// producible from the wire, but admitted by the type — rounds up, and a
    /// length beyond the address space's word range is truncated by the
    /// sixteen-bit result.
    open spec fn quantity_spec(&self) -> nat {
        match self {
            RegisterValue::U16(_) => 1,
            RegisterValue::U32(_) => 2,
            RegisterValue::U64(_) => 4,
            RegisterValue::S16(_) => 1,
            RegisterValue::S32(_) => 2,
            RegisterValue::S64(_) => 4,
            RegisterValue::F32(_) => 2,
            RegisterValue::F64(_) => 4,
            RegisterValue::String(s) => (((vstd::utf8::encode_utf8(s@).len() + 1) / 2)
                % 0x10000) as nat,
        }
    }

    fn quantity(&self) -> (q: u16) {
        match self {
            RegisterValue::U16(_) => 1,
            RegisterValue::U32(_) => 2,
            RegisterValue::U64(_) => 4,
            RegisterValue::S16(_) => 1,
            RegisterValue::S32(_) => 2,
            RegisterValue::S64(_) => 4,
            RegisterValue::F32(_) => 2,
            RegisterValue::F64(_) => 4,
            RegisterValue::String(s) => {
                let bytes = s.as_str().as_bytes_vec().len();
                let words = (bytes / 2 + bytes % 2) % 0x10000;
                proof {
                    assert(bytes as int / 2 + bytes as int % 2 == (bytes as int + 1) / 2);
                }
                words as u16
            },
        }
    }
}

/// What `String::from_utf8` decodes the bytes to, when they are valid UTF-8.
pub uninterp spec fn utf8_decode(bytes: Seq<u8>) -> Option<Seq<char>>;

pub open spec fn all_ascii(bytes: Seq<u8>) -> bool {
    forall|i: int| 0 <= i < bytes.len() ==> bytes[i] < 0x80
}

pub open spec fn ascii_chars(bytes: Seq<u8>) -> Seq<char> {
    bytes.map_values(|b: u8| b as char)
}

/// Relies on `String::from_utf8`: decodes the bytes as UTF-8 and fails
/// exactly on invalid input; ASCII bytes decode to themselves, one character
/// per byte, as std documents of UTF-8's ASCII compatibility.
#[verifier::external_body]
fn decode_utf8(bytes: Vec<u8>) -> (r: Option<String>)
    ensures
        r matches Some(s) ==> utf8_decode(bytes@) == Some(s@) && (all_ascii(bytes@) ==> s@
            == ascii_chars(bytes@)),
        r is None ==> utf8_decode(bytes@) is None && !all_ascii(bytes@),
{
    String::from_utf8(bytes).ok()
}

/// Two's-complement reading of an unsigned scalar below `2 * half`.
pub open spec fn as_signed(v: nat, half: nat) -> int {
    if v < half {
        v as int
    } else {
        v - 2 * half
    }
}

/// The parsed value of one register, as a function of its kind and the
/// response words. `None` when the word count does not fit a numeric kind,
/// or when string bytes are not valid UTF-8.
pub open spec fn parse_model(kind: RegisterKind, words: Seq<u16>) -> Option<ValueModel> {
    match kind {
        RegisterKind::U16(nk) => if words.len() == 1 {
            Some(ValueModel::U16(scaled(word_value(words) as int, nk.multiplier, 0, 0xFFFF) as u16))
        } else {
            None
        },
        RegisterKind::U32(nk) => if words.len() == 2 {
            Some(
                ValueModel::U32(
                    scaled(word_value(words) as int, nk.multiplier, 0, 0xFFFF_FFFF) as u32,
                ),
            )
        } else {
            None
        },
        RegisterKind::U64(nk) => if words.len() == 4 {
            Some(
                ValueModel::U64(
                    scaled(
                        word_value(words) as int,
                        nk.multiplier,
                        0,
                        0xFFFF_FFFF_FFFF_FFFF,
                    ) as u64,
                ),
            )
        } else {
            None
        },
        RegisterKind::S16(nk) => if words.len() == 1 {
            Some(
                ValueModel::S16(
                    scaled(
                        as_signed(word_value(words), 0x8000),
                        nk.multiplier,
                        -0x8000,
                        0x7FFF,
                    ) as i16,
                ),
            )
        } else {
            None
        },
        RegisterKind::S32(nk) => if words.len() == 2 {
            Some(
                ValueModel::S32(
                    scaled(
                        as_signed(word_value(words), 0x8000_0000),
                        nk.multiplier,
                        -0x8000_0000,
                        0x7FFF_FFFF,
                    ) as i32,
                ),
            )
        } else {
            None
        },
        RegisterKind::S64(nk) => if words.len() == 4 {
            Some(
                ValueModel::S64(
                    scaled(
                        as_signed(word_value(words), 0x8000_0000_0000_0000),
                        nk.multiplier,
                        -0x8000_0000_0000_0000,
                        0x7FFF_FFFF_FFFF_FFFF,
                    ) as i64,
                ),
            )
        } else {
            None
        },
        RegisterKind::F32(_) => if words.len() == 2 {
            Some(ValueModel::F32(word_value(words) as u32))
        } else {
            None
        },
        RegisterKind::F64(_) => if words.len() == 4 {
            Some(ValueModel::F64(word_value(words) as u64))
        } else {
            None
        },
        RegisterKind::String(_) => match utf8_decode(string_bytes(words)) {
            Some(chars) => Some(ValueModel::String(chars)),
            None => None,
        },
    }
}

pub open spec fn wf_kind(kind: RegisterKind) -> bool {
    match kind {
        RegisterKind::U16(nk) => wf_decimal_opt(nk.multiplier),
        RegisterKind::U32(nk) => wf_decimal_opt(nk.multiplier),
        RegisterKind::U64(nk) => wf_decimal_opt(nk.multiplier),
        RegisterKind::S16(nk) => wf_decimal_opt(nk.multiplier),
        RegisterKind::S32(nk) => wf_decimal_opt(nk.multiplier),
        RegisterKind::S64(nk) => wf_decimal_opt(nk.multiplier),
        RegisterKind::F32(nk) => wf_decimal_opt(nk.multiplier),
        RegisterKind::F64(nk) => wf_decimal_opt(nk.multiplier),
        RegisterKind::String(_) => true,
    }
}

/// Decode the numeric byte image of `data` into its unsigned scalar.
fn word_scalar(data: &Vec<u16>) -> (r: u64)
    requires
        data@.len() <= 4,
    ensures
        r as nat == word_value(data@),
{
    let bytes = parse_numeric_bytes(data);
    proof {
        lemma_numeric_bytes_value(data@);
    }
    decode_unsigned(&bytes)
}

fn to_signed_16(v: u64) -> (r: i16)
    requires
        v < 0x10000,
    ensures
        r as int == as_signed(v as nat, 0x8000),
{
    if v < 0x8000 {
        v as i16
    } else {
        ((v as i64) - 0x10000) as i16
    }
}

fn to_signed_32(v: u64) -> (r: i32)
    requires
        v < 0x1_0000_0000,
    ensures
        r as int == as_signed(v as nat, 0x8000_0000),
{
    if v < 0x8000_0000 {
        v as i32
    } else {
        ((v as i64) - 0x1_0000_0000) as i32
    }
}

fn to_signed_64(v: u64) -> (r: i64)
    ensures
        r as int == as_signed(v as nat, 0x8000_0000_0000_0000),
{
    if v < 0x8000_0000_0000_0000 {
        v as i64
    } else {
        ((v as i128) - 0x1_0000_0000_0000_0000) as i64
    }
}

/// Parse one register's response words against its kind.
pub fn parse_value(kind: &RegisterKind, data: &Vec<u16>) -> (r: Option<RegisterValue>)
    requires
        wf_kind(*kind),
    ensures
        match r {
            Some(v) => parse_model(*kind, data@) == Some(v@),
            None => parse_model(*kind, data@) is None,
        },
        (*kind matches RegisterKind::String(_) && all_ascii(string_bytes(data@))) ==> (r matches
            Some(v) && v@ == ValueModel::String(ascii_chars(string_bytes(data@)))),
{
    proof {
        lemma_byte_value_bound(numeric_bytes(data@));
        lemma_numeric_bytes_value(data@);
        lemma_byte_bound_values();
    }
    match kind {
        RegisterKind::U16(nk) => {
            if data.len() != 1 {
                return None;
            }
            let raw = word_scalar(data);
            Some(RegisterValue::U16(scale_u16(raw as u16, &nk.multiplier)))
        },
        RegisterKind::U32(nk) => {
            if data.len() != 2 {
                return None;
            }
            let raw = word_scalar(data);
            Some(RegisterValue::U32(scale_u32(raw as u32, &nk.multiplier)))
        },
        RegisterKind::U64(nk) => {
            if data.len() != 4 {
                return None;
            }
            let raw = word_scalar(data);
            Some(RegisterValue::U64(scale_u64(raw, &nk.multiplier)))
        },
        RegisterKind::S16(nk) => {
            if data.len() != 1 {
                return None;
            }
            let raw = to_signed_16(word_scalar(data));
            Some(RegisterValue::S16(scale_i16(raw, &nk.multiplier)))
        },
        RegisterKind::S32(nk) => {
            if data.len() != 2 {
                return None;
            }
            let raw = to_signed_32(word_scalar(data));
            Some(RegisterValue::S32(scale_i32(raw, &nk.multiplier)))
        },
        RegisterKind::S64(nk) => {
            if data.len() != 4 {
                return None;
            }
            let raw = to_signed_64(word_scalar(data));
            Some(RegisterValue::S64(scale_i64(raw, &nk.multiplier)))
        },
        RegisterKind::F32(_) => {
            if data.len() != 2 {
                return None;
            }
            let raw = word_scalar(data);
            Some(RegisterValue::F32(raw as u32))
        },
        RegisterKind::F64(_) => {
            if data.len() != 4 {
                return None;
            }
            let raw = word_scalar(data);
            Some(RegisterValue::F64(raw))
        },
        RegisterKind::String(_) => {
            let bytes = parse_string_bytes(data);
            match decode_utf8(bytes) {
                Some(s) => Some(RegisterValue::String(s)),
                None => None,
            }
        },
    }
}

/// The canonical text of a parsed value: decimal digits for the integer
/// kinds, the characters themselves for strings. Values of the float kinds
/// have no text here; rendering their bits numerically is floating-point
/// work and stays at the boundary.
pub open spec fn text_model(v: ValueModel) -> Option<Seq<char>> {
    match v {
        ValueModel::U16(n) => Some(dec_chars(n as nat)),
        ValueModel::U32(n) => Some(dec_chars(n as nat)),
        ValueModel::U64(n) => Some(dec_chars(n as nat)),
        ValueModel::S16(n) => Some(int_chars(n as int)),
        ValueModel::S32(n) => Some(int_chars(n as int)),
        ValueModel::S64(n) => Some(int_chars(n as int)),
        ValueModel::F32(_) => None,
        ValueModel::F64(_) => None,
        ValueModel::String(s) => Some(s),
    }
}

impl RegisterValue {
    /// An equal value; spelled out so that its meaning is carried.
    pub fn duplicate(&self) -> (r: RegisterValue)
        ensures
            r@ == self@,
    {
        match self {
            RegisterValue::U16(v) => RegisterValue::U16(*v),
            RegisterValue::U32(v) => RegisterValue::U32(*v),
            RegisterValue::U64(v) => RegisterValue::U64(*v),
            RegisterValue::S16(v) => RegisterValue::S16(*v),
            RegisterValue::S32(v) => RegisterValue::S32(*v),
            RegisterValue::S64(v) => RegisterValue::S64(*v),
            RegisterValue::F32(v) => RegisterValue::F32(*v),
            RegisterValue::F64(v) => RegisterValue::F64(*v),
            RegisterValue::String(s) => RegisterValue::String(s.clone()),
        }
    }

    /// Render the value to its canonical text.
    pub fn render(&self) -> (r: Option<String>)
        ensures
            match r {
                Some(s) => text_model(self@) == Some(s@),
                None => text_model(self@) is None,
            },
    {
        match self {
            RegisterValue::U16(n) => Some(u64_text(*n as u64)),
            RegisterValue::U32(n) => Some(u64_text(*n as u64)),
            RegisterValue::U64(n) => Some(u64_text(*n)),
            RegisterValue::S16(n) => Some(i64_text(*n as i64)),
            RegisterValue::S32(n) => Some(i64_text(*n as i64)),
            RegisterValue::S64(n) => Some(i64_text(*n)),
            RegisterValue::F32(_) => None,
            RegisterValue::F64(_) => None,
            RegisterValue::String(s) => Some(s.clone()),
        }
    }
}

/// The wire words whose byte image is `bytes`, laid out as `kind` demands.
pub open spec fn assemble(kind: RegisterKind, bytes: Seq<u8>) -> Seq<u16> {
    match kind {
        RegisterKind::String(_) => assemble_string(bytes),
        _ => assemble_numeric(bytes),
    }
}

/// Exec counterpart of [`assemble`].
pub fn assemble_image(kind: &RegisterKind, bytes: &Vec<u8>) -> (words: Vec<u16>)
    requires
        bytes@.len() % 2 == 0,
    ensures
        words@ == assemble(*kind, bytes@),
{
    match kind {
        RegisterKind::String(_) => pack_string_words(bytes),
        _ => pack_numeric_words(bytes),
    }
}

/// The value that a raw byte image carries directly, under `kind`: the
/// scalar read least-significant byte first, signed kinds in two's
/// complement, scaled by the multiplier; strings decoded as UTF-8.
pub open spec fn decode_scalar_model(kind: RegisterKind, bytes: Seq<u8>) -> Option<ValueModel> {
    match kind {
        RegisterKind::U16(nk) => if bytes.len() == 2 {
            Some(ValueModel::U16(scaled(byte_value(bytes) as int, nk.multiplier, 0, 0xFFFF) as u16))
        } else {
            None
        },
        RegisterKind::U32(nk) => if bytes.len() == 4 {
            Some(
                ValueModel::U32(
                    scaled(byte_value(bytes) as int, nk.multiplier, 0, 0xFFFF_FFFF) as u32,
                ),
            )
        } else {
            None
        },
        RegisterKind::U64(nk) => if bytes.len() == 8 {
            Some(
                ValueModel::U64(
                    scaled(
                        byte_value(bytes) as int,
                        nk.multiplier,
                        0,
                        0xFFFF_FFFF_FFFF_FFFF,
                    ) as u64,
                ),
            )
        } else {
            None
        },
        RegisterKind::S16(nk) => if bytes.len() == 2 {
            Some(
                ValueModel::S16(
                    scaled(
                        as_signed(byte_value(bytes), 0x8000),
                        nk.multiplier,
                        -0x8000,
                        0x7FFF,
                    ) as i16,
                ),
            )
        } else {
            None
        },
        RegisterKind::S32(nk) => if bytes.len() == 4 {
            Some(
                ValueModel::S32(
                    scaled(
                        as_signed(byte_value(bytes), 0x8000_0000),
                        nk.multiplier,
                        -0x8000_0000,
                        0x7FFF_FFFF,
                    ) as i32,
                ),
            )
        } else {
            None
        },
        RegisterKind::S64(nk) => if bytes.len() == 8 {
            Some(
                ValueModel::S64(
                    scaled(
                        as_signed(byte_value(bytes), 0x8000_0000_0000_0000),
                        nk.multiplier,
                        -0x8000_0000_0000_0000,
                        0x7FFF_FFFF_FFFF_FFFF,
                    ) as i64,
                ),
            )
        } else {
            None
        },
        RegisterKind::F32(_) => if bytes.len() == 4 {
            Some(ValueModel::F32(byte_value(bytes) as u32))
        } else {
            None
        },
        RegisterKind::F64(_) => if bytes.len() == 8 {
            Some(ValueModel::F64(byte_value(bytes) as u64))
        } else {
            None
        },
        RegisterKind::String(_) => match utf8_decode(bytes) {
            Some(chars) => Some(ValueModel::String(chars)),
            None => None,
        },
    }
}

/// Law: for every kind and every byte image of the right length, parsing the
/// assembled wire words yields exactly the scalar that the bytes carry.
pub proof fn lemma_parse_assemble_round_trip(kind: RegisterKind, bytes: Seq<u8>)
    requires
        bytes.len() == 2 * kind_quantity(kind),
    ensures
        parse_model(kind, assemble(kind, bytes)) == decode_scalar_model(kind, bytes),
{
    match kind {
        RegisterKind::String(_) => {
            lemma_assemble_string_inverse(bytes);
            assert(string_bytes(assemble(kind, bytes)) == bytes);
        },
        _ => {
            lemma_assemble_numeric_inverse(bytes);
            assert(numeric_bytes(assemble(kind, bytes)) == bytes);
            lemma_numeric_bytes_value(assemble(kind, bytes));
        },
    }
}

} // verus!
