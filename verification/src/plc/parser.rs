//! Decoding of variables from the raw bytes of a data block.
//!
//! All multi-byte types are big-endian (the S7 wire format); an access that
//! does not fit in the bytes read gives `VarValue::Unknown`.

use vstd::prelude::*;

use crate::model::variable::{type_size, ValueModel, VarDef, VarType, VarValue};

verus! {

/// Unsigned value of two bytes, most significant first.
pub open spec fn be_u16(hi: u8, lo: u8) -> int {
    hi as int * 0x100 + lo as int
}

/// Unsigned value of four bytes, most significant first.
pub open spec fn be_u32(b0: u8, b1: u8, b2: u8, b3: u8) -> int {
    b0 as int * 0x100_0000 + b1 as int * 0x1_0000 + b2 as int * 0x100 + b3 as int
}

/// Two's complement reading of a 16-bit pattern.
pub open spec fn signed16(w: int) -> int {
    if w >= 0x8000 { w - 0x1_0000 } else { w }
}

/// Two's complement reading of a 32-bit pattern.
pub open spec fn signed32(w: int) -> int {
    if w >= 0x8000_0000 { w - 0x1_0000_0000 } else { w }
}

/// Whether bit `k` (0 = least significant) of `b` is set.
pub open spec fn bit_set(b: u8, k: u8) -> bool {
    (b >> k) & 1 == 1
}

/// Number of bytes before the first NUL byte (all of them if there is none).
pub open spec fn text_len(s: Seq<u8>) -> nat
    decreases s.len(),
{
    if s.len() == 0 || s[0] == 0 {
        0
    } else {
        1 + text_len(s.drop_first())
    }
}

/// The text stored in a fixed-length string field: the bytes up to the first
/// NUL, each read as the character with that code (Latin-1).
pub open spec fn field_text(s: Seq<u8>) -> Seq<char> {
    s.take(text_len(s) as int).map_values(|b: u8| latin1(b))
}

/// Whether the bytes of `def` lie within `bytes`.
pub open spec fn in_bounds(bytes: Seq<u8>, def: VarDef) -> bool {
    def.byte_offset + type_size(def.var_type) <= bytes.len()
}

/// The value of `def` in the data-block bytes `bytes`.
pub open spec fn parse_spec(bytes: Seq<u8>, def: VarDef) -> ValueModel {
    let o = def.byte_offset as int;
    if !in_bounds(bytes, def) {
        ValueModel::Unknown
    } else {
        match def.var_type {
            VarType::Bool => if def.bit_offset < 8 {
                ValueModel::Bool { value: bit_set(bytes[o], def.bit_offset), blink_on: false }
            } else {
                ValueModel::Unknown
            },
            VarType::Byte => ValueModel::Byte(bytes[o]),
            VarType::Word => ValueModel::Word(be_u16(bytes[o], bytes[o + 1]) as u16),
            VarType::Int => ValueModel::Int(signed16(be_u16(bytes[o], bytes[o + 1])) as i16),
            VarType::DWord => ValueModel::DWord(
                be_u32(bytes[o], bytes[o + 1], bytes[o + 2], bytes[o + 3]) as u32,
            ),
            VarType::DInt => ValueModel::DInt(
                signed32(be_u32(bytes[o], bytes[o + 1], bytes[o + 2], bytes[o + 3])) as i32,
            ),
            VarType::Real => ValueModel::Real(
                be_u32(bytes[o], bytes[o + 1], bytes[o + 2], bytes[o + 3]) as u32,
            ),
            VarType::String { length } => ValueModel::StringVal(
                field_text(bytes.subrange(o, o + length)),
            ),
        }
    }
}

proof fn lemma_text_len(s: Seq<u8>, k: int)
    requires
        0 <= k <= s.len(),
        forall|j: int| 0 <= j < k ==> s[j] != 0,
        k == s.len() || s[k] == 0,
    ensures
        text_len(s) == k,
    decreases k,
{
    if k > 0 {
        lemma_text_len(s.drop_first(), k - 1);
    }
}

fn read_be_u16(bytes: &[u8], o: usize) -> (r: u16)
    requires
        o + 2 <= bytes@.len(),
    ensures
        r == be_u16(bytes@[o as int], bytes@[o + 1]),
{
    bytes[o] as u16 * 0x100 + bytes[o + 1] as u16
}

fn read_be_u32(bytes: &[u8], o: usize) -> (r: u32)
    requires
        o + 4 <= bytes@.len(),
    ensures
        r == be_u32(bytes@[o as int], bytes@[o + 1], bytes@[o + 2], bytes@[o + 3]),
{
    bytes[o] as u32 * 0x100_0000 + bytes[o + 1] as u32 * 0x1_0000 + bytes[o + 2] as u32 * 0x100
        + bytes[o + 3] as u32
}

fn read_field_text(bytes: &[u8], o: usize, len: usize) -> (r: String)
    requires
        o + len <= bytes@.len(),
    ensures
        r@ == field_text(bytes@.subrange(o as int, o + len)),
{
    let ghost window = bytes@.subrange(o as int, o + len);
    let mut s = String::new();
    let mut i: usize = 0;
    while i < len && bytes[o + i] != 0
        invariant
            o + len <= bytes.len(),
            window == bytes@.subrange(o as int, o + len),
            i <= len,
            forall|j: int| 0 <= j < i ==> window[j] != 0,
            s@ == window.take(i as int).map_values(|b: u8| latin1(b)),
        decreases len - i,
    {
        s.push(bytes[o + i] as char);
        assert(window.take(i + 1) == window.take(i as int).push(window[i as int]));
        i = i + 1;
    }
    proof {
        lemma_text_len(window, i as int);
    }
    s
}

/// Parse a single variable from a raw DB byte slice according to its definition.
///
/// Returns `VarValue::Unknown` on any out-of-bounds access, a bit offset
/// beyond bit 7 included; never panics.
/// All multi-byte types are decoded big-endian (Siemens S7 wire format).
pub fn parse_var(bytes: &[u8], def: &VarDef) -> (r: VarValue)
    ensures
        r@ == parse_spec(bytes@, *def),
{
    let o = def.byte_offset as usize;
    let n = def.var_type.size() as usize;
    if o > bytes.len() || bytes.len() - o < n {
        return VarValue::Unknown;
    }
    match def.var_type {
        VarType::Bool => {
            if def.bit_offset >= 8 {
                return VarValue::Unknown;
            }
            let value = (bytes[o] >> def.bit_offset) & 1 == 1;
            VarValue::Bool { value, blink_on: false }
        },
        VarType::Byte => VarValue::Byte(bytes[o]),
        VarType::Word => VarValue::Word(read_be_u16(bytes, o)),
        VarType::Int => {
            let w = read_be_u16(bytes, o);
            if w >= 0x8000 {
                VarValue::Int((w as i32 - 0x1_0000) as i16)
            } else {
                VarValue::Int(w as i16)
            }
        },
        VarType::DWord => VarValue::DWord(read_be_u32(bytes, o)),
        VarType::DInt => {
            let w = read_be_u32(bytes, o);
            if w >= 0x8000_0000 {
                VarValue::DInt((w as i64 - 0x1_0000_0000) as i32)
            } else {
                VarValue::DInt(w as i32)
            }
        },
        VarType::Real => VarValue::Real(read_be_u32(bytes, o)),
        VarType::String { length } => VarValue::StringVal(read_field_text(bytes, o, length as usize)),
    }
}

/// An Int reads the same two bytes as a Word at the same offset: it is the
/// Word taken modulo 2^16 as a signed number, and it is `Unknown` exactly
/// when the Word is.
pub proof fn law_int_is_word_reinterpreted(bytes: Seq<u8>, def: VarDef)
    requires
        def.var_type == VarType::Word,
    ensures
        ({
            let as_int = VarDef { var_type: VarType::Int, ..def };
            match (parse_spec(bytes, def), parse_spec(bytes, as_int)) {
                (ValueModel::Word(w), ValueModel::Int(i)) => i as int % 0x1_0000 == w as int,
                (ValueModel::Unknown, ValueModel::Unknown) => true,
                _ => false,
            }
        }),
{
}

/// A DInt and a Real read the same four bytes as a DWord at the same
/// offset: the DInt is the DWord taken modulo 2^32 as a signed number, the
/// Real holds the DWord as its bit pattern, and all three are `Unknown`
/// together.
pub proof fn law_dint_and_real_reinterpret_dword(bytes: Seq<u8>, def: VarDef)
    requires
        def.var_type == VarType::DWord,
    ensures
        ({
            let as_dint = VarDef { var_type: VarType::DInt, ..def };
            let as_real = VarDef { var_type: VarType::Real, ..def };
            match (parse_spec(bytes, def), parse_spec(bytes, as_dint), parse_spec(bytes, as_real)) {
                (ValueModel::DWord(w), ValueModel::DInt(i), ValueModel::Real(r)) => i as int
                    % 0x1_0000_0000 == w as int && r == w,
                (ValueModel::Unknown, ValueModel::Unknown, ValueModel::Unknown) => true,
                _ => false,
            }
        }),
{
}

/// A Bool reads one bit of its own byte: when its byte lies within the data
/// and it names bit `b` below 8, its value is bit `b` of that byte.
pub proof fn law_bool_reads_bit_of_its_byte(bytes: Seq<u8>, def: VarDef)
    requires
        def.var_type == VarType::Bool,
        def.byte_offset < bytes.len(),
        def.bit_offset < 8,
    ensures
        parse_spec(bytes, def) == (ValueModel::Bool {
            value: (bytes[def.byte_offset as int] >> def.bit_offset) & 1 == 1,
            blink_on: false,
        }),
{
}

/// A value depends only on its own bytes: two blocks of the same length
/// that agree on the bytes of `def` give the same value for it.
pub proof fn law_value_depends_only_on_its_bytes(b1: Seq<u8>, b2: Seq<u8>, def: VarDef)
    requires
        b1.len() == b2.len(),
        forall|j: int|
            def.byte_offset <= j < def.byte_offset + type_size(def.var_type) && 0 <= j < b1.len()
                ==> b1[j] == b2[j],
    ensures
        parse_spec(b1, def) == parse_spec(b2, def),
{
    let o = def.byte_offset as int;
    if in_bounds(b1, def) {
        match def.var_type {
            VarType::String { length } => {
                assert(b1.subrange(o, o + length) =~= b2.subrange(o, o + length));
            },
            VarType::Bool | VarType::Byte => {
                assert(b1[o] == b2[o]);
            },
            VarType::Word | VarType::Int => {
                assert(b1[o] == b2[o]);
                assert(b1[o + 1] == b2[o + 1]);
            },
            _ => {
                assert(b1[o] == b2[o]);
                assert(b1[o + 1] == b2[o + 1]);
                assert(b1[o + 2] == b2[o + 2]);
                assert(b1[o + 3] == b2[o + 3]);
            },
        }
    }
}

/// The multi-byte types are big-endian: the first byte is the most
/// significant one. Int and DInt are the signed readings (two's complement).
pub proof fn law_multibyte_values_are_big_endian(bytes: Seq<u8>, def: VarDef)
    requires
        in_bounds(bytes, def),
    ensures
        ({
            let o = def.byte_offset as int;
            let w = bytes[o] as int * 256 + bytes[o + 1] as int;
            match def.var_type {
                VarType::Byte => parse_spec(bytes, def) == ValueModel::Byte(bytes[o]),
                VarType::Word => parse_spec(bytes, def) matches ValueModel::Word(v) && v == w,
                VarType::Int => parse_spec(bytes, def) matches ValueModel::Int(v) && (v == w || v
                    == w - 65536) && -32768 <= v < 32768,
                VarType::DWord => parse_spec(bytes, def) matches ValueModel::DWord(v) && v == w
                    * 65536 + bytes[o + 2] as int * 256 + bytes[o + 3] as int,
                VarType::DInt => parse_spec(bytes, def) matches ValueModel::DInt(v) && (v == w
                    * 65536 + bytes[o + 2] as int * 256 + bytes[o + 3] as int || v == w * 65536
                    + bytes[o + 2] as int * 256 + bytes[o + 3] as int - 0x1_0000_0000),
                VarType::Real => parse_spec(bytes, def) matches ValueModel::Real(v) && v == w
                    * 65536 + bytes[o + 2] as int * 256 + bytes[o + 3] as int,
                _ => true,
            }
        }),
{
}

/// A String field holds the characters of its bytes up to the first NUL
/// (or all of them): character `k` is byte `o + k` read as Latin-1, none of
/// those bytes is NUL, and the text stops at a NUL or at the field's end.
pub proof fn law_string_stops_at_first_nul(bytes: Seq<u8>, def: VarDef)
    requires
        def.var_type is String,
        in_bounds(bytes, def),
    ensures
        ({
            let o = def.byte_offset as int;
            let length = def.var_type->length as int;
            &&& parse_spec(bytes, def) is StringVal
            &&& parse_spec(bytes, def) matches ValueModel::StringVal(s) ==> {
                &&& s.len() <= length
                &&& forall|k: int|
                    0 <= k < s.len() ==> #[trigger] s[k] == latin1(bytes[o + k]) && bytes[o + k] != 0
                &&& (s.len() == length || bytes[o + s.len()] == 0)
            }
        }),
{
    let o = def.byte_offset as int;
    let length = def.var_type->length as int;
    let w = bytes.subrange(o, o + length);
    lemma_text_len_stops(w);
    let s = field_text(w);
    assert(parse_spec(bytes, def) == ValueModel::StringVal(s));
    assert(s.len() == text_len(w));
    assert forall|k: int| 0 <= k < s.len() implies #[trigger] s[k] == latin1(bytes[o + k])
        && bytes[o + k] != 0 by {
        assert(w[k] == bytes[o + k]);
        assert(w.take(text_len(w) as int)[k] == w[k]);
    }
    if s.len() < length {
        assert(w[s.len() as int] == bytes[o + s.len()]);
    }
    assert(s.len() <= length);
    assert(forall|k: int|
        0 <= k < s.len() ==> #[trigger] s[k] == latin1(bytes[o + k]) && bytes[o + k] != 0);
    assert(s.len() == length || bytes[o + s.len()] == 0);
    assert({
        let o = def.byte_offset as int;
        let length = def.var_type->length as int;
        &&& parse_spec(bytes, def) is StringVal
        &&& parse_spec(bytes, def) matches ValueModel::StringVal(s) ==> {
            &&& s.len() <= length
            &&& forall|k: int|
                0 <= k < s.len() ==> #[trigger] s[k] == latin1(bytes[o + k]) && bytes[o + k] != 0
            &&& (s.len() == length || bytes[o + s.len()] == 0)
        }
    });
}

/// The character of a byte read as Latin-1: the character with that code.
pub open spec fn latin1(b: u8) -> char {
    b as char
}

proof fn lemma_text_len_stops(s: Seq<u8>)
    ensures
        text_len(s) <= s.len(),
        forall|k: int| 0 <= k < text_len(s) ==> s[k] != 0,
        text_len(s) == s.len() || s[text_len(s) as int] == 0,
    decreases s.len(),
{
    if s.len() > 0 && s[0] != 0 {
        let t = s.drop_first();
        lemma_text_len_stops(t);
        assert forall|k: int| 0 <= k < text_len(s) implies s[k] != 0 by {
            if k > 0 {
                assert(s[k] == t[k - 1]);
            }
        }
    }
}

} // verus!
