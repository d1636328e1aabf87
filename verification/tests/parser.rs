use siemens_plc_monitor::model::variable::{VarDef, VarType, VarValue};
use siemens_plc_monitor::plc::parser::parse_var;

fn def(var_type: VarType, byte_offset: u32, bit_offset: u8) -> VarDef {
    VarDef { name: "v".into(), var_type, byte_offset, bit_offset }
}

#[test]
fn parse_bool_false() {
    let bytes = vec![0b0000_0000u8];
    let result = parse_var(&bytes, &def(VarType::Bool, 0, 3));
    assert_eq!(result, VarValue::Bool { value: false, blink_on: false });
}

#[test]
fn parse_bool_true() {
    // bit 2 is set in 0b0000_0100
    let bytes = vec![0b0000_0100u8];
    let result = parse_var(&bytes, &def(VarType::Bool, 0, 2));
    assert_eq!(result, VarValue::Bool { value: true, blink_on: false });
}

#[test]
fn parse_byte() {
    let bytes = vec![0x00, 0xAB];
    let result = parse_var(&bytes, &def(VarType::Byte, 1, 0));
    assert_eq!(result, VarValue::Byte(0xAB));
}

#[test]
fn parse_word() {
    let bytes = vec![0x12, 0x34];
    let result = parse_var(&bytes, &def(VarType::Word, 0, 0));
    assert_eq!(result, VarValue::Word(0x1234));
}

#[test]
fn parse_int_negative() {
    // i16 big-endian: 0xFF00 = -256
    let bytes = vec![0xFF, 0x00];
    let result = parse_var(&bytes, &def(VarType::Int, 0, 0));
    assert_eq!(result, VarValue::Int(-256));
}

#[test]
fn parse_dword() {
    let bytes = vec![0x00, 0x01, 0x02, 0x03];
    let result = parse_var(&bytes, &def(VarType::DWord, 0, 0));
    assert_eq!(result, VarValue::DWord(0x0001_0203));
}

#[test]
fn parse_dint_negative() {
    // 0xFFFF_FF00 = -256 as i32
    let bytes = vec![0xFF, 0xFF, 0xFF, 0x00];
    let result = parse_var(&bytes, &def(VarType::DInt, 0, 0));
    assert_eq!(result, VarValue::DInt(-256));
}

#[test]
fn parse_real() {
    // IEEE 754 big-endian for 1.0f32 = 0x3F80_0000; the value holds the bit pattern
    let bytes = vec![0x3F, 0x80, 0x00, 0x00];
    let result = parse_var(&bytes, &def(VarType::Real, 0, 0));
    assert_eq!(result, VarValue::Real(1.0f32.to_bits()));
}

#[test]
fn parse_string_null_terminated() {
    let mut bytes = b"hello".to_vec();
    bytes.extend_from_slice(&[0x00, 0x00, 0x00]); // padding
    let result = parse_var(&bytes, &def(VarType::String { length: 8 }, 0, 0));
    assert_eq!(result, VarValue::StringVal("hello".into()));
}

#[test]
fn parse_out_of_bounds_returns_unknown() {
    let bytes = vec![0x01]; // only 1 byte
    // Word needs 2 bytes — must return Unknown
    let result = parse_var(&bytes, &def(VarType::Word, 0, 0));
    assert_eq!(result, VarValue::Unknown);
}

#[test]
fn parse_empty_bytes_returns_unknown() {
    let result = parse_var(&[], &def(VarType::Bool, 0, 0));
    assert_eq!(result, VarValue::Unknown);
}

#[test]
fn parse_at_offset_big_endian() {
    let bytes = vec![0xAA, 0xBB, 0x80, 0x00, 0x00, 0x01, 0xCC];
    assert_eq!(parse_var(&bytes, &def(VarType::Word, 2, 0)), VarValue::Word(0x8000));
    assert_eq!(parse_var(&bytes, &def(VarType::Int, 2, 0)), VarValue::Int(-32768));
    assert_eq!(parse_var(&bytes, &def(VarType::DWord, 2, 0)), VarValue::DWord(0x8000_0001));
    assert_eq!(parse_var(&bytes, &def(VarType::DInt, 2, 0)), VarValue::DInt(-2147483647));
    assert_eq!(parse_var(&bytes, &def(VarType::Real, 2, 0)), VarValue::Real(0x8000_0001));
    assert_eq!(parse_var(&bytes, &def(VarType::Int, 0, 0)), VarValue::Int(-21829));
    assert_eq!(parse_var(&bytes, &def(VarType::Word, 5, 0)), VarValue::Word(0x01CC));
}

#[test]
fn parse_positive_signed_values() {
    let bytes = vec![0x7F, 0xFF, 0xFF, 0xFF];
    assert_eq!(parse_var(&bytes, &def(VarType::Int, 0, 0)), VarValue::Int(32767));
    assert_eq!(parse_var(&bytes, &def(VarType::DInt, 0, 0)), VarValue::DInt(2147483647));
}

#[test]
fn parse_every_bit_of_a_byte() {
    let bytes = vec![0b1010_0101u8];
    let expected = [true, false, true, false, false, true, false, true];
    for bit in 0..8u8 {
        let r = parse_var(&bytes, &def(VarType::Bool, 0, bit));
        assert_eq!(r, VarValue::Bool { value: expected[bit as usize], blink_on: false });
    }
}

#[test]
fn parse_bool_with_wide_bit_offset_out_of_bounds_is_unknown() {
    // Out of bounds: nothing is shifted, so a bit offset of 9 is harmless.
    let bytes = vec![0xFF];
    assert_eq!(parse_var(&bytes, &def(VarType::Bool, 1, 9)), VarValue::Unknown);
}

#[test]
fn parse_bounds_are_exact() {
    let bytes = vec![1, 2, 3, 4];
    assert_eq!(parse_var(&bytes, &def(VarType::DWord, 0, 0)), VarValue::DWord(0x0102_0304));
    assert_eq!(parse_var(&bytes, &def(VarType::DWord, 1, 0)), VarValue::Unknown);
    assert_eq!(parse_var(&bytes, &def(VarType::Word, 2, 0)), VarValue::Word(0x0304));
    assert_eq!(parse_var(&bytes, &def(VarType::Word, 3, 0)), VarValue::Unknown);
    assert_eq!(parse_var(&bytes, &def(VarType::Byte, 3, 0)), VarValue::Byte(4));
    assert_eq!(parse_var(&bytes, &def(VarType::Byte, 4, 0)), VarValue::Unknown);
    assert_eq!(parse_var(&bytes, &def(VarType::Byte, u32::MAX, 0)), VarValue::Unknown);
    assert_eq!(
        parse_var(&bytes, &def(VarType::String { length: u32::MAX }, 1, 0)),
        VarValue::Unknown
    );
    assert_eq!(
        parse_var(&bytes, &def(VarType::String { length: 5 }, 0, 0)),
        VarValue::Unknown
    );
}

#[test]
fn parse_string_edge_cases() {
    let bytes = vec![b'A', b'B', 0, b'C', 0xE9];
    // No NUL in the field: all bytes; bytes above 0x7F are read as Latin-1.
    assert_eq!(
        parse_var(&bytes, &def(VarType::String { length: 2 }, 3, 0)),
        VarValue::StringVal("C\u{e9}".into())
    );
    // Text stops at the first NUL.
    assert_eq!(
        parse_var(&bytes, &def(VarType::String { length: 5 }, 0, 0)),
        VarValue::StringVal("AB".into())
    );
    // Leading NUL: empty text.
    assert_eq!(
        parse_var(&bytes, &def(VarType::String { length: 3 }, 2, 0)),
        VarValue::StringVal(String::new())
    );
    // Zero length at the very end: empty text.
    assert_eq!(
        parse_var(&bytes, &def(VarType::String { length: 0 }, 5, 0)),
        VarValue::StringVal(String::new())
    );
    assert_eq!(
        parse_var(&bytes, &def(VarType::String { length: 0 }, 6, 0)),
        VarValue::Unknown
    );
}

#[test]
fn signed_types_reinterpret_unsigned_ones() {
    for bytes in [vec![0x00u8, 0x00, 0x00, 0x00], vec![0xFF, 0xFE, 0x12, 0x80], vec![0x80, 0x00, 0x00, 0x00]] {
        let w = parse_var(&bytes, &def(VarType::Word, 1, 0));
        let i = parse_var(&bytes, &def(VarType::Int, 1, 0));
        match (w, i) {
            (VarValue::Word(w), VarValue::Int(i)) => assert_eq!(i as u16, w),
            other => panic!("unexpected {:?}", other),
        }
        let d = parse_var(&bytes, &def(VarType::DWord, 0, 0));
        let di = parse_var(&bytes, &def(VarType::DInt, 0, 0));
        let r = parse_var(&bytes, &def(VarType::Real, 0, 0));
        match (d, di, r) {
            (VarValue::DWord(d), VarValue::DInt(di), VarValue::Real(r)) => {
                assert_eq!(di as u32, d);
                assert_eq!(r, d);
            }
            other => panic!("unexpected {:?}", other),
        }
    }
}

#[test]
fn parse_bool_bit_beyond_seven_is_unknown() {
    let bytes = vec![0xFF];
    assert_eq!(parse_var(&bytes, &def(VarType::Bool, 0, 7)), VarValue::Bool { value: true, blink_on: false });
    assert_eq!(parse_var(&bytes, &def(VarType::Bool, 0, 8)), VarValue::Unknown);
    assert_eq!(parse_var(&bytes, &def(VarType::Bool, 0, 255)), VarValue::Unknown);
}
