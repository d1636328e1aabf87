use siemens_plc_monitor::export::{export_csharp, format_utc_timestamp};
use siemens_plc_monitor::model::variable::{VarDef, VarType};

fn def(name: &str, var_type: VarType, byte_offset: u32, bit_offset: u8) -> VarDef {
    VarDef { name: name.into(), var_type, byte_offset, bit_offset }
}

#[test]
fn export_matches_documented_example() {
    let defs = vec![
        def("Running", VarType::Bool, 0, 3),
        def("Temperature", VarType::Real, 2, 0),
        def("Serial", VarType::String { length: 4 }, 6, 0),
    ];
    let expected = "// Auto-generated by Siemens PLC Monitor
// DB: 100 | Generated: 2026-06-10 09:00:00
// Compatible with snap7dotnet ReadClass<T>

public class DB100 {
    public bool Running { get; set; } // Byte 0, Bit 3
    public float Temperature { get; set; } // Byte 2
    public byte Serial_1 { get; set; } // Byte 6
    public byte Serial_2 { get; set; } // Byte 7
    public byte Serial_3 { get; set; } // Byte 8
    public byte Serial_4 { get; set; } // Byte 9
    public string Serial =>
        System.Text.Encoding.ASCII.GetString(new byte[] { Serial_1, Serial_2, Serial_3, Serial_4 }).TrimEnd('\\0');
}
";
    assert_eq!(export_csharp(100, "2026-06-10 09:00:00", &defs), expected);
}

#[test]
fn export_every_scalar_type_and_edges() {
    let defs = vec![
        def("b", VarType::Byte, 1, 0),
        def("w", VarType::Word, 2, 0),
        def("i", VarType::Int, 4, 0),
        def("dw", VarType::DWord, 6, 0),
        def("di", VarType::DInt, 10, 0),
        def("s", VarType::String { length: 1 }, 4294967295, 0),
        def("e", VarType::String { length: 0 }, 3, 0),
    ];
    let expected = "// Auto-generated by Siemens PLC Monitor
// DB: 7 | Generated: now
// Compatible with snap7dotnet ReadClass<T>

public class DB7 {
    public byte b { get; set; } // Byte 1
    public ushort w { get; set; } // Byte 2
    public short i { get; set; } // Byte 4
    public uint dw { get; set; } // Byte 6
    public int di { get; set; } // Byte 10
    public byte s_1 { get; set; } // Byte 4294967295
    public string s =>
        System.Text.Encoding.ASCII.GetString(new byte[] { s_1 }).TrimEnd('\\0');
    public string e =>
        System.Text.Encoding.ASCII.GetString(new byte[] {  }).TrimEnd('\\0');
}
";
    assert_eq!(export_csharp(7, "now", &defs), expected);
}

#[test]
fn export_empty_table() {
    assert_eq!(
        export_csharp(0, "t", &[]),
        "// Auto-generated by Siemens PLC Monitor\n// DB: 0 | Generated: t\n// Compatible with snap7dotnet ReadClass<T>\n\npublic class DB0 {\n}\n"
    );
}

#[test]
fn utc_timestamps() {
    assert_eq!(format_utc_timestamp(0), "1970-01-01 00:00:00");
    assert_eq!(format_utc_timestamp(86399), "1970-01-01 23:59:59");
    assert_eq!(format_utc_timestamp(951782400), "2000-02-29 00:00:00");
    assert_eq!(format_utc_timestamp(951868799), "2000-02-29 23:59:59");
    assert_eq!(format_utc_timestamp(1781082000), "2026-06-10 09:00:00");
    assert_eq!(format_utc_timestamp(4102444800), "2100-01-01 00:00:00");
    assert_eq!(format_utc_timestamp(253402300799), "9999-12-31 23:59:59");
}
