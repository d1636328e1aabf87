use siemens_plc_monitor::model::session::ConnectionConfig;
use siemens_plc_monitor::model::variable::{clone_var_defs, VarDef, VarType, VarValue};

#[test]
fn display_string_type() {
    let t = VarType::String { length: 64 };
    assert_eq!(t.to_string(), "String[64]");
}

#[test]
fn default_vardef() {
    let d = VarDef::default();
    assert_eq!(d.name, "");
    assert_eq!(d.var_type, VarType::Bool);
    assert_eq!(d.byte_offset, 0);
    assert_eq!(d.bit_offset, 0);
}

#[test]
fn display_every_type_kind() {
    assert_eq!(VarType::Bool.to_string(), "Bool");
    assert_eq!(VarType::Byte.to_string(), "Byte");
    assert_eq!(VarType::Word.to_string(), "Word");
    assert_eq!(VarType::Int.to_string(), "Int");
    assert_eq!(VarType::DWord.to_string(), "DWord");
    assert_eq!(VarType::DInt.to_string(), "DInt");
    assert_eq!(VarType::Real.to_string(), "Real");
    assert_eq!(VarType::String { length: 0 }.to_string(), "String[0]");
    assert_eq!(VarType::String { length: 4294967295 }.to_string(), "String[4294967295]");
}

#[test]
fn type_sizes() {
    assert_eq!(VarType::Bool.size(), 1);
    assert_eq!(VarType::Byte.size(), 1);
    assert_eq!(VarType::Word.size(), 2);
    assert_eq!(VarType::Int.size(), 2);
    assert_eq!(VarType::DWord.size(), 4);
    assert_eq!(VarType::DInt.size(), 4);
    assert_eq!(VarType::Real.size(), 4);
    assert_eq!(VarType::String { length: 30 }.size(), 30);
}

#[test]
fn clones_are_equal() {
    let d = VarDef { name: "tag".into(), var_type: VarType::String { length: 32 }, byte_offset: 18, bit_offset: 0 };
    assert_eq!(d.clone(), d);
    let defs = vec![d.clone(), VarDef::default()];
    assert_eq!(clone_var_defs(&defs), defs);
    let v = VarValue::StringVal("hello".into());
    assert_eq!(v.clone(), v);
    let c = ConnectionConfig::default();
    assert_eq!(c.clone(), c);
}

#[test]
fn default_connection_config() {
    let c = ConnectionConfig::default();
    assert_eq!(c.ip, "192.168.0.1");
    assert_eq!(c.rack, 0);
    assert_eq!(c.slot, 1);
    assert_eq!(c.db_number, 100);
    assert_eq!(c.poll_interval_ms, 100);
}
