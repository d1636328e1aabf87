use siemens_plc_monitor::draft::{ConnectRequest, ConnectionDraft};
use siemens_plc_monitor::model::session::ConnectionConfig;
use siemens_plc_monitor::text::parse_unsigned;

#[test]
fn test_app_default_inputs() {
    let draft = ConnectionDraft::from_defaults();
    let cfg = ConnectionConfig::default();
    assert_eq!(draft.ip, cfg.ip);
    assert_eq!(draft.rack, cfg.rack.to_string());
    assert_eq!(draft.slot, cfg.slot.to_string());
    assert_eq!(draft.db_number, cfg.db_number.to_string());
}

#[test]
fn default_draft_connects_to_default_parameters() {
    let r = ConnectionDraft::from_defaults().connect_request();
    let cfg = ConnectionConfig::default();
    assert_eq!(r, ConnectRequest { ip: cfg.ip, rack: cfg.rack, slot: cfg.slot, db_number: cfg.db_number });
}

#[test]
fn connect_request_falls_back_per_field() {
    let draft = ConnectionDraft {
        ip: "10.1.1.1".into(),
        rack: "x".into(),
        slot: "70000".into(),
        db_number: "+42".into(),
    };
    let r = draft.connect_request();
    assert_eq!(r, ConnectRequest { ip: "10.1.1.1".into(), rack: 0, slot: 1, db_number: 42 });
}

#[test]
fn parse_unsigned_matches_std() {
    let cases = ["", "+", "-", "-0", "0", "00042", "+7", "65535", "65536", " 1", "1 ", "1a", "++1", "18446744073709551615", "18446744073709551616", "٣"];
    for c in cases {
        assert_eq!(parse_unsigned(c, u16::MAX as u64), c.parse::<u16>().ok().map(|v| v as u64), "{:?}", c);
        assert_eq!(parse_unsigned(c, u32::MAX as u64), c.parse::<u32>().ok().map(|v| v as u64), "{:?}", c);
        assert_eq!(parse_unsigned(c, u64::MAX), c.parse::<u64>().ok(), "{:?}", c);
    }
}
