use std::time::Instant;

use siemens_plc_monitor::model::session::ConnectionConfig;
use siemens_plc_monitor::model::variable::{VarDef, VarType, VarValue};
use siemens_plc_monitor::plc::poller::{
    apply_blink, compute_read_size, plan_poll, read_sizes_fit, refresh_live_vars, PollAction,
    PollerState,
};
use siemens_plc_monitor::plc::parser::parse_var;
use siemens_plc_monitor::state::{ConnectionStatus, LiveVar};

fn def(name: &str, var_type: VarType, byte_offset: u32, bit_offset: u8) -> VarDef {
    VarDef { name: name.into(), var_type, byte_offset, bit_offset }
}

#[test]
fn compute_read_size_single_bool() {
    let defs = vec![VarDef { name: "f".into(), var_type: VarType::Bool, byte_offset: 5, bit_offset: 0 }];
    assert_eq!(compute_read_size(&defs), 6);
}

#[test]
fn compute_read_size_word_and_real() {
    let defs = vec![
        VarDef { name: "w".into(), var_type: VarType::Word, byte_offset: 0, bit_offset: 0 },
        VarDef { name: "r".into(), var_type: VarType::Real, byte_offset: 10, bit_offset: 0 },
    ];
    assert_eq!(compute_read_size(&defs), 14); // 10 + 4
}

#[test]
fn compute_read_size_empty_and_unordered() {
    assert_eq!(compute_read_size(&[]), 0);
    let defs = vec![
        def("s", VarType::String { length: 30 }, 8, 0),
        def("b", VarType::Bool, 40, 7),
        def("d", VarType::DInt, 2, 0),
    ];
    assert_eq!(compute_read_size(&defs), 41);
    let defs = vec![def("s", VarType::String { length: u32::MAX }, u32::MAX, 0)];
    assert_eq!(compute_read_size(&defs), 2 * (u32::MAX as usize));
}

#[test]
fn read_size_covers_every_definition_and_no_less() {
    let defs = vec![
        def("flag", VarType::Bool, 0, 1),
        def("s", VarType::String { length: 6 }, 3, 0),
        def("w", VarType::Word, 7, 0),
    ];
    let size = compute_read_size(&defs);
    assert_eq!(size, 9);
    let bytes = vec![0x41u8; size];
    for d in &defs {
        assert_ne!(parse_var(&bytes, d), VarValue::Unknown);
    }
    let short = vec![0x41u8; size - 1];
    assert!(defs.iter().any(|d| parse_var(&short, d) == VarValue::Unknown));
}

#[test]
fn apply_blink_value_changed_sets_blink_on() {
    let mut v = VarValue::Bool { value: true, blink_on: false };
    apply_blink(&mut v, Some((false, false))); // false → true
    assert_eq!(v, VarValue::Bool { value: true, blink_on: true });
}

#[test]
fn apply_blink_value_true_toggles() {
    let mut v = VarValue::Bool { value: true, blink_on: false };
    apply_blink(&mut v, Some((true, true))); // stays true, was blink_on=true
    assert_eq!(v, VarValue::Bool { value: true, blink_on: false });
}

#[test]
fn apply_blink_value_false_stays_off() {
    let mut v = VarValue::Bool { value: false, blink_on: false };
    apply_blink(&mut v, Some((false, true)));
    assert_eq!(v, VarValue::Bool { value: false, blink_on: false });
}

#[test]
fn apply_blink_held_true_comes_back_after_two_polls() {
    for start in [false, true] {
        let mut first = VarValue::Bool { value: true, blink_on: false };
        apply_blink(&mut first, Some((true, start)));
        assert_eq!(first, VarValue::Bool { value: true, blink_on: !start });
        let mut second = VarValue::Bool { value: true, blink_on: false };
        apply_blink(&mut second, Some((true, !start)));
        assert_eq!(second, VarValue::Bool { value: true, blink_on: start });
    }
}

#[test]
fn apply_blink_edges_and_other_types() {
    // Falling edge lights the blink state as well.
    let mut v = VarValue::Bool { value: false, blink_on: false };
    apply_blink(&mut v, Some((true, false)));
    assert_eq!(v, VarValue::Bool { value: false, blink_on: true });
    // No previous value counts as (false, false).
    let mut v = VarValue::Bool { value: true, blink_on: false };
    apply_blink(&mut v, None);
    assert_eq!(v, VarValue::Bool { value: true, blink_on: true });
    let mut v = VarValue::Bool { value: false, blink_on: false };
    apply_blink(&mut v, None);
    assert_eq!(v, VarValue::Bool { value: false, blink_on: false });
    // Other types are left alone.
    let mut v = VarValue::Word(7);
    apply_blink(&mut v, Some((false, true)));
    assert_eq!(v, VarValue::Word(7));
}

#[test]
fn refresh_live_vars_parses_and_carries_blink() {
    let defs = vec![
        def("flag", VarType::Bool, 0, 0),
        def("raw", VarType::Byte, 1, 0),
        def("counter", VarType::Word, 2, 0),
        def("missing", VarType::DWord, 3, 0),
    ];
    let bytes = vec![0x01u8, 0x02, 0x03, 0x04];
    let now = Instant::now();
    let first = refresh_live_vars(&[], &defs, &bytes, now);
    assert_eq!(first.len(), 4);
    assert_eq!(first[0].value, VarValue::Bool { value: true, blink_on: true });
    assert_eq!(first[1].value, VarValue::Byte(2));
    assert_eq!(first[2].value, VarValue::Word(0x0304));
    assert_eq!(first[3].value, VarValue::Unknown);
    for (lv, d) in first.iter().zip(defs.iter()) {
        assert_eq!(&lv.def, d);
        assert_eq!(lv.last_updated, now);
    }
    let second = refresh_live_vars(&first, &defs, &bytes, now);
    assert_eq!(second[0].value, VarValue::Bool { value: true, blink_on: false });
    let third = refresh_live_vars(&second, &defs, &bytes, now);
    assert_eq!(third[0].value, VarValue::Bool { value: true, blink_on: true });
    // A previous value of another type gives no blink history.
    let previous = vec![LiveVar { def: def("x", VarType::Byte, 0, 0), value: VarValue::Byte(1), last_updated: now }];
    let fresh = refresh_live_vars(&previous, &defs[..1], &[0u8], now);
    assert_eq!(fresh[0].value, VarValue::Bool { value: false, blink_on: false });
}

#[test]
fn plan_poll_reads_only_when_active_connected_and_defined() {
    let cfg = ConnectionConfig::default();
    let defs = vec![def("flag", VarType::Bool, 0, 0), def("r", VarType::Real, 10, 0)];
    assert_eq!(
        plan_poll(true, &ConnectionStatus::Connected, &defs, &cfg),
        PollAction::Read { db_number: 100, size: 14 }
    );
    assert_eq!(plan_poll(false, &ConnectionStatus::Connected, &defs, &cfg), PollAction::Wait);
    assert_eq!(plan_poll(true, &ConnectionStatus::Connecting, &defs, &cfg), PollAction::Connect);
    assert_eq!(plan_poll(true, &ConnectionStatus::Connecting, &[], &cfg), PollAction::Connect);
    assert_eq!(plan_poll(false, &ConnectionStatus::Connecting, &defs, &cfg), PollAction::Wait);
    assert_eq!(plan_poll(true, &ConnectionStatus::Disconnected, &defs, &cfg), PollAction::Wait);
    assert_eq!(
        plan_poll(true, &ConnectionStatus::Error("read failed".into()), &defs, &cfg),
        PollAction::Wait
    );
    assert_eq!(plan_poll(true, &ConnectionStatus::Connected, &[], &cfg), PollAction::Wait);
    let mut big = ConnectionConfig::default();
    big.db_number = u32::MAX;
    assert_eq!(
        plan_poll(true, &ConnectionStatus::Connected, &defs, &big),
        PollAction::Read { db_number: -1, size: 14 }
    );
}

#[test]
fn poller_reconnects_from_third_consecutive_failure() {
    let mut p = PollerState::new();
    assert_eq!(p.error_count, 0);
    assert!(!p.on_read_failed());
    assert!(!p.on_read_failed());
    assert!(p.on_read_failed());
    assert_eq!(p.error_count, 3);
    assert!(p.on_read_failed());
    p.on_connected();
    assert_eq!(p.error_count, 0);
    assert!(!p.on_read_failed());
    p.on_read_ok();
    assert_eq!(p, PollerState { error_count: 0 });
}

#[test]
fn read_sizes_fit_on_this_target() {
    let defs = vec![def("s", VarType::String { length: u32::MAX }, u32::MAX, 0)];
    assert!(read_sizes_fit(&defs));
    assert!(read_sizes_fit(&[]));
}
