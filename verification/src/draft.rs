//! The text fields of the connection panel and the values they give.

use vstd::prelude::*;

use crate::model::session::ConnectionConfig;
use crate::text::{
    decimal_text, law_decimal_round_trip, parse_unsigned, parse_unsigned_spec, push_decimal,
};

verus! {

/// The value that `s` writes, or `default` when it is no unsigned number of
/// at most `max`.
pub open spec fn parsed_or(s: Seq<char>, max: nat, default: nat) -> nat {
    match parse_unsigned_spec(s, max) {
        Some(v) => v,
        None => default,
    }
}

/// Draft text of the connection panel, edited by the user before Connect.
pub struct ConnectionDraft {
    pub ip: String,
    pub rack: String,
    pub slot: String,
    pub db_number: String,
}

/// The parameters that Connect stores.
#[derive(Debug, PartialEq, Eq)]
pub struct ConnectRequest {
    pub ip: String,
    pub rack: u16,
    pub slot: u16,
    pub db_number: u32,
}

fn decimal_string(n: u64) -> (r: String)
    ensures
        r@ == decimal_text(n as nat),
{
    let mut s = String::new();
    push_decimal(&mut s, n);
    assert(s@ =~= decimal_text(n as nat));
    s
}

impl ConnectionDraft {
    /// The draft of the default connection parameters: the address, and
    /// rack, slot and DB number in decimal.
    pub fn from_defaults() -> (r: Self)
        ensures
            r.ip@ == "192.168.0.1"@,
            r.rack@ == decimal_text(0),
            r.slot@ == decimal_text(1),
            r.db_number@ == decimal_text(100),
    {
        let cfg = ConnectionConfig::default();
        ConnectionDraft {
            ip: cfg.ip,
            rack: decimal_string(cfg.rack as u64),
            slot: decimal_string(cfg.slot as u64),
            db_number: decimal_string(cfg.db_number as u64),
        }
    }

    /// What Connect stores: the address as typed; rack, slot and DB number
    /// read as decimal numbers, with 0, 1 and 100 for a field that holds no
    /// number of the field's type.
    pub fn connect_request(&self) -> (r: ConnectRequest)
        ensures
            r.ip@ == self.ip@,
            r.rack == parsed_or(self.rack@, u16::MAX as nat, 0),
            r.slot == parsed_or(self.slot@, u16::MAX as nat, 1),
            r.db_number == parsed_or(self.db_number@, u32::MAX as nat, 100),
    {
        let rack: u16 = match parse_unsigned(self.rack.as_str(), u16::MAX as u64) {
            Some(v) => v as u16,
            None => 0,
        };
        let slot: u16 = match parse_unsigned(self.slot.as_str(), u16::MAX as u64) {
            Some(v) => v as u16,
            None => 1,
        };
        let db_number: u32 = match parse_unsigned(self.db_number.as_str(), u32::MAX as u64) {
            Some(v) => v as u32,
            None => 100,
        };
        ConnectRequest { ip: self.ip.clone(), rack, slot, db_number }
    }
}

/// Connecting with the draft as it starts gives the default parameters:
/// rack 0, slot 1, DB 100.
pub proof fn law_default_draft_connects_to_defaults(draft: ConnectionDraft)
    requires
        draft.rack@ == decimal_text(0),
        draft.slot@ == decimal_text(1),
        draft.db_number@ == decimal_text(100),
    ensures
        parsed_or(draft.rack@, u16::MAX as nat, 0) == 0,
        parsed_or(draft.slot@, u16::MAX as nat, 1) == 1,
        parsed_or(draft.db_number@, u32::MAX as nat, 100) == 100,
{
    law_decimal_round_trip(0, u16::MAX as nat);
    law_decimal_round_trip(1, u16::MAX as nat);
    law_decimal_round_trip(100, u32::MAX as nat);
}

} // verus!
