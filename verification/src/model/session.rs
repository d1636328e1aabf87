use vstd::prelude::*;

verus! {

/// Connection parameters for a Siemens S7 PLC.
#[derive(Debug, PartialEq, Eq)]
pub struct ConnectionConfig {
    pub ip: String,
    pub rack: u16,
    pub slot: u16,
    pub db_number: u32,
    pub poll_interval_ms: u64,
}

/// The connection parameters a fresh monitor starts with.
pub open spec fn is_default_config(c: ConnectionConfig) -> bool {
    &&& c.ip@ == "192.168.0.1"@
    &&& c.rack == 0
    &&& c.slot == 1
    &&& c.db_number == 100
    &&& c.poll_interval_ms == 100
}

impl Clone for ConnectionConfig {
    fn clone(&self) -> (r: Self)
        ensures
            r == *self,
    {
        ConnectionConfig {
            ip: self.ip.clone(),
            rack: self.rack,
            slot: self.slot,
            db_number: self.db_number,
            poll_interval_ms: self.poll_interval_ms,
        }
    }
}

impl Default for ConnectionConfig {
    fn default() -> (r: Self)
        ensures
            is_default_config(r),
    {
        ConnectionConfig {
            ip: String::from_str("192.168.0.1"),
            rack: 0,
            slot: 1,
            db_number: 100,
            poll_interval_ms: 100,
        }
    }
}

} // verus!
