//! The state shared between the user interface and the poller, and the
//! changes that each of them makes to it.

use vstd::prelude::*;

use crate::config::ConfigFile;
use crate::model::session::{is_default_config, ConnectionConfig};
use crate::model::variable::{clone_var_defs, VarDef, VarValue};
use crate::plc::poller::{reads, refresh_live_vars, refreshed_value};

verus! {

/// The moment a value was read; carried through unchanged.
#[verifier::external_type_specification]
#[verifier::external_body]
pub struct ExInstant(std::time::Instant);

/// Connectivity state of the PLC client.
#[derive(Debug, PartialEq, Eq)]
pub enum ConnectionStatus {
    Disconnected,
    Connecting,
    Connected,
    Error(String),
}

impl Clone for ConnectionStatus {
    fn clone(&self) -> (r: Self)
        ensures
            r == *self,
    {
        match self {
            ConnectionStatus::Disconnected => ConnectionStatus::Disconnected,
            ConnectionStatus::Connecting => ConnectionStatus::Connecting,
            ConnectionStatus::Connected => ConnectionStatus::Connected,
            ConnectionStatus::Error(msg) => ConnectionStatus::Error(msg.clone()),
        }
    }
}

/// A live-monitored variable: its definition, current parsed value, and when it was last read.
pub struct LiveVar {
    pub def: VarDef,
    pub value: VarValue,
    pub last_updated: std::time::Instant,
}

/// Application-wide shared state, intended to live inside `Arc<Mutex<SharedState>>`.
///
/// The poller thread reads `config`, `var_defs`, `poll_interval_ms`, `polling_active`,
/// and `status` under a short lock, then writes `live_vars` under a separate lock
/// after completing I/O.
pub struct SharedState {
    pub config: ConnectionConfig,
    pub var_defs: Vec<VarDef>,
    pub live_vars: Vec<LiveVar>,
    pub status: ConnectionStatus,
    pub poll_interval_ms: u64,
    pub polling_active: bool,
}

impl SharedState {
    /// Create a `SharedState` with sensible defaults.
    ///
    /// Polling starts inactive; the UI must set `polling_active = true` to begin.
    pub fn new() -> (r: Self)
        ensures
            is_default_config(r.config),
            r.var_defs@.len() == 0,
            r.live_vars@.len() == 0,
            r.status == ConnectionStatus::Disconnected,
            r.poll_interval_ms == r.config.poll_interval_ms,
            !r.polling_active,
    {
        let config = ConnectionConfig::default();
        let poll_interval_ms = config.poll_interval_ms;
        SharedState {
            config,
            var_defs: Vec::new(),
            live_vars: Vec::new(),
            status: ConnectionStatus::Disconnected,
            poll_interval_ms,
            polling_active: false,
        }
    }
}

/// The definitions after a list of edits: each `(i, def)` puts `def` at
/// position `i`, in order, when `i` is a position of the list.
pub open spec fn edited_defs(defs: Seq<VarDef>, edits: Seq<(usize, VarDef)>) -> Seq<VarDef>
    decreases edits.len(),
{
    if edits.len() == 0 {
        defs
    } else {
        let prior = edited_defs(defs, edits.drop_last());
        let (i, def) = edits.last();
        if i < prior.len() {
            prior.update(i as int, def)
        } else {
            prior
        }
    }
}

/// The definitions after the edits of the variable table: the edits first,
/// then the removal of the row `delete`, when it is a position of the list.
pub open spec fn table_after_edits(
    defs: Seq<VarDef>,
    edits: Seq<(usize, VarDef)>,
    delete: Option<usize>,
) -> Seq<VarDef> {
    let edited = edited_defs(defs, edits);
    match delete {
        Some(idx) => if idx < edited.len() {
            edited.remove(idx as int)
        } else {
            edited
        },
        None => edited,
    }
}

/// The state after loading `cfg`: its connection parameters, poll interval
/// and table replace those of `s`.
pub open spec fn after_load(s: SharedState, cfg: ConfigFile) -> SharedState {
    SharedState {
        config: cfg.connection,
        var_defs: cfg.vars,
        poll_interval_ms: cfg.connection.poll_interval_ms,
        ..s
    }
}

/// What a saved configuration holds of a state: its connection parameters
/// and its table.
pub open spec fn saved_part(s: SharedState) -> (ConnectionConfig, Seq<VarDef>) {
    (s.config, s.var_defs@)
}

/// The status after the poller's connection attempt ended with `result`:
/// a pending connection becomes `Connected` or `Error` with the message;
/// any other status is kept.
pub open spec fn connect_outcome(status: ConnectionStatus, result: Result<(), String>) -> ConnectionStatus {
    match status {
        ConnectionStatus::Connecting => match result {
            Ok(()) => ConnectionStatus::Connected,
            Err(msg) => ConnectionStatus::Error(msg),
        },
        _ => status,
    }
}

impl SharedState {
    /// The user pressed Connect: store the connection parameters, start
    /// polling and mark the connection as being made.
    pub fn begin_connect(&mut self, ip: String, rack: u16, slot: u16, db_number: u32)
        ensures
            final(self).config == (ConnectionConfig {
                ip,
                rack,
                slot,
                db_number,
                poll_interval_ms: old(self).config.poll_interval_ms,
            }),
            final(self).polling_active,
            final(self).status == ConnectionStatus::Connecting,
            final(self).var_defs == old(self).var_defs,
            final(self).live_vars == old(self).live_vars,
            final(self).poll_interval_ms == old(self).poll_interval_ms,
    {
        self.config.ip = ip;
        self.config.rack = rack;
        self.config.slot = slot;
        self.config.db_number = db_number;
        self.polling_active = true;
        self.status = ConnectionStatus::Connecting;
    }

    /// The user pressed Disconnect: stop polling.
    pub fn disconnect(&mut self)
        ensures
            !final(self).polling_active,
            final(self).status == ConnectionStatus::Disconnected,
            final(self).config == old(self).config,
            final(self).var_defs == old(self).var_defs,
            final(self).live_vars == old(self).live_vars,
            final(self).poll_interval_ms == old(self).poll_interval_ms,
    {
        self.polling_active = false;
        self.status = ConnectionStatus::Disconnected;
    }

    /// A new poll interval, used by the poller and kept in the configuration.
    pub fn set_poll_interval(&mut self, ms: u64)
        ensures
            final(self).poll_interval_ms == ms,
            final(self).config == (ConnectionConfig { poll_interval_ms: ms, ..old(self).config }),
            final(self).polling_active == old(self).polling_active,
            final(self).status == old(self).status,
            final(self).var_defs == old(self).var_defs,
            final(self).live_vars == old(self).live_vars,
    {
        self.poll_interval_ms = ms;
        self.config.poll_interval_ms = ms;
    }

    /// Add Row: append a default definition to the variable table.
    pub fn add_var_def(&mut self)
        ensures
            final(self).var_defs@.len() == old(self).var_defs@.len() + 1,
            final(self).var_defs@.drop_last() == old(self).var_defs@,
            final(self).var_defs@.last().name@ == Seq::<char>::empty(),
            final(self).var_defs@.last().var_type == crate::model::variable::VarType::Bool,
            final(self).var_defs@.last().byte_offset == 0,
            final(self).var_defs@.last().bit_offset == 0,
            final(self).config == old(self).config,
            final(self).live_vars == old(self).live_vars,
            final(self).status == old(self).status,
            final(self).polling_active == old(self).polling_active,
            final(self).poll_interval_ms == old(self).poll_interval_ms,
    {
        self.var_defs.push(VarDef::default());
        assert(self.var_defs@.drop_last() =~= old(self).var_defs@);
    }

    /// Apply the edits made in the variable table in one go: the changed rows,
    /// then the deletion of one row.
    pub fn apply_var_def_edits(&mut self, edits: Vec<(usize, VarDef)>, delete: Option<usize>)
        ensures
            final(self).var_defs@ == table_after_edits(old(self).var_defs@, edits@, delete),
            final(self).config == old(self).config,
            final(self).live_vars == old(self).live_vars,
            final(self).status == old(self).status,
            final(self).polling_active == old(self).polling_active,
            final(self).poll_interval_ms == old(self).poll_interval_ms,
    {
        let mut k: usize = 0;
        while k < edits.len()
            invariant
                k <= edits@.len(),
                self.var_defs@ == edited_defs(old(self).var_defs@, edits@.take(k as int)),
                self.config == old(self).config,
                self.live_vars == old(self).live_vars,
                self.status == old(self).status,
                self.polling_active == old(self).polling_active,
                self.poll_interval_ms == old(self).poll_interval_ms,
            decreases edits@.len() - k,
        {
            let i = edits[k].0;
            assert(edits@.take(k + 1).drop_last() == edits@.take(k as int));
            if i < self.var_defs.len() {
                self.var_defs.set(i, edits[k].1.clone());
            }
            k = k + 1;
        }
        assert(edits@.take(edits@.len() as int) == edits@);
        if let Some(idx) = delete {
            if idx < self.var_defs.len() {
                self.var_defs.remove(idx);
            }
        }
    }

    /// The configuration to save: the connection parameters and the table.
    pub fn config_snapshot(&self) -> (r: ConfigFile)
        ensures
            (r.connection, r.vars@) == saved_part(*self),
    {
        ConfigFile { connection: self.config.clone(), vars: clone_var_defs(&self.var_defs) }
    }

    /// A loaded configuration replaces the connection parameters, the poll
    /// interval and the table.
    pub fn load_config_file(&mut self, cfg: ConfigFile)
        ensures
            *final(self) == after_load(*old(self), cfg),
    {
        self.poll_interval_ms = cfg.connection.poll_interval_ms;
        self.config = cfg.connection;
        self.var_defs = cfg.vars;
    }

    /// A successful read of `bytes` replaces the live values (see
    /// `refresh_live_vars`).
    pub fn store_read(&mut self, var_defs: &[VarDef], bytes: &[u8], now: std::time::Instant)
        ensures
            final(self).live_vars@.len() == var_defs@.len(),
            forall|i: int|
                0 <= i < var_defs@.len() ==> {
                    &&& (#[trigger] final(self).live_vars@[i]).def == var_defs@[i]
                    &&& final(self).live_vars@[i].value@ == refreshed_value(
                        old(self).live_vars@,
                        var_defs@,
                        bytes@,
                        i,
                    )
                    &&& final(self).live_vars@[i].last_updated == now
                },
            final(self).config == old(self).config,
            final(self).var_defs == old(self).var_defs,
            final(self).status == old(self).status,
            final(self).polling_active == old(self).polling_active,
            final(self).poll_interval_ms == old(self).poll_interval_ms,
    {
        let fresh = refresh_live_vars(&self.live_vars, var_defs, bytes, now);
        self.live_vars = fresh;
    }

    /// Repeated read failures: report the connection as failed.
    pub fn record_read_failure(&mut self)
        ensures
            final(self).status matches ConnectionStatus::Error(msg) && msg@ == "read failed"@,
            final(self).config == old(self).config,
            final(self).var_defs == old(self).var_defs,
            final(self).live_vars == old(self).live_vars,
            final(self).polling_active == old(self).polling_active,
            final(self).poll_interval_ms == old(self).poll_interval_ms,
    {
        self.status = ConnectionStatus::Error(String::from_str("read failed"));
    }

    /// The result of the connection that the poller made after Connect: the
    /// status becomes `Connected`, or `Error` with the message of the
    /// failure. A status that is no longer `Connecting` (the user pressed
    /// Disconnect meanwhile) is left as it is.
    pub fn record_connect_result(&mut self, result: Result<(), String>)
        ensures
            final(self).status == connect_outcome(old(self).status, result),
            final(self).config == old(self).config,
            final(self).var_defs == old(self).var_defs,
            final(self).live_vars == old(self).live_vars,
            final(self).polling_active == old(self).polling_active,
            final(self).poll_interval_ms == old(self).poll_interval_ms,
    {
        if let ConnectionStatus::Connecting = self.status {
            self.status = match result {
                Ok(()) => ConnectionStatus::Connected,
                Err(msg) => ConnectionStatus::Error(msg),
            };
        }
    }

    /// Start: polling resumes.
    pub fn start_polling(&mut self)
        ensures
            final(self).polling_active,
            final(self).config == old(self).config,
            final(self).var_defs == old(self).var_defs,
            final(self).live_vars == old(self).live_vars,
            final(self).status == old(self).status,
            final(self).poll_interval_ms == old(self).poll_interval_ms,
    {
        self.polling_active = true;
    }

    /// Stop: polling pauses; the connection status is kept.
    pub fn stop_polling(&mut self)
        ensures
            !final(self).polling_active,
            final(self).config == old(self).config,
            final(self).var_defs == old(self).var_defs,
            final(self).live_vars == old(self).live_vars,
            final(self).status == old(self).status,
            final(self).poll_interval_ms == old(self).poll_interval_ms,
    {
        self.polling_active = false;
    }

    /// The poller reconnected after read failures.
    pub fn record_reconnected(&mut self)
        ensures
            final(self).status == ConnectionStatus::Connected,
            final(self).config == old(self).config,
            final(self).var_defs == old(self).var_defs,
            final(self).live_vars == old(self).live_vars,
            final(self).polling_active == old(self).polling_active,
            final(self).poll_interval_ms == old(self).poll_interval_ms,
    {
        self.status = ConnectionStatus::Connected;
    }
}

/// Adding a row and then deleting that row gives back the table as it was.
pub proof fn law_add_then_delete_restores(defs: Seq<VarDef>, added: VarDef)
    requires
        defs.len() < usize::MAX,
    ensures
        table_after_edits(defs.push(added), Seq::empty(), Some(defs.len() as usize)) == defs,
{
    let empty: Seq<(usize, VarDef)> = Seq::empty();
    assert(edited_defs(defs.push(added), empty) == defs.push(added));
    assert(defs.push(added).remove(defs.len() as int) =~= defs);
}

/// Saving after a load gives back what was loaded: the connection
/// parameters and the table of the loaded configuration.
pub proof fn law_save_after_load_gives_loaded(s: SharedState, cfg: ConfigFile)
    ensures
        saved_part(after_load(s, cfg)) == (cfg.connection, cfg.vars@),
{
}

/// Connect leads to reading: once the poller's connection succeeds, an
/// active poller with at least one variable reads the data block; once it
/// fails, the status shows the failure and the poller does not read.
pub proof fn law_connect_then_read(defs: Seq<VarDef>, msg: String)
    requires
        defs.len() > 0,
    ensures
        connect_outcome(ConnectionStatus::Connecting, Ok(())) == ConnectionStatus::Connected,
        reads(true, connect_outcome(ConnectionStatus::Connecting, Ok(())), defs),
        connect_outcome(ConnectionStatus::Connecting, Err(msg)) == ConnectionStatus::Error(msg),
        !reads(true, connect_outcome(ConnectionStatus::Connecting, Err(msg)), defs),
{
}

/// Deleting row `idx` removes that row and keeps the others in their
/// order; a row number past the end deletes nothing.
pub proof fn law_delete_keeps_order(defs: Seq<VarDef>, idx: usize)
    ensures
        idx < defs.len() ==> table_after_edits(defs, Seq::empty(), Some(idx)) == defs.subrange(
            0,
            idx as int,
        ) + defs.subrange(idx + 1, defs.len() as int),
        idx >= defs.len() ==> table_after_edits(defs, Seq::empty(), Some(idx)) == defs,
{
    let empty: Seq<(usize, VarDef)> = Seq::empty();
    assert(edited_defs(defs, empty) == defs);
    if idx < defs.len() {
        assert(defs.remove(idx as int) =~= defs.subrange(0, idx as int) + defs.subrange(
            idx + 1,
            defs.len() as int,
        ));
    }
}

/// Edits keep the number of rows, and each row ends up with the last edit
/// made to it, or as it was when no edit names it.
pub proof fn law_edits_last_one_wins(defs: Seq<VarDef>, edits: Seq<(usize, VarDef)>, j: int)
    requires
        0 <= j < defs.len(),
    ensures
        edited_defs(defs, edits).len() == defs.len(),
        (forall|k: int| 0 <= k < edits.len() ==> (#[trigger] edits[k]).0 != j) ==> edited_defs(
            defs,
            edits,
        )[j] == defs[j],
        forall|k: int|
            0 <= k < edits.len() && (#[trigger] edits[k]).0 == j && (forall|l: int|
                k < l < edits.len() ==> (#[trigger] edits[l]).0 != j) ==> edited_defs(defs, edits)[j]
                == edits[k].1,
    decreases edits.len(),
{
    if edits.len() > 0 {
        let init = edits.drop_last();
        let last = edits.last();
        law_edits_last_one_wins(defs, init, j);
        assert forall|k: int| 0 <= k < init.len() implies #[trigger] init[k] == edits[k] by {}
        if last.0 == j {
            assert forall|k: int|
                0 <= k < edits.len() && (#[trigger] edits[k]).0 == j && (forall|l: int|
                    k < l < edits.len() ==> (#[trigger] edits[l]).0 != j) implies edited_defs(
                defs,
                edits,
            )[j] == edits[k].1 by {
                if k < edits.len() - 1 {
                    assert(edits[edits.len() - 1].0 != j);
                }
            }
            if forall|k: int| 0 <= k < edits.len() ==> (#[trigger] edits[k]).0 != j {
                assert(edits[edits.len() - 1].0 != j);
            }
        } else {
            assert forall|k: int|
                0 <= k < edits.len() && (#[trigger] edits[k]).0 == j && (forall|l: int|
                    k < l < edits.len() ==> (#[trigger] edits[l]).0 != j) implies edited_defs(
                defs,
                edits,
            )[j] == edits[k].1 by {
                assert(k < edits.len() - 1);
                assert(init[k] == edits[k]);
                assert forall|l: int| k < l < init.len() implies (#[trigger] init[l]).0 != j by {
                    assert(init[l] == edits[l]);
                }
            }
            if forall|k: int| 0 <= k < edits.len() ==> (#[trigger] edits[k]).0 != j {
                assert forall|k: int| 0 <= k < init.len() implies (#[trigger] init[k]).0 != j by {
                    assert(init[k] == edits[k]);
                }
            }
        }
    }
}

} // verus!
