//! The decisions of the background poller: how many bytes of the DB to read,
//! how a fresh read becomes the live values, and what happens after a
//! failed read. The thread, the lock and the PLC client live around them.

use vstd::prelude::*;

use crate::model::session::ConnectionConfig;
use crate::model::variable::{type_size, ValueModel, VarDef, VarType, VarValue};
use crate::plc::parser::{in_bounds, parse_spec, parse_var};
use crate::state::{ConnectionStatus, LiveVar};

verus! {

/// First byte after the bytes of `d`.
pub open spec fn def_end(d: VarDef) -> nat {
    d.byte_offset as nat + type_size(d.var_type)
}

/// The number of bytes to read so that every definition lies inside them:
/// the largest end of a definition, 0 when there is none.
pub open spec fn read_size_spec(defs: Seq<VarDef>) -> nat
    decreases defs.len(),
{
    if defs.len() == 0 {
        0
    } else {
        let m = read_size_spec(defs.drop_last());
        let e = def_end(defs.last());
        if e > m { e } else { m }
    }
}

/// Every definition ends within the range of `usize`.
pub open spec fn ends_fit_usize(defs: Seq<VarDef>) -> bool {
    forall|i: int| 0 <= i < defs.len() ==> def_end(#[trigger] defs[i]) <= usize::MAX
}

/// Compute the minimum DB read size covering all variable definitions.
pub fn compute_read_size(var_defs: &[VarDef]) -> (r: usize)
    requires
        ends_fit_usize(var_defs@),
    ensures
        r == read_size_spec(var_defs@),
{
    let mut m: usize = 0;
    let mut i: usize = 0;
    while i < var_defs.len()
        invariant
            i <= var_defs@.len(),
            ends_fit_usize(var_defs@),
            m == read_size_spec(var_defs@.take(i as int)),
        decreases var_defs@.len() - i,
    {
        let d = &var_defs[i];
        assert(def_end(var_defs@[i as int]) <= usize::MAX);
        let e = d.byte_offset as usize + d.var_type.size() as usize;
        if e > m {
            m = e;
        }
        assert(var_defs@.take(i + 1).drop_last() == var_defs@.take(i as int));
        i = i + 1;
    }
    assert(var_defs@.take(var_defs@.len() as int) == var_defs@);
    m
}

/// The read size is at least the end of every definition, and it is the
/// end of one of them when there is any.
pub proof fn lemma_read_size_is_max(defs: Seq<VarDef>)
    ensures
        forall|i: int| 0 <= i < defs.len() ==> def_end(#[trigger] defs[i]) <= read_size_spec(defs),
        defs.len() > 0 ==> exists|i: int| 0 <= i < defs.len() && def_end(#[trigger] defs[i]) == read_size_spec(defs),
        defs.len() == 0 ==> read_size_spec(defs) == 0,
    decreases defs.len(),
{
    if defs.len() > 0 {
        let init = defs.drop_last();
        lemma_read_size_is_max(init);
        assert forall|i: int| 0 <= i < defs.len() implies def_end(#[trigger] defs[i]) <= read_size_spec(defs) by {
            if i < defs.len() - 1 {
                assert(defs[i] == init[i]);
            }
        }
        if def_end(defs.last()) > read_size_spec(init) || init.len() == 0 {
            assert(def_end(defs[defs.len() - 1]) == read_size_spec(defs));
        } else {
            let j = choose|j: int| 0 <= j < init.len() && def_end(#[trigger] init[j]) == read_size_spec(init);
            assert(defs[j] == init[j]);
        }
    }
}

/// A Bool names one of the bits 0 to 7 of its byte.
pub open spec fn bits_in_byte(defs: Seq<VarDef>) -> bool {
    forall|i: int|
        0 <= i < defs.len() && (#[trigger] defs[i]).var_type == VarType::Bool ==> defs[i].bit_offset
            < 8
}

/// Reading `compute_read_size` bytes is enough: in a block at least that
/// long every definition decodes to a value, never to `Unknown` (a Bool
/// naming a bit beyond 7 is `Unknown` whatever is read).
pub proof fn law_read_size_covers_every_definition(bytes: Seq<u8>, defs: Seq<VarDef>)
    requires
        bytes.len() >= read_size_spec(defs),
        bits_in_byte(defs),
    ensures
        forall|i: int| 0 <= i < defs.len() ==> !(parse_spec(bytes, #[trigger] defs[i]) is Unknown),
{
    lemma_read_size_is_max(defs);
    assert forall|i: int| 0 <= i < defs.len() implies !(parse_spec(bytes, #[trigger] defs[i]) is Unknown) by {
        assert(def_end(defs[i]) <= read_size_spec(defs));
        assert(in_bounds(bytes, defs[i]));
    }
}

/// Reading fewer bytes is not enough: in a shorter block some definition
/// decodes to `Unknown`.
pub proof fn law_read_size_is_minimal(bytes: Seq<u8>, defs: Seq<VarDef>)
    requires
        bytes.len() < read_size_spec(defs),
    ensures
        exists|i: int| 0 <= i < defs.len() && parse_spec(bytes, #[trigger] defs[i]) is Unknown,
{
    lemma_read_size_is_max(defs);
    let j = choose|j: int| 0 <= j < defs.len() && def_end(#[trigger] defs[j]) == read_size_spec(defs);
    assert(!in_bounds(bytes, defs[j]));
    assert(parse_spec(bytes, defs[j]) is Unknown);
}

/// The blink state of a freshly parsed value, given the `(value, blink_on)`
/// of the same Bool variable in the previous poll (`None`: there was none).
pub open spec fn blink_spec(v: ValueModel, prev: Option<(bool, bool)>) -> ValueModel {
    match v {
        ValueModel::Bool { value, blink_on } => {
            let (prev_value, prev_blink) = match prev {
                Some(p) => p,
                None => (false, false),
            };
            if value != prev_value {
                ValueModel::Bool { value, blink_on: true }
            } else if value {
                ValueModel::Bool { value, blink_on: !prev_blink }
            } else {
                ValueModel::Bool { value, blink_on }
            }
        },
        _ => v,
    }
}

/// Update the blink state of a Bool value based on its previous `(value, blink_on)`.
///
/// - Value changed: blink_on = true (alarm just fired)
/// - Value still true: toggle blink_on (visual heartbeat)
/// - Value still false: blink_on is left as it is
///
/// Values of other types are left unchanged.
pub fn apply_blink(new_value: &mut VarValue, prev: Option<(bool, bool)>)
    ensures
        final(new_value)@ == blink_spec(old(new_value)@, prev),
        !(old(new_value)@ is Bool) ==> *final(new_value) == *old(new_value),
{
    let current = match &*new_value {
        VarValue::Bool { value, blink_on } => Some((*value, *blink_on)),
        _ => None,
    };
    if let Some((value, blink_on)) = current {
        let (prev_val, prev_blink) = match prev {
            Some(p) => p,
            None => (false, false),
        };
        if value != prev_val {
            *new_value = VarValue::Bool { value, blink_on: true };
        } else if value {
            *new_value = VarValue::Bool { value, blink_on: !prev_blink };
        }
    }
}

/// A TRUE that holds keeps blinking: over two polls the blink state flips
/// and then comes back.
pub proof fn law_held_true_blinks(blink_on: bool)
    ensures
        blink_spec(ValueModel::Bool { value: true, blink_on: false }, Some((true, blink_on)))
            == (ValueModel::Bool { value: true, blink_on: !blink_on }),
        blink_spec(ValueModel::Bool { value: true, blink_on: false }, Some((true, !blink_on)))
            == (ValueModel::Bool { value: true, blink_on: blink_on }),
{
}

/// A change of value, either way, always lights the blink state.
pub proof fn law_change_lights_blink(value: bool, prev_blink: bool)
    ensures
        blink_spec(ValueModel::Bool { value, blink_on: false }, Some((!value, prev_blink)))
            == (ValueModel::Bool { value, blink_on: true }),
{
}

/// A FALSE that was already FALSE stays dark.
pub proof fn law_held_false_stays_dark(prev_blink: bool)
    ensures
        blink_spec(ValueModel::Bool { value: false, blink_on: false }, Some((false, prev_blink)))
            == (ValueModel::Bool { value: false, blink_on: false }),
        blink_spec(ValueModel::Bool { value: false, blink_on: false }, None)
            == (ValueModel::Bool { value: false, blink_on: false }),
{
}

/// The `(value, blink_on)` of entry `i` of the previous live values, when
/// there is such an entry and it holds a Bool.
pub open spec fn previous_bool(live: Seq<LiveVar>, i: int) -> Option<(bool, bool)> {
    if 0 <= i < live.len() {
        match live[i].value {
            VarValue::Bool { value, blink_on } => Some((value, blink_on)),
            _ => None,
        }
    } else {
        None
    }
}

/// Whether every definition ends within the range of `usize`, which
/// `compute_read_size` asks of its callers.
pub fn read_sizes_fit(var_defs: &[VarDef]) -> (r: bool)
    ensures
        r == ends_fit_usize(var_defs@),
{
    let mut i: usize = 0;
    while i < var_defs.len()
        invariant
            i <= var_defs@.len(),
            forall|j: int| 0 <= j < i ==> def_end(#[trigger] var_defs@[j]) <= usize::MAX,
        decreases var_defs@.len() - i,
    {
        let d = &var_defs[i];
        if usize::MAX - (d.byte_offset as usize) < d.var_type.size() as usize {
            assert(def_end(var_defs@[i as int]) > usize::MAX);
            return false;
        }
        i = i + 1;
    }
    true
}

/// The live value of definition `i` after a read of `bytes`.
pub open spec fn refreshed_value(
    live: Seq<LiveVar>,
    defs: Seq<VarDef>,
    bytes: Seq<u8>,
    i: int,
) -> ValueModel {
    blink_spec(parse_spec(bytes, defs[i]), previous_bool(live, i))
}

/// The live variables after a successful read of `bytes`: one per
/// definition, in order, decoded from the bytes, with the blink state carried
/// over from the Bool at the same position in `live_vars`.
pub fn refresh_live_vars(
    live_vars: &[LiveVar],
    var_defs: &[VarDef],
    bytes: &[u8],
    now: std::time::Instant,
) -> (r: Vec<LiveVar>)
    ensures
        r@.len() == var_defs@.len(),
        forall|i: int|
            0 <= i < var_defs@.len() ==> {
                &&& (#[trigger] r@[i]).def == var_defs@[i]
                &&& r@[i].value@ == refreshed_value(live_vars@, var_defs@, bytes@, i)
                &&& r@[i].last_updated == now
            },
{
    let mut out: Vec<LiveVar> = Vec::with_capacity(var_defs.len());
    let mut i: usize = 0;
    while i < var_defs.len()
        invariant
            i <= var_defs@.len(),
            out@.len() == i,
            forall|j: int|
                0 <= j < i ==> {
                    &&& (#[trigger] out@[j]).def == var_defs@[j]
                    &&& out@[j].value@ == refreshed_value(live_vars@, var_defs@, bytes@, j)
                    &&& out@[j].last_updated == now
                },
        decreases var_defs@.len() - i,
    {
        let prev = if i < live_vars.len() {
            match &live_vars[i].value {
                VarValue::Bool { value, blink_on } => Some((*value, *blink_on)),
                _ => None,
            }
        } else {
            None
        };
        assert(prev == previous_bool(live_vars@, i as int));
        let mut value = parse_var(bytes, &var_defs[i]);
        apply_blink(&mut value, prev);
        out.push(LiveVar { def: var_defs[i].clone(), value, last_updated: now });
        i = i + 1;
    }
    out
}

/// The blink state of every row carries over from the same row of the
/// previous live values, the last row included: when row `i` held the Bool
/// `(prev_value, prev_blink)` and the read gives the Bool `value`, the new
/// blink state is lit on a change, flips while TRUE holds, and stays dark
/// while FALSE holds.
pub proof fn law_refresh_carries_blink_per_row(
    live: Seq<LiveVar>,
    defs: Seq<VarDef>,
    bytes: Seq<u8>,
    i: int,
    prev_value: bool,
    prev_blink: bool,
    value: bool,
)
    requires
        0 <= i < live.len(),
        i < defs.len(),
        live[i].value == (VarValue::Bool { value: prev_value, blink_on: prev_blink }),
        parse_spec(bytes, defs[i]) == (ValueModel::Bool { value, blink_on: false }),
    ensures
        refreshed_value(live, defs, bytes, i) == (ValueModel::Bool {
            value,
            blink_on: if value != prev_value {
                true
            } else if value {
                !prev_blink
            } else {
                false
            },
        }),
{
}

/// A row with no Bool at its place in the previous live values (a new row,
/// or one that held another type) starts as if it had been FALSE: it is lit
/// exactly when it reads TRUE.
pub proof fn law_refresh_new_bool_row(live: Seq<LiveVar>, defs: Seq<VarDef>, bytes: Seq<u8>, i: int, value: bool)
    requires
        0 <= i < defs.len(),
        i >= live.len() || !(live[i].value is Bool),
        parse_spec(bytes, defs[i]) == (ValueModel::Bool { value, blink_on: false }),
    ensures
        refreshed_value(live, defs, bytes, i) == (ValueModel::Bool { value, blink_on: value }),
{
}

/// Rows that are not Bools show what was read, whatever came before.
pub proof fn law_refresh_other_types_are_the_read_value(
    live: Seq<LiveVar>,
    defs: Seq<VarDef>,
    bytes: Seq<u8>,
    i: int,
)
    requires
        0 <= i < defs.len(),
        !(parse_spec(bytes, defs[i]) is Bool),
    ensures
        refreshed_value(live, defs, bytes, i) == parse_spec(bytes, defs[i]),
{
}

/// What the poller does in one turn, decided from a snapshot of the state.
#[derive(Debug, PartialEq, Eq, Structural)]
pub enum PollAction {
    /// Nothing to do: sleep for the poll interval.
    Wait,
    /// Connect to the PLC with the configured parameters.
    Connect,
    /// Read `size` bytes of data block `db_number`, starting at byte 0.
    Read { db_number: i32, size: usize },
}

/// Whether a turn with this snapshot reads the data block.
pub open spec fn reads(polling_active: bool, status: ConnectionStatus, defs: Seq<VarDef>) -> bool {
    polling_active && status is Connected && defs.len() > 0
}

/// While polling is active, the poller completes a connection that was
/// asked for, and reads when connected and there is at least one variable,
/// just enough bytes for all of them. Otherwise it waits.
pub fn plan_poll(
    polling_active: bool,
    status: &ConnectionStatus,
    var_defs: &[VarDef],
    config: &ConnectionConfig,
) -> (r: PollAction)
    requires
        reads(polling_active, *status, var_defs@) ==> ends_fit_usize(var_defs@),
    ensures
        polling_active && *status is Connecting ==> r == PollAction::Connect,
        reads(polling_active, *status, var_defs@) ==> r == (PollAction::Read {
            db_number: config.db_number as i32,
            size: read_size_spec(var_defs@) as usize,
        }),
        !(polling_active && *status is Connecting) && !reads(polling_active, *status, var_defs@)
            ==> r == PollAction::Wait,
{
    if !polling_active {
        return PollAction::Wait;
    }
    match status {
        ConnectionStatus::Connected => {},
        ConnectionStatus::Connecting => {
            return PollAction::Connect;
        },
        _ => {
            return PollAction::Wait;
        },
    }
    if var_defs.len() == 0 {
        return PollAction::Wait;
    }
    PollAction::Read { db_number: config.db_number as i32, size: compute_read_size(var_defs) }
}

/// The poller's own state: the number of consecutive failed reads.
#[derive(Debug, PartialEq, Eq, Structural)]
pub struct PollerState {
    pub error_count: u32,
}

impl PollerState {
    /// A poller that has seen no failure.
    pub fn new() -> (r: Self)
        ensures
            r.error_count == 0,
    {
        PollerState { error_count: 0 }
    }

    /// A read succeeded: the run of failures is over.
    pub fn on_read_ok(&mut self)
        ensures
            final(self).error_count == 0,
    {
        self.error_count = 0;
    }

    /// A read failed: the count grows by one; from the third consecutive
    /// failure on, the poller reports the error and reconnects (the result).
    pub fn on_read_failed(&mut self) -> (reconnect: bool)
        requires
            old(self).error_count < u32::MAX,
        ensures
            final(self).error_count == old(self).error_count + 1,
            reconnect == (final(self).error_count >= 3),
    {
        self.error_count = self.error_count + 1;
        self.error_count >= 3
    }

    /// The poller connected: the run of failures is over.
    pub fn on_connected(&mut self)
        ensures
            final(self).error_count == 0,
    {
        self.error_count = 0;
    }
}

} // verus!
