//! The text that the monitor shows: labels of types and statuses, and the
//! rendering of live values.

use vstd::prelude::*;
use vstd::string::StringExecFns;

use crate::model::variable::{ValueModel, VarDef, VarType, VarValue};
use crate::state::ConnectionStatus;
use crate::text::{
    decimal_text, hex_text, push_decimal, push_hex, push_signed, push_str, signed_decimal_text,
    str_eq,
};

verus! {

/// The name of a type kind, as listed in the type selector.
pub open spec fn kind_label(t: VarType) -> Seq<char> {
    match t {
        VarType::Bool => "Bool"@,
        VarType::Byte => "Byte"@,
        VarType::Word => "Word"@,
        VarType::Int => "Int"@,
        VarType::DWord => "DWord"@,
        VarType::DInt => "DInt"@,
        VarType::Real => "Real"@,
        VarType::String { .. } => "String"@,
    }
}

/// The type that the selector gives for `kind`: a String keeps the length of
/// the current type when that is a String too, else gets 32; an unknown
/// kind gives Bool.
pub open spec fn var_type_of_kind(kind: Seq<char>, current: VarType) -> VarType {
    if kind == "Bool"@ {
        VarType::Bool
    } else if kind == "Byte"@ {
        VarType::Byte
    } else if kind == "Word"@ {
        VarType::Word
    } else if kind == "Int"@ {
        VarType::Int
    } else if kind == "DWord"@ {
        VarType::DWord
    } else if kind == "DInt"@ {
        VarType::DInt
    } else if kind == "Real"@ {
        VarType::Real
    } else if kind == "String"@ {
        match current {
            VarType::String { length } => VarType::String { length },
            _ => VarType::String { length: 32 },
        }
    } else {
        VarType::Bool
    }
}

/// The name of the kind of `vt`.
pub fn type_kind_label(vt: &VarType) -> (r: &'static str)
    ensures
        r@ == kind_label(*vt),
{
    match vt {
        VarType::Bool => "Bool",
        VarType::Byte => "Byte",
        VarType::Word => "Word",
        VarType::Int => "Int",
        VarType::DWord => "DWord",
        VarType::DInt => "DInt",
        VarType::Real => "Real",
        VarType::String { .. } => "String",
    }
}

/// Convert a kind label string to a `VarType`, preserving String length when possible.
pub fn kind_to_var_type(kind: &str, current: &VarType) -> (r: VarType)
    ensures
        r == var_type_of_kind(kind@, *current),
{
    if str_eq(kind, "Bool") {
        VarType::Bool
    } else if str_eq(kind, "Byte") {
        VarType::Byte
    } else if str_eq(kind, "Word") {
        VarType::Word
    } else if str_eq(kind, "Int") {
        VarType::Int
    } else if str_eq(kind, "DWord") {
        VarType::DWord
    } else if str_eq(kind, "DInt") {
        VarType::DInt
    } else if str_eq(kind, "Real") {
        VarType::Real
    } else if str_eq(kind, "String") {
        match current {
            VarType::String { length } => VarType::String { length: *length },
            _ => VarType::String { length: 32 },
        }
    } else {
        VarType::Bool
    }
}

/// Choosing in the selector the kind that a type already has gives that
/// type back: a String keeps its length.
pub proof fn law_kind_label_round_trip(t: VarType)
    ensures
        var_type_of_kind(kind_label(t), t) == t,
{
    reveal_strlit("Bool");
    reveal_strlit("Byte");
    reveal_strlit("Word");
    reveal_strlit("Int");
    reveal_strlit("DWord");
    reveal_strlit("DInt");
    reveal_strlit("Real");
    reveal_strlit("String");
    let labels = seq!["Bool"@, "Byte"@, "Word"@, "Int"@, "DWord"@, "DInt"@, "Real"@, "String"@];
    assert forall|i: int, j: int| 0 <= i < j < 8 implies labels[i] != labels[j] by {
        if labels[i].len() == labels[j].len() {
            if labels[i][0] == labels[j][0] {
                assert(labels[i][1] != labels[j][1]);
            } else {
                assert(labels[i][0] != labels[j][0]);
            }
        }
    }
}

/// The text of a live value. A `Real` has none here: its three decimals are
/// a floating-point rendering, left to the caller.
pub open spec fn value_text(v: ValueModel) -> Option<Seq<char>> {
    match v {
        ValueModel::Bool { blink_on, .. } => Some(
            if blink_on {
                "\u{25CF}TRUE"@
            } else {
                "\u{25CB}FALSE"@
            },
        ),
        ValueModel::Byte(b) => Some(decimal_text(b as nat)),
        ValueModel::Word(w) => Some(
            "0x"@ + hex_text(w as nat, 4) + "  ("@ + decimal_text(w as nat) + ")"@,
        ),
        ValueModel::Int(i) => Some(signed_decimal_text(i as int)),
        ValueModel::DWord(d) => Some(
            "0x"@ + hex_text(d as nat, 8) + "  ("@ + decimal_text(d as nat) + ")"@,
        ),
        ValueModel::DInt(i) => Some(signed_decimal_text(i as int)),
        ValueModel::Real(_) => None,
        ValueModel::StringVal(s) => Some("\""@ + s + "\""@),
        ValueModel::Unknown => Some("--"@),
    }
}

/// Format a `VarValue` as a display string (no colour information).
///
/// For Bool: `blink_on` determines the label; callers apply colour separately.
/// A `Real` gives `None`: it is shown with three decimals by the caller.
pub fn format_var_value(value: &VarValue) -> (r: Option<String>)
    ensures
        r is Some <==> value_text(value@) is Some,
        r matches Some(s) ==> s@ == value_text(value@).unwrap(),
{
    match value {
        VarValue::Bool { blink_on, .. } => {
            if *blink_on {
                Some(String::from_str("\u{25CF}TRUE"))
            } else {
                Some(String::from_str("\u{25CB}FALSE"))
            }
        },
        VarValue::Byte(v) => {
            let mut s = String::new();
            push_decimal(&mut s, *v as u64);
            assert(s@ =~= decimal_text(*v as nat));
            Some(s)
        },
        VarValue::Word(v) => Some(hex_and_decimal(*v as u64, 4)),
        VarValue::Int(v) => {
            let mut s = String::new();
            push_signed(&mut s, *v as i32);
            assert(s@ =~= signed_decimal_text(*v as int));
            Some(s)
        },
        VarValue::DWord(v) => Some(hex_and_decimal(*v as u64, 8)),
        VarValue::DInt(v) => {
            let mut s = String::new();
            push_signed(&mut s, *v);
            assert(s@ =~= signed_decimal_text(*v as int));
            Some(s)
        },
        VarValue::Real(_) => None,
        VarValue::StringVal(text) => {
            let mut s = String::new();
            push_str(&mut s, "\"");
            push_str(&mut s, text.as_str());
            push_str(&mut s, "\"");
            assert(s@ =~= "\""@ + text@ + "\""@);
            Some(s)
        },
        VarValue::Unknown => Some(String::from_str("--")),
    }
}

/// `0x`, `digits` hexadecimal digits of `v`, two spaces and the decimal
/// value in brackets.
fn hex_and_decimal(v: u64, digits: usize) -> (r: String)
    ensures
        r@ == "0x"@ + hex_text(v as nat, digits as nat) + "  ("@ + decimal_text(v as nat) + ")"@,
{
    let mut s = String::new();
    push_str(&mut s, "0x");
    push_hex(&mut s, v, digits);
    push_str(&mut s, "  (");
    push_decimal(&mut s, v);
    push_str(&mut s, ")");
    assert(s@ =~= "0x"@ + hex_text(v as nat, digits as nat) + "  ("@ + decimal_text(v as nat)
        + ")"@);
    s
}

/// The text of a connection status.
pub open spec fn status_text(status: ConnectionStatus) -> Seq<char> {
    match status {
        ConnectionStatus::Connected => "\u{25CF} Connected"@,
        ConnectionStatus::Connecting => "\u{27F3} Connecting..."@,
        ConnectionStatus::Error(msg) => "\u{2717} "@ + msg@,
        ConnectionStatus::Disconnected => "\u{25CB} Disconnected"@,
    }
}

/// Return the display string for a `ConnectionStatus`.
pub fn status_display(status: &ConnectionStatus) -> (r: String)
    ensures
        r@ == status_text(*status),
{
    match status {
        ConnectionStatus::Connected => String::from_str("\u{25CF} Connected"),
        ConnectionStatus::Connecting => String::from_str("\u{27F3} Connecting..."),
        ConnectionStatus::Error(msg) => {
            let mut s = String::from_str("\u{2717} ");
            push_str(&mut s, msg.as_str());
            s
        },
        ConnectionStatus::Disconnected => String::from_str("\u{25CB} Disconnected"),
    }
}

/// The text of a type: its kind, with the length in brackets for a String.
pub open spec fn type_text(t: VarType) -> Seq<char> {
    match t {
        VarType::String { length } => "String["@ + decimal_text(length as nat) + "]"@,
        _ => kind_label(t),
    }
}

impl VarType {
    /// The text of the type, such as `Word` or `String[64]`.
    pub fn to_string(&self) -> (r: String)
        ensures
            r@ == type_text(*self),
    {
        match self {
            VarType::String { length } => {
                let mut s = String::from_str("String[");
                push_decimal(&mut s, *length as u64);
                push_str(&mut s, "]");
                s
            },
            _ => String::from_str(type_kind_label(self)),
        }
    }
}

/// The text of the value cell of row `i` of the live monitor: the value when
/// connected and there is one, `--` otherwise. `None` for a `Real`, which the
/// caller renders.
pub open spec fn cell_text(connected: bool, live: Seq<VarValue>, i: int) -> Option<Seq<char>> {
    if connected && 0 <= i < live.len() {
        value_text(live[i]@)
    } else {
        Some("--"@)
    }
}

/// The text of the value cell of row `i` of the live monitor.
pub fn monitor_cell_text(connected: bool, live_values: &[VarValue], i: usize) -> (r: Option<String>)
    ensures
        r is Some <==> cell_text(connected, live_values@, i as int) is Some,
        r matches Some(s) ==> s@ == cell_text(connected, live_values@, i as int).unwrap(),
{
    if connected && i < live_values.len() {
        format_var_value(&live_values[i])
    } else {
        Some(String::from_str("--"))
    }
}

/// Whether some variable is a Bool, whose blinking needs periodic repaints.
pub fn has_bool_var(var_defs: &[VarDef]) -> (r: bool)
    ensures
        r == exists|i: int| 0 <= i < var_defs@.len() && (#[trigger] var_defs@[i]).var_type == VarType::Bool,
{
    let mut i: usize = 0;
    while i < var_defs.len()
        invariant
            i <= var_defs@.len(),
            forall|j: int| 0 <= j < i ==> (#[trigger] var_defs@[j]).var_type != VarType::Bool,
        decreases var_defs@.len() - i,
    {
        if var_defs[i].var_type == VarType::Bool {
            return true;
        }
        i = i + 1;
    }
    false
}

} // verus!
