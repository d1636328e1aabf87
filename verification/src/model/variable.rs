use vstd::prelude::*;

verus! {

/// PLC variable data type, including String with a fixed length in bytes.
#[derive(Debug, Clone, Copy, PartialEq, Eq, Structural)]
pub enum VarType {
    Bool,
    Byte,
    Word,
    Int,
    DWord,
    DInt,
    Real,
    String { length: u32 },
}

/// Number of bytes of the DB that a variable of this type occupies.
pub open spec fn type_size(t: VarType) -> nat {
    match t {
        VarType::Bool | VarType::Byte => 1,
        VarType::Word | VarType::Int => 2,
        VarType::DWord | VarType::DInt | VarType::Real => 4,
        VarType::String { length } => length as nat,
    }
}

impl VarType {
    /// Number of bytes of the DB that a variable of this type occupies.
    pub fn size(&self) -> (r: u32)
        ensures
            r == type_size(*self),
    {
        match self {
            VarType::Bool | VarType::Byte => 1,
            VarType::Word | VarType::Int => 2,
            VarType::DWord | VarType::DInt | VarType::Real => 4,
            VarType::String { length } => *length,
        }
    }
}


/// A single variable definition within a DB block.
#[derive(Debug, PartialEq, Eq)]
pub struct VarDef {
    pub name: String,
    pub var_type: VarType,
    pub byte_offset: u32,
    /// Bit within the byte, read only for `Bool` variables.
    pub bit_offset: u8,
}

impl Clone for VarDef {
    fn clone(&self) -> (r: Self)
        ensures
            r == *self,
    {
        VarDef {
            name: self.name.clone(),
            var_type: self.var_type,
            byte_offset: self.byte_offset,
            bit_offset: self.bit_offset,
        }
    }
}

/// A copy of a list of definitions, equal to it.
pub fn clone_var_defs(defs: &Vec<VarDef>) -> (r: Vec<VarDef>)
    ensures
        r@ == defs@,
{
    let r = defs.clone();
    assert forall|i: int| 0 <= i < r@.len() implies r@[i] == defs@[i] by {
        assert(vstd::pervasive::cloned(defs[i], r[i]));
    }
    assert(r@ =~= defs@);
    r
}

impl Default for VarDef {
    fn default() -> (r: Self)
        ensures
            r.name@ == Seq::<char>::empty(),
            r.var_type == VarType::Bool,
            r.byte_offset == 0,
            r.bit_offset == 0,
    {
        VarDef { name: String::new(), var_type: VarType::Bool, byte_offset: 0, bit_offset: 0 }
    }
}

/// A live-read value of a variable. `Real` holds the IEEE 754 bit pattern of
/// the single-precision number, as it was stored in the DB.
#[derive(Debug, PartialEq)]
pub enum VarValue {
    Bool { value: bool, blink_on: bool },
    Byte(u8),
    Word(u16),
    Int(i16),
    DWord(u32),
    DInt(i32),
    Real(u32),
    StringVal(String),
    Unknown,
}

/// The mathematical value of a `VarValue`: the same, with the text of a
/// `StringVal` as a sequence of characters.
pub enum ValueModel {
    Bool { value: bool, blink_on: bool },
    Byte(u8),
    Word(u16),
    Int(i16),
    DWord(u32),
    DInt(i32),
    Real(u32),
    StringVal(Seq<char>),
    Unknown,
}

impl View for VarValue {
    type V = ValueModel;

    open spec fn view(&self) -> ValueModel {
        match self {
            VarValue::Bool { value, blink_on } => ValueModel::Bool { value: *value, blink_on: *blink_on },
            VarValue::Byte(v) => ValueModel::Byte(*v),
            VarValue::Word(v) => ValueModel::Word(*v),
            VarValue::Int(v) => ValueModel::Int(*v),
            VarValue::DWord(v) => ValueModel::DWord(*v),
            VarValue::DInt(v) => ValueModel::DInt(*v),
            VarValue::Real(v) => ValueModel::Real(*v),
            VarValue::StringVal(s) => ValueModel::StringVal(s@),
            VarValue::Unknown => ValueModel::Unknown,
        }
    }
}

impl Clone for VarValue {
    fn clone(&self) -> (r: Self)
        ensures
            r == *self,
    {
        match self {
            VarValue::Bool { value, blink_on } => VarValue::Bool { value: *value, blink_on: *blink_on },
            VarValue::Byte(v) => VarValue::Byte(*v),
            VarValue::Word(v) => VarValue::Word(*v),
            VarValue::Int(v) => VarValue::Int(*v),
            VarValue::DWord(v) => VarValue::DWord(*v),
            VarValue::DInt(v) => VarValue::DInt(*v),
            VarValue::Real(v) => VarValue::Real(*v),
            VarValue::StringVal(s) => VarValue::StringVal(s.clone()),
            VarValue::Unknown => VarValue::Unknown,
        }
    }
}

} // verus!
