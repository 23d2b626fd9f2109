use vstd::prelude::*;

verus! {

/// Index of a register within the current activation record.
pub type Register = i8;

/// Small immediate offset (argument slot, member index, object size).
pub type Offset = i8;

/// A jump target: the label id used in the source text, and the instruction
/// address it resolves to (`-1` until the linker has resolved it).
#[derive(PartialEq, Eq, Structural, Clone, Copy, Debug)]
pub struct Label {
    pub index: i8,
    pub address: i32,
}

/// Runtime descriptor of an invocable function.
#[derive(Debug)]
pub struct Callable {
    pub name: String,
    pub registers: i32,
    pub address: i32,
    pub args: i32,
    pub capture_size: i32,
    pub capture: Vec<Callable>,
}

/// One instruction of the flat program. Numeric immediates are held as the
/// IEEE-754 bit pattern of a double.
#[derive(Debug)]
pub enum Instruction {
    Nop,
    Debug(Register),
    LoadConst(Register, u64),
    Copy(Register, Register),
    Not(Register, Register),
    Negate(Register, Register),
    LoadString(Register, String),
    LoadFunction(Register, Callable),
    Argument(Offset, Register),
    Exit(u64),
    InvokeFunction(Register, Register),
    Return(Register),
    JumpIfNot(Register, Label),
    Jump(Label),
    LoadMember(Register, Register, Offset),
    LoadArray(Register, Register, Register),
    StoreMember(Register, Register, Offset),
    StoreArray(Register, Register, Register),
    CreateStruct(Register, Offset),
    CreateEnumEntry(Register, Offset, Offset),
    CreateClosure(Register, Offset),
    LoadEnumType(Register, Register),
    LoadEnumMember(Register, Register, Offset),
    CopyEnumMember(Register, Register, Offset),
    Throw(Register),
    Match(Register, Label, fxhash::FxHashMap<Register, Label>),
    Add(Register, Register, Register),
    Subtract(Register, Register, Register),
    Multiply(Register, Register, Register),
    Divide(Register, Register, Register),
    Or(Register, Register, Register),
    And(Register, Register, Register),
    Greater(Register, Register, Register),
    GreaterEq(Register, Register, Register),
    Smaller(Register, Register, Register),
    SmallerEq(Register, Register, Register),
    Equals(Register, Register, Register),
    NonEquals(Register, Register, Register),
    StringNonEquals(Register, Register, Register),
    StringEquals(Register, Register, Register),
    Concat(Register, Register, Register),
}

} // verus!
