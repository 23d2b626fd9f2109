use vstd::prelude::*;

use crate::isa::{Instruction, Label};
use crate::labels::{case_entries, find_case};
use crate::num::{
    bool_bits, eq_bits, from_bool, le_bits, lt_bits, num_eq, num_le, num_lt, truthy, truthy_bits, HALF_BITS, MAGNITUDE,
    index_bits, index_of,
    SIGN_BIT,
};

verus! {

/// Number of value slots in the stack.
pub const STACK_SIZE: usize = 10000;
/// Number of words in the call-frame stack (three per frame).
pub const CALL_STACK_SIZE: usize = 10000;
/// Number of slots in the argument staging buffer.
pub const CALL_BUFFER_SIZE: usize = 255;

/// What a completed step asks its host to do.
#[derive(PartialEq, Eq, Structural, Clone, Copy, Debug)]
pub enum Effect {
    Continue,
    /// `Debug`: show this register and the bits of the number it holds.
    Print(i8, u64),
    /// `Exit`: the program stopped with this code.
    Exit(u64),
}

/// Why a step or the start of a run was refused; the state is then unchanged.
#[derive(PartialEq, Eq, Structural, Clone, Copy, Debug)]
pub enum VmError {
    PcOutOfRange,
    RegisterOutOfRange,
    ArgumentOutOfRange,
    BadJumpTarget,
    BadObject,
    CallStackUnderflow,
    CallStackOverflow,
    StackOverflow,
    OutOfMemory,
    Thrown,
}

/// The floating-point operation that the current instruction needs from its host.
#[derive(PartialEq, Eq, Structural, Clone, Copy, Debug)]
pub enum ArithOp {
    Add,
    Subtract,
    Multiply,
    Divide,
}

#[derive(PartialEq, Eq, Structural, Clone, Copy, Debug)]
pub struct ArithRequest {
    pub op: ArithOp,
    pub lhs: u64,
    pub rhs: u64,
}

/// The abstract state of a machine. Objects live in `heap`; object `k` is
/// the slice `heap[spans[k].0 ..][.. spans[k].1]`, and a register refers to it
/// by holding `k`. A register refers to a function by holding an index into
/// `callables`, whose entries are (address, register count), and to a string
/// by holding an index into `strings`.
pub struct Machine {
    pub stack: Seq<u64>,
    pub call_buffer: Seq<u64>,
    pub call_stack: Seq<usize>,
    pub heap: Seq<u64>,
    pub spans: Seq<(usize, usize)>,
    pub callables: Seq<(usize, usize)>,
    pub strings: Seq<Seq<char>>,
    pub arp: int,
    pub sp: int,
    pub ars: int,
    pub pc: int,
    pub running: bool,
    pub exit_code: u64,
}

/// The sizes are fixed, and the active record and the frame stack stay within them.
pub open spec fn machine_wf(m: Machine) -> bool {
    &&& m.stack.len() == STACK_SIZE
    &&& m.call_stack.len() == CALL_STACK_SIZE
    &&& m.call_buffer.len() == CALL_BUFFER_SIZE
    &&& 0 <= m.arp
    &&& 0 <= m.ars
    &&& m.arp + m.ars <= m.stack.len()
    &&& 0 <= m.sp <= m.call_stack.len()
}

/// The stack slot of register `r`, if it lies within the stack.
pub open spec fn reg(m: Machine, r: i8) -> Option<int> {
    if 0 <= r && m.arp + r < m.stack.len() {
        Some(m.arp + r)
    } else {
        None
    }
}

pub open spec fn advance(m: Machine) -> Machine {
    Machine { pc: m.pc + 1, ..m }
}

/// Stores `v` in register `r` and moves on.
pub open spec fn put(m: Machine, r: i8, v: u64) -> Result<(Machine, Effect), VmError> {
    match reg(m, r) {
        Some(i) => Ok((Machine { stack: m.stack.update(i, v), pc: m.pc + 1, ..m }, Effect::Continue)),
        None => Err(VmError::RegisterOutOfRange),
    }
}

pub open spec fn unary(m: Machine, d: i8, s: i8, f: spec_fn(u64) -> u64) -> Result<(Machine, Effect), VmError> {
    match reg(m, s) {
        Some(i) => put(m, d, f(m.stack[i])),
        None => Err(VmError::RegisterOutOfRange),
    }
}

pub open spec fn binary(m: Machine, d: i8, a: i8, b: i8, f: spec_fn(u64, u64) -> u64) -> Result<(Machine, Effect), VmError> {
    match (reg(m, a), reg(m, b)) {
        (Some(i), Some(j)) => put(m, d, f(m.stack[i], m.stack[j])),
        _ => Err(VmError::RegisterOutOfRange),
    }
}

pub open spec fn jump(m: Machine, l: Label) -> Result<(Machine, Effect), VmError> {
    if l.address >= 0 {
        Ok((Machine { pc: l.address as int, ..m }, Effect::Continue))
    } else {
        Err(VmError::BadJumpTarget)
    }
}

/// Calls the function at `callee.0` with a record of `callee.1` registers:
/// pushes the frame (return address, record pointer, record size), opens the
/// new record just above the current one, and copies the first `argc` staged
/// arguments into its first registers.
pub open spec fn invoke(m: Machine, callee: (usize, usize), argc: i8) -> Result<(Machine, Effect), VmError> {
    let base = m.arp + m.ars;
    if m.sp + 3 > m.call_stack.len() {
        Err(VmError::CallStackOverflow)
    } else if argc < 0 || argc > callee.1 || argc > m.call_buffer.len() {
        Err(VmError::ArgumentOutOfRange)
    } else if base + callee.1 > m.stack.len() {
        Err(VmError::StackOverflow)
    } else if m.pc + 1 > usize::MAX {
        Err(VmError::PcOutOfRange)
    } else {
        Ok((Machine {
            call_stack: m.call_stack.update(m.sp, (m.pc + 1) as usize).update(m.sp + 1, m.arp as usize).update(
                m.sp + 2,
                m.ars as usize,
            ),
            sp: m.sp + 3,
            arp: base,
            ars: callee.1 as int,
            stack: Seq::new(m.stack.len(), |x: int| if base <= x < base + argc { m.call_buffer[x - base] } else { m.stack[x] }),
            pc: callee.0 as int,
            ..m
        }, Effect::Continue))
    }
}

/// The strings that registers `a` and `b` refer to.
pub open spec fn text_pair(m: Machine, a: i8, b: i8) -> Result<(Seq<char>, Seq<char>), VmError> {
    match (reg(m, a), reg(m, b)) {
        (Some(i), Some(j)) => if m.stack[i] < m.strings.len() && m.stack[j] < m.strings.len() {
            Ok((m.strings[m.stack[i] as int], m.strings[m.stack[j] as int]))
        } else {
            Err(VmError::BadObject)
        },
        _ => Err(VmError::RegisterOutOfRange),
    }
}

/// Allocates an object made of `head` followed by the first `n` staged
/// arguments, and stores a reference to it in register `r`.
pub open spec fn create(m: Machine, r: i8, head: Seq<u64>, n: i8) -> Result<(Machine, Effect), VmError> {
    if n < 0 || (n as int) > m.call_buffer.len() || m.heap.len() + head.len() + n > usize::MAX || m.spans.len()
        >= u64::MAX {
        Err(VmError::OutOfMemory)
    } else {
        match reg(m, r) {
            Some(i) => Ok((Machine {
                stack: m.stack.update(i, m.spans.len() as u64),
                heap: m.heap + head + m.call_buffer.subrange(0, n as int),
                spans: m.spans.push((m.heap.len() as usize, (head.len() + n) as usize)),
                pc: m.pc + 1,
                ..m
            }, Effect::Continue)),
            None => Err(VmError::RegisterOutOfRange),
        }
    }
}

/// Loads member `k` of the object that register `o` refers to into register `d`.
pub open spec fn load_member(m: Machine, d: i8, o: i8, k: i8) -> Result<(Machine, Effect), VmError> {
    match reg(m, o) {
        Some(i) => match member(m, m.stack[i], k as int) {
            Some(h) => put(m, d, m.heap[h]),
            None => Err(VmError::BadObject),
        },
        None => Err(VmError::RegisterOutOfRange),
    }
}

/// The heap slot of member `k` of the object that `v` refers to.
pub open spec fn member(m: Machine, v: u64, k: int) -> Option<int> {
    if v < m.spans.len() && 0 <= k < m.spans[v as int].1 && m.spans[v as int].0 + k < m.heap.len() {
        Some(m.spans[v as int].0 + k)
    } else {
        None
    }
}

/// The host's work that an instruction needs, on the values it reads.
pub open spec fn arith_needed(m: Machine, ins: Instruction) -> Option<ArithRequest> {
    let req = |op: ArithOp, a: i8, b: i8| match (reg(m, a), reg(m, b)) {
        (Some(i), Some(j)) => Some(ArithRequest { op, lhs: m.stack[i], rhs: m.stack[j] }),
        _ => None,
    };
    match ins {
        Instruction::Add(_, a, b) => req(ArithOp::Add, a, b),
        Instruction::Subtract(_, a, b) => req(ArithOp::Subtract, a, b),
        Instruction::Multiply(_, a, b) => req(ArithOp::Multiply, a, b),
        Instruction::Divide(_, a, b) => req(ArithOp::Divide, a, b),
        _ => None,
    }
}

/// One step of the machine on instruction `ins`. `arith` is the host's result
/// for the operation that `arith_needed` names (its bits); other instructions
/// ignore it.
pub open spec fn next(m: Machine, ins: Instruction, arith: u64) -> Result<(Machine, Effect), VmError> {
    match ins {
        Instruction::Nop => Ok((advance(m), Effect::Continue)),
        Instruction::Debug(r) => match reg(m, r) {
            Some(i) => Ok((advance(m), Effect::Print(r, m.stack[i]))),
            None => Err(VmError::RegisterOutOfRange),
        },
        Instruction::LoadConst(r, k) => put(m, r, k),
        Instruction::Copy(d, s) => unary(m, d, s, |x: u64| x),
        Instruction::Not(d, s) => unary(m, d, s, |x: u64| from_bool(!truthy(x))),
        Instruction::Negate(d, s) => unary(m, d, s, |x: u64| x ^ SIGN_BIT),
        Instruction::Argument(o, r) => match reg(m, r) {
            Some(i) => if 0 <= o && (o as int) < m.call_buffer.len() {
                Ok((Machine { call_buffer: m.call_buffer.update(o as int, m.stack[i]), pc: m.pc + 1, ..m }, Effect::Continue))
            } else {
                Err(VmError::ArgumentOutOfRange)
            },
            None => Err(VmError::RegisterOutOfRange),
        },
        Instruction::Exit(code) => Ok((Machine { running: false, exit_code: code, ..m }, Effect::Exit(code))),
        Instruction::Return(r) => match reg(m, r) {
            Some(i) => if m.sp < 3 || m.call_buffer.len() == 0 {
                Err(VmError::CallStackUnderflow)
            } else {
                let s = m.sp - 3;
                let arp = m.call_stack[s + 1] as int;
                let ars = m.call_stack[s + 2] as int;
                if arp + ars <= m.stack.len() {
                    Ok((Machine {
                        call_buffer: m.call_buffer.update(0, m.stack[i]),
                        sp: s,
                        pc: m.call_stack[s] as int,
                        arp,
                        ars,
                        ..m
                    }, Effect::Continue))
                } else {
                    Err(VmError::StackOverflow)
                }
            },
            None => Err(VmError::RegisterOutOfRange),
        },
        Instruction::LoadFunction(r, c) => if c.address < 0 || c.registers < 0 || m.callables.len() >= u64::MAX {
            Err(VmError::BadObject)
        } else {
            match reg(m, r) {
                Some(i) => Ok((Machine {
                    stack: m.stack.update(i, m.callables.len() as u64),
                    callables: m.callables.push((c.address as usize, c.registers as usize)),
                    pc: m.pc + 1,
                    ..m
                }, Effect::Continue)),
                None => Err(VmError::RegisterOutOfRange),
            }
        },
        Instruction::InvokeFunction(cr, argc) => match reg(m, cr) {
            Some(i) => if m.stack[i] < m.callables.len() {
                invoke(m, m.callables[m.stack[i] as int], argc)
            } else {
                Err(VmError::BadObject)
            },
            None => Err(VmError::RegisterOutOfRange),
        },
        Instruction::Jump(l) => jump(m, l),
        Instruction::JumpIfNot(r, l) => match reg(m, r) {
            Some(i) => if num_lt(m.stack[i], HALF_BITS) {
                jump(m, l)
            } else {
                Ok((advance(m), Effect::Continue))
            },
            None => Err(VmError::RegisterOutOfRange),
        },
        Instruction::CreateStruct(r, n) => create(m, r, Seq::empty(), n),
        Instruction::CreateClosure(r, n) => create(m, r, Seq::empty(), n),
        Instruction::CreateEnumEntry(r, tag, n) => if tag < 0 || n < 1 {
            Err(VmError::BadObject)
        } else {
            create(m, r, seq![tag as u64], (n - 1) as i8)
        },
        Instruction::LoadEnumType(d, o) => load_member(m, d, o, 0),
        Instruction::LoadEnumMember(d, o, k) => load_member(m, d, o, k),
        Instruction::CopyEnumMember(d, o, k) => load_member(m, d, o, k),
        Instruction::Match(r, default, table) => match reg(m, r) {
            Some(i) => if m.stack[i] < 128 && case_entries(table).contains_key(m.stack[i] as i8) {
                jump(m, case_entries(table)[m.stack[i] as i8])
            } else {
                jump(m, default)
            },
            None => Err(VmError::RegisterOutOfRange),
        },
        Instruction::LoadMember(d, o, k) => load_member(m, d, o, k),
        Instruction::LoadArray(d, o, x) => match (reg(m, o), reg(m, x)) {
            (Some(i), Some(j)) => match index_of(m.stack[j]) {
                Some(k) => match member(m, m.stack[i], k as int) {
                    Some(h) => put(m, d, m.heap[h]),
                    None => Err(VmError::BadObject),
                },
                None => Err(VmError::BadObject),
            },
            _ => Err(VmError::RegisterOutOfRange),
        },
        Instruction::StoreArray(o, src, x) => match (reg(m, o), reg(m, src), reg(m, x)) {
            (Some(i), Some(j), Some(l)) => match index_of(m.stack[l]) {
                Some(k) => match member(m, m.stack[i], k as int) {
                    Some(h) => Ok((Machine { heap: m.heap.update(h, m.stack[j]), pc: m.pc + 1, ..m }, Effect::Continue)),
                    None => Err(VmError::BadObject),
                },
                None => Err(VmError::BadObject),
            },
            _ => Err(VmError::RegisterOutOfRange),
        },
        Instruction::StoreMember(o, s, k) => match (reg(m, o), reg(m, s)) {
            (Some(i), Some(j)) => match member(m, m.stack[i], k as int) {
                Some(h) => Ok((Machine { heap: m.heap.update(h, m.stack[j]), pc: m.pc + 1, ..m }, Effect::Continue)),
                None => Err(VmError::BadObject),
            },
            _ => Err(VmError::RegisterOutOfRange),
        },
        Instruction::LoadString(r, text) => if m.strings.len() >= u64::MAX {
            Err(VmError::OutOfMemory)
        } else {
            match reg(m, r) {
                Some(i) => Ok((Machine {
                    stack: m.stack.update(i, m.strings.len() as u64),
                    strings: m.strings.push(text@),
                    pc: m.pc + 1,
                    ..m
                }, Effect::Continue)),
                None => Err(VmError::RegisterOutOfRange),
            }
        },
        Instruction::StringEquals(d, a, b) => match text_pair(m, a, b) {
            Ok((x, y)) => put(m, d, from_bool(x == y)),
            Err(e) => Err(e),
        },
        Instruction::StringNonEquals(d, a, b) => match text_pair(m, a, b) {
            Ok((x, y)) => put(m, d, from_bool(x != y)),
            Err(e) => Err(e),
        },
        Instruction::Concat(d, a, b) => match text_pair(m, a, b) {
            Ok((x, y)) => if m.strings.len() >= u64::MAX {
                Err(VmError::OutOfMemory)
            } else {
                match put(m, d, m.strings.len() as u64) {
                    Ok((n, e)) => Ok((Machine { strings: m.strings.push(x + y), ..n }, e)),
                    Err(e) => Err(e),
                }
            },
            Err(e) => Err(e),
        },
        Instruction::Throw(r) => match reg(m, r) {
            Some(_) => Err(VmError::Thrown),
            None => Err(VmError::RegisterOutOfRange),
        },
        Instruction::Add(d, a, b) => binary(m, d, a, b, |x: u64, y: u64| arith),
        Instruction::Subtract(d, a, b) => binary(m, d, a, b, |x: u64, y: u64| arith),
        Instruction::Multiply(d, a, b) => binary(m, d, a, b, |x: u64, y: u64| arith),
        Instruction::Divide(d, a, b) => binary(m, d, a, b, |x: u64, y: u64| arith),
        Instruction::Or(d, a, b) => binary(m, d, a, b, |x: u64, y: u64| from_bool(truthy(x) || truthy(y))),
        Instruction::And(d, a, b) => binary(m, d, a, b, |x: u64, y: u64| from_bool(truthy(x) && truthy(y))),
        Instruction::Greater(d, a, b) => binary(m, d, a, b, |x: u64, y: u64| from_bool(num_lt(y, x))),
        Instruction::GreaterEq(d, a, b) => binary(m, d, a, b, |x: u64, y: u64| from_bool(num_le(y, x))),
        Instruction::Smaller(d, a, b) => binary(m, d, a, b, |x: u64, y: u64| from_bool(num_lt(x, y))),
        Instruction::SmallerEq(d, a, b) => binary(m, d, a, b, |x: u64, y: u64| from_bool(num_le(x, y))),
        Instruction::Equals(d, a, b) => binary(m, d, a, b, |x: u64, y: u64| from_bool(num_eq(x, y))),
        Instruction::NonEquals(d, a, b) => binary(m, d, a, b, |x: u64, y: u64| from_bool(!num_eq(x, y))),
    }
}

/// Instructions whose step `dispatch` decides itself.
pub open spec fn is_control(ins: Instruction) -> bool {
    ins is Nop || ins is Debug || ins is LoadConst || ins is Argument || ins is Exit || ins is Return
        || ins is Jump || ins is JumpIfNot || ins is LoadFunction || ins is InvokeFunction || ins is Match
}

/// Instructions that read or write objects, or move one register to another.
pub open spec fn is_memory(ins: Instruction) -> bool {
    ins is CreateStruct || ins is LoadMember || ins is StoreMember || ins is Copy || ins is Not || ins is Negate
        || ins is CreateClosure || ins is CreateEnumEntry || ins is LoadEnumType || ins is LoadEnumMember
        || ins is CopyEnumMember || ins is LoadArray || ins is StoreArray
}

/// Instructions on numbers that write one register from two.
pub open spec fn is_arith(ins: Instruction) -> bool {
    ins is Add || ins is Subtract || ins is Multiply || ins is Divide || ins is Or || ins is And || ins is Greater
        || ins is GreaterEq || ins is Smaller || ins is SmallerEq || ins is Equals || ins is NonEquals
}

/// Whether `res` and the state after a step agree with `expected`: on success
/// the new state and effect, on failure the error and the state unchanged.
pub open spec fn follows(
    res: Result<Effect, VmError>,
    before: Machine,
    after: Machine,
    expected: Result<(Machine, Effect), VmError>,
) -> bool {
    match expected {
        Ok((m, e)) => res == Ok::<Effect, VmError>(e) && after == m,
        Err(err) => res == Err::<Effect, VmError>(err) && after == before,
    }
}


/// `JumpIfNot` falls through when its register holds exactly `0.5`: the
/// jump is taken only for values strictly below `0.5`.
pub proof fn lemma_half_falls_through(m: Machine, r: i8, l: Label, arith: u64)
    requires
        reg(m, r) is Some,
        m.stack[reg(m, r)->0] == HALF_BITS,
    ensures
        next(m, Instruction::JumpIfNot(r, l), arith) == Ok::<(Machine, Effect), VmError>((advance(m), Effect::Continue)),
{
    assert(HALF_BITS & MAGNITUDE == HALF_BITS) by (bit_vector);
}

/// `Add(r, a, b)` and `Add(r, b, a)` ask the host for the same addition with
/// the operands swapped, and both store in `r` whatever the host returns: the
/// two agree whenever the host's addition is commutative on those values.
pub proof fn lemma_add_operands_swap(m: Machine, r: i8, a: i8, b: i8, arith: u64)
    ensures
        arith_needed(m, Instruction::Add(r, a, b)) is None <==> arith_needed(m, Instruction::Add(r, b, a)) is None,
        arith_needed(m, Instruction::Add(r, a, b)) matches Some(q) ==> arith_needed(m, Instruction::Add(r, b, a))
            == Some(ArithRequest { op: ArithOp::Add, lhs: q.rhs, rhs: q.lhs }),
        next(m, Instruction::Add(r, a, b), arith) == next(m, Instruction::Add(r, b, a), arith),
{
}

/// The frame that `start` pushes and the record it opens.
pub open spec fn start_state(m: Machine, address: int, arg_size: int) -> Result<Machine, VmError> {
    if m.sp + 3 > m.call_stack.len() {
        Err(VmError::CallStackOverflow)
    } else if m.arp + m.ars + arg_size > m.stack.len() {
        Err(VmError::StackOverflow)
    } else if m.pc + 1 > usize::MAX {
        Err(VmError::PcOutOfRange)
    } else {
        Ok(Machine {
            call_stack: m.call_stack.update(m.sp, (m.pc + 1) as usize).update(m.sp + 1, m.ars as usize).update(
                m.sp + 2,
                0,
            ),
            sp: m.sp + 3,
            arp: m.arp + m.ars,
            ars: arg_size,
            pc: address,
            running: true,
            ..m
        })
    }
}

/// A register machine over a flat instruction stream.
pub struct VM {
    pub instructions: Vec<Instruction>,
    pub stack: Vec<u64>,
    pub call_buffer: Vec<u64>,
    pub call_stack: Vec<usize>,
    pub heap: Vec<u64>,
    pub spans: Vec<(usize, usize)>,
    pub callables: Vec<(usize, usize)>,
    pub strings: Vec<String>,
    pub activation_record_pointer: usize,
    pub stack_pointer: usize,
    pub active_record_size: usize,
    pub pc: usize,
    pub running: bool,
    pub dbg_iter: u64,
    pub exit_code: u64,
}

impl View for VM {
    type V = Machine;

    open spec fn view(&self) -> Machine {
        Machine {
            stack: self.stack@,
            call_buffer: self.call_buffer@,
            call_stack: self.call_stack@,
            heap: self.heap@,
            spans: self.spans@,
            callables: self.callables@,
            strings: self.strings@.map_values(|t: String| t@),
            arp: self.activation_record_pointer as int,
            sp: self.stack_pointer as int,
            ars: self.active_record_size as int,
            pc: self.pc as int,
            running: self.running,
            exit_code: self.exit_code,
        }
    }
}

fn zero_values(n: usize) -> (v: Vec<u64>)
    ensures
        v@ == Seq::new(n as nat, |i: int| 0u64),
{
    let mut v: Vec<u64> = Vec::new();
    let mut k: usize = 0;
    while k < n
        invariant
            k <= n,
            v@ == Seq::new(k as nat, |i: int| 0u64),
        decreases n - k,
    {
        v.push(0);
        k = k + 1;
        assert(v@ =~= Seq::new(k as nat, |i: int| 0u64));
    }
    v
}

fn zero_words(n: usize) -> (v: Vec<usize>)
    ensures
        v@ == Seq::new(n as nat, |i: int| 0usize),
{
    let mut v: Vec<usize> = Vec::new();
    let mut k: usize = 0;
    while k < n
        invariant
            k <= n,
            v@ == Seq::new(k as nat, |i: int| 0usize),
        decreases n - k,
    {
        v.push(0);
        k = k + 1;
        assert(v@ =~= Seq::new(k as nat, |i: int| 0usize));
    }
    v
}

impl VM {
    pub open spec fn wf(&self) -> bool {
        machine_wf(self@)
    }

    /// A machine over `instructions` with zeroed stacks, no frame and no objects.
    pub fn new(instructions: Vec<Instruction>) -> (r: VM)
        ensures
            r.wf(),
            r.instructions@ == instructions@,
            r.stack@ == Seq::new(STACK_SIZE as nat, |i: int| 0u64),
            r.call_buffer@ == Seq::new(CALL_BUFFER_SIZE as nat, |i: int| 0u64),
            r.call_stack@ == Seq::new(CALL_STACK_SIZE as nat, |i: int| 0usize),
            r.heap@.len() == 0,
            r.spans@.len() == 0,
            r.callables@.len() == 0,
            r.strings@.len() == 0,
            r.activation_record_pointer == 0,
            r.stack_pointer == 0,
            r.active_record_size == 0,
            r.pc == 0,
            r.running,
            r.dbg_iter == 0,
            r.exit_code == 0,
    {
        VM {
            instructions,
            stack: zero_values(STACK_SIZE),
            call_buffer: zero_values(CALL_BUFFER_SIZE),
            call_stack: zero_words(CALL_STACK_SIZE),
            heap: Vec::new(),
            spans: Vec::new(),
            callables: Vec::new(),
            strings: Vec::new(),
            activation_record_pointer: 0,
            stack_pointer: 0,
            active_record_size: 0,
            pc: 0,
            running: true,
            dbg_iter: 0,
            exit_code: 0,
        }
    }

    /// Pushes the initial frame and enters the function at `address` with a
    /// record of `arg_size` registers.
    pub fn start(&mut self, address: usize, arg_size: usize) -> (r: Result<(), VmError>)
        requires
            old(self).wf(),
        ensures
            final(self).wf(),
            final(self).instructions@ == old(self).instructions@,
            final(self).dbg_iter == old(self).dbg_iter,
            match start_state(old(self)@, address as int, arg_size as int) {
                Ok(m) => r is Ok && final(self)@ == m,
                Err(e) => r == Err::<(), VmError>(e) && final(self)@ == old(self)@,
            },
    {
        if self.stack_pointer > CALL_STACK_SIZE - 3 {
            return Err(VmError::CallStackOverflow);
        }
        let top = self.activation_record_pointer + self.active_record_size;
        if arg_size > STACK_SIZE - top {
            return Err(VmError::StackOverflow);
        }
        if self.pc == usize::MAX {
            return Err(VmError::PcOutOfRange);
        }
        let sp = self.stack_pointer;
        self.call_stack[sp] = self.pc + 1;
        self.call_stack[sp + 1] = self.active_record_size;
        self.call_stack[sp + 2] = 0;
        self.stack_pointer = sp + 3;
        self.activation_record_pointer = top;
        self.active_record_size = arg_size;
        self.pc = address;
        self.running = true;
        Ok(())
    }

    /// The stack slot of register `r`.
    fn slot(&self, r: i8) -> (s: Option<usize>)
        ensures
            match s {
                Some(i) => reg(self@, r) == Some(i as int),
                None => reg(self@, r) is None,
            },
    {
        if r < 0 || self.activation_record_pointer >= self.stack.len() {
            None
        } else if (r as usize) < self.stack.len() - self.activation_record_pointer {
            Some(self.activation_record_pointer + r as usize)
        } else {
            None
        }
    }

    /// The values of registers `a` and `b`.
    fn pair(&self, a: i8, b: i8) -> (r: Option<(u64, u64)>)
        ensures
            match (reg(self@, a), reg(self@, b)) {
                (Some(i), Some(j)) => r == Some((self@.stack[i], self@.stack[j])),
                _ => r is None,
            },
    {
        match (self.slot(a), self.slot(b)) {
            (Some(i), Some(j)) => Some((self.stack[i], self.stack[j])),
            _ => None,
        }
    }

    /// The heap slot of member `k` of the object that `v` refers to.
    fn member_slot(&self, v: u64, k: u64) -> (r: Option<usize>)
        ensures
            match member(self@, v, k as int) {
                Some(h) => r matches Some(x) && x as int == h,
                None => r is None,
            },
    {
        if v >= self.spans.len() as u64 || k >= usize::MAX as u64 {
            return None;
        }
        let (start, len) = self.spans[v as usize];
        if (k as usize) < len && start < self.heap.len() && (k as usize) < self.heap.len() - start {
            Some(start + k as usize)
        } else {
            None
        }
    }

    fn store(&mut self, r: i8, v: u64) -> (res: Result<Effect, VmError>)
        requires
            old(self).pc < usize::MAX,
        ensures
            old(self).wf() ==> final(self).wf(),
            follows(res, old(self)@, final(self)@, put(old(self)@, r, v)),
            final(self).instructions == old(self).instructions,
            final(self).dbg_iter == old(self).dbg_iter,
    {
        match self.slot(r) {
            Some(i) => {
                self.stack[i] = v;
                self.pc = self.pc + 1;
                Ok(Effect::Continue)
            },
            None => Err(VmError::RegisterOutOfRange),
        }
    }

    fn call(&mut self, callee: (usize, usize), argc: i8) -> (res: Result<Effect, VmError>)
        requires
            old(self).wf(),
        ensures
            follows(res, old(self)@, final(self)@, invoke(old(self)@, callee, argc)),
            final(self).wf(),
            final(self).instructions == old(self).instructions,
            final(self).dbg_iter == old(self).dbg_iter,
    {
        let (address, registers) = callee;
        if self.stack_pointer > CALL_STACK_SIZE - 3 {
            return Err(VmError::CallStackOverflow);
        }
        if argc < 0 || argc as usize > registers || argc as usize > self.call_buffer.len() {
            return Err(VmError::ArgumentOutOfRange);
        }
        let base = self.activation_record_pointer + self.active_record_size;
        if registers > STACK_SIZE - base {
            return Err(VmError::StackOverflow);
        }
        if self.pc == usize::MAX {
            return Err(VmError::PcOutOfRange);
        }
        let ghost m = self@;
        let sp = self.stack_pointer;
        self.call_stack[sp] = self.pc + 1;
        self.call_stack[sp + 1] = self.activation_record_pointer;
        self.call_stack[sp + 2] = self.active_record_size;
        let ghost cs = self.call_stack@;
        let mut k: usize = 0;
        while k < argc as usize
            invariant
                self.call_stack@ == cs,
                self.stack_pointer == sp,
                self.activation_record_pointer == m.arp,
                self.active_record_size == m.ars,
                self.pc == m.pc,
                self.heap@ == m.heap,
                self.spans@ == m.spans,
                self.callables@ == m.callables,
                self.strings@.map_values(|t: String| t@) == m.strings,
                self.running == m.running,
                self.exit_code == m.exit_code,
                self.instructions == old(self).instructions,
                self.dbg_iter == old(self).dbg_iter,
                0 <= argc,
                k <= argc as usize,
                argc as usize <= registers,
                argc as usize <= self.call_buffer.len(),
                base + registers <= self.stack.len(),
                self.call_buffer@ == m.call_buffer,
                self.stack@.len() == m.stack.len(),
                forall|x: int| 0 <= x < self.stack@.len() ==> #[trigger] self.stack@[x] == if base <= x < base + k {
                    m.call_buffer[x - base]
                } else {
                    m.stack[x]
                },
            decreases argc as usize - k,
        {
            let v = self.call_buffer[k];
            self.stack[base + k] = v;
            k = k + 1;
        }
        assert(self.stack@ =~= Seq::new(m.stack.len(), |x: int| if base <= x < base + argc {
            m.call_buffer[x - base]
        } else {
            m.stack[x]
        }));
        self.stack_pointer = sp + 3;
        self.activation_record_pointer = base;
        self.active_record_size = registers;
        self.pc = address;
        Ok(Effect::Continue)
    }

    /// Allocates an object: the tag word `tag` first when `tagged`, then the
    /// first `n` staged arguments.
    fn create_object(&mut self, r: i8, tag: u64, tagged: bool, n: i8) -> (res: Result<Effect, VmError>)
        requires
            old(self).wf(),
            old(self).pc < usize::MAX,
        ensures
            follows(res, old(self)@, final(self)@, create(old(self)@, r, if tagged { seq![tag] } else { Seq::empty() }, n)),
            final(self).wf(),
            final(self).instructions == old(self).instructions,
            final(self).dbg_iter == old(self).dbg_iter,
    {
        let ghost head: Seq<u64> = if tagged { seq![tag] } else { Seq::empty() };
        let extra: usize = if tagged { 1 } else { 0 };
        if n < 0 || (n as usize) > self.call_buffer.len() || self.heap.len() > usize::MAX - n as usize - extra
            || self.spans.len() as u64 == u64::MAX {
            return Err(VmError::OutOfMemory);
        }
        match self.slot(r) {
            Some(i) => {
                let start = self.heap.len();
                let mut fields: Vec<u64> = Vec::new();
                if tagged {
                    fields.push(tag);
                }
                assert(fields@ =~= head);
                let mut k: usize = 0;
                while k < n as usize
                    invariant
                        0 <= n,
                        k <= n as usize,
                        (n as usize) <= self.call_buffer.len(),
                        fields@ == head + self.call_buffer@.subrange(0, k as int),
                    decreases n as usize - k,
                {
                    fields.push(self.call_buffer[k]);
                    k = k + 1;
                    assert(fields@ =~= head + self.call_buffer@.subrange(0, k as int));
                }
                self.heap.append(&mut fields);
                assert(self.heap@ =~= old(self).heap@ + head + self.call_buffer@.subrange(0, n as int));
                let index = self.spans.len() as u64;
                self.spans.push((start, n as usize + extra));
                self.stack[i] = index;
                self.pc = self.pc + 1;
                Ok(Effect::Continue)
            },
            None => Err(VmError::RegisterOutOfRange),
        }
    }

    fn load(&mut self, d: i8, o: i8, k: i8) -> (res: Result<Effect, VmError>)
        requires
            old(self).wf(),
            old(self).pc < usize::MAX,
        ensures
            follows(res, old(self)@, final(self)@, load_member(old(self)@, d, o, k)),
            final(self).wf(),
            final(self).instructions == old(self).instructions,
            final(self).dbg_iter == old(self).dbg_iter,
    {
        match self.slot(o) {
            Some(i) => {
                if k < 0 {
                    return Err(VmError::BadObject);
                }
                match self.member_slot(self.stack[i], k as u64) {
                    Some(h) => {
                        let x = self.heap[h];
                        self.store(d, x)
                    },
                    None => Err(VmError::BadObject),
                }
            },
            None => Err(VmError::RegisterOutOfRange),
        }
    }

    fn jump_to(&mut self, l: Label) -> (res: Result<Effect, VmError>)
        ensures
            old(self).wf() ==> final(self).wf(),
            follows(res, old(self)@, final(self)@, jump(old(self)@, l)),
            final(self).instructions == old(self).instructions,
            final(self).dbg_iter == old(self).dbg_iter,
    {
        if l.address >= 0 {
            self.pc = l.address as usize;
            Ok(Effect::Continue)
        } else {
            Err(VmError::BadJumpTarget)
        }
    }

    fn dispatch(&mut self, arith: u64) -> (res: Result<Effect, VmError>)
        requires
            old(self).wf(),
            old(self).pc < old(self).instructions.len(),
        ensures
            follows(res, old(self)@, final(self)@, next(old(self)@, old(self).instructions@[old(self).pc as int], arith)),
            final(self).wf(),
            final(self).instructions == old(self).instructions,
            final(self).dbg_iter == old(self).dbg_iter,
    {
        let pc = self.pc;
        match &self.instructions[pc] {
            Instruction::Nop => {
                self.pc = pc + 1;
                Ok(Effect::Continue)
            },
            Instruction::Debug(r) => {
                let r = *r;
                match self.slot(r) {
                    Some(i) => {
                        self.pc = pc + 1;
                        Ok(Effect::Print(r, self.stack[i]))
                    },
                    None => Err(VmError::RegisterOutOfRange),
                }
            },
            Instruction::LoadConst(r, k) => {
                let (r, k) = (*r, *k);
                self.store(r, k)
            },
            Instruction::Argument(o, r) => {
                let (o, r) = (*o, *r);
                match self.slot(r) {
                    Some(i) => if o >= 0 && (o as usize) < self.call_buffer.len() {
                        let x = self.stack[i];
                        self.call_buffer[o as usize] = x;
                        self.pc = pc + 1;
                        Ok(Effect::Continue)
                    } else {
                        Err(VmError::ArgumentOutOfRange)
                    },
                    None => Err(VmError::RegisterOutOfRange),
                }
            },
            Instruction::Exit(code) => {
                let code = *code;
                self.running = false;
                self.exit_code = code;
                Ok(Effect::Exit(code))
            },
            Instruction::Return(r) => {
                let r = *r;
                match self.slot(r) {
                    Some(i) => {
                        if self.stack_pointer < 3 || self.call_buffer.len() == 0 {
                            return Err(VmError::CallStackUnderflow);
                        }
                        let s = self.stack_pointer - 3;
                        let back = self.call_stack[s];
                        let arp = self.call_stack[s + 1];
                        let ars = self.call_stack[s + 2];
                        if arp <= self.stack.len() && ars <= self.stack.len() - arp {
                            let x = self.stack[i];
                            self.call_buffer[0] = x;
                            self.stack_pointer = s;
                            self.pc = back;
                            self.activation_record_pointer = arp;
                            self.active_record_size = ars;
                            Ok(Effect::Continue)
                        } else {
                            Err(VmError::StackOverflow)
                        }
                    },
                    None => Err(VmError::RegisterOutOfRange),
                }
            },
            Instruction::Jump(l) => {
                let l = *l;
                self.jump_to(l)
            },
            Instruction::LoadFunction(r, c) => {
                let (r, address, registers) = (*r, c.address, c.registers);
                if address < 0 || registers < 0 || self.callables.len() as u64 == u64::MAX {
                    return Err(VmError::BadObject);
                }
                match self.slot(r) {
                    Some(i) => {
                        let index = self.callables.len() as u64;
                        self.callables.push((address as usize, registers as usize));
                        self.stack[i] = index;
                        self.pc = pc + 1;
                        Ok(Effect::Continue)
                    },
                    None => Err(VmError::RegisterOutOfRange),
                }
            },
            Instruction::Match(r, default, table) => {
                let (r, default) = (*r, *default);
                match self.slot(r) {
                    Some(i) => {
                        let w = self.stack[i];
                        let case = if w < 128 {
                            find_case(table, w as i8)
                        } else {
                            None
                        };
                        match case {
                            Some(l) => self.jump_to(l),
                            None => self.jump_to(default),
                        }
                    },
                    None => Err(VmError::RegisterOutOfRange),
                }
            },
            Instruction::InvokeFunction(cr, argc) => {
                let (cr, argc) = (*cr, *argc);
                match self.slot(cr) {
                    Some(i) => if self.stack[i] < self.callables.len() as u64 {
                        let callee = self.callables[self.stack[i] as usize];
                        self.call(callee, argc)
                    } else {
                        Err(VmError::BadObject)
                    },
                    None => Err(VmError::RegisterOutOfRange),
                }
            },
            Instruction::JumpIfNot(r, l) => {
                let (r, l) = (*r, *l);
                match self.slot(r) {
                    Some(i) => if lt_bits(self.stack[i], HALF_BITS) {
                        self.jump_to(l)
                    } else {
                        self.pc = pc + 1;
                        Ok(Effect::Continue)
                    },
                    None => Err(VmError::RegisterOutOfRange),
                }
            },
            _ => self.dispatch_memory(arith),
        }
    }

    fn dispatch_memory(&mut self, arith: u64) -> (res: Result<Effect, VmError>)
        requires
            !is_control(old(self).instructions@[old(self).pc as int]),
            old(self).wf(),
            old(self).pc < old(self).instructions.len(),
        ensures
            follows(res, old(self)@, final(self)@, next(old(self)@, old(self).instructions@[old(self).pc as int], arith)),
            final(self).wf(),
            final(self).instructions == old(self).instructions,
            final(self).dbg_iter == old(self).dbg_iter,
    {
        let pc = self.pc;
        match &self.instructions[pc] {
            Instruction::CreateStruct(r, n) => {
                let (r, n) = (*r, *n);
                self.create_object(r, 0, false, n)
            },
            Instruction::CreateClosure(r, n) => {
                let (r, n) = (*r, *n);
                self.create_object(r, 0, false, n)
            },
            Instruction::CreateEnumEntry(r, tag, n) => {
                let (r, tag, n) = (*r, *tag, *n);
                if tag < 0 || n < 1 {
                    return Err(VmError::BadObject);
                }
                self.create_object(r, tag as u64, true, n - 1)
            },
            Instruction::LoadMember(d, o, k) => {
                let (d, o, k) = (*d, *o, *k);
                self.load(d, o, k)
            },
            Instruction::LoadArray(d, o, x) => {
                let (d, o, x) = (*d, *o, *x);
                match (self.slot(o), self.slot(x)) {
                    (Some(i), Some(j)) => match index_bits(self.stack[j]) {
                        Some(k) => match self.member_slot(self.stack[i], k) {
                            Some(h) => {
                                let v = self.heap[h];
                                self.store(d, v)
                            },
                            None => Err(VmError::BadObject),
                        },
                        None => Err(VmError::BadObject),
                    },
                    _ => Err(VmError::RegisterOutOfRange),
                }
            },
            Instruction::StoreArray(o, src, x) => {
                let (o, src, x) = (*o, *src, *x);
                match (self.slot(o), self.slot(src), self.slot(x)) {
                    (Some(i), Some(j), Some(l)) => match index_bits(self.stack[l]) {
                        Some(k) => match self.member_slot(self.stack[i], k) {
                            Some(h) => {
                                let v = self.stack[j];
                                self.heap[h] = v;
                                self.pc = pc + 1;
                                Ok(Effect::Continue)
                            },
                            None => Err(VmError::BadObject),
                        },
                        None => Err(VmError::BadObject),
                    },
                    _ => Err(VmError::RegisterOutOfRange),
                }
            },
            Instruction::LoadEnumType(d, o) => {
                let (d, o) = (*d, *o);
                self.load(d, o, 0)
            },
            Instruction::LoadEnumMember(d, o, k) => {
                let (d, o, k) = (*d, *o, *k);
                self.load(d, o, k)
            },
            Instruction::CopyEnumMember(d, o, k) => {
                let (d, o, k) = (*d, *o, *k);
                self.load(d, o, k)
            },
            Instruction::StoreMember(o, src, k) => {
                let (o, src, k) = (*o, *src, *k);
                match (self.slot(o), self.slot(src)) {
                    (Some(i), Some(j)) => match if k < 0 {
                        None
                    } else {
                        self.member_slot(self.stack[i], k as u64)
                    } {
                        Some(h) => {
                            let x = self.stack[j];
                            self.heap[h] = x;
                            self.pc = pc + 1;
                            Ok(Effect::Continue)
                        },
                        None => Err(VmError::BadObject),
                    },
                    _ => Err(VmError::RegisterOutOfRange),
                }
            },
            Instruction::Copy(d, src) => {
                let (d, src) = (*d, *src);
                match self.slot(src) {
                    Some(i) => {
                        let x = self.stack[i];
                        self.store(d, x)
                    },
                    None => Err(VmError::RegisterOutOfRange),
                }
            },
            Instruction::Not(d, src) => {
                let (d, src) = (*d, *src);
                match self.slot(src) {
                    Some(i) => {
                        let x = self.stack[i];
                        self.store(d, bool_bits(!truthy_bits(x)))
                    },
                    None => Err(VmError::RegisterOutOfRange),
                }
            },
            Instruction::Negate(d, src) => {
                let (d, src) = (*d, *src);
                match self.slot(src) {
                    Some(i) => {
                        let x = self.stack[i];
                        self.store(d, x ^ SIGN_BIT)
                    },
                    None => Err(VmError::RegisterOutOfRange),
                }
            },
            _ => self.dispatch_arith(arith),
        }
    }

    fn dispatch_arith(&mut self, arith: u64) -> (res: Result<Effect, VmError>)
        requires
            !is_control(old(self).instructions@[old(self).pc as int]),
            !is_memory(old(self).instructions@[old(self).pc as int]),
            old(self).wf(),
            old(self).pc < old(self).instructions.len(),
        ensures
            follows(res, old(self)@, final(self)@, next(old(self)@, old(self).instructions@[old(self).pc as int], arith)),
            final(self).wf(),
            final(self).instructions == old(self).instructions,
            final(self).dbg_iter == old(self).dbg_iter,
    {
        let pc = self.pc;
        match &self.instructions[pc] {
            Instruction::Add(d, a, b) => {
                let (d, a, b) = (*d, *a, *b);
                match self.pair(a, b) {
                    Some(_) => self.store(d, arith),
                    None => Err(VmError::RegisterOutOfRange),
                }
            },
            Instruction::Subtract(d, a, b) => {
                let (d, a, b) = (*d, *a, *b);
                match self.pair(a, b) {
                    Some(_) => self.store(d, arith),
                    None => Err(VmError::RegisterOutOfRange),
                }
            },
            Instruction::Multiply(d, a, b) => {
                let (d, a, b) = (*d, *a, *b);
                match self.pair(a, b) {
                    Some(_) => self.store(d, arith),
                    None => Err(VmError::RegisterOutOfRange),
                }
            },
            Instruction::Divide(d, a, b) => {
                let (d, a, b) = (*d, *a, *b);
                match self.pair(a, b) {
                    Some(_) => self.store(d, arith),
                    None => Err(VmError::RegisterOutOfRange),
                }
            },
            Instruction::Or(d, a, b) => {
                let (d, a, b) = (*d, *a, *b);
                match self.pair(a, b) {
                    Some((x, y)) => self.store(d, bool_bits(truthy_bits(x) || truthy_bits(y))),
                    None => Err(VmError::RegisterOutOfRange),
                }
            },
            Instruction::And(d, a, b) => {
                let (d, a, b) = (*d, *a, *b);
                match self.pair(a, b) {
                    Some((x, y)) => self.store(d, bool_bits(truthy_bits(x) && truthy_bits(y))),
                    None => Err(VmError::RegisterOutOfRange),
                }
            },
            Instruction::Greater(d, a, b) => {
                let (d, a, b) = (*d, *a, *b);
                match self.pair(a, b) {
                    Some((x, y)) => self.store(d, bool_bits(lt_bits(y, x))),
                    None => Err(VmError::RegisterOutOfRange),
                }
            },
            Instruction::GreaterEq(d, a, b) => {
                let (d, a, b) = (*d, *a, *b);
                match self.pair(a, b) {
                    Some((x, y)) => self.store(d, bool_bits(le_bits(y, x))),
                    None => Err(VmError::RegisterOutOfRange),
                }
            },
            Instruction::Smaller(d, a, b) => {
                let (d, a, b) = (*d, *a, *b);
                match self.pair(a, b) {
                    Some((x, y)) => {
                        self.store(d, bool_bits(lt_bits(x, y)))
                    },
                    None => Err(VmError::RegisterOutOfRange),
                }
            },
            Instruction::SmallerEq(d, a, b) => {
                let (d, a, b) = (*d, *a, *b);
                match self.pair(a, b) {
                    Some((x, y)) => self.store(d, bool_bits(le_bits(x, y))),
                    None => Err(VmError::RegisterOutOfRange),
                }
            },
            Instruction::Equals(d, a, b) => {
                let (d, a, b) = (*d, *a, *b);
                match self.pair(a, b) {
                    Some((x, y)) => self.store(d, bool_bits(eq_bits(x, y))),
                    None => Err(VmError::RegisterOutOfRange),
                }
            },
            Instruction::NonEquals(d, a, b) => {
                let (d, a, b) = (*d, *a, *b);
                match self.pair(a, b) {
                    Some((x, y)) => self.store(d, bool_bits(!eq_bits(x, y))),
                    None => Err(VmError::RegisterOutOfRange),
                }
            },
            _ => self.dispatch_text(arith),
        }
    }

    /// The strings that registers `a` and `b` refer to, by index.
    fn texts(&self, a: i8, b: i8) -> (r: Result<(usize, usize), VmError>)
        ensures
            match text_pair(self@, a, b) {
                Ok((x, y)) => r matches Ok((i, j)) && i < self.strings@.len() && j < self.strings@.len()
                    && self.strings@[i as int]@ == x && self.strings@[j as int]@ == y,
                Err(e) => r == Err::<(usize, usize), VmError>(e),
            },
    {
        match (self.slot(a), self.slot(b)) {
            (Some(i), Some(j)) => {
                let (x, y) = (self.stack[i], self.stack[j]);
                if x < self.strings.len() as u64 && y < self.strings.len() as u64 {
                    Ok((x as usize, y as usize))
                } else {
                    Err(VmError::BadObject)
                }
            },
            _ => Err(VmError::RegisterOutOfRange),
        }
    }

    fn dispatch_text(&mut self, arith: u64) -> (res: Result<Effect, VmError>)
        requires
            !is_control(old(self).instructions@[old(self).pc as int]),
            !is_memory(old(self).instructions@[old(self).pc as int]),
            !is_arith(old(self).instructions@[old(self).pc as int]),
            old(self).wf(),
            old(self).pc < old(self).instructions.len(),
        ensures
            follows(res, old(self)@, final(self)@, next(old(self)@, old(self).instructions@[old(self).pc as int], arith)),
            final(self).wf(),
            final(self).instructions == old(self).instructions,
            final(self).dbg_iter == old(self).dbg_iter,
    {
        let pc = self.pc;
        match &self.instructions[pc] {
            Instruction::LoadString(r, text) => {
                let r = *r;
                if self.strings.len() as u64 == u64::MAX {
                    return Err(VmError::OutOfMemory);
                }
                match self.slot(r) {
                    Some(i) => {
                        let t = text.clone();
                        let ghost before = self.strings@.map_values(|t: String| t@);
                        let index = self.strings.len() as u64;
                        self.strings.push(t);
                        assert(self.strings@.map_values(|t: String| t@) =~= before.push(t@));
                        self.stack[i] = index;
                        self.pc = pc + 1;
                        Ok(Effect::Continue)
                    },
                    None => Err(VmError::RegisterOutOfRange),
                }
            },
            Instruction::StringEquals(d, a, b) => {
                let (d, a, b) = (*d, *a, *b);
                match self.texts(a, b) {
                    Ok((x, y)) => {
                        let same = self.strings[x].eq(&self.strings[y]);
                        self.store(d, bool_bits(same))
                    },
                    Err(e) => Err(e),
                }
            },
            Instruction::StringNonEquals(d, a, b) => {
                let (d, a, b) = (*d, *a, *b);
                match self.texts(a, b) {
                    Ok((x, y)) => {
                        let same = self.strings[x].eq(&self.strings[y]);
                        self.store(d, bool_bits(!same))
                    },
                    Err(e) => Err(e),
                }
            },
            Instruction::Concat(d, a, b) => {
                let (d, a, b) = (*d, *a, *b);
                match self.texts(a, b) {
                    Ok((x, y)) => {
                        if self.strings.len() as u64 == u64::MAX {
                            return Err(VmError::OutOfMemory);
                        }
                        let joined = self.strings[x].clone().concat(self.strings[y].as_str());
                        let index = self.strings.len() as u64;
                        let r = self.store(d, index);
                        if r.is_ok() {
                            let ghost before = self.strings@.map_values(|t: String| t@);
                            self.strings.push(joined);
                            assert(self.strings@.map_values(|t: String| t@) =~= before.push(joined@));
                        }
                        r
                    },
                    Err(e) => Err(e),
                }
            },
            Instruction::Throw(r) => {
                let r = *r;
                match self.slot(r) {
                    Some(_) => Err(VmError::Thrown),
                    None => Err(VmError::RegisterOutOfRange),
                }
            },
            _ => {
                assert(false);
                Err(VmError::PcOutOfRange)
            },
        }
    }

    /// The floating-point operation that the current instruction needs from
    /// the host, on the values it reads; `None` when it needs none.
    pub fn arith_request(&self) -> (r: Option<ArithRequest>)
        ensures
            self.pc < self.instructions.len() ==> r == arith_needed(self@, self.instructions@[self.pc as int]),
            self.pc >= self.instructions.len() ==> r is None,
    {
        if self.pc >= self.instructions.len() {
            return None;
        }
        let (op, a, b) = match &self.instructions[self.pc] {
            Instruction::Add(_, a, b) => (ArithOp::Add, *a, *b),
            Instruction::Subtract(_, a, b) => (ArithOp::Subtract, *a, *b),
            Instruction::Multiply(_, a, b) => (ArithOp::Multiply, *a, *b),
            Instruction::Divide(_, a, b) => (ArithOp::Divide, *a, *b),
            _ => {
                return None;
            },
        };
        match self.pair(a, b) {
            Some((lhs, rhs)) => Some(ArithRequest { op, lhs, rhs }),
            None => None,
        }
    }

    /// Executes the instruction at `pc`. `arith` is the host's result (as
    /// bits) for the operation that `arith_request` named; other instructions
    /// ignore it. A refused step leaves the machine as it was.
    pub fn tick(&mut self, arith: u64) -> (r: Result<Effect, VmError>)
        requires
            old(self).wf(),
        ensures
            final(self).wf(),
            final(self).instructions@ == old(self).instructions@,
            old(self).pc < old(self).instructions.len() ==> follows(
                r,
                old(self)@,
                final(self)@,
                next(old(self)@, old(self).instructions@[old(self).pc as int], arith),
            ),
            old(self).pc >= old(self).instructions.len() ==> r == Err::<Effect, VmError>(VmError::PcOutOfRange)
                && final(self)@ == old(self)@,
            final(self).dbg_iter == if r is Ok && old(self).dbg_iter < u64::MAX {
                (old(self).dbg_iter + 1) as u64
            } else {
                old(self).dbg_iter
            },
    {
        if self.pc >= self.instructions.len() {
            return Err(VmError::PcOutOfRange);
        }
        let r = self.dispatch(arith);
        if r.is_ok() && self.dbg_iter < u64::MAX {
            self.dbg_iter = self.dbg_iter + 1;
        }
        r
    }

    pub fn running(&self) -> (r: bool)
        ensures
            r == self.running,
    {
        self.running
    }

    /// The bits of the exit code.
    pub fn exit_code(&self) -> (r: u64)
        ensures
            r == self.exit_code,
    {
        self.exit_code
    }
}

} // verus!
