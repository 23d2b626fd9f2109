use vstd::prelude::*;

use crate::isa::{Callable, Instruction, Label};
use crate::labels::{find_label, insert_label, label_entries, new_label_table};
use crate::num::{small_bits, small_of};

verus! {

/// One textual operand, already coerced the two ways the linker reads it: as
/// a small integer (register, offset or label id) and as a double, held as its
/// IEEE-754 bit pattern. An operand that does not parse reads as `0` and `0.0`.
#[derive(PartialEq, Eq, Structural, Clone, Copy, Debug)]
pub struct Operand {
    pub small: i8,
    pub number: u64,
}

/// The operand that a piece of operand text gives, from the bits of the
/// double it parses to, or `None` when it does not parse: the small integer
/// is the double truncated toward zero and saturated, and a text that does
/// not parse reads as `0` and `0.0`.
pub fn coerce_operand(parsed: Option<u64>) -> (r: Operand)
    ensures
        r == match parsed {
            Some(b) => Operand { small: small_of(b), number: b },
            None => Operand { small: 0, number: 0 },
        },
{
    match parsed {
        Some(b) => Operand { small: small_bits(b), number: b },
        None => Operand { small: 0, number: 0 },
    }
}

/// One entry of a function body handed to the linker: a label definition, or
/// an instruction with its mnemonic and coerced operands.
pub enum LinkEntry {
    Label(i32),
    Op { name: String, operands: Vec<Operand> },
}

/// Why linking failed.
#[derive(PartialEq, Eq, Debug)]
pub enum LinkError {
    UnknownCommand(String),
    UndefinedLabel(i8),
    UnknownFunction(String),
}

/// The operand at `i`; a missing operand reads as zero.
pub open spec fn operand(ops: Seq<Operand>, i: int) -> Operand {
    if 0 <= i < ops.len() {
        ops[i]
    } else {
        Operand { small: 0, number: 0 }
    }
}

/// The instruction that a mnemonic selects, with jump targets not yet resolved;
/// `None` for an unknown mnemonic.
pub open spec fn decode(name: Seq<char>, ops: Seq<Operand>) -> Option<Instruction> {
    let a = operand(ops, 0).small;
    let b = operand(ops, 1).small;
    let c = operand(ops, 2).small;
    if name == "Nop"@ {
        Some(Instruction::Nop)
    } else if name == "Debug"@ {
        Some(Instruction::Debug(a))
    } else if name == "Return"@ {
        Some(Instruction::Return(a))
    } else if name == "Throw"@ {
        Some(Instruction::Throw(a))
    } else if name == "Copy"@ {
        Some(Instruction::Copy(a, b))
    } else if name == "Not"@ {
        Some(Instruction::Not(a, b))
    } else if name == "Negate"@ {
        Some(Instruction::Negate(a, b))
    } else if name == "Argument"@ {
        Some(Instruction::Argument(a, b))
    } else if name == "InvokeFunction"@ {
        Some(Instruction::InvokeFunction(a, b))
    } else if name == "CreateStruct"@ {
        Some(Instruction::CreateStruct(a, b))
    } else if name == "CreateClosure"@ {
        Some(Instruction::CreateClosure(a, b))
    } else if name == "LoadEnumType"@ {
        Some(Instruction::LoadEnumType(a, b))
    } else if name == "LoadMember"@ {
        Some(Instruction::LoadMember(a, b, c))
    } else if name == "LoadArray"@ {
        Some(Instruction::LoadArray(a, b, c))
    } else if name == "StoreMember"@ {
        Some(Instruction::StoreMember(a, b, c))
    } else if name == "StoreArray"@ {
        Some(Instruction::StoreArray(a, b, c))
    } else if name == "CreateEnumEntry"@ {
        Some(Instruction::CreateEnumEntry(a, b, c))
    } else if name == "LoadEnumMember"@ {
        Some(Instruction::LoadEnumMember(a, b, c))
    } else if name == "CopyEnumMember"@ {
        Some(Instruction::CopyEnumMember(a, b, c))
    } else if name == "Add"@ {
        Some(Instruction::Add(a, b, c))
    } else if name == "Subtract"@ {
        Some(Instruction::Subtract(a, b, c))
    } else if name == "Multiply"@ {
        Some(Instruction::Multiply(a, b, c))
    } else if name == "Divide"@ {
        Some(Instruction::Divide(a, b, c))
    } else if name == "Or"@ {
        Some(Instruction::Or(a, b, c))
    } else if name == "And"@ {
        Some(Instruction::And(a, b, c))
    } else if name == "Greater"@ {
        Some(Instruction::Greater(a, b, c))
    } else if name == "GreaterEq"@ {
        Some(Instruction::GreaterEq(a, b, c))
    } else if name == "Smaller"@ {
        Some(Instruction::Smaller(a, b, c))
    } else if name == "SmallerEq"@ {
        Some(Instruction::SmallerEq(a, b, c))
    } else if name == "Equals"@ {
        Some(Instruction::Equals(a, b, c))
    } else if name == "NonEquals"@ {
        Some(Instruction::NonEquals(a, b, c))
    } else if name == "StringNonEquals"@ {
        Some(Instruction::StringNonEquals(a, b, c))
    } else if name == "StringEquals"@ {
        Some(Instruction::StringEquals(a, b, c))
    } else if name == "Concat"@ {
        Some(Instruction::Concat(a, b, c))
    } else if name == "LoadConst"@ {
        Some(Instruction::LoadConst(a, operand(ops, 1).number))
    } else if name == "Exit"@ {
        Some(Instruction::Exit(operand(ops, 0).number))
    } else if name == "Jump"@ {
        Some(Instruction::Jump(Label { index: a, address: -1i32 }))
    } else if name == "JumpIfNot"@ {
        Some(Instruction::JumpIfNot(a, Label { index: b, address: -1i32 }))
    } else {
        None
    }
}

/// Whether entry `i` names an unknown mnemonic.
pub open spec fn unknown_at(es: Seq<LinkEntry>, i: int) -> bool {
    match es[i] {
        LinkEntry::Op { name, operands } => decode(name@, operands@) is None,
        LinkEntry::Label(_) => false,
    }
}

pub open spec fn all_known(es: Seq<LinkEntry>) -> bool {
    forall|i: int| 0 <= i < es.len() ==> !unknown_at(es, i)
}

/// Number of instruction entries among the first `k` entries.
pub open spec fn ops_before(es: Seq<LinkEntry>, k: int) -> int
    decreases k,
{
    if k <= 0 {
        0
    } else {
        ops_before(es, k - 1) + if es[k - 1] is Op { 1int } else { 0int }
    }
}

/// Label ids defined among the first `k` entries, each mapped to the address of
/// the instruction that follows its last definition, counting from `base`.
pub open spec fn labels_upto(es: Seq<LinkEntry>, base: int, k: int) -> Map<i32, i32>
    decreases k,
{
    if k <= 0 {
        Map::empty()
    } else {
        let m = labels_upto(es, base, k - 1);
        match es[k - 1] {
            LinkEntry::Label(id) => m.insert(id, (base + ops_before(es, k - 1)) as i32),
            LinkEntry::Op { .. } => m,
        }
    }
}

pub open spec fn label_addresses(es: Seq<LinkEntry>, base: int) -> Map<i32, i32> {
    labels_upto(es, base, es.len() as int)
}

/// The decoded instructions of the first `k` entries, in order.
pub open spec fn pending(es: Seq<LinkEntry>, k: int) -> Seq<Instruction>
    decreases k,
{
    if k <= 0 {
        Seq::empty()
    } else {
        pending(es, k - 1) + match es[k - 1] {
            LinkEntry::Op { name, operands } => match decode(name@, operands@) {
                Some(ins) => seq![ins],
                None => Seq::empty(),
            },
            LinkEntry::Label(_) => Seq::empty(),
        }
    }
}

/// An instruction with its jump target resolved through `labels`; `None` when
/// the target label is not defined.
pub open spec fn resolve(ins: Instruction, labels: Map<i32, i32>) -> Option<Instruction> {
    match ins {
        Instruction::Jump(l) => if labels.contains_key(l.index as i32) {
            Some(Instruction::Jump(Label { index: l.index, address: labels[l.index as i32] }))
        } else {
            None
        },
        Instruction::JumpIfNot(r, l) => if labels.contains_key(l.index as i32) {
            Some(Instruction::JumpIfNot(r, Label { index: l.index, address: labels[l.index as i32] }))
        } else {
            None
        },
        _ => Some(ins),
    }
}

/// Whether pending instruction `j` jumps to a label that is not defined.
pub open spec fn unresolved_at(es: Seq<LinkEntry>, base: int, j: int) -> bool {
    resolve(pending(es, es.len() as int)[j], label_addresses(es, base)) is None
}

pub open spec fn all_resolved(es: Seq<LinkEntry>, base: int) -> bool {
    forall|j: int| 0 <= j < pending(es, es.len() as int).len() ==> !unresolved_at(es, base, j)
}

/// The block of resolved instructions that a function body links to, when it
/// is placed at address `base`.
pub open spec fn linked_block(es: Seq<LinkEntry>, base: int) -> Seq<Instruction> {
    let p = pending(es, es.len() as int);
    Seq::new(p.len(), |j: int| resolve(p[j], label_addresses(es, base))->0)
}

/// Whether `name` spells `lit`.
fn is_named(name: &String, lit: &str) -> (r: bool)
    ensures
        r == (name@ == lit@),
{
    let l = lit.to_owned();
    name.eq(&l)
}

fn operand_at(ops: &Vec<Operand>, i: usize) -> (r: Operand)
    ensures
        r == operand(ops@, i as int),
{
    if i < ops.len() {
        ops[i]
    } else {
        Operand { small: 0, number: 0 }
    }
}

/// Selects the instruction that a mnemonic names.
pub fn decode_instruction(name: &String, ops: &Vec<Operand>) -> (r: Option<Instruction>)
    ensures
        r == decode(name@, ops@),
{
    let o0 = operand_at(ops, 0);
    let o1 = operand_at(ops, 1);
    let o2 = operand_at(ops, 2);
    let a = o0.small;
    let b = o1.small;
    let c = o2.small;
    if is_named(name, "Nop") {
        Some(Instruction::Nop)
    } else if is_named(name, "Debug") {
        Some(Instruction::Debug(a))
    } else if is_named(name, "Return") {
        Some(Instruction::Return(a))
    } else if is_named(name, "Throw") {
        Some(Instruction::Throw(a))
    } else if is_named(name, "Copy") {
        Some(Instruction::Copy(a, b))
    } else if is_named(name, "Not") {
        Some(Instruction::Not(a, b))
    } else if is_named(name, "Negate") {
        Some(Instruction::Negate(a, b))
    } else if is_named(name, "Argument") {
        Some(Instruction::Argument(a, b))
    } else if is_named(name, "InvokeFunction") {
        Some(Instruction::InvokeFunction(a, b))
    } else if is_named(name, "CreateStruct") {
        Some(Instruction::CreateStruct(a, b))
    } else if is_named(name, "CreateClosure") {
        Some(Instruction::CreateClosure(a, b))
    } else if is_named(name, "LoadEnumType") {
        Some(Instruction::LoadEnumType(a, b))
    } else if is_named(name, "LoadMember") {
        Some(Instruction::LoadMember(a, b, c))
    } else if is_named(name, "LoadArray") {
        Some(Instruction::LoadArray(a, b, c))
    } else if is_named(name, "StoreMember") {
        Some(Instruction::StoreMember(a, b, c))
    } else if is_named(name, "StoreArray") {
        Some(Instruction::StoreArray(a, b, c))
    } else if is_named(name, "CreateEnumEntry") {
        Some(Instruction::CreateEnumEntry(a, b, c))
    } else if is_named(name, "LoadEnumMember") {
        Some(Instruction::LoadEnumMember(a, b, c))
    } else if is_named(name, "CopyEnumMember") {
        Some(Instruction::CopyEnumMember(a, b, c))
    } else if is_named(name, "Add") {
        Some(Instruction::Add(a, b, c))
    } else if is_named(name, "Subtract") {
        Some(Instruction::Subtract(a, b, c))
    } else if is_named(name, "Multiply") {
        Some(Instruction::Multiply(a, b, c))
    } else if is_named(name, "Divide") {
        Some(Instruction::Divide(a, b, c))
    } else if is_named(name, "Or") {
        Some(Instruction::Or(a, b, c))
    } else if is_named(name, "And") {
        Some(Instruction::And(a, b, c))
    } else if is_named(name, "Greater") {
        Some(Instruction::Greater(a, b, c))
    } else if is_named(name, "GreaterEq") {
        Some(Instruction::GreaterEq(a, b, c))
    } else if is_named(name, "Smaller") {
        Some(Instruction::Smaller(a, b, c))
    } else if is_named(name, "SmallerEq") {
        Some(Instruction::SmallerEq(a, b, c))
    } else if is_named(name, "Equals") {
        Some(Instruction::Equals(a, b, c))
    } else if is_named(name, "NonEquals") {
        Some(Instruction::NonEquals(a, b, c))
    } else if is_named(name, "StringNonEquals") {
        Some(Instruction::StringNonEquals(a, b, c))
    } else if is_named(name, "StringEquals") {
        Some(Instruction::StringEquals(a, b, c))
    } else if is_named(name, "Concat") {
        Some(Instruction::Concat(a, b, c))
    } else if is_named(name, "LoadConst") {
        Some(Instruction::LoadConst(a, o1.number))
    } else if is_named(name, "Exit") {
        Some(Instruction::Exit(o0.number))
    } else if is_named(name, "Jump") {
        Some(Instruction::Jump(Label { index: a, address: -1 }))
    } else if is_named(name, "JumpIfNot") {
        Some(Instruction::JumpIfNot(a, Label { index: b, address: -1 }))
    } else {
        None
    }
}


/// The mnemonic of an entry (empty for a label).
pub open spec fn entry_name(e: LinkEntry) -> Seq<char> {
    match e {
        LinkEntry::Op { name, .. } => name@,
        LinkEntry::Label(_) => Seq::empty(),
    }
}

/// The label id that a jump-bearing instruction targets.
pub open spec fn jump_label(ins: Instruction) -> Option<i8> {
    match ins {
        Instruction::Jump(l) => Some(l.index),
        Instruction::JumpIfNot(_, l) => Some(l.index),
        _ => None,
    }
}

proof fn lemma_pending_prefix(es: Seq<LinkEntry>, i: int, k: int)
    requires
        0 <= i <= k <= es.len(),
    ensures
        pending(es, i).len() <= pending(es, k).len(),
        forall|j: int| 0 <= j < pending(es, i).len() ==> pending(es, k)[j] == pending(es, i)[j],
    decreases k - i,
{
    if i < k {
        lemma_pending_prefix(es, i, k - 1);
    }
}

/// Resolves the jump target of one instruction through the label table; the
/// error carries the label id that is not defined.
fn resolve_instruction(ins: Instruction, table: &fxhash::FxHashMap<i32, i32>) -> (r: Result<Instruction, i8>)
    ensures
        r matches Ok(x) ==> resolve(ins, label_entries(*table)) == Some(x),
        r matches Err(id) ==> resolve(ins, label_entries(*table)) is None && jump_label(ins) == Some(id),
{
    match ins {
        Instruction::Jump(l) => match find_label(table, l.index as i32) {
            Some(address) => Ok(Instruction::Jump(Label { index: l.index, address })),
            None => Err(l.index),
        },
        Instruction::JumpIfNot(reg, l) => match find_label(table, l.index as i32) {
            Some(address) => Ok(Instruction::JumpIfNot(reg, Label { index: l.index, address })),
            None => Err(l.index),
        },
        other => Ok(other),
    }
}

/// Whether every label definition is followed by some instruction of the body.
pub open spec fn labels_followed(es: Seq<LinkEntry>) -> bool {
    forall|i: int| 0 <= i < es.len() && (#[trigger] es[i]) is Label
        ==> ops_before(es, i) < ops_before(es, es.len() as int)
}

proof fn lemma_no_ops_before(es: Seq<LinkEntry>, k: int)
    requires
        0 <= k <= es.len(),
        forall|i: int| 0 <= i < k ==> (#[trigger] es[i]) is Label,
    ensures
        ops_before(es, k) == 0,
    decreases k,
{
    if k > 0 {
        lemma_no_ops_before(es, k - 1);
    }
}

proof fn lemma_label_kept(es: Seq<LinkEntry>, base: int, k: int, id: i32, n: int)
    requires
        0 <= k < n <= es.len(),
        es[k] == LinkEntry::Label(id),
        labels_upto(es, base, k + 1).contains_key(id),
        forall|j: int| k < j < es.len() ==> (#[trigger] es[j]) != LinkEntry::Label(id),
    ensures
        labels_upto(es, base, n).contains_key(id),
        labels_upto(es, base, n)[id] == labels_upto(es, base, k + 1)[id],
    decreases n,
{
    if n > k + 1 {
        lemma_label_kept(es, base, k, id, n - 1);
    }
}

/// A label defined before a body's first instruction, and not defined again
/// later, resolves to the body's base address: a jump back to it re-enters
/// the function at its first instruction, which makes loops over a whole
/// function body legal.
pub proof fn lemma_leading_label(es: Seq<LinkEntry>, base: int, k: int, id: i32)
    requires
        0 <= k < es.len(),
        es[k] == LinkEntry::Label(id),
        forall|i: int| 0 <= i < k ==> (#[trigger] es[i]) is Label,
        forall|j: int| k < j < es.len() ==> (#[trigger] es[j]) != LinkEntry::Label(id),
        0 <= base <= i32::MAX,
    ensures
        label_addresses(es, base).contains_key(id),
        label_addresses(es, base)[id] == base,
{
    lemma_no_ops_before(es, k);
    lemma_label_kept(es, base, k, id, es.len() as int);
}

/// Whether a jump-bearing instruction targets an address in `lo..hi`.
pub open spec fn target_within(ins: Instruction, lo: int, hi: int) -> bool {
    match ins {
        Instruction::Jump(l) => lo <= l.address < hi,
        Instruction::JumpIfNot(_, l) => lo <= l.address < hi,
        _ => true,
    }
}

proof fn lemma_ops_before_bounds(es: Seq<LinkEntry>, i: int, k: int)
    requires
        0 <= i <= k <= es.len(),
    ensures
        0 <= ops_before(es, i) <= ops_before(es, k) <= k,
        ops_before(es, i) <= i,
    decreases k,
{
    if k > 0 {
        if i < k {
            lemma_ops_before_bounds(es, i, k - 1);
        } else {
            lemma_ops_before_bounds(es, i - 1, k - 1);
        }
    }
}

proof fn lemma_pending_len(es: Seq<LinkEntry>, k: int)
    requires
        0 <= k <= es.len(),
        all_known(es),
    ensures
        pending(es, k).len() == ops_before(es, k),
    decreases k,
{
    if k > 0 {
        lemma_pending_len(es, k - 1);
        assert(!unknown_at(es, k - 1));
    }
}

proof fn lemma_label_values(es: Seq<LinkEntry>, base: int, k: int)
    requires
        0 <= k <= es.len(),
        0 <= base,
        base + es.len() <= i32::MAX,
    ensures
        forall|id: i32| #[trigger] labels_upto(es, base, k).contains_key(id) ==> exists|i: int|
            0 <= i < k && (#[trigger] es[i]) is Label
            && labels_upto(es, base, k)[id] == base + ops_before(es, i),
    decreases k,
{
    if k > 0 {
        lemma_label_values(es, base, k - 1);
        lemma_ops_before_bounds(es, k - 1, k - 1);
        let m = labels_upto(es, base, k - 1);
        assert forall|id: i32| #[trigger] labels_upto(es, base, k).contains_key(id) implies exists|i: int|
            0 <= i < k && (#[trigger] es[i]) is Label
            && labels_upto(es, base, k)[id] == base + ops_before(es, i) by {
            match es[k - 1] {
                LinkEntry::Label(x) => {
                    if x != id {
                        assert(m.contains_key(id));
                        let i = choose|i: int| 0 <= i < k - 1 && (#[trigger] es[i]) is Label
                            && m[id] == base + ops_before(es, i);
                        assert(0 <= i < k && es[i] is Label);
                    }
                },
                LinkEntry::Op { .. } => {
                    assert(m.contains_key(id));
                },
            }
        }
    }
}

/// Every jump of a linked body targets an address inside the body's own
/// block, provided each label definition is followed by an instruction.
/// Since `feed_instructions` appends that block to the stream, every linked
/// jump target is a valid index into the final instruction stream; a label
/// defined before the first instruction resolves to the block's first address,
/// so a loop may jump back to the start of its function.
pub proof fn lemma_jump_targets_in_block(es: Seq<LinkEntry>, base: int)
    requires
        all_known(es),
        all_resolved(es, base),
        labels_followed(es),
        0 <= base,
        base + es.len() <= i32::MAX,
    ensures
        forall|j: int| 0 <= j < linked_block(es, base).len() ==> #[trigger] target_within(
            linked_block(es, base)[j], base, base + linked_block(es, base).len()),
{
    let n = es.len() as int;
    let p = pending(es, n);
    let labels = label_addresses(es, base);
    lemma_pending_len(es, n);
    lemma_label_values(es, base, n);
    assert forall|j: int| 0 <= j < linked_block(es, base).len() implies #[trigger] target_within(
        linked_block(es, base)[j], base, base + linked_block(es, base).len()) by {
        assert(!unresolved_at(es, base, j));
        match p[j] {
            Instruction::Jump(l) => {
                assert(labels.contains_key(l.index as i32));
                let i = choose|i: int| 0 <= i < n && (#[trigger] es[i]) is Label
                    && labels[l.index as i32] == base + ops_before(es, i);
                lemma_ops_before_bounds(es, i, n);
            },
            Instruction::JumpIfNot(_, l) => {
                assert(labels.contains_key(l.index as i32));
                let i = choose|i: int| 0 <= i < n && (#[trigger] es[i]) is Label
                    && labels[l.index as i32] == base + ops_before(es, i);
                lemma_ops_before_bounds(es, i, n);
            },
            _ => {},
        }
    }
}

/// An instruction with its jump address set aside, as it reads before linking.
pub open spec fn unresolved_form(ins: Instruction) -> Instruction {
    match ins {
        Instruction::Jump(l) => Instruction::Jump(Label { index: l.index, address: -1i32 }),
        Instruction::JumpIfNot(r, l) => Instruction::JumpIfNot(r, Label { index: l.index, address: -1i32 }),
        _ => ins,
    }
}

/// Linking one body twice, at any two base addresses, yields the same
/// instruction sequence once jump addresses are set aside: the opcodes and
/// operands that a body links to do not depend on where it is placed, nor on
/// which pass produced them.
pub proof fn lemma_relink_same_opcodes(es: Seq<LinkEntry>, b1: int, b2: int)
    requires
        all_resolved(es, b1),
        all_resolved(es, b2),
    ensures
        linked_block(es, b1).len() == linked_block(es, b2).len(),
        forall|j: int| 0 <= j < linked_block(es, b1).len() ==> unresolved_form(#[trigger] linked_block(es, b1)[j])
            == unresolved_form(linked_block(es, b2)[j]),
{
    let p = pending(es, es.len() as int);
    assert forall|j: int| 0 <= j < linked_block(es, b1).len() implies unresolved_form(#[trigger] linked_block(es, b1)[j])
        == unresolved_form(linked_block(es, b2)[j]) by {
        assert(!unresolved_at(es, b1, j));
        assert(!unresolved_at(es, b2, j));
        match p[j] {
            Instruction::Jump(l) => {},
            Instruction::JumpIfNot(r, l) => {},
            _ => {},
        }
    }
}

/// A function's first instruction stays where it was placed: when a body is
/// linked after a `prefix` of the stream (so its `temp_address`, and the
/// address of the callable `find_callable` builds for it, is `prefix.len()`)
/// and more is appended later, the stream holds the body's first instruction
/// at that address, provided the body links and has an instruction.
pub proof fn lemma_function_start(prefix: Seq<Instruction>, es: Seq<LinkEntry>, later: Seq<Instruction>)
    requires
        all_known(es),
        exists|i: int| 0 <= i < es.len() && (#[trigger] es[i]) is Op,
    ensures
        linked_block(es, prefix.len() as int).len() > 0,
        (prefix + linked_block(es, prefix.len() as int) + later)[prefix.len() as int]
            == linked_block(es, prefix.len() as int)[0],
{
    let i = choose|i: int| 0 <= i < es.len() && (#[trigger] es[i]) is Op;
    lemma_ops_before_bounds(es, i + 1, es.len() as int);
    lemma_ops_before_bounds(es, i, i);
    lemma_pending_len(es, es.len() as int);
    let block = linked_block(es, prefix.len() as int);
    assert((prefix + block + later)[prefix.len() as int] == (prefix + block)[prefix.len() as int]);
}

/// A function of the program: its name, register count, argument count, body,
/// and the address its first instruction was placed at.
pub struct Function {
    pub name: String,
    pub size: i32,
    pub instructions: Vec<LinkEntry>,
    pub args: i32,
    pub temp_address: i32,
}

/// Index of the first function named `name`.
pub open spec fn first_named(fs: Seq<Function>, name: Seq<char>, k: int) -> bool {
    0 <= k < fs.len() && fs[k].name@ == name && forall|j: int| 0 <= j < k ==> fs[j].name@ != name
}

/// The callable descriptor of the first function named `name`: its address,
/// argument count and register count as the linker placed and declared them.
pub fn find_callable(functions: &Vec<Function>, name: &String) -> (r: Result<Callable, LinkError>)
    ensures
        r matches Ok(c) ==> exists|k: int| #[trigger] first_named(functions@, name@, k)
            && c.name@ == name@ && c.address == functions@[k].temp_address && c.args == functions@[k].args
            && c.registers == functions@[k].size && c.capture@.len() == 0,
        r matches Err(e) ==> e == LinkError::UnknownFunction(*name) && forall|k: int|
            0 <= k < functions@.len() ==> (#[trigger] functions@[k]).name@ != name@,
        r is Ok <==> exists|k: int| 0 <= k < functions@.len() && (#[trigger] functions@[k]).name@ == name@,
{
    let mut k: usize = 0;
    while k < functions.len()
        invariant
            k <= functions.len(),
            forall|j: int| 0 <= j < k ==> functions@[j].name@ != name@,
        decreases functions.len() - k,
    {
        let f = &functions[k];
        if f.name.eq(name) {
            assert(first_named(functions@, name@, k as int));
            return Ok(Callable {
                name: f.name.clone(),
                registers: f.size,
                address: f.temp_address,
                args: f.args,
                capture_size: 0,
                capture: Vec::new(),
            });
        }
        k = k + 1;
    }
    Err(LinkError::UnknownFunction(name.clone()))
}

/// Accumulates the flat instruction stream of a program, one function at a time.
pub struct Linker {
    pub instructions: Vec<Instruction>,
}

impl Linker {
    pub fn new() -> (r: Linker)
        ensures
            r.instructions@ == Seq::<Instruction>::empty(),
    {
        Linker { instructions: Vec::new() }
    }

    /// Links one function body and appends it to the instruction stream.
    /// Labels resolve to the address of the instruction that follows their
    /// (last) definition. On an unknown mnemonic or a jump to an undefined
    /// label nothing is appended; the error names the first unknown mnemonic,
    /// or, when all are known, the label of the first unresolved jump. Returns the callables that the body
    /// references by name, which the format here never produces.
    pub fn feed_instructions(&mut self, entries: &Vec<LinkEntry>) -> (r: Result<Vec<Callable>, LinkError>)
        requires
            old(self).instructions.len() + entries.len() <= i32::MAX,
        ensures
            r is Ok <==> all_known(entries@) && all_resolved(entries@, old(self).instructions.len() as int),
            r matches Ok(cs) ==> cs@.len() == 0 && final(self).instructions@ == old(self).instructions@
                + linked_block(entries@, old(self).instructions.len() as int),
            r is Err ==> final(self).instructions@ == old(self).instructions@,
            r matches Err(LinkError::UnknownCommand(n)) ==> exists|i: int|
                0 <= i < entries@.len() && unknown_at(entries@, i) && entry_name(#[trigger] entries@[i]) == n@
                && forall|k: int| 0 <= k < i ==> !unknown_at(entries@, k),
            r matches Err(LinkError::UndefinedLabel(id)) ==> all_known(entries@) && exists|j: int|
                0 <= j < pending(entries@, entries@.len() as int).len()
                && #[trigger] unresolved_at(entries@, old(self).instructions.len() as int, j)
                && jump_label(pending(entries@, entries@.len() as int)[j]) == Some(id)
                && forall|k: int| 0 <= k < j ==> !unresolved_at(entries@, old(self).instructions.len() as int, k),
            !(r matches Err(LinkError::UnknownFunction(_))),
    {
        let ghost es = entries@;
        let base = self.instructions.len();
        let mut table = new_label_table();
        let mut count: usize = 0;
        let mut i: usize = 0;
        while i < entries.len()
            invariant
                es == entries@,
                base == self.instructions.len(),
                self.instructions@ == old(self).instructions@,
                base + entries.len() <= i32::MAX,
                0 <= i <= entries.len(),
                count == ops_before(es, i as int),
                count <= i,
                label_entries(table) == labels_upto(es, base as int, i as int),
                forall|k: int| 0 <= k < i ==> !unknown_at(es, k),
            decreases entries.len() - i,
        {
            match &entries[i] {
                LinkEntry::Label(id) => {
                    insert_label(&mut table, *id, (base + count) as i32);
                },
                LinkEntry::Op { name, operands } => {
                    let d = decode_instruction(name, operands);
                    if d.is_none() {
                        assert(unknown_at(es, i as int));
                        assert(entry_name(entries@[i as int]) == name@);
                        return Err(LinkError::UnknownCommand(name.clone()));
                    }
                    count = count + 1;
                },
            }
            i = i + 1;
        }
        let ghost labels = label_addresses(es, base as int);
        let ghost full = pending(es, es.len() as int);
        let mut out: Vec<Instruction> = Vec::new();
        proof {
            lemma_pending_prefix(es, 0, es.len() as int);
        }
        i = 0;
        while i < entries.len()
            invariant
                es == entries@,
                base == self.instructions.len(),
                self.instructions@ == old(self).instructions@,
                0 <= i <= entries.len(),
                all_known(es),
                label_entries(table) == labels,
                labels == label_addresses(es, base as int),
                full == pending(es, es.len() as int),
                out@.len() == pending(es, i as int).len(),
                out@.len() <= full.len(),
                forall|j: int| 0 <= j < out@.len() ==> resolve(full[j], labels) == Some(out@[j]),
                forall|j: int| 0 <= j < out@.len() ==> !unresolved_at(es, base as int, j),
            decreases entries.len() - i,
        {
            proof {
                lemma_pending_prefix(es, i as int + 1, es.len() as int);
                lemma_pending_prefix(es, i as int, i as int + 1);
            }
            match &entries[i] {
                LinkEntry::Label(_) => {},
                LinkEntry::Op { name, operands } => {
                    let d = decode_instruction(name, operands);
                    match d {
                        Some(ins) => {
                            assert(full[out@.len() as int] == ins);
                            match resolve_instruction(ins, &table) {
                                Ok(x) => {
                                    out.push(x);
                                },
                                Err(id) => {
                                    assert(unresolved_at(es, base as int, out@.len() as int));
                                    return Err(LinkError::UndefinedLabel(id));
                                },
                            }
                        },
                        None => {
                            assert(unknown_at(es, i as int));
                        },
                    }
                },
            }
            i = i + 1;
        }
        proof {
            assert(out@ =~= linked_block(es, base as int));
        }
        self.instructions.append(&mut out);
        Ok(Vec::new())
    }

    /// Places one function: records the address its first instruction lands
    /// at, then links its body there.
    pub fn feed_function(&mut self, f: &mut Function) -> (r: Result<Vec<Callable>, LinkError>)
        requires
            old(self).instructions.len() + old(f).instructions.len() <= i32::MAX,
        ensures
            final(f).temp_address == old(self).instructions.len(),
            final(f).name == old(f).name,
            final(f).size == old(f).size,
            final(f).args == old(f).args,
            final(f).instructions == old(f).instructions,
            r is Ok <==> all_known(old(f).instructions@) && all_resolved(
                old(f).instructions@,
                old(self).instructions.len() as int,
            ),
            r matches Ok(cs) ==> cs@.len() == 0 && final(self).instructions@ == old(self).instructions@
                + linked_block(old(f).instructions@, old(self).instructions.len() as int),
            r is Err ==> final(self).instructions@ == old(self).instructions@,
    {
        f.temp_address = self.instructions.len() as i32;
        self.feed_instructions(&f.instructions)
    }
}

} // verus!
