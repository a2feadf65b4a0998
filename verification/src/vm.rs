//! The machine itself: one double-ended queue of `i64` values, a program, a
//! label table, and an instruction pointer. Each opcode pops its operands
//! from the end its instruction names and pushes results back to that end.
//!
//! Input and output are kept out of the machine: [`VM::step`] returns an
//! [`Effect`] describing what a driver must print or read, and the driver
//! hands input lines back through [`VM::provide_int`] / [`VM::provide_char`].

use vstd::prelude::*;
use std::collections::VecDeque;
use crate::direction::Direction;
use crate::error::VmError;
use crate::instr::{Instruction, InstrV, instr_of_token, is_label_token, label_name, token_ok};
use crate::parse::{int_val, parse_i64, parses_to_i64};
use crate::text::{eq_ignore_case, lower, str_views, tokenize, tokenize_str, trim, trim_spec};
use vstd::wrapping::i64_specs;

verus! {

/// What the machine is doing between steps.
#[derive(Clone, Copy, Debug, PartialEq, Eq, Structural)]
pub enum Status {
    /// Ready to execute the instruction at the pointer.
    Running,
    /// A `read` wants one input line, parsed as an integer, for this end.
    WantInt(Direction),
    /// A `readc` wants one input line, read as a character, for this end.
    WantChar(Direction),
    /// The run ended: the pointer passed the program or `exit 0` ran.
    Halted,
}

/// What one step asks of the driver.
pub enum Effect {
    /// State changed; nothing to print or read.
    Quiet,
    /// Emit the value's decimal representation and a newline.
    Print(i64),
    /// Emit the value truncated to one byte, as a character.
    PrintChar(u8),
    /// Emit one glyph per store element, left to right, then a newline.
    Trace(Vec<char>),
    /// Read one line and hand it to [`VM::provide_int`].
    NeedInt,
    /// Read one line and hand it to [`VM::provide_char`].
    NeedChar,
    /// The run ended successfully.
    Halt,
}

/// Mathematical image of an [`Effect`].
#[verifier::ext_equal]
pub ghost enum EffV {
    Quiet,
    Print(i64),
    PrintChar(u8),
    Trace(Seq<char>),
    NeedInt,
    NeedChar,
    Halt,
}

impl View for Effect {
    type V = EffV;

    open spec fn view(&self) -> EffV {
        match self {
            Effect::Quiet => EffV::Quiet,
            Effect::Print(v) => EffV::Print(*v),
            Effect::PrintChar(b) => EffV::PrintChar(*b),
            Effect::Trace(g) => EffV::Trace(g@),
            Effect::NeedInt => EffV::NeedInt,
            Effect::NeedChar => EffV::NeedChar,
            Effect::Halt => EffV::Halt,
        }
    }
}

/// Mathematical image of the whole machine.
#[verifier::ext_equal]
pub ghost struct StateV {
    pub ip: int,
    pub program: Seq<InstrV>,
    pub labels: Seq<(Seq<char>, i64)>,
    pub data: Seq<i64>,
    pub status: Status,
}

impl StateV {
    /// The one bound the executable machine needs: every instruction address
    /// fits in a 64-bit pointer.
    pub open spec fn wf(self) -> bool {
        self.program.len() <= i64::MAX
    }
}

/// The element a pop from the given end returns.
pub open spec fn front(data: Seq<i64>, d: Direction) -> i64 {
    if d == Direction::Left {
        data[0]
    } else {
        data.last()
    }
}

/// The store after one pop from the given end.
pub open spec fn popped(data: Seq<i64>, d: Direction) -> Seq<i64> {
    if d == Direction::Left {
        data.drop_first()
    } else {
        data.drop_last()
    }
}

/// The store after one push to the given end.
pub open spec fn pushed(data: Seq<i64>, d: Direction, v: i64) -> Seq<i64> {
    if d == Direction::Left {
        seq![v] + data
    } else {
        data.push(v)
    }
}

/// The operation names the machine dispatches on. `Operand` stands for any
/// unrecognized name, pushed as an integer literal or a label address.
#[derive(Clone, Copy, Debug, PartialEq, Eq, Structural)]
pub enum Opcode {
    Add,
    Sub,
    Swap,
    Move,
    Over,
    Drop,
    Shr,
    Shl,
    EqOp,
    Or,
    And,
    Xor,
    Not,
    Gt,
    Lt,
    Ge,
    Le,
    Dup,
    Print,
    Printc,
    Read,
    Readc,
    Trace,
    Jmp,
    Jmpif,
    Exit,
    LabelMark,
    Operand,
}

/// Which opcode an operation name selects.
pub open spec fn spec_opcode(op: Seq<char>) -> Opcode {
    if op == "add"@ {
        Opcode::Add
    } else if op == "sub"@ {
        Opcode::Sub
    } else if op == "swap"@ {
        Opcode::Swap
    } else if op == "move"@ {
        Opcode::Move
    } else if op == "over"@ {
        Opcode::Over
    } else if op == "drop"@ {
        Opcode::Drop
    } else if op == "shr"@ {
        Opcode::Shr
    } else if op == "shl"@ {
        Opcode::Shl
    } else if op == "eq"@ {
        Opcode::EqOp
    } else if op == "or"@ {
        Opcode::Or
    } else if op == "and"@ {
        Opcode::And
    } else if op == "xor"@ {
        Opcode::Xor
    } else if op == "not"@ {
        Opcode::Not
    } else if op == ">"@ {
        Opcode::Gt
    } else if op == "<"@ {
        Opcode::Lt
    } else if op == ">="@ {
        Opcode::Ge
    } else if op == "<="@ {
        Opcode::Le
    } else if op == "dup"@ {
        Opcode::Dup
    } else if op == "print"@ {
        Opcode::Print
    } else if op == "printc"@ {
        Opcode::Printc
    } else if op == "read"@ {
        Opcode::Read
    } else if op == "readc"@ {
        Opcode::Readc
    } else if op == "trace"@ {
        Opcode::Trace
    } else if op == "jmp"@ {
        Opcode::Jmp
    } else if op == "jmpif"@ {
        Opcode::Jmpif
    } else if op == "exit"@ {
        Opcode::Exit
    } else if op == "label"@ {
        Opcode::LabelMark
    } else {
        Opcode::Operand
    }
}

/// The opcodes that pop two operands and push one result.
pub open spec fn is_binop_kind(k: Opcode) -> bool {
    k == Opcode::Add || k == Opcode::Sub || k == Opcode::Shr || k == Opcode::Shl || k
        == Opcode::EqOp || k == Opcode::Or || k == Opcode::And || k == Opcode::Xor || k
        == Opcode::Gt || k == Opcode::Lt || k == Opcode::Ge || k == Opcode::Le
}

/// Result of a two-operand opcode: `a` is the first pop (the top), `b` the
/// second. Addition and subtraction wrap; shifts use the low six bits of the
/// shift count, as 64-bit machine shifts do.
pub open spec fn binop_val(k: Opcode, a: i64, b: i64) -> i64 {
    match k {
        Opcode::Add => i64_specs::wrapping_add(a, b),
        Opcode::Sub => i64_specs::wrapping_sub(b, a),
        Opcode::Shr => i64_specs::wrapping_shr(b, a as u32),
        Opcode::Shl => i64_specs::wrapping_shl(b, a as u32),
        Opcode::EqOp => if a == b { 1 } else { 0 },
        Opcode::Or => a | b,
        Opcode::And => a & b,
        Opcode::Xor => a ^ b,
        Opcode::Gt => if a > b { 1 } else { 0 },
        Opcode::Lt => if a < b { 1 } else { 0 },
        Opcode::Ge => if a >= b { 1 } else { 0 },
        Opcode::Le => if a <= b { 1 } else { 0 },
        _ => 0,
    }
}

/// The store after a two-operand opcode runs against the given end.
pub open spec fn binop_result(data: Seq<i64>, d: Direction, k: Opcode) -> Seq<i64> {
    pushed(
        popped(popped(data, d), d),
        d,
        binop_val(k, front(data, d), front(popped(data, d), d)),
    )
}

/// The glyph line `trace` emits: `*` for a one, a blank for anything else.
pub open spec fn trace_glyphs(data: Seq<i64>) -> Seq<char> {
    data.map_values(|x: i64| if x == 1 { '*' } else { ' ' })
}

/// The views of the label table's owned entries.
pub open spec fn entries_view(v: Seq<(String, i64)>) -> Seq<(Seq<char>, i64)> {
    v.map_values(|p: (String, i64)| (p.0@, p.1))
}

/// Taking the view of each entry commutes with appending one entry.
pub proof fn lemma_entries_view_push(v: Seq<(String, i64)>, p: (String, i64))
    ensures
        entries_view(v.push(p)) == entries_view(v).push((p.0@, p.1)),
{
    assert(entries_view(v.push(p)) =~= entries_view(v).push((p.0@, p.1)));
}

/// Taking the view of each entry commutes with concatenation.
pub proof fn lemma_entries_view_concat(a: Seq<(String, i64)>, b: Seq<(String, i64)>)
    ensures
        entries_view(a + b) == entries_view(a) + entries_view(b),
{
    assert forall|j: int| 0 <= j < a.len() + b.len() implies entries_view(a + b)[j] == (
    entries_view(a) + entries_view(b))[j] by {
        if j < a.len() {
            assert((a + b)[j] == a[j]);
        } else {
            assert((a + b)[j] == b[j - a.len()]);
        }
    }
    assert(entries_view(a + b) =~= entries_view(a) + entries_view(b));
}

/// The label entries a token stream defines: each label token's folded
/// position, in order. A later definition of the same name wins at lookup.
pub open spec fn label_entries(toks: Seq<Seq<char>>) -> Seq<(Seq<char>, i64)>
    decreases toks.len(),
{
    if toks.len() == 0 {
        Seq::empty()
    } else if is_label_token(toks.last()) {
        label_entries(toks.drop_last()).push(
            (label_name(toks.last()), (toks.len() - 1) as i64),
        )
    } else {
        label_entries(toks.drop_last())
    }
}

/// Case-insensitive lookup in the label table; the most recent matching
/// entry wins.
pub open spec fn lookup_ci(entries: Seq<(Seq<char>, i64)>, key: Seq<char>) -> Option<i64>
    decreases entries.len(),
{
    if entries.len() == 0 {
        None
    } else if lower(entries.last().0) == lower(key) {
        Some(entries.last().1)
    } else {
        lookup_ci(entries.drop_last(), key)
    }
}

/// The machine. Built empty by [`VM::new`], filled by
/// [`VM::load_program`], driven by [`VM::step`].
pub struct VM {
    ip: i64,
    program: Vec<Instruction>,
    labels: Vec<(String, i64)>,
    data: VecDeque<i64>,
    status: Status,
}

impl View for VM {
    type V = StateV;

    closed spec fn view(&self) -> StateV {
        StateV {
            ip: self.ip as int,
            program: self.program@.map_values(|i: Instruction| i@),
            labels: entries_view(self.labels@),
            data: self.data@,
            status: self.status,
        }
    }
}

/// Case-insensitive scan of the label table, newest entry first.
fn lookup_label(labels: &Vec<(String, i64)>, key: &str) -> (r: Option<i64>)
    ensures
        r == lookup_ci(entries_view(labels@), key@),
{
    let ghost entries = entries_view(labels@);
    proof {
        assert(entries.take(labels@.len() as int) =~= entries);
    }
    let mut k = labels.len();
    while k > 0
        invariant
            k <= labels.len(),
            entries == entries_view(labels@),
            lookup_ci(entries, key@) == lookup_ci(entries.take(k as int), key@),
        decreases k,
    {
        k -= 1;
        let hit = eq_ignore_case(labels[k].0.as_str(), key);
        proof {
            let pre = entries.take(k as int + 1);
            assert(pre.last() == entries[k as int]);
            assert(pre.drop_last() =~= entries.take(k as int));
        }
        if hit {
            return Some(labels[k].1);
        }
    }
    proof {
        assert(entries.take(0) =~= Seq::<(Seq<char>, i64)>::empty());
    }
    None
}

/// Runtime test of one operation name against a fixed opcode spelling.
fn op_matches(op: &String, lit: &str) -> (b: bool)
    ensures
        b == (op@ == lit@),
{
    let l: String = lit.to_owned();
    op.eq(&l)
}

/// Decodes an operation name; names with no opcode are operands.
pub fn decode_op(op: &String) -> (k: Opcode)
    ensures
        k == spec_opcode(op@),
{
    if op_matches(op, "add") {
        Opcode::Add
    } else if op_matches(op, "sub") {
        Opcode::Sub
    } else if op_matches(op, "swap") {
        Opcode::Swap
    } else if op_matches(op, "move") {
        Opcode::Move
    } else if op_matches(op, "over") {
        Opcode::Over
    } else if op_matches(op, "drop") {
        Opcode::Drop
    } else if op_matches(op, "shr") {
        Opcode::Shr
    } else if op_matches(op, "shl") {
        Opcode::Shl
    } else if op_matches(op, "eq") {
        Opcode::EqOp
    } else if op_matches(op, "or") {
        Opcode::Or
    } else if op_matches(op, "and") {
        Opcode::And
    } else if op_matches(op, "xor") {
        Opcode::Xor
    } else if op_matches(op, "not") {
        Opcode::Not
    } else if op_matches(op, ">") {
        Opcode::Gt
    } else if op_matches(op, "<") {
        Opcode::Lt
    } else if op_matches(op, ">=") {
        Opcode::Ge
    } else if op_matches(op, "<=") {
        Opcode::Le
    } else if op_matches(op, "dup") {
        Opcode::Dup
    } else if op_matches(op, "print") {
        Opcode::Print
    } else if op_matches(op, "printc") {
        Opcode::Printc
    } else if op_matches(op, "read") {
        Opcode::Read
    } else if op_matches(op, "readc") {
        Opcode::Readc
    } else if op_matches(op, "trace") {
        Opcode::Trace
    } else if op_matches(op, "jmp") {
        Opcode::Jmp
    } else if op_matches(op, "jmpif") {
        Opcode::Jmpif
    } else if op_matches(op, "exit") {
        Opcode::Exit
    } else if op_matches(op, "label") {
        Opcode::LabelMark
    } else {
        Opcode::Operand
    }
}

/// Computes a two-operand opcode's value.
fn exec_binop_val(k: Opcode, a: i64, b: i64) -> (v: i64)
    requires
        is_binop_kind(k),
    ensures
        v == binop_val(k, a, b),
{
    match k {
        Opcode::Add => a.wrapping_add(b),
        Opcode::Sub => b.wrapping_sub(a),
        Opcode::Shr => b.wrapping_shr(a as u32),
        Opcode::Shl => b.wrapping_shl(a as u32),
        Opcode::EqOp => if a == b {
            1
        } else {
            0
        },
        Opcode::Or => a | b,
        Opcode::And => a & b,
        Opcode::Xor => a ^ b,
        Opcode::Gt => if a > b {
            1
        } else {
            0
        },
        Opcode::Lt => if a < b {
            1
        } else {
            0
        },
        Opcode::Ge => if a >= b {
            1
        } else {
            0
        },
        _ => if a <= b {
            1
        } else {
            0
        },
    }
}

impl VM {
    /// A fresh machine: empty program, empty label table, empty store,
    /// pointer at zero, ready to run.
    pub fn new() -> (vm: VM)
        ensures
            vm@ == (StateV {
                ip: 0,
                program: Seq::empty(),
                labels: Seq::empty(),
                data: Seq::empty(),
                status: Status::Running,
            }),
    {
        let vm = VM {
            ip: 0,
            program: Vec::new(),
            labels: Vec::new(),
            data: VecDeque::new(),
            status: Status::Running,
        };
        proof {
            assert(vm@.program =~= Seq::<InstrV>::empty());
            assert(vm@.labels =~= Seq::<(Seq<char>, i64)>::empty());
            assert(vm@ =~= (StateV {
                ip: 0,
                program: Seq::empty(),
                labels: Seq::empty(),
                data: Seq::empty(),
                status: Status::Running,
            }));
        }
        vm
    }

    /// Pushes a value on the given end of the store.
    pub fn push(&mut self, dir: &Direction, val: i64)
        ensures
            final(self)@ == (StateV { data: pushed(old(self)@.data, *dir, val), ..old(self)@ }),
    {
        match dir {
            Direction::Left => self.data.push_front(val),
            Direction::Right => self.data.push_back(val),
        }
    }

    /// Pops the top value of the given end, or reports underflow on an
    /// empty store, leaving the machine unchanged.
    pub fn pop(&mut self, dir: &Direction) -> (r: Result<i64, VmError>)
        ensures
            old(self)@.data.len() == 0 ==> r == Err::<i64, VmError>(VmError::StackUnderflow)
                && final(self)@ == old(self)@,
            old(self)@.data.len() > 0 ==> r == Ok::<i64, VmError>(front(old(self)@.data, *dir))
                && final(self)@ == (StateV { data: popped(old(self)@.data, *dir), ..old(self)@ }),
    {
        let v = match dir {
            Direction::Left => self.data.pop_front(),
            Direction::Right => self.data.pop_back(),
        };
        match v {
            Some(x) => Ok(x),
            None => Err(VmError::StackUnderflow),
        }
    }

    /// Runs a two-operand opcode against the given end: pops `a` then `b`,
    /// pushes the opcode's value back. Underflow leaves the machine
    /// unchanged.
    fn binop(&mut self, dir: &Direction, k: Opcode) -> (r: Result<(), VmError>)
        requires
            is_binop_kind(k),
        ensures
            old(self)@.data.len() < 2 ==> r == Err::<(), VmError>(VmError::StackUnderflow)
                && final(self)@ == old(self)@,
            old(self)@.data.len() >= 2 ==> r == Ok::<(), VmError>(()) && final(self)@ == (StateV {
                data: binop_result(old(self)@.data, *dir, k),
                ..old(self)@
            }),
    {
        if self.data.len() < 2 {
            return Err(VmError::StackUnderflow);
        }
        let a = self.pop(dir).unwrap();
        let b = self.pop(dir).unwrap();
        let v = exec_binop_val(k, a, b);
        self.push(dir, v);
        Ok(())
    }

    /// `add`: pops `a` and `b`, pushes their wrapping sum.
    pub fn add(&mut self, dir: &Direction) -> (r: Result<(), VmError>)
        ensures
            old(self)@.data.len() < 2 ==> r == Err::<(), VmError>(VmError::StackUnderflow)
                && final(self)@ == old(self)@,
            old(self)@.data.len() >= 2 ==> r == Ok::<(), VmError>(()) && final(self)@ == (StateV {
                data: binop_result(old(self)@.data, *dir, Opcode::Add),
                ..old(self)@
            }),
    {
        self.binop(dir, Opcode::Add)
    }

    /// `sub`: pops `a` and `b`, pushes `b - a` (wrapping); the first pop is
    /// the subtrahend.
    pub fn sub(&mut self, dir: &Direction) -> (r: Result<(), VmError>)
        ensures
            old(self)@.data.len() < 2 ==> r == Err::<(), VmError>(VmError::StackUnderflow)
                && final(self)@ == old(self)@,
            old(self)@.data.len() >= 2 ==> r == Ok::<(), VmError>(()) && final(self)@ == (StateV {
                data: binop_result(old(self)@.data, *dir, Opcode::Sub),
                ..old(self)@
            }),
    {
        self.binop(dir, Opcode::Sub)
    }

    /// `shr`: pops `a` and `b`, pushes `b` shifted right by `a`.
    pub fn shr(&mut self, dir: &Direction) -> (r: Result<(), VmError>)
        ensures
            old(self)@.data.len() < 2 ==> r == Err::<(), VmError>(VmError::StackUnderflow)
                && final(self)@ == old(self)@,
            old(self)@.data.len() >= 2 ==> r == Ok::<(), VmError>(()) && final(self)@ == (StateV {
                data: binop_result(old(self)@.data, *dir, Opcode::Shr),
                ..old(self)@
            }),
    {
        self.binop(dir, Opcode::Shr)
    }

    /// `shl`: pops `a` and `b`, pushes `b` shifted left by `a`.
    pub fn shl(&mut self, dir: &Direction) -> (r: Result<(), VmError>)
        ensures
            old(self)@.data.len() < 2 ==> r == Err::<(), VmError>(VmError::StackUnderflow)
                && final(self)@ == old(self)@,
            old(self)@.data.len() >= 2 ==> r == Ok::<(), VmError>(()) && final(self)@ == (StateV {
                data: binop_result(old(self)@.data, *dir, Opcode::Shl),
                ..old(self)@
            }),
    {
        self.binop(dir, Opcode::Shl)
    }

    /// `eq`: pops `a` and `b`, pushes one if they are equal, else zero.
    pub fn eq(&mut self, dir: &Direction) -> (r: Result<(), VmError>)
        ensures
            old(self)@.data.len() < 2 ==> r == Err::<(), VmError>(VmError::StackUnderflow)
                && final(self)@ == old(self)@,
            old(self)@.data.len() >= 2 ==> r == Ok::<(), VmError>(()) && final(self)@ == (StateV {
                data: binop_result(old(self)@.data, *dir, Opcode::EqOp),
                ..old(self)@
            }),
    {
        self.binop(dir, Opcode::EqOp)
    }

    /// `or`: pops `a` and `b`, pushes their bitwise or.
    pub fn or(&mut self, dir: &Direction) -> (r: Result<(), VmError>)
        ensures
            old(self)@.data.len() < 2 ==> r == Err::<(), VmError>(VmError::StackUnderflow)
                && final(self)@ == old(self)@,
            old(self)@.data.len() >= 2 ==> r == Ok::<(), VmError>(()) && final(self)@ == (StateV {
                data: binop_result(old(self)@.data, *dir, Opcode::Or),
                ..old(self)@
            }),
    {
        self.binop(dir, Opcode::Or)
    }

    /// `and`: pops `a` and `b`, pushes their bitwise and.
    pub fn and(&mut self, dir: &Direction) -> (r: Result<(), VmError>)
        ensures
            old(self)@.data.len() < 2 ==> r == Err::<(), VmError>(VmError::StackUnderflow)
                && final(self)@ == old(self)@,
            old(self)@.data.len() >= 2 ==> r == Ok::<(), VmError>(()) && final(self)@ == (StateV {
                data: binop_result(old(self)@.data, *dir, Opcode::And),
                ..old(self)@
            }),
    {
        self.binop(dir, Opcode::And)
    }

    /// `xor`: pops `a` and `b`, pushes their bitwise exclusive or.
    pub fn xor(&mut self, dir: &Direction) -> (r: Result<(), VmError>)
        ensures
            old(self)@.data.len() < 2 ==> r == Err::<(), VmError>(VmError::StackUnderflow)
                && final(self)@ == old(self)@,
            old(self)@.data.len() >= 2 ==> r == Ok::<(), VmError>(()) && final(self)@ == (StateV {
                data: binop_result(old(self)@.data, *dir, Opcode::Xor),
                ..old(self)@
            }),
    {
        self.binop(dir, Opcode::Xor)
    }

    /// `>`: pops `a` and `b`, pushes one if `a > b`, else zero.
    pub fn greater(&mut self, dir: &Direction) -> (r: Result<(), VmError>)
        ensures
            old(self)@.data.len() < 2 ==> r == Err::<(), VmError>(VmError::StackUnderflow)
                && final(self)@ == old(self)@,
            old(self)@.data.len() >= 2 ==> r == Ok::<(), VmError>(()) && final(self)@ == (StateV {
                data: binop_result(old(self)@.data, *dir, Opcode::Gt),
                ..old(self)@
            }),
    {
        self.binop(dir, Opcode::Gt)
    }

    /// `<`: pops `a` and `b`, pushes one if `a < b`, else zero.
    pub fn less(&mut self, dir: &Direction) -> (r: Result<(), VmError>)
        ensures
            old(self)@.data.len() < 2 ==> r == Err::<(), VmError>(VmError::StackUnderflow)
                && final(self)@ == old(self)@,
            old(self)@.data.len() >= 2 ==> r == Ok::<(), VmError>(()) && final(self)@ == (StateV {
                data: binop_result(old(self)@.data, *dir, Opcode::Lt),
                ..old(self)@
            }),
    {
        self.binop(dir, Opcode::Lt)
    }

    /// `>=`: pops `a` and `b`, pushes one if `a >= b`, else zero.
    pub fn greater_eq(&mut self, dir: &Direction) -> (r: Result<(), VmError>)
        ensures
            old(self)@.data.len() < 2 ==> r == Err::<(), VmError>(VmError::StackUnderflow)
                && final(self)@ == old(self)@,
            old(self)@.data.len() >= 2 ==> r == Ok::<(), VmError>(()) && final(self)@ == (StateV {
                data: binop_result(old(self)@.data, *dir, Opcode::Ge),
                ..old(self)@
            }),
    {
        self.binop(dir, Opcode::Ge)
    }

    /// `<=`: pops `a` and `b`, pushes one if `a <= b`, else zero.
    pub fn less_eq(&mut self, dir: &Direction) -> (r: Result<(), VmError>)
        ensures
            old(self)@.data.len() < 2 ==> r == Err::<(), VmError>(VmError::StackUnderflow)
                && final(self)@ == old(self)@,
            old(self)@.data.len() >= 2 ==> r == Ok::<(), VmError>(()) && final(self)@ == (StateV {
                data: binop_result(old(self)@.data, *dir, Opcode::Le),
                ..old(self)@
            }),
    {
        self.binop(dir, Opcode::Le)
    }

    /// `swap`: exchanges the two topmost values of the given end.
    pub fn swap(&mut self, dir: &Direction) -> (r: Result<(), VmError>)
        ensures
            old(self)@.data.len() < 2 ==> r == Err::<(), VmError>(VmError::StackUnderflow)
                && final(self)@ == old(self)@,
            old(self)@.data.len() >= 2 ==> r == Ok::<(), VmError>(()) && final(self)@ == (StateV {
                data: swap_result(old(self)@.data, *dir),
                ..old(self)@
            }),
    {
        if self.data.len() < 2 {
            return Err(VmError::StackUnderflow);
        }
        let a = self.pop(dir).unwrap();
        let b = self.pop(dir).unwrap();
        self.push(dir, a);
        self.push(dir, b);
        Ok(())
    }

    /// `over`: duplicates the second-from-top value above the top.
    pub fn over(&mut self, dir: &Direction) -> (r: Result<(), VmError>)
        ensures
            old(self)@.data.len() < 2 ==> r == Err::<(), VmError>(VmError::StackUnderflow)
                && final(self)@ == old(self)@,
            old(self)@.data.len() >= 2 ==> r == Ok::<(), VmError>(()) && final(self)@ == (StateV {
                data: over_result(old(self)@.data, *dir),
                ..old(self)@
            }),
    {
        if self.data.len() < 2 {
            return Err(VmError::StackUnderflow);
        }
        let a = self.pop(dir).unwrap();
        let b = self.pop(dir).unwrap();
        self.push(dir, b);
        self.push(dir, a);
        self.push(dir, b);
        Ok(())
    }

    /// `drop`: discards the top value of the given end.
    pub fn drop(&mut self, dir: &Direction) -> (r: Result<(), VmError>)
        ensures
            old(self)@.data.len() == 0 ==> r == Err::<(), VmError>(VmError::StackUnderflow)
                && final(self)@ == old(self)@,
            old(self)@.data.len() > 0 ==> r == Ok::<(), VmError>(()) && final(self)@ == (StateV {
                data: popped(old(self)@.data, *dir),
                ..old(self)@
            }),
    {
        match self.pop(dir) {
            Ok(_) => Ok(()),
            Err(e) => Err(e),
        }
    }

    /// `dup`: duplicates the top value of the given end.
    pub fn dup(&mut self, dir: &Direction) -> (r: Result<(), VmError>)
        ensures
            old(self)@.data.len() == 0 ==> r == Err::<(), VmError>(VmError::StackUnderflow)
                && final(self)@ == old(self)@,
            old(self)@.data.len() > 0 ==> r == Ok::<(), VmError>(()) && final(self)@ == (StateV {
                data: dup_result(old(self)@.data, *dir),
                ..old(self)@
            }),
    {
        let a = match self.pop(dir) {
            Ok(v) => v,
            Err(e) => return Err(e),
        };
        self.push(dir, a);
        self.push(dir, a);
        Ok(())
    }

    /// `not`: replaces the top value of the given end by its bitwise
    /// complement.
    pub fn not(&mut self, dir: &Direction) -> (r: Result<(), VmError>)
        ensures
            old(self)@.data.len() == 0 ==> r == Err::<(), VmError>(VmError::StackUnderflow)
                && final(self)@ == old(self)@,
            old(self)@.data.len() > 0 ==> r == Ok::<(), VmError>(()) && final(self)@ == (StateV {
                data: pushed(
                    popped(old(self)@.data, *dir),
                    *dir,
                    !front(old(self)@.data, *dir),
                ),
                ..old(self)@
            }),
    {
        let a = match self.pop(dir) {
            Ok(v) => v,
            Err(e) => return Err(e),
        };
        self.push(dir, !a);
        Ok(())
    }

    /// `move`: pops the top value of the given end and pushes it on the
    /// opposite end, where it becomes the new top.
    pub fn move_(&mut self, dir: &Direction) -> (r: Result<(), VmError>)
        ensures
            old(self)@.data.len() == 0 ==> r == Err::<(), VmError>(VmError::StackUnderflow)
                && final(self)@ == old(self)@,
            old(self)@.data.len() > 0 ==> r == Ok::<(), VmError>(()) && final(self)@ == (StateV {
                data: pushed(
                    popped(old(self)@.data, *dir),
                    dir.spec_invert(),
                    front(old(self)@.data, *dir),
                ),
                ..old(self)@
            }),
    {
        let a = match self.pop(dir) {
            Ok(v) => v,
            Err(e) => return Err(e),
        };
        self.push(&dir.invert(), a);
        Ok(())
    }

    /// `jmp`: pops an address and sets the instruction pointer to it,
    /// whatever the rest of the store holds.
    pub fn jmp(&mut self, dir: &Direction) -> (r: Result<(), VmError>)
        ensures
            old(self)@.data.len() == 0 ==> r == Err::<(), VmError>(VmError::StackUnderflow)
                && final(self)@ == old(self)@,
            old(self)@.data.len() > 0 ==> r == Ok::<(), VmError>(()) && final(self)@ == (StateV {
                ip: front(old(self)@.data, *dir) as int,
                data: popped(old(self)@.data, *dir),
                ..old(self)@
            }),
    {
        let a = match self.pop(dir) {
            Ok(v) => v,
            Err(e) => return Err(e),
        };
        self.ip = a;
        Ok(())
    }

    /// `jmpif`: pops an address, then a condition; jumps to the address
    /// exactly when the condition is nonzero, and says whether it jumped.
    pub fn jmpif(&mut self, dir: &Direction) -> (r: Result<bool, VmError>)
        ensures
            old(self)@.data.len() < 2 ==> r == Err::<bool, VmError>(VmError::StackUnderflow)
                && final(self)@ == old(self)@,
            old(self)@.data.len() >= 2 ==> {
                let addr = front(old(self)@.data, *dir);
                let cond = front(popped(old(self)@.data, *dir), *dir);
                r == Ok::<bool, VmError>(cond != 0) && final(self)@ == (StateV {
                    ip: if cond != 0 { addr as int } else { old(self)@.ip },
                    data: popped(popped(old(self)@.data, *dir), *dir),
                    ..old(self)@
                })
            },
    {
        if self.data.len() < 2 {
            return Err(VmError::StackUnderflow);
        }
        let addr = self.pop(dir).unwrap();
        let cond = self.pop(dir).unwrap();
        if cond != 0 {
            self.ip = addr;
            return Ok(true);
        }
        Ok(false)
    }

    /// Number of values in the data store.
    pub fn data_len(&self) -> (n: usize)
        ensures
            n == self@.data.len(),
    {
        self.data.len()
    }

    /// The value at the given position of the store, counted from the left
    /// end.
    pub fn get(&self, i: usize) -> (r: Option<i64>)
        ensures
            i < self@.data.len() ==> r == Some(self@.data[i as int]),
            i >= self@.data.len() ==> r is None,
    {
        if i < self.data.len() {
            Some(self.data[i])
        } else {
            None
        }
    }

    /// The value a pop from the given end would return, without popping.
    pub fn peek(&self, dir: &Direction) -> (r: Option<i64>)
        ensures
            self@.data.len() > 0 ==> r == Some(front(self@.data, *dir)),
            self@.data.len() == 0 ==> r is None,
    {
        if self.data.len() == 0 {
            return None;
        }
        match dir {
            Direction::Left => Some(self.data[0]),
            Direction::Right => Some(self.data[self.data.len() - 1]),
        }
    }

    /// The instruction pointer.
    pub fn ip_value(&self) -> (r: i64)
        ensures
            r as int == self@.ip,
    {
        self.ip
    }

    /// What the machine is doing between steps.
    pub fn current_status(&self) -> (s: Status)
        ensures
            s == self@.status,
    {
        self.status
    }

    /// Number of loaded instructions.
    pub fn program_len(&self) -> (n: usize)
        ensures
            n == self@.program.len(),
    {
        self.program.len()
    }

    /// Tokenizes a program text, records each label definition's position,
    /// and compiles every token to an instruction; the token's position is
    /// its instruction address. Rejects the whole text, changing nothing,
    /// if any token is malformed.
    pub fn load_program(&mut self, program: String) -> (r: Result<(), VmError>)
        ensures
            match (r, spec_load(program@)) {
                (Ok(()), Ok(pl)) => final(self)@ == (StateV {
                    program: pl.0,
                    labels: old(self)@.labels + pl.1,
                    ..old(self)@
                }) && final(self)@.wf(),
                (Err(e1), Err(e2)) => e1 == e2 && final(self)@ == old(self)@,
                _ => false,
            },
    {
        let toks = tokenize_str(program.as_str());
        let ghost tv = str_views(toks@);
        proof {
            assert(tv == tokenize(program@));
        }
        let n = toks.len();
        if n as u64 > 0x7fff_ffff_ffff_ffffu64 {
            return Err(VmError::Parse);
        }
        let mut instrs: Vec<Instruction> = Vec::new();
        let mut labs: Vec<(String, i64)> = Vec::new();
        proof {
            assert(instrs@.map_values(|x: Instruction| x@) =~= tv.take(0).map_values(
                |t: Seq<char>| instr_of_token(t),
            ));
            assert(entries_view(labs@) =~= label_entries(tv.take(0)));
        }
        let mut i: usize = 0;
        while i < n
            invariant
                n == toks@.len(),
                i <= n,
                tv == str_views(toks@),
                tv == tokenize(program@),
                tv.len() == n,
                instrs@.map_values(|x: Instruction| x@) == tv.take(i as int).map_values(
                    |t: Seq<char>| instr_of_token(t),
                ),
                entries_view(labs@) == label_entries(tv.take(i as int)),
                forall|k: int| 0 <= k < i ==> token_ok(tv[k]),
                instrs@.len() == i,
                n <= i64::MAX,
            decreases n - i,
        {
            let ghost prior_instrs = instrs@;
            let ghost prior_labs = labs@;
            let t = toks[i].as_str();
            proof {
                assert(t@ == tv[i as int]);
            }
            let tn = t.unicode_len();
            if tn == 0 {
                proof {
                    assert(tv.len() == n);
                    assert(!token_ok(tv[i as int]));
                    if (forall|k: int|
                        0 <= k < tokenize(program@).len() ==> token_ok(tokenize(program@)[k])) {
                        assert(token_ok(tokenize(program@)[i as int]));
                        assert(false);
                    }
                }
                return Err(VmError::Parse);
            }
            let lastc = t.get_char(tn - 1);
            let firstc = t.get_char(0);
            if lastc == ':' {
                let name = t.substring_char(0, tn - 1).to_owned();
                labs.push((name, i as i64));
                instrs.push(Instruction { op: "label".to_owned(), direction: Direction::Left });
                proof {
                    assert(t@.drop_last() =~= t@.subrange(0, tn as int - 1));
                    assert(is_label_token(tv[i as int]));
                    assert(instrs@.last()@ =~= instr_of_token(tv[i as int]));
                    assert(labs@.last().0@ == label_name(tv[i as int]));
                }
            } else if firstc == '!' {
                let op = t.substring_char(1, tn).to_owned();
                instrs.push(Instruction { op, direction: Direction::Left });
                proof {
                    assert(t@.drop_first() =~= t@.subrange(1, tn as int));
                    assert(instrs@.last()@ =~= instr_of_token(tv[i as int]));
                }
            } else if lastc == '!' {
                let op = t.substring_char(0, tn - 1).to_owned();
                instrs.push(Instruction { op, direction: Direction::Right });
                proof {
                    assert(t@.take(tn as int - 1) =~= t@.subrange(0, tn as int - 1));
                    assert(instrs@.last()@ =~= instr_of_token(tv[i as int]));
                }
            } else {
                proof {
                    assert(tv.len() == n);
                    assert(!token_ok(tv[i as int]));
                    if (forall|k: int|
                        0 <= k < tokenize(program@).len() ==> token_ok(tokenize(program@)[k])) {
                        assert(token_ok(tokenize(program@)[i as int]));
                        assert(false);
                    }
                }
                return Err(VmError::Parse);
            }
            proof {
                let pre = tv.take(i as int + 1);
                let mp = pre.map_values(|q: Seq<char>| instr_of_token(q));
                assert(pre.drop_last() =~= tv.take(i as int));
                assert(pre.last() == tv[i as int]);
                assert(instrs@ == prior_instrs.push(instrs@.last()));
                assert forall|j: int| 0 <= j < i + 1 implies instrs@.map_values(
                    |x: Instruction| x@,
                )[j] == mp[j] by {
                    if j < i {
                        assert(instrs@[j] == prior_instrs[j]);
                        assert(prior_instrs.map_values(|x: Instruction| x@)[j] == tv.take(
                            i as int,
                        ).map_values(|q: Seq<char>| instr_of_token(q))[j]);
                        assert(tv.take(i as int)[j] == tv[j]);
                        assert(pre[j] == tv[j]);
                    } else {
                        assert(pre[j] == tv[i as int]);
                    }
                }
                assert(instrs@.map_values(|x: Instruction| x@) =~= mp);
                if is_label_token(tv[i as int]) {
                    lemma_entries_view_push(prior_labs, labs@.last());
                    assert(labs@ == prior_labs.push(labs@.last()));
                    assert((labs@.last().0@, labs@.last().1) == (
                        label_name(tv[i as int]),
                        (pre.len() - 1) as i64,
                    ));
                } else {
                    assert(labs@ == prior_labs);
                }
                assert(entries_view(labs@) =~= label_entries(pre));
            }
            i += 1;
        }
        proof {
            assert(tv.take(n as int) =~= tv);
        }
        let ghost old_labels = self.labels@;
        let ghost new_labs = labs@;
        self.program = instrs;
        self.labels.append(&mut labs);
        proof {
            lemma_entries_view_concat(old_labels, new_labs);
            assert(final(self)@ =~= (StateV {
                program: tv.map_values(|q: Seq<char>| instr_of_token(q)),
                labels: old(self)@.labels + label_entries(tv),
                ..old(self)@
            }));
        }
        Ok(())
    }

    /// Fetches and executes one instruction: the fetch-decode-execute core.
    /// Control-flow opcodes set the pointer themselves; every other opcode
    /// advances it by one. A waiting machine repeats its input request and a
    /// halted machine reports the halt; failures leave the machine unchanged.
    #[verifier::rlimit(100)]
    pub fn step(&mut self) -> (r: Result<Effect, VmError>)
        requires
            old(self)@.wf(),
        ensures
            final(self)@.wf(),
            final(self)@.program == old(self)@.program,
            final(self)@.labels == old(self)@.labels,
            match (r, spec_step(old(self)@)) {
                (Ok(eff), Ok(sr)) => final(self)@ == sr.state && eff@ == sr.effect,
                (Err(e1), Err(e2)) => e1 == e2 && final(self)@ == old(self)@,
                _ => false,
            },
    {
        match self.status {
            Status::Halted => Ok(Effect::Halt),
            Status::WantInt(_) => Ok(Effect::NeedInt),
            Status::WantChar(_) => Ok(Effect::NeedChar),
            Status::Running => {
                if self.ip < 0 {
                    return Err(VmError::InvalidAddress);
                }
                if self.ip as u64 >= self.program.len() as u64 {
                    self.status = Status::Halted;
                    return Ok(Effect::Halt);
                }
                let ipu = self.ip as usize;
                let op = self.program[ipu].op.clone();
                let dir = self.program[ipu].direction;
                proof {
                    assert(old(self)@.program[old(self)@.ip] == (InstrV {
                        op: op@,
                        direction: dir,
                    }));
                }
                self.run_instr(&op, dir)
            },
        }
    }

    /// Executes one fetched instruction against the machine, given its
    /// operation name and end.
    #[verifier::rlimit(100)]
    fn run_instr(&mut self, op: &String, dir: Direction) -> (r: Result<Effect, VmError>)
        requires
            old(self)@.status == Status::Running,
            0 <= old(self)@.ip < old(self)@.program.len() <= i64::MAX,
        ensures
            final(self)@.program == old(self)@.program,
            final(self)@.labels == old(self)@.labels,
            match (r, spec_instr(old(self)@, op@, dir)) {
                (Ok(eff), Ok(sr)) => final(self)@ == sr.state && eff@ == sr.effect,
                (Err(e1), Err(e2)) => e1 == e2 && final(self)@ == old(self)@,
                _ => false,
            },
    {
                let k = decode_op(op);
                match k {
                    Opcode::Add | Opcode::Sub | Opcode::Shr | Opcode::Shl | Opcode::EqOp
                        | Opcode::Or | Opcode::And | Opcode::Xor | Opcode::Gt | Opcode::Lt
                        | Opcode::Ge | Opcode::Le => {
                        match self.binop(&dir, k) {
                            Ok(()) => {
                                self.ip = self.ip + 1;
                                Ok(Effect::Quiet)
                            },
                            Err(e) => Err(e),
                        }
                    },
                    Opcode::Swap => match self.swap(&dir) {
                        Ok(()) => {
                            self.ip = self.ip + 1;
                            Ok(Effect::Quiet)
                        },
                        Err(e) => Err(e),
                    },
                    Opcode::Over => match self.over(&dir) {
                        Ok(()) => {
                            self.ip = self.ip + 1;
                            Ok(Effect::Quiet)
                        },
                        Err(e) => Err(e),
                    },
                    Opcode::Move => match self.move_(&dir) {
                        Ok(()) => {
                            self.ip = self.ip + 1;
                            Ok(Effect::Quiet)
                        },
                        Err(e) => Err(e),
                    },
                    Opcode::Drop => match self.drop(&dir) {
                        Ok(()) => {
                            self.ip = self.ip + 1;
                            Ok(Effect::Quiet)
                        },
                        Err(e) => Err(e),
                    },
                    Opcode::Dup => match self.dup(&dir) {
                        Ok(()) => {
                            self.ip = self.ip + 1;
                            Ok(Effect::Quiet)
                        },
                        Err(e) => Err(e),
                    },
                    Opcode::Not => match self.not(&dir) {
                        Ok(()) => {
                            self.ip = self.ip + 1;
                            Ok(Effect::Quiet)
                        },
                        Err(e) => Err(e),
                    },
                    Opcode::Print => match self.pop(&dir) {
                        Ok(a) => {
                            self.ip = self.ip + 1;
                            Ok(Effect::Print(a))
                        },
                        Err(e) => Err(e),
                    },
                    Opcode::Printc => match self.pop(&dir) {
                        Ok(a) => {
                            self.ip = self.ip + 1;
                            Ok(Effect::PrintChar(a as u8))
                        },
                        Err(e) => Err(e),
                    },
                    Opcode::Read => {
                        self.status = Status::WantInt(dir);
                        self.ip = self.ip + 1;
                        Ok(Effect::NeedInt)
                    },
                    Opcode::Readc => {
                        self.status = Status::WantChar(dir);
                        self.ip = self.ip + 1;
                        Ok(Effect::NeedChar)
                    },
                    Opcode::Trace => {
                        let g = glyphs_of(&self.data);
                        self.ip = self.ip + 1;
                        Ok(Effect::Trace(g))
                    },
                    Opcode::Jmp => match self.jmp(&dir) {
                        Ok(()) => Ok(Effect::Quiet),
                        Err(e) => Err(e),
                    },
                    Opcode::Jmpif => match self.jmpif(&dir) {
                        Ok(taken) => {
                            if !taken {
                                self.ip = self.ip + 1;
                            }
                            Ok(Effect::Quiet)
                        },
                        Err(e) => Err(e),
                    },
                    Opcode::Exit => {
                        if self.data.len() == 0 {
                            return Err(VmError::StackUnderflow);
                        }
                        let code = match dir {
                            Direction::Left => self.data[0],
                            Direction::Right => self.data[self.data.len() - 1],
                        };
                        if code != 0 {
                            return Err(VmError::RuntimeExit(code));
                        }
                        let popped_code = self.pop(&dir);
                        proof {
                            assert(popped_code is Ok);
                        }
                        self.ip = self.ip + 1;
                        self.status = Status::Halted;
                        Ok(Effect::Halt)
                    },
                    Opcode::LabelMark => {
                        self.ip = self.ip + 1;
                        Ok(Effect::Quiet)
                    },
                    Opcode::Operand => {
                        match parse_i64(op.as_str()) {
                            Some(v) => {
                                self.push(&dir, v);
                                self.ip = self.ip + 1;
                                Ok(Effect::Quiet)
                            },
                            None => {
                                match lookup_label(&self.labels, op.as_str()) {
                                    Some(addr) => {
                                        self.push(&dir, addr);
                                        self.ip = self.ip + 1;
                                        Ok(Effect::Quiet)
                                    },
                                    None => Err(VmError::UnknownLabel),
                                }
                            },
                        }
                    },
                }
    }

    /// Answers a pending `read`: trims the line, parses it as a base-10
    /// integer, and pushes it on the end the `read` named. An unparseable
    /// line is a failure that leaves the machine waiting.
    pub fn provide_int(&mut self, line: &str) -> (r: Result<(), VmError>)
        requires
            old(self)@.status matches Status::WantInt(_),
        ensures
            match old(self)@.status {
                Status::WantInt(d) => match r {
                    Ok(()) => parses_to_i64(trim_spec(line@)) && final(self)@ == (StateV {
                        data: pushed(old(self)@.data, d, int_val(trim_spec(line@)) as i64),
                        status: Status::Running,
                        ..old(self)@
                    }),
                    Err(e) => e == VmError::NonIntegerInput && !parses_to_i64(trim_spec(line@))
                        && final(self)@ == old(self)@,
                },
                _ => false,
            },
    {
        let d = match self.status {
            Status::WantInt(dd) => dd,
            _ => {
                proof {
                    assert(false);
                }
                Direction::Left
            },
        };
        let t = trim(line);
        match parse_i64(t) {
            Some(v) => {
                self.push(&d, v);
                self.status = Status::Running;
                Ok(())
            },
            None => Err(VmError::NonIntegerInput),
        }
    }

    /// Answers a pending `readc`: pushes the code of the trimmed line's
    /// first character, or a space's code for an empty line.
    pub fn provide_char(&mut self, line: &str)
        requires
            old(self)@.status matches Status::WantChar(_),
        ensures
            match old(self)@.status {
                Status::WantChar(d) => final(self)@ == (StateV {
                    data: pushed(old(self)@.data, d, first_char_code(trim_spec(line@))),
                    status: Status::Running,
                    ..old(self)@
                }),
                _ => false,
            },
    {
        let d = match self.status {
            Status::WantChar(dd) => dd,
            _ => {
                proof {
                    assert(false);
                }
                Direction::Left
            },
        };
        let t = trim(line);
        let c = if t.unicode_len() == 0 {
            ' '
        } else {
            t.get_char(0)
        };
        self.push(&d, c as i64);
        self.status = Status::Running;
    }
}

/// Outcome of one successful step: the next state and what the driver must
/// do.
#[verifier::ext_equal]
pub ghost struct StepResV {
    pub state: StateV,
    pub effect: EffV,
}

/// The transition relation of one instruction, given its operation name and
/// end. `a` is the first pop, `b` the second.
pub open spec fn spec_instr(st: StateV, op: Seq<char>, d: Direction) -> Result<
    StepResV,
    VmError,
> {
    let k = spec_opcode(op);
    match k {
        Opcode::Add | Opcode::Sub | Opcode::Shr | Opcode::Shl | Opcode::EqOp | Opcode::Or
            | Opcode::And | Opcode::Xor | Opcode::Gt | Opcode::Lt | Opcode::Ge | Opcode::Le => {
            if st.data.len() < 2 {
                Err(VmError::StackUnderflow)
            } else {
                Ok(
                    StepResV {
                        state: StateV { ip: st.ip + 1, data: binop_result(st.data, d, k), ..st },
                        effect: EffV::Quiet,
                    },
                )
            }
        },
        Opcode::Swap => if st.data.len() < 2 {
            Err(VmError::StackUnderflow)
        } else {
            Ok(
                StepResV {
                    state: StateV { ip: st.ip + 1, data: swap_result(st.data, d), ..st },
                    effect: EffV::Quiet,
                },
            )
        },
        Opcode::Over => if st.data.len() < 2 {
            Err(VmError::StackUnderflow)
        } else {
            Ok(
                StepResV {
                    state: StateV { ip: st.ip + 1, data: over_result(st.data, d), ..st },
                    effect: EffV::Quiet,
                },
            )
        },
        Opcode::Move => if st.data.len() == 0 {
            Err(VmError::StackUnderflow)
        } else {
            Ok(
                StepResV {
                    state: StateV {
                        ip: st.ip + 1,
                        data: pushed(popped(st.data, d), d.spec_invert(), front(st.data, d)),
                        ..st
                    },
                    effect: EffV::Quiet,
                },
            )
        },
        Opcode::Drop => if st.data.len() == 0 {
            Err(VmError::StackUnderflow)
        } else {
            Ok(
                StepResV {
                    state: StateV { ip: st.ip + 1, data: popped(st.data, d), ..st },
                    effect: EffV::Quiet,
                },
            )
        },
        Opcode::Dup => if st.data.len() == 0 {
            Err(VmError::StackUnderflow)
        } else {
            Ok(
                StepResV {
                    state: StateV { ip: st.ip + 1, data: dup_result(st.data, d), ..st },
                    effect: EffV::Quiet,
                },
            )
        },
        Opcode::Not => if st.data.len() == 0 {
            Err(VmError::StackUnderflow)
        } else {
            Ok(
                StepResV {
                    state: StateV {
                        ip: st.ip + 1,
                        data: pushed(popped(st.data, d), d, !front(st.data, d)),
                        ..st
                    },
                    effect: EffV::Quiet,
                },
            )
        },
        Opcode::Print => if st.data.len() == 0 {
            Err(VmError::StackUnderflow)
        } else {
            Ok(
                StepResV {
                    state: StateV { ip: st.ip + 1, data: popped(st.data, d), ..st },
                    effect: EffV::Print(front(st.data, d)),
                },
            )
        },
        Opcode::Printc => if st.data.len() == 0 {
            Err(VmError::StackUnderflow)
        } else {
            Ok(
                StepResV {
                    state: StateV { ip: st.ip + 1, data: popped(st.data, d), ..st },
                    effect: EffV::PrintChar(front(st.data, d) as u8),
                },
            )
        },
        Opcode::Read => Ok(
            StepResV {
                state: StateV { ip: st.ip + 1, status: Status::WantInt(d), ..st },
                effect: EffV::NeedInt,
            },
        ),
        Opcode::Readc => Ok(
            StepResV {
                state: StateV { ip: st.ip + 1, status: Status::WantChar(d), ..st },
                effect: EffV::NeedChar,
            },
        ),
        Opcode::Trace => Ok(
            StepResV {
                state: StateV { ip: st.ip + 1, ..st },
                effect: EffV::Trace(trace_glyphs(st.data)),
            },
        ),
        Opcode::Jmp => if st.data.len() == 0 {
            Err(VmError::StackUnderflow)
        } else {
            Ok(
                StepResV {
                    state: StateV {
                        ip: front(st.data, d) as int,
                        data: popped(st.data, d),
                        ..st
                    },
                    effect: EffV::Quiet,
                },
            )
        },
        Opcode::Jmpif => if st.data.len() < 2 {
            Err(VmError::StackUnderflow)
        } else {
            let addr = front(st.data, d);
            let cond = front(popped(st.data, d), d);
            Ok(
                StepResV {
                    state: StateV {
                        ip: if cond != 0 { addr as int } else { st.ip + 1 },
                        data: popped(popped(st.data, d), d),
                        ..st
                    },
                    effect: EffV::Quiet,
                },
            )
        },
        Opcode::Exit => if st.data.len() == 0 {
            Err(VmError::StackUnderflow)
        } else if front(st.data, d) != 0 {
            Err(VmError::RuntimeExit(front(st.data, d)))
        } else {
            Ok(
                StepResV {
                    state: StateV {
                        ip: st.ip + 1,
                        data: popped(st.data, d),
                        status: Status::Halted,
                        ..st
                    },
                    effect: EffV::Halt,
                },
            )
        },
        Opcode::LabelMark => Ok(
            StepResV { state: StateV { ip: st.ip + 1, ..st }, effect: EffV::Quiet },
        ),
        Opcode::Operand => if parses_to_i64(op) {
            Ok(
                StepResV {
                    state: StateV {
                        ip: st.ip + 1,
                        data: pushed(st.data, d, int_val(op) as i64),
                        ..st
                    },
                    effect: EffV::Quiet,
                },
            )
        } else {
            match lookup_ci(st.labels, op) {
                Some(addr) => Ok(
                    StepResV {
                        state: StateV { ip: st.ip + 1, data: pushed(st.data, d, addr), ..st },
                        effect: EffV::Quiet,
                    },
                ),
                None => Err(VmError::UnknownLabel),
            }
        },
    }
}

/// The transition relation of one whole step: waiting and halted machines
/// repeat their request; a running machine fetches and executes one
/// instruction, or halts when the pointer has passed the program.
pub open spec fn spec_step(st: StateV) -> Result<StepResV, VmError> {
    match st.status {
        Status::Halted => Ok(StepResV { state: st, effect: EffV::Halt }),
        Status::WantInt(_) => Ok(StepResV { state: st, effect: EffV::NeedInt }),
        Status::WantChar(_) => Ok(StepResV { state: st, effect: EffV::NeedChar }),
        Status::Running => {
            if st.ip < 0 {
                Err(VmError::InvalidAddress)
            } else if st.ip >= st.program.len() {
                Ok(
                    StepResV {
                        state: StateV { status: Status::Halted, ..st },
                        effect: EffV::Halt,
                    },
                )
            } else {
                let inst = st.program[st.ip];
                spec_instr(st, inst.op, inst.direction)
            }
        },
    }
}

/// What the loader makes of a program text: the instruction sequence and the
/// label entries, or a parse failure if any token is malformed (or the
/// program cannot be addressed by a 64-bit pointer).
pub open spec fn spec_load(text: Seq<char>) -> Result<
    (Seq<InstrV>, Seq<(Seq<char>, i64)>),
    VmError,
> {
    let toks = tokenize(text);
    if !(forall|i: int| 0 <= i < toks.len() ==> token_ok(toks[i])) {
        Err(VmError::Parse)
    } else if toks.len() > i64::MAX {
        Err(VmError::Parse)
    } else {
        Ok((toks.map_values(|t: Seq<char>| instr_of_token(t)), label_entries(toks)))
    }
}

/// The value `readc` pushes for a trimmed input line: the first character's
/// code, or a space's code if the line is empty.
pub open spec fn first_char_code(t: Seq<char>) -> i64 {
    (if t.len() == 0 { ' ' } else { t[0] }) as i64
}

/// Builds the glyph line `trace` emits.
fn glyphs_of(data: &VecDeque<i64>) -> (g: Vec<char>)
    ensures
        g@ == trace_glyphs(data@),
{
    let mut g: Vec<char> = Vec::new();
    let n = data.len();
    let mut i: usize = 0;
    while i < n
        invariant
            n == data@.len(),
            i <= n,
            g@.len() == i,
            forall|k: int| 0 <= k < i ==> g@[k] == (if data@[k] == 1i64 { '*' } else { ' ' }),
        decreases n - i,
    {
        let v = data[i];
        g.push(if v == 1 { '*' } else { ' ' });
        i += 1;
    }
    proof {
        assert(g@ =~= trace_glyphs(data@));
    }
    g
}

/// The store after `swap` runs against the given end.
pub open spec fn swap_result(data: Seq<i64>, d: Direction) -> Seq<i64> {
    pushed(
        pushed(popped(popped(data, d), d), d, front(data, d)),
        d,
        front(popped(data, d), d),
    )
}

/// The store after `over` runs against the given end.
pub open spec fn over_result(data: Seq<i64>, d: Direction) -> Seq<i64> {
    let a = front(data, d);
    let b = front(popped(data, d), d);
    pushed(pushed(pushed(popped(popped(data, d), d), d, b), d, a), d, b)
}

/// The store after `dup` runs against the given end.
pub open spec fn dup_result(data: Seq<i64>, d: Direction) -> Seq<i64> {
    pushed(pushed(popped(data, d), d, front(data, d)), d, front(data, d))
}

} // verus!
