//! The general laws of the machine, each proved once and for all states:
//! stack discipline per end, the shape of `dup`, `swap` and `move`, and the
//! control-flow behaviour of `jmp` and `jmpif`.

use vstd::prelude::*;
use crate::direction::Direction;
use crate::error::VmError;
use crate::instr::{instr_of_token, is_label_token, label_name, token_ok, InstrV};
use crate::vm::{
    dup_result, front, popped, pushed, spec_instr, spec_opcode, swap_result, EffV, Opcode,
    StateV, StepResV,
};

verus! {

/// The token an instruction re-serializes to: `!op` for the left end,
/// `op!` for the right end.
pub open spec fn render_instr(inst: InstrV) -> Seq<char> {
    if inst.direction == Direction::Left {
        seq!['!'] + inst.op
    } else {
        inst.op.push('!')
    }
}

/// The token a label definition re-serializes to: `name:`.
pub open spec fn render_label(name: Seq<char>) -> Seq<char> {
    name.push(':')
}

/// Round trip of one instruction token: re-serializing an instruction's
/// direction and operation yields a token the loader accepts, and loading
/// that token reconstructs the instruction exactly. The conditions are those
/// every loaded instruction satisfies: a left operation does not end in a
/// colon, a right operation is nonempty and does not start with a bang.
pub proof fn lemma_instr_token_round_trip(inst: InstrV)
    requires
        inst.direction == Direction::Left ==> inst.op.len() == 0 || inst.op.last() != ':',
        inst.direction == Direction::Right ==> inst.op.len() > 0 && inst.op[0] != '!',
    ensures
        token_ok(render_instr(inst)),
        instr_of_token(render_instr(inst)) == inst,
{
    let t = render_instr(inst);
    if inst.direction == Direction::Left {
        assert(t[0] == '!');
        assert(t.last() != ':');
        assert(!is_label_token(t));
        assert(t.drop_first() =~= inst.op);
        assert(instr_of_token(t) =~= inst);
    } else {
        assert(t.last() == '!');
        assert(!is_label_token(t));
        assert(t[0] == inst.op[0]);
        assert(t.take(t.len() - 1) =~= inst.op);
        assert(instr_of_token(t) =~= inst);
    }
}

/// Round trip of one label token: re-serializing a label definition yields a
/// token that defines the same name and compiles to the same no-op.
pub proof fn lemma_label_token_round_trip(name: Seq<char>)
    ensures
        is_label_token(render_label(name)),
        label_name(render_label(name)) == name,
        instr_of_token(render_label(name)) == (InstrV {
            op: "label"@,
            direction: Direction::Left,
        }),
{
    assert(render_label(name).drop_last() =~= name);
    assert(instr_of_token(render_label(name)) =~= (InstrV {
        op: "label"@,
        direction: Direction::Left,
    }));
}

/// Each end is a stack: the most recently pushed value is the first popped
/// from that end, and popping it restores the store. Applied push by push,
/// this covers every sequence of pushes to one end.
pub proof fn lemma_push_pop_lifo(data: Seq<i64>, d: Direction, v: i64)
    ensures
        pushed(data, d, v).len() == data.len() + 1,
        front(pushed(data, d, v), d) == v,
        popped(pushed(data, d, v), d) == data,
{
    if d == Direction::Left {
        assert(popped(pushed(data, d, v), d) =~= data);
    } else {
        assert(popped(pushed(data, d, v), d) =~= data);
    }
}

/// `dup` adds one element: the top of the worked end keeps its value, the
/// two topmost elements of that end are equal, and the rest is untouched.
pub proof fn lemma_dup_top(data: Seq<i64>, d: Direction)
    requires
        data.len() > 0,
    ensures
        dup_result(data, d) == pushed(data, d, front(data, d)),
        dup_result(data, d).len() == data.len() + 1,
        front(dup_result(data, d), d) == front(data, d),
        front(popped(dup_result(data, d), d), d) == front(data, d),
{
    assert(dup_result(data, d) =~= pushed(data, d, front(data, d)));
    lemma_push_pop_lifo(data, d, front(data, d));
}

/// Swapping the top two values of one end twice restores the original
/// ordering exactly.
pub proof fn lemma_swap_involution(data: Seq<i64>, d: Direction)
    requires
        data.len() >= 2,
    ensures
        swap_result(swap_result(data, d), d) == data,
{
    assert(swap_result(swap_result(data, d), d) =~= data);
}

/// `move` removes the top element of the worked end, and that element
/// becomes the new top of the opposite end; nothing else changes.
pub proof fn lemma_move_top(data: Seq<i64>, d: Direction)
    requires
        data.len() > 0,
    ensures
        ({
            let moved = pushed(popped(data, d), d.spec_invert(), front(data, d));
            &&& moved.len() == data.len()
            &&& front(moved, d.spec_invert()) == front(data, d)
            &&& popped(moved, d.spec_invert()) == popped(data, d)
        }),
{
    lemma_push_pop_lifo(popped(data, d), d.spec_invert(), front(data, d));
}

/// `jmp` sets the instruction pointer to the popped address, whatever else
/// the data store holds and wherever the pointer stood.
pub proof fn lemma_jmp_sets_ip(st: StateV, op: Seq<char>, d: Direction)
    requires
        spec_opcode(op) == Opcode::Jmp,
        st.data.len() > 0,
    ensures
        spec_instr(st, op, d) == Ok::<StepResV, VmError>(
            StepResV {
                state: StateV {
                    ip: front(st.data, d) as int,
                    data: popped(st.data, d),
                    ..st
                },
                effect: EffV::Quiet,
            },
        ),
{
}

/// `jmpif` pops an address, then a condition, and jumps to the address
/// exactly when the condition is nonzero; otherwise the pointer falls
/// through to the next instruction.
pub proof fn lemma_jmpif_branch(st: StateV, op: Seq<char>, d: Direction)
    requires
        spec_opcode(op) == Opcode::Jmpif,
        st.data.len() >= 2,
    ensures
        ({
            let addr = front(st.data, d);
            let cond = front(popped(st.data, d), d);
            spec_instr(st, op, d) == Ok::<StepResV, VmError>(
                StepResV {
                    state: StateV {
                        ip: if cond != 0 { addr as int } else { st.ip + 1 },
                        data: popped(popped(st.data, d), d),
                        ..st
                    },
                    effect: EffV::Quiet,
                },
            )
        }),
{
}

} // verus!
