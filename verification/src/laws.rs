//! Properties of the interpreter that span instructions and operations.

use crate::frame::{grid_set, is_frame};
use crate::keyboard::{apply_key_event, hex_of, ACKey, KeyEvent};
use crate::machine::{
    alu_regs, apply_op, bcd_store, exec_spec, lemma_exec_keeps_wf, op_code, op_n, op_nn, op_x,
    oper_ok, tick_spec, EmuState, MachineOp,
};
use vstd::prelude::*;

verus! {

/// XORing the same value into the same pixel twice leaves the frame as it was.
pub proof fn lemma_xor_twice_restores(g: Seq<Seq<bool>>, row: int, col: int, p: bool)
    requires
        is_frame(g),
        0 <= row < 32,
        0 <= col < 64,
    ensures
        ({
            let g1 = grid_set(g, row, col, g[row][col] != p);
            grid_set(g1, row, col, g1[row][col] != p)
        }) == g,
{
    let g1 = grid_set(g, row, col, g[row][col] != p);
    let g2 = grid_set(g1, row, col, g1[row][col] != p);
    assert forall|r: int| 0 <= r < 32 implies #[trigger] g2[r] =~= g[r] by {}
    assert(g2 =~= g);
}

/// Flipping the same pixel twice leaves the frame as it was.
pub proof fn lemma_flip_twice_restores(g: Seq<Seq<bool>>, row: int, col: int)
    requires
        is_frame(g),
        0 <= row < 32,
        0 <= col < 64,
    ensures
        ({
            let g1 = grid_set(g, row, col, !g[row][col]);
            grid_set(g1, row, col, !g1[row][col])
        }) == g,
{
    let g1 = grid_set(g, row, col, !g[row][col]);
    let g2 = grid_set(g1, row, col, !g1[row][col]);
    assert forall|r: int| 0 <= r < 32 implies #[trigger] g2[r] =~= g[r] by {}
    assert(g2 =~= g);
}

/// Drawing the same sprite twice at the same place erases it: the screen is
/// back to what it was, and only VF has changed (it is cleared).
pub proof fn lemma_draw_twice_restores(s: EmuState, instr: u16, keys: Set<u8>, r1: u8, r2: u8)
    requires
        s.wf(),
        op_code(instr) == 0xD,
    ensures
        exec_spec(exec_spec(s, instr, keys, r1), instr, keys, r2) == (EmuState {
            regs: s.regs.update(15, 0u8),
            ..s
        }),
{
    let t1 = exec_spec(s, instr, keys, r1);
    let t2 = exec_spec(t1, instr, keys, r2);
    assert(t1.regs.update(15, 0u8) =~= t1.regs);
    assert forall|r: int| 0 <= r < 32 implies #[trigger] t2.screen[r] =~= s.screen[r] by {}
    assert(t2.screen =~= s.screen);
    assert(t2.regs =~= s.regs.update(15, 0u8));
}

/// A subroutine call followed at once by a return comes back to the address
/// after the call, with the stack pointer as it was.
pub proof fn lemma_call_then_return(s: EmuState, call: u16, ret: u16, keys: Set<u8>, r1: u8, r2: u8)
    requires
        s.wf(),
        op_code(call) == 0x2,
        ret == 0x00EE,
        oper_ok(s, call, keys),
        s.pc <= u16::MAX,
    ensures
        ({
            let t = exec_spec(exec_spec(s, call, keys, r1), ret, keys, r2);
            t.pc == s.pc && t.stack_ptr == s.stack_ptr
        }),
{
    assert(op_code(ret) == 0 && op_n(ret) == 0xE);
}

/// Storing the registers `V0..=VX` at I and loading them back from I gives
/// the same registers.
pub proof fn lemma_store_then_load_registers(s: EmuState, store: u16, load: u16, keys: Set<u8>, r1: u8, r2: u8)
    requires
        s.wf(),
        op_code(store) == 0xF,
        op_nn(store) == 0x55,
        op_code(load) == 0xF,
        op_nn(load) == 0x65,
        op_x(store) == op_x(load),
        oper_ok(s, store, keys),
    ensures
        exec_spec(exec_spec(s, store, keys, r1), load, keys, r2) == exec_spec(s, store, keys, r1),
{
    let t1 = exec_spec(s, store, keys, r1);
    let t2 = exec_spec(t1, load, keys, r2);
    assert(t2.regs =~= t1.regs);
}

/// Loading the registers `V0..=VX` from I and storing them back at I leaves
/// memory unchanged.
pub proof fn lemma_load_then_store_memory(s: EmuState, load: u16, store: u16, keys: Set<u8>, r1: u8, r2: u8)
    requires
        s.wf(),
        op_code(store) == 0xF,
        op_nn(store) == 0x55,
        op_code(load) == 0xF,
        op_nn(load) == 0x65,
        op_x(store) == op_x(load),
        oper_ok(s, load, keys),
    ensures
        exec_spec(exec_spec(s, load, keys, r1), store, keys, r2).memory == s.memory,
{
    let t1 = exec_spec(s, load, keys, r1);
    let t2 = exec_spec(t1, store, keys, r2);
    assert(t2.memory =~= s.memory);
}

/// `FX33` stores the three decimal digits of VX: each below ten, and
/// together they make VX again.
pub proof fn lemma_bcd_digits(memory: Seq<u8>, i: int, v: u8)
    requires
        0 <= i,
        i + 2 < memory.len(),
    ensures
        ({
            let m = bcd_store(memory, i, v);
            &&& m[i] <= 2
            &&& m[i + 1] < 10
            &&& m[i + 2] < 10
            &&& m[i] * 100 + m[i + 1] * 10 + m[i + 2] == v
        }),
{
}

/// `8XY4` adds with carry: the sum is the new VX plus 256 times the new VF.
pub proof fn lemma_add_carry(regs: Seq<u8>, x: int, y: int)
    requires
        regs.len() == 16,
        0 <= x < 15,
        0 <= y < 16,
    ensures
        ({
            let r = alu_regs(regs, x, y, 0x4);
            &&& r[x] + 256 * r[15] == regs[x] + regs[y]
            &&& r[15] <= 1
        }),
{
}

/// `8XY5` subtracts modulo 256, and VF is 1 exactly when VX was above VY.
pub proof fn lemma_sub_borrow(regs: Seq<u8>, x: int, y: int)
    requires
        regs.len() == 16,
        0 <= x < 15,
        0 <= y < 15,
    ensures
        ({
            let r = alu_regs(regs, x, y, 0x5);
            &&& (r[15] == 1) == (regs[x] > regs[y])
            &&& (r[x] + regs[y]) % 256 == regs[x] as int
        }),
{
}

/// While the machine waits for a key, no instruction runs: the program
/// counter, memory, screen and index register stay as they are, whatever the
/// timing and the keys.
pub proof fn lemma_waiting_runs_nothing(
    s: EmuState,
    timer_due: bool,
    instr_due: bool,
    keys: Set<u8>,
    key: Option<ACKey>,
    rnd: u8,
)
    requires
        s.waiting_for_key,
    ensures
        ({
            let t = tick_spec(s, timer_due, instr_due, keys, key, rnd);
            &&& t.pc == s.pc
            &&& t.memory == s.memory
            &&& t.screen == s.screen
            &&& t.i == s.i
            &&& t.stack == s.stack
        }),
{
}

/// A key pressed while the machine waits lands, by its value, in the waiting
/// register, and the wait ends.
pub proof fn lemma_key_ends_wait(
    s: EmuState,
    timer_due: bool,
    instr_due: bool,
    keys: Set<u8>,
    k: ACKey,
    rnd: u8,
)
    requires
        s.wf(),
        s.waiting_for_key,
    ensures
        ({
            let t = tick_spec(s, timer_due, instr_due, keys, Some(k), rnd);
            &&& t.regs[s.waiting_for_key_reg as int] == hex_of(k)
            &&& !t.waiting_for_key
            &&& t.pc == s.pc
        }),
{
}

/// Pressing a key makes it held and releasing it makes it not held; neither
/// touches any other key.
pub proof fn lemma_press_release(held: Set<u8>, k: ACKey, other: ACKey)
    ensures
        held.insert(hex_of(k)).contains(hex_of(k)),
        !held.remove(hex_of(k)).contains(hex_of(k)),
        other != k ==> held.insert(hex_of(k)).contains(hex_of(other)) == held.contains(
            hex_of(other),
        ),
        other != k ==> held.remove(hex_of(k)).contains(hex_of(other)) == held.contains(
            hex_of(other),
        ),
{
    crate::keyboard::lemma_hex_injective(k, other);
}

/// How an instruction changes the call nesting: a call opens a level, a
/// return (`0NNE`) closes one.
pub open spec fn nesting_delta(instr: u16) -> int {
    if op_code(instr) == 0x2 {
        1
    } else if op_code(instr) == 0x0 && op_n(instr) == 0xE {
        -1
    } else {
        0
    }
}

/// The change of call nesting over a run of instructions.
pub open spec fn nesting_change(instrs: Seq<u16>) -> int
    decreases instrs.len(),
{
    if instrs.len() == 0 {
        0
    } else {
        nesting_delta(instrs[0]) + nesting_change(instrs.drop_first())
    }
}

/// Starting at nesting `depth`, the run never returns below level zero.
pub open spec fn stays_nested(instrs: Seq<u16>, depth: int) -> bool
    decreases instrs.len(),
{
    instrs.len() == 0 || (depth + nesting_delta(instrs[0]) >= 0 && stays_nested(
        instrs.drop_first(),
        depth + nesting_delta(instrs[0]),
    ))
}

/// A run made of balanced call/return pairs (and any other instructions):
/// it never returns from a level it did not open, and closes every level it opens.
pub open spec fn balanced(instrs: Seq<u16>) -> bool {
    stays_nested(instrs, 0) && nesting_change(instrs) == 0
}

/// The state after running `instrs` in order, the k-th with the keys `keys[k]`
/// held and the random byte `rnds[k]`.
pub open spec fn run_instrs(s: EmuState, instrs: Seq<u16>, keys: Seq<Set<u8>>, rnds: Seq<u8>) -> EmuState
    decreases instrs.len(),
{
    if instrs.len() == 0 || keys.len() == 0 || rnds.len() == 0 {
        s
    } else {
        run_instrs(
            exec_spec(s, instrs[0], keys[0], rnds[0]),
            instrs.drop_first(),
            keys.drop_first(),
            rnds.drop_first(),
        )
    }
}

/// Every instruction of the run can run, in the state it meets.
pub open spec fn runs_ok(s: EmuState, instrs: Seq<u16>, keys: Seq<Set<u8>>, rnds: Seq<u8>) -> bool
    decreases instrs.len(),
{
    if instrs.len() == 0 || keys.len() == 0 || rnds.len() == 0 {
        true
    } else {
        oper_ok(s, instrs[0], keys[0]) && runs_ok(
            exec_spec(s, instrs[0], keys[0], rnds[0]),
            instrs.drop_first(),
            keys.drop_first(),
            rnds.drop_first(),
        )
    }
}

/// A run that stays at or above nesting `depth` over the stack level `base`
/// moves the stack pointer by its nesting change and leaves the stack entries
/// up to `base` alone.
proof fn lemma_nested_run(
    s: EmuState,
    instrs: Seq<u16>,
    keys: Seq<Set<u8>>,
    rnds: Seq<u8>,
    base: int,
    depth: int,
)
    requires
        s.wf(),
        keys.len() == instrs.len(),
        rnds.len() == instrs.len(),
        runs_ok(s, instrs, keys, rnds),
        stays_nested(instrs, depth),
        0 <= base,
        0 <= depth,
        s.stack_ptr == base + depth,
    ensures
        run_instrs(s, instrs, keys, rnds).wf(),
        run_instrs(s, instrs, keys, rnds).stack_ptr == base + depth + nesting_change(instrs),
        forall|k: int|
            0 <= k <= base ==> #[trigger] run_instrs(s, instrs, keys, rnds).stack[k] == s.stack[k],
    decreases instrs.len(),
{
    if instrs.len() > 0 {
        let s1 = exec_spec(s, instrs[0], keys[0], rnds[0]);
        lemma_exec_keeps_wf(s, instrs[0], keys[0], rnds[0]);
        let d1 = depth + nesting_delta(instrs[0]);
        assert(s1.stack_ptr == base + d1);
        assert forall|k: int| 0 <= k <= base implies #[trigger] s1.stack[k] == s.stack[k] by {}
        lemma_nested_run(s1, instrs.drop_first(), keys.drop_first(), rnds.drop_first(), base, d1);
    }
}

/// A call, then any run of balanced call/return pairs, then a return: the
/// machine comes back to the address the call was made from, with the stack
/// pointer as it was. (The stack keeps 16-bit addresses, hence the bound on the
/// program counter.)
pub proof fn lemma_call_balanced_return(
    s: EmuState,
    call: u16,
    body: Seq<u16>,
    ret: u16,
    keys: Seq<Set<u8>>,
    rnds: Seq<u8>,
    call_keys: Set<u8>,
    ret_keys: Set<u8>,
    r_call: u8,
    r_ret: u8,
)
    requires
        s.wf(),
        s.pc <= u16::MAX,
        op_code(call) == 0x2,
        op_code(ret) == 0x0,
        op_n(ret) == 0xE,
        oper_ok(s, call, call_keys),
        keys.len() == body.len(),
        rnds.len() == body.len(),
        balanced(body),
        runs_ok(exec_spec(s, call, call_keys, r_call), body, keys, rnds),
    ensures
        ({
            let after_call = exec_spec(s, call, call_keys, r_call);
            let t = exec_spec(run_instrs(after_call, body, keys, rnds), ret, ret_keys, r_ret);
            &&& after_call.stack_ptr == s.stack_ptr + 1
            &&& t.pc == s.pc
            &&& t.stack_ptr == s.stack_ptr
        }),
{
    let s1 = exec_spec(s, call, call_keys, r_call);
    lemma_exec_keeps_wf(s, call, call_keys, r_call);
    let base = s1.stack_ptr as int;
    lemma_nested_run(s1, body, keys, rnds, base, 0);
    let t0 = run_instrs(s1, body, keys, rnds);
    assert(t0.stack[base] == s1.stack[base]);
}

/// The state after a history of operations, oldest first.
pub open spec fn run_ops(s: EmuState, ops: Seq<MachineOp>) -> EmuState
    decreases ops.len(),
{
    if ops.len() == 0 {
        s
    } else {
        apply_op(run_ops(s, ops.drop_last()), ops.last())
    }
}

/// The operation counts the timers down.
pub open spec fn is_timer_tick(op: MachineOp) -> bool {
    op matches MachineOp::Tick { timer_due: true, .. }
}

/// Only a timer period sets the tone, from the sound timer as it stands.
pub proof fn lemma_op_tone(s: EmuState, op: MachineOp)
    ensures
        apply_op(s, op).tone == if is_timer_tick(op) {
            s.st != 0
        } else {
            s.tone
        },
{
    reveal(apply_op);
}

/// The tone is set only when the timers count down: after any history it is
/// as it was if no timer period passed, and otherwise it sounds exactly when
/// the sound timer was running just before the last timer period.
#[verifier::spinoff_prover]
#[verifier::rlimit(40)]
pub proof fn lemma_tone_history(s: EmuState, ops: Seq<MachineOp>)
    ensures
        (forall|i: int| 0 <= i < ops.len() ==> !is_timer_tick(#[trigger] ops[i])) ==> run_ops(
            s,
            ops,
        ).tone == s.tone,
        forall|j: int|
            0 <= j < ops.len() && is_timer_tick(#[trigger] ops[j]) && (forall|i: int|
                j < i < ops.len() ==> !is_timer_tick(#[trigger] ops[i])) ==> run_ops(s, ops).tone
                == (run_ops(s, ops.take(j)).st != 0),
    decreases ops.len(),
{
    if ops.len() > 0 {
        let prev = ops.drop_last();
        lemma_tone_history(s, prev);
        lemma_op_tone(run_ops(s, prev), ops.last());
        assert forall|j: int|
            0 <= j < ops.len() && is_timer_tick(#[trigger] ops[j]) && (forall|i: int|
                j < i < ops.len() ==> !is_timer_tick(#[trigger] ops[i])) implies run_ops(
            s,
            ops,
        ).tone == (run_ops(s, ops.take(j)).st != 0) by {
            if j < ops.len() - 1 {
                assert(!is_timer_tick(ops[ops.len() - 1]));
                assert(prev[j] == ops[j]);
                assert(prev.take(j) =~= ops.take(j));
                assert forall|i: int| j < i < prev.len() implies !is_timer_tick(#[trigger] prev[i]) by {
                    assert(prev[i] == ops[i]);
                }
            } else {
                assert(ops.take(j) =~= prev);
            }
        }
        if forall|i: int| 0 <= i < ops.len() ==> !is_timer_tick(#[trigger] ops[i]) {
            assert forall|i: int| 0 <= i < prev.len() implies !is_timer_tick(#[trigger] prev[i]) by {
                assert(prev[i] == ops[i]);
            }
            assert(!is_timer_tick(ops[ops.len() - 1]));
        }
    }
}

/// A fresh interpreter is silent until the timers first count down.
pub proof fn lemma_silent_until_first_timer(ops: Seq<MachineOp>)
    requires
        forall|i: int| 0 <= i < ops.len() ==> !is_timer_tick(#[trigger] ops[i]),
    ensures
        !run_ops(crate::machine::initial_state(), ops).tone,
{
    lemma_tone_history(crate::machine::initial_state(), ops);
}

/// The held keys after a history of events, oldest first.
pub open spec fn held_after(held: Set<u8>, events: Seq<KeyEvent>) -> Set<u8>
    decreases events.len(),
{
    if events.len() == 0 {
        held
    } else {
        apply_key_event(held_after(held, events.drop_last()), events.last())
    }
}

/// The last event that names `k`: `Some(true)` for a press, `Some(false)`
/// for a release, `None` if no event names it.
pub open spec fn last_event_for(events: Seq<KeyEvent>, k: ACKey) -> Option<bool>
    decreases events.len(),
{
    if events.len() == 0 {
        None
    } else {
        match events.last() {
            KeyEvent::Press(k2) => if k2 == k {
                Some(true)
            } else {
                last_event_for(events.drop_last(), k)
            },
            KeyEvent::Release(k2) => if k2 == k {
                Some(false)
            } else {
                last_event_for(events.drop_last(), k)
            },
        }
    }
}

/// From an empty keypad, a key is held exactly when the last press or release
/// naming it was a press.
pub proof fn lemma_keypad_history(events: Seq<KeyEvent>, k: ACKey)
    ensures
        held_after(Set::<u8>::empty(), events).contains(hex_of(k)) == (last_event_for(events, k)
            == Some(true)),
    decreases events.len(),
{
    if events.len() > 0 {
        lemma_keypad_history(events.drop_last(), k);
        match events.last() {
            KeyEvent::Press(k2) => crate::keyboard::lemma_hex_injective(k, k2),
            KeyEvent::Release(k2) => crate::keyboard::lemma_hex_injective(k, k2),
        }
    }
}

} // verus!
