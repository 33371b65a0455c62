//! What each instruction does, stated over its fields: the instruction is
//! built from its opcode nibble and operands, and the effect is given in
//! plain arithmetic on the registers, memory and screen.

use crate::keyboard::ACKey;
use crate::machine::{
    exec_spec, load_spec, op_code, op_n, op_nn, op_nnn, op_x, op_y, oper_ok, tick_spec, EmuState,
    MEMORY_SIZE,
};
use vstd::prelude::*;

verus! {

/// The instruction with top nibble `code` and low twelve bits `nnn`.
pub open spec fn instr_nnn(code: int, nnn: int) -> u16 {
    (code * 0x1000 + nnn) as u16
}

/// The instruction with top nibble `code`, register `x` and low byte `nn`.
pub open spec fn instr_xnn(code: int, x: int, nn: int) -> u16 {
    (code * 0x1000 + x * 0x100 + nn) as u16
}

/// The instruction with top nibble `code`, registers `x` and `y` and low nibble `n`.
pub open spec fn instr_xyn(code: int, x: int, y: int, n: int) -> u16 {
    (code * 0x1000 + x * 0x100 + y * 0x10 + n) as u16
}

/// The fields of an instruction built from fields are those fields.
proof fn lemma_fields_xyn(code: int, x: int, y: int, n: int)
    requires
        0 <= code < 16,
        0 <= x < 16,
        0 <= y < 16,
        0 <= n < 16,
    ensures
        op_code(instr_xyn(code, x, y, n)) == code,
        op_x(instr_xyn(code, x, y, n)) == x,
        op_y(instr_xyn(code, x, y, n)) == y,
        op_n(instr_xyn(code, x, y, n)) == n,
        op_nn(instr_xyn(code, x, y, n)) == y * 16 + n,
        instr_xyn(code, x, y, n) == instr_xnn(code, x, y * 16 + n),
{
}

/// The fields of an instruction with a byte operand.
proof fn lemma_fields_xnn(code: int, x: int, nn: int)
    requires
        0 <= code < 16,
        0 <= x < 16,
        0 <= nn < 256,
    ensures
        op_code(instr_xnn(code, x, nn)) == code,
        op_x(instr_xnn(code, x, nn)) == x,
        op_nn(instr_xnn(code, x, nn)) == nn,
        op_n(instr_xnn(code, x, nn)) == nn % 16,
{
}

/// `1NNN` jumps to NNN and changes nothing else.
pub proof fn lemma_jump(s: EmuState, nnn: int, keys: Set<u8>, rnd: u8)
    requires
        0 <= nnn < 0x1000,
    ensures
        exec_spec(s, instr_nnn(0x1, nnn), keys, rnd) == (EmuState { pc: nnn as usize, ..s }),
{
}

/// `BNNN` jumps to NNN plus V0 and changes nothing else.
pub proof fn lemma_jump_plus_v0(s: EmuState, nnn: int, keys: Set<u8>, rnd: u8)
    requires
        s.wf(),
        0 <= nnn < 0x1000,
    ensures
        exec_spec(s, instr_nnn(0xB, nnn), keys, rnd) == (EmuState {
            pc: (nnn + s.regs[0]) as usize,
            ..s
        }),
        exec_spec(s, instr_nnn(0xB, nnn), keys, rnd).pc == nnn + s.regs[0],
{
}

/// `2NNN` pushes the program counter (as 16 bits) one place above the stack
/// pointer, moves the stack pointer up by one and jumps to NNN; the other
/// stack entries and the rest of the state stay.
pub proof fn lemma_call(s: EmuState, nnn: int, keys: Set<u8>, rnd: u8)
    requires
        s.wf(),
        0 <= nnn < 0x1000,
        oper_ok(s, instr_nnn(0x2, nnn), keys),
    ensures
        ({
            let t = exec_spec(s, instr_nnn(0x2, nnn), keys, rnd);
            &&& t.pc == nnn
            &&& t.stack_ptr == s.stack_ptr + 1
            &&& t.stack[s.stack_ptr + 1] == s.pc % 0x10000
            &&& forall|k: int| 0 <= k < 16 && k != s.stack_ptr + 1 ==> t.stack[k] == s.stack[k]
            &&& t.stack.len() == s.stack.len()
            &&& t.regs == s.regs && t.memory == s.memory && t.screen == s.screen && t.i == s.i
        }),
{
    let t = exec_spec(s, instr_nnn(0x2, nnn), keys, rnd);
    let pc = s.pc;
    assert((pc as u16) as int == pc % 0x10000) by (bit_vector);
}

/// `00EE` returns to the address at the top of the stack and moves the stack
/// pointer down by one (not below zero); nothing else changes.
pub proof fn lemma_return(s: EmuState, keys: Set<u8>, rnd: u8)
    requires
        s.wf(),
    ensures
        ({
            let t = exec_spec(s, 0x00EE, keys, rnd);
            &&& t.pc == s.stack[s.stack_ptr as int]
            &&& t.stack_ptr == if s.stack_ptr > 0 {
                s.stack_ptr - 1
            } else {
                0
            }
            &&& t == (EmuState { pc: t.pc, stack_ptr: t.stack_ptr, ..s })
        }),
{
}

/// The state with the program counter moved on by `d`.
pub open spec fn moved_by(s: EmuState, d: int) -> EmuState {
    EmuState { pc: (s.pc + d) as usize, ..s }
}

/// `3XNN` skips the next instruction exactly when VX equals NN.
pub proof fn lemma_skip_if_equal_byte(s: EmuState, x: int, nn: int, keys: Set<u8>, rnd: u8)
    requires
        s.wf(),
        0 <= x < 16,
        0 <= nn < 256,
        s.pc + 2 <= usize::MAX,
    ensures
        exec_spec(s, instr_xnn(0x3, x, nn), keys, rnd) == if s.regs[x] == nn {
            moved_by(s, 2)
        } else {
            s
        },
{
    lemma_fields_xnn(0x3, x, nn);
}

/// `4XNN` skips the next instruction exactly when VX differs from NN.
pub proof fn lemma_skip_if_other_byte(s: EmuState, x: int, nn: int, keys: Set<u8>, rnd: u8)
    requires
        s.wf(),
        0 <= x < 16,
        0 <= nn < 256,
        s.pc + 2 <= usize::MAX,
    ensures
        exec_spec(s, instr_xnn(0x4, x, nn), keys, rnd) == if s.regs[x] != nn {
            moved_by(s, 2)
        } else {
            s
        },
{
    lemma_fields_xnn(0x4, x, nn);
}

/// `5XY0` skips the next instruction exactly when VX equals VY.
pub proof fn lemma_skip_if_equal_regs(s: EmuState, x: int, y: int, keys: Set<u8>, rnd: u8)
    requires
        s.wf(),
        0 <= x < 16,
        0 <= y < 16,
        s.pc + 2 <= usize::MAX,
    ensures
        exec_spec(s, instr_xyn(0x5, x, y, 0), keys, rnd) == if s.regs[x] == s.regs[y] {
            moved_by(s, 2)
        } else {
            s
        },
{
    lemma_fields_xyn(0x5, x, y, 0);
}

/// `9XY0` skips the next instruction exactly when VX differs from VY.
pub proof fn lemma_skip_if_other_regs(s: EmuState, x: int, y: int, keys: Set<u8>, rnd: u8)
    requires
        s.wf(),
        0 <= x < 16,
        0 <= y < 16,
        s.pc + 2 <= usize::MAX,
    ensures
        exec_spec(s, instr_xyn(0x9, x, y, 0), keys, rnd) == if s.regs[x] != s.regs[y] {
            moved_by(s, 2)
        } else {
            s
        },
        exec_spec(s, instr_xyn(0x9, x, y, 0), keys, rnd).pc == s.pc + if s.regs[x]
            == s.regs[y] {
            0int
        } else {
            2int
        },
{
    lemma_fields_xyn(0x9, x, y, 0);
}

/// `EX9E` skips the next instruction exactly when the key with value VX is
/// held; `EXA1` exactly when it is not.
pub proof fn lemma_skip_on_key(s: EmuState, x: int, keys: Set<u8>, rnd: u8)
    requires
        s.wf(),
        0 <= x < 16,
        s.pc + 2 <= usize::MAX,
    ensures
        exec_spec(s, instr_xnn(0xE, x, 0x9E), keys, rnd) == if keys.contains(s.regs[x]) {
            moved_by(s, 2)
        } else {
            s
        },
        exec_spec(s, instr_xnn(0xE, x, 0xA1), keys, rnd) == if keys.contains(s.regs[x]) {
            s
        } else {
            moved_by(s, 2)
        },
{
    lemma_fields_xnn(0xE, x, 0x9E);
    lemma_fields_xnn(0xE, x, 0xA1);
}

/// Bit `k` (0 the least significant) of the byte `b`.
pub open spec fn bit_of(b: u8, k: int) -> bool {
    (b as int / vstd::arithmetic::power2::pow2(k as nat) as int) % 2 == 1
}

/// Bit `7 - c` of `b` read by shifting, as the draw instruction reads it.
proof fn lemma_shift_bit(b: u8, c: int)
    requires
        0 <= c < 8,
    ensures
        ((b >> ((7 - c) as u8)) & 1u8 == 1u8) == bit_of(b, 7 - c),
{
    vstd::arithmetic::power2::lemma2_to64();
    let sh = (7 - c) as u8;
    assert(b >> sh == b / (1u8 << sh)) by (bit_vector)
        requires
            sh < 8,
    ;
    assert((b >> sh) & 1u8 == (b >> sh) % 2) by (bit_vector);
    assert(1u8 << sh == vstd::arithmetic::power2::pow2(sh as nat)) by {
        vstd::bits::lemma_u8_shl_is_mul(1u8, sh);
    }
}

/// `DXYN` draws the N-byte sprite at I with its first row on screen line
/// VY mod 32 (lines counted from the bottom, so stored row `31 - line`) and
/// its left edge at column VX mod 64: for each drawn row `r` and each column
/// `c` of the row, eight of them, the pixel becomes its old value XOR bit
/// `7 - c` of byte `I + r`. Rows past the top line and columns past the right
/// edge are not drawn, every other pixel stays, and VF becomes 0.
pub proof fn lemma_draw(s: EmuState, x: int, y: int, n: int, keys: Set<u8>, rnd: u8)
    requires
        s.wf(),
        0 <= x < 16,
        0 <= y < 16,
        0 <= n < 16,
        oper_ok(s, instr_xyn(0xD, x, y, n), keys),
    ensures
        ({
            let t = exec_spec(s, instr_xyn(0xD, x, y, n), keys, rnd);
            let v = s.regs.update(15, 0u8);
            let xpos = v[x] as int % 64;
            let ypos = v[y] as int % 32;
            &&& t.regs == v
            &&& forall|r: int, c: int|
                0 <= r < n && ypos + r < 32 && 0 <= c < 8 && xpos + c < 64 ==> #[trigger] t.screen[31
                    - ypos - r][xpos + c] == (s.screen[31 - ypos - r][xpos + c] != bit_of(
                    s.memory[s.i + r],
                    7 - c,
                ))
            &&& forall|row: int, col: int|
                0 <= row < 32 && 0 <= col < 64 && !(0 <= 31 - ypos - row < n && 0 <= col - xpos < 8)
                    ==> #[trigger] t.screen[row][col] == s.screen[row][col]
            &&& t.screen.len() == 32
            &&& t == (EmuState { screen: t.screen, regs: v, ..s })
        }),
{
    lemma_fields_xyn(0xD, x, y, n);
    let t = exec_spec(s, instr_xyn(0xD, x, y, n), keys, rnd);
    let v = s.regs.update(15, 0u8);
    let xpos = v[x] as int % 64;
    let ypos = v[y] as int % 32;
    assert forall|r: int, c: int|
        0 <= r < n && ypos + r < 32 && 0 <= c < 8 && xpos + c < 64 implies #[trigger] t.screen[31
            - ypos - r][xpos + c] == (s.screen[31 - ypos - r][xpos + c] != bit_of(
            s.memory[s.i + r],
            7 - c,
        )) by {
        lemma_shift_bit(s.memory[s.i + r], c);
    }
}

/// One timer period, with no instruction run: each timer that is running
/// counts down by one, on its own, whatever the other one holds, and the tone
/// sounds exactly when the sound timer was running.
pub proof fn lemma_timer_period(s: EmuState, keys: Set<u8>, key: Option<ACKey>, rnd: u8)
    requires
        !s.waiting_for_key,
    ensures
        ({
            let t = tick_spec(s, true, false, keys, key, rnd);
            &&& t.dt as int == if s.dt > 0 {
                s.dt - 1
            } else {
                0
            }
            &&& t.st as int == if s.st > 0 {
                s.st - 1
            } else {
                0
            }
            &&& t.tone == (s.st > 0)
            &&& t == (EmuState { dt: t.dt, st: t.st, tone: t.tone, ..s })
        }),
{
}

/// The state after `k` timer periods with no instruction run.
pub open spec fn timer_periods(s: EmuState, k: nat) -> EmuState
    decreases k,
{
    if k == 0 {
        s
    } else {
        tick_spec(timer_periods(s, (k - 1) as nat), true, false, Set::empty(), None, 0)
    }
}

/// After `k` timer periods each timer holds its old value less `k`, but not
/// below zero, and the tone sounds after the first period exactly while the
/// sound timer was still above zero before the last one.
pub proof fn lemma_timer_periods(s: EmuState, k: nat)
    requires
        !s.waiting_for_key,
    ensures
        timer_periods(s, k).dt as int == if s.dt >= k {
            s.dt - k
        } else {
            0
        },
        timer_periods(s, k).st as int == if s.st >= k {
            s.st - k
        } else {
            0
        },
        k > 0 ==> timer_periods(s, k).tone == (s.st >= k),
        !timer_periods(s, k).waiting_for_key,
    decreases k,
{
    if k > 0 {
        lemma_timer_periods(s, (k - 1) as nat);
        lemma_timer_period(timer_periods(s, (k - 1) as nat), Set::empty(), None, 0);
    }
}

/// `ANNN` sets I to NNN; `FX1E` adds VX to I; `FX29` points I at the
/// five-byte font sprite of digit VX. Nothing else changes.
pub proof fn lemma_index_register(s: EmuState, x: int, nnn: int, keys: Set<u8>, rnd: u8)
    requires
        s.wf(),
        0 <= x < 16,
        0 <= nnn < 0x1000,
    ensures
        exec_spec(s, instr_nnn(0xA, nnn), keys, rnd) == (EmuState { i: nnn as u16, ..s }),
        oper_ok(s, instr_xnn(0xF, x, 0x1E), keys) ==> exec_spec(
            s,
            instr_xnn(0xF, x, 0x1E),
            keys,
            rnd,
        ).i == s.i + s.regs[x],
        exec_spec(s, instr_xnn(0xF, x, 0x1E), keys, rnd) == (EmuState {
            i: exec_spec(s, instr_xnn(0xF, x, 0x1E), keys, rnd).i,
            ..s
        }),
        exec_spec(s, instr_xnn(0xF, x, 0x29), keys, rnd) == (EmuState {
            i: (5 * s.regs[x]) as u16,
            ..s
        }),
        exec_spec(s, instr_xnn(0xF, x, 0x29), keys, rnd).i == 5 * s.regs[x],
{
    lemma_fields_xnn(0xF, x, 0x1E);
    lemma_fields_xnn(0xF, x, 0x29);
}

/// `FX07` copies the delay timer into VX; `FX15` and `FX18` set the delay
/// and the sound timer to VX; `FX0A` starts waiting for a key to store in VX.
pub proof fn lemma_timer_registers(s: EmuState, x: int, keys: Set<u8>, rnd: u8)
    requires
        s.wf(),
        0 <= x < 16,
    ensures
        exec_spec(s, instr_xnn(0xF, x, 0x07), keys, rnd) == (EmuState {
            regs: s.regs.update(x, s.dt),
            ..s
        }),
        exec_spec(s, instr_xnn(0xF, x, 0x15), keys, rnd) == (EmuState { dt: s.regs[x], ..s }),
        exec_spec(s, instr_xnn(0xF, x, 0x18), keys, rnd) == (EmuState { st: s.regs[x], ..s }),
        exec_spec(s, instr_xnn(0xF, x, 0x0A), keys, rnd) == (EmuState {
            waiting_for_key: true,
            waiting_for_key_reg: x as usize,
            ..s
        }),
{
    lemma_fields_xnn(0xF, x, 0x07);
    lemma_fields_xnn(0xF, x, 0x15);
    lemma_fields_xnn(0xF, x, 0x18);
    lemma_fields_xnn(0xF, x, 0x0A);
}

/// `FX55` stores V0 to VX at I, I + 1, ..., I + X and leaves the rest of
/// memory; `FX65` loads V0 to VX from there and leaves the other registers.
pub proof fn lemma_block_moves(s: EmuState, x: int, keys: Set<u8>, rnd: u8)
    requires
        s.wf(),
        0 <= x < 16,
        s.i + x < MEMORY_SIZE,
    ensures
        ({
            let t = exec_spec(s, instr_xnn(0xF, x, 0x55), keys, rnd);
            &&& forall|k: int| 0 <= k <= x ==> #[trigger] t.memory[s.i + k] == s.regs[k]
            &&& forall|a: int|
                0 <= a < MEMORY_SIZE && !(s.i <= a <= s.i + x) ==> #[trigger] t.memory[a]
                    == s.memory[a]
            &&& t.memory.len() == s.memory.len()
            &&& t == (EmuState { memory: t.memory, ..s })
        }),
        ({
            let t = exec_spec(s, instr_xnn(0xF, x, 0x65), keys, rnd);
            &&& forall|k: int| 0 <= k <= x ==> #[trigger] t.regs[k] == s.memory[s.i + k]
            &&& forall|k: int| x < k < 16 ==> #[trigger] t.regs[k] == s.regs[k]
            &&& t.regs.len() == 16
            &&& t == (EmuState { regs: t.regs, ..s })
        }),
{
    lemma_fields_xnn(0xF, x, 0x55);
    lemma_fields_xnn(0xF, x, 0x65);
}

/// `FX33` writes the hundreds, tens and units digits of VX at I, I + 1 and
/// I + 2, and leaves the rest.
pub proof fn lemma_decimal_digits(s: EmuState, x: int, keys: Set<u8>, rnd: u8)
    requires
        s.wf(),
        0 <= x < 16,
        s.i + 2 < MEMORY_SIZE,
    ensures
        ({
            let t = exec_spec(s, instr_xnn(0xF, x, 0x33), keys, rnd);
            let v = s.regs[x] as int;
            &&& t.memory[s.i as int] * 100 + t.memory[s.i + 1] * 10 + t.memory[s.i + 2] == v
            &&& t.memory[s.i + 1] < 10 && t.memory[s.i + 2] < 10
            &&& forall|a: int|
                0 <= a < MEMORY_SIZE && !(s.i <= a <= s.i + 2) ==> #[trigger] t.memory[a]
                    == s.memory[a]
            &&& t == (EmuState { memory: t.memory, ..s })
        }),
{
    lemma_fields_xnn(0xF, x, 0x33);
}

/// `6XNN` loads NN into VX; `7XNN` adds NN to VX modulo 256 without touching
/// VF; `CXNN` stores NN AND the random byte in VX; `00E0` turns every pixel off.
pub proof fn lemma_register_loads(s: EmuState, x: int, nn: int, keys: Set<u8>, rnd: u8)
    requires
        s.wf(),
        0 <= x < 16,
        0 <= nn < 256,
    ensures
        exec_spec(s, instr_xnn(0x6, x, nn), keys, rnd) == (EmuState {
            regs: s.regs.update(x, nn as u8),
            ..s
        }),
        exec_spec(s, instr_xnn(0x7, x, nn), keys, rnd).regs[x] == (s.regs[x] + nn) % 256,
        exec_spec(s, instr_xnn(0x7, x, nn), keys, rnd) == (EmuState {
            regs: s.regs.update(x, exec_spec(s, instr_xnn(0x7, x, nn), keys, rnd).regs[x]),
            ..s
        }),
        exec_spec(s, instr_xnn(0xC, x, nn), keys, rnd) == (EmuState {
            regs: s.regs.update(x, (nn as u8) & rnd),
            ..s
        }),
        forall|row: int, col: int|
            0 <= row < 32 && 0 <= col < 64 ==> !#[trigger] exec_spec(s, 0x00E0, keys, rnd).screen[row][col],
{
    lemma_fields_xnn(0x6, x, nn);
    lemma_fields_xnn(0x7, x, nn);
    lemma_fields_xnn(0xC, x, nn);
}

/// `8XY0` to `8XY3` (X other than VF) set VX to VY, VX OR VY, VX AND VY,
/// VX XOR VY, and change nothing else.
pub proof fn lemma_logic(s: EmuState, x: int, y: int, keys: Set<u8>, rnd: u8)
    requires
        s.wf(),
        0 <= x < 15,
        0 <= y < 16,
    ensures
        exec_spec(s, instr_xyn(0x8, x, y, 0x0), keys, rnd) == (EmuState {
            regs: s.regs.update(x, s.regs[y]),
            ..s
        }),
        exec_spec(s, instr_xyn(0x8, x, y, 0x1), keys, rnd) == (EmuState {
            regs: s.regs.update(x, s.regs[x] | s.regs[y]),
            ..s
        }),
        exec_spec(s, instr_xyn(0x8, x, y, 0x2), keys, rnd) == (EmuState {
            regs: s.regs.update(x, s.regs[x] & s.regs[y]),
            ..s
        }),
        exec_spec(s, instr_xyn(0x8, x, y, 0x3), keys, rnd) == (EmuState {
            regs: s.regs.update(x, s.regs[x] ^ s.regs[y]),
            ..s
        }),
{
    lemma_fields_xyn(0x8, x, y, 0x0);
    lemma_fields_xyn(0x8, x, y, 0x1);
    lemma_fields_xyn(0x8, x, y, 0x2);
    lemma_fields_xyn(0x8, x, y, 0x3);
}

/// `8XY4` (X, Y other than VF) adds with carry: the new VX plus 256 times the
/// new VF is the sum, VF is 0 or 1, and only VX and VF change.
pub proof fn lemma_add_registers(s: EmuState, x: int, y: int, keys: Set<u8>, rnd: u8)
    requires
        s.wf(),
        0 <= x < 15,
        0 <= y < 15,
    ensures
        ({
            let t = exec_spec(s, instr_xyn(0x8, x, y, 0x4), keys, rnd);
            &&& t.regs[x] + 256 * t.regs[15] == s.regs[x] + s.regs[y]
            &&& t.regs[15] <= 1
            &&& t == (EmuState { regs: s.regs.update(15, t.regs[15]).update(x, t.regs[x]), ..s })
        }),
{
    lemma_fields_xyn(0x8, x, y, 0x4);
}

/// `8XY5` (X, Y other than VF) subtracts modulo 256, with VF 1 exactly when
/// VX was above VY; only VX and VF change.
pub proof fn lemma_subtract_registers(s: EmuState, x: int, y: int, keys: Set<u8>, rnd: u8)
    requires
        s.wf(),
        0 <= x < 15,
        0 <= y < 15,
    ensures
        ({
            let t = exec_spec(s, instr_xyn(0x8, x, y, 0x5), keys, rnd);
            &&& t.regs[15] == if s.regs[x] > s.regs[y] {
                1int
            } else {
                0int
            }
            &&& (t.regs[x] + s.regs[y]) % 256 == s.regs[x] as int
            &&& t == (EmuState { regs: s.regs.update(15, t.regs[15]).update(x, t.regs[x]), ..s })
        }),
{
    lemma_fields_xyn(0x8, x, y, 0x5);
}

/// `8XY6` (X other than VF) halves VX and keeps the dropped bit in VF.
pub proof fn lemma_shift_right(s: EmuState, x: int, y: int, keys: Set<u8>, rnd: u8)
    requires
        s.wf(),
        0 <= x < 15,
        0 <= y < 16,
    ensures
        ({
            let t = exec_spec(s, instr_xyn(0x8, x, y, 0x6), keys, rnd);
            &&& t.regs[15] == s.regs[x] % 2
            &&& t.regs[x] * 2 + t.regs[15] == s.regs[x]
            &&& t == (EmuState { regs: s.regs.update(15, t.regs[15]).update(x, t.regs[x]), ..s })
        }),
{
    lemma_fields_xyn(0x8, x, y, 0x6);
}

/// `8XY7` (X, Y other than VF, VY at least VX) sets VX to VY - VX, with VF 1
/// exactly when VY was above VX.
pub proof fn lemma_reverse_subtract(s: EmuState, x: int, y: int, keys: Set<u8>, rnd: u8)
    requires
        s.wf(),
        0 <= x < 15,
        0 <= y < 15,
        s.regs[y] >= s.regs[x],
    ensures
        ({
            let t = exec_spec(s, instr_xyn(0x8, x, y, 0x7), keys, rnd);
            &&& t.regs[15] == if s.regs[y] > s.regs[x] {
                1int
            } else {
                0int
            }
            &&& t.regs[x] + s.regs[x] == s.regs[y]
            &&& t == (EmuState { regs: s.regs.update(15, t.regs[15]).update(x, t.regs[x]), ..s })
        }),
{
    lemma_fields_xyn(0x8, x, y, 0x7);
}

/// `8XYE` (X other than VF) doubles VX modulo 256 and keeps its top bit, as
/// the value 0x80, in VF.
pub proof fn lemma_shift_left(s: EmuState, x: int, y: int, keys: Set<u8>, rnd: u8)
    requires
        s.wf(),
        0 <= x < 15,
        0 <= y < 16,
    ensures
        ({
            let t = exec_spec(s, instr_xyn(0x8, x, y, 0xE), keys, rnd);
            &&& t.regs[15] == if s.regs[x] >= 128 {
                0x80int
            } else {
                0int
            }
            &&& t.regs[x] == (2 * s.regs[x]) % 256
            &&& t == (EmuState { regs: s.regs.update(15, t.regs[15]).update(x, t.regs[x]), ..s })
        }),
{
    lemma_fields_xyn(0x8, x, y, 0xE);
}

/// Loading a program puts every one of its bytes, the last included, at the
/// program counter and the addresses after it, and leaves the rest of memory
/// and of the state.
pub proof fn lemma_load(s: EmuState, rom: Seq<u8>)
    requires
        s.wf(),
        s.pc + rom.len() <= MEMORY_SIZE,
    ensures
        ({
            let t = load_spec(s, rom);
            &&& forall|k: int| 0 <= k < rom.len() ==> #[trigger] t.memory[s.pc + k] == rom[k]
            &&& forall|a: int|
                0 <= a < MEMORY_SIZE && !(s.pc <= a < s.pc + rom.len()) ==> #[trigger] t.memory[a]
                    == s.memory[a]
            &&& t.memory.len() == MEMORY_SIZE
            &&& t == (EmuState { memory: t.memory, ..s })
        }),
{
}

} // verus!
