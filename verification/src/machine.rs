//! The mathematical model of the interpreter: its state, what each
//! instruction does to it, and when an instruction can run at all.

use crate::frame::{blank_frame, is_frame};
use crate::keyboard::{hex_of, ACKey};
use vstd::prelude::*;

verus! {

/// The size of the memory in bytes.
pub const MEMORY_SIZE: usize = 4096;

/// The number of return addresses the call stack holds.
pub const STACK_SIZE: usize = 0x10;

/// The address at which programs are loaded and execution starts.
pub const PROGRAM_START: usize = 0x200;

/// The state of the interpreter, as seen by its contracts.
#[verifier::ext_equal]
pub struct EmuState {
    /// The display, 32 stored rows of 64 pixels.
    pub screen: Seq<Seq<bool>>,
    pub memory: Seq<u8>,
    /// The sixteen registers V0 to VF.
    pub regs: Seq<u8>,
    /// The index register I.
    pub i: u16,
    /// The delay timer.
    pub dt: u8,
    /// The sound timer.
    pub st: u8,
    /// The program counter.
    pub pc: usize,
    pub stack: Seq<u16>,
    pub stack_ptr: u8,
    /// Whether the tone sounds.
    pub tone: bool,
    /// Whether the machine is paused until a key is pressed.
    pub waiting_for_key: bool,
    /// The register that receives the key pressed.
    pub waiting_for_key_reg: usize,
}

impl EmuState {
    /// The shape every state has, and the bounds on the stack pointer and
    /// the waiting register that every operation keeps.
    pub open spec fn wf(self) -> bool {
        &&& is_frame(self.screen)
        &&& self.memory.len() == MEMORY_SIZE
        &&& self.regs.len() == 16
        &&& self.stack.len() == STACK_SIZE
        &&& self.stack_ptr < STACK_SIZE
        &&& self.waiting_for_key_reg < 16
    }
}

/// The sixteen digit sprites, five bytes each, stored from address 0.
pub open spec fn font() -> Seq<u8> {
    seq![
        0xF0u8, 0x90, 0x90, 0x90, 0xF0,
        0x20, 0x60, 0x20, 0x20, 0x70,
        0xF0, 0x10, 0xF0, 0x80, 0xF0,
        0xF0, 0x10, 0xF0, 0x10, 0xF0,
        0x90, 0x90, 0xF0, 0x10, 0x10,
        0xF0, 0x80, 0xF0, 0x10, 0xF0,
        0xF0, 0x80, 0xF0, 0x90, 0xF0,
        0xF0, 0x10, 0x20, 0x40, 0x40,
        0xF0, 0x90, 0xF0, 0x90, 0xF0,
        0xF0, 0x90, 0xF0, 0x10, 0xF0,
        0xF0, 0x90, 0xF0, 0x90, 0x90,
        0xE0, 0x90, 0xE0, 0x90, 0xE0,
        0xF0, 0x80, 0x80, 0x80, 0xF0,
        0xE0, 0x90, 0x90, 0x90, 0xE0,
        0xF0, 0x80, 0xF0, 0x80, 0xF0,
        0xF0, 0x80, 0xF0, 0x80, 0x80,
    ]
}

/// The state of a freshly made interpreter: the font at the start of memory,
/// everything else zero, the screen dark, execution at [`PROGRAM_START`].
pub open spec fn initial_state() -> EmuState {
    EmuState {
        screen: blank_frame(),
        memory: Seq::new(
            MEMORY_SIZE as nat,
            |a: int|
                if a < 80 {
                    font()[a]
                } else {
                    0u8
                },
        ),
        regs: Seq::new(16, |k: int| 0u8),
        i: 0,
        dt: 0,
        st: 0,
        pc: PROGRAM_START,
        stack: Seq::new(STACK_SIZE as nat, |k: int| 0u16),
        stack_ptr: 0,
        tone: false,
        waiting_for_key: false,
        waiting_for_key_reg: 0,
    }
}

/// The state after copying `rom` into memory from the program counter on.
pub open spec fn load_spec(s: EmuState, rom: Seq<u8>) -> EmuState {
    EmuState {
        memory: Seq::new(
            s.memory.len(),
            |a: int|
                if s.pc <= a < s.pc + rom.len() {
                    rom[a - s.pc]
                } else {
                    s.memory[a]
                },
        ),
        ..s
    }
}

/// Memory after storing `regs[0..=x]` from address `i` on.
pub open spec fn store_regs_spec(memory: Seq<u8>, regs: Seq<u8>, i: int, x: int) -> Seq<u8> {
    Seq::new(
        memory.len(),
        |a: int|
            if i <= a <= i + x {
                regs[a - i]
            } else {
                memory[a]
            },
    )
}

/// Registers after loading `V0..=VX` from memory at address `i` on.
pub open spec fn load_regs_spec(regs: Seq<u8>, memory: Seq<u8>, i: int, x: int) -> Seq<u8> {
    Seq::new(
        16,
        |k: int|
            if k <= x {
                memory[i + k]
            } else {
                regs[k]
            },
    )
}

/// The top nibble of an instruction: which operation it is.
pub open spec fn op_code(instr: u16) -> int {
    instr as int / 0x1000
}

/// The second nibble: register X.
pub open spec fn op_x(instr: u16) -> int {
    (instr as int / 0x100) % 16
}

/// The third nibble: register Y.
pub open spec fn op_y(instr: u16) -> int {
    (instr as int / 0x10) % 16
}

/// The lowest nibble N.
pub open spec fn op_n(instr: u16) -> int {
    instr as int % 0x10
}

/// The lowest byte NN.
pub open spec fn op_nn(instr: u16) -> int {
    instr as int % 0x100
}

/// The lowest twelve bits NNN: an address.
pub open spec fn op_nnn(instr: u16) -> int {
    instr as int % 0x1000
}

/// `v` reduced to a byte, wrapping around.
pub open spec fn wrap8(v: int) -> u8 {
    (v % 256) as u8
}

/// Steps over the next instruction when `c` holds.
pub open spec fn skip_if(s: EmuState, c: bool) -> EmuState {
    if c {
        EmuState { pc: (s.pc + 2) as usize, ..s }
    } else {
        s
    }
}

/// The registers after the arithmetic and logic instruction `8XYN`. Where the
/// instruction sets VF, it does so first, and the result is then computed from
/// the registers as they stand (so X or Y may be VF itself).
pub open spec fn alu_regs(regs: Seq<u8>, x: int, y: int, n: int) -> Seq<u8> {
    if n == 0x0 {
        regs.update(x, regs[y])
    } else if n == 0x1 {
        regs.update(x, regs[x] | regs[y])
    } else if n == 0x2 {
        regs.update(x, regs[x] & regs[y])
    } else if n == 0x3 {
        regs.update(x, regs[x] ^ regs[y])
    } else if n == 0x4 {
        let sum = regs[x] + regs[y];
        regs.update(
            15,
            if sum > 255 {
                1u8
            } else {
                0u8
            },
        ).update(x, wrap8(sum))
    } else if n == 0x5 {
        let v = regs.update(
            15,
            if regs[x] > regs[y] {
                1u8
            } else {
                0u8
            },
        );
        v.update(x, wrap8(v[x] - v[y]))
    } else if n == 0x6 {
        let v = regs.update(15, regs[x] % 2);
        v.update(x, v[x] / 2)
    } else if n == 0x7 {
        let v = regs.update(
            15,
            if regs[y] > regs[x] {
                1u8
            } else {
                0u8
            },
        );
        v.update(x, (v[y] - v[x]) as u8)
    } else if n == 0xE {
        let v = regs.update(
            15,
            if regs[x] >= 0x80 {
                0x80u8
            } else {
                0u8
            },
        );
        v.update(x, wrap8(v[x] * 2))
    } else {
        regs
    }
}

/// Bit `c` of a sprite row, counted from the most significant bit (`0 <= c < 8`).
pub open spec fn sprite_bit(b: u8, c: int) -> bool {
    (b >> ((7 - c) as u8)) & 1u8 == 1u8
}

/// How many sprite rows `DXYN` draws from vertical position `ypos`: it stops
/// at the last row of the screen.
pub open spec fn draw_rows(ypos: int, n: int) -> int {
    if n < 32 - ypos {
        n
    } else {
        32 - ypos
    }
}

/// The screen after drawing the `n`-row sprite at address `i` at position
/// `(vx mod 64, vy mod 32)`, counting rows from the bottom: each sprite bit is
/// XORed into its pixel, and the parts past the right and the top edge are not drawn.
pub open spec fn draw_screen(
    screen: Seq<Seq<bool>>,
    memory: Seq<u8>,
    i: u16,
    vx: u8,
    vy: u8,
    n: int,
) -> Seq<Seq<bool>> {
    let xpos = vx as int % 64;
    let ypos = vy as int % 32;
    let rows = draw_rows(ypos, n);
    Seq::new(
        32,
        |row: int|
            Seq::new(
                64,
                |col: int|
                    {
                        let r = 31 - row - ypos;
                        let c = col - xpos;
                        if 0 <= r < rows && 0 <= c < 8 {
                            screen[row][col] != sprite_bit(memory[i + r], c)
                        } else {
                            screen[row][col]
                        }
                    },
            ),
    )
}

/// Memory after storing the decimal digits of `v` at `i`, `i + 1` and `i + 2`.
pub open spec fn bcd_store(memory: Seq<u8>, i: int, v: u8) -> Seq<u8> {
    memory.update(i, v / 100).update(i + 1, (v / 10) % 10).update(i + 2, v % 10)
}

/// The `FXNN` instructions: timers, the index register, and block moves.
pub open spec fn misc_spec(s: EmuState, x: int, nn: int) -> EmuState {
    if nn == 0x07 {
        EmuState { regs: s.regs.update(x, s.dt), ..s }
    } else if nn == 0x0A {
        EmuState { waiting_for_key: true, waiting_for_key_reg: x as usize, ..s }
    } else if nn == 0x15 {
        EmuState { dt: s.regs[x], ..s }
    } else if nn == 0x18 {
        EmuState { st: s.regs[x], ..s }
    } else if nn == 0x1E {
        EmuState { i: (s.i + s.regs[x]) as u16, ..s }
    } else if nn == 0x29 {
        EmuState { i: (s.regs[x] * 5) as u16, ..s }
    } else if nn == 0x33 {
        EmuState { memory: bcd_store(s.memory, s.i as int, s.regs[x]), ..s }
    } else if nn == 0x55 {
        EmuState { memory: store_regs_spec(s.memory, s.regs, s.i as int, x), ..s }
    } else if nn == 0x65 {
        EmuState { regs: load_regs_spec(s.regs, s.memory, s.i as int, x), ..s }
    } else {
        s
    }
}

/// What the instruction `instr` does to the state `s`, with the keys `keys`
/// held down and `rnd` as the random byte that `CXNN` draws.
pub open spec fn exec_spec(s: EmuState, instr: u16, keys: Set<u8>, rnd: u8) -> EmuState {
    let code = op_code(instr);
    let x = op_x(instr);
    let y = op_y(instr);
    let n = op_n(instr);
    let nn = op_nn(instr);
    let nnn = op_nnn(instr);
    if code == 0x0 {
        if n == 0x0 {
            EmuState { screen: blank_frame(), ..s }
        } else if n == 0xE {
            EmuState {
                pc: s.stack[s.stack_ptr as int] as usize,
                stack_ptr: if s.stack_ptr > 0 {
                    (s.stack_ptr - 1) as u8
                } else {
                    0u8
                },
                ..s
            }
        } else {
            s
        }
    } else if code == 0x1 {
        EmuState { pc: nnn as usize, ..s }
    } else if code == 0x2 {
        let sp = (s.stack_ptr + 1) as u8;
        EmuState { stack_ptr: sp, stack: s.stack.update(sp as int, s.pc as u16), pc: nnn as usize, ..s }
    } else if code == 0x3 {
        skip_if(s, s.regs[x] == nn)
    } else if code == 0x4 {
        skip_if(s, s.regs[x] != nn)
    } else if code == 0x5 {
        skip_if(s, s.regs[x] == s.regs[y])
    } else if code == 0x6 {
        EmuState { regs: s.regs.update(x, nn as u8), ..s }
    } else if code == 0x7 {
        EmuState { regs: s.regs.update(x, wrap8(s.regs[x] + nn)), ..s }
    } else if code == 0x8 {
        EmuState { regs: alu_regs(s.regs, x, y, n), ..s }
    } else if code == 0x9 {
        skip_if(s, s.regs[x] != s.regs[y])
    } else if code == 0xA {
        EmuState { i: nnn as u16, ..s }
    } else if code == 0xB {
        EmuState { pc: (nnn + s.regs[0]) as usize, ..s }
    } else if code == 0xC {
        EmuState { regs: s.regs.update(x, (nn as u8) & rnd), ..s }
    } else if code == 0xD {
        let v = s.regs.update(15, 0u8);
        EmuState { regs: v, screen: draw_screen(s.screen, s.memory, s.i, v[x], v[y], n), ..s }
    } else if code == 0xE {
        if nn == 0x9E {
            skip_if(s, keys.contains(s.regs[x]))
        } else if nn == 0xA1 {
            skip_if(s, !keys.contains(s.regs[x]))
        } else {
            s
        }
    } else {
        misc_spec(s, x, nn)
    }
}

/// A step over the next instruction is possible without the program counter overflowing.
pub open spec fn skip_ok(s: EmuState, c: bool) -> bool {
    c ==> s.pc + 2 <= usize::MAX
}

/// The instruction `instr` runs on `s` without a fault: no call beyond the
/// top of the stack, no subtraction below zero in `8XY7`, no read or write
/// past the end of memory, no key test on a value that names no key, and no
/// overflow of the index register or of the program counter.
pub open spec fn oper_ok(s: EmuState, instr: u16, keys: Set<u8>) -> bool {
    let code = op_code(instr);
    let x = op_x(instr);
    let y = op_y(instr);
    let n = op_n(instr);
    let nn = op_nn(instr);
    if code == 0x2 {
        s.stack_ptr + 1 < STACK_SIZE
    } else if code == 0x3 {
        skip_ok(s, s.regs[x] == nn)
    } else if code == 0x4 {
        skip_ok(s, s.regs[x] != nn)
    } else if code == 0x5 {
        skip_ok(s, s.regs[x] == s.regs[y])
    } else if code == 0x8 {
        n == 0x7 ==> {
            let v = s.regs.update(
                15,
                if s.regs[y] > s.regs[x] {
                    1u8
                } else {
                    0u8
                },
            );
            v[y] >= v[x]
        }
    } else if code == 0x9 {
        skip_ok(s, s.regs[x] != s.regs[y])
    } else if code == 0xD {
        let v = s.regs.update(15, 0u8);
        let rows = draw_rows(v[y] as int % 32, n);
        rows > 0 ==> s.i + rows <= MEMORY_SIZE
    } else if code == 0xE {
        &&& nn == 0x9E ==> s.regs[x] < 16 && skip_ok(s, keys.contains(s.regs[x]))
        &&& nn == 0xA1 ==> s.regs[x] < 16 && skip_ok(s, !keys.contains(s.regs[x]))
    } else if code == 0xF {
        &&& nn == 0x1E ==> s.i + s.regs[x] <= u16::MAX
        &&& nn == 0x33 ==> s.i + 2 < MEMORY_SIZE
        &&& (nn == 0x55 || nn == 0x65) ==> s.i + x < MEMORY_SIZE
    } else {
        true
    }
}

/// The instruction stored at `pc`: the byte there is its high byte.
pub open spec fn fetch(memory: Seq<u8>, pc: int) -> u16 {
    (memory[pc] * 256 + memory[pc + 1]) as u16
}

/// The state once the next instruction has been fetched: the program counter
/// moves past it.
pub open spec fn advance(s: EmuState) -> EmuState {
    EmuState { pc: (s.pc + 2) as usize, ..s }
}

/// The next instruction can be fetched and run without a fault.
pub open spec fn next_ok(s: EmuState, keys: Set<u8>) -> bool {
    &&& s.pc + 1 < MEMORY_SIZE
    &&& oper_ok(advance(s), fetch(s.memory, s.pc as int), keys)
}

/// One timer period: each non-zero timer counts down, and the tone sounds
/// exactly when the sound timer was running.
pub open spec fn timers_spec(s: EmuState) -> EmuState {
    EmuState {
        dt: if s.dt != 0 {
            (s.dt - 1) as u8
        } else {
            0u8
        },
        st: if s.st != 0 {
            (s.st - 1) as u8
        } else {
            0u8
        },
        tone: s.st != 0,
        ..s
    }
}

/// One update of the machine: the timers count down when `timer_due`; then,
/// unless it waits for a key, the machine runs the next instruction when
/// `instr_due`; while it waits, a new key press `key` is stored in the
/// waiting register and ends the wait.
pub open spec fn tick_spec(
    s: EmuState,
    timer_due: bool,
    instr_due: bool,
    keys: Set<u8>,
    key: Option<ACKey>,
    rnd: u8,
) -> EmuState {
    let s1 = if timer_due {
        timers_spec(s)
    } else {
        s
    };
    if instr_due && !s1.waiting_for_key {
        exec_spec(advance(s1), fetch(s1.memory, s1.pc as int), keys, rnd)
    } else if s1.waiting_for_key {
        match key {
            Some(k) => EmuState {
                regs: s1.regs.update(s1.waiting_for_key_reg as int, hex_of(k)),
                waiting_for_key: false,
                ..s1
            },
            None => s1,
        }
    } else {
        s1
    }
}

/// Every instruction that can run keeps the shape of the state and the
/// bounds on the stack pointer and the waiting register.
pub proof fn lemma_exec_keeps_wf(s: EmuState, instr: u16, keys: Set<u8>, rnd: u8)
    requires
        s.wf(),
        oper_ok(s, instr, keys),
    ensures
        exec_spec(s, instr, keys, rnd).wf(),
{
    let t = exec_spec(s, instr, keys, rnd);
    let code = op_code(instr);
    let x = op_x(instr);
    let y = op_y(instr);
    let n = op_n(instr);
    let v = s.regs.update(15, 0u8);
    if code == 0x0 && n == 0x0 {
        assert(is_frame(blank_frame()));
    }
    if code == 0xD {
        assert forall|r: int| 0 <= r < 32 implies (#[trigger] t.screen[r]).len() == 64 by {}
    }
}

/// One operation on the interpreter, as a caller makes it.
pub enum MachineOp {
    /// A timed update, as `tick` or `update` makes it.
    Tick { timer_due: bool, instr_due: bool, keys: Set<u8>, key: Option<ACKey>, rnd: u8 },
    /// An instruction run directly, as `exec_oper` runs it.
    Exec { instr: u16, keys: Set<u8>, rnd: u8 },
    /// A program loaded, as `load_rom` loads it.
    Load { rom: Seq<u8> },
}

/// The state after one operation.
#[verifier::opaque]
pub open spec fn apply_op(s: EmuState, op: MachineOp) -> EmuState {
    match op {
        MachineOp::Tick { timer_due, instr_due, keys, key, rnd } => tick_spec(
            s,
            timer_due,
            instr_due,
            keys,
            key,
            rnd,
        ),
        MachineOp::Exec { instr, keys, rnd } => exec_spec(s, instr, keys, rnd),
        MachineOp::Load { rom } => load_spec(s, rom),
    }
}

} // verus!
