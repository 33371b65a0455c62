//! The interpreter: its display buffer and its machine state.

use crate::clock::{clock_now, time_between, whole_nanos};
use crate::frame::{
    blank_frame, frame_text, grid_set, grid_view, grids_equal, is_frame, pixel_in_scan_order,
    render_grid,
};
use crate::keyboard::{ACKey, ACKeyboard};
use crate::machine::{
    advance, alu_regs, bcd_store, draw_rows, draw_screen, exec_spec, fetch, font, initial_state,
    lemma_exec_keeps_wf, apply_op, MachineOp, load_regs_spec, load_spec, misc_spec, next_ok, op_code, op_n, op_nn,
    op_nnn, op_x, op_y, oper_ok, sprite_bit, store_regs_spec, tick_spec, timers_spec, EmuState,
    MEMORY_SIZE, STACK_SIZE,
};
use std::time::Instant;
use vstd::prelude::*;

verus! {

/// The display buffer of the interpreter, with a cache of its last text rendering.
pub struct ACRenderer {
    pixels: [[bool; 64]; 32],
    last_pixels: Option<[[bool; 64]; 32]>,
    last_render: Option<String>,
}

impl View for ACRenderer {
    type V = Seq<Seq<bool>>;

    closed spec fn view(&self) -> Seq<Seq<bool>> {
        grid_view(self.pixels)
    }
}

/// The column a pixel operation at horizontal coordinate `x` reaches:
/// coordinates past the right edge come back in from the left.
pub open spec fn wrap_col_u8(x: u8) -> int {
    if x >= 64 {
        x - 64
    } else {
        x as int
    }
}

/// The row index a pixel operation at vertical coordinate `y` reaches
/// (coordinates above 32 come back down by 32).
pub open spec fn wrap_row_u8(y: u8) -> int {
    if y > 32 {
        y - 32
    } else {
        y as int
    }
}

/// The column reached from a signed coordinate `x`, wrapped once in either direction.
pub open spec fn wrap_col_i8(x: i8) -> int {
    if x >= 64 {
        x - 64
    } else if x < 0 {
        x + 64
    } else {
        x as int
    }
}

/// The row reached from a signed coordinate `y`, wrapped once in either direction.
pub open spec fn wrap_row_i8(y: i8) -> int {
    if y > 32 {
        y - 32
    } else if y < 0 {
        y + 32
    } else {
        y as int
    }
}

/// The coordinates that `ACRenderer::xor_pixel` accepts: after one wrap they
/// must land inside the frame.
pub open spec fn xor_pixel_in_range(x: u8, y: u8) -> bool {
    x < 128 && y < 64 && y != 32
}

/// The coordinates that `set_pixel` and `flip_pixel` accept.
pub open spec fn signed_pixel_in_range(x: i8, y: i8) -> bool {
    -64 <= x && -32 <= y < 64 && y != 32
}

impl ACRenderer {
    #[verifier::type_invariant]
    spec fn cache_agrees(&self) -> bool {
        self.last_pixels matches Some(p) ==> (self.last_render matches Some(s) && s@ == frame_text(
            grid_view(p),
        ))
    }

    /// The view is always a frame of 32 rows of 64 pixels.
    pub proof fn lemma_view_is_frame(&self)
        ensures
            is_frame(self@),
    {
    }

    /// Creates a new renderer with all pixels off.
    pub fn new() -> (r: Self)
        ensures
            r@ == blank_frame(),
    {
        let r = Self { pixels: [[false; 64]; 32], last_pixels: None, last_render: None };
        assert(r@ =~= blank_frame()) by {
            assert forall|i: int| 0 <= i < 32 implies r@[i] =~= blank_frame()[i] by {}
        }
        r
    }

    /// XORs `p` into the pixel at `(x, y)`, counting rows from the bottom
    /// (the stored row is `31 - y`); coordinates wrap once. Returns the
    /// negation of the pixel stored at row `y`, column `x` (wrapped).
    pub fn xor_pixel(&mut self, x: u8, y: u8, p: bool) -> (erased: bool)
        requires
            xor_pixel_in_range(x, y),
        ensures
            final(self)@ == grid_set(
                old(self)@,
                31 - wrap_row_u8(y),
                wrap_col_u8(x),
                old(self)@[31 - wrap_row_u8(y)][wrap_col_u8(x)] != p,
            ),
            erased == !old(self)@[wrap_row_u8(y)][wrap_col_u8(x)],
        no_unwind
    {
        proof {
            use_type_invariant(&*self);
        }
        let mut x = x;
        let mut y = y;
        if x >= 64 {
            x -= 64;
        }
        if y > 32 {
            y -= 32;
        }
        let row: usize = 31 - y as usize;
        let col: usize = x as usize;
        let cur: bool = self.pixels[row][col];
        self.pixels[row][col] = cur != p;
        proof {
            assert(self@ =~= grid_set(old(self)@, row as int, col as int, cur != p)) by {
                assert forall|i: int| 0 <= i < 32 implies self@[i] =~= grid_set(
                    old(self)@,
                    row as int,
                    col as int,
                    cur != p,
                )[i] by {}
            }
        }
        !self.pixels[y as usize][col]
    }

    /// Sets the pixel at `(x, y)` to `v`; coordinates wrap once in either direction.
    pub fn set_pixel(&mut self, x: i8, y: i8, v: bool)
        requires
            signed_pixel_in_range(x, y),
        ensures
            final(self)@ == grid_set(old(self)@, wrap_row_i8(y), wrap_col_i8(x), v),
    {
        proof {
            use_type_invariant(&*self);
        }
        let mut x = x;
        let mut y = y;
        if x >= 64 {
            x -= 64;
        } else if x < 0 {
            x += 64;
        }
        if y > 32 {
            y -= 32;
        } else if y < 0 {
            y += 32;
        }
        let row: usize = y as usize;
        let col: usize = x as usize;
        self.pixels[row][col] = v;
        proof {
            assert(self@ =~= grid_set(old(self)@, row as int, col as int, v)) by {
                assert forall|i: int| 0 <= i < 32 implies self@[i] =~= grid_set(
                    old(self)@,
                    row as int,
                    col as int,
                    v,
                )[i] by {}
            }
        }
    }

    /// Turns every pixel off.
    pub fn clear(&mut self)
        ensures
            final(self)@ == blank_frame(),
        no_unwind
    {
        proof {
            use_type_invariant(&*self);
        }
        let mut r: usize = 0;
        while r < 32
            invariant
                r <= 32,
                self.cache_agrees(),
                forall|i: int, j: int| 0 <= i < r && 0 <= j < 64 ==> !self.pixels@[i]@[j],
            decreases 32 - r,
        {
            let mut c: usize = 0;
            while c < 64
                invariant
                    r < 32,
                    c <= 64,
                    self.cache_agrees(),
                    forall|i: int, j: int| 0 <= i < r && 0 <= j < 64 ==> !self.pixels@[i]@[j],
                    forall|j: int| 0 <= j < c ==> !self.pixels@[r as int]@[j],
                decreases 64 - c,
            {
                self.pixels[r][c] = false;
                c += 1;
            }
            r += 1;
        }
        assert(self@ =~= blank_frame()) by {
            assert forall|i: int| 0 <= i < 32 implies self@[i] =~= blank_frame()[i] by {}
        }
    }

    /// The text of the current frame (see [`frame_text`]); a frame equal to the
    /// last one rendered is answered from the cache.
    pub fn render_string(&mut self) -> (s: String)
        ensures
            s@ == frame_text(old(self)@),
            final(self)@ == old(self)@,
    {
        proof {
            use_type_invariant(&*self);
        }
        if let Some(last_pixels) = &self.last_pixels {
            if grids_equal(last_pixels, &self.pixels) {
                if let Some(last) = &self.last_render {
                    return last.clone();
                }
            }
        }
        let rendered = render_grid(&self.pixels);
        self.last_pixels = None;
        self.last_render = Some(rendered.clone());
        self.last_pixels = Some(self.pixels);
        rendered
    }

    /// Writes the frame as 24-bit RGB into `buffer`: pixel `p` in scan order
    /// (last row first, each row left to right) fills bytes `3p`, `3p + 1` and
    /// `3p + 2` with 255 when lit and 0 when dark. Bytes past the frame are left alone.
    pub fn render_to_rgb24(&self, buffer: &mut [u8])
        requires
            old(buffer)@.len() >= 6144,
        ensures
            final(buffer)@.len() == old(buffer)@.len(),
            forall|k: int|
                0 <= k < 6144 ==> #[trigger] final(buffer)@[k] == (if pixel_in_scan_order(
                    self@,
                    k / 3,
                ) {
                    255u8
                } else {
                    0u8
                }),
            forall|k: int| 6144 <= k < old(buffer)@.len() ==> #[trigger] final(buffer)@[k] == old(buffer)@[k],
    {
        let mut buf_ptr: usize = 0;
        let mut k: usize = 0;
        while k < 32
            invariant
                k <= 32,
                buf_ptr == 192 * k,
                buffer@.len() == old(buffer)@.len(),
                buffer@.len() >= 6144,
                forall|j: int|
                    0 <= j < buf_ptr ==> #[trigger] buffer@[j] == (if pixel_in_scan_order(
                        self@,
                        j / 3,
                    ) {
                        255u8
                    } else {
                        0u8
                    }),
                forall|j: int| buf_ptr <= j < buffer@.len() ==> #[trigger] buffer@[j] == old(buffer)@[j],
            decreases 32 - k,
        {
            let row: [bool; 64] = self.pixels[31 - k];
            let mut c: usize = 0;
            while c < 64
                invariant
                    k < 32,
                    c <= 64,
                    row@ == self@[31 - k],
                    buf_ptr == 192 * k + 3 * c,
                    buffer@.len() == old(buffer)@.len(),
                    buffer@.len() >= 6144,
                    forall|j: int|
                        0 <= j < buf_ptr ==> #[trigger] buffer@[j] == (if pixel_in_scan_order(
                            self@,
                            j / 3,
                        ) {
                            255u8
                        } else {
                            0u8
                        }),
                    forall|j: int| buf_ptr <= j < buffer@.len() ==> #[trigger] buffer@[j] == old(buffer)@[j],
                decreases 64 - c,
            {
                let v: u8 = if row[c] {
                    255
                } else {
                    0
                };
                proof {
                    let p = 64 * k + c;
                    assert(p / 64 == k && p % 64 == c) by (nonlinear_arith)
                        requires
                            p == 64 * k + c,
                            c < 64,
                    ;
                    assert(buf_ptr / 3 == p && (buf_ptr + 1) / 3 == p && (buf_ptr + 2) / 3 == p)
                        by (nonlinear_arith)
                        requires
                            buf_ptr == 3 * p,
                    ;
                }
                buffer[buf_ptr] = v;
                buffer[buf_ptr + 1] = v;
                buffer[buf_ptr + 2] = v;
                buf_ptr += 3;
                c += 1;
            }
            k += 1;
        }
    }
}

/// The interpreter: memory, registers, timers, call stack and display.
pub struct ACEmulator {
    renderer: ACRenderer,
    memory: [u8; 4096],
    regs: [u8; 16],
    /// The index register.
    i: u16,
    dt: u8,
    st: u8,
    pc: usize,
    stack: [u16; 16],
    stack_ptr: u8,
    /// Enables the tone.
    tone: bool,
    /// The clock reading from which the other readings are counted.
    clock_anchor: Instant,
    /// When the timers last counted down, in nanoseconds from the anchor.
    t_last: u128,
    /// When an instruction last ran, in nanoseconds from the anchor.
    i_last: u128,
    /// Paused until a key is pressed.
    waiting_for_key: bool,
    waiting_for_key_reg: usize,
}

impl View for ACEmulator {
    type V = EmuState;

    closed spec fn view(&self) -> EmuState {
        EmuState {
            screen: self.renderer@,
            memory: self.memory@,
            regs: self.regs@,
            i: self.i,
            dt: self.dt,
            st: self.st,
            pc: self.pc,
            stack: self.stack@,
            stack_ptr: self.stack_ptr,
            tone: self.tone,
            waiting_for_key: self.waiting_for_key,
            waiting_for_key_reg: self.waiting_for_key_reg,
        }
    }
}

/// The nanoseconds from the reading `then` to the reading `now`, or zero if
/// `now` is the earlier one.
pub open spec fn nanos_since(now: u128, then: u128) -> u128 {
    if now >= then {
        (now - then) as u128
    } else {
        0
    }
}

/// The whole milliseconds from the reading `then` to the reading `now`.
pub open spec fn millis_since(now: u128, then: u128) -> u128 {
    nanos_since(now, then) / 1_000_000
}

/// Whether the timers are due: more than 1/60 s, in nanoseconds, has passed
/// since they last counted down.
pub open spec fn timer_due(nanos_since_timer: u128) -> bool {
    nanos_since_timer > 16_666_666
}

/// Whether an instruction is due: more than 10 ms have passed since the last one ran.
pub open spec fn instr_due(millis_since_instr: u128) -> bool {
    millis_since_instr > 10
}

/// The screen once the sprite rows before `r_done`, and the first `c_done`
/// columns of row `r_done`, have been drawn at `(xpos, ypos)`.
spec fn draw_partial(
    screen: Seq<Seq<bool>>,
    memory: Seq<u8>,
    i: u16,
    xpos: int,
    ypos: int,
    r_done: int,
    c_done: int,
) -> Seq<Seq<bool>> {
    Seq::new(
        32,
        |row: int|
            Seq::new(
                64,
                |col: int|
                    {
                        let r = 31 - row - ypos;
                        let c = col - xpos;
                        if 0 <= r && 0 <= c < 8 && (r < r_done || (r == r_done && c < c_done)) {
                            screen[row][col] != sprite_bit(memory[i + r], c)
                        } else {
                            screen[row][col]
                        }
                    },
            ),
    )
}

/// Calls `rand::random::<u8>()`: a byte from the thread-local generator.
/// The value depends on chance: nothing is promised of it.
#[verifier::external_body]
fn random_byte() -> u8 {
    rand::random::<u8>()
}

/// The sprites of the sixteen hex digits, five rows each.
fn sprite_chars() -> (f: [u8; 80])
    ensures
        f@ == font(),
{
    let f: [u8; 80] = [
        0xF0, 0x90, 0x90, 0x90, 0xF0,  // 0
        0x20, 0x60, 0x20, 0x20, 0x70,  // 1
        0xF0, 0x10, 0xF0, 0x80, 0xF0,  // 2
        0xF0, 0x10, 0xF0, 0x10, 0xF0,  // 3
        0x90, 0x90, 0xF0, 0x10, 0x10,  // 4
        0xF0, 0x80, 0xF0, 0x10, 0xF0,  // 5
        0xF0, 0x80, 0xF0, 0x90, 0xF0,  // 6
        0xF0, 0x10, 0x20, 0x40, 0x40,  // 7
        0xF0, 0x90, 0xF0, 0x90, 0xF0,  // 8
        0xF0, 0x90, 0xF0, 0x10, 0xF0,  // 9
        0xF0, 0x90, 0xF0, 0x90, 0x90,  // A
        0xE0, 0x90, 0xE0, 0x90, 0xE0,  // B
        0xF0, 0x80, 0x80, 0x80, 0xF0,  // C
        0xE0, 0x90, 0x90, 0x90, 0xE0,  // D
        0xF0, 0x80, 0xF0, 0x80, 0xF0,  // E
        0xF0, 0x80, 0xF0, 0x80, 0x80,  // F
    ];
    assert(f@ =~= font());
    f
}

impl ACEmulator {
    /// The stack pointer stays inside the stack and the waiting register is a register.
    #[verifier::type_invariant]
    spec fn bounds_hold(&self) -> bool {
        &&& self.stack_ptr < STACK_SIZE
        &&& self.waiting_for_key_reg < 16
    }

    /// A fresh interpreter: the font in memory from address 0, execution at 0x200.
    pub fn new() -> (e: Self)
        ensures
            e@ == initial_state(),
            e@.wf(),
            e.timer_nanos() == 0,
            e.instr_nanos() == 0,
    {
        let mut mem: [u8; 4096] = [0; 4096];
        let f = sprite_chars();
        let mut k: usize = 0;
        while k < 80
            invariant
                k <= 80,
                f@ == font(),
                forall|a: int| 0 <= a < k ==> mem@[a] == font()[a],
                forall|a: int| k <= a < 4096 ==> mem@[a] == 0,
            decreases 80 - k,
        {
            mem[k] = f[k];
            k += 1;
        }
        let e = Self {
            renderer: ACRenderer::new(),
            memory: mem,
            regs: [0; 16],
            i: 0,
            dt: 0,
            st: 0,
            pc: 0x200,
            stack: [0; 16],
            stack_ptr: 0,
            tone: false,
            clock_anchor: clock_now(),
            t_last: 0,
            i_last: 0,
            waiting_for_key: false,
            waiting_for_key_reg: 0,
        };
        assert(e@.memory =~= initial_state().memory);
        assert(e@.regs =~= initial_state().regs);
        assert(e@.stack =~= initial_state().stack);
        proof {
            e.renderer.lemma_view_is_frame();
        }
        e
    }

    /// Whether the tone should sound.
    pub fn should_bleep(&self) -> (b: bool)
        ensures
            b == self@.tone,
    {
        self.tone
    }

    /// Copies `rom` into memory from the program counter on.
    pub fn load_rom(&mut self, rom: Vec<u8>)
        requires
            old(self)@.pc + rom@.len() <= MEMORY_SIZE,
        ensures
            final(self)@ == load_spec(old(self)@, rom@),
            final(self)@ == apply_op(old(self)@, MachineOp::Load { rom: rom@ }),
    {
        proof {
            reveal(apply_op);
            use_type_invariant(&*self);
        }
        let ghost pc0 = self.pc;
        let mut k: usize = 0;
        while k < rom.len()
            invariant
                pc0 == self.pc,
                pc0 + rom@.len() <= MEMORY_SIZE,
                old(self)@.stack_ptr < STACK_SIZE,
                old(self)@.waiting_for_key_reg < 16,
                k <= rom@.len(),
                self@ == (EmuState { memory: self@.memory, ..old(self)@ }),
                forall|a: int|
                    0 <= a < MEMORY_SIZE ==> #[trigger] self@.memory[a] == if pc0 <= a < pc0 + k {
                        rom@[a - pc0]
                    } else {
                        old(self)@.memory[a]
                    },
            decreases rom@.len() - k,
        {
            self.memory[self.pc + k] = rom[k];
            k += 1;
        }
        assert(self@.memory =~= load_spec(old(self)@, rom@).memory);
    }
}


impl ACEmulator {
    /// The arithmetic and logic instruction `8XYN`.
    fn exec_alu(&mut self, x: usize, y: usize, n: u16)
        requires
            x < 16,
            y < 16,
            n < 16,
            old(self)@.wf(),
            n == 0x7 ==> {
                let v = old(self)@.regs.update(
                    15,
                    if old(self)@.regs[y as int] > old(self)@.regs[x as int] {
                        1u8
                    } else {
                        0u8
                    },
                );
                v[y as int] >= v[x as int]
            },
        ensures
            final(self).timer_nanos() == old(self).timer_nanos(),
            final(self).instr_nanos() == old(self).instr_nanos(),
            final(self)@ == (EmuState {
                regs: alu_regs(old(self)@.regs, x as int, y as int, n as int),
                ..old(self)@
            }),
    {
        let ghost r0 = self.regs@;
        match n {
            0x0 => self.regs[x] = self.regs[y],
            0x1 => self.regs[x] = self.regs[x] | self.regs[y],
            0x2 => self.regs[x] = self.regs[x] & self.regs[y],
            0x3 => self.regs[x] = self.regs[x] ^ self.regs[y],
            0x4 => {
                let res: usize = self.regs[x] as usize + self.regs[y] as usize;
                let sum: u8 = self.regs[x].wrapping_add(self.regs[y]);
                if res > 255 {
                    self.regs[0x0F] = 1;
                } else {
                    self.regs[0x0F] = 0;
                }
                self.regs[x] = sum;
            },
            0x5 => {
                self.regs[0x0F] = if self.regs[x] > self.regs[y] {
                    1
                } else {
                    0
                };
                self.regs[x] = self.regs[x].wrapping_sub(self.regs[y]);
            },
            0x6 => {
                let vx: u8 = self.regs[x];
                assert(vx & 0x01 == vx % 2) by (bit_vector);
                self.regs[0x0F] = vx & 0x01;
                self.regs[x] = self.regs[x] / 2;
            },
            0x7 => {
                self.regs[0x0F] = if self.regs[y] > self.regs[x] {
                    1
                } else {
                    0
                };
                self.regs[x] = self.regs[y] - self.regs[x];
            },
            0xE => {
                let vx: u8 = self.regs[x];
                assert(vx & 0x80 == if vx >= 0x80 {
                    0x80u8
                } else {
                    0u8
                }) by (bit_vector);
                self.regs[0x0F] = vx & 0x80;
                self.regs[x] = self.regs[x].wrapping_add(self.regs[x]);
            },
            _ => {},
        }
        assert(self@.regs =~= alu_regs(r0, x as int, y as int, n as int));
    }
}

impl ACEmulator {
    /// The draw instruction `DXYN`.
    fn exec_draw(&mut self, x: usize, y: usize, n: u16)
        requires
            x < 16,
            y < 16,
            n < 16,
            old(self)@.wf(),
            ({
                let v = old(self)@.regs.update(15, 0u8);
                let rows = draw_rows(v[y as int] as int % 32, n as int);
                rows > 0 ==> old(self)@.i + rows <= MEMORY_SIZE
            }),
        ensures
            final(self).timer_nanos() == old(self).timer_nanos(),
            final(self).instr_nanos() == old(self).instr_nanos(),
            final(self)@ == ({
                let v = old(self)@.regs.update(15, 0u8);
                EmuState {
                    regs: v,
                    screen: draw_screen(
                        old(self)@.screen,
                        old(self)@.memory,
                        old(self)@.i,
                        v[x as int],
                        v[y as int],
                        n as int,
                    ),
                    ..old(self)@
                }
            }),
    {
        let ghost readings = (self.t_last, self.i_last);
        proof {
            self.renderer.lemma_view_is_frame();
        }
        self.regs[0x0F] = 0;
        let xpos: usize = self.regs[x] as usize % crate::SCREEN_WIDTH as usize;
        let ypos: usize = self.regs[y] as usize % crate::SCREEN_HEIGHT as usize;
        // The sprite stops at the top row of the screen, and each of its rows at the right edge.
        let rows: u16 = if (n as usize) < 32 - ypos {
            n
        } else {
            (32 - ypos) as u16
        };
        let cols: usize = if 8 < 64 - xpos {
            8
        } else {
            64 - xpos
        };
        let ghost s1 = self@;
        proof {
            let a = draw_partial(s1.screen, s1.memory, s1.i, xpos as int, ypos as int, 0, 0);
            assert forall|rr: int| 0 <= rr < 32 implies #[trigger] a[rr] =~= s1.screen[rr] by {}
            assert(s1.screen =~= a);
        }
        let mut row: u16 = 0;
        while row < rows
            invariant
                (self.t_last, self.i_last) == readings,
                row <= rows,
                rows as int == draw_rows(ypos as int, n as int),
                xpos < 64,
                ypos < 32,
                cols == if 8 < 64 - xpos {
                    8
                } else {
                    64 - xpos
                },
                rows > 0 ==> s1.i + rows <= MEMORY_SIZE,
                s1.wf(),
                self@ == (EmuState {
                    screen: draw_partial(
                        s1.screen,
                        s1.memory,
                        s1.i,
                        xpos as int,
                        ypos as int,
                        row as int,
                        0,
                    ),
                    ..s1
                }),
            decreases rows - row,
        {
            let bits: u8 = self.memory[(self.i + row) as usize];
            let cy: usize = ypos + row as usize;
            let mut col: usize = 0;
            while col < cols
                invariant
                    (self.t_last, self.i_last) == readings,
                    row < rows,
                    rows as int == draw_rows(ypos as int, n as int),
                    cy == ypos + row,
                    xpos < 64,
                    ypos < 32,
                    col <= cols,
                    cols == if 8 < 64 - xpos {
                        8
                    } else {
                        64 - xpos
                    },
                    s1.i + rows <= MEMORY_SIZE,
                    bits == s1.memory[s1.i + row],
                    s1.wf(),
                    self@ == (EmuState {
                        screen: draw_partial(
                            s1.screen,
                            s1.memory,
                            s1.i,
                            xpos as int,
                            ypos as int,
                            row as int,
                            col as int,
                        ),
                        ..s1
                    }),
                decreases cols - col,
            {
                let cx: usize = xpos + col;
                let sh: u8 = (7 - col) as u8;
                let mask: u8 = 0x01u8 << sh;
                let color: u8 = (bits & mask) >> sh;
                assert(color == ((bits >> sh) & 1u8) && (color == 0 || color == 1)) by (bit_vector)
                    requires
                        sh < 8,
                        mask == 0x01u8 << sh,
                        color == (bits & mask) >> sh,
                ;
                let ghost g0 = self.renderer@;
                self.renderer.xor_pixel(cx as u8, cy as u8, color == 1);
                proof {
                    let want = draw_partial(
                        s1.screen,
                        s1.memory,
                        s1.i,
                        xpos as int,
                        ypos as int,
                        row as int,
                        col + 1,
                    );
                    assert forall|rr: int| 0 <= rr < 32 implies #[trigger] self.renderer@[rr]
                        =~= want[rr] by {}
                    assert(self.renderer@ =~= want);
                }
                col += 1;
            }
            proof {
                let a = draw_partial(
                    s1.screen,
                    s1.memory,
                    s1.i,
                    xpos as int,
                    ypos as int,
                    row as int,
                    cols as int,
                );
                let b = draw_partial(
                    s1.screen,
                    s1.memory,
                    s1.i,
                    xpos as int,
                    ypos as int,
                    row + 1,
                    0,
                );
                assert forall|rr: int| 0 <= rr < 32 implies #[trigger] a[rr] =~= b[rr] by {}
                assert(a =~= b);
            }
            row += 1;
        }
        proof {
            let a = draw_partial(
                s1.screen,
                s1.memory,
                s1.i,
                xpos as int,
                ypos as int,
                rows as int,
                0,
            );
            let b = draw_screen(s1.screen, s1.memory, s1.i, s1.regs[x as int], s1.regs[y as int], n as int);
            assert forall|rr: int| 0 <= rr < 32 implies #[trigger] a[rr] =~= b[rr] by {}
            assert(a =~= b);
        }
    }
}

impl ACEmulator {
    /// `FX55`: stores `V0..=VX` in memory from I on.
    fn store_registers(&mut self, x: usize)
        requires
            x < 16,
            old(self)@.wf(),
            old(self)@.i + x < MEMORY_SIZE,
        ensures
            final(self).timer_nanos() == old(self).timer_nanos(),
            final(self).instr_nanos() == old(self).instr_nanos(),
            final(self)@ == (EmuState {
                memory: store_regs_spec(old(self)@.memory, old(self)@.regs, old(self)@.i as int, x as int),
                ..old(self)@
            }),
    {
        let ghost readings = (self.t_last, self.i_last);
        let ghost s0 = self@;
        let mut reg: usize = 0;
        while reg < x + 1
            invariant
                (self.t_last, self.i_last) == readings,
                x < 16,
                reg <= x + 1,
                s0.i + x < MEMORY_SIZE,
                s0.wf(),
                self@ == (EmuState { memory: self@.memory, ..s0 }),
                self@.memory.len() == MEMORY_SIZE,
                forall|a: int|
                    0 <= a < MEMORY_SIZE ==> #[trigger] self@.memory[a] == if s0.i <= a < s0.i + reg {
                        s0.regs[a - s0.i]
                    } else {
                        s0.memory[a]
                    },
            decreases x + 1 - reg,
        {
            self.memory[self.i as usize + reg] = self.regs[reg];
            reg += 1;
        }
        assert(self@.memory =~= store_regs_spec(s0.memory, s0.regs, s0.i as int, x as int));
    }

    /// `FX65`: loads `V0..=VX` from memory from I on.
    fn load_registers(&mut self, x: usize)
        requires
            x < 16,
            old(self)@.wf(),
            old(self)@.i + x < MEMORY_SIZE,
        ensures
            final(self).timer_nanos() == old(self).timer_nanos(),
            final(self).instr_nanos() == old(self).instr_nanos(),
            final(self)@ == (EmuState {
                regs: load_regs_spec(old(self)@.regs, old(self)@.memory, old(self)@.i as int, x as int),
                ..old(self)@
            }),
    {
        let ghost readings = (self.t_last, self.i_last);
        let ghost s0 = self@;
        let mut reg: usize = 0;
        while reg < x + 1
            invariant
                (self.t_last, self.i_last) == readings,
                x < 16,
                reg <= x + 1,
                s0.i + x < MEMORY_SIZE,
                s0.wf(),
                self@ == (EmuState { regs: self@.regs, ..s0 }),
                self@.regs.len() == 16,
                forall|k: int|
                    0 <= k < 16 ==> #[trigger] self@.regs[k] == if k < reg {
                        s0.memory[s0.i + k]
                    } else {
                        s0.regs[k]
                    },
            decreases x + 1 - reg,
        {
            self.regs[reg] = self.memory[self.i as usize + reg];
            reg += 1;
        }
        assert(self@.regs =~= load_regs_spec(s0.regs, s0.memory, s0.i as int, x as int));
    }

    /// The instructions `FXNN`.
    fn exec_misc(&mut self, x: usize, nn: u16)
        requires
            x < 16,
            nn < 256,
            old(self)@.wf(),
            nn == 0x1E ==> old(self)@.i + old(self)@.regs[x as int] <= u16::MAX,
            nn == 0x33 ==> old(self)@.i + 2 < MEMORY_SIZE,
            (nn == 0x55 || nn == 0x65) ==> old(self)@.i + x < MEMORY_SIZE,
        ensures
            final(self).timer_nanos() == old(self).timer_nanos(),
            final(self).instr_nanos() == old(self).instr_nanos(),
            final(self)@ == misc_spec(old(self)@, x as int, nn as int),
    {
        let ghost s0 = self@;
        match nn {
            0x07 => self.regs[x] = self.dt,
            0x0A => {
                // Paused until a key is pressed; the key is stored by `update`.
                self.waiting_for_key = true;
                self.waiting_for_key_reg = x;
            },
            0x15 => self.dt = self.regs[x],
            0x18 => self.st = self.regs[x],
            0x1E => self.i = self.i + self.regs[x] as u16,
            0x29 => self.i = self.regs[x] as u16 * 0x05,
            0x33 => {
                let num: u8 = self.regs[x];
                let h: u8 = num / 100;
                let t: u8 = (num - h * 100) / 10;
                let o: u8 = num - h * 100 - t * 10;
                let i: usize = self.i as usize;
                self.memory[i] = h;
                self.memory[i + 1] = t;
                self.memory[i + 2] = o;
                assert(self@.memory =~= bcd_store(s0.memory, s0.i as int, num));
            },
            0x55 => self.store_registers(x),
            0x65 => self.load_registers(x),
            _ => {},
        }
        proof {
            if nn == 0x07 {
                assert(self@.regs =~= s0.regs.update(x as int, s0.dt));
            }
        }
    }
}

/// The masks and shifts that split an instruction agree with its nibbles.
proof fn lemma_decode(instr: u16)
    ensures
        ((instr & 0xF000) >> 12) as int == op_code(instr),
        ((instr & 0x0F00) >> 8) as int == op_x(instr),
        ((instr & 0x00F0) >> 4) as int == op_y(instr),
        (instr & 0x000F) as int == op_n(instr),
        (instr & 0x00FF) as int == op_nn(instr),
        (instr & 0x0FFF) as int == op_nnn(instr),
{
    assert((instr & 0xF000) >> 12 == instr / 0x1000) by (bit_vector);
    assert((instr & 0x0F00) >> 8 == (instr / 0x100) % 16) by (bit_vector);
    assert((instr & 0x00F0) >> 4 == (instr / 0x10) % 16) by (bit_vector);
    assert(instr & 0x000F == instr % 0x10) by (bit_vector);
    assert(instr & 0x00FF == instr % 0x100) by (bit_vector);
    assert(instr & 0x0FFF == instr % 0x1000) by (bit_vector);
}

impl ACEmulator {
    /// Runs the instruction `instr`, with `rnd` as the random byte that `CXNN` uses.
    pub fn exec_oper_with(&mut self, instr: u16, keypad: &ACKeyboard, rnd: u8)
        requires
            oper_ok(old(self)@, instr, keypad@),
        ensures
            final(self).timer_nanos() == old(self).timer_nanos(),
            final(self).instr_nanos() == old(self).instr_nanos(),
            final(self)@ == exec_spec(old(self)@, instr, keypad@, rnd),
            final(self)@.wf(),
    {
        proof {
            use_type_invariant(&*self);
            self.renderer.lemma_view_is_frame();
        }
        proof {
            lemma_exec_keeps_wf(self@, instr, keypad@, rnd);
            lemma_decode(instr);
            self.renderer.lemma_view_is_frame();
        }
        let ghost s0 = self@;
        let code = (instr & 0xF000) >> 12;
        let x = ((instr & 0x0F00) >> 8) as usize;
        let y = ((instr & 0x00F0) >> 4) as usize;
        let n = instr & 0x000F;
        let nn = instr & 0x00FF;
        let nnn = instr & 0x0FFF;
        match code {
            0x0 => {
                match n {
                    // 00E0 - CLS
                    0x0 => {
                        self.renderer.clear();
                    },
                    // 00EE - RET
                    0xE => {
                        self.pc = self.stack[self.stack_ptr as usize] as usize;
                        if self.stack_ptr > 0 {
                            self.stack_ptr -= 1;
                        }
                    },
                    _ => {},
                }
            },
            0x1 => {
                // JP addr
                self.pc = nnn as usize;
            },
            0x2 => {
                // CALL addr
                self.stack_ptr += 1;
                self.stack[self.stack_ptr as usize] = self.pc as u16;
                self.pc = nnn as usize;
                assert(self@.stack =~= s0.stack.update(self.stack_ptr as int, s0.pc as u16));
            },
            0x3 => {
                // skip next if Vx == NN
                if self.regs[x] as u16 == nn {
                    self.pc += 2;
                }
            },
            0x4 => {
                // skip next if Vx != NN
                if self.regs[x] as u16 != nn {
                    self.pc += 2;
                }
            },
            0x5 => {
                // skip next if Vx == Vy
                if self.regs[x] == self.regs[y] {
                    self.pc += 2;
                }
            },
            0x6 => {
                // Vx = NN
                self.regs[x] = nn as u8;
                assert(self@.regs =~= s0.regs.update(x as int, nn as u8));
            },
            0x7 => {
                // Vx = Vx + NN, wrapping
                self.regs[x] = self.regs[x].wrapping_add(nn as u8);
                assert(self@.regs =~= exec_spec(s0, instr, keypad@, rnd).regs);
            },
            0x8 => {
                self.exec_alu(x, y, n);
            },
            0x9 => {
                // skip next if Vx != Vy
                if self.regs[x] != self.regs[y] {
                    self.pc += 2;
                }
            },
            0xA => {
                // I = NNN
                self.i = nnn;
            },
            0xB => {
                // jump to NNN + V0
                self.pc = nnn as usize + self.regs[0] as usize;
            },
            0xC => {
                // Vx = NN & a random byte
                self.regs[x] = nn as u8 & rnd;
                assert(self@.regs =~= s0.regs.update(x as int, (nn as u8) & rnd));
            },
            0xD => {
                self.exec_draw(x, y, n);
            },
            0xE => {
                match nn {
                    0x9E => {
                        // skip next if the key with the value of Vx is pressed
                        let key = ACKey::from_hex(self.regs[x]);
                        if let Some(key) = key {
                            if keypad.is_pressed(&key) {
                                self.pc += 2;
                            }
                        }
                    },
                    0xA1 => {
                        // skip next if the key with the value of Vx is not pressed
                        let key = ACKey::from_hex(self.regs[x]);
                        if let Some(key) = key {
                            if !keypad.is_pressed(&key) {
                                self.pc += 2;
                            }
                        }
                    },
                    _ => {},
                }
            },
            _ => {
                self.exec_misc(x, nn);
            },
        }
    }
}

impl ACEmulator {
    /// Runs the instruction `instr`. `CXNN` draws its random byte from `rand`;
    /// whatever byte came, the state is the one [`exec_spec`] gives for it.
    pub fn exec_oper(&mut self, instr: u16, keypad: &ACKeyboard)
        requires
            oper_ok(old(self)@, instr, keypad@),
        ensures
            final(self).timer_nanos() == old(self).timer_nanos(),
            final(self).instr_nanos() == old(self).instr_nanos(),
            final(self)@.wf(),
            exists|rnd: u8| final(self)@ == exec_spec(old(self)@, instr, keypad@, rnd),
            exists|rnd: u8|
                final(self)@ == #[trigger] apply_op(
                    old(self)@,
                    (MachineOp::Exec { instr, keys: keypad@, rnd }),
                ),
    {
        proof {
            use_type_invariant(&*self);
            self.renderer.lemma_view_is_frame();
        }
        proof {
            reveal(apply_op);
        }
        let rnd: u8 = if (instr & 0xF000) == 0xC000 {
            random_byte()
        } else {
            0
        };
        let ghost s0 = self@;
        self.exec_oper_with(instr, keypad, rnd);
        assert(self@ == apply_op(s0, MachineOp::Exec { instr, keys: keypad@, rnd }));
    }

    /// Whether `instr` would run on `s` with the program counter at `pc`
    /// without a fault.
    fn check_oper(&self, pc: usize, instr: u16, keypad: &ACKeyboard) -> (ok: bool)
        requires
            self@.wf(),
        ensures
            ok == oper_ok(EmuState { pc, ..self@ }, instr, keypad@),
    {
        proof {
            lemma_decode(instr);
        }
        let code = (instr & 0xF000) >> 12;
        let x = ((instr & 0x0F00) >> 8) as usize;
        let y = ((instr & 0x00F0) >> 4) as usize;
        let n = instr & 0x000F;
        let nn = instr & 0x00FF;
        let skip_room: bool = pc <= usize::MAX - 2;
        match code {
            0x2 => (self.stack_ptr as usize) + 1 < STACK_SIZE,
            0x3 => !(self.regs[x] as u16 == nn) || skip_room,
            0x4 => !(self.regs[x] as u16 != nn) || skip_room,
            0x5 => !(self.regs[x] == self.regs[y]) || skip_room,
            0x8 => {
                if n == 0x7 {
                    let vf: u8 = if self.regs[y] > self.regs[x] {
                        1
                    } else {
                        0
                    };
                    let vx: u8 = if x == 15 {
                        vf
                    } else {
                        self.regs[x]
                    };
                    let vy: u8 = if y == 15 {
                        vf
                    } else {
                        self.regs[y]
                    };
                    vy >= vx
                } else {
                    true
                }
            },
            0x9 => !(self.regs[x] != self.regs[y]) || skip_room,
            0xD => {
                let vy: u8 = if y == 15 {
                    0
                } else {
                    self.regs[y]
                };
                let ypos: usize = vy as usize % 32;
                let rows: usize = if (n as usize) < 32 - ypos {
                    n as usize
                } else {
                    32 - ypos
                };
                rows == 0 || self.i as usize + rows <= MEMORY_SIZE
            },
            0xE => {
                if nn == 0x9E || nn == 0xA1 {
                    let v: u8 = self.regs[x];
                    if v < 16 {
                        let pressed = match ACKey::from_hex(v) {
                            Some(key) => keypad.is_pressed(&key),
                            None => false,
                        };
                        let skips = if nn == 0x9E {
                            pressed
                        } else {
                            !pressed
                        };
                        !skips || skip_room
                    } else {
                        false
                    }
                } else {
                    true
                }
            },
            0xF => {
                if nn == 0x1E {
                    self.i as usize + self.regs[x] as usize <= u16::MAX as usize
                } else if nn == 0x33 {
                    (self.i as usize) + 2 < MEMORY_SIZE
                } else if nn == 0x55 || nn == 0x65 {
                    (self.i as usize) + x < MEMORY_SIZE
                } else {
                    true
                }
            },
            _ => true,
        }
    }

    /// Whether [`ACEmulator::exec_oper`] can run `instr` without a fault.
    pub fn can_exec(&self, instr: u16, keypad: &ACKeyboard) -> (ok: bool)
        ensures
            ok == oper_ok(self@, instr, keypad@),
    {
        proof {
            use_type_invariant(self);
            self.renderer.lemma_view_is_frame();
        }
        let ok = self.check_oper(self.pc, instr, keypad);
        assert((EmuState { pc: self@.pc, ..self@ }) == self@);
        ok
    }

    /// Whether the next instruction can be fetched and run without a fault,
    /// as [`ACEmulator::update`] and [`ACEmulator::tick`] require.
    pub fn can_step(&self, keypad: &ACKeyboard) -> (ok: bool)
        ensures
            ok == next_ok(self@, keypad@),
    {
        proof {
            use_type_invariant(self);
            self.renderer.lemma_view_is_frame();
        }
        if self.pc < MEMORY_SIZE - 1 {
            let instr: u16 = self.fetch_at(self.pc);
            self.check_oper(self.pc + 2, instr, keypad)
        } else {
            false
        }
    }

    /// The instruction stored at `pc`.
    fn fetch_at(&self, pc: usize) -> (instr: u16)
        requires
            self@.wf(),
            pc + 1 < MEMORY_SIZE,
        ensures
            instr == fetch(self@.memory, pc as int),
    {
        let hi: u8 = self.memory[pc];
        let lo: u8 = self.memory[pc + 1];
        assert(((hi as u16) << 8) | (lo as u16) == hi as u16 * 256 + lo as u16) by (bit_vector);
        ((hi as u16) << 8) | (lo as u16)
    }

    /// One step of the machine with its timing decided: the timers count
    /// down when `timer_due`; then, unless the machine waits for a key, the
    /// next instruction runs when `instr_due`; while it waits, `new_keypress`
    /// is stored in the waiting register and ends the wait. Returns whether an
    /// instruction ran.
    pub fn tick(
        &mut self,
        timer_due: bool,
        instr_due: bool,
        keypad: &ACKeyboard,
        new_keypress: Option<ACKey>,
    ) -> (ran: bool)
        requires
            instr_due && !old(self)@.waiting_for_key ==> next_ok(old(self)@, keypad@),
        ensures
            exists|rnd: u8|
                final(self)@ == #[trigger] apply_op(
                    old(self)@,
                    (MachineOp::Tick { timer_due, instr_due, keys: keypad@, key: new_keypress, rnd }),
                ),
            final(self).timer_nanos() == old(self).timer_nanos(),
            final(self).instr_nanos() == old(self).instr_nanos(),
            final(self)@.wf(),
            ran == (instr_due && !old(self)@.waiting_for_key),
            exists|rnd: u8|
                final(self)@ == tick_spec(
                    old(self)@,
                    timer_due,
                    instr_due,
                    keypad@,
                    new_keypress,
                    rnd,
                ),
    {
        proof {
            use_type_invariant(&*self);
            self.renderer.lemma_view_is_frame();
        }
        proof {
            reveal(apply_op);
        }
        let ghost s0 = self@;
        if timer_due {
            if self.dt != 0 {
                self.dt -= 1;
            }
            self.tone = if self.st != 0 {
                self.st -= 1;
                true
            } else {
                false
            };
        }
        let ghost s1 = self@;
        assert(s1 == if timer_due {
            timers_spec(s0)
        } else {
            s0
        });
        if instr_due && !self.waiting_for_key {
            let instr: u16 = self.fetch_at(self.pc);
            self.pc += 2;
            assert(self@ == advance(s1));
            let ghost s2 = self@;
            self.exec_oper(instr, keypad);
            proof {
                let r = choose|r: u8| self@ == exec_spec(s2, instr, keypad@, r);
                assert(self@ == tick_spec(s0, timer_due, instr_due, keypad@, new_keypress, r));
                assert(self@ == apply_op(
                    s0,
                    MachineOp::Tick { timer_due, instr_due, keys: keypad@, key: new_keypress, rnd: r },
                ));
            }
            true
        } else {
            if self.waiting_for_key {
                if let Some(key) = new_keypress {
                    self.regs[self.waiting_for_key_reg] = key.to_hex();
                    self.waiting_for_key = false;
                }
            }
            proof {
                let t = tick_spec(s0, timer_due, instr_due, keypad@, new_keypress, 0);
                assert(self@.regs =~= t.regs);
                assert(self@ == t);
                assert(self@ == apply_op(
                    s0,
                    MachineOp::Tick { timer_due, instr_due, keys: keypad@, key: new_keypress, rnd: 0 },
                ));
            }
            false
        }
    }

    /// When the timers last counted down, in nanoseconds from the clock anchor.
    pub closed spec fn timer_nanos(&self) -> u128 {
        self.t_last
    }

    /// When an instruction last ran, in nanoseconds from the clock anchor.
    pub closed spec fn instr_nanos(&self) -> u128 {
        self.i_last
    }

    /// One update at the clock reading `now` (nanoseconds from the clock
    /// anchor). The timers count down when more than 1/60 s (16 666 666 ns) has
    /// passed since they last did; the next instruction runs when more than
    /// 10 whole milliseconds have passed since the last one ran and the machine
    /// is not waiting for a key. Each records `now` when it happens.
    pub fn step_at(&mut self, now: u128, keypad: &ACKeyboard, new_keypress: Option<ACKey>)
        requires
            instr_due(millis_since(now, old(self).instr_nanos())) && !old(self)@.waiting_for_key
                ==> next_ok(old(self)@, keypad@),
        ensures
            final(self)@.wf(),
            exists|rnd: u8|
                final(self)@ == #[trigger] tick_spec(
                    old(self)@,
                    timer_due(nanos_since(now, old(self).timer_nanos())),
                    instr_due(millis_since(now, old(self).instr_nanos())),
                    keypad@,
                    new_keypress,
                    rnd,
                ),
            final(self).timer_nanos() == if timer_due(nanos_since(now, old(self).timer_nanos())) {
                now
            } else {
                old(self).timer_nanos()
            },
            final(self).instr_nanos() == if instr_due(millis_since(now, old(self).instr_nanos()))
                && !old(self)@.waiting_for_key {
                now
            } else {
                old(self).instr_nanos()
            },
    {
        proof {
            use_type_invariant(&*self);
            self.renderer.lemma_view_is_frame();
        }
        let ghost s0 = self@;
        let since_timer: u128 = if now >= self.t_last {
            now - self.t_last
        } else {
            0
        };
        let since_instr: u128 = if now >= self.i_last {
            now - self.i_last
        } else {
            0
        };
        let timers_go: bool = since_timer > 16_666_666;
        if timers_go {
            self.t_last = now;
        }
        let instr_go: bool = since_instr / 1_000_000 > 10;
        let ran = self.tick(timers_go, instr_go, keypad, new_keypress);
        if ran {
            self.i_last = now;
        }
        proof {
            let r = choose|r: u8|
                self@ == tick_spec(s0, timers_go, instr_go, keypad@, new_keypress, r);
            assert(self@ == tick_spec(
                s0,
                timer_due(nanos_since(now, old(self).timer_nanos())),
                instr_due(millis_since(now, old(self).instr_nanos())),
                keypad@,
                new_keypress,
                r,
            ));
        }
    }

    /// Must be called 60 times per second. Reads the clock once, as nanoseconds
    /// from the clock anchor, and steps the machine at that reading (see
    /// [`ACEmulator::step_at`]): the reading depends on the clock, and whatever
    /// it was, the state and the recorded readings are those `step_at` gives for it.
    pub fn update(&mut self, keypad: &ACKeyboard, new_keypress: Option<ACKey>)
        requires
            !old(self)@.waiting_for_key ==> next_ok(old(self)@, keypad@),
        ensures
            final(self)@.wf(),
            exists|timers_ran: bool, instr_ran: bool, rnd: u8|
                final(self)@ == #[trigger] apply_op(
                    old(self)@,
                    (MachineOp::Tick {
                        timer_due: timers_ran,
                        instr_due: instr_ran,
                        keys: keypad@,
                        key: new_keypress,
                        rnd,
                    }),
                ),
            exists|now: u128, rnd: u8|
                {
                    &&& final(self)@ == #[trigger] tick_spec(
                        old(self)@,
                        timer_due(nanos_since(now, old(self).timer_nanos())),
                        instr_due(millis_since(now, old(self).instr_nanos())),
                        keypad@,
                        new_keypress,
                        rnd,
                    )
                    &&& final(self).timer_nanos() == if timer_due(
                        nanos_since(now, old(self).timer_nanos()),
                    ) {
                        now
                    } else {
                        old(self).timer_nanos()
                    }
                    &&& final(self).instr_nanos() == if instr_due(
                        millis_since(now, old(self).instr_nanos()),
                    ) && !old(self)@.waiting_for_key {
                        now
                    } else {
                        old(self).instr_nanos()
                    }
                },
    {
        proof {
            use_type_invariant(&*self);
            self.renderer.lemma_view_is_frame();
        }
        proof {
            reveal(apply_op);
        }
        let now: u128 = whole_nanos(&time_between(clock_now(), self.clock_anchor));
        let ghost s0 = self@;
        let ghost t0 = self.t_last;
        let ghost i0 = self.i_last;
        self.step_at(now, keypad, new_keypress);
        proof {
            let r = choose|r: u8|
                self@ == tick_spec(
                    s0,
                    timer_due(nanos_since(now, t0)),
                    instr_due(millis_since(now, i0)),
                    keypad@,
                    new_keypress,
                    r,
                );
            assert(self@ == apply_op(
                s0,
                MachineOp::Tick {
                    timer_due: timer_due(nanos_since(now, t0)),
                    instr_due: instr_due(millis_since(now, i0)),
                    keys: keypad@,
                    key: new_keypress,
                    rnd: r,
                },
            ));
        }
    }
}

impl ACEmulator {
    /// The display buffer; its view is the screen of the interpreter's view.
    pub fn renderer(&self) -> (r: &ACRenderer)
        ensures
            r@ == self@.screen,
    {
        &self.renderer
    }

    /// The text of the current frame (see [`frame_text`]), rendered by the
    /// display buffer with its cache; nothing of the interpreter changes.
    pub fn render_string(&mut self) -> (s: String)
        ensures
            s@ == frame_text(old(self)@.screen),
            final(self)@ == old(self)@,
            final(self).timer_nanos() == old(self).timer_nanos(),
            final(self).instr_nanos() == old(self).instr_nanos(),
    {
        proof {
            use_type_invariant(&*self);
        }
        let mut r = ACRenderer::new();
        std::mem::swap(&mut r, &mut self.renderer);
        let s = r.render_string();
        std::mem::swap(&mut r, &mut self.renderer);
        s
    }

    /// The register `V{k}`.
    pub fn register(&self, k: usize) -> (v: u8)
        requires
            k < 16,
        ensures
            v == self@.regs[k as int],
    {
        self.regs[k]
    }

    /// The byte at address `a`.
    pub fn memory_byte(&self, a: usize) -> (v: u8)
        requires
            a < MEMORY_SIZE,
        ensures
            v == self@.memory[a as int],
    {
        self.memory[a]
    }

    /// The program counter.
    pub fn program_counter(&self) -> (pc: usize)
        ensures
            pc == self@.pc,
    {
        self.pc
    }

    /// The index register I.
    pub fn index_register(&self) -> (i: u16)
        ensures
            i == self@.i,
    {
        self.i
    }

    /// The delay timer.
    pub fn delay_timer(&self) -> (t: u8)
        ensures
            t == self@.dt,
    {
        self.dt
    }

    /// The sound timer.
    pub fn sound_timer(&self) -> (t: u8)
        ensures
            t == self@.st,
    {
        self.st
    }

    /// The stack pointer.
    pub fn stack_pointer(&self) -> (sp: u8)
        ensures
            sp == self@.stack_ptr,
    {
        self.stack_ptr
    }

    /// Whether the machine is paused until a key is pressed.
    pub fn is_waiting_for_key(&self) -> (w: bool)
        ensures
            w == self@.waiting_for_key,
    {
        self.waiting_for_key
    }
}

} // verus!
