use crate::display::{blit, hits};
use crate::errors::ChipError;
use crate::globals::{
    FONT_ADDR, KEY_COUNT, RAM_SIZE, REG_COUNT, SCREEN_BUFFER_SIZE, STACK_SIZE,
};
use crate::utils::{addr_of, byte_of, word_of};
use vstd::prelude::*;

verus! {

/// The state of the virtual machine as plain mathematical values. The
/// stack is all of its slots together with the number `sp` of slots in
/// use: the return addresses in use are the first `sp` slots, the oldest
/// first, and a slot beyond them keeps whatever was last written to it.
pub struct Machine {
    pub memory: Seq<u8>,
    pub screen: Seq<u8>,
    pub v: Seq<u8>,
    pub pc: u16,
    pub i: u16,
    pub stack: Seq<u16>,
    pub sp: nat,
    pub delay_timer: u8,
    pub sound_timer: u8,
    pub keys: Seq<bool>,
    pub seed: u32,
    pub redraw: bool,
    pub shift_uses_vy: bool,
}

/// An instruction word as its four nibbles, the most significant first.
pub type Opcode = (u8, u8, u8, u8);

/// What one instruction cycle leaves behind: the new state, and whether
/// the instruction was carried out.
pub struct Outcome {
    pub state: Machine,
    pub result: Result<(), ChipError>,
}

/// What taking an address off the stack leaves behind: the new state, and
/// the address, where there was one.
pub struct Popped {
    pub state: Machine,
    pub result: Result<u16, ChipError>,
}

/// What a run of pops leaves behind: the new state, the addresses taken
/// off, in the order in which they came, and whether every pop found one.
pub struct PoppedAll {
    pub state: Machine,
    pub values: Seq<u16>,
    pub result: Result<(), ChipError>,
}

/// A screen with every pixel unlit.
pub open spec fn blank_screen() -> Seq<u8> {
    Seq::new(SCREEN_BUFFER_SIZE as nat, |i: int| 0u8)
}

/// The generator's state after one xorshift round.
pub open spec fn next_seed(seed: u32) -> u32 {
    let a = seed ^ (seed << 13u32);
    let b = a ^ (a >> 17u32);
    b ^ (b << 5u32)
}

/// The byte drawn from a generator state: its low eight bits.
pub open spec fn low_byte(seed: u32) -> u8 {
    (seed & 0xFF) as u8
}

/// The lowest pressed key at or after `k`, if any.
pub open spec fn pressed_from(keys: Seq<bool>, k: int) -> Option<int>
    decreases keys.len() - k,
{
    if k < 0 || k >= keys.len() {
        None
    } else if keys[k] {
        Some(k)
    } else {
        pressed_from(keys, k + 1)
    }
}

/// The four nibbles of the two bytes `hi` and `lo`.
pub open spec fn nibbles(hi: u8, lo: u8) -> Opcode {
    (hi >> 4u8, hi & 0x0F, lo >> 4u8, lo & 0x0F)
}

/// The highest address that an access of `len` bytes from `start` on
/// reaches for, as a 16-bit value.
pub open spec fn reach(start: u16, len: int) -> u16 {
    ((start + len) % 0x1_0000) as u16
}

impl Machine {
    /// The sizes that every machine state has.
    pub open spec fn wf(self) -> bool {
        &&& self.memory.len() == RAM_SIZE
        &&& self.screen.len() == SCREEN_BUFFER_SIZE
        &&& self.v.len() == REG_COUNT
        &&& self.keys.len() == KEY_COUNT
        &&& self.stack.len() == STACK_SIZE
        &&& self.sp <= STACK_SIZE
    }

    /// The state with the flag register set to 1 or 0.
    pub open spec fn with_flag(self, on: bool) -> Machine {
        Machine { v: self.v.update(0xF, if on { 1u8 } else { 0u8 }), ..self }
    }

    /// The state with register `x` set to `val`.
    pub open spec fn with_reg(self, x: u8, val: u8) -> Machine {
        Machine { v: self.v.update(x as int, val), ..self }
    }

    /// The state with the program counter moved past one more instruction
    /// if `cond` holds.
    pub open spec fn skip_if(self, cond: bool) -> Machine {
        if cond {
            Machine { pc: (self.pc + 2) as u16, ..self }
        } else {
            self
        }
    }

    /// The state with `data` copied into memory from `addr` on.
    pub open spec fn with_bytes(self, addr: int, data: Seq<u8>) -> Machine {
        Machine {
            memory: Seq::new(
                self.memory.len(),
                |a: int|
                    if addr <= a < addr + data.len() {
                        data[a - addr]
                    } else {
                        self.memory[a]
                    },
            ),
            ..self
        }
    }

    /// The state with registers `V0` to `Vx` read from memory at the index
    /// register.
    pub open spec fn with_regs_loaded(self, x: u8) -> Machine {
        Machine {
            v: Seq::new(
                self.v.len(),
                |r: int|
                    if r <= x {
                        self.memory[self.i + r]
                    } else {
                        self.v[r]
                    },
            ),
            ..self
        }
    }

    /// The instruction at the program counter, where two bytes can be
    /// read there.
    pub open spec fn fetch(self) -> Option<Opcode> {
        if self.pc > RAM_SIZE - 2 {
            None
        } else {
            Some(nibbles(self.memory[self.pc as int], self.memory[self.pc + 1]))
        }
    }

    /// A successful outcome.
    pub open spec fn done(self) -> Outcome {
        Outcome { state: self, result: Ok(()) }
    }

    /// A failed outcome.
    pub open spec fn failed(self, e: ChipError) -> Outcome {
        Outcome { state: self, result: Err(e) }
    }

    /// The return addresses in use, the oldest first.
    pub open spec fn in_use(self) -> Seq<u16> {
        self.stack.take(self.sp as int)
    }

    /// A return address written to the first free slot of the stack, which
    /// is then in use; or a stack overflow, with nothing changed, where
    /// the stack would then be full.
    pub open spec fn push(self, val: u16) -> Outcome {
        if self.sp + 1 >= STACK_SIZE {
            self.failed(ChipError::StackOverflow)
        } else {
            Machine { stack: self.stack.update(self.sp as int, val), sp: self.sp + 1, ..self }.done()
        }
    }

    /// The newest return address taken off the stack: its slot is no
    /// longer in use, and no slot is written. Or a stack underflow, with
    /// nothing changed, where no slot is in use.
    pub open spec fn pop(self) -> Popped {
        if self.sp == 0 {
            Popped { state: self, result: Err(ChipError::StackUnderflow) }
        } else {
            Popped {
                state: Machine { sp: (self.sp - 1) as nat, ..self },
                result: Ok(self.stack[self.sp - 1]),
            }
        }
    }

    /// The addresses `vals` pushed one after another, up to the first
    /// that the stack refuses.
    pub open spec fn push_all(self, vals: Seq<u16>) -> Outcome
        decreases vals.len(),
    {
        if vals.len() == 0 {
            self.done()
        } else {
            let before = self.push_all(vals.drop_last());
            if before.result is Ok {
                before.state.push(vals.last())
            } else {
                before
            }
        }
    }

    /// `n` pops one after another, up to the first that finds the stack
    /// empty.
    pub open spec fn pop_all(self, n: nat) -> PoppedAll
        decreases n,
    {
        if n == 0 {
            PoppedAll { state: self, values: Seq::empty(), result: Ok(()) }
        } else {
            match self.pop().result {
                Ok(val) => {
                    let rest = self.pop().state.pop_all((n - 1) as nat);
                    PoppedAll {
                        state: rest.state,
                        values: seq![val] + rest.values,
                        result: rest.result,
                    }
                },
                Err(e) => PoppedAll { state: self, values: Seq::empty(), result: Err(e) },
            }
        }
    }

    /// The effect of the arithmetic instruction `8xyn`.
    pub open spec fn alu(self, x: u8, y: u8, n: u8, raw: u16) -> Outcome {
        let vx = self.v[x as int];
        let vy = self.v[y as int];
        let src = if self.shift_uses_vy {
            vy
        } else {
            vx
        };
        if n == 0 {
            self.with_reg(x, vy).done()
        } else if n == 1 {
            self.with_reg(x, vx | vy).done()
        } else if n == 2 {
            self.with_reg(x, vx & vy).done()
        } else if n == 3 {
            self.with_reg(x, vx ^ vy).done()
        } else if n == 4 {
            self.with_reg(x, ((vx + vy) % 256) as u8).with_flag(vx + vy > 255).done()
        } else if n == 5 {
            self.with_reg(x, ((vx - vy) % 256) as u8).with_flag(vx < vy).done()
        } else if n == 6 {
            self.with_flag(src & 1 == 1).with_reg(x, src >> 1u8).done()
        } else if n == 7 {
            self.with_reg(x, ((vy - vx) % 256) as u8).with_flag(vy < vx).done()
        } else if n == 0xE {
            self.with_flag(src >> 7u8 == 1).with_reg(x, src << 1u8).done()
        } else {
            self.failed(ChipError::IllegalInst(raw))
        }
    }

    /// The effect of the drawing instruction `Dxyn`.
    pub open spec fn draw(self, x: u8, y: u8, n: u8) -> Outcome {
        if self.i + n >= RAM_SIZE {
            self.failed(ChipError::IllegalAddr(reach(self.i, n as int)))
        } else {
            let sprite = self.memory.subrange(self.i as int, self.i + n);
            let vx = self.v[x as int];
            let vy = self.v[y as int];
            Machine {
                screen: blit(self.screen, sprite, vx as int, vy as int),
                redraw: true,
                ..self
            }.with_flag(hits(self.screen, sprite, vx as int, vy as int) != 0).done()
        }
    }

    /// The effect of the keypad instructions `Ex9E` and `ExA1`.
    pub open spec fn key_skip(self, x: u8, y: u8, n: u8, raw: u16) -> Outcome {
        let vx = self.v[x as int];
        if (y == 9 && n == 0xE) || (y == 0xA && n == 1) {
            if vx >= KEY_COUNT {
                self.failed(ChipError::IllegalKey(vx))
            } else {
                self.skip_if(self.keys[vx as int] == (y == 9)).done()
            }
        } else {
            self.failed(ChipError::IllegalInst(raw))
        }
    }

    /// The effect of the instructions `Fxnn`.
    pub open spec fn misc(self, x: u8, y: u8, n: u8, raw: u16) -> Outcome {
        let vx = self.v[x as int];
        if y == 0 && n == 7 {
            self.with_reg(x, self.delay_timer).done()
        } else if y == 0 && n == 0xA {
            match pressed_from(self.keys, 0) {
                Some(k) => self.with_reg(x, k as u8).done(),
                None => Machine { pc: (self.pc - 2) as u16, ..self }.done(),
            }
        } else if y == 1 && n == 5 {
            Machine { delay_timer: vx, ..self }.done()
        } else if y == 1 && n == 8 {
            Machine { sound_timer: vx, ..self }.done()
        } else if y == 1 && n == 0xE {
            Machine { i: reach(self.i, vx as int), ..self }.done()
        } else if y == 2 && n == 9 {
            Machine { i: (FONT_ADDR + vx) as u16, ..self }.done()
        } else if y == 3 && n == 3 {
            if self.i + 2 >= RAM_SIZE {
                self.failed(ChipError::IllegalAddr(reach(self.i, 2)))
            } else {
                self.with_bytes(
                    self.i as int,
                    seq![vx / 100, vx % 100 / 10, vx % 10],
                ).done()
            }
        } else if y == 5 && n == 5 {
            if self.i + x >= RAM_SIZE {
                self.failed(ChipError::IllegalAddr(reach(self.i, x as int)))
            } else {
                self.with_bytes(self.i as int, self.v.take(x + 1)).done()
            }
        } else if y == 6 && n == 5 {
            if self.i + x >= RAM_SIZE {
                self.failed(ChipError::IllegalAddr(reach(self.i, x as int)))
            } else {
                self.with_regs_loaded(x).done()
            }
        } else {
            self.failed(ChipError::IllegalInst(raw))
        }
    }

    /// The effect of the instructions that move the program counter or
    /// clear the screen: `00E0`, `00EE`, `0nnn`, `1nnn`, `2nnn`, `Bnnn`.
    pub open spec fn flow(self, op: Opcode) -> Outcome {
        let (a, x, y, n) = op;
        let nnn = addr_of(x, y, n);
        if a == 0 {
            if x == 0 && y == 0xE && n == 0 {
                Machine { screen: blank_screen(), redraw: true, ..self }.done()
            } else if x == 0 && y == 0xE && n == 0xE {
                match self.pop().result {
                    Ok(addr) => Machine { pc: addr, ..self.pop().state }.done(),
                    Err(e) => self.failed(e),
                }
            } else {
                self.done()
            }
        } else if a == 1 {
            Machine { pc: nnn, ..self }.done()
        } else if a == 2 {
            let pushed = self.push(self.pc);
            if pushed.result is Ok {
                Machine { pc: nnn, ..pushed.state }.done()
            } else {
                pushed
            }
        } else {
            Machine { pc: (nnn + self.v[0]) as u16, ..self }.done()
        }
    }

    /// The effect of the instructions that compare a register and skip:
    /// `3xnn`, `4xnn`, `5xy0`, `9xy0`.
    pub open spec fn branch(self, op: Opcode, raw: u16) -> Outcome {
        let (a, x, y, n) = op;
        let nn = byte_of(y, n);
        let vx = self.v[x as int];
        let vy = self.v[y as int];
        if a == 3 {
            self.skip_if(vx == nn).done()
        } else if a == 4 {
            self.skip_if(vx != nn).done()
        } else if a == 5 && n == 0 {
            self.skip_if(vx == vy).done()
        } else if a == 9 && n == 0 {
            self.skip_if(vx != vy).done()
        } else {
            self.failed(ChipError::IllegalInst(raw))
        }
    }

    /// The effect of the instructions that set a register from a
    /// constant: `6xnn`, `7xnn`, `Annn`, `Cxnn`.
    pub open spec fn assign(self, op: Opcode) -> Outcome {
        let (a, x, y, n) = op;
        let nn = byte_of(y, n);
        let vx = self.v[x as int];
        if a == 6 {
            self.with_reg(x, nn).done()
        } else if a == 7 {
            self.with_reg(x, ((vx + nn) % 256) as u8).done()
        } else if a == 0xA {
            Machine { i: addr_of(x, y, n), ..self }.done()
        } else {
            Machine { seed: next_seed(self.seed), ..self }.with_reg(
                x,
                low_byte(next_seed(self.seed)) & nn,
            ).done()
        }
    }

    /// The effect of the instruction `op` on a state whose program counter
    /// already points past it. `raw` is the instruction word.
    pub open spec fn execute(self, op: Opcode, raw: u16) -> Outcome {
        let (a, x, y, n) = op;
        if a == 0 || a == 1 || a == 2 || a == 0xB {
            self.flow(op)
        } else if a == 3 || a == 4 || a == 5 || a == 9 {
            self.branch(op, raw)
        } else if a == 6 || a == 7 || a == 0xA || a == 0xC {
            self.assign(op)
        } else if a == 8 {
            self.alu(x, y, n, raw)
        } else if a == 0xD {
            self.draw(x, y, n)
        } else if a == 0xE {
            self.key_skip(x, y, n, raw)
        } else if a == 0xF {
            self.misc(x, y, n, raw)
        } else {
            self.failed(ChipError::IllegalInst(raw))
        }
    }

    /// One instruction cycle. Where no instruction can be read at the
    /// program counter, nothing changes. Otherwise the counter moves past
    /// the instruction first, and the instruction then takes its effect.
    pub open spec fn step(self) -> Outcome {
        match self.fetch() {
            None => self.failed(ChipError::IllegalAddr(self.pc)),
            Some(op) => Machine { pc: (self.pc + 2) as u16, ..self }.execute(
                op,
                word_of(self.memory[self.pc as int], self.memory[self.pc + 1]),
            ),
        }
    }

    /// The state after one timer tick: each timer that is not zero goes
    /// down by one.
    pub open spec fn tick(self) -> Machine {
        Machine {
            delay_timer: if self.delay_timer > 0 {
                (self.delay_timer - 1) as u8
            } else {
                0
            },
            sound_timer: if self.sound_timer > 0 {
                (self.sound_timer - 1) as u8
            } else {
                0
            },
            ..self
        }
    }
}

} // verus!
