use crate::display::Display;
use crate::errors::ChipError;
use crate::font::{FONT, FONT_SIZE};
use crate::globals::{
    DEFAULT_SEED, FONT_ADDR, KEY_COUNT, RAM_SIZE, REG_COUNT, SHIFT_OP_USE_VY, STACK_SIZE,
};
use crate::machine_laws::lemma_nibbles_spell_word;
use crate::machine::{
    blank_screen, low_byte, next_seed, nibbles, pressed_from, reach, Machine, Opcode,
};
use crate::utils::{u16_from_three, u16_from_two, u8_from_two};
use vstd::prelude::*;

verus! {

/// The virtual machine: memory, registers, call stack, timers, keypad,
/// display and random generator in one value.
pub struct Cpu {
    pub memory: [u8; RAM_SIZE],
    pub display: Display,
    pub v: [u8; REG_COUNT],
    pub pc: u16,
    pub i: u16,
    pub sp: usize,
    pub stack: [u16; STACK_SIZE],
    pub delay_timer: u8,
    pub sound_timer: u8,
    pub keys: [bool; KEY_COUNT],
    pub random_seed: u32,
    pub redraw: bool,
    pub shift_uses_vy: bool,
}

impl View for Cpu {
    type V = Machine;

    open spec fn view(&self) -> Machine {
        Machine {
            memory: self.memory@,
            screen: self.display@,
            v: self.v@,
            pc: self.pc,
            i: self.i,
            stack: self.stack@,
            sp: self.sp as nat,
            delay_timer: self.delay_timer,
            sound_timer: self.sound_timer,
            keys: self.keys@,
            seed: self.random_seed,
            redraw: self.redraw,
            shift_uses_vy: self.shift_uses_vy,
        }
    }
}

/// The state of a machine that was just made: the glyphs in memory,
/// everything else zero, every stack slot too, but for the sound timer,
/// which starts full, and the generator, which starts from its default
/// seed.
pub open spec fn power_on() -> Machine {
    Machine {
        memory: Seq::new(
            RAM_SIZE as nat,
            |a: int|
                if FONT_ADDR <= a < FONT_ADDR + FONT_SIZE {
                    FONT@[a - FONT_ADDR]
                } else {
                    0u8
                },
        ),
        screen: blank_screen(),
        v: Seq::new(REG_COUNT as nat, |r: int| 0u8),
        pc: 0,
        i: 0,
        stack: Seq::new(STACK_SIZE as nat, |j: int| 0u16),
        sp: 0,
        delay_timer: 0,
        sound_timer: u8::MAX,
        keys: Seq::new(KEY_COUNT as nat, |k: int| false),
        seed: DEFAULT_SEED,
        redraw: false,
        shift_uses_vy: SHIFT_OP_USE_VY,
    }
}

impl Cpu {
    /// The stack pointer never passes the end of the stack.
    pub open spec fn wf(&self) -> bool {
        self.sp <= STACK_SIZE
    }

    /// The view of a machine has the sizes of a machine state.
    pub proof fn lemma_view_wf(&self)
        requires
            self.wf(),
        ensures
            self@.wf(),
    {
    }

    /// A machine with the glyphs loaded and no program.
    pub fn new() -> (cpu: Self)
        ensures
            cpu.wf(),
            cpu@ == power_on(),
            cpu.sp == 0,
            cpu.stack@ == Seq::new(STACK_SIZE as nat, |j: int| 0u16),
    {
        let mut cpu = Cpu {
            memory: [0; RAM_SIZE],
            display: Display::new(),
            v: [0; REG_COUNT],
            pc: 0,
            i: 0,
            sp: 0,
            stack: [0; STACK_SIZE],
            delay_timer: 0,
            sound_timer: u8::MAX,
            keys: [false; KEY_COUNT],
            random_seed: DEFAULT_SEED,
            redraw: false,
            shift_uses_vy: SHIFT_OP_USE_VY,
        };
        let font = FONT;
        let _ = cpu.load(FONT_ADDR, font.as_slice());
        proof {
            assert(cpu@.memory =~= power_on().memory);
            assert(cpu@.v =~= power_on().v);
            assert(cpu@.keys =~= power_on().keys);
            assert(cpu@.stack =~= power_on().stack);
        }
        cpu
    }

    /// Copies `data` into memory from `addr` on and points the program
    /// counter at it. Data that does not fit is refused, and nothing
    /// changes.
    pub fn load_rom(&mut self, addr: u16, data: &[u8]) -> (r: Result<(), ChipError>)
        ensures
            final(self).wf() == old(self).wf(),
            addr + data@.len() <= RAM_SIZE ==> r == Ok::<(), ChipError>(()) && final(self)@ == (Machine {
                pc: addr,
                ..old(self)@.with_bytes(addr as int, data@)
            }),
            addr + data@.len() > RAM_SIZE ==> r == Err::<(), ChipError>(ChipError::IllegalAddr(addr))
                && *final(self) == *old(self),
            *final(self) == (Cpu {
                memory: final(self).memory,
                pc: final(self).pc,
                ..*old(self)
            }),
    {
        self.load(addr, data)?;
        self.pc = addr;
        Ok(())
    }

    /// Copies `data` into memory from `addr` on. Data that does not fit
    /// is refused, and nothing changes.
    pub fn load(&mut self, addr: u16, data: &[u8]) -> (r: Result<(), ChipError>)
        ensures
            final(self).wf() == old(self).wf(),
            addr + data@.len() <= RAM_SIZE ==> r == Ok::<(), ChipError>(()) && final(self)@ == old(self)@.with_bytes(
                addr as int,
                data@,
            ),
            addr + data@.len() > RAM_SIZE ==> r == Err::<(), ChipError>(ChipError::IllegalAddr(addr))
                && *final(self) == *old(self),
            *final(self) == (Cpu { memory: final(self).memory, ..*old(self) }),
    {
        let start = addr as usize;
        if start > RAM_SIZE || data.len() > RAM_SIZE - start {
            return Err(ChipError::IllegalAddr(addr));
        }
        for k in 0..data.len()
            invariant
                start == addr,
                start + data@.len() <= RAM_SIZE,
                self.memory@ == old(self)@.with_bytes(addr as int, data@.take(k as int)).memory,
                self.display == old(self).display,
                self.v == old(self).v,
                self.pc == old(self).pc,
                self.i == old(self).i,
                self.sp == old(self).sp,
                self.stack == old(self).stack,
                self.delay_timer == old(self).delay_timer,
                self.sound_timer == old(self).sound_timer,
                self.keys == old(self).keys,
                self.random_seed == old(self).random_seed,
                self.redraw == old(self).redraw,
                self.shift_uses_vy == old(self).shift_uses_vy,
        {
            self.memory[start + k] = data[k];
            assert(self.memory@ =~= old(self)@.with_bytes(
                addr as int,
                data@.take(k + 1),
            ).memory);
        }
        assert(data@.take(data@.len() as int) =~= data@);
        Ok(())
    }

    /// The packed framebuffer, 256 bytes, scanline after scanline.
    pub fn get_display_buffer(&self) -> (r: &[u8])
        ensures
            r@ == self@.screen,
    {
        self.display.get_buffer().as_slice()
    }

    /// Whether the screen changed since this was last asked; asking
    /// clears the mark.
    pub fn take_redraw(&mut self) -> (r: bool)
        ensures
            r == old(self)@.redraw,
            *final(self) == (Cpu { redraw: false, ..*old(self) }),
    {
        if self.redraw {
            self.redraw = false;
            return true;
        }
        false
    }

    /// Sets the state of the random generator.
    pub fn set_random_seed(&mut self, val: u32)
        ensures
            *final(self) == (Cpu { random_seed: val, ..*old(self) }),
    {
        self.random_seed = val;
    }

    /// Replaces the state of all sixteen keys.
    pub fn set_keys(&mut self, keys: [bool; KEY_COUNT])
        ensures
            *final(self) == (Cpu { keys: keys, ..*old(self) }),
    {
        self.keys = keys;
    }

    /// Chooses the register that `8xy6` and `8xyE` shift: `Vy` if
    /// `use_vy`, else `Vx`.
    pub fn set_shift_quirk(&mut self, use_vy: bool)
        ensures
            *final(self) == (Cpu { shift_uses_vy: use_vy, ..*old(self) }),
    {
        self.shift_uses_vy = use_vy;
    }

    /// Carries out the instruction at the program counter. The counter
    /// moves past the instruction before the instruction takes effect, so
    /// that jumps, calls and skips set it last. An instruction that cannot
    /// be read leaves the machine as it was; one that fails after that
    /// leaves the counter behind it and changes nothing else. Of the stack
    /// at most the first free slot is written, by a call.
    pub fn step(&mut self) -> (r: Result<(), ChipError>)
        requires
            old(self).wf(),
        ensures
            final(self).wf(),
            r == old(self)@.step().result,
            final(self)@ == old(self)@.step().state,
            forall|j: int|
                0 <= j < STACK_SIZE && j != old(self).sp ==> final(self).stack@[j] == old(
                    self,
                ).stack@[j],
            r is Err ==> final(self).stack == old(self).stack && final(self).sp == old(self).sp,
    {
        let op = self.get_current_opcode()?;
        let raw = u16_from_two(self.memory[self.pc as usize], self.memory[self.pc as usize + 1]);
        self.pc = self.pc + 2;
        self.execute(op, raw)
    }

    /// Carries out the instruction `op`, whose word is `raw`, on a machine
    /// whose program counter already points past it.
    fn execute(&mut self, op: Opcode, raw: u16) -> (r: Result<(), ChipError>)
        requires
            old(self).wf(),
            op.0 < 16 && op.1 < 16 && op.2 < 16 && op.3 < 16,
            2 <= old(self).pc <= RAM_SIZE,
        ensures
            final(self).wf(),
            r == old(self)@.execute(op, raw).result,
            final(self)@ == old(self)@.execute(op, raw).state,
            forall|j: int|
                0 <= j < STACK_SIZE && j != old(self).sp ==> final(self).stack@[j] == old(
                    self,
                ).stack@[j],
            r is Err ==> final(self).stack == old(self).stack && final(self).sp == old(self).sp,
    {
        let (a, x, y, n) = op;
        match a {
            0 | 1 | 2 | 0xB => self.execute_flow(op),
            3 | 4 | 5 | 9 => self.execute_branch(op, raw),
            6 | 7 | 0xA | 0xC => self.execute_assign(op),
            8 => self.execute_alu(x, y, n, raw),
            0xD => self.execute_draw(x, y, n),
            0xE => self.execute_key_skip(x, y, n, raw),
            0xF => self.execute_misc(x, y, n, raw),
            _ => Err(ChipError::IllegalInst(raw)),
        }
    }

    /// Carries out the instructions that move the program counter or
    /// clear the screen: `00E0`, `00EE`, `0nnn`, `1nnn`, `2nnn`, `Bnnn`.
    fn execute_flow(&mut self, op: Opcode) -> (r: Result<(), ChipError>)
        requires
            old(self).wf(),
            op.0 == 0 || op.0 == 1 || op.0 == 2 || op.0 == 0xB,
            op.1 < 16 && op.2 < 16 && op.3 < 16,
        ensures
            final(self).wf(),
            r == old(self)@.flow(op).result,
            final(self)@ == old(self)@.flow(op).state,
            forall|j: int|
                0 <= j < STACK_SIZE && j != old(self).sp ==> final(self).stack@[j] == old(
                    self,
                ).stack@[j],
            r is Err ==> final(self).stack == old(self).stack && final(self).sp == old(self).sp,
    {
        let ghost m = self@;
        match op {
            (0, 0, 0xE, 0) => {
                self.display.clear();
                self.redraw = true;
                assert(self@ == Machine { screen: blank_screen(), redraw: true, ..m });
            },
            (0, 0, 0xE, 0xE) => {
                let addr = self.pop_stack()?;
                self.pc = addr;
                assert(self@ == Machine { pc: addr, ..m.pop().state });
            },
            // a call into machine code: ignored
            (0, _, _, _) => (),
            (1, n0, n1, n2) => {
                let target = u16_from_three(n0, n1, n2);
                self.pc = target;
                assert(self@ == Machine { pc: target, ..m });
            },
            (2, n0, n1, n2) => {
                self.push_stack(self.pc)?;
                let target = u16_from_three(n0, n1, n2);
                self.pc = target;
                assert(self@ == Machine { pc: target, ..m.push(m.pc).state });
            },
            (_, n0, n1, n2) => {
                let target = u16_from_three(n0, n1, n2) + self.v[0] as u16;
                self.pc = target;
                assert(self@ == Machine { pc: target, ..m });
            },
        };
        Ok(())
    }

    /// Carries out the instructions that compare a register and skip:
    /// `3xnn`, `4xnn`, `5xy0`, `9xy0`.
    fn execute_branch(&mut self, op: Opcode, raw: u16) -> (r: Result<(), ChipError>)
        requires
            op.0 == 3 || op.0 == 4 || op.0 == 5 || op.0 == 9,
            op.1 < 16 && op.2 < 16 && op.3 < 16,
            old(self).pc <= RAM_SIZE,
        ensures
            final(self).wf() == old(self).wf(),
            final(self).stack == old(self).stack && final(self).sp == old(self).sp,
            r == old(self)@.branch(op, raw).result,
            final(self)@ == old(self)@.branch(op, raw).state,
    {
        let ghost m = self@;
        let (a, x, y, n) = op;
        let vx = self.get_reg(x)?;
        let skip = match (a, n) {
            (3, _) => vx == u8_from_two(y, n),
            (4, _) => vx != u8_from_two(y, n),
            (5, 0) => vx == self.get_reg(y)?,
            (9, 0) => vx != self.get_reg(y)?,
            _ => {
                return Err(ChipError::IllegalInst(raw));
            },
        };
        if skip {
            self.pc = self.pc + 2;
        }
        assert(self@ == m.skip_if(skip));
        Ok(())
    }

    /// Carries out the instructions that set a register from a constant:
    /// `6xnn`, `7xnn`, `Annn`, `Cxnn`.
    fn execute_assign(&mut self, op: Opcode) -> (r: Result<(), ChipError>)
        requires
            op.0 == 6 || op.0 == 7 || op.0 == 0xA || op.0 == 0xC,
            op.1 < 16 && op.2 < 16 && op.3 < 16,
        ensures
            final(self).wf() == old(self).wf(),
            final(self).stack == old(self).stack && final(self).sp == old(self).sp,
            r == old(self)@.assign(op).result,
            final(self)@ == old(self)@.assign(op).state,
    {
        let ghost m = self@;
        match op {
            (6, x, n0, n1) => {
                self.set_reg(x, u8_from_two(n0, n1))?;
            },
            (7, x, n0, n1) => {
                let vx = self.get_reg(x)?;
                let nn = u8_from_two(n0, n1);
                let sum = vx.wrapping_add(nn);
                assert(sum == ((vx + nn) % 256) as u8);
                self.set_reg(x, sum)?;
            },
            (0xA, n0, n1, n2) => {
                let addr = u16_from_three(n0, n1, n2);
                self.i = addr;
                assert(self@ == Machine { i: addr, ..m });
            },
            (_, x, n0, n1) => {
                let r = self.random();
                let seeded = Ghost(self@);
                assert(seeded@ == Machine { seed: next_seed(m.seed), ..m });
                let val = r & u8_from_two(n0, n1);
                self.set_reg(x, val)?;
                assert(self@ == seeded@.with_reg(x, val));
            },
        };
        Ok(())
    }

    /// Carries out the arithmetic instruction `8xyn`.
    fn execute_alu(&mut self, x: u8, y: u8, n: u8, raw: u16) -> (r: Result<(), ChipError>)
        requires
            x < 16 && y < 16,
        ensures
            final(self).wf() == old(self).wf(),
            final(self).stack == old(self).stack && final(self).sp == old(self).sp,
            r == old(self)@.alu(x, y, n, raw).result,
            final(self)@ == old(self)@.alu(x, y, n, raw).state,
    {
        let vx = self.get_reg(x)?;
        let vy = self.get_reg(y)?;
        let src = if self.shift_uses_vy {
            vy
        } else {
            vx
        };
        let ghost m = self@;
        match n {
            0 => {
                self.set_reg(x, vy)?;
            },
            1 => {
                self.set_reg(x, vx | vy)?;
            },
            2 => {
                self.set_reg(x, vx & vy)?;
            },
            3 => {
                self.set_reg(x, vx ^ vy)?;
            },
            4 => {
                let sum = vx.wrapping_add(vy);
                assert(sum == ((vx + vy) % 256) as u8);
                self.set_reg(x, sum)?;
                self.set_flag(vy > u8::MAX - vx);
                assert(self@ == m.with_reg(x, sum).with_flag(vx + vy > 255));
            },
            5 => {
                let diff = vx.wrapping_sub(vy);
                assert(diff == ((vx - vy) % 256) as u8);
                self.set_reg(x, diff)?;
                self.set_flag(vx < vy);
                assert(self@ == m.with_reg(x, diff).with_flag(vx < vy));
            },
            6 => {
                self.set_flag(src & 1 == 1);
                self.set_reg(x, src >> 1)?;
                assert(self@ == m.with_flag(src & 1 == 1).with_reg(x, src >> 1u8));
            },
            7 => {
                let diff = vy.wrapping_sub(vx);
                assert(diff == ((vy - vx) % 256) as u8);
                self.set_reg(x, diff)?;
                self.set_flag(vy < vx);
                assert(self@ == m.with_reg(x, diff).with_flag(vy < vx));
            },
            0xE => {
                self.set_flag(src >> 7 == 1);
                self.set_reg(x, src << 1)?;
                assert(self@ == m.with_flag(src >> 7u8 == 1).with_reg(x, src << 1u8));
            },
            _ => {
                return Err(ChipError::IllegalInst(raw));
            },
        }
        Ok(())
    }

    /// Carries out the drawing instruction `Dxyn`.
    fn execute_draw(&mut self, x: u8, y: u8, n: u8) -> (r: Result<(), ChipError>)
        requires
            x < 16 && y < 16 && n < 16,
        ensures
            final(self).wf() == old(self).wf(),
            final(self).stack == old(self).stack && final(self).sp == old(self).sp,
            r == old(self)@.draw(x, y, n).result,
            final(self)@ == old(self)@.draw(x, y, n).state,
    {
        let start = self.i as usize;
        if start + n as usize >= RAM_SIZE {
            return Err(ChipError::IllegalAddr(self.i.wrapping_add(n as u16)));
        }
        let vx = self.get_reg(x)?;
        let vy = self.get_reg(y)?;
        let data = &self.memory[start..start + n as usize];
        let ghost sprite = self.memory@.subrange(start as int, start + n);
        assert(data@.take(n as int) =~= sprite);
        let flag = self.display.blit_sprite(vx as usize, vy as usize, data, n as usize);
        self.set_flag(flag != 0);
        self.redraw = true;
        assert(self@ =~= old(self)@.draw(x, y, n).state);
        Ok(())
    }

    /// Carries out the keypad instructions `Ex9E` and `ExA1`.
    fn execute_key_skip(&mut self, x: u8, y: u8, n: u8, raw: u16) -> (r: Result<(), ChipError>)
        requires
            x < 16,
            old(self).pc <= RAM_SIZE,
        ensures
            final(self).wf() == old(self).wf(),
            final(self).stack == old(self).stack && final(self).sp == old(self).sp,
            r == old(self)@.key_skip(x, y, n, raw).result,
            final(self)@ == old(self)@.key_skip(x, y, n, raw).state,
    {
        match (y, n) {
            (9, 0xE) => {
                if self.get_key(self.get_reg(x)?)? {
                    self.pc = self.pc + 2;
                }
            },
            (0xA, 1) => {
                if !self.get_key(self.get_reg(x)?)? {
                    self.pc = self.pc + 2;
                }
            },
            _ => {
                return Err(ChipError::IllegalInst(raw));
            },
        }
        assert(self@ =~= old(self)@.key_skip(x, y, n, raw).state);
        Ok(())
    }

    /// Carries out the instructions `Fxnn`: timers, key wait, index
    /// register, decimal digits and register transfer.
    fn execute_misc(&mut self, x: u8, y: u8, n: u8, raw: u16) -> (r: Result<(), ChipError>)
        requires
            x < 16,
            old(self).pc >= 2,
        ensures
            final(self).wf() == old(self).wf(),
            final(self).stack == old(self).stack && final(self).sp == old(self).sp,
            r == old(self)@.misc(x, y, n, raw).result,
            final(self)@ == old(self)@.misc(x, y, n, raw).state,
    {
        let vx = self.get_reg(x)?;
        let ghost m = self@;
        match (y, n) {
            (0, 7) => {
                self.set_reg(x, self.delay_timer)?;
                Ok(())
            },
            (0, 0xA) => {
                if let Some(pressed) = self.first_pressed() {
                    self.set_reg(x, pressed)?;
                } else {
                    self.pc = self.pc - 2;
                    assert(self@ == Machine { pc: (m.pc - 2) as u16, ..m });
                }
                Ok(())
            },
            (1, 5) => {
                self.delay_timer = vx;
                assert(self@ == Machine { delay_timer: vx, ..m });
                Ok(())
            },
            (1, 8) => {
                self.sound_timer = vx;
                assert(self@ == Machine { sound_timer: vx, ..m });
                Ok(())
            },
            (1, 0xE) => {
                self.i = self.i.wrapping_add(vx as u16);
                assert(self@ == Machine { i: reach(m.i, vx as int), ..m });
                Ok(())
            },
            (2, 9) => {
                self.i = FONT_ADDR + vx as u16;
                assert(self@ == Machine { i: (FONT_ADDR + vx) as u16, ..m });
                Ok(())
            },
            (3, 3) => self.store_digits(vx),
            (5, 5) => self.store_regs(x),
            (6, 5) => self.load_regs(x),
            _ => Err(ChipError::IllegalInst(raw)),
        }
    }

    /// Writes the three decimal digits of `val` into memory at the index
    /// register, hundreds first. Refused, with nothing changed, where the
    /// third byte would lie at or past the end of memory.
    fn store_digits(&mut self, val: u8) -> (r: Result<(), ChipError>)
        ensures
            final(self).wf() == old(self).wf(),
            final(self).stack == old(self).stack && final(self).sp == old(self).sp,
            old(self).i + 2 < RAM_SIZE ==> r == Ok::<(), ChipError>(()) && final(self)@ == old(self)@.with_bytes(
                old(self).i as int,
                seq![val / 100, val % 100 / 10, val % 10],
            ),
            old(self).i + 2 >= RAM_SIZE ==> r == Err::<(), ChipError>(
                ChipError::IllegalAddr(reach(old(self).i, 2)),
            ) && *final(self) == *old(self),
    {
        let start = self.i as usize;
        if start + 2 >= RAM_SIZE {
            return Err(ChipError::IllegalAddr(self.i.wrapping_add(2)));
        }
        self.memory[start] = val / 100;
        self.memory[start + 1] = val % 100 / 10;
        self.memory[start + 2] = val % 10;
        assert(self@.memory =~= old(self)@.with_bytes(
            start as int,
            seq![val / 100, val % 100 / 10, val % 10],
        ).memory);
        Ok(())
    }

    /// Copies registers `V0` to `Vx` into memory at the index register.
    /// Refused, with nothing changed, where the last byte would lie at or
    /// past the end of memory.
    fn store_regs(&mut self, x: u8) -> (r: Result<(), ChipError>)
        requires
            x < REG_COUNT,
        ensures
            final(self).wf() == old(self).wf(),
            final(self).stack == old(self).stack && final(self).sp == old(self).sp,
            old(self).i + x < RAM_SIZE ==> r == Ok::<(), ChipError>(()) && final(self)@ == old(self)@.with_bytes(
                old(self).i as int,
                old(self)@.v.take(x + 1),
            ),
            old(self).i + x >= RAM_SIZE ==> r == Err::<(), ChipError>(
                ChipError::IllegalAddr(reach(old(self).i, x as int)),
            ) && *final(self) == *old(self),
    {
        let start = self.i as usize;
        if start + x as usize >= RAM_SIZE {
            return Err(ChipError::IllegalAddr(self.i.wrapping_add(x as u16)));
        }
        let mut t: u8 = 0;
        while t <= x
            invariant
                x < REG_COUNT,
                t <= x + 1,
                start == old(self).i,
                start + x < RAM_SIZE,
                *self == (Cpu { memory: self.memory, ..*old(self) }),
                self.memory@ == old(self)@.with_bytes(
                    start as int,
                    old(self)@.v.take(t as int),
                ).memory,
            decreases x + 1 - t,
        {
            self.memory[start + t as usize] = self.v[t as usize];
            t = t + 1;
            assert(self.memory@ =~= old(self)@.with_bytes(
                start as int,
                old(self)@.v.take(t as int),
            ).memory);
        }
        Ok(())
    }

    /// Reads registers `V0` to `Vx` from memory at the index register.
    /// Refused, with nothing changed, where the last byte would lie at or
    /// past the end of memory.
    fn load_regs(&mut self, x: u8) -> (r: Result<(), ChipError>)
        requires
            x < REG_COUNT,
        ensures
            final(self).wf() == old(self).wf(),
            final(self).stack == old(self).stack && final(self).sp == old(self).sp,
            old(self).i + x < RAM_SIZE ==> r == Ok::<(), ChipError>(()) && final(self)@ == old(self)@.with_regs_loaded(
                x,
            ),
            old(self).i + x >= RAM_SIZE ==> r == Err::<(), ChipError>(
                ChipError::IllegalAddr(reach(old(self).i, x as int)),
            ) && *final(self) == *old(self),
    {
        let start = self.i as usize;
        if start + x as usize >= RAM_SIZE {
            return Err(ChipError::IllegalAddr(self.i.wrapping_add(x as u16)));
        }
        let mut t: u8 = 0;
        while t <= x
            invariant
                x < REG_COUNT,
                t <= x + 1,
                start == old(self).i,
                start + x < RAM_SIZE,
                *self == (Cpu { v: self.v, ..*old(self) }),
                forall|r: int| 0 <= r < t ==> self.v@[r] == self.memory@[start + r],
                forall|r: int| t <= r < REG_COUNT ==> self.v@[r] == old(self).v@[r],
            decreases x + 1 - t,
        {
            self.v[t as usize] = self.memory[start + t as usize];
            t = t + 1;
        }
        assert(self@.v =~= old(self)@.with_regs_loaded(x).v);
        Ok(())
    }

    /// Reads the instruction at the program counter as four nibbles, the
    /// most significant first. Together they spell the two bytes read.
    pub fn get_current_opcode(&self) -> (r: Result<Opcode, ChipError>)
        ensures
            match self@.fetch() {
                Some(op) => r == Ok::<Opcode, ChipError>(op),
                None => r == Err::<Opcode, ChipError>(ChipError::IllegalAddr(self.pc)),
            },
            self.pc > RAM_SIZE - 2 <==> r is Err,
            match r {
                Ok(op) => op.0 < 16 && op.1 < 16 && op.2 < 16 && op.3 < 16 && op.0 * 16 + op.1
                    == self.memory@[self.pc as int] && op.2 * 16 + op.3 == self.memory@[self.pc
                    + 1],
                Err(_) => true,
            },
    {
        let addr = self.pc as usize;
        if addr > RAM_SIZE - 2 {
            return Err(ChipError::IllegalAddr(self.pc))
        }
        let hi = self.memory[addr];
        let lo = self.memory[addr + 1];
        proof {
            lemma_nibbles_spell_word(hi, lo);
        }
        Ok((hi >> 4, hi & 0x0F, lo >> 4, lo & 0x0F))
    }

    /// The value of register `i`.
    pub fn get_reg(&self, i: u8) -> (r: Result<u8, ChipError>)
        ensures
            i < REG_COUNT ==> r == Ok::<u8, ChipError>(self@.v[i as int]),
            i >= REG_COUNT ==> r == Err::<u8, ChipError>(ChipError::IllegalReg(i)),
    {
        if (i as usize) < REG_COUNT {
            Ok(self.v[i as usize])
        } else {
            Err(ChipError::IllegalReg(i))
        }
    }

    /// Sets register `i` to `val`.
    pub fn set_reg(&mut self, i: u8, val: u8) -> (r: Result<(), ChipError>)
        ensures
            i < REG_COUNT ==> r == Ok::<(), ChipError>(()) && *final(self) == (Cpu {
                v: final(self).v,
                ..*old(self)
            }) && final(self)@ == old(self)@.with_reg(i, val),
            i >= REG_COUNT ==> r == Err::<(), ChipError>(ChipError::IllegalReg(i)) && *final(self)
                == *old(self),
    {
        if (i as usize) < REG_COUNT {
            self.v[i as usize] = val;
            Ok(())
        } else {
            Err(ChipError::IllegalReg(i))
        }
    }

    /// Whether key `i` is held down.
    pub fn get_key(&self, i: u8) -> (r: Result<bool, ChipError>)
        ensures
            i < KEY_COUNT ==> r == Ok::<bool, ChipError>(self@.keys[i as int]),
            i >= KEY_COUNT ==> r == Err::<bool, ChipError>(ChipError::IllegalKey(i)),
    {
        if (i as usize) < KEY_COUNT {
            Ok(self.keys[i as usize])
        } else {
            Err(ChipError::IllegalKey(i))
        }
    }

    /// Puts a return address on the stack. The stack refuses the address
    /// that would fill its last slot, and the machine is then left as it
    /// was; otherwise only the first free slot and the pointer change.
    pub fn push_stack(&mut self, val: u16) -> (r: Result<(), ChipError>)
        requires
            old(self).wf(),
        ensures
            final(self).wf(),
            r == old(self)@.push(val).result,
            final(self)@ == old(self)@.push(val).state,
            r is Ok <==> old(self).sp + 1 < STACK_SIZE,
            r is Ok ==> final(self).stack@ == old(self).stack@.update(old(self).sp as int, val)
                && final(self).sp == old(self).sp + 1,
            r is Err ==> *final(self) == *old(self),
            *final(self) == (Cpu { stack: final(self).stack, sp: final(self).sp, ..*old(self) }),
    {
        if self.sp + 1 >= STACK_SIZE {
            return Err(ChipError::StackOverflow);
        }
        self.stack[self.sp] = val;
        self.sp = self.sp + 1;
        Ok(())
    }

    /// Takes the newest return address off the stack. Only the pointer
    /// changes; the slot keeps the address.
    pub fn pop_stack(&mut self) -> (r: Result<u16, ChipError>)
        requires
            old(self).wf(),
        ensures
            final(self).wf(),
            r == old(self)@.pop().result,
            final(self)@ == old(self)@.pop().state,
            r is Err <==> old(self).sp == 0,
            r is Err ==> *final(self) == *old(self),
            r is Ok ==> final(self).sp == old(self).sp - 1,
            *final(self) == (Cpu { sp: final(self).sp, ..*old(self) }),
    {
        if self.sp == 0 {
            return Err(ChipError::StackUnderflow)
        }
        self.sp = self.sp - 1;
        Ok(self.stack[self.sp])
    }

    /// Sets the flag register to 1 or 0.
    pub fn set_flag(&mut self, val: bool)
        ensures
            *final(self) == (Cpu { v: final(self).v, ..*old(self) }),
            final(self)@ == old(self)@.with_flag(val),
    {
        self.v[0xF] = if val {
            1
        } else {
            0
        };
    }

    /// Advances the random generator by one xorshift round and returns
    /// the low byte of its new state.
    pub fn random(&mut self) -> (r: u8)
        ensures
            *final(self) == (Cpu { random_seed: next_seed(old(self).random_seed), ..*old(self) }),
            r == low_byte(final(self).random_seed),
    {
        let mut val = self.random_seed;
        val = val ^ (val << 13);
        val = val ^ (val >> 17);
        val = val ^ (val << 5);
        self.random_seed = val;
        assert(val & 0xFF < 256) by (bit_vector);
        (val & 0xFF) as u8
    }

    /// The lowest key that is held down, if any.
    pub fn first_pressed(&self) -> (r: Option<u8>)
        ensures
            match pressed_from(self@.keys, 0) {
                Some(k) => r == Some(k as u8) && 0 <= k < KEY_COUNT,
                None => r is None,
            },
    {
        let mut k: u8 = 0;
        while k < 16
            invariant
                k <= 16,
                pressed_from(self@.keys, 0) == pressed_from(self@.keys, k as int),
            decreases 16 - k,
        {
            if self.keys[k as usize] {
                return Some(k);
            }
            k = k + 1;
        }
        None
    }

    /// One timer tick: each timer that is not zero goes down by one.
    pub fn decrease_timers(&mut self)
        ensures
            final(self)@ == old(self)@.tick(),
            final(self).wf() == old(self).wf(),
            *final(self) == (Cpu {
                delay_timer: final(self).delay_timer,
                sound_timer: final(self).sound_timer,
                ..*old(self)
            }),
    {
        if self.delay_timer > 0 {
            self.delay_timer = self.delay_timer - 1;
        }
        if self.sound_timer > 0 {
            self.sound_timer = self.sound_timer - 1;
        }
    }

    /// Whether the sound timer is running.
    pub fn beeps(&self) -> (r: bool)
        ensures
            r == (self@.sound_timer != 0),
    {
        self.sound_timer != 0
    }
}

} // verus!
