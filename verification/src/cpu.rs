use vstd::prelude::*;
use crate::errors::{StepEvent, VmError};
use crate::framebuffer::{Framebuffer, SCREEN_HEIGHT, SCREEN_PIXELS, SCREEN_WIDTH};
use crate::framebuffer::{all_clear, pixel_index};
use crate::input::{InputLatch, NUM_KEYS};
use crate::instr::{decode, ins_wf, Instruction};
use crate::memory::{overlay, Memory, FONT_START, MEM_SIZE, PROGRAM_START};
use crate::registers::{RegisterFile, FLAG_REGISTER, NUM_REGISTERS};
use crate::semantics::{spec_exec, spec_initial_vm, spec_set_key, spec_step, spec_tick_timers, vm_wf, Vm};
use crate::stack::CallStack;
use crate::timers::Timers;

verus! {

/// Relies on `rand::random::<u8>`: one byte from the thread-local generator.
/// Nothing is promised of its value; callers state what holds whatever byte
/// comes back.
#[verifier::external_body]
fn random_byte() -> u8 {
    rand::random::<u8>()
}

/// The red, green, blue and alpha bytes `draw` emits for a lit or dark pixel.
pub open spec fn color_byte(lit: bool, j: int) -> u8
    recommends
        0 <= j < 4,
{
    if lit {
        if j == 0 {
            0x5eu8
        } else if j == 1 {
            0x48u8
        } else if j == 2 {
            0xe8u8
        } else {
            0xffu8
        }
    } else {
        if j == 3 {
            0xffu8
        } else {
            0u8
        }
    }
}

/// The whole machine: one owned value, so independent instances live side by
/// side. The host drives it through `step_instruction` (variable rate),
/// `tick_timers` (fixed 60 Hz) and `set_key`, and reads the framebuffer back
/// through `pixel` or `draw`.
pub struct Chip8 {
    memory: Memory,
    registers: RegisterFile,
    i: u16,
    timers: Timers,
    pc: u16,
    stack: CallStack,
    input: InputLatch,
    screen: Framebuffer,
    waiting: Option<u8>,
}

impl View for Chip8 {
    type V = Vm;

    closed spec fn view(&self) -> Vm {
        Vm {
            mem: self.memory@,
            regs: self.registers@,
            i: self.i,
            pc: self.pc,
            stack: self.stack@,
            delay: self.timers.delay,
            sound: self.timers.sound,
            keys: self.input@,
            fb: self.screen@,
            waiting: self.waiting,
        }
    }
}

impl Chip8 {
    pub open spec fn wf(&self) -> bool {
        vm_wf(self@)
    }

    /// A machine at power-on: memory zero-filled except the preloaded font,
    /// registers, timers and stack cleared, screen dark, program counter at
    /// the start of the program region, running (not waiting for a key).
    pub fn new() -> (c: Chip8)
        ensures
            c.wf(),
            c@ == spec_initial_vm(),
    {
        let c = Chip8 {
            memory: Memory::new(),
            registers: RegisterFile::new(),
            i: 0,
            timers: Timers::new(),
            pc: PROGRAM_START as u16,
            stack: CallStack::new(),
            input: InputLatch::new(),
            screen: Framebuffer::new(),
            waiting: None,
        };
        proof {
            assert(c@ =~= spec_initial_vm());
        }
        c
    }

    /// Copy a program into memory at the program region. A payload longer
    /// than the space above `PROGRAM_START` is rejected with `OutOfBounds`
    /// before the execution loop ever starts, and the machine is left
    /// unmodified.
    pub fn load_program(&mut self, program: &Vec<u8>) -> (r: Result<(), VmError>)
        requires
            old(self).wf(),
        ensures
            final(self).wf(),
            program@.len() + PROGRAM_START <= MEM_SIZE ==> r == Ok::<(), VmError>(())
                && final(self)@ == (Vm {
                mem: overlay(old(self)@.mem, PROGRAM_START as int, program@),
                ..old(self)@
            }),
            program@.len() + PROGRAM_START > MEM_SIZE ==> r == Err::<(), VmError>(
                VmError::OutOfBounds,
            ) && final(self)@ == old(self)@,
    {
        let r = self.memory.load_program(program);
        proof {
            if program@.len() + PROGRAM_START <= MEM_SIZE {
                assert(self@ =~= (Vm {
                    mem: overlay(old(self)@.mem, PROGRAM_START as int, program@),
                    ..old(self)@
                }));
            } else {
                assert(self@ =~= old(self)@);
            }
        }
        r
    }

    /// Per-frame host hook. The machine advances only through
    /// `step_instruction` and `tick_timers`, so this changes nothing.
    pub fn update(&mut self)
        ensures
            final(self)@ == old(self)@,
    {
    }

    /// Turn every pixel off. Whatever has been drawn since the last clear,
    /// the framebuffer afterwards is all dark.
    pub fn clear_display(&mut self)
        requires
            old(self).wf(),
        ensures
            final(self).wf(),
            final(self)@ == (Vm { fb: all_clear(), ..old(self)@ }),
    {
        self.screen.clear();
        proof {
            assert(self@ =~= (Vm { fb: all_clear(), ..old(self)@ }));
        }
    }

    /// One 60 Hz tick: each timer above zero is decremented, a timer at zero
    /// stays at zero. Called by the host on its fixed cadence, independent of
    /// instruction stepping, and also while the machine waits for a key.
    pub fn tick_timers(&mut self)
        requires
            old(self).wf(),
        ensures
            final(self).wf(),
            final(self)@ == spec_tick_timers(old(self)@),
    {
        self.timers.tick();
        proof {
            assert(self@ =~= spec_tick_timers(old(self)@));
        }
    }

    /// Record a host-reported key state. A press edge while the machine is
    /// suspended on a wait-for-key instruction stores the key into the
    /// waiting register and resumes execution.
    pub fn set_key(&mut self, key: u8, pressed: bool)
        requires
            old(self).wf(),
            key < NUM_KEYS,
        ensures
            final(self).wf(),
            final(self)@ == spec_set_key(old(self)@, key, pressed),
    {
        let was_down = self.input.is_pressed(key);
        self.input.set(key, pressed);
        if pressed && !was_down {
            match self.waiting {
                Some(x) => {
                    self.registers.set(x, key);
                    self.waiting = None;
                },
                None => {},
            }
        }
        proof {
            assert(self@ =~= spec_set_key(old(self)@, key, pressed));
        }
    }

    /// The value of register `id`.
    pub fn register(&self, id: u8) -> (value: u8)
        requires
            self.wf(),
            id < NUM_REGISTERS,
        ensures
            value == self@.regs[id as int],
    {
        self.registers.get(id)
    }

    /// Set register `id` to `value`.
    pub fn set_register(&mut self, id: u8, value: u8)
        requires
            old(self).wf(),
            id < NUM_REGISTERS,
        ensures
            final(self).wf(),
            final(self)@ == (Vm { regs: old(self)@.regs.update(id as int, value), ..old(self)@ }),
    {
        self.registers.set(id, value);
        proof {
            assert(self@ =~= (Vm {
                regs: old(self)@.regs.update(id as int, value),
                ..old(self)@
            }));
        }
    }

    /// The program counter.
    pub fn program_counter(&self) -> (pc: u16)
        ensures
            pc == self@.pc,
    {
        self.pc
    }

    /// The index register.
    pub fn index_register(&self) -> (i: u16)
        ensures
            i == self@.i,
    {
        self.i
    }

    /// The delay timer.
    pub fn delay_timer(&self) -> (t: u8)
        ensures
            t == self@.delay,
    {
        self.timers.delay
    }

    /// The sound timer; above zero means the host should emit a tone.
    pub fn sound_timer(&self) -> (t: u8)
        ensures
            t == self@.sound,
    {
        self.timers.sound
    }

    /// How many return addresses are pending on the call stack.
    pub fn stack_len(&self) -> (n: usize)
        ensures
            n == self@.stack.len(),
    {
        self.stack.len()
    }

    /// Whether the machine is suspended on a wait-for-key instruction.
    pub fn is_waiting(&self) -> (w: bool)
        ensures
            w == (self@.waiting is Some),
    {
        match self.waiting {
            Some(_) => true,
            None => false,
        }
    }

    /// The byte at `addr`; `OutOfBounds` outside the address space.
    pub fn read_memory(&self, addr: u16) -> (r: Result<u8, VmError>)
        requires
            self.wf(),
        ensures
            addr < MEM_SIZE ==> r == Ok::<u8, VmError>(self@.mem[addr as int]),
            addr >= MEM_SIZE ==> r == Err::<u8, VmError>(VmError::OutOfBounds),
    {
        self.memory.read_byte(addr)
    }

    /// Whether the pixel at (`x`, `y`) is lit.
    pub fn pixel(&self, x: usize, y: usize) -> (lit: bool)
        requires
            self.wf(),
            x < SCREEN_WIDTH,
            y < SCREEN_HEIGHT,
        ensures
            lit == self@.fb[pixel_index(x as int, y as int)],
    {
        self.screen.pixel(x, y)
    }

    /// Render the framebuffer into an RGBA byte buffer, four bytes per
    /// pixel in row-major order: one fixed color for lit pixels, opaque
    /// black for dark ones.
    pub fn draw(&self, frame: &mut Vec<u8>)
        requires
            self.wf(),
            old(frame)@.len() == 4 * SCREEN_PIXELS,
        ensures
            final(frame)@.len() == 4 * SCREEN_PIXELS,
            forall|p: int, j: int|
                0 <= p < SCREEN_PIXELS && 0 <= j < 4 ==> final(frame)@[4 * p + j] == color_byte(
                    self@.fb[p],
                    j,
                ),
    {
        let mut p: usize = 0;
        while p < SCREEN_PIXELS
            invariant
                self.wf(),
                p <= SCREEN_PIXELS,
                frame@.len() == 4 * SCREEN_PIXELS,
                forall|q: int, j: int|
                    0 <= q < p && 0 <= j < 4 ==> frame@[4 * q + j] == color_byte(self@.fb[q], j),
            decreases SCREEN_PIXELS - p,
        {
            let x = p % SCREEN_WIDTH;
            let y = p / SCREEN_WIDTH;
            let lit = self.screen.pixel(x, y);
            proof {
                assert(pixel_index(x as int, y as int) == p);
            }
            let (b0, b1, b2, b3) = if lit {
                (0x5e, 0x48, 0xe8, 0xff)
            } else {
                (0, 0, 0, 0xff)
            };
            frame.set(4 * p, b0);
            frame.set(4 * p + 1, b1);
            frame.set(4 * p + 2, b2);
            frame.set(4 * p + 3, b3);
            p += 1;
        }
    }

    /// Execute one already-decoded instruction, with `rnd` standing in for
    /// the random source: the machine moves exactly to
    /// `spec_exec(old(self)@, ins, rnd)`. Split from fetch/decode so decode
    /// and execute stay independently testable.
    pub fn execute(&mut self, ins: Instruction, rnd: u8) -> (r: Result<StepEvent, VmError>)
        requires
            old(self).wf(),
            ins_wf(ins),
        ensures
            final(self).wf(),
            final(self)@ == spec_exec(old(self)@, ins, rnd).0,
            r == spec_exec(old(self)@, ins, rnd).1,
    {
        let ghost pre = self@;
        match ins {
            Instruction::Cls => {
                self.screen.clear();
                proof {
                    assert(self@ =~= spec_exec(pre, ins, rnd).0);
                }
                Ok(StepEvent::Executed)
            },
            Instruction::Ret => {
                match self.stack.pop() {
                    Ok(addr) => {
                        self.pc = addr;
                        proof {
                            assert(self@ =~= spec_exec(pre, ins, rnd).0);
                        }
                        Ok(StepEvent::Executed)
                    },
                    Err(e) => Err(e),
                }
            },
            Instruction::Jp { nnn } => {
                self.pc = nnn;
                proof {
                    assert(self@ =~= spec_exec(pre, ins, rnd).0);
                }
                Ok(StepEvent::Executed)
            },
            Instruction::Call { nnn } => {
                match self.stack.push(self.pc) {
                    Ok(_) => {
                        self.pc = nnn;
                        proof {
                            assert(self@ =~= spec_exec(pre, ins, rnd).0);
                        }
                        Ok(StepEvent::Executed)
                    },
                    Err(e) => Err(e),
                }
            },
            Instruction::SeByte { x, kk } => {
                if self.registers.get(x) == kk {
                    self.pc = self.pc.wrapping_add(2);
                    proof {
                        assert(self@ =~= spec_exec(pre, ins, rnd).0);
                    }
                }
                Ok(StepEvent::Executed)
            },
            Instruction::SneByte { x, kk } => {
                if self.registers.get(x) != kk {
                    self.pc = self.pc.wrapping_add(2);
                    proof {
                        assert(self@ =~= spec_exec(pre, ins, rnd).0);
                    }
                }
                Ok(StepEvent::Executed)
            },
            Instruction::SeReg { x, y } => {
                if self.registers.get(x) == self.registers.get(y) {
                    self.pc = self.pc.wrapping_add(2);
                    proof {
                        assert(self@ =~= spec_exec(pre, ins, rnd).0);
                    }
                }
                Ok(StepEvent::Executed)
            },
            Instruction::LdByte { x, kk } => {
                self.registers.set(x, kk);
                proof {
                    assert(self@ =~= spec_exec(pre, ins, rnd).0);
                }
                Ok(StepEvent::Executed)
            },
            Instruction::AddByte { x, kk } => {
                let xv = self.registers.get(x);
                let sum = ((xv as u16 + kk as u16) % 256) as u8;
                self.registers.set(x, sum);
                proof {
                    assert(self@ =~= spec_exec(pre, ins, rnd).0);
                }
                Ok(StepEvent::Executed)
            },
            Instruction::LdReg { x, y } => {
                let yv = self.registers.get(y);
                self.registers.set(x, yv);
                proof {
                    assert(self@ =~= spec_exec(pre, ins, rnd).0);
                }
                Ok(StepEvent::Executed)
            },
            Instruction::Or { x, y } => {
                let xv = self.registers.get(x);
                let yv = self.registers.get(y);
                self.registers.set(x, xv | yv);
                proof {
                    assert(self@ =~= spec_exec(pre, ins, rnd).0);
                }
                Ok(StepEvent::Executed)
            },
            Instruction::And { x, y } => {
                let xv = self.registers.get(x);
                let yv = self.registers.get(y);
                self.registers.set(x, xv & yv);
                proof {
                    assert(self@ =~= spec_exec(pre, ins, rnd).0);
                }
                Ok(StepEvent::Executed)
            },
            Instruction::Xor { x, y } => {
                let xv = self.registers.get(x);
                let yv = self.registers.get(y);
                self.registers.set(x, xv ^ yv);
                proof {
                    assert(self@ =~= spec_exec(pre, ins, rnd).0);
                }
                Ok(StepEvent::Executed)
            },
            Instruction::AddReg { x, y } => {
                let xv = self.registers.get(x);
                let yv = self.registers.get(y);
                let sum = xv as u16 + yv as u16;
                self.registers.set(x, (sum % 256) as u8);
                self.registers.set(FLAG_REGISTER, if sum > 255 { 1 } else { 0 });
                proof {
                    assert(self@ =~= spec_exec(pre, ins, rnd).0);
                }
                Ok(StepEvent::Executed)
            },
            Instruction::Sub { x, y } => {
                let xv = self.registers.get(x);
                let yv = self.registers.get(y);
                let diff = ((xv as u16 + 256 - yv as u16) % 256) as u8;
                self.registers.set(x, diff);
                self.registers.set(FLAG_REGISTER, if xv >= yv { 1 } else { 0 });
                proof {
                    assert(self@ =~= spec_exec(pre, ins, rnd).0);
                }
                Ok(StepEvent::Executed)
            },
            Instruction::Shr { x } => {
                let xv = self.registers.get(x);
                self.registers.set(x, xv / 2);
                self.registers.set(FLAG_REGISTER, xv % 2);
                proof {
                    assert(self@ =~= spec_exec(pre, ins, rnd).0);
                }
                Ok(StepEvent::Executed)
            },
            Instruction::Subn { x, y } => {
                let xv = self.registers.get(x);
                let yv = self.registers.get(y);
                let diff = ((yv as u16 + 256 - xv as u16) % 256) as u8;
                self.registers.set(x, diff);
                self.registers.set(FLAG_REGISTER, if yv >= xv { 1 } else { 0 });
                proof {
                    assert(self@ =~= spec_exec(pre, ins, rnd).0);
                }
                Ok(StepEvent::Executed)
            },
            Instruction::Shl { x } => {
                let xv = self.registers.get(x);
                self.registers.set(x, ((xv as u16 * 2) % 256) as u8);
                self.registers.set(FLAG_REGISTER, xv / 128);
                proof {
                    assert(self@ =~= spec_exec(pre, ins, rnd).0);
                }
                Ok(StepEvent::Executed)
            },
            Instruction::SneReg { x, y } => {
                if self.registers.get(x) != self.registers.get(y) {
                    self.pc = self.pc.wrapping_add(2);
                    proof {
                        assert(self@ =~= spec_exec(pre, ins, rnd).0);
                    }
                }
                Ok(StepEvent::Executed)
            },
            Instruction::LdI { nnn } => {
                self.i = nnn;
                proof {
                    assert(self@ =~= spec_exec(pre, ins, rnd).0);
                }
                Ok(StepEvent::Executed)
            },
            Instruction::JpV0 { nnn } => {
                let v0 = self.registers.get(0);
                self.pc = nnn + v0 as u16;
                proof {
                    assert(self@ =~= spec_exec(pre, ins, rnd).0);
                }
                Ok(StepEvent::Executed)
            },
            Instruction::Rnd { x, kk } => {
                self.registers.set(x, rnd & kk);
                proof {
                    assert(self@ =~= spec_exec(pre, ins, rnd).0);
                }
                Ok(StepEvent::Executed)
            },
            Instruction::Drw { x, y, n } => {
                if self.i as usize + n as usize > MEM_SIZE {
                    return Err(VmError::OutOfBounds);
                }
                let mut rows: Vec<u8> = Vec::new();
                let mut k: usize = 0;
                while k < n as usize
                    invariant
                        self.wf(),
                        self@ == pre,
                        k <= n as usize,
                        self@.i + n <= MEM_SIZE,
                        rows@.len() == k,
                        forall|j: int| 0 <= j < k ==> rows@[j] == self@.mem[self@.i + j],
                    decreases n as usize - k,
                {
                    let b = self.memory.byte_at(self.i as usize + k);
                    rows.push(b);
                    k += 1;
                }
                proof {
                    assert(rows@ =~= pre.mem.subrange(pre.i as int, pre.i + n));
                }
                let vx = self.registers.get(x);
                let vy = self.registers.get(y);
                let collision = self.screen.draw_sprite(vx, vy, &rows);
                self.registers.set(FLAG_REGISTER, if collision { 1 } else { 0 });
                proof {
                    assert(self@ =~= spec_exec(pre, ins, rnd).0);
                }
                Ok(StepEvent::Executed)
            },
            Instruction::Skp { x } => {
                let xv = self.registers.get(x);
                let key = xv & 0x0F;
                proof {
                    assert((xv & 0x0F) < 16) by (bit_vector);
                }
                if self.input.is_pressed(key) {
                    self.pc = self.pc.wrapping_add(2);
                    proof {
                        assert(self@ =~= spec_exec(pre, ins, rnd).0);
                    }
                }
                Ok(StepEvent::Executed)
            },
            Instruction::Sknp { x } => {
                let xv = self.registers.get(x);
                let key = xv & 0x0F;
                proof {
                    assert((xv & 0x0F) < 16) by (bit_vector);
                }
                if !self.input.is_pressed(key) {
                    self.pc = self.pc.wrapping_add(2);
                    proof {
                        assert(self@ =~= spec_exec(pre, ins, rnd).0);
                    }
                }
                Ok(StepEvent::Executed)
            },
            Instruction::LdDt { x } => {
                let t = self.timers.delay;
                self.registers.set(x, t);
                proof {
                    assert(self@ =~= spec_exec(pre, ins, rnd).0);
                }
                Ok(StepEvent::Executed)
            },
            Instruction::LdKey { x } => {
                self.waiting = Some(x);
                proof {
                    assert(self@ =~= spec_exec(pre, ins, rnd).0);
                }
                Ok(StepEvent::Executed)
            },
            Instruction::SetDt { x } => {
                self.timers.delay = self.registers.get(x);
                proof {
                    assert(self@ =~= spec_exec(pre, ins, rnd).0);
                }
                Ok(StepEvent::Executed)
            },
            Instruction::SetSt { x } => {
                self.timers.sound = self.registers.get(x);
                proof {
                    assert(self@ =~= spec_exec(pre, ins, rnd).0);
                }
                Ok(StepEvent::Executed)
            },
            Instruction::AddI { x } => {
                let xv = self.registers.get(x);
                self.i = (self.i + xv as u16) % 4096;
                proof {
                    assert(self@ =~= spec_exec(pre, ins, rnd).0);
                }
                Ok(StepEvent::Executed)
            },
            Instruction::LdFont { x } => {
                let xv = self.registers.get(x);
                let digit = xv & 0x0F;
                proof {
                    assert((xv & 0x0F) < 16) by (bit_vector);
                }
                self.i = FONT_START as u16 + 5 * digit as u16;
                proof {
                    assert(self@ =~= spec_exec(pre, ins, rnd).0);
                }
                Ok(StepEvent::Executed)
            },
            Instruction::Bcd { x } => {
                if self.i as usize + 2 >= MEM_SIZE {
                    return Err(VmError::OutOfBounds);
                }
                let v = self.registers.get(x);
                self.memory.set_byte_at(self.i as usize, v / 100);
                self.memory.set_byte_at(self.i as usize + 1, (v / 10) % 10);
                self.memory.set_byte_at(self.i as usize + 2, v % 10);
                proof {
                    assert(self@.mem =~= overlay(
                        pre.mem,
                        pre.i as int,
                        seq![
                            (pre.regs[x as int] / 100) as u8,
                            ((pre.regs[x as int] / 10) % 10) as u8,
                            (pre.regs[x as int] % 10) as u8,
                        ],
                    ));
                    assert(self@ =~= spec_exec(pre, ins, rnd).0);
                }
                Ok(StepEvent::Executed)
            },
            Instruction::SaveRegs { x } => {
                if self.i as usize + x as usize >= MEM_SIZE {
                    return Err(VmError::OutOfBounds);
                }
                proof {
                    assert(pre.mem =~= overlay(pre.mem, pre.i as int, pre.regs.subrange(0, 0)));
                }
                let mut k: usize = 0;
                while k <= x as usize
                    invariant
                        self.wf(),
                        x < 16,
                        k <= x as usize + 1,
                        self@.i + x < MEM_SIZE,
                        self@ == (Vm {
                            mem: overlay(pre.mem, pre.i as int, pre.regs.subrange(0, k as int)),
                            ..pre
                        }),
                    decreases x as usize + 1 - k,
                {
                    let v = self.registers.get(k as u8);
                    self.memory.set_byte_at(self.i as usize + k, v);
                    k += 1;
                    proof {
                        assert(self@.mem =~= overlay(
                            pre.mem,
                            pre.i as int,
                            pre.regs.subrange(0, k as int),
                        ));
                    }
                }
                proof {
                    assert(self@ =~= spec_exec(pre, ins, rnd).0);
                }
                Ok(StepEvent::Executed)
            },
            Instruction::LoadRegs { x } => {
                if self.i as usize + x as usize >= MEM_SIZE {
                    return Err(VmError::OutOfBounds);
                }
                proof {
                    assert(pre.regs =~= Seq::new(
                        NUM_REGISTERS as nat,
                        |j: int|
                            if j < 0 {
                                pre.mem[pre.i + j]
                            } else {
                                pre.regs[j]
                            },
                    ));
                }
                let mut k: usize = 0;
                while k <= x as usize
                    invariant
                        self.wf(),
                        x < 16,
                        k <= x as usize + 1,
                        self@.i + x < MEM_SIZE,
                        self@ == (Vm {
                            regs: Seq::new(
                                NUM_REGISTERS as nat,
                                |j: int|
                                    if j < k {
                                        pre.mem[pre.i + j]
                                    } else {
                                        pre.regs[j]
                                    },
                            ),
                            ..pre
                        }),
                    decreases x as usize + 1 - k,
                {
                    let b = self.memory.byte_at(self.i as usize + k);
                    self.registers.set(k as u8, b);
                    k += 1;
                    proof {
                        assert(self@.regs =~= Seq::new(
                            NUM_REGISTERS as nat,
                            |j: int|
                                if j < k {
                                    pre.mem[pre.i + j]
                                } else {
                                    pre.regs[j]
                                },
                        ));
                    }
                }
                proof {
                    assert(self@.regs =~= Seq::new(
                        NUM_REGISTERS as nat,
                        |j: int|
                            if j <= x {
                                pre.mem[pre.i + j]
                            } else {
                                pre.regs[j]
                            },
                    ));
                    assert(self@ =~= spec_exec(pre, ins, rnd).0);
                }
                Ok(StepEvent::Executed)
            },
            Instruction::Unknown { op } => Ok(StepEvent::Unknown(op)),
        }
    }

    /// One host-driven step. While suspended waiting for a key this is a
    /// no-op that reports `Waiting`. Otherwise: fetch the big-endian 16-bit
    /// word at the program counter (a fetch outside memory is the fatal
    /// `OutOfBounds`), advance the program counter by two, decode, draw one
    /// byte from the random source, and execute. The machine moves exactly to
    /// `spec_step(old(self)@, b)` for the byte `b` the source produced.
    pub fn step_instruction(&mut self) -> (r: Result<StepEvent, VmError>)
        requires
            old(self).wf(),
        ensures
            final(self).wf(),
            exists|b: u8|
                final(self)@ == spec_step(old(self)@, b).0 && r == spec_step(old(self)@, b).1,
    {
        match self.waiting {
            Some(_) => {
                proof {
                    assert(self@ == spec_step(old(self)@, 0u8).0 && Ok::<StepEvent, VmError>(
                        StepEvent::Waiting,
                    ) == spec_step(old(self)@, 0u8).1);
                }
                return Ok(StepEvent::Waiting);
            },
            None => {},
        }
        if self.pc as usize + 1 >= MEM_SIZE {
            proof {
                assert(self@ == spec_step(old(self)@, 0u8).0 && Err::<StepEvent, VmError>(
                    VmError::OutOfBounds,
                ) == spec_step(old(self)@, 0u8).1);
            }
            return Err(VmError::OutOfBounds);
        }
        let hi = self.memory.byte_at(self.pc as usize);
        let lo = self.memory.byte_at(self.pc as usize + 1);
        let op = (hi as u16) * 256 + (lo as u16);
        self.pc = self.pc + 2;
        let ins = decode(op);
        let rnd = random_byte();
        let ghost mid = self@;
        proof {
            assert(mid =~= (Vm { pc: old(self)@.pc.wrapping_add(2), ..old(self)@ }));
        }
        let r = self.execute(ins, rnd);
        proof {
            assert(self@ == spec_step(old(self)@, rnd).0 && r == spec_step(old(self)@, rnd).1);
        }
        r
    }
}

} // verus!
