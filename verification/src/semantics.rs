use vstd::prelude::*;
use crate::errors::{StepEvent, VmError};
use crate::framebuffer::{all_clear, spec_blit, spec_collision, SCREEN_HEIGHT, SCREEN_WIDTH};
use crate::instr::Instruction;
use crate::instr::spec_decode;
use crate::memory::{overlay, spec_initial_mem, spec_word, MEM_SIZE, PROGRAM_START, FONT_START};
use crate::registers::NUM_REGISTERS;
use crate::stack::STACK_DEPTH;
use crate::timers::spec_tick;
use crate::input::NUM_KEYS;
use crate::framebuffer::SCREEN_PIXELS;

verus! {

/// The mathematical state of the whole machine: what every contract of the
/// interpreter speaks about. `Chip8`'s view is a value of this type.
#[verifier::ext_equal]
pub ghost struct Vm {
    /// The 4096 memory bytes.
    pub mem: Seq<u8>,
    /// The sixteen general registers V0..=VF.
    pub regs: Seq<u8>,
    /// The 16-bit index register; only its low 12 bits are ever significant.
    pub i: u16,
    /// The program counter.
    pub pc: u16,
    /// The pending return addresses, most recent last.
    pub stack: Seq<u16>,
    /// The delay timer.
    pub delay: u8,
    /// The sound timer; above zero means the host should emit a tone.
    pub sound: u8,
    /// The sixteen key states.
    pub keys: Seq<bool>,
    /// The 64x32 pixel grid, row-major.
    pub fb: Seq<bool>,
    /// `Some(x)` while suspended by a wait-for-key instruction that will
    /// store the next pressed key into register `x`.
    pub waiting: Option<u8>,
}

/// Well-formedness: the sizes and ranges every operation preserves.
pub open spec fn vm_wf(vm: Vm) -> bool {
    &&& vm.mem.len() == MEM_SIZE
    &&& vm.regs.len() == NUM_REGISTERS
    &&& vm.stack.len() <= STACK_DEPTH
    &&& vm.keys.len() == NUM_KEYS
    &&& vm.fb.len() == SCREEN_PIXELS
    &&& vm.i < MEM_SIZE
    &&& (vm.waiting matches Some(x) ==> x < NUM_REGISTERS)
}

/// The machine at power-on: font preloaded, program counter at the program
/// region, everything else zeroed and running.
pub open spec fn spec_initial_vm() -> Vm {
    Vm {
        mem: spec_initial_mem(),
        regs: Seq::new(NUM_REGISTERS as nat, |j: int| 0u8),
        i: 0,
        pc: PROGRAM_START as u16,
        stack: Seq::<u16>::empty(),
        delay: 0,
        sound: 0,
        keys: Seq::new(NUM_KEYS as nat, |j: int| false),
        fb: all_clear(),
        waiting: None,
    }
}

/// An integer reduced into one byte, as the wrapping arithmetic instructions
/// do.
pub open spec fn wrap8(v: int) -> u8
    recommends
        v >= 0,
{
    (v % 256) as u8
}

/// The host reported the state of one key. A press edge — key going from up
/// to down — while the machine is suspended on a wait-for-key instruction
/// stores the key number into the waiting register and resumes execution;
/// any other report only updates the latch.
pub open spec fn spec_set_key(vm: Vm, key: u8, pressed: bool) -> Vm
    recommends
        vm_wf(vm),
        key < NUM_KEYS,
{
    match vm.waiting {
        Some(x) if pressed && !vm.keys[key as int] => Vm {
            keys: vm.keys.update(key as int, pressed),
            regs: vm.regs.update(x as int, key),
            waiting: None,
            ..vm
        },
        _ => Vm { keys: vm.keys.update(key as int, pressed), ..vm },
    }
}

/// One 60 Hz timer tick: both counters floor-clamped at zero. Ticking is
/// independent of instruction stepping and goes on during a key wait.
pub open spec fn spec_tick_timers(vm: Vm) -> Vm {
    Vm { delay: spec_tick(vm.delay), sound: spec_tick(vm.sound), ..vm }
}

/// Effect of one decoded instruction on a machine whose program counter has
/// already advanced past it, with `rnd` the byte the random source produced.
/// Yields the next state and what the step reported: jumps and calls
/// overwrite the advanced program counter, skips advance it once more, a
/// fatal error leaves the state as it stood at dispatch.
pub open spec fn spec_exec(vm: Vm, ins: Instruction, rnd: u8) -> (Vm, Result<
    StepEvent,
    VmError,
>)
    recommends
        vm_wf(vm),
{
    let ok = Ok::<StepEvent, VmError>(StepEvent::Executed);
    match ins {
        Instruction::Cls => (Vm { fb: all_clear(), ..vm }, ok),
        Instruction::Ret => if vm.stack.len() == 0 {
            (vm, Err(VmError::StackUnderflow))
        } else {
            (Vm { pc: vm.stack.last(), stack: vm.stack.drop_last(), ..vm }, ok)
        },
        Instruction::Jp { nnn } => (Vm { pc: nnn, ..vm }, ok),
        Instruction::Call { nnn } => if vm.stack.len() >= STACK_DEPTH {
            (vm, Err(VmError::StackOverflow))
        } else {
            (Vm { pc: nnn, stack: vm.stack.push(vm.pc), ..vm }, ok)
        },
        Instruction::SeByte { x, kk } => if vm.regs[x as int] == kk {
            (Vm { pc: vm.pc.wrapping_add(2), ..vm }, ok)
        } else {
            (vm, ok)
        },
        Instruction::SneByte { x, kk } => if vm.regs[x as int] != kk {
            (Vm { pc: vm.pc.wrapping_add(2), ..vm }, ok)
        } else {
            (vm, ok)
        },
        Instruction::SeReg { x, y } => if vm.regs[x as int] == vm.regs[y as int] {
            (Vm { pc: vm.pc.wrapping_add(2), ..vm }, ok)
        } else {
            (vm, ok)
        },
        Instruction::LdByte { x, kk } => (Vm { regs: vm.regs.update(x as int, kk), ..vm }, ok),
        Instruction::AddByte { x, kk } => (
            Vm { regs: vm.regs.update(x as int, wrap8(vm.regs[x as int] + kk)), ..vm },
            ok,
        ),
        Instruction::LdReg { x, y } => (
            Vm { regs: vm.regs.update(x as int, vm.regs[y as int]), ..vm },
            ok,
        ),
        Instruction::Or { x, y } => (
            Vm { regs: vm.regs.update(x as int, vm.regs[x as int] | vm.regs[y as int]), ..vm },
            ok,
        ),
        Instruction::And { x, y } => (
            Vm { regs: vm.regs.update(x as int, vm.regs[x as int] & vm.regs[y as int]), ..vm },
            ok,
        ),
        Instruction::Xor { x, y } => (
            Vm { regs: vm.regs.update(x as int, vm.regs[x as int] ^ vm.regs[y as int]), ..vm },
            ok,
        ),
        Instruction::AddReg { x, y } => {
            let sum = vm.regs[x as int] + vm.regs[y as int];
            let flag: u8 = if sum > 255 {
                1
            } else {
                0
            };
            (Vm { regs: vm.regs.update(x as int, wrap8(sum)).update(0xF, flag), ..vm }, ok)
        },
        Instruction::Sub { x, y } => {
            let xv = vm.regs[x as int];
            let yv = vm.regs[y as int];
            let flag: u8 = if xv >= yv {
                1
            } else {
                0
            };
            (Vm { regs: vm.regs.update(x as int, wrap8(xv + 256 - yv)).update(0xF, flag), ..vm }, ok)
        },
        Instruction::Shr { x } => {
            let xv = vm.regs[x as int];
            let flag: u8 = (xv % 2) as u8;
            (Vm { regs: vm.regs.update(x as int, (xv / 2) as u8).update(0xF, flag), ..vm }, ok)
        },
        Instruction::Subn { x, y } => {
            let xv = vm.regs[x as int];
            let yv = vm.regs[y as int];
            let flag: u8 = if yv >= xv {
                1
            } else {
                0
            };
            (Vm { regs: vm.regs.update(x as int, wrap8(yv + 256 - xv)).update(0xF, flag), ..vm }, ok)
        },
        Instruction::Shl { x } => {
            let xv = vm.regs[x as int];
            let flag: u8 = (xv / 128) as u8;
            (Vm { regs: vm.regs.update(x as int, wrap8(xv * 2)).update(0xF, flag), ..vm }, ok)
        },
        Instruction::SneReg { x, y } => if vm.regs[x as int] != vm.regs[y as int] {
            (Vm { pc: vm.pc.wrapping_add(2), ..vm }, ok)
        } else {
            (vm, ok)
        },
        Instruction::LdI { nnn } => (Vm { i: nnn, ..vm }, ok),
        Instruction::JpV0 { nnn } => (Vm { pc: (nnn + vm.regs[0]) as u16, ..vm }, ok),
        Instruction::Rnd { x, kk } => (Vm { regs: vm.regs.update(x as int, rnd & kk), ..vm }, ok),
        Instruction::Drw { x, y, n } => if vm.i + n > MEM_SIZE {
            (vm, Err(VmError::OutOfBounds))
        } else {
            let rows = vm.mem.subrange(vm.i as int, vm.i + n);
            let x0 = vm.regs[x as int] as int % (SCREEN_WIDTH as int);
            let y0 = vm.regs[y as int] as int % (SCREEN_HEIGHT as int);
            let flag: u8 = if spec_collision(vm.fb, x0, y0, rows) {
                1
            } else {
                0
            };
            (
                Vm {
                    fb: spec_blit(vm.fb, x0, y0, rows),
                    regs: vm.regs.update(0xF, flag),
                    ..vm
                },
                ok,
            )
        },
        Instruction::Skp { x } => if vm.keys[(vm.regs[x as int] & 0x0F) as int] {
            (Vm { pc: vm.pc.wrapping_add(2), ..vm }, ok)
        } else {
            (vm, ok)
        },
        Instruction::Sknp { x } => if !vm.keys[(vm.regs[x as int] & 0x0F) as int] {
            (Vm { pc: vm.pc.wrapping_add(2), ..vm }, ok)
        } else {
            (vm, ok)
        },
        Instruction::LdDt { x } => (Vm { regs: vm.regs.update(x as int, vm.delay), ..vm }, ok),
        Instruction::LdKey { x } => (Vm { waiting: Some(x), ..vm }, ok),
        Instruction::SetDt { x } => (Vm { delay: vm.regs[x as int], ..vm }, ok),
        Instruction::SetSt { x } => (Vm { sound: vm.regs[x as int], ..vm }, ok),
        Instruction::AddI { x } => (
            Vm { i: ((vm.i + vm.regs[x as int]) % 4096) as u16, ..vm },
            ok,
        ),
        Instruction::LdFont { x } => (
            Vm { i: (FONT_START + 5 * (vm.regs[x as int] & 0x0F)) as u16, ..vm },
            ok,
        ),
        Instruction::Bcd { x } => if vm.i + 2 >= MEM_SIZE {
            (vm, Err(VmError::OutOfBounds))
        } else {
            let v = vm.regs[x as int];
            let digits = seq![(v / 100) as u8, ((v / 10) % 10) as u8, (v % 10) as u8];
            (Vm { mem: overlay(vm.mem, vm.i as int, digits), ..vm }, ok)
        },
        Instruction::SaveRegs { x } => if vm.i + x >= MEM_SIZE {
            (vm, Err(VmError::OutOfBounds))
        } else {
            (
                Vm { mem: overlay(vm.mem, vm.i as int, vm.regs.subrange(0, x + 1)), ..vm },
                ok,
            )
        },
        Instruction::LoadRegs { x } => if vm.i + x >= MEM_SIZE {
            (vm, Err(VmError::OutOfBounds))
        } else {
            (
                Vm {
                    regs: Seq::new(
                        NUM_REGISTERS as nat,
                        |k: int|
                            if k <= x {
                                vm.mem[vm.i + k]
                            } else {
                                vm.regs[k]
                            },
                    ),
                    ..vm
                },
                ok,
            )
        },
        Instruction::Unknown { op } => (vm, Ok(StepEvent::Unknown(op))),
    }
}

/// A call followed by a return restores the machine: from any well-formed
/// state with room on the stack, executing CALL and then RET succeeds, brings
/// the program counter back to where it stood before the call, and leaves the
/// stack exactly as it was.
pub proof fn lemma_call_ret_roundtrip(vm: Vm, nnn: u16, rnd1: u8, rnd2: u8)
    requires
        vm_wf(vm),
        vm.stack.len() < STACK_DEPTH,
    ensures
        spec_exec(vm, Instruction::Call { nnn }, rnd1).1 == Ok::<StepEvent, VmError>(
            StepEvent::Executed,
        ),
        spec_exec(spec_exec(vm, Instruction::Call { nnn }, rnd1).0, Instruction::Ret, rnd2).1
            == Ok::<StepEvent, VmError>(StepEvent::Executed),
        spec_exec(spec_exec(vm, Instruction::Call { nnn }, rnd1).0, Instruction::Ret, rnd2).0
            == vm,
{
    let after_call = spec_exec(vm, Instruction::Call { nnn }, rnd1).0;
    assert(after_call.stack.drop_last() =~= vm.stack);
    assert(spec_exec(after_call, Instruction::Ret, rnd2).0 =~= vm);
}

/// Clearing the screen yields the all-dark framebuffer and touches nothing
/// else, whatever was drawn before.
pub proof fn lemma_cls_always_clears(vm: Vm, rnd: u8)
    ensures
        spec_exec(vm, Instruction::Cls, rnd).0 == (Vm { fb: all_clear(), ..vm }),
        spec_exec(vm, Instruction::Cls, rnd).1 == Ok::<StepEvent, VmError>(StepEvent::Executed),
{
}

/// One call of `step_instruction`, with `rnd` the byte the random source
/// would produce. While suspended waiting for a key the step is a no-op that
/// reports `Waiting`: it neither fetches nor advances. Otherwise the 16-bit
/// word at the program counter is fetched big-endian (a fetch outside memory
/// is the fatal `OutOfBounds`), the program counter advances by two before
/// dispatch, and the decoded instruction takes effect.
pub open spec fn spec_step(vm: Vm, rnd: u8) -> (Vm, Result<StepEvent, VmError>)
    recommends
        vm_wf(vm),
{
    if vm.waiting is Some {
        (vm, Ok(StepEvent::Waiting))
    } else if vm.pc + 1 >= MEM_SIZE {
        (vm, Err(VmError::OutOfBounds))
    } else {
        let op = spec_word(vm.mem, vm.pc as int);
        spec_exec(Vm { pc: (vm.pc + 2) as u16, ..vm }, spec_decode(op), rnd)
    }
}

} // verus!
