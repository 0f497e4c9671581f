use chip8::cpu::Chip8;
use chip8::errors::{StepEvent, VmError};
use chip8::instr::Instruction;

#[test]
fn power_on_state() {
    let vm = Chip8::new();
    assert_eq!(vm.program_counter(), 0x200);
    assert_eq!(vm.index_register(), 0);
    assert_eq!(vm.stack_len(), 0);
    assert_eq!(vm.delay_timer(), 0);
    assert_eq!(vm.sound_timer(), 0);
    assert!(!vm.is_waiting());
    for id in 0u8..16 {
        assert_eq!(vm.register(id), 0);
    }
    for y in 0..32 {
        for x in 0..64 {
            assert!(!vm.pixel(x, y));
        }
    }
}

#[test]
fn oversized_load_fails_before_execution() {
    let mut vm = Chip8::new();
    let program = vec![0x42u8; 3585];
    assert_eq!(vm.load_program(&program), Err(VmError::OutOfBounds));
    assert_eq!(vm.read_memory(0x200), Ok(0));
    assert_eq!(vm.read_memory(0xFFF), Ok(0));
    assert_eq!(vm.program_counter(), 0x200);
}

#[test]
fn step_fetches_big_endian_and_advances() {
    let mut vm = Chip8::new();
    // 6A42: V10 = 0x42. The high byte sits at the program counter.
    vm.load_program(&vec![0x6A, 0x42]).unwrap();
    assert_eq!(vm.step_instruction(), Ok(StepEvent::Executed));
    assert_eq!(vm.register(10), 0x42);
    assert_eq!(vm.program_counter(), 0x202);
}

#[test]
fn call_ret_roundtrip() {
    // From 0x200, CALL 0x300 then RET lands back at 0x202 with an empty stack.
    let mut vm = Chip8::new();
    let mut program = vec![0u8; 0x102];
    program[0] = 0x23; // 2300: call 0x300
    program[1] = 0x00;
    program[0x100] = 0x00; // at 0x300: 00EE, return
    program[0x101] = 0xEE;
    vm.load_program(&program).unwrap();
    assert_eq!(vm.step_instruction(), Ok(StepEvent::Executed));
    assert_eq!(vm.program_counter(), 0x300);
    assert_eq!(vm.stack_len(), 1);
    assert_eq!(vm.step_instruction(), Ok(StepEvent::Executed));
    assert_eq!(vm.program_counter(), 0x202);
    assert_eq!(vm.stack_len(), 0);
}

#[test]
fn stack_overflow_on_seventeenth_nested_call() {
    // 2200 at 0x200 calls itself; sixteen calls nest, the seventeenth is the
    // fatal overflow.
    let mut vm = Chip8::new();
    vm.load_program(&vec![0x22, 0x00]).unwrap();
    for _ in 0..16 {
        assert_eq!(vm.step_instruction(), Ok(StepEvent::Executed));
    }
    assert_eq!(vm.stack_len(), 16);
    assert_eq!(vm.step_instruction(), Err(VmError::StackOverflow));
    assert_eq!(vm.stack_len(), 16);
}

#[test]
fn skip_equal_byte() {
    let mut vm = Chip8::new();
    // 3000: skip if V0 == 0, which holds at power-on.
    vm.load_program(&vec![0x30, 0x00]).unwrap();
    assert_eq!(vm.step_instruction(), Ok(StepEvent::Executed));
    assert_eq!(vm.program_counter(), 0x204);
    // 3001 with V0 == 2 does not skip.
    let mut vm = Chip8::new();
    vm.set_register(0, 2);
    vm.load_program(&vec![0x30, 0x01]).unwrap();
    assert_eq!(vm.step_instruction(), Ok(StepEvent::Executed));
    assert_eq!(vm.program_counter(), 0x202);
}

#[test]
fn skip_register_comparisons() {
    let mut vm = Chip8::new();
    vm.set_register(1, 7);
    vm.set_register(2, 7);
    assert_eq!(vm.execute(Instruction::SeReg { x: 1, y: 2 }, 0), Ok(StepEvent::Executed));
    assert_eq!(vm.program_counter(), 0x202);
    assert_eq!(vm.execute(Instruction::SneReg { x: 1, y: 2 }, 0), Ok(StepEvent::Executed));
    assert_eq!(vm.program_counter(), 0x202);
    vm.set_register(2, 8);
    assert_eq!(vm.execute(Instruction::SneReg { x: 1, y: 2 }, 0), Ok(StepEvent::Executed));
    assert_eq!(vm.program_counter(), 0x204);
}

#[test]
fn skip_on_key_state() {
    let mut vm = Chip8::new();
    vm.set_register(1, 5);
    vm.set_key(5, true);
    assert_eq!(vm.execute(Instruction::Skp { x: 1 }, 0), Ok(StepEvent::Executed));
    assert_eq!(vm.program_counter(), 0x202);
    assert_eq!(vm.execute(Instruction::Sknp { x: 1 }, 0), Ok(StepEvent::Executed));
    assert_eq!(vm.program_counter(), 0x202);
    vm.set_key(5, false);
    assert_eq!(vm.execute(Instruction::Sknp { x: 1 }, 0), Ok(StepEvent::Executed));
    assert_eq!(vm.program_counter(), 0x204);
}

#[test]
fn unknown_opcode_is_logged_noop() {
    // 0xFFFF does not abort: the program counter still advances by two and
    // the event reports the opcode for the host to log.
    let mut vm = Chip8::new();
    vm.load_program(&vec![0xFF, 0xFF]).unwrap();
    assert_eq!(vm.step_instruction(), Ok(StepEvent::Unknown(0xFFFF)));
    assert_eq!(vm.program_counter(), 0x202);
}

#[test]
fn fetch_out_of_bounds_is_fatal() {
    let mut vm = Chip8::new();
    assert_eq!(vm.execute(Instruction::Jp { nnn: 0xFFF }, 0), Ok(StepEvent::Executed));
    assert_eq!(vm.step_instruction(), Err(VmError::OutOfBounds));
    assert_eq!(vm.program_counter(), 0xFFF);
}

#[test]
fn drw_collision_and_erase() {
    // Drawing the same non-zero sprite twice at the same spot: the first
    // draw reports no collision, the second reports one and erases the
    // pixels.
    let mut vm = Chip8::new();
    vm.load_program(&vec![0xFF]).unwrap(); // one sprite row at 0x200
    assert_eq!(vm.execute(Instruction::LdI { nnn: 0x200 }, 0), Ok(StepEvent::Executed));
    assert_eq!(vm.execute(Instruction::Drw { x: 0, y: 0, n: 1 }, 0), Ok(StepEvent::Executed));
    assert_eq!(vm.register(0xF), 0);
    for x in 0..8 {
        assert!(vm.pixel(x, 0));
    }
    assert_eq!(vm.execute(Instruction::Drw { x: 0, y: 0, n: 1 }, 0), Ok(StepEvent::Executed));
    assert_eq!(vm.register(0xF), 1);
    for x in 0..8 {
        assert!(!vm.pixel(x, 0));
    }
}

#[test]
fn drw_wraps_horizontally_and_vertically() {
    let mut vm = Chip8::new();
    vm.load_program(&vec![0x81]).unwrap(); // sprite row 1000_0001
    assert_eq!(vm.execute(Instruction::LdI { nnn: 0x200 }, 0), Ok(StepEvent::Executed));
    vm.set_register(0, 60); // x: bits land at 60..64 and wrap to 0..4
    vm.set_register(1, 33); // y: 33 mod 32 == 1
    assert_eq!(vm.execute(Instruction::Drw { x: 0, y: 1, n: 1 }, 0), Ok(StepEvent::Executed));
    assert!(vm.pixel(60, 1));
    assert!(!vm.pixel(61, 1));
    assert!(vm.pixel(3, 1));
    assert!(!vm.pixel(2, 1));
}

#[test]
fn drw_sprite_read_out_of_bounds() {
    let mut vm = Chip8::new();
    assert_eq!(vm.execute(Instruction::LdI { nnn: 0xFFF }, 0), Ok(StepEvent::Executed));
    assert_eq!(
        vm.execute(Instruction::Drw { x: 0, y: 0, n: 2 }, 0),
        Err(VmError::OutOfBounds)
    );
}

#[test]
fn cls_idempotent_after_draws() {
    // CLS, then draws, then CLS again: always an all-dark screen.
    let mut vm = Chip8::new();
    vm.clear_display();
    vm.load_program(&vec![0xFF, 0xA5]).unwrap();
    vm.execute(Instruction::LdI { nnn: 0x200 }, 0).unwrap();
    vm.execute(Instruction::Drw { x: 0, y: 0, n: 2 }, 0).unwrap();
    vm.set_register(2, 20);
    vm.execute(Instruction::Drw { x: 2, y: 2, n: 2 }, 0).unwrap();
    vm.clear_display();
    for y in 0..32 {
        for x in 0..64 {
            assert!(!vm.pixel(x, y));
        }
    }
}

#[test]
fn wait_for_key_suspends_and_resumes() {
    let mut vm = Chip8::new();
    vm.load_program(&vec![0xF1, 0x0A, 0x63, 0x09]).unwrap();
    assert_eq!(vm.step_instruction(), Ok(StepEvent::Executed));
    assert!(vm.is_waiting());
    assert_eq!(vm.program_counter(), 0x202);
    // While waiting, stepping is a no-op and timers still tick.
    vm.set_register(4, 2);
    vm.execute(Instruction::SetDt { x: 4 }, 0).unwrap();
    assert!(vm.is_waiting());
    assert_eq!(vm.step_instruction(), Ok(StepEvent::Waiting));
    assert_eq!(vm.program_counter(), 0x202);
    vm.tick_timers();
    assert_eq!(vm.delay_timer(), 1);
    // A key release is no edge; a press edge stores the key and resumes.
    vm.set_key(7, false);
    assert!(vm.is_waiting());
    vm.set_key(7, true);
    assert!(!vm.is_waiting());
    assert_eq!(vm.register(1), 7);
    assert_eq!(vm.step_instruction(), Ok(StepEvent::Executed));
    assert_eq!(vm.register(3), 9);
}

#[test]
fn held_key_is_no_edge_for_wait() {
    let mut vm = Chip8::new();
    vm.set_key(4, true);
    vm.load_program(&vec![0xF0, 0x0A]).unwrap();
    vm.step_instruction().unwrap();
    assert!(vm.is_waiting());
    // Reporting the same key held again is not a press edge.
    vm.set_key(4, true);
    assert!(vm.is_waiting());
    vm.set_key(4, false);
    vm.set_key(4, true);
    assert!(!vm.is_waiting());
    assert_eq!(vm.register(0), 4);
}

#[test]
fn update_is_a_host_hook_that_changes_nothing() {
    let mut vm = Chip8::new();
    vm.set_register(1, 11);
    vm.update();
    assert_eq!(vm.register(1), 11);
    assert_eq!(vm.program_counter(), 0x200);
}

#[test]
fn draw_renders_rgba() {
    let mut vm = Chip8::new();
    let mut frame = vec![0u8; 64 * 32 * 4];
    vm.draw(&mut frame);
    // Dark pixel: opaque black.
    assert_eq!(&frame[0..4], &[0x00, 0x00, 0x00, 0xFF]);
    // Light the leftmost pixel of row 0 and draw again.
    vm.load_program(&vec![0x80]).unwrap();
    vm.execute(Instruction::LdI { nnn: 0x200 }, 0).unwrap();
    vm.execute(Instruction::Drw { x: 0, y: 0, n: 1 }, 0).unwrap();
    vm.draw(&mut frame);
    assert_eq!(&frame[0..4], &[0x5E, 0x48, 0xE8, 0xFF]);
    assert_eq!(&frame[4..8], &[0x00, 0x00, 0x00, 0xFF]);
}

#[test]
fn random_masked_through_step() {
    // Cx00 leaves zero in the register whatever the random source returned.
    let mut vm = Chip8::new();
    vm.set_register(5, 0x99);
    vm.load_program(&vec![0xC5, 0x00]).unwrap();
    assert_eq!(vm.step_instruction(), Ok(StepEvent::Executed));
    assert_eq!(vm.register(5), 0);
}
