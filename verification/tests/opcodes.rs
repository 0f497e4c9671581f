use chip8::cpu::Chip8;
use chip8::errors::{StepEvent, VmError};
use chip8::instr::{decode, Instruction};

#[test]
fn decode_exact_values() {
    assert_eq!(decode(0x00E0), Instruction::Cls);
    assert_eq!(decode(0x00EE), Instruction::Ret);
    assert_eq!(decode(0x1ABC), Instruction::Jp { nnn: 0xABC });
    assert_eq!(decode(0x2300), Instruction::Call { nnn: 0x300 });
    assert_eq!(decode(0x3A7F), Instruction::SeByte { x: 0xA, kk: 0x7F });
    assert_eq!(decode(0x4A7F), Instruction::SneByte { x: 0xA, kk: 0x7F });
    assert_eq!(decode(0x5120), Instruction::SeReg { x: 1, y: 2 });
    assert_eq!(decode(0x6BCD), Instruction::LdByte { x: 0xB, kk: 0xCD });
    assert_eq!(decode(0x7BCD), Instruction::AddByte { x: 0xB, kk: 0xCD });
    assert_eq!(decode(0x8120), Instruction::LdReg { x: 1, y: 2 });
    assert_eq!(decode(0x8121), Instruction::Or { x: 1, y: 2 });
    assert_eq!(decode(0x8122), Instruction::And { x: 1, y: 2 });
    assert_eq!(decode(0x8123), Instruction::Xor { x: 1, y: 2 });
    assert_eq!(decode(0x8124), Instruction::AddReg { x: 1, y: 2 });
    assert_eq!(decode(0x8125), Instruction::Sub { x: 1, y: 2 });
    assert_eq!(decode(0x8126), Instruction::Shr { x: 1 });
    assert_eq!(decode(0x8127), Instruction::Subn { x: 1, y: 2 });
    assert_eq!(decode(0x812E), Instruction::Shl { x: 1 });
    assert_eq!(decode(0x9120), Instruction::SneReg { x: 1, y: 2 });
    assert_eq!(decode(0xA123), Instruction::LdI { nnn: 0x123 });
    assert_eq!(decode(0xB123), Instruction::JpV0 { nnn: 0x123 });
    assert_eq!(decode(0xC642), Instruction::Rnd { x: 6, kk: 0x42 });
    assert_eq!(decode(0xD125), Instruction::Drw { x: 1, y: 2, n: 5 });
    assert_eq!(decode(0xE19E), Instruction::Skp { x: 1 });
    assert_eq!(decode(0xE1A1), Instruction::Sknp { x: 1 });
    assert_eq!(decode(0xF107), Instruction::LdDt { x: 1 });
    assert_eq!(decode(0xF10A), Instruction::LdKey { x: 1 });
    assert_eq!(decode(0xF115), Instruction::SetDt { x: 1 });
    assert_eq!(decode(0xF118), Instruction::SetSt { x: 1 });
    assert_eq!(decode(0xF11E), Instruction::AddI { x: 1 });
    assert_eq!(decode(0xF129), Instruction::LdFont { x: 1 });
    assert_eq!(decode(0xF133), Instruction::Bcd { x: 1 });
    assert_eq!(decode(0xF155), Instruction::SaveRegs { x: 1 });
    assert_eq!(decode(0xF165), Instruction::LoadRegs { x: 1 });
    // Patterns outside the table decode to Unknown.
    assert_eq!(decode(0xFFFF), Instruction::Unknown { op: 0xFFFF });
    assert_eq!(decode(0x0123), Instruction::Unknown { op: 0x0123 });
    assert_eq!(decode(0x5121), Instruction::Unknown { op: 0x5121 });
    assert_eq!(decode(0x8128), Instruction::Unknown { op: 0x8128 });
    assert_eq!(decode(0xE100), Instruction::Unknown { op: 0xE100 });
}

#[test]
fn add_with_carry() {
    // 0xFF + 0x01 wraps to 0x00 and sets the carry flag.
    let mut vm = Chip8::new();
    vm.set_register(1, 0xFF);
    vm.set_register(2, 0x01);
    assert_eq!(vm.execute(Instruction::AddReg { x: 1, y: 2 }, 0), Ok(StepEvent::Executed));
    assert_eq!(vm.register(1), 0x00);
    assert_eq!(vm.register(0xF), 1);
}

#[test]
fn add_without_carry() {
    let mut vm = Chip8::new();
    vm.set_register(1, 0x01);
    vm.set_register(2, 0x01);
    vm.set_register(0xF, 1);
    assert_eq!(vm.execute(Instruction::AddReg { x: 1, y: 2 }, 0), Ok(StepEvent::Executed));
    assert_eq!(vm.register(1), 0x02);
    assert_eq!(vm.register(0xF), 0);
}

#[test]
fn sub_with_borrow() {
    // 0x05 - 0x0A borrows: result wraps to 0xFB and VF reports no-borrow = 0.
    let mut vm = Chip8::new();
    vm.set_register(1, 0x05);
    vm.set_register(2, 0x0A);
    assert_eq!(vm.execute(Instruction::Sub { x: 1, y: 2 }, 0), Ok(StepEvent::Executed));
    assert_eq!(vm.register(1), 0xFB);
    assert_eq!(vm.register(0xF), 0);
}

#[test]
fn sub_without_borrow() {
    let mut vm = Chip8::new();
    vm.set_register(1, 0x0A);
    vm.set_register(2, 0x05);
    assert_eq!(vm.execute(Instruction::Sub { x: 1, y: 2 }, 0), Ok(StepEvent::Executed));
    assert_eq!(vm.register(1), 0x05);
    assert_eq!(vm.register(0xF), 1);
}

#[test]
fn subn_both_directions() {
    let mut vm = Chip8::new();
    vm.set_register(1, 0x05);
    vm.set_register(2, 0x0A);
    assert_eq!(vm.execute(Instruction::Subn { x: 1, y: 2 }, 0), Ok(StepEvent::Executed));
    assert_eq!(vm.register(1), 0x05);
    assert_eq!(vm.register(0xF), 1);
    vm.set_register(1, 0x0A);
    vm.set_register(2, 0x05);
    assert_eq!(vm.execute(Instruction::Subn { x: 1, y: 2 }, 0), Ok(StepEvent::Executed));
    assert_eq!(vm.register(1), 0xFB);
    assert_eq!(vm.register(0xF), 0);
}

#[test]
fn shr_captures_low_bit() {
    // 0x05 >> 1 == 0x02 with VF holding the shifted-out low bit.
    let mut vm = Chip8::new();
    vm.set_register(1, 0x05);
    assert_eq!(vm.execute(Instruction::Shr { x: 1 }, 0), Ok(StepEvent::Executed));
    assert_eq!(vm.register(0xF), 1);
    assert_eq!(vm.register(1), 0x02);
}

#[test]
fn shl_captures_high_bit() {
    let mut vm = Chip8::new();
    vm.set_register(1, 0x81);
    assert_eq!(vm.execute(Instruction::Shl { x: 1 }, 0), Ok(StepEvent::Executed));
    assert_eq!(vm.register(0xF), 1);
    assert_eq!(vm.register(1), 0x02);
    vm.set_register(1, 0x41);
    assert_eq!(vm.execute(Instruction::Shl { x: 1 }, 0), Ok(StepEvent::Executed));
    assert_eq!(vm.register(0xF), 0);
    assert_eq!(vm.register(1), 0x82);
}

#[test]
fn bitwise_ops_read_before_write() {
    let mut vm = Chip8::new();
    vm.set_register(1, 0b1100);
    vm.set_register(2, 0b1010);
    assert_eq!(vm.execute(Instruction::Or { x: 1, y: 2 }, 0), Ok(StepEvent::Executed));
    assert_eq!(vm.register(1), 0b1110);
    vm.set_register(1, 0b1100);
    assert_eq!(vm.execute(Instruction::And { x: 1, y: 2 }, 0), Ok(StepEvent::Executed));
    assert_eq!(vm.register(1), 0b1000);
    vm.set_register(1, 0b1100);
    assert_eq!(vm.execute(Instruction::Xor { x: 1, y: 2 }, 0), Ok(StepEvent::Executed));
    assert_eq!(vm.register(1), 0b0110);
    // The same register on both sides XORs to zero, not to a stale operand.
    assert_eq!(vm.execute(Instruction::Xor { x: 1, y: 1 }, 0), Ok(StepEvent::Executed));
    assert_eq!(vm.register(1), 0);
}

#[test]
fn add_byte_wraps_without_touching_flag() {
    let mut vm = Chip8::new();
    vm.set_register(0, 0xFF);
    vm.set_register(0xF, 9);
    assert_eq!(vm.execute(Instruction::AddByte { x: 0, kk: 2 }, 0), Ok(StepEvent::Executed));
    assert_eq!(vm.register(0), 1);
    assert_eq!(vm.register(0xF), 9);
}

#[test]
fn rnd_masks_random_byte() {
    // Whatever the random byte, AND with a zero mask leaves zero, and AND
    // with 0x0F clears the high nibble.
    let mut vm = Chip8::new();
    vm.set_register(3, 0xAA);
    assert_eq!(vm.execute(Instruction::Rnd { x: 3, kk: 0x00 }, 0xC7), Ok(StepEvent::Executed));
    assert_eq!(vm.register(3), 0);
    assert_eq!(vm.execute(Instruction::Rnd { x: 3, kk: 0x0F }, 0xC7), Ok(StepEvent::Executed));
    assert_eq!(vm.register(3), 0x07);
}

#[test]
fn jp_v0_offsets_jump() {
    let mut vm = Chip8::new();
    vm.set_register(0, 5);
    assert_eq!(vm.execute(Instruction::JpV0 { nnn: 0x300 }, 0), Ok(StepEvent::Executed));
    assert_eq!(vm.program_counter(), 0x305);
}

#[test]
fn add_i_wraps_in_twelve_bits() {
    let mut vm = Chip8::new();
    assert_eq!(vm.execute(Instruction::LdI { nnn: 0xFFF }, 0), Ok(StepEvent::Executed));
    vm.set_register(0, 1);
    assert_eq!(vm.execute(Instruction::AddI { x: 0 }, 0), Ok(StepEvent::Executed));
    assert_eq!(vm.index_register(), 0);
}

#[test]
fn font_address_of_digit() {
    let mut vm = Chip8::new();
    vm.set_register(2, 0x0A);
    assert_eq!(vm.execute(Instruction::LdFont { x: 2 }, 0), Ok(StepEvent::Executed));
    assert_eq!(vm.index_register(), 0x50 + 5 * 0xA);
    // First row of the glyph for A.
    assert_eq!(vm.read_memory(vm.index_register()), Ok(0xF0));
    // Only the low nibble of the register selects the glyph.
    vm.set_register(2, 0xFA);
    assert_eq!(vm.execute(Instruction::LdFont { x: 2 }, 0), Ok(StepEvent::Executed));
    assert_eq!(vm.index_register(), 0x50 + 5 * 0xA);
}

#[test]
fn bcd_stores_three_digits() {
    let mut vm = Chip8::new();
    vm.set_register(0, 234);
    assert_eq!(vm.execute(Instruction::LdI { nnn: 0x400 }, 0), Ok(StepEvent::Executed));
    assert_eq!(vm.execute(Instruction::Bcd { x: 0 }, 0), Ok(StepEvent::Executed));
    assert_eq!(vm.read_memory(0x400), Ok(2));
    assert_eq!(vm.read_memory(0x401), Ok(3));
    assert_eq!(vm.read_memory(0x402), Ok(4));
}

#[test]
fn bcd_out_of_bounds() {
    let mut vm = Chip8::new();
    assert_eq!(vm.execute(Instruction::LdI { nnn: 0xFFE }, 0), Ok(StepEvent::Executed));
    assert_eq!(vm.execute(Instruction::Bcd { x: 0 }, 0), Err(VmError::OutOfBounds));
}

#[test]
fn save_and_load_registers() {
    let mut vm = Chip8::new();
    for id in 0u8..4 {
        vm.set_register(id, 10 + id);
    }
    assert_eq!(vm.execute(Instruction::LdI { nnn: 0x500 }, 0), Ok(StepEvent::Executed));
    assert_eq!(vm.execute(Instruction::SaveRegs { x: 3 }, 0), Ok(StepEvent::Executed));
    for id in 0u8..4 {
        assert_eq!(vm.read_memory(0x500 + id as u16), Ok(10 + id));
        vm.set_register(id, 0);
    }
    // V4 was not spilled.
    assert_eq!(vm.read_memory(0x504), Ok(0));
    assert_eq!(vm.execute(Instruction::LoadRegs { x: 3 }, 0), Ok(StepEvent::Executed));
    for id in 0u8..4 {
        assert_eq!(vm.register(id), 10 + id);
    }
}

#[test]
fn save_registers_out_of_bounds() {
    let mut vm = Chip8::new();
    assert_eq!(vm.execute(Instruction::LdI { nnn: 0xFFD }, 0), Ok(StepEvent::Executed));
    assert_eq!(vm.execute(Instruction::SaveRegs { x: 3 }, 0), Err(VmError::OutOfBounds));
    assert_eq!(vm.execute(Instruction::LoadRegs { x: 3 }, 0), Err(VmError::OutOfBounds));
    assert_eq!(vm.execute(Instruction::SaveRegs { x: 2 }, 0), Ok(StepEvent::Executed));
}

#[test]
fn ret_on_empty_stack_underflows() {
    let mut vm = Chip8::new();
    assert_eq!(vm.execute(Instruction::Ret, 0), Err(VmError::StackUnderflow));
}

#[test]
fn timers_set_and_read_by_opcodes() {
    let mut vm = Chip8::new();
    vm.set_register(1, 42);
    assert_eq!(vm.execute(Instruction::SetDt { x: 1 }, 0), Ok(StepEvent::Executed));
    assert_eq!(vm.execute(Instruction::SetSt { x: 1 }, 0), Ok(StepEvent::Executed));
    assert_eq!(vm.delay_timer(), 42);
    assert_eq!(vm.sound_timer(), 42);
    vm.tick_timers();
    assert_eq!(vm.execute(Instruction::LdDt { x: 2 }, 0), Ok(StepEvent::Executed));
    assert_eq!(vm.register(2), 41);
}
