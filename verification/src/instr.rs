use vstd::prelude::*;

verus! {

/// A decoded instruction: the tagged value that `decode` produces and
/// `Chip8::execute` dispatches over, so the two halves stay independently
/// testable.
///
/// Field names follow the classic opcode notation: `nnn` is a 12-bit
/// address, `x` and `y` are register ids, `kk` an 8-bit immediate, `n` a
/// sprite height nibble.
#[derive(Clone, Copy, Debug, PartialEq, Eq, Structural)]
pub enum Instruction {
    /// 00E0: clear the framebuffer.
    Cls,
    /// 00EE: return; pop the program counter off the call stack.
    Ret,
    /// 1nnn: jump.
    Jp { nnn: u16 },
    /// 2nnn: call; push the program counter, then jump.
    Call { nnn: u16 },
    /// 3xkk: skip the next instruction if Vx == kk.
    SeByte { x: u8, kk: u8 },
    /// 4xkk: skip the next instruction if Vx != kk.
    SneByte { x: u8, kk: u8 },
    /// 5xy0: skip the next instruction if Vx == Vy.
    SeReg { x: u8, y: u8 },
    /// 6xkk: Vx = kk.
    LdByte { x: u8, kk: u8 },
    /// 7xkk: Vx += kk, wrapping, VF untouched.
    AddByte { x: u8, kk: u8 },
    /// 8xy0: Vx = Vy.
    LdReg { x: u8, y: u8 },
    /// 8xy1: Vx |= Vy.
    Or { x: u8, y: u8 },
    /// 8xy2: Vx &= Vy.
    And { x: u8, y: u8 },
    /// 8xy3: Vx ^= Vy.
    Xor { x: u8, y: u8 },
    /// 8xy4: Vx += Vy wrapping; VF = 1 iff the sum exceeds 255.
    AddReg { x: u8, y: u8 },
    /// 8xy5: VF = 1 iff Vx >= Vy, then Vx -= Vy wrapping.
    Sub { x: u8, y: u8 },
    /// 8xy6: VF = low bit of Vx, then Vx >>= 1.
    Shr { x: u8 },
    /// 8xy7: VF = 1 iff Vy >= Vx, then Vx = Vy - Vx wrapping.
    Subn { x: u8, y: u8 },
    /// 8xyE: VF = high bit of Vx, then Vx <<= 1.
    Shl { x: u8 },
    /// 9xy0: skip the next instruction if Vx != Vy.
    SneReg { x: u8, y: u8 },
    /// Annn: I = nnn.
    LdI { nnn: u16 },
    /// Bnnn: jump to nnn + V0.
    JpV0 { nnn: u16 },
    /// Cxkk: Vx = random byte AND kk.
    Rnd { x: u8, kk: u8 },
    /// Dxyn: draw the n-byte sprite at memory[I..] at (Vx mod 64, Vy mod 32);
    /// VF = 1 iff a pixel was erased.
    Drw { x: u8, y: u8, n: u8 },
    /// Ex9E: skip the next instruction if key Vx is held.
    Skp { x: u8 },
    /// ExA1: skip the next instruction if key Vx is not held.
    Sknp { x: u8 },
    /// Fx07: Vx = delay timer.
    LdDt { x: u8 },
    /// Fx0A: suspend until the next key-press edge, then Vx = that key.
    LdKey { x: u8 },
    /// Fx15: delay timer = Vx.
    SetDt { x: u8 },
    /// Fx18: sound timer = Vx.
    SetSt { x: u8 },
    /// Fx1E: I += Vx, wrapping in 12 bits.
    AddI { x: u8 },
    /// Fx29: I = address of the built-in glyph for the low nibble of Vx.
    LdFont { x: u8 },
    /// Fx33: store Vx as three decimal digits at I, I+1, I+2.
    Bcd { x: u8 },
    /// Fx55: store V0..=Vx to memory starting at I.
    SaveRegs { x: u8 },
    /// Fx65: load V0..=Vx from memory starting at I.
    LoadRegs { x: u8 },
    /// Anything else: a logged no-op carrying the raw opcode, so malformed or
    /// extension-only programs degrade instead of aborting.
    Unknown { op: u16 },
}

/// The 12-bit address field.
pub open spec fn op_nnn(op: u16) -> u16 {
    op & 0x0FFF
}

/// The register id in bits 8..12.
pub open spec fn op_x(op: u16) -> u8 {
    ((op >> 8) & 0x0F) as u8
}

/// The register id in bits 4..8.
pub open spec fn op_y(op: u16) -> u8 {
    ((op >> 4) & 0x0F) as u8
}

/// The low nibble.
pub open spec fn op_n(op: u16) -> u8 {
    (op & 0x0F) as u8
}

/// The low byte.
pub open spec fn op_kk(op: u16) -> u8 {
    (op & 0xFF) as u8
}

/// Every operand field fits its width: register ids and nibbles are below
/// 16, addresses below 4096, so decoded fields always index safely.
pub proof fn lemma_op_field_bounds(op: u16)
    ensures
        op_x(op) < 16,
        op_y(op) < 16,
        op_n(op) < 16,
        op_nnn(op) < 4096,
{
    assert(((op >> 8) & 0x0F) < 16) by (bit_vector);
    assert(((op >> 4) & 0x0F) < 16) by (bit_vector);
    assert((op & 0x0F) < 16) by (bit_vector);
    assert((op & 0x0FFF) < 4096) by (bit_vector);
}

/// Every operand field fits its width, as decoding guarantees: register ids
/// and nibbles are four bits, addresses twelve.
pub open spec fn ins_wf(ins: Instruction) -> bool {
    match ins {
        Instruction::Cls => true,
        Instruction::Ret => true,
        Instruction::Jp { nnn } => nnn < 4096,
        Instruction::Call { nnn } => nnn < 4096,
        Instruction::SeByte { x, kk } => x < 16,
        Instruction::SneByte { x, kk } => x < 16,
        Instruction::SeReg { x, y } => x < 16 && y < 16,
        Instruction::LdByte { x, kk } => x < 16,
        Instruction::AddByte { x, kk } => x < 16,
        Instruction::LdReg { x, y } => x < 16 && y < 16,
        Instruction::Or { x, y } => x < 16 && y < 16,
        Instruction::And { x, y } => x < 16 && y < 16,
        Instruction::Xor { x, y } => x < 16 && y < 16,
        Instruction::AddReg { x, y } => x < 16 && y < 16,
        Instruction::Sub { x, y } => x < 16 && y < 16,
        Instruction::Shr { x } => x < 16,
        Instruction::Subn { x, y } => x < 16 && y < 16,
        Instruction::Shl { x } => x < 16,
        Instruction::SneReg { x, y } => x < 16 && y < 16,
        Instruction::LdI { nnn } => nnn < 4096,
        Instruction::JpV0 { nnn } => nnn < 4096,
        Instruction::Rnd { x, kk } => x < 16,
        Instruction::Drw { x, y, n } => x < 16 && y < 16 && n < 16,
        Instruction::Skp { x } => x < 16,
        Instruction::Sknp { x } => x < 16,
        Instruction::LdDt { x } => x < 16,
        Instruction::LdKey { x } => x < 16,
        Instruction::SetDt { x } => x < 16,
        Instruction::SetSt { x } => x < 16,
        Instruction::AddI { x } => x < 16,
        Instruction::LdFont { x } => x < 16,
        Instruction::Bcd { x } => x < 16,
        Instruction::SaveRegs { x } => x < 16,
        Instruction::LoadRegs { x } => x < 16,
        Instruction::Unknown { op } => true,
    }
}

/// What `decode` returns for each opcode: the top nibble selects the class,
/// the remaining fields select operands; every pattern the table does not
/// recognize decodes to `Unknown`.
pub open spec fn spec_decode(op: u16) -> Instruction {
    let hi = op >> 12;
    if op == 0x00E0 {
        Instruction::Cls
    } else if op == 0x00EE {
        Instruction::Ret
    } else if hi == 0x1 {
        Instruction::Jp { nnn: op_nnn(op) }
    } else if hi == 0x2 {
        Instruction::Call { nnn: op_nnn(op) }
    } else if hi == 0x3 {
        Instruction::SeByte { x: op_x(op), kk: op_kk(op) }
    } else if hi == 0x4 {
        Instruction::SneByte { x: op_x(op), kk: op_kk(op) }
    } else if hi == 0x5 && op_n(op) == 0 {
        Instruction::SeReg { x: op_x(op), y: op_y(op) }
    } else if hi == 0x6 {
        Instruction::LdByte { x: op_x(op), kk: op_kk(op) }
    } else if hi == 0x7 {
        Instruction::AddByte { x: op_x(op), kk: op_kk(op) }
    } else if hi == 0x8 && op_n(op) == 0x0 {
        Instruction::LdReg { x: op_x(op), y: op_y(op) }
    } else if hi == 0x8 && op_n(op) == 0x1 {
        Instruction::Or { x: op_x(op), y: op_y(op) }
    } else if hi == 0x8 && op_n(op) == 0x2 {
        Instruction::And { x: op_x(op), y: op_y(op) }
    } else if hi == 0x8 && op_n(op) == 0x3 {
        Instruction::Xor { x: op_x(op), y: op_y(op) }
    } else if hi == 0x8 && op_n(op) == 0x4 {
        Instruction::AddReg { x: op_x(op), y: op_y(op) }
    } else if hi == 0x8 && op_n(op) == 0x5 {
        Instruction::Sub { x: op_x(op), y: op_y(op) }
    } else if hi == 0x8 && op_n(op) == 0x6 {
        Instruction::Shr { x: op_x(op) }
    } else if hi == 0x8 && op_n(op) == 0x7 {
        Instruction::Subn { x: op_x(op), y: op_y(op) }
    } else if hi == 0x8 && op_n(op) == 0xE {
        Instruction::Shl { x: op_x(op) }
    } else if hi == 0x9 && op_n(op) == 0 {
        Instruction::SneReg { x: op_x(op), y: op_y(op) }
    } else if hi == 0xA {
        Instruction::LdI { nnn: op_nnn(op) }
    } else if hi == 0xB {
        Instruction::JpV0 { nnn: op_nnn(op) }
    } else if hi == 0xC {
        Instruction::Rnd { x: op_x(op), kk: op_kk(op) }
    } else if hi == 0xD {
        Instruction::Drw { x: op_x(op), y: op_y(op), n: op_n(op) }
    } else if hi == 0xE && op_kk(op) == 0x9E {
        Instruction::Skp { x: op_x(op) }
    } else if hi == 0xE && op_kk(op) == 0xA1 {
        Instruction::Sknp { x: op_x(op) }
    } else if hi == 0xF && op_kk(op) == 0x07 {
        Instruction::LdDt { x: op_x(op) }
    } else if hi == 0xF && op_kk(op) == 0x0A {
        Instruction::LdKey { x: op_x(op) }
    } else if hi == 0xF && op_kk(op) == 0x15 {
        Instruction::SetDt { x: op_x(op) }
    } else if hi == 0xF && op_kk(op) == 0x18 {
        Instruction::SetSt { x: op_x(op) }
    } else if hi == 0xF && op_kk(op) == 0x1E {
        Instruction::AddI { x: op_x(op) }
    } else if hi == 0xF && op_kk(op) == 0x29 {
        Instruction::LdFont { x: op_x(op) }
    } else if hi == 0xF && op_kk(op) == 0x33 {
        Instruction::Bcd { x: op_x(op) }
    } else if hi == 0xF && op_kk(op) == 0x55 {
        Instruction::SaveRegs { x: op_x(op) }
    } else if hi == 0xF && op_kk(op) == 0x65 {
        Instruction::LoadRegs { x: op_x(op) }
    } else {
        Instruction::Unknown { op }
    }
}

/// Whatever the opcode, the decoded instruction has all fields in range.
pub proof fn lemma_spec_decode_wf(op: u16)
    ensures
        ins_wf(spec_decode(op)),
{
    lemma_op_field_bounds(op);
}

/// Decode a 16-bit opcode into its tagged instruction. A pure function of
/// the opcode word alone.
pub fn decode(op: u16) -> (ins: Instruction)
    ensures
        ins == spec_decode(op),
        ins_wf(ins),
{
    proof {
        lemma_spec_decode_wf(op);
    }
    let hi = op >> 12;
    let nnn = op & 0x0FFF;
    let x = ((op >> 8) & 0x0F) as u8;
    let y = ((op >> 4) & 0x0F) as u8;
    let n = (op & 0x0F) as u8;
    let kk = (op & 0xFF) as u8;
    if op == 0x00E0 {
        Instruction::Cls
    } else if op == 0x00EE {
        Instruction::Ret
    } else if hi == 0x1 {
        Instruction::Jp { nnn }
    } else if hi == 0x2 {
        Instruction::Call { nnn }
    } else if hi == 0x3 {
        Instruction::SeByte { x, kk }
    } else if hi == 0x4 {
        Instruction::SneByte { x, kk }
    } else if hi == 0x5 && n == 0 {
        Instruction::SeReg { x, y }
    } else if hi == 0x6 {
        Instruction::LdByte { x, kk }
    } else if hi == 0x7 {
        Instruction::AddByte { x, kk }
    } else if hi == 0x8 && n == 0x0 {
        Instruction::LdReg { x, y }
    } else if hi == 0x8 && n == 0x1 {
        Instruction::Or { x, y }
    } else if hi == 0x8 && n == 0x2 {
        Instruction::And { x, y }
    } else if hi == 0x8 && n == 0x3 {
        Instruction::Xor { x, y }
    } else if hi == 0x8 && n == 0x4 {
        Instruction::AddReg { x, y }
    } else if hi == 0x8 && n == 0x5 {
        Instruction::Sub { x, y }
    } else if hi == 0x8 && n == 0x6 {
        Instruction::Shr { x }
    } else if hi == 0x8 && n == 0x7 {
        Instruction::Subn { x, y }
    } else if hi == 0x8 && n == 0xE {
        Instruction::Shl { x }
    } else if hi == 0x9 && n == 0 {
        Instruction::SneReg { x, y }
    } else if hi == 0xA {
        Instruction::LdI { nnn }
    } else if hi == 0xB {
        Instruction::JpV0 { nnn }
    } else if hi == 0xC {
        Instruction::Rnd { x, kk }
    } else if hi == 0xD {
        Instruction::Drw { x, y, n }
    } else if hi == 0xE && kk == 0x9E {
        Instruction::Skp { x }
    } else if hi == 0xE && kk == 0xA1 {
        Instruction::Sknp { x }
    } else if hi == 0xF && kk == 0x07 {
        Instruction::LdDt { x }
    } else if hi == 0xF && kk == 0x0A {
        Instruction::LdKey { x }
    } else if hi == 0xF && kk == 0x15 {
        Instruction::SetDt { x }
    } else if hi == 0xF && kk == 0x18 {
        Instruction::SetSt { x }
    } else if hi == 0xF && kk == 0x1E {
        Instruction::AddI { x }
    } else if hi == 0xF && kk == 0x29 {
        Instruction::LdFont { x }
    } else if hi == 0xF && kk == 0x33 {
        Instruction::Bcd { x }
    } else if hi == 0xF && kk == 0x55 {
        Instruction::SaveRegs { x }
    } else if hi == 0xF && kk == 0x65 {
        Instruction::LoadRegs { x }
    } else {
        Instruction::Unknown { op }
    }
}

} // verus!
