use vstd::prelude::*;
use vstd::pervasive::VecAdditionalExecFns;
use crate::errors::VmError;

verus! {

/// Size of the flat address space, in bytes.
pub const MEM_SIZE: usize = 4096;

/// First address of the program region; programs are loaded verbatim here.
pub const PROGRAM_START: usize = 0x200;

/// First address of the built-in font; sixteen glyphs of five bytes each.
pub const FONT_START: usize = 0x50;

/// The built-in font: glyphs for the hexadecimal digits 0 through F, five
/// bytes per glyph, each byte one row of pixels in its high nibble.
pub open spec fn font_seq() -> Seq<u8> {
    seq![
        0xF0u8, 0x90, 0x90, 0x90, 0xF0, // 0
        0x20, 0x60, 0x20, 0x20, 0x70, // 1
        0xF0, 0x10, 0xF0, 0x80, 0xF0, // 2
        0xF0, 0x10, 0xF0, 0x10, 0xF0, // 3
        0x90, 0x90, 0xF0, 0x10, 0x10, // 4
        0xF0, 0x80, 0xF0, 0x10, 0xF0, // 5
        0xF0, 0x80, 0xF0, 0x90, 0xF0, // 6
        0xF0, 0x10, 0x20, 0x40, 0x40, // 7
        0xF0, 0x90, 0xF0, 0x90, 0xF0, // 8
        0xF0, 0x90, 0xF0, 0x10, 0xF0, // 9
        0xF0, 0x90, 0xF0, 0x90, 0x90, // A
        0xE0, 0x90, 0xE0, 0x90, 0xE0, // B
        0xF0, 0x80, 0x80, 0x80, 0xF0, // C
        0xE0, 0x90, 0x90, 0x90, 0xE0, // D
        0xF0, 0x80, 0xF0, 0x80, 0xF0, // E
        0xF0, 0x80, 0xF0, 0x80, 0x80, // F
    ]
}

/// Memory as it stands at power-on: zero everywhere except the font region.
pub open spec fn spec_initial_mem() -> Seq<u8> {
    Seq::new(
        MEM_SIZE as nat,
        |a: int|
            if FONT_START <= a < FONT_START + 80 {
                font_seq()[a - FONT_START]
            } else {
                0u8
            },
    )
}

/// `base` with the range starting at `at` replaced by `data`; everything
/// outside that range is untouched.
pub open spec fn overlay(base: Seq<u8>, at: int, data: Seq<u8>) -> Seq<u8> {
    Seq::new(
        base.len(),
        |k: int|
            if at <= k < at + data.len() {
                data[k - at]
            } else {
                base[k]
            },
    )
}

/// The flat 4096-byte store holding the font and the loaded program.
pub struct Memory {
    bytes: Vec<u8>,
}

impl View for Memory {
    type V = Seq<u8>;

    closed spec fn view(&self) -> Seq<u8> {
        self.bytes@
    }
}

impl Memory {
    pub open spec fn wf(&self) -> bool {
        self@.len() == MEM_SIZE
    }

    /// Fresh memory: zero-filled, with the font glyphs preloaded.
    pub fn new() -> (m: Memory)
        ensures
            m.wf(),
            m@ == spec_initial_mem(),
    {
        let mut bytes: Vec<u8> = Vec::new();
        let mut k: usize = 0;
        while k < MEM_SIZE
            invariant
                k <= MEM_SIZE,
                bytes@.len() == k,
                forall|j: int| 0 <= j < k ==> bytes@[j] == 0u8,
            decreases MEM_SIZE - k,
        {
            bytes.push(0);
            k += 1;
        }
        let font = font_bytes();
        let mut k: usize = 0;
        while k < 80
            invariant
                k <= 80,
                bytes@.len() == MEM_SIZE,
                font@ == font_seq(),
                forall|j: int|
                    0 <= j < MEM_SIZE ==> bytes@[j] == (if FONT_START <= j < FONT_START + k {
                        font_seq()[j - FONT_START]
                    } else {
                        0u8
                    }),
            decreases 80 - k,
        {
            bytes.set(FONT_START + k, font[k]);
            k += 1;
        }
        let m = Memory { bytes };
        proof {
            assert(m@ =~= spec_initial_mem());
        }
        m
    }

    /// The byte at `addr`; `OutOfBounds` outside the address space.
    pub fn read_byte(&self, addr: u16) -> (r: Result<u8, VmError>)
        requires
            self.wf(),
        ensures
            addr < MEM_SIZE ==> r == Ok::<u8, VmError>(self@[addr as int]),
            addr >= MEM_SIZE ==> r == Err::<u8, VmError>(VmError::OutOfBounds),
    {
        if (addr as usize) < MEM_SIZE {
            Ok(self.bytes[addr as usize])
        } else {
            Err(VmError::OutOfBounds)
        }
    }

    /// The big-endian 16-bit word at `addr`, `addr + 1`; `OutOfBounds` if
    /// either byte lies outside the address space.
    pub fn read_word(&self, addr: u16) -> (r: Result<u16, VmError>)
        requires
            self.wf(),
        ensures
            addr + 1 < MEM_SIZE ==> r == Ok::<u16, VmError>(spec_word(self@, addr as int)),
            addr + 1 >= MEM_SIZE ==> r == Err::<u16, VmError>(VmError::OutOfBounds),
    {
        if (addr as usize) + 1 < MEM_SIZE {
            let hi = self.bytes[addr as usize];
            let lo = self.bytes[addr as usize + 1];
            Ok((hi as u16) * 256 + (lo as u16))
        } else {
            Err(VmError::OutOfBounds)
        }
    }

    /// Store `value` at `addr`; `OutOfBounds` outside the address space, with
    /// memory unchanged.
    pub fn write_byte(&mut self, addr: u16, value: u8) -> (r: Result<(), VmError>)
        requires
            old(self).wf(),
        ensures
            final(self).wf(),
            addr < MEM_SIZE ==> r == Ok::<(), VmError>(()) && final(self)@ == old(self)@.update(
                addr as int,
                value,
            ),
            addr >= MEM_SIZE ==> r == Err::<(), VmError>(VmError::OutOfBounds) && final(self)@
                == old(self)@,
    {
        if (addr as usize) < MEM_SIZE {
            self.bytes.set(addr as usize, value);
            Ok(())
        } else {
            Err(VmError::OutOfBounds)
        }
    }

    /// Copy `program` into memory starting at `PROGRAM_START`. A payload that
    /// does not fit below the end of the address space is rejected with
    /// `OutOfBounds` and memory is left unmodified.
    pub fn load_program(&mut self, program: &Vec<u8>) -> (r: Result<(), VmError>)
        requires
            old(self).wf(),
        ensures
            final(self).wf(),
            program@.len() + PROGRAM_START <= MEM_SIZE ==> r == Ok::<(), VmError>(())
                && final(self)@ == overlay(old(self)@, PROGRAM_START as int, program@),
            program@.len() + PROGRAM_START > MEM_SIZE ==> r == Err::<(), VmError>(
                VmError::OutOfBounds,
            ) && final(self)@ == old(self)@,
    {
        if program.len() > MEM_SIZE - PROGRAM_START {
            return Err(VmError::OutOfBounds);
        }
        let ghost orig = self@;
        let mut k: usize = 0;
        while k < program.len()
            invariant
                self.wf(),
                k <= program@.len(),
                program@.len() <= MEM_SIZE - PROGRAM_START,
                self@ == overlay(orig, PROGRAM_START as int, program@.take(k as int)),
            decreases program@.len() - k,
        {
            self.bytes.set(PROGRAM_START + k, program[k]);
            k += 1;
            proof {
                assert(self@ =~= overlay(orig, PROGRAM_START as int, program@.take(k as int)));
            }
        }
        proof {
            assert(program@.take(program@.len() as int) =~= program@);
        }
        Ok(())
    }

    /// The byte at `addr`, for callers that have already established bounds.
    pub(crate) fn byte_at(&self, addr: usize) -> (b: u8)
        requires
            self.wf(),
            addr < MEM_SIZE,
        ensures
            b == self@[addr as int],
    {
        self.bytes[addr]
    }

    /// Store `value` at `addr`, for callers that have already established
    /// bounds.
    pub(crate) fn set_byte_at(&mut self, addr: usize, value: u8)
        requires
            old(self).wf(),
            addr < MEM_SIZE,
        ensures
            final(self).wf(),
            final(self)@ == old(self)@.update(addr as int, value),
    {
        self.bytes.set(addr, value);
    }
}

/// The big-endian word formed by the bytes at `a` and `a + 1`.
pub open spec fn spec_word(mem: Seq<u8>, a: int) -> u16
    recommends
        0 <= a,
        a + 1 < mem.len(),
{
    (mem[a] * 256 + mem[a + 1]) as u16
}

/// The font bytes as a vector, for preloading into memory.
fn font_bytes() -> (v: Vec<u8>)
    ensures
        v@ == font_seq(),
{
    let mut v: Vec<u8> = Vec::new();
    v.push(0xF0); v.push(0x90); v.push(0x90); v.push(0x90); v.push(0xF0);
    v.push(0x20); v.push(0x60); v.push(0x20); v.push(0x20); v.push(0x70);
    v.push(0xF0); v.push(0x10); v.push(0xF0); v.push(0x80); v.push(0xF0);
    v.push(0xF0); v.push(0x10); v.push(0xF0); v.push(0x10); v.push(0xF0);
    v.push(0x90); v.push(0x90); v.push(0xF0); v.push(0x10); v.push(0x10);
    v.push(0xF0); v.push(0x80); v.push(0xF0); v.push(0x10); v.push(0xF0);
    v.push(0xF0); v.push(0x80); v.push(0xF0); v.push(0x90); v.push(0xF0);
    v.push(0xF0); v.push(0x10); v.push(0x20); v.push(0x40); v.push(0x40);
    v.push(0xF0); v.push(0x90); v.push(0xF0); v.push(0x90); v.push(0xF0);
    v.push(0xF0); v.push(0x90); v.push(0xF0); v.push(0x10); v.push(0xF0);
    v.push(0xF0); v.push(0x90); v.push(0xF0); v.push(0x90); v.push(0x90);
    v.push(0xE0); v.push(0x90); v.push(0xE0); v.push(0x90); v.push(0xE0);
    v.push(0xF0); v.push(0x80); v.push(0x80); v.push(0x80); v.push(0xF0);
    v.push(0xE0); v.push(0x90); v.push(0x90); v.push(0x90); v.push(0xE0);
    v.push(0xF0); v.push(0x80); v.push(0xF0); v.push(0x80); v.push(0xF0);
    v.push(0xF0); v.push(0x80); v.push(0xF0); v.push(0x80); v.push(0x80);
    proof {
        assert(v@ =~= font_seq());
    }
    v
}

} // verus!
