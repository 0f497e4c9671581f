use vstd::prelude::*;
use vstd::pervasive::VecAdditionalExecFns;

verus! {

/// Number of general registers.
pub const NUM_REGISTERS: usize = 16;

/// The flag register, VF: addressable like any other register, and
/// additionally overwritten by the arithmetic, shift and draw instructions to
/// report carry, borrow and collision.
pub const FLAG_REGISTER: u8 = 0xF;

/// The sixteen 8-bit general registers V0 through VF.
pub struct RegisterFile {
    v: Vec<u8>,
}

impl View for RegisterFile {
    type V = Seq<u8>;

    closed spec fn view(&self) -> Seq<u8> {
        self.v@
    }
}

impl RegisterFile {
    pub open spec fn wf(&self) -> bool {
        self@.len() == NUM_REGISTERS
    }

    /// Fresh register file, every register zero.
    pub fn new() -> (rf: RegisterFile)
        ensures
            rf.wf(),
            rf@ == Seq::new(NUM_REGISTERS as nat, |j: int| 0u8),
    {
        let mut v: Vec<u8> = Vec::new();
        let mut k: usize = 0;
        while k < NUM_REGISTERS
            invariant
                k <= NUM_REGISTERS,
                v@.len() == k,
                forall|j: int| 0 <= j < k ==> v@[j] == 0u8,
            decreases NUM_REGISTERS - k,
        {
            v.push(0);
            k += 1;
        }
        let rf = RegisterFile { v };
        proof {
            assert(rf@ =~= Seq::new(NUM_REGISTERS as nat, |j: int| 0u8));
        }
        rf
    }

    /// The value of register `id`. Opcode fields are four bits wide, so
    /// decoding guarantees the range before any call lands here.
    pub fn get(&self, id: u8) -> (value: u8)
        requires
            self.wf(),
            id < NUM_REGISTERS,
        ensures
            value == self@[id as int],
    {
        self.v[id as usize]
    }

    /// Set register `id` to `value`; every other register keeps its value.
    pub fn set(&mut self, id: u8, value: u8)
        requires
            old(self).wf(),
            id < NUM_REGISTERS,
        ensures
            final(self).wf(),
            final(self)@ == old(self)@.update(id as int, value),
    {
        self.v.set(id as usize, value);
    }
}

/// Writing a register and reading it back returns the written value, and
/// leaves every other register untouched — for every id and every value.
pub proof fn lemma_set_get_roundtrip(regs: Seq<u8>, id: int, value: u8)
    requires
        regs.len() == NUM_REGISTERS,
        0 <= id < NUM_REGISTERS,
    ensures
        regs.update(id, value)[id] == value,
        forall|j: int| 0 <= j < NUM_REGISTERS && j != id ==> regs.update(id, value)[j] == regs[j],
{
}

} // verus!
