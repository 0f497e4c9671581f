use vstd::prelude::*;
use vstd::pervasive::VecAdditionalExecFns;

verus! {

/// Number of keys on the CHIP-8 keypad, labelled 0x0 through 0xF.
pub const NUM_KEYS: usize = 16;

/// The sixteen boolean key states, written by the host and read by the
/// interpreter's skip-on-key instructions.
pub struct InputLatch {
    keys: Vec<bool>,
}

impl View for InputLatch {
    type V = Seq<bool>;

    closed spec fn view(&self) -> Seq<bool> {
        self.keys@
    }
}

impl InputLatch {
    pub open spec fn wf(&self) -> bool {
        self@.len() == NUM_KEYS
    }

    /// Fresh latch, no key held.
    pub fn new() -> (latch: InputLatch)
        ensures
            latch.wf(),
            latch@ == Seq::new(NUM_KEYS as nat, |j: int| false),
    {
        let mut keys: Vec<bool> = Vec::new();
        let mut k: usize = 0;
        while k < NUM_KEYS
            invariant
                k <= NUM_KEYS,
                keys@.len() == k,
                forall|j: int| 0 <= j < k ==> keys@[j] == false,
            decreases NUM_KEYS - k,
        {
            keys.push(false);
            k += 1;
        }
        let latch = InputLatch { keys };
        proof {
            assert(latch@ =~= Seq::new(NUM_KEYS as nat, |j: int| false));
        }
        latch
    }

    /// Whether key `key` is currently held.
    pub fn is_pressed(&self, key: u8) -> (held: bool)
        requires
            self.wf(),
            key < NUM_KEYS,
        ensures
            held == self@[key as int],
    {
        self.keys[key as usize]
    }

    /// Record the host-reported state of key `key`.
    pub fn set(&mut self, key: u8, pressed: bool)
        requires
            old(self).wf(),
            key < NUM_KEYS,
        ensures
            final(self).wf(),
            final(self)@ == old(self)@.update(key as int, pressed),
    {
        self.keys.set(key as usize, pressed);
    }
}

} // verus!
