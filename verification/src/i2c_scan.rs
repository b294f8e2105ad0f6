//! Scanning an I2C bus for devices: every 7-bit address from 1 to 127 is
//! probed once, in order, and the acknowledging ones are counted.

use vstd::prelude::*;

verus! {

/// First address probed.
pub const FIRST_ADDRESS: u8 = 1;

/// Last address probed.
pub const LAST_ADDRESS: u8 = 127;

/// Number of `true` entries of `acks`.
pub open spec fn count_acks(acks: Seq<bool>) -> nat
    decreases acks.len(),
{
    if acks.len() == 0 {
        0
    } else {
        count_acks(acks.drop_last()) + if acks.last() {
            1nat
        } else {
            0nat
        }
    }
}

/// Progress of a bus scan.
pub struct I2cScan {
    next: u8,
    found: u32,
    acks: Ghost<Seq<bool>>,
}

impl I2cScan {
    /// Whether each address probed so far acknowledged, in order from address 1.
    pub closed spec fn acks(&self) -> Seq<bool> {
        self.acks@
    }

    /// Internal consistency of the scan.
    pub closed spec fn wf(&self) -> bool {
        &&& 1 <= self.next <= 128
        &&& self.acks@.len() == self.next - 1
        &&& self.found == count_acks(self.acks@)
    }

    /// A scan that has probed nothing yet.
    pub fn new() -> (s: I2cScan)
        ensures
            s.wf(),
            s.acks() == Seq::<bool>::empty(),
    {
        I2cScan { next: FIRST_ADDRESS, found: 0, acks: Ghost(Seq::empty()) }
    }

    /// The next address to probe, or `None` when the scan is complete.
    pub fn next_address(&self) -> (a: Option<u8>)
        requires
            self.wf(),
        ensures
            self.acks().len() < 127 ==> a == Some((self.acks().len() + 1) as u8),
            self.acks().len() >= 127 ==> a is None,
    {
        if self.next <= LAST_ADDRESS {
            Some(self.next)
        } else {
            None
        }
    }

    /// Records whether the address returned by `next_address` acknowledged.
    pub fn record(&mut self, acked: bool)
        requires
            old(self).wf(),
            old(self).acks().len() < 127,
        ensures
            final(self).wf(),
            final(self).acks() == old(self).acks().push(acked),
    {
        proof {
            let s = self.acks@.push(acked);
            assert(s.drop_last() =~= self.acks@);
            assert(count_acks(self.acks@) <= self.acks@.len()) by {
                lemma_count_acks_bounded(self.acks@);
            }
        }
        if acked {
            self.found = self.found + 1;
        }
        self.next = self.next + 1;
        self.acks = Ghost(self.acks@.push(acked));
    }

    /// Number of devices that acknowledged so far.
    pub fn devices_found(&self) -> (n: u32)
        requires
            self.wf(),
        ensures
            n == count_acks(self.acks()),
            n <= 127,
    {
        proof {
            lemma_count_acks_bounded(self.acks@);
        }
        self.found
    }
}

/// The count of acknowledgements never exceeds the number of probes.
pub proof fn lemma_count_acks_bounded(acks: Seq<bool>)
    ensures
        count_acks(acks) <= acks.len(),
    decreases acks.len(),
{
    if acks.len() > 0 {
        lemma_count_acks_bounded(acks.drop_last());
    }
}

} // verus!
