//! The host's persisted-state slot.
//!
//! A deployment holds exactly one ledger root, created by `initialize` before
//! any other operation may run. The first successful `initialize` fixes the
//! owner; every later attempt fails with `AlreadyInitialized` and changes
//! nothing, so the owner never changes afterwards.

use vstd::prelude::*;

use crate::account::valid_account_id;
use crate::errors::Error;
use crate::machine::SlotMachine;

verus! {

/// A slot of persisted state: empty until `initialize` succeeds, then the
/// home of the one ledger root of the deployment.
pub struct StateSlot {
    initialized: bool,
    machine: SlotMachine,
}

impl StateSlot {
    /// Whether `initialize` has succeeded on this slot.
    pub closed spec fn is_init(self) -> bool {
        self.initialized
    }

    /// The ledger root the slot holds.
    pub closed spec fn machine_spec(self) -> SlotMachine {
        self.machine
    }

    /// A slot on which nothing has run yet.
    pub fn empty() -> (r: StateSlot)
        ensures
            !r.is_init(),
    {
        StateSlot { initialized: false, machine: SlotMachine::blank() }
    }

    /// Creates the ledger root, exactly once. A second and any later attempt
    /// fails with `AlreadyInitialized` and leaves the slot, its owner
    /// included, exactly as it was; a malformed owner identity fails with
    /// `InvalidIdentity` and leaves the slot uninitialized.
    pub fn initialize(&mut self, owner_id: String) -> (r: Result<(), Error>)
        ensures
            old(self).is_init() ==> (r matches Err(e) && e == Error::AlreadyInitialized
                && *final(self) == *old(self)),
            !old(self).is_init() && !valid_account_id(owner_id@)
                ==> (r matches Err(e) && e == Error::InvalidIdentity
                && *final(self) == *old(self)),
            !old(self).is_init() && valid_account_id(owner_id@) ==> (r matches Ok(())
                && final(self).is_init()
                && final(self).machine_spec().owner() == owner_id@
                && (forall|id: Seq<char>| final(self).machine_spec().balance_of(id) == 0)
                && final(self).machine_spec().wf()),
    {
        if self.initialized {
            return Err(Error::AlreadyInitialized);
        }
        match SlotMachine::new(owner_id) {
            Ok(m) => {
                self.machine = m;
                self.initialized = true;
                Ok(())
            }
            Err(e) => Err(e),
        }
    }

    /// Whether the slot already holds a ledger.
    pub fn is_initialized(&self) -> (r: bool)
        ensures
            r == self.is_init(),
    {
        self.initialized
    }

    /// Read access to the ledger root of an initialized slot.
    pub fn machine(&self) -> (r: &SlotMachine)
        requires
            self.is_init(),
        ensures
            *r == self.machine_spec(),
    {
        &self.machine
    }

    /// Write access to the ledger root of an initialized slot: deposits,
    /// debits and plays run on the machine behind the returned reference.
    pub fn machine_mut(&mut self) -> (r: &mut SlotMachine)
        requires
            old(self).is_init(),
        ensures
            *r == old(self).machine_spec(),
            final(self).machine_spec() == *final(r),
            final(self).is_init(),
    {
        &mut self.machine
    }
}

} // verus!
