//! The count of issued tokens against the supply.

use vstd::prelude::*;

use crate::error::ContractError;
use crate::state::SupplyTracker;

verus! {

impl SupplyTracker {
    /// A tracker for a supply of `max_supply` tokens, none of them issued.
    pub fn new(max_supply: u64) -> (tracker: SupplyTracker)
        ensures
            tracker == (SupplyTracker { issued_count: 0, max_supply }),
    {
        SupplyTracker { issued_count: 0, max_supply }
    }

    /// Whether one more token can be issued.
    pub fn has_capacity(&self) -> (free: bool)
        ensures
            free == (self.reserved() is Some),
    {
        self.issued_count < self.max_supply
    }

    /// Counts one more token as issued, or fails where the supply is used up and leaves the
    /// count as it was.
    pub fn reserve_one(&mut self) -> (result: Result<(), ContractError>)
        ensures
            match result {
                Ok(()) => old(self).reserved() == Some(*final(self)),
                Err(e) => old(self).reserved() is None && *final(self) == *old(self) && e
                    == (ContractError::MaxSupplyExceeded {  }),
            },
    {
        if !self.has_capacity() {
            return Err(ContractError::MaxSupplyExceeded {  });
        }
        self.issued_count = self.issued_count + 1;
        Ok(())
    }
}

} // verus!
