//! The minter role and its hand-over in two steps: the minter offers the role, and the one
//! it is offered to accepts it.

use vstd::prelude::*;

use crate::error::OwnershipError;
use crate::expiration::{BlockInfo, Expiration};
use crate::state::{MinterAuthority, MinterView};

verus! {

/// Whether the step left `new` and `result` as the rules give them: on success their role,
/// on failure their error and the role as it was.
pub open spec fn stepped(
    old: MinterView,
    expected: Result<MinterView, OwnershipError>,
    result: Result<(), OwnershipError>,
    new: MinterView,
) -> bool {
    match result {
        Ok(()) => expected == Ok::<MinterView, OwnershipError>(new),
        Err(e) => expected == Err::<MinterView, OwnershipError>(e) && new == old,
    }
}

impl MinterAuthority {
    /// The role in the hands of `minter`, or of no one, and offered to no one.
    pub fn new(minter: Option<String>) -> (authority: MinterAuthority)
        ensures
            authority@ == (MinterView {
                owner: minter.deep_view(),
                pending_owner: None,
                pending_expiry: None,
            }),
    {
        MinterAuthority { owner: minter, pending_owner: None, pending_expiry: None }
    }


    /// Whether `sender` is the minter.
    pub fn is_minter(&self, sender: &String) -> (held: bool)
        ensures
            held == self@.is_minter(sender@),
    {
        match &self.owner {
            Some(owner) => *owner == *sender,
            None => false,
        }
    }

    /// The minter offers the role to `new_minter`, to be accepted before `expiry`.
    pub fn propose_transfer(
        &mut self,
        sender: &String,
        new_minter: String,
        expiry: Option<Expiration>,
    ) -> (result: Result<(), OwnershipError>)
        ensures
            stepped(
                old(self)@,
                old(self)@.propose_transfer(sender@, new_minter@, expiry),
                result,
                final(self)@,
            ),
    {
        match &self.owner {
            None => {
                return Err(OwnershipError::NoOwner);
            },
            Some(owner) => {
                if *owner != *sender {
                    return Err(OwnershipError::NotOwner);
                }
            },
        }
        self.pending_owner = Some(new_minter);
        self.pending_expiry = expiry;
        Ok(())
    }

    /// The one to whom the role was offered takes it.
    pub fn accept_transfer(&mut self, block: &BlockInfo, sender: &String) -> (result: Result<
        (),
        OwnershipError,
    >)
        ensures
            stepped(
                old(self)@,
                old(self)@.accept_transfer(*block, sender@),
                result,
                final(self)@,
            ),
    {
        match &self.pending_owner {
            None => {
                return Err(OwnershipError::TransferNotFound);
            },
            Some(pending) => {
                if *pending != *sender {
                    return Err(OwnershipError::NotPendingOwner);
                }
            },
        }
        match &self.pending_expiry {
            Some(expiry) => {
                if expiry.is_expired(block) {
                    return Err(OwnershipError::TransferExpired);
                }
            },
            None => {},
        }
        self.owner = self.pending_owner.take();
        self.pending_expiry = None;
        Ok(())
    }

    /// The minter gives the role up for good.
    pub fn renounce(&mut self, sender: &String) -> (result: Result<(), OwnershipError>)
        ensures
            stepped(old(self)@, old(self)@.renounce(sender@), result, final(self)@),
    {
        match &self.owner {
            None => {
                return Err(OwnershipError::NoOwner);
            },
            Some(owner) => {
                if *owner != *sender {
                    return Err(OwnershipError::NotOwner);
                }
            },
        }
        self.owner = None;
        self.pending_owner = None;
        self.pending_expiry = None;
        Ok(())
    }
}

} // verus!
