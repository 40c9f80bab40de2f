//! Points in time at which a delegated right lapses, measured against a block.

use vstd::prelude::*;

verus! {

/// The position of the chain at which a call executes.
#[derive(Clone, Copy, Debug, PartialEq, Eq)]
pub struct BlockInfo {
    /// Height of the block.
    pub height: u64,
    /// Time of the block, in nanoseconds since the Unix epoch.
    pub time: u64,
}

/// When a delegated right lapses.
#[derive(Clone, Copy, Debug, PartialEq, Eq)]
pub enum Expiration {
    /// Lapses once the block height reaches the given height.
    AtHeight(u64),
    /// Lapses once the block time reaches the given time, in nanoseconds since the Unix epoch.
    AtTime(u64),
    /// Never lapses.
    Never,
}

impl Expiration {
    /// Whether the right has lapsed at `block`.
    pub open spec fn expired_at(self, block: BlockInfo) -> bool {
        match self {
            Expiration::AtHeight(height) => block.height >= height,
            Expiration::AtTime(time) => block.time >= time,
            Expiration::Never => false,
        }
    }

    /// Whether the right has lapsed at `block`.
    pub fn is_expired(&self, block: &BlockInfo) -> (expired: bool)
        ensures
            expired == self.expired_at(*block),
    {
        expired_by(self, block)
    }
}

/// Whether `expires` has lapsed at `block`.
///
/// Calls `cw_utils::Expiration::is_expired`. The contract restates that method's three arms:
/// a height or a time has lapsed once the block has reached it, `Never` does not lapse.
#[verifier::external_body]
fn expired_by(expires: &Expiration, block: &BlockInfo) -> (expired: bool)
    ensures
        expired == expires.expired_at(*block),
{
    let outside = match expires {
        Expiration::AtHeight(height) => cw_utils::Expiration::AtHeight(*height),
        Expiration::AtTime(time) => {
            cw_utils::Expiration::AtTime(cosmwasm_std::Timestamp::from_nanos(*time))
        },
        Expiration::Never => cw_utils::Expiration::Never {},
    };
    outside.is_expired(
        &cosmwasm_std::BlockInfo {
            height: block.height,
            time: cosmwasm_std::Timestamp::from_nanos(block.time),
            chain_id: String::new(),
        },
    )
}

} // verus!
