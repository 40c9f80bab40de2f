//! Token ledger for uniquely identified tokens with reward accrual and royalties.
//!
//! A ledger is a value of [`Cw721Contract`]. The entry points in [`entry`] create one and
//! carry out commands, questions and replies on it. What each of them does is stated on the
//! mathematical view of the ledger, whose rules are in [`model`]; [`laws`] holds what
//! follows from the rules for every ledger.

pub mod entry;
pub mod error;
pub mod execute;
pub mod expiration;
pub mod keyed;
pub mod laws;
pub mod lookup;
pub mod metadata;
pub mod minter;
pub mod model;
pub mod msg;
pub mod order;
pub mod query;
pub mod response;
pub mod rewards;
pub mod royalty;
pub mod state;
pub mod supply;
pub mod validate;

pub use crate::entry::{CONTRACT_NAME, CONTRACT_VERSION};
pub use crate::error::{ContractError, OwnershipError, StdError};
pub use crate::metadata::{Extension, Metadata, Trait};
pub use crate::msg::{Action, ExecuteMsg, InstantiateMsg, MinterResponse, QueryMsg};
pub use crate::response::Response;
pub use crate::rewards::{Reply, WithdrawRewardsResponse};
pub use crate::state::Cw721Contract;
