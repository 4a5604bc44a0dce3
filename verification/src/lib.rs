//! A recurring, pot-funded lottery whose tickets are earned by performing
//! designated actions, together with a token-issuance engine that mints
//! currency under tiered, decaying-fee rules.
//!
//! The host environment (transaction authentication, dispatch of wrapped
//! actions, event delivery, scheduling) is out of scope: every operation here
//! is a deterministic state transition over an explicit ledger value. The
//! collaborators the core consumes are narrow capabilities: a currency ledger
//! ([`balances::Balances`]), a randomness source ([`random::RandomSource`])
//! and a call-validation strategy ([`calls::ValidateCall`]).

use vstd::prelude::*;

pub mod balances;
pub mod calls;
pub mod random;
pub mod selector;
pub mod pallet;
pub mod controller;
pub mod tickets;
pub mod issuance;

verus! {

/// Account identifier, as resolved by the host's origin checking.
pub type AccountId = u64;

/// Currency amount.
pub type Balance = u128;

/// Block height.
pub type BlockNumber = u64;

/// A two-byte fingerprint of an action's canonical encoding, used as a
/// coarse equality key for action-based ticket eligibility.
#[derive(Clone, Copy, PartialEq, Eq, Structural, Debug)]
pub struct CallIndex {
    /// First byte of the action's canonical encoding.
    pub pallet: u8,
    /// Second byte of the action's canonical encoding.
    pub call: u8,
}

/// Local, recoverable rejections of a requested operation; none are fatal to
/// the ledger.
#[derive(Clone, Copy, PartialEq, Eq, Structural, Debug)]
pub enum Error {
    /// A lottery has not been configured.
    NotConfigured,
    /// A lottery is already in progress.
    InProgress,
    /// A lottery has already ended.
    AlreadyEnded,
    /// The call is not valid for an open lottery.
    InvalidCall,
    /// You are already participating in the lottery with this call.
    AlreadyParticipating,
    /// Too many calls for a single lottery.
    TooManyCalls,
    /// Failed to encode calls.
    EncodingFailed,
    /// Issuance state was read before being initialized.
    NoneValue,
    /// The issuance tier boundary would overflow its counter.
    StorageOverflow,
    /// A numeric counter or index would overflow.
    Overflow,
    /// A currency transfer failed: the payer cannot afford the amount while
    /// staying above the existence threshold.
    InsufficientBalance,
}

/// Observable notifications; emitted by the transitions, never consumed
/// internally.
#[derive(Clone, Copy, PartialEq, Eq, Structural, Debug)]
pub enum Event {
    /// Tokens have been issued.
    IssueToken,
    /// A lottery has been started.
    LotteryStarted,
    /// A new set of calls has been configured.
    CallsUpdated,
    /// A winner has been chosen.
    Winner { winner: AccountId, lottery_balance: Balance },
    /// A ticket has been bought.
    TicketBought { who: AccountId, call_index: CallIndex },
}

} // verus!
