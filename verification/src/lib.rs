//! Request/response correlation for a cross-chain token-transfer service.
//!
//! The service sits on one chain and talks to its counterpart on another chain
//! through a relay. It records every outbound transfer in a ledger keyed by a
//! serial number, and settles the entry exactly once when the answer (or a
//! relay-level error) comes back: a confirmed transfer is finalized, a failed
//! one is rolled back.
//!
//! The service itself performs no I/O. Every entry point is a step of a state
//! machine: it takes the event, updates the ledger and returns the [`Action`]
//! that the host has to carry out (credit a receiver, finalize or roll back a
//! sender's escrow, hand a message to the relay).
//!
//! [`Action`]: service::Action

pub mod address;
pub mod codec;
pub mod error;
pub mod ledger;
pub mod lifecycle;
pub mod service;
pub mod types;

pub use address::BTPAddress;
pub use error::BshError;
pub use ledger::Requests;
pub use service::{Action, NativeCoinService, PromiseOutcome, RelayCall};
pub use types::{
    BtpMessage, Request, SerializedMessage, TokenServiceMessage, TokenServiceType,
    TransferableAsset,
};
