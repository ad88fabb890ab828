//! On-chain governance: a checkpointed ledger of voting power granted by
//! token delegation, and proposals that are voted on with the power each
//! voter had when the proposal was created and executed at most once.
//!
//! The host's ledger store is the state of [`Token`] and [`DaoContract`];
//! its clock comes in as plain arguments (a timestamp `now` and a ledger
//! sequence number), and the caller authorizes each call before making it.
pub mod checkpoints;
pub mod errors;
pub mod governance;
pub mod nonce;
pub mod proposal;
pub mod token;

pub use checkpoints::Checkpoint;
pub use errors::{ContractError, DaoError};
pub use governance::{DaoContract, ProposalExtra, Settings};
pub use nonce::{Nonces, Signature};
pub use proposal::{Proposal, ProposalInstr, VoteKind, VotesCount};
pub use token::{AccountId, Token};
