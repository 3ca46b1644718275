//! Canonical signing bytes for Tendermint-style consensus messages.
//!
//! Each message variant (heartbeat, proposal, vote, poison pill) reduces to a
//! deterministic, field-tagged, length-prefixed byte sequence — the exact
//! bytes handed to an external signer — and a produced signature is written
//! back into the variant's signature slot.

pub mod ed25519msg;
pub mod encode;
pub mod heartbeat;
pub mod poisonpill;
pub mod proposal;
pub mod signable;
pub mod types;
pub mod unambiguity;
pub mod vote;

pub use ed25519msg::PubKeyMsg;
pub use heartbeat::SignHeartbeatMsg;
pub use poisonpill::PoisonPillMsg;
pub use proposal::SignProposalMsg;
pub use signable::EncodeError;
pub use signable::TendermintSignable;
pub use signable::attach_ed25519;
pub use types::BlockID;
pub use types::PartsSetHeader;
pub use types::Time;
pub use vote::InvalidVoteType;
pub use vote::SignVoteMsg;
pub use vote::VoteType;
