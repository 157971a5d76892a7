//! Core state machines for a two-stage governance process.
//!
//! The crate has two independent components. `governance` owns temperature
//! checks (informal sentiment votes) and the proposals they can be promoted
//! into, together with vote recording and validation. `vote_delegation` owns a
//! ledger of fractional, time-bounded delegations of voting weight, kept in
//! two mutually consistent indexes.
//!
//! The surrounding platform concerns — authorization of the acting account,
//! the wall clock, and delivery of event records — are the caller's business:
//! every operation takes the current time as an argument and returns the event
//! record that describes a successful mutation.

pub mod decimal;
pub mod types;
pub mod delegation_model;
pub mod governance;
pub mod vote_delegation;

pub use decimal::Decimal;
pub use types::Delegation;
pub use types::DelegationCreatedEvent;
pub use types::DelegationError;
pub use types::DelegationRemovedEvent;
pub use types::GovernanceError;
pub use types::GovernanceParameters;
pub use types::GovernanceParametersUpdatedEvent;
pub use types::Proposal;
pub use types::ProposalCreatedEvent;
pub use types::ProposalVoteOption;
pub use types::ProposalVoteOptionId;
pub use types::ProposalVoteOptionInput;
pub use types::ProposalVotedEvent;
pub use types::TemperatureCheck;
pub use types::TemperatureCheckCreatedEvent;
pub use types::TemperatureCheckDraft;
pub use types::TemperatureCheckVote;
pub use types::TemperatureCheckVotedEvent;
pub use governance::Governance;
pub use vote_delegation::VoteDelegation;
