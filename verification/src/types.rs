//! Shared data types of the governance process and their mathematical models.
//!
//! Executable types hold plain machine values; each type that appears in a
//! contract has a view onto a model made of `Seq` and `Map` values, so that
//! the contracts of the two ledgers can be stated mathematically.
//!
//! Accounts are identified by plain `u64` identifiers and instants by `i64`
//! seconds; proving who may act for an account, and reading the clock, are the
//! caller's business.

use vstd::prelude::*;
use std::collections::HashMap;
use crate::decimal::Decimal;

verus! {

/// Identifier of an account taking part in governance.
pub type AccountId = u64;

/// Maximum number of links per temperature check / proposal.
pub const MAX_LINKS: usize = 10;

/// Maximum number of vote options per temperature check / proposal.
pub const MAX_VOTE_OPTIONS: usize = 10;

/// Maximum number of selections in a multiple-choice vote.
pub const MAX_SELECTIONS: u32 = 5;

/// Maximum number of delegations a single account can have.
pub const MAX_DELEGATIONS: usize = 50;

/// Minimum delegation fraction (1% = 0.01), in attos.
pub const MIN_DELEGATION_FRACTION: u128 = 10_000_000_000_000_000;

/// Vote cast on a temperature check (this stage is always for/against).
#[derive(Clone, Copy, Debug, PartialEq, Eq, Structural)]
pub enum TemperatureCheckVote {
    /// In favour.
    For,
    /// Opposed.
    Against,
}

/// Unique identifier of a proposal vote option.
#[derive(Clone, Copy, Debug, PartialEq, Eq, Hash, Structural)]
pub struct ProposalVoteOptionId(pub u32);

/// Input for creating a vote option: the label only, ids are assigned from
/// the input order.
#[derive(Clone, Debug)]
pub struct ProposalVoteOptionInput {
    /// Display label of the option.
    pub label: String,
}

/// A vote option of a temperature check or proposal. The id is the 0-based
/// position of the option in the creation input.
#[derive(Clone, Debug)]
pub struct ProposalVoteOption {
    /// Identifier, assigned in input order starting at 0.
    pub id: ProposalVoteOptionId,
    /// Display label of the option.
    pub label: String,
}

/// Model of a vote option: its id and the characters of its label.
#[verifier::ext_equal]
pub struct ProposalVoteOptionModel {
    /// Identifier of the option.
    pub id: u32,
    /// Characters of the label.
    pub label: Seq<char>,
}

impl View for ProposalVoteOption {
    type V = ProposalVoteOptionModel;

    open spec fn view(&self) -> ProposalVoteOptionModel {
        ProposalVoteOptionModel { id: self.id.0, label: self.label@ }
    }
}

/// Input data for creating a temperature check.
#[derive(Clone, Debug)]
pub struct TemperatureCheckDraft {
    /// Title of the future check.
    pub title: String,
    /// Short summary.
    pub short_description: String,
    /// Full description in markdown format.
    pub description: String,
    /// Vote options; ids are assigned from the input order.
    pub vote_options: Vec<ProposalVoteOptionInput>,
    /// External links related to the check.
    pub links: Vec<String>,
    /// Maximum number of options a voter can select in the proposal stage.
    /// `None` means single choice; `Some(n)` allows up to `n` selections.
    pub max_selections: Option<u32>,
}

/// Model of a draft: texts as character sequences, options as their labels.
#[verifier::ext_equal]
pub struct TemperatureCheckDraftModel {
    /// Characters of the title.
    pub title: Seq<char>,
    /// Characters of the short summary.
    pub short_description: Seq<char>,
    /// Characters of the full description.
    pub description: Seq<char>,
    /// Labels of the vote options, in input order.
    pub vote_options: Seq<Seq<char>>,
    /// Characters of each link.
    pub links: Seq<Seq<char>>,
    /// Selection bound, as in the draft.
    pub max_selections: Option<u32>,
}

impl View for TemperatureCheckDraft {
    type V = TemperatureCheckDraftModel;

    open spec fn view(&self) -> TemperatureCheckDraftModel {
        TemperatureCheckDraftModel {
            title: self.title@,
            short_description: self.short_description@,
            description: self.description@,
            vote_options: self.vote_options@.map_values(|o: ProposalVoteOptionInput| o.label@),
            links: self.links@.map_values(|l: String| l@),
            max_selections: self.max_selections,
        }
    }
}

/// Process-wide configuration. Replaced wholesale by an authorized update;
/// already-created checks and proposals keep the values they captured at
/// creation time.
#[derive(Clone, Copy, Debug, PartialEq, Eq, Structural)]
pub struct GovernanceParameters {
    /// Voting window of a temperature check, in days.
    pub temperature_check_days: u16,
    /// Quorum recorded on new temperature checks.
    pub temperature_check_quorum: Decimal,
    /// Approval threshold recorded on new temperature checks.
    pub temperature_check_approval_threshold: Decimal,
    /// Voting window of a proposal, in days.
    pub proposal_length_days: u16,
    /// Quorum recorded on new proposals.
    pub proposal_quorum: Decimal,
    /// Approval threshold recorded on new proposals.
    pub proposal_approval_threshold: Decimal,
}

/// A temperature check: the informal, exploratory stage of a vote.
pub struct TemperatureCheck {
    /// Title of the check.
    pub title: String,
    /// Short summary.
    pub short_description: String,
    /// Full description in markdown format.
    pub description: String,
    /// The options voters choose between at the proposal stage.
    pub vote_options: Vec<ProposalVoteOption>,
    /// External links related to the check.
    pub links: Vec<String>,
    /// Quorum captured from the parameters at creation time.
    pub quorum: Decimal,
    /// Selection bound carried forward to the proposal stage; the
    /// temperature-check stage itself is always single for/against.
    pub max_selections: Option<u32>,
    /// The vote each account has cast.
    pub votes: HashMap<AccountId, TemperatureCheckVote>,
    /// Approval threshold captured from the parameters at creation time.
    pub approval_threshold: Decimal,
    /// First instant at which voting is open.
    pub start: i64,
    /// First instant at which voting is closed (exclusive window end).
    pub deadline: i64,
    /// Identifier of the proposal this check was promoted into, if any.
    /// Set exactly once, never cleared.
    pub elevated_proposal_id: Option<u64>,
    /// The account that created this check.
    pub author: AccountId,
    /// Instant of the last vote cast; initialized at creation.
    pub last_vote_at: i64,
}

/// Model of a temperature check.
#[verifier::ext_equal]
pub struct TemperatureCheckModel {
    /// Characters of the title.
    pub title: Seq<char>,
    /// Characters of the short summary.
    pub short_description: Seq<char>,
    /// Characters of the full description.
    pub description: Seq<char>,
    /// The options, in id order.
    pub vote_options: Seq<ProposalVoteOptionModel>,
    /// Characters of each link.
    pub links: Seq<Seq<char>>,
    /// Quorum captured at creation time.
    pub quorum: Decimal,
    /// Selection bound carried forward to the proposal stage.
    pub max_selections: Option<u32>,
    /// The vote each account has cast.
    pub votes: Map<AccountId, TemperatureCheckVote>,
    /// Approval threshold captured at creation time.
    pub approval_threshold: Decimal,
    /// First instant at which voting is open.
    pub start: i64,
    /// First instant at which voting is closed.
    pub deadline: i64,
    /// Identifier of the proposal this check was promoted into, if any.
    pub elevated_proposal_id: Option<u64>,
    /// The account that created this check.
    pub author: AccountId,
    /// Instant of the last vote cast.
    pub last_vote_at: i64,
}

impl View for TemperatureCheck {
    type V = TemperatureCheckModel;

    open spec fn view(&self) -> TemperatureCheckModel {
        TemperatureCheckModel {
            title: self.title@,
            short_description: self.short_description@,
            description: self.description@,
            vote_options: self.vote_options@.map_values(|o: ProposalVoteOption| o@),
            links: self.links@.map_values(|l: String| l@),
            quorum: self.quorum,
            max_selections: self.max_selections,
            votes: self.votes@,
            approval_threshold: self.approval_threshold,
            start: self.start,
            deadline: self.deadline,
            elevated_proposal_id: self.elevated_proposal_id,
            author: self.author,
            last_vote_at: self.last_vote_at,
        }
    }
}

/// A proposal: the binding stage of a vote, promoted from a temperature
/// check. It carries its own quorum, threshold and window, captured from the
/// proposal-tier parameters at promotion time.
pub struct Proposal {
    /// Title, copied from the source check.
    pub title: String,
    /// Short summary, copied from the source check.
    pub short_description: String,
    /// Full description, copied from the source check.
    pub description: String,
    /// The options, copied verbatim from the source check.
    pub vote_options: Vec<ProposalVoteOption>,
    /// External links, copied from the source check.
    pub links: Vec<String>,
    /// Quorum captured from the proposal-tier parameters at promotion time.
    pub quorum: Decimal,
    /// Selection bound: `None` means exactly one option per vote, `Some(n)`
    /// allows between 1 and `n` selections.
    pub max_selections: Option<u32>,
    /// The ordered list of option ids each account has selected.
    pub votes: HashMap<AccountId, Vec<ProposalVoteOptionId>>,
    /// Approval threshold captured at promotion time.
    pub approval_threshold: Decimal,
    /// First instant at which voting is open.
    pub start: i64,
    /// First instant at which voting is closed (exclusive window end).
    pub deadline: i64,
    /// Identifier of the temperature check this proposal came from.
    pub temperature_check_id: u64,
    /// The account that created the original temperature check.
    pub author: AccountId,
    /// Instant of the last vote cast; initialized at creation.
    pub last_vote_at: i64,
}

/// Model of a proposal; votes are the sequences of selected option ids.
#[verifier::ext_equal]
pub struct ProposalModel {
    /// Characters of the title.
    pub title: Seq<char>,
    /// Characters of the short summary.
    pub short_description: Seq<char>,
    /// Characters of the full description.
    pub description: Seq<char>,
    /// The options, in id order.
    pub vote_options: Seq<ProposalVoteOptionModel>,
    /// Characters of each link.
    pub links: Seq<Seq<char>>,
    /// Quorum captured at promotion time.
    pub quorum: Decimal,
    /// Selection bound.
    pub max_selections: Option<u32>,
    /// The selected option ids of each account's vote, in selection order.
    pub votes: Map<AccountId, Seq<u32>>,
    /// Approval threshold captured at promotion time.
    pub approval_threshold: Decimal,
    /// First instant at which voting is open.
    pub start: i64,
    /// First instant at which voting is closed.
    pub deadline: i64,
    /// Identifier of the source temperature check.
    pub temperature_check_id: u64,
    /// The account that created the original temperature check.
    pub author: AccountId,
    /// Instant of the last vote cast.
    pub last_vote_at: i64,
}

/// The ids selected by one recorded vote, as plain numbers.
pub open spec fn option_ids(s: Seq<ProposalVoteOptionId>) -> Seq<u32> {
    s.map_values(|o: ProposalVoteOptionId| o.0)
}

impl View for Proposal {
    type V = ProposalModel;

    open spec fn view(&self) -> ProposalModel {
        ProposalModel {
            title: self.title@,
            short_description: self.short_description@,
            description: self.description@,
            vote_options: self.vote_options@.map_values(|o: ProposalVoteOption| o@),
            links: self.links@.map_values(|l: String| l@),
            quorum: self.quorum,
            max_selections: self.max_selections,
            votes: self.votes@.map_values(|v: Vec<ProposalVoteOptionId>| option_ids(v@)),
            approval_threshold: self.approval_threshold,
            start: self.start,
            deadline: self.deadline,
            temperature_check_id: self.temperature_check_id,
            author: self.author,
            last_vote_at: self.last_vote_at,
        }
    }
}

/// A delegation of part of one account's voting weight to another account,
/// valid until a given instant.
#[derive(Clone, Copy, Debug, PartialEq, Eq, Structural)]
pub struct Delegation {
    /// The account receiving the weight.
    pub delegatee: AccountId,
    /// The delegated fraction, in `(0, 1]`.
    pub fraction: Decimal,
    /// The delegation no longer counts at instants `>= valid_until`.
    pub valid_until: i64,
}

/// Reasons a governance operation is rejected. A rejected operation leaves
/// the ledger untouched.
#[derive(Clone, Copy, Debug, PartialEq, Eq, Structural)]
pub enum GovernanceError {
    /// A draft field is malformed or out of range.
    InvalidInput,
    /// No temperature check or proposal has the given id.
    NotFound,
    /// The temperature check was already promoted to a proposal.
    AlreadyPromoted,
    /// Voting has not started yet.
    NotStarted,
    /// Voting has ended.
    VotingClosed,
    /// The account has already voted.
    DuplicateVote,
    /// The selection list is empty.
    EmptySelection,
    /// The selection list is longer than the proposal allows.
    TooManySelections,
    /// The selection list names the same option twice.
    DuplicateSelection,
    /// The selection list names an option the proposal does not have.
    InvalidOption,
}

/// Reasons a delegation operation is rejected. A rejected operation leaves
/// the ledger untouched.
#[derive(Clone, Copy, Debug, PartialEq, Eq, Structural)]
pub enum DelegationError {
    /// The fraction is below the minimum or above 1.
    InvalidFraction,
    /// Delegator and delegatee are the same account.
    SelfDelegation,
    /// The expiry instant is not in the future.
    InvalidExpiry,
    /// The delegator's currently valid fractions would sum to more than 1.
    AllocationExceeded,
    /// The delegator would hold more than the maximum number of delegations.
    TooManyDelegations,
    /// The delegator has no delegation records at all.
    NotFound,
    /// The delegator has records, but none for the given delegatee.
    DelegationNotFound,
}

/// Emitted when a temperature check is created.
#[derive(Clone, Debug)]
pub struct TemperatureCheckCreatedEvent {
    /// Identifier of the new check.
    pub temperature_check_id: u64,
    /// Its title.
    pub title: String,
    /// First instant at which voting is open.
    pub start: i64,
    /// First instant at which voting is closed.
    pub deadline: i64,
}

/// Emitted when a vote is cast on a temperature check.
#[derive(Clone, Copy, Debug, PartialEq, Eq, Structural)]
pub struct TemperatureCheckVotedEvent {
    /// Identifier of the check voted on.
    pub temperature_check_id: u64,
    /// The voting account.
    pub account: AccountId,
    /// The vote cast.
    pub vote: TemperatureCheckVote,
}

/// Emitted when a temperature check is promoted to a proposal.
#[derive(Clone, Debug)]
pub struct ProposalCreatedEvent {
    /// Identifier of the new proposal.
    pub proposal_id: u64,
    /// Identifier of the source temperature check.
    pub temperature_check_id: u64,
    /// Title of the proposal.
    pub title: String,
    /// First instant at which voting is open.
    pub start: i64,
    /// First instant at which voting is closed.
    pub deadline: i64,
}

/// Emitted when a vote is cast on a proposal.
#[derive(Clone, Debug)]
pub struct ProposalVotedEvent {
    /// Identifier of the proposal voted on.
    pub proposal_id: u64,
    /// The voting account.
    pub account: AccountId,
    /// The selected option ids, in selection order.
    pub votes: Vec<ProposalVoteOptionId>,
}

/// Emitted when the governance parameters are replaced.
#[derive(Clone, Copy, Debug, PartialEq, Eq, Structural)]
pub struct GovernanceParametersUpdatedEvent {
    /// The parameter set now in force.
    pub new_params: GovernanceParameters,
}

/// Emitted when a delegation is created or replaced.
#[derive(Clone, Copy, Debug, PartialEq, Eq, Structural)]
pub struct DelegationCreatedEvent {
    /// The account granting the weight.
    pub delegator: AccountId,
    /// The account receiving the weight.
    pub delegatee: AccountId,
    /// The delegated fraction.
    pub fraction: Decimal,
    /// Expiry instant of the delegation.
    pub valid_until: i64,
}

/// Emitted when a delegation is removed.
#[derive(Clone, Copy, Debug, PartialEq, Eq, Structural)]
pub struct DelegationRemovedEvent {
    /// The account that had granted the weight.
    pub delegator: AccountId,
    /// The account that had received it.
    pub delegatee: AccountId,
}

} // verus!
