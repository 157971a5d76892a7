//! The proposal ledger: temperature checks, their promotion into proposals,
//! and vote recording on both.
//!
//! Every mutating operation is a single validate-then-mutate step: it either
//! fails with a [`GovernanceError`] and leaves the ledger untouched, or
//! commits and returns the event record describing the mutation. The caller
//! supplies the current time and is responsible for authorization (the
//! promotion and parameter-update operations are meant to be gated on the
//! owner credential fixed at instantiation) and for publishing the returned
//! events.

use vstd::prelude::*;
use crate::decimal::Decimal;
use crate::types::AccountId;
use crate::types::GovernanceError;
use crate::types::GovernanceParameters;
use crate::types::GovernanceParametersUpdatedEvent;
use crate::types::Proposal;
use crate::types::ProposalCreatedEvent;
use crate::types::ProposalModel;
use crate::types::ProposalVoteOption;
use crate::types::ProposalVoteOptionId;
use crate::types::ProposalVoteOptionModel;
use crate::types::ProposalVotedEvent;
use crate::types::TemperatureCheck;
use crate::types::TemperatureCheckCreatedEvent;
use crate::types::TemperatureCheckDraft;
use crate::types::TemperatureCheckDraftModel;
use crate::types::TemperatureCheckModel;
use crate::types::TemperatureCheckVote;
use crate::types::TemperatureCheckVotedEvent;
use crate::types::option_ids;
use crate::types::MAX_LINKS;
use crate::types::MAX_SELECTIONS;
use crate::types::MAX_VOTE_OPTIONS;
use std::collections::HashMap;

verus! {

/// Number of seconds in a day; voting windows are given in whole days.
pub const SECONDS_PER_DAY: i64 = 86_400;

/// A draft is acceptable: non-empty texts, 1 to [`MAX_VOTE_OPTIONS`]
/// options, at most [`MAX_LINKS`] links, and a selection bound, if present,
/// between 1 and [`MAX_SELECTIONS`] and not above the number of options.
pub open spec fn draft_valid(d: TemperatureCheckDraftModel) -> bool {
    &&& d.title.len() > 0
    &&& d.short_description.len() > 0
    &&& d.description.len() > 0
    &&& 1 <= d.vote_options.len() <= MAX_VOTE_OPTIONS
    &&& d.links.len() <= MAX_LINKS
    &&& match d.max_selections {
        Option::None => true,
        Option::Some(n) => 1 <= n <= MAX_SELECTIONS && n <= d.vote_options.len(),
    }
}

/// The options built from the draft's labels: ids are the 0-based input
/// order.
pub open spec fn options_from_labels(labels: Seq<Seq<char>>) -> Seq<ProposalVoteOptionModel> {
    Seq::new(labels.len(), |i: int| ProposalVoteOptionModel { id: i as u32, label: labels[i] })
}

/// The instant a voting window opened at `now` closes, with the window given
/// in whole days.
pub open spec fn window_deadline(now: i64, days: u16) -> int {
    now + days * SECONDS_PER_DAY
}

/// The temperature check a valid draft becomes, under the parameters in
/// force at creation time.
pub open spec fn check_from_draft(
    d: TemperatureCheckDraftModel,
    params: GovernanceParameters,
    author: AccountId,
    now: i64,
) -> TemperatureCheckModel {
    TemperatureCheckModel {
        title: d.title,
        short_description: d.short_description,
        description: d.description,
        vote_options: options_from_labels(d.vote_options),
        links: d.links,
        quorum: params.temperature_check_quorum,
        max_selections: d.max_selections,
        votes: Map::empty(),
        approval_threshold: params.temperature_check_approval_threshold,
        start: now,
        deadline: window_deadline(now, params.temperature_check_days) as i64,
        elevated_proposal_id: Option::None,
        author,
        last_vote_at: now,
    }
}

/// The proposal a temperature check is promoted into: texts, options, links,
/// author and selection bound copied verbatim; quorum, threshold and window
/// taken from the proposal-tier parameters in force at promotion time.
pub open spec fn proposal_from_check(
    tc: TemperatureCheckModel,
    params: GovernanceParameters,
    temperature_check_id: u64,
    now: i64,
) -> ProposalModel {
    ProposalModel {
        title: tc.title,
        short_description: tc.short_description,
        description: tc.description,
        vote_options: tc.vote_options,
        links: tc.links,
        quorum: params.proposal_quorum,
        max_selections: tc.max_selections,
        votes: Map::empty(),
        approval_threshold: params.proposal_approval_threshold,
        start: now,
        deadline: window_deadline(now, params.proposal_length_days) as i64,
        temperature_check_id,
        author: tc.author,
        last_vote_at: now,
    }
}

/// Whether promotion of the given check is allowed, or why not.
pub open spec fn promote_outcome(m: GovernanceModel, temperature_check_id: u64) -> Result<
    (),
    GovernanceError,
> {
    if temperature_check_id >= m.temperature_checks.len() {
        Result::Err(GovernanceError::NotFound)
    } else if m.temperature_checks[temperature_check_id as int].elevated_proposal_id is Some {
        Result::Err(GovernanceError::AlreadyPromoted)
    } else {
        Result::Ok(())
    }
}

/// The check as it stands after a vote: the vote recorded, the last-vote
/// instant updated, everything else untouched.
pub open spec fn check_with_vote(
    tc: TemperatureCheckModel,
    account: AccountId,
    vote: TemperatureCheckVote,
    now: i64,
) -> TemperatureCheckModel {
    TemperatureCheckModel { votes: tc.votes.insert(account, vote), last_vote_at: now, ..tc }
}

/// Whether a vote on the given temperature check is accepted, or the first
/// reason, in checking order, why not.
pub open spec fn tc_vote_outcome(
    m: GovernanceModel,
    account: AccountId,
    temperature_check_id: u64,
    now: i64,
) -> Result<(), GovernanceError> {
    if temperature_check_id >= m.temperature_checks.len() {
        Result::Err(GovernanceError::NotFound)
    } else {
        let tc = m.temperature_checks[temperature_check_id as int];
        if now < tc.start {
            Result::Err(GovernanceError::NotStarted)
        } else if now >= tc.deadline {
            Result::Err(GovernanceError::VotingClosed)
        } else if tc.votes.contains_key(account) {
            Result::Err(GovernanceError::DuplicateVote)
        } else {
            Result::Ok(())
        }
    }
}

/// The selection names the same option twice.
pub open spec fn has_duplicate(ids: Seq<u32>) -> bool {
    exists|i: int, j: int| 0 <= i < j < ids.len() && ids[i] == ids[j]
}

/// Some option carries the given id.
pub open spec fn option_id_exists(options: Seq<ProposalVoteOptionModel>, id: u32) -> bool {
    exists|k: int| 0 <= k < options.len() && options[k].id == id
}

/// Every selected id names an option.
pub open spec fn all_options_exist(options: Seq<ProposalVoteOptionModel>, ids: Seq<u32>) -> bool {
    forall|i: int| 0 <= i < ids.len() ==> option_id_exists(options, #[trigger] ids[i])
}

/// The selection count is wrong for the proposal's bound: a single-choice
/// proposal takes exactly one selection, a multiple-choice one at most its
/// bound. (An empty selection is reported separately, before this.)
pub open spec fn selection_count_bad(max_selections: Option<u32>, n: nat) -> bool {
    match max_selections {
        Option::None => n != 1,
        Option::Some(mx) => n > mx,
    }
}

/// The proposal as it stands after a vote.
pub open spec fn proposal_with_vote(
    p: ProposalModel,
    account: AccountId,
    ids: Seq<u32>,
    now: i64,
) -> ProposalModel {
    ProposalModel { votes: p.votes.insert(account, ids), last_vote_at: now, ..p }
}

/// Whether a vote on the given proposal is accepted, or the first reason, in
/// checking order, why not.
pub open spec fn proposal_vote_outcome(
    m: GovernanceModel,
    account: AccountId,
    proposal_id: u64,
    ids: Seq<u32>,
    now: i64,
) -> Result<(), GovernanceError> {
    if proposal_id >= m.proposals.len() {
        Result::Err(GovernanceError::NotFound)
    } else {
        let p = m.proposals[proposal_id as int];
        if now < p.start {
            Result::Err(GovernanceError::NotStarted)
        } else if now >= p.deadline {
            Result::Err(GovernanceError::VotingClosed)
        } else if ids.len() == 0 {
            Result::Err(GovernanceError::EmptySelection)
        } else if selection_count_bad(p.max_selections, ids.len()) {
            Result::Err(GovernanceError::TooManySelections)
        } else if has_duplicate(ids) {
            Result::Err(GovernanceError::DuplicateSelection)
        } else if !all_options_exist(p.vote_options, ids) {
            Result::Err(GovernanceError::InvalidOption)
        } else if p.votes.contains_key(account) {
            Result::Err(GovernanceError::DuplicateVote)
        } else {
            Result::Ok(())
        }
    }
}

/// Model of the proposal ledger.
#[verifier::ext_equal]
pub struct GovernanceModel {
    /// The owner credential fixed at instantiation.
    pub owner_badge: u64,
    /// The parameter set currently in force for new checks and proposals.
    pub governance_parameters: GovernanceParameters,
    /// All temperature checks ever created; the id of a check is its
    /// position.
    pub temperature_checks: Seq<TemperatureCheckModel>,
    /// All proposals ever created; the id of a proposal is its position.
    pub proposals: Seq<ProposalModel>,
}

/// Copies a list of strings.
fn clone_strings(v: &Vec<String>) -> (r: Vec<String>)
    ensures
        r@.map_values(|l: String| l@) == v@.map_values(|l: String| l@),
{
    let mut r: Vec<String> = Vec::new();
    let n = v.len();
    let mut i: usize = 0;
    while i < n
        invariant
            i <= n,
            n == v@.len(),
            r@.len() == i,
            forall|j: int| 0 <= j < i ==> (#[trigger] r@[j])@ == v@[j]@,
        decreases n - i,
    {
        r.push(v[i].clone());
        i = i + 1;
    }
    proof {
        assert(r@.map_values(|l: String| l@) =~= v@.map_values(|l: String| l@));
    }
    r
}

/// Copies a list of vote options.
fn clone_options(v: &Vec<ProposalVoteOption>) -> (r: Vec<ProposalVoteOption>)
    ensures
        r@.map_values(|o: ProposalVoteOption| o@) == v@.map_values(|o: ProposalVoteOption| o@),
{
    let mut r: Vec<ProposalVoteOption> = Vec::new();
    let n = v.len();
    let mut i: usize = 0;
    while i < n
        invariant
            i <= n,
            n == v@.len(),
            r@.len() == i,
            forall|j: int| 0 <= j < i ==> (#[trigger] r@[j])@ == v@[j]@,
        decreases n - i,
    {
        r.push(ProposalVoteOption { id: v[i].id, label: v[i].label.clone() });
        i = i + 1;
    }
    proof {
        assert(r@.map_values(|o: ProposalVoteOption| o@) =~= v@.map_values(
            |o: ProposalVoteOption| o@,
        ));
    }
    r
}

/// Copies a list of option ids.
fn copy_ids(v: &Vec<ProposalVoteOptionId>) -> (r: Vec<ProposalVoteOptionId>)
    ensures
        r@ == v@,
{
    let mut r: Vec<ProposalVoteOptionId> = Vec::new();
    let n = v.len();
    let mut i: usize = 0;
    while i < n
        invariant
            i <= n,
            n == v@.len(),
            r@.len() == i,
            forall|j: int| 0 <= j < i ==> r@[j] == v@[j],
        decreases n - i,
    {
        r.push(ProposalVoteOptionId(v[i].0));
        i = i + 1;
    }
    proof {
        assert(r@ =~= v@);
    }
    r
}

/// Whether the selection names the same option twice.
fn selection_has_duplicate(sel: &Vec<ProposalVoteOptionId>) -> (r: bool)
    ensures
        r == has_duplicate(option_ids(sel@)),
{
    let n = sel.len();
    let mut i: usize = 0;
    while i < n
        invariant
            i <= n,
            n == sel@.len(),
            forall|a: int, b: int|
                0 <= a < b < i ==> (#[trigger] sel@[a]).0 != (#[trigger] sel@[b]).0,
        decreases n - i,
    {
        let mut j: usize = 0;
        while j < i
            invariant
                j <= i < n,
                n == sel@.len(),
                forall|b: int| 0 <= b < j ==> (#[trigger] sel@[b]).0 != sel@[i as int].0,
            decreases i - j,
        {
            if sel[j].0 == sel[i].0 {
                proof {
                    assert(option_ids(sel@)[j as int] == option_ids(sel@)[i as int]);
                }
                return true;
            }
            j = j + 1;
        }
        i = i + 1;
    }
    proof {
        assert forall|a: int, b: int| 0 <= a < b < sel@.len() implies option_ids(sel@)[a]
            != option_ids(sel@)[b] by {
            assert(option_ids(sel@)[a] == sel@[a].0);
            assert(option_ids(sel@)[b] == sel@[b].0);
        }
    }
    false
}

/// An option with the given id stands in the option list exactly when one
/// stands in its model.
proof fn lemma_option_id_bridge(options: Seq<ProposalVoteOption>, id: u32)
    ensures
        option_id_exists(options.map_values(|o: ProposalVoteOption| o@), id) == (exists|m: int|
            0 <= m < options.len() && (#[trigger] options[m]).id.0 == id),
{
    let mapped = options.map_values(|o: ProposalVoteOption| o@);
    if exists|m: int| 0 <= m < options.len() && (#[trigger] options[m]).id.0 == id {
        let m = choose|m: int| 0 <= m < options.len() && (#[trigger] options[m]).id.0 == id;
        assert(mapped[m].id == id);
        assert(option_id_exists(mapped, id));
    }
    if option_id_exists(mapped, id) {
        let k = choose|k: int| 0 <= k < mapped.len() && (#[trigger] mapped[k]).id == id;
        assert(mapped[k] == options[k]@);
        assert(options[k].id.0 == id);
    }
}

/// Whether some option of the proposal carries the given id.
fn find_option(options: &Vec<ProposalVoteOption>, id: u32) -> (r: bool)
    ensures
        r == option_id_exists(options@.map_values(|o: ProposalVoteOption| o@), id),
{
    proof {
        lemma_option_id_bridge(options@, id);
    }
    let n = options.len();
    let mut k: usize = 0;
    while k < n
        invariant
            k <= n,
            n == options@.len(),
            forall|m: int| 0 <= m < k ==> (#[trigger] options@[m]).id.0 != id,
        decreases n - k,
    {
        if options[k].id.0 == id {
            proof {
                lemma_option_id_bridge(options@, id);
            }
            return true;
        }
        k = k + 1;
    }
    proof {
        lemma_option_id_bridge(options@, id);
    }
    false
}

/// Whether every selected id names an option of the proposal.
fn all_selections_exist(options: &Vec<ProposalVoteOption>, sel: &Vec<ProposalVoteOptionId>) -> (r:
    bool)
    ensures
        r == all_options_exist(options@.map_values(|o: ProposalVoteOption| o@), option_ids(sel@)),
{
    let n = sel.len();
    let mut i: usize = 0;
    while i < n
        invariant
            i <= n,
            n == sel@.len(),
            forall|a: int|
                0 <= a < i ==> option_id_exists(
                    options@.map_values(|o: ProposalVoteOption| o@),
                    #[trigger] option_ids(sel@)[a],
                ),
        decreases n - i,
    {
        if !find_option(options, sel[i].0) {
            proof {
                assert(option_ids(sel@)[i as int] == sel@[i as int].0);
            }
            return false;
        }
        proof {
            assert(option_ids(sel@)[i as int] == sel@[i as int].0);
        }
        i = i + 1;
    }
    true
}

/// The proposal ledger. Checks and proposals are stored by sequential id and
/// never deleted.
pub struct Governance {
    owner_badge: u64,
    governance_parameters: GovernanceParameters,
    temperature_checks: Vec<TemperatureCheck>,
    proposals: Vec<Proposal>,
}

impl View for Governance {
    type V = GovernanceModel;

    closed spec fn view(&self) -> GovernanceModel {
        GovernanceModel {
            owner_badge: self.owner_badge,
            governance_parameters: self.governance_parameters,
            temperature_checks: self.temperature_checks@.map_values(
                |t: TemperatureCheck| t@,
            ),
            proposals: self.proposals@.map_values(|p: Proposal| p@),
        }
    }
}

impl Governance {
    /// Creates an empty ledger owned by the given credential and governed by
    /// the given initial parameters.
    pub fn instantiate(owner_badge: u64, governance_parameters: GovernanceParameters) -> (g:
        Governance)
        ensures
            g@.owner_badge == owner_badge,
            g@.governance_parameters == governance_parameters,
            g@.temperature_checks =~= Seq::<TemperatureCheckModel>::empty(),
            g@.proposals =~= Seq::<ProposalModel>::empty(),
    {
        Governance {
            owner_badge,
            governance_parameters,
            temperature_checks: Vec::new(),
            proposals: Vec::new(),
        }
    }

    /// Returns the parameter set currently in force.
    pub fn get_governance_parameters(&self) -> (r: GovernanceParameters)
        ensures
            r == self@.governance_parameters,
    {
        self.governance_parameters
    }

    /// Returns how many temperature checks have been created.
    pub fn get_temperature_check_count(&self) -> (r: u64)
        ensures
            r == self@.temperature_checks.len(),
    {
        self.temperature_checks.len() as u64
    }

    /// Returns how many proposals have been created.
    pub fn get_proposal_count(&self) -> (r: u64)
        ensures
            r == self@.proposals.len(),
    {
        self.proposals.len() as u64
    }

    /// Creates a temperature check from the draft on behalf of `author`,
    /// open for voting from `now` for the configured number of days.
    ///
    /// Option ids are assigned as the 0-based input order, and the id of the
    /// new check equals the pre-call check count. Quorum, threshold and
    /// window are captured from the parameters in force now; later parameter
    /// updates do not touch the stored check. Fails with `InvalidInput`, and
    /// changes nothing, exactly when the draft is not valid.
    ///
    /// The caller keeps the deadline representable: `now` plus the
    /// configured window must fit an `i64`. Proving that the caller may act
    /// for `author` is the caller's business.
    pub fn make_temperature_check(
        &mut self,
        author: AccountId,
        draft: TemperatureCheckDraft,
        now: i64,
    ) -> (r: Result<TemperatureCheckCreatedEvent, GovernanceError>)
        requires
            window_deadline(now, old(self)@.governance_parameters.temperature_check_days)
                <= i64::MAX,
        ensures
            r is Ok <==> draft_valid(draft@),
            r is Err ==> final(self)@ == old(self)@ && r == Result::<
                TemperatureCheckCreatedEvent,
                GovernanceError,
            >::Err(GovernanceError::InvalidInput),
            r is Ok ==> {
                let params = old(self)@.governance_parameters;
                let ev = r->Ok_0;
                &&& final(self)@ == (GovernanceModel {
                    temperature_checks: old(self)@.temperature_checks.push(
                        check_from_draft(draft@, params, author, now),
                    ),
                    ..old(self)@
                })
                &&& ev.temperature_check_id == old(self)@.temperature_checks.len()
                &&& ev.title@ == draft@.title
                &&& ev.start == now
                &&& ev.deadline == window_deadline(now, params.temperature_check_days)
            },
    {
        if draft.title.as_str().is_empty() || draft.short_description.as_str().is_empty()
            || draft.description.as_str().is_empty() {
            return Err(GovernanceError::InvalidInput);
        }
        if draft.vote_options.len() == 0 || draft.vote_options.len() > MAX_VOTE_OPTIONS {
            return Err(GovernanceError::InvalidInput);
        }
        if draft.links.len() > MAX_LINKS {
            return Err(GovernanceError::InvalidInput);
        }
        match draft.max_selections {
            Option::Some(n) => {
                if n == 0 || n > MAX_SELECTIONS || (n as usize) > draft.vote_options.len() {
                    return Err(GovernanceError::InvalidInput);
                }
            },
            Option::None => {},
        }

        let id = self.temperature_checks.len() as u64;
        let days = self.governance_parameters.temperature_check_days;
        let deadline = now + (days as i64) * SECONDS_PER_DAY;

        let mut vote_options: Vec<ProposalVoteOption> = Vec::new();
        let n_options = draft.vote_options.len();
        let mut i: usize = 0;
        while i < n_options
            invariant
                i <= n_options <= MAX_VOTE_OPTIONS,
                n_options == draft.vote_options@.len(),
                vote_options@.len() == i,
                forall|j: int|
                    0 <= j < i ==> (#[trigger] vote_options@[j])@ == (ProposalVoteOptionModel {
                        id: j as u32,
                        label: draft.vote_options@[j].label@,
                    }),
            decreases n_options - i,
        {
            vote_options.push(
                ProposalVoteOption {
                    id: ProposalVoteOptionId(i as u32),
                    label: draft.vote_options[i].label.clone(),
                },
            );
            i = i + 1;
        }

        let check = TemperatureCheck {
            title: draft.title,
            short_description: draft.short_description,
            description: draft.description,
            vote_options,
            links: draft.links,
            quorum: self.governance_parameters.temperature_check_quorum,
            max_selections: draft.max_selections,
            votes: HashMap::new(),
            approval_threshold: self.governance_parameters.temperature_check_approval_threshold,
            start: now,
            deadline,
            elevated_proposal_id: Option::None,
            author,
            last_vote_at: now,
        };

        proof {
            assert(check@.vote_options =~= options_from_labels(draft@.vote_options));
            assert(check@.links =~= draft@.links);
            assert(check@ =~= check_from_draft(
                draft@,
                old(self)@.governance_parameters,
                author,
                now,
            ));
        }

        let title = check.title.clone();
        let ghost old_checks = self.temperature_checks@;
        self.temperature_checks.push(check);

        proof {
            assert(self.temperature_checks@.map_values(|t: TemperatureCheck| t@)
                =~= old_checks.map_values(|t: TemperatureCheck| t@).push(
                check_from_draft(draft@, old(self)@.governance_parameters, author, now),
            ));
        }

        Ok(TemperatureCheckCreatedEvent { temperature_check_id: id, title, start: now, deadline })
    }

    /// Promotes a temperature check into a proposal. Texts, options, links,
    /// author and selection bound are copied verbatim; quorum, threshold and
    /// window come from the proposal-tier parameters in force now. The
    /// source check records the new proposal's id, one-way and irreversibly.
    ///
    /// Fails with `NotFound` for an unknown id and with `AlreadyPromoted`
    /// for a check that was promoted before; a failed call changes nothing.
    ///
    /// The caller keeps the deadline representable: `now` plus the
    /// configured window must fit an `i64`. This operation is meant to be
    /// restricted to the process owner; enforcing that is the caller's
    /// business.
    pub fn make_proposal(&mut self, temperature_check_id: u64, now: i64) -> (r: Result<
        ProposalCreatedEvent,
        GovernanceError,
    >)
        requires
            window_deadline(now, old(self)@.governance_parameters.proposal_length_days)
                <= i64::MAX,
        ensures
            r is Ok <==> promote_outcome(old(self)@, temperature_check_id) is Ok,
            r is Err ==> final(self)@ == old(self)@ && r == Result::<
                ProposalCreatedEvent,
                GovernanceError,
            >::Err(promote_outcome(old(self)@, temperature_check_id)->Err_0),
            r is Ok ==> {
                let id = temperature_check_id as int;
                let params = old(self)@.governance_parameters;
                let pid = old(self)@.proposals.len();
                let src = old(self)@.temperature_checks[id];
                let ev = r->Ok_0;
                &&& final(self)@ == (GovernanceModel {
                    temperature_checks: old(self)@.temperature_checks.update(
                        id,
                        TemperatureCheckModel {
                            elevated_proposal_id: Option::Some(pid as u64),
                            ..src
                        },
                    ),
                    proposals: old(self)@.proposals.push(
                        proposal_from_check(src, params, temperature_check_id, now),
                    ),
                    ..old(self)@
                })
                &&& final(self)@.proposals.last().vote_options == src.vote_options
                &&& ev.proposal_id == pid
                &&& ev.temperature_check_id == temperature_check_id
                &&& ev.title@ == src.title
                &&& ev.start == now
                &&& ev.deadline == window_deadline(now, params.proposal_length_days)
            },
    {
        if temperature_check_id >= self.temperature_checks.len() as u64 {
            return Err(GovernanceError::NotFound);
        }
        let idx = temperature_check_id as usize;
        if self.temperature_checks[idx].elevated_proposal_id.is_some() {
            return Err(GovernanceError::AlreadyPromoted);
        }

        let pid = self.proposals.len() as u64;
        let days = self.governance_parameters.proposal_length_days;
        let deadline = now + (days as i64) * SECONDS_PER_DAY;

        let mut tc = self.temperature_checks.remove(idx);
        let proposal = Proposal {
            title: tc.title.clone(),
            short_description: tc.short_description.clone(),
            description: tc.description.clone(),
            vote_options: clone_options(&tc.vote_options),
            links: clone_strings(&tc.links),
            quorum: self.governance_parameters.proposal_quorum,
            max_selections: tc.max_selections,
            votes: HashMap::new(),
            approval_threshold: self.governance_parameters.proposal_approval_threshold,
            start: now,
            deadline,
            temperature_check_id,
            author: tc.author,
            last_vote_at: now,
        };
        tc.elevated_proposal_id = Some(pid);
        self.temperature_checks.insert(idx, tc);

        proof {
            let id = temperature_check_id as int;
            let src = old(self)@.temperature_checks[id];
            assert(proposal@ =~= proposal_from_check(
                src,
                old(self)@.governance_parameters,
                temperature_check_id,
                now,
            ));
            assert(self.temperature_checks@ =~= old(self).temperature_checks@.update(
                id,
                self.temperature_checks@[id],
            ));
            assert(self.temperature_checks@[id]@ =~= (TemperatureCheckModel {
                elevated_proposal_id: Option::Some(pid),
                ..src
            }));
            assert(self.temperature_checks@.map_values(|t: TemperatureCheck| t@)
                =~= old(self)@.temperature_checks.update(
                id,
                TemperatureCheckModel { elevated_proposal_id: Option::Some(pid), ..src },
            ));
        }

        let title = proposal.title.clone();
        let ghost old_proposals = self.proposals@;
        self.proposals.push(proposal);

        proof {
            assert(self.proposals@.map_values(|p: Proposal| p@) =~= old_proposals.map_values(
                |p: Proposal| p@,
            ).push(
                proposal_from_check(
                    old(self)@.temperature_checks[temperature_check_id as int],
                    old(self)@.governance_parameters,
                    temperature_check_id,
                    now,
                ),
            ));
        }

        Ok(
            ProposalCreatedEvent {
                proposal_id: pid,
                temperature_check_id,
                title,
                start: now,
                deadline,
            },
        )
    }

    /// Records `account`'s for/against vote on a temperature check.
    ///
    /// The vote is accepted exactly when the check exists, `now` lies in
    /// `[start, deadline)` — the deadline itself is already closed — and the
    /// account has not voted on this check before; the first failing
    /// condition, in that order, names the error. A failed call changes
    /// nothing; a successful one records the vote and updates the check's
    /// last-vote instant.
    ///
    /// Proving that the caller may act for `account` is the caller's
    /// business.
    pub fn vote_on_temperature_check(
        &mut self,
        account: AccountId,
        temperature_check_id: u64,
        vote: TemperatureCheckVote,
        now: i64,
    ) -> (r: Result<TemperatureCheckVotedEvent, GovernanceError>)
        ensures
            r is Ok <==> tc_vote_outcome(old(self)@, account, temperature_check_id, now) is Ok,
            r is Err ==> final(self)@ == old(self)@ && r == Result::<
                TemperatureCheckVotedEvent,
                GovernanceError,
            >::Err(tc_vote_outcome(old(self)@, account, temperature_check_id, now)->Err_0),
            r is Ok ==> {
                let id = temperature_check_id as int;
                &&& final(self)@ == (GovernanceModel {
                    temperature_checks: old(self)@.temperature_checks.update(
                        id,
                        check_with_vote(
                            old(self)@.temperature_checks[id],
                            account,
                            vote,
                            now,
                        ),
                    ),
                    ..old(self)@
                })
                &&& r->Ok_0 == (TemperatureCheckVotedEvent {
                    temperature_check_id,
                    account,
                    vote,
                })
            },
    {
        if temperature_check_id >= self.temperature_checks.len() as u64 {
            return Err(GovernanceError::NotFound);
        }
        let idx = temperature_check_id as usize;
        if now < self.temperature_checks[idx].start {
            return Err(GovernanceError::NotStarted);
        }
        if now >= self.temperature_checks[idx].deadline {
            return Err(GovernanceError::VotingClosed);
        }
        if self.temperature_checks[idx].votes.contains_key(&account) {
            return Err(GovernanceError::DuplicateVote);
        }

        let mut tc = self.temperature_checks.remove(idx);
        tc.votes.insert(account, vote);
        tc.last_vote_at = now;
        self.temperature_checks.insert(idx, tc);

        proof {
            let id = temperature_check_id as int;
            assert(self.temperature_checks@ =~= old(self).temperature_checks@.update(
                id,
                self.temperature_checks@[id],
            ));
            assert(self.temperature_checks@[id]@ =~= check_with_vote(
                old(self)@.temperature_checks[id],
                account,
                vote,
                now,
            ));
            assert(self.temperature_checks@.map_values(|t: TemperatureCheck| t@)
                =~= old(self)@.temperature_checks.update(
                id,
                check_with_vote(old(self)@.temperature_checks[id], account, vote, now),
            ));
        }

        Ok(TemperatureCheckVotedEvent { temperature_check_id, account, vote })
    }

    /// Records `account`'s selection on a proposal.
    ///
    /// The vote is accepted exactly when the proposal exists, `now` lies in
    /// `[start, deadline)`, the selection is non-empty, its length fits the
    /// proposal's bound (exactly one for a single-choice proposal, at most
    /// `max_selections` otherwise), it names no option twice, every named
    /// option exists, and the account has not voted on this proposal before;
    /// the first failing condition, in that order, names the error. A failed
    /// call changes nothing; a successful one records the selection list in
    /// order and updates the proposal's last-vote instant.
    ///
    /// Proving that the caller may act for `account` is the caller's
    /// business.
    pub fn vote_on_proposal(
        &mut self,
        account: AccountId,
        proposal_id: u64,
        options: Vec<ProposalVoteOptionId>,
        now: i64,
    ) -> (r: Result<ProposalVotedEvent, GovernanceError>)
        ensures
            r is Ok <==> proposal_vote_outcome(
                old(self)@,
                account,
                proposal_id,
                option_ids(options@),
                now,
            ) is Ok,
            r is Err ==> final(self)@ == old(self)@ && r == Result::<
                ProposalVotedEvent,
                GovernanceError,
            >::Err(
                proposal_vote_outcome(
                    old(self)@,
                    account,
                    proposal_id,
                    option_ids(options@),
                    now,
                )->Err_0,
            ),
            r is Ok ==> {
                let id = proposal_id as int;
                let ev = r->Ok_0;
                &&& final(self)@ == (GovernanceModel {
                    proposals: old(self)@.proposals.update(
                        id,
                        proposal_with_vote(
                            old(self)@.proposals[id],
                            account,
                            option_ids(options@),
                            now,
                        ),
                    ),
                    ..old(self)@
                })
                &&& ev.proposal_id == proposal_id
                &&& ev.account == account
                &&& ev.votes@ == options@
            },
    {
        if proposal_id >= self.proposals.len() as u64 {
            return Err(GovernanceError::NotFound);
        }
        let idx = proposal_id as usize;
        if now < self.proposals[idx].start {
            return Err(GovernanceError::NotStarted);
        }
        if now >= self.proposals[idx].deadline {
            return Err(GovernanceError::VotingClosed);
        }
        if options.len() == 0 {
            return Err(GovernanceError::EmptySelection);
        }
        let count_bad = match self.proposals[idx].max_selections {
            Option::None => options.len() != 1,
            Option::Some(mx) => options.len() > mx as usize,
        };
        if count_bad {
            return Err(GovernanceError::TooManySelections);
        }
        if selection_has_duplicate(&options) {
            return Err(GovernanceError::DuplicateSelection);
        }
        if !all_selections_exist(&self.proposals[idx].vote_options, &options) {
            return Err(GovernanceError::InvalidOption);
        }
        if self.proposals[idx].votes.contains_key(&account) {
            return Err(GovernanceError::DuplicateVote);
        }

        let ev_votes = copy_ids(&options);
        let mut p = self.proposals.remove(idx);
        p.votes.insert(account, options);
        p.last_vote_at = now;
        self.proposals.insert(idx, p);

        proof {
            let id = proposal_id as int;
            assert(self.proposals@ =~= old(self).proposals@.update(id, self.proposals@[id]));
            assert(self.proposals@[id]@.votes =~= proposal_with_vote(
                old(self)@.proposals[id],
                account,
                option_ids(ev_votes@),
                now,
            ).votes);
            assert(self.proposals@[id]@ =~= proposal_with_vote(
                old(self)@.proposals[id],
                account,
                option_ids(ev_votes@),
                now,
            ));
            assert(self.proposals@.map_values(|q: Proposal| q@)
                =~= old(self)@.proposals.update(
                id,
                proposal_with_vote(
                    old(self)@.proposals[id],
                    account,
                    option_ids(ev_votes@),
                    now,
                ),
            ));
        }

        Ok(ProposalVotedEvent { proposal_id, account, votes: ev_votes })
    }

    /// Replaces the parameter set wholesale. Already-created checks and
    /// proposals are unaffected: they captured their quorum, threshold and
    /// window at creation time.
    pub fn update_governance_parameters(
        &mut self,
        new_params: GovernanceParameters,
    ) -> (ev: GovernanceParametersUpdatedEvent)
        ensures
            final(self)@ == (GovernanceModel { governance_parameters: new_params, ..old(self)@ }),
            ev == (GovernanceParametersUpdatedEvent { new_params }),
    {
        self.governance_parameters = new_params;
        GovernanceParametersUpdatedEvent { new_params }
    }
}

/// Option ids are the 0-based input order: the options built from a draft's
/// labels are one per label, and the option at each position carries that
/// position as its id and the label from that position. Together with
/// `make_temperature_check`'s contract — which stores exactly these options
/// and returns the pre-call check count as the new id — this is the id
/// assignment law.
pub proof fn lemma_option_ids_in_input_order(labels: Seq<Seq<char>>)
    ensures
        options_from_labels(labels).len() == labels.len(),
        forall|i: int|
            0 <= i < labels.len() ==> (#[trigger] options_from_labels(labels)[i]).id == i as u32
                && options_from_labels(labels)[i].label == labels[i],
{
}

/// The voting window law for temperature checks: with the check in place,
/// voting before `start` fails with `NotStarted`, voting at or after
/// `deadline` fails with `VotingClosed`, and a vote inside `[start,
/// deadline)` is accepted exactly when the account has not voted yet,
/// failing with `DuplicateVote` otherwise.
pub proof fn lemma_vote_window(m: GovernanceModel, account: AccountId, id: u64, now: i64)
    requires
        id < m.temperature_checks.len(),
    ensures
        now < m.temperature_checks[id as int].start ==> tc_vote_outcome(m, account, id, now)
            == Result::<(), GovernanceError>::Err(GovernanceError::NotStarted),
        m.temperature_checks[id as int].start <= now && now >= m.temperature_checks[
            id as int
        ].deadline ==> tc_vote_outcome(m, account, id, now) == Result::<(
            ),
            GovernanceError,
        >::Err(GovernanceError::VotingClosed),
        m.temperature_checks[id as int].start <= now < m.temperature_checks[id as int].deadline
            ==> (tc_vote_outcome(m, account, id, now) is Ok <==> !m.temperature_checks[
            id as int
        ].votes.contains_key(account)),
        m.temperature_checks[id as int].start <= now < m.temperature_checks[id as int].deadline
            && m.temperature_checks[id as int].votes.contains_key(account) ==> tc_vote_outcome(
            m,
            account,
            id,
            now,
        ) == Result::<(), GovernanceError>::Err(GovernanceError::DuplicateVote),
{
}

/// A vote succeeds at most once per account: in the state a successful vote
/// leaves behind — as `vote_on_temperature_check`'s contract describes it —
/// any further vote by the same account on the same check fails, and fails
/// with `DuplicateVote` whenever the window is still open.
pub proof fn lemma_second_vote_rejected(
    m0: GovernanceModel,
    m1: GovernanceModel,
    account: AccountId,
    id: u64,
    vote: TemperatureCheckVote,
    now: i64,
    now2: i64,
)
    requires
        id < m0.temperature_checks.len(),
        m1.temperature_checks == m0.temperature_checks.update(
            id as int,
            check_with_vote(m0.temperature_checks[id as int], account, vote, now),
        ),
    ensures
        tc_vote_outcome(m1, account, id, now2) is Err,
        m1.temperature_checks[id as int].start <= now2 < m1.temperature_checks[
            id as int
        ].deadline ==> tc_vote_outcome(m1, account, id, now2) == Result::<(
            ),
            GovernanceError,
        >::Err(GovernanceError::DuplicateVote),
{
    assert(m1.temperature_checks[id as int].votes.contains_key(account));
}

/// Promotion is one-way: in the state a successful promotion leaves behind —
/// as `make_proposal`'s contract describes it — promoting the same check
/// again fails with `AlreadyPromoted`; and the promoted proposal carries the
/// source check's option list unchanged.
pub proof fn lemma_promotion_once(m0: GovernanceModel, m1: GovernanceModel, id: u64, now: i64)
    requires
        id < m0.temperature_checks.len(),
        m0.temperature_checks[id as int].elevated_proposal_id is None,
        m1.temperature_checks == m0.temperature_checks.update(
            id as int,
            TemperatureCheckModel {
                elevated_proposal_id: Option::Some(m0.proposals.len() as u64),
                ..m0.temperature_checks[id as int]
            },
        ),
        m1.proposals == m0.proposals.push(
            proposal_from_check(
                m0.temperature_checks[id as int],
                m0.governance_parameters,
                id,
                now,
            ),
        ),
    ensures
        promote_outcome(m1, id) == Result::<(), GovernanceError>::Err(
            GovernanceError::AlreadyPromoted,
        ),
        m1.proposals.last().vote_options == m0.temperature_checks[id as int].vote_options,
{
}

/// The voting window law for proposals: with the proposal in place, voting
/// before `start` fails with `NotStarted` and voting at or after `deadline`
/// fails with `VotingClosed`, whatever the selection.
pub proof fn lemma_proposal_vote_window(
    m: GovernanceModel,
    account: AccountId,
    id: u64,
    ids: Seq<u32>,
    now: i64,
)
    requires
        id < m.proposals.len(),
    ensures
        now < m.proposals[id as int].start ==> proposal_vote_outcome(m, account, id, ids, now)
            == Result::<(), GovernanceError>::Err(GovernanceError::NotStarted),
        m.proposals[id as int].start <= now && now >= m.proposals[id as int].deadline
            ==> proposal_vote_outcome(m, account, id, ids, now) == Result::<(
            ),
            GovernanceError,
        >::Err(GovernanceError::VotingClosed),
{
}

/// A proposal vote succeeds at most once per account: in the state a
/// successful vote leaves behind — as `vote_on_proposal`'s contract
/// describes it — any further vote by the same account on the same proposal
/// fails, and fails with `DuplicateVote` whenever the window is still open
/// and the new selection passes the selection checks.
pub proof fn lemma_second_proposal_vote_rejected(
    m0: GovernanceModel,
    m1: GovernanceModel,
    account: AccountId,
    id: u64,
    ids: Seq<u32>,
    now: i64,
    ids2: Seq<u32>,
    now2: i64,
)
    requires
        id < m0.proposals.len(),
        m1.proposals == m0.proposals.update(
            id as int,
            proposal_with_vote(m0.proposals[id as int], account, ids, now),
        ),
    ensures
        proposal_vote_outcome(m1, account, id, ids2, now2) is Err,
        m1.proposals[id as int].start <= now2 < m1.proposals[id as int].deadline && ids2.len() > 0
            && !selection_count_bad(m1.proposals[id as int].max_selections, ids2.len())
            && !has_duplicate(ids2) && all_options_exist(
            m1.proposals[id as int].vote_options,
            ids2,
        ) ==> proposal_vote_outcome(m1, account, id, ids2, now2) == Result::<(
            ),
            GovernanceError,
        >::Err(GovernanceError::DuplicateVote),
{
    assert(m1.proposals[id as int].votes.contains_key(account));
}

/// The selection rules for proposal votes, with the proposal in place and
/// its window open: a single-choice proposal rejects every selection list
/// whose length is not 1, and a multiple-choice proposal rejects the empty
/// list, a list longer than its bound, a list naming an option twice, and a
/// list naming an unknown option — each with its error, in checking order.
pub proof fn lemma_selection_rules(
    m: GovernanceModel,
    account: AccountId,
    id: u64,
    ids: Seq<u32>,
    now: i64,
)
    requires
        id < m.proposals.len(),
        m.proposals[id as int].start <= now < m.proposals[id as int].deadline,
    ensures
        ids.len() == 0 ==> proposal_vote_outcome(m, account, id, ids, now) == Result::<(
            ),
            GovernanceError,
        >::Err(GovernanceError::EmptySelection),
        m.proposals[id as int].max_selections is None && ids.len() > 1 ==> proposal_vote_outcome(
            m,
            account,
            id,
            ids,
            now,
        ) == Result::<(), GovernanceError>::Err(GovernanceError::TooManySelections),
        m.proposals[id as int].max_selections matches Some(mx) && ids.len() > mx
            ==> proposal_vote_outcome(m, account, id, ids, now) == Result::<(
            ),
            GovernanceError,
        >::Err(GovernanceError::TooManySelections),
        ids.len() > 0 && !selection_count_bad(m.proposals[id as int].max_selections, ids.len())
            && has_duplicate(ids) ==> proposal_vote_outcome(m, account, id, ids, now)
            == Result::<(), GovernanceError>::Err(GovernanceError::DuplicateSelection),
        ids.len() > 0 && !selection_count_bad(m.proposals[id as int].max_selections, ids.len())
            && !has_duplicate(ids) && !all_options_exist(m.proposals[id as int].vote_options, ids)
            ==> proposal_vote_outcome(m, account, id, ids, now) == Result::<(
            ),
            GovernanceError,
        >::Err(GovernanceError::InvalidOption),
{
}

} // verus!
