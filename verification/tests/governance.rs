use consultation::Governance;
use consultation::GovernanceError;
use consultation::GovernanceParameters;
use consultation::ProposalVoteOptionId;
use consultation::ProposalVoteOptionInput;
use consultation::TemperatureCheckDraft;
use consultation::TemperatureCheckVote;
use consultation::Decimal;

const DAY: i64 = 86_400;
const OWNER_BADGE: u64 = 1;

fn create_governance_parameters() -> GovernanceParameters {
    GovernanceParameters {
        temperature_check_days: 7,
        temperature_check_quorum: Decimal::from_thousandths(1_000_000),
        temperature_check_approval_threshold: Decimal::from_thousandths(500),
        proposal_length_days: 14,
        proposal_quorum: Decimal::from_thousandths(5_000_000),
        proposal_approval_threshold: Decimal::from_thousandths(500),
    }
}

fn create_temp_check_draft() -> TemperatureCheckDraft {
    TemperatureCheckDraft {
        title: "Test Proposal".to_string(),
        short_description: "A short summary of the test proposal".to_string(),
        description: "# Test Proposal\n\nA full markdown description of the test proposal."
            .to_string(),
        vote_options: vec![
            ProposalVoteOptionInput { label: "For".to_string() },
            ProposalVoteOptionInput { label: "Against".to_string() },
        ],
        links: vec!["https://radixtalk.com/proposal/123".to_string()],
        max_selections: None, // Single choice
    }
}

fn create_multi_choice_temp_check_draft() -> TemperatureCheckDraft {
    TemperatureCheckDraft {
        title: "Multi-Choice Test Proposal".to_string(),
        short_description: "A short summary of the multi-choice proposal".to_string(),
        description: "# Multi-Choice Proposal\n\nA full markdown description with multiple choice voting."
            .to_string(),
        vote_options: vec![
            ProposalVoteOptionInput { label: "Option A".to_string() },
            ProposalVoteOptionInput { label: "Option B".to_string() },
            ProposalVoteOptionInput { label: "Option C".to_string() },
        ],
        links: vec!["https://radixtalk.com/proposal/456".to_string()],
        max_selections: Some(2), // Can select up to 2 options
    }
}

fn ids(raw: &[u32]) -> Vec<ProposalVoteOptionId> {
    raw.iter().map(|&n| ProposalVoteOptionId(n)).collect()
}

#[test]
fn test_governance_instantiate() {
    let governance = Governance::instantiate(OWNER_BADGE, create_governance_parameters());
    assert_eq!(governance.get_temperature_check_count(), 0);
    assert_eq!(governance.get_proposal_count(), 0);
}

#[test]
fn test_make_temperature_check() {
    let mut governance = Governance::instantiate(OWNER_BADGE, create_governance_parameters());
    let author: u64 = 7;

    let draft = create_temp_check_draft();
    governance
        .make_temperature_check(author, draft, 1_000)
        .unwrap();

    assert_eq!(governance.get_temperature_check_count(), 1);
}

#[test]
fn test_vote_on_temperature_check() {
    let mut governance = Governance::instantiate(OWNER_BADGE, create_governance_parameters());
    let author: u64 = 7;
    let account: u64 = 8;

    let draft = create_temp_check_draft();
    governance
        .make_temperature_check(author, draft, 1_000)
        .unwrap();

    governance
        .vote_on_temperature_check(account, 0u64, TemperatureCheckVote::For, 1_000)
        .unwrap();
}

#[test]
fn test_cannot_vote_twice_on_temperature_check() {
    let mut governance = Governance::instantiate(OWNER_BADGE, create_governance_parameters());
    let author: u64 = 7;
    let account: u64 = 8;

    let draft = create_temp_check_draft();
    governance
        .make_temperature_check(author, draft, 1_000)
        .unwrap();

    // First vote should succeed
    governance
        .vote_on_temperature_check(account, 0u64, TemperatureCheckVote::For, 1_000)
        .unwrap();

    // Second vote should fail
    let second = governance.vote_on_temperature_check(
        account,
        0u64,
        TemperatureCheckVote::Against,
        1_000,
    );
    assert_eq!(second.unwrap_err(), GovernanceError::DuplicateVote);
}

#[test]
fn test_make_proposal_from_temperature_check() {
    let mut governance = Governance::instantiate(OWNER_BADGE, create_governance_parameters());
    let author: u64 = 7;

    let draft = create_temp_check_draft();
    governance
        .make_temperature_check(author, draft, 1_000)
        .unwrap();

    governance.make_proposal(0u64, 1_000).unwrap();

    assert_eq!(governance.get_proposal_count(), 1);
}

#[test]
fn test_multi_choice_proposal_voting() {
    let mut governance = Governance::instantiate(OWNER_BADGE, create_governance_parameters());
    let author: u64 = 7;
    let voter: u64 = 8;

    let draft = create_multi_choice_temp_check_draft();
    governance
        .make_temperature_check(author, draft, 1_000)
        .unwrap();
    governance.make_proposal(0u64, 1_000).unwrap();

    // Selecting 2 options should succeed: max is 2
    governance
        .vote_on_proposal(voter, 0u64, ids(&[0, 1]), 1_000)
        .unwrap();
}

#[test]
fn test_multi_choice_exceeds_max_selections() {
    let mut governance = Governance::instantiate(OWNER_BADGE, create_governance_parameters());
    let author: u64 = 7;
    let voter: u64 = 8;

    let draft = create_multi_choice_temp_check_draft();
    governance
        .make_temperature_check(author, draft, 1_000)
        .unwrap();
    governance.make_proposal(0u64, 1_000).unwrap();

    // Selecting 3 options should fail: max is 2
    let vote = governance.vote_on_proposal(voter, 0u64, ids(&[0, 1, 2]), 1_000);
    assert_eq!(vote.unwrap_err(), GovernanceError::TooManySelections);
}

#[test]
fn test_single_choice_requires_exactly_one_vote() {
    let mut governance = Governance::instantiate(OWNER_BADGE, create_governance_parameters());
    let author: u64 = 7;
    let voter: u64 = 8;

    let draft = create_temp_check_draft();
    governance
        .make_temperature_check(author, draft, 1_000)
        .unwrap();
    governance.make_proposal(0u64, 1_000).unwrap();

    // Selecting 2 options should fail: single choice
    let vote = governance.vote_on_proposal(voter, 0u64, ids(&[0, 1]), 1_000);
    assert_eq!(vote.unwrap_err(), GovernanceError::TooManySelections);
}

#[test]
fn test_creation_event_carries_window() {
    let mut governance = Governance::instantiate(OWNER_BADGE, create_governance_parameters());
    let ev = governance
        .make_temperature_check(7, create_temp_check_draft(), 1_000)
        .unwrap();
    assert_eq!(ev.temperature_check_id, 0);
    assert_eq!(ev.title, "Test Proposal");
    assert_eq!(ev.start, 1_000);
    assert_eq!(ev.deadline, 1_000 + 7 * DAY);
}

#[test]
fn test_check_ids_are_sequential() {
    let mut governance = Governance::instantiate(OWNER_BADGE, create_governance_parameters());
    let first = governance
        .make_temperature_check(7, create_temp_check_draft(), 1_000)
        .unwrap();
    let second = governance
        .make_temperature_check(7, create_multi_choice_temp_check_draft(), 2_000)
        .unwrap();
    assert_eq!(first.temperature_check_id, 0);
    assert_eq!(second.temperature_check_id, 1);
    assert_eq!(governance.get_temperature_check_count(), 2);
}

#[test]
fn test_invalid_drafts_are_rejected() {
    let mut governance = Governance::instantiate(OWNER_BADGE, create_governance_parameters());

    let mut empty_title = create_temp_check_draft();
    empty_title.title = String::new();
    let r = governance.make_temperature_check(7, empty_title, 1_000);
    assert_eq!(r.unwrap_err(), GovernanceError::InvalidInput);

    let mut empty_short = create_temp_check_draft();
    empty_short.short_description = String::new();
    let r = governance.make_temperature_check(7, empty_short, 1_000);
    assert_eq!(r.unwrap_err(), GovernanceError::InvalidInput);

    let mut empty_description = create_temp_check_draft();
    empty_description.description = String::new();
    let r = governance.make_temperature_check(7, empty_description, 1_000);
    assert_eq!(r.unwrap_err(), GovernanceError::InvalidInput);

    let mut no_options = create_temp_check_draft();
    no_options.vote_options = Vec::new();
    let r = governance.make_temperature_check(7, no_options, 1_000);
    assert_eq!(r.unwrap_err(), GovernanceError::InvalidInput);

    let mut too_many_options = create_temp_check_draft();
    too_many_options.vote_options = (0..11)
        .map(|n| ProposalVoteOptionInput { label: format!("Option {}", n) })
        .collect();
    let r = governance.make_temperature_check(7, too_many_options, 1_000);
    assert_eq!(r.unwrap_err(), GovernanceError::InvalidInput);

    let mut too_many_links = create_temp_check_draft();
    too_many_links.links = (0..11).map(|n| format!("https://example.com/{}", n)).collect();
    let r = governance.make_temperature_check(7, too_many_links, 1_000);
    assert_eq!(r.unwrap_err(), GovernanceError::InvalidInput);

    let mut zero_selections = create_temp_check_draft();
    zero_selections.max_selections = Some(0);
    let r = governance.make_temperature_check(7, zero_selections, 1_000);
    assert_eq!(r.unwrap_err(), GovernanceError::InvalidInput);

    let mut selections_above_cap = create_temp_check_draft();
    selections_above_cap.max_selections = Some(6);
    let r = governance.make_temperature_check(7, selections_above_cap, 1_000);
    assert_eq!(r.unwrap_err(), GovernanceError::InvalidInput);

    // More selections than vote options (3 > 2)
    let mut selections_above_options = create_temp_check_draft();
    selections_above_options.max_selections = Some(3);
    let r = governance.make_temperature_check(7, selections_above_options, 1_000);
    assert_eq!(r.unwrap_err(), GovernanceError::InvalidInput);

    assert_eq!(governance.get_temperature_check_count(), 0);
}

#[test]
fn test_voting_window_on_temperature_check() {
    let mut governance = Governance::instantiate(OWNER_BADGE, create_governance_parameters());
    governance
        .make_temperature_check(7, create_temp_check_draft(), 1_000)
        .unwrap();

    // Before the start
    let early = governance.vote_on_temperature_check(8, 0, TemperatureCheckVote::For, 999);
    assert_eq!(early.unwrap_err(), GovernanceError::NotStarted);

    // The deadline itself is already closed
    let at_deadline =
        governance.vote_on_temperature_check(8, 0, TemperatureCheckVote::For, 1_000 + 7 * DAY);
    assert_eq!(at_deadline.unwrap_err(), GovernanceError::VotingClosed);

    let after = governance.vote_on_temperature_check(
        8,
        0,
        TemperatureCheckVote::For,
        1_000 + 8 * DAY,
    );
    assert_eq!(after.unwrap_err(), GovernanceError::VotingClosed);

    // The last instant before the deadline is open
    let ev = governance
        .vote_on_temperature_check(8, 0, TemperatureCheckVote::For, 1_000 + 7 * DAY - 1)
        .unwrap();
    assert_eq!(ev.temperature_check_id, 0);
    assert_eq!(ev.account, 8);
    assert_eq!(ev.vote, TemperatureCheckVote::For);
}

#[test]
fn test_vote_on_unknown_check() {
    let mut governance = Governance::instantiate(OWNER_BADGE, create_governance_parameters());
    let r = governance.vote_on_temperature_check(8, 3, TemperatureCheckVote::For, 1_000);
    assert_eq!(r.unwrap_err(), GovernanceError::NotFound);
}

#[test]
fn test_make_proposal_unknown_check() {
    let mut governance = Governance::instantiate(OWNER_BADGE, create_governance_parameters());
    let r = governance.make_proposal(0, 1_000);
    assert_eq!(r.unwrap_err(), GovernanceError::NotFound);
}

#[test]
fn test_cannot_promote_twice() {
    let mut governance = Governance::instantiate(OWNER_BADGE, create_governance_parameters());
    governance
        .make_temperature_check(7, create_temp_check_draft(), 1_000)
        .unwrap();

    let ev = governance.make_proposal(0, 2_000).unwrap();
    assert_eq!(ev.proposal_id, 0);
    assert_eq!(ev.temperature_check_id, 0);
    assert_eq!(ev.title, "Test Proposal");
    assert_eq!(ev.start, 2_000);
    assert_eq!(ev.deadline, 2_000 + 14 * DAY);

    let again = governance.make_proposal(0, 3_000);
    assert_eq!(again.unwrap_err(), GovernanceError::AlreadyPromoted);
    assert_eq!(governance.get_proposal_count(), 1);
}

#[test]
fn test_proposal_vote_validation_order() {
    let mut governance = Governance::instantiate(OWNER_BADGE, create_governance_parameters());
    governance
        .make_temperature_check(7, create_multi_choice_temp_check_draft(), 1_000)
        .unwrap();
    governance.make_proposal(0, 1_000).unwrap();

    let missing = governance.vote_on_proposal(8, 5, ids(&[0]), 1_000);
    assert_eq!(missing.unwrap_err(), GovernanceError::NotFound);

    let early = governance.vote_on_proposal(8, 0, ids(&[0]), 999);
    assert_eq!(early.unwrap_err(), GovernanceError::NotStarted);

    let late = governance.vote_on_proposal(8, 0, ids(&[0]), 1_000 + 14 * DAY);
    assert_eq!(late.unwrap_err(), GovernanceError::VotingClosed);

    let empty = governance.vote_on_proposal(8, 0, Vec::new(), 1_000);
    assert_eq!(empty.unwrap_err(), GovernanceError::EmptySelection);

    let duplicate = governance.vote_on_proposal(8, 0, ids(&[1, 1]), 1_000);
    assert_eq!(duplicate.unwrap_err(), GovernanceError::DuplicateSelection);

    // Option ids are 0-based: 0, 1 and 2 exist, 3 does not
    let unknown = governance.vote_on_proposal(8, 0, ids(&[1, 3]), 1_000);
    assert_eq!(unknown.unwrap_err(), GovernanceError::InvalidOption);

    let ev = governance.vote_on_proposal(8, 0, ids(&[2]), 1_000).unwrap();
    assert_eq!(ev.proposal_id, 0);
    assert_eq!(ev.account, 8);
    assert_eq!(ev.votes, ids(&[2]));

    let again = governance.vote_on_proposal(8, 0, ids(&[0]), 1_000);
    assert_eq!(again.unwrap_err(), GovernanceError::DuplicateVote);
}

#[test]
fn test_parameter_update_spares_existing_checks() {
    let mut governance = Governance::instantiate(OWNER_BADGE, create_governance_parameters());
    governance
        .make_temperature_check(7, create_temp_check_draft(), 1_000)
        .unwrap();

    let mut new_params = create_governance_parameters();
    new_params.temperature_check_days = 1;
    let ev = governance.update_governance_parameters(new_params);
    assert_eq!(ev.new_params, new_params);
    assert_eq!(governance.get_governance_parameters(), new_params);

    // The first check captured the 7-day window at creation: a vote on day 3
    // still succeeds after the update.
    governance
        .vote_on_temperature_check(8, 0, TemperatureCheckVote::For, 1_000 + 3 * DAY)
        .unwrap();

    // A check created now gets the 1-day window.
    let second = governance
        .make_temperature_check(7, create_temp_check_draft(), 2_000)
        .unwrap();
    assert_eq!(second.deadline, 2_000 + DAY);
}

#[test]
fn test_scenario_single_choice_check() {
    // A single-choice check with 2 options, 7-day duration, quorum 1000 and
    // threshold 0.5; account X votes For on day 1, then tries again.
    let mut governance = Governance::instantiate(OWNER_BADGE, create_governance_parameters());
    let x: u64 = 42;
    let created = governance
        .make_temperature_check(7, create_temp_check_draft(), 0)
        .unwrap();
    assert_eq!(created.deadline, 7 * DAY);

    governance
        .vote_on_temperature_check(x, 0, TemperatureCheckVote::For, DAY)
        .unwrap();

    let again = governance.vote_on_temperature_check(x, 0, TemperatureCheckVote::Against, DAY);
    assert_eq!(again.unwrap_err(), GovernanceError::DuplicateVote);
}

#[test]
fn test_scenario_multi_choice_proposal() {
    // A multi-choice check with 3 options and a bound of 2 is promoted; one
    // account votes [0, 1], another tries [0, 1, 2].
    let mut governance = Governance::instantiate(OWNER_BADGE, create_governance_parameters());
    governance
        .make_temperature_check(7, create_multi_choice_temp_check_draft(), 0)
        .unwrap();
    governance.make_proposal(0, 0).unwrap();

    governance.vote_on_proposal(8, 0, ids(&[0, 1]), DAY).unwrap();

    let too_many = governance.vote_on_proposal(9, 0, ids(&[0, 1, 2]), DAY);
    assert_eq!(too_many.unwrap_err(), GovernanceError::TooManySelections);
}
