use robokitty::epoch::{EpochStatus, TeamReward};
use robokitty::proposal::{
    BudgetRequestDetails, BudgetRequestDetailsScript, PaymentStatus, ProposalStatus, RequestAmount,
    Resolution, UpdateProposalDetails,
};
use robokitty::system::{BudgetSystem, SystemConfig};
use robokitty::system_vote_flows::NamedBallot;
use robokitty::team::TeamStatus;
use robokitty::vote::{Ballot, Threshold, VoteChoice, VoteCount, VoteResult, VoteType};
use robokitty::{BudgetError, ErrorKind};

const DAY: i64 = 86400;

fn test_config() -> SystemConfig {
    SystemConfig {
        future_block_offset: 10,
        default_total_counted_seats: 7,
        default_max_earner_seats: 5,
        default_qualified_majority_threshold: Threshold { numerator: 7, denominator: 10 },
        counted_vote_points: 5,
        uncounted_vote_points: 2,
    }
}

fn create_test_budget_system() -> BudgetSystem {
    BudgetSystem::new(test_config(), chrono::Utc::now().timestamp())
}

fn create_active_epoch(budget_system: &mut BudgetSystem, name: &str, duration_days: i64) -> u128 {
    let start_date = chrono::Utc::now().timestamp();
    let end_date = start_date + duration_days * DAY;
    let epoch_id = budget_system.create_epoch(name, start_date, end_date).unwrap();
    budget_system.activate_epoch(epoch_id).unwrap();
    epoch_id
}

fn snapshot(system: &BudgetSystem) -> String {
    format!("{:?}", system)
}

fn ballot(team: &str, choice: VoteChoice) -> NamedBallot {
    NamedBallot { team: team.to_string(), choice }
}

fn names(list: &[&str]) -> Vec<String> {
    list.iter().map(|s| s.to_string()).collect()
}

/// Two teams, an active epoch and one proposal with an imported raffle that
/// seats A as counted and B as uncounted.
fn with_raffle() -> (BudgetSystem, u128, u128, u128, u128, u128) {
    let mut system = create_test_budget_system();
    let epoch = create_active_epoch(&mut system, "Epoch 1", 30);
    let a = system
        .add_team("Team A".to_string(), "Alice".to_string(), Some(vec![1000, 2000, 3000]))
        .unwrap();
    let b = system.add_team("Team B".to_string(), "Bob".to_string(), None).unwrap();
    let proposal = system
        .add_proposal("Proposal 1".to_string(), None, None, None, None, None)
        .unwrap();
    let raffle = system
        .import_predefined_raffle("Proposal 1", names(&["Team A"]), names(&["Team B"]), 1, 1)
        .unwrap();
    (system, epoch, a, b, proposal, raffle)
}

#[test]
fn test_create_epoch() {
    let mut budget_system = create_test_budget_system();
    let _epoch_id = create_active_epoch(&mut budget_system, "Test Epoch", 30);

    let epoch = budget_system.get_current_epoch().unwrap();
    assert_eq!(epoch.name(), "Test Epoch");
    assert!(epoch.is_active());
}

#[test]
fn new_state_is_empty() {
    let system = BudgetSystem::new(test_config(), 17);
    assert!(system.state.teams.is_empty());
    assert!(system.state.proposals.is_empty());
    assert!(system.state.raffles.is_empty());
    assert!(system.state.votes.is_empty());
    assert!(system.state.epochs.is_empty());
    assert_eq!(system.state.current_epoch, None);
    assert_eq!(system.state.timestamp, 17);
    assert!(system.get_current_epoch().is_none());
}

#[test]
fn teams_are_added_found_updated_and_removed() {
    let mut system = create_test_budget_system();
    system
        .add_team_with_id(1, "Test Team".to_string(), "Representative".to_string(), Some(vec![1000, 2000, 3000]))
        .unwrap();
    system.add_team_with_id(2, "Other".to_string(), "R".to_string(), None).unwrap();
    assert_eq!(system.state.teams.len(), 2);
    assert_eq!(system.get_team_id_by_name("Test Team"), Some(1));
    assert_eq!(system.get_team_id_by_name("Other"), Some(2));
    assert_eq!(system.get_team_id_by_name("other"), None);
    assert_eq!(system.team(1).unwrap().representative(), "Representative");
    assert!(system.team(3).is_none());

    let before = snapshot(&system);
    assert_eq!(
        system.add_team_with_id(1, "Dup".to_string(), "R".to_string(), None).unwrap_err(),
        BudgetError::DuplicateId
    );
    assert_eq!(
        system.add_team("Bad".to_string(), "R".to_string(), Some(vec![])).unwrap_err(),
        BudgetError::EmptyRevenue
    );
    assert_eq!(
        system.update_team_status(9, &TeamStatus::Inactive).unwrap_err(),
        BudgetError::TeamNotFound
    );
    assert_eq!(
        system
            .update_team_status(1, &TeamStatus::Earner { trailing_monthly_revenue: vec![] })
            .unwrap_err(),
        BudgetError::EmptyRevenue
    );
    assert_eq!(system.remove_team(9).unwrap_err(), BudgetError::TeamNotFound);
    assert_eq!(snapshot(&system), before);

    system.update_team_status(2, &TeamStatus::Inactive).unwrap();
    assert!(system.team(2).unwrap().status().is_inactive());
    assert!(!system.team(2).unwrap().is_active());
    system.remove_team(1).unwrap();
    assert_eq!(system.state.teams.len(), 1);
    assert_eq!(system.get_team_id_by_name("Test Team"), None);
    let fresh = system.add_team("Fresh".to_string(), "R".to_string(), None).unwrap();
    assert_eq!(system.get_team_id_by_name("Fresh"), Some(fresh));
}

#[test]
fn epochs_do_not_overlap_and_only_one_is_active() {
    let mut system = create_test_budget_system();
    system.create_epoch_with_id(1, "First", 0, 30 * DAY).unwrap();
    let before = snapshot(&system);
    assert_eq!(
        system.create_epoch("Overlap", 29 * DAY, 60 * DAY).unwrap_err(),
        BudgetError::OverlappingEpoch
    );
    assert_eq!(system.create_epoch("Inside", DAY, 2 * DAY).unwrap_err(), BudgetError::OverlappingEpoch);
    assert_eq!(system.create_epoch("Backwards", 50 * DAY, 40 * DAY).unwrap_err(), BudgetError::InvalidDateRange);
    assert_eq!(
        system.create_epoch_with_id(1, "Dup", 40 * DAY, 50 * DAY).unwrap_err(),
        BudgetError::DuplicateId
    );
    assert_eq!(snapshot(&system), before);
    system.create_epoch_with_id(2, "Second", 30 * DAY, 60 * DAY).unwrap();
    assert_eq!(system.get_epoch_id_by_name("Second"), Some(2));
    assert_eq!(system.get_epoch_id_by_name("Third"), None);

    assert_eq!(system.activate_epoch(3).unwrap_err(), BudgetError::EpochNotFound);
    system.activate_epoch(1).unwrap();
    assert_eq!(system.state.current_epoch, Some(1));
    let active = snapshot(&system);
    assert_eq!(system.activate_epoch(2).unwrap_err(), BudgetError::AnotherEpochActive);
    assert_eq!(system.activate_epoch(2).unwrap_err().kind(), ErrorKind::InvalidState);
    assert_eq!(snapshot(&system), active);
    assert_eq!(system.epoch(2).unwrap().status(), EpochStatus::Planned);
}

#[test]
fn planned_epochs_can_be_moved() {
    let mut system = create_test_budget_system();
    system.create_epoch_with_id(1, "First", 0, 10).unwrap();
    system.create_epoch_with_id(2, "Second", 10, 20).unwrap();
    system.update_epoch_dates(2, 15, 25).unwrap();
    assert_eq!(system.epoch(2).unwrap().start_date(), 15);
    assert_eq!(system.epoch(2).unwrap().end_date(), 25);
    system.update_epoch_dates(2, 12, 30).unwrap();
    let before = snapshot(&system);
    assert_eq!(system.update_epoch_dates(2, 9, 30).unwrap_err(), BudgetError::OverlappingEpoch);
    assert_eq!(system.update_epoch_dates(3, 40, 50).unwrap_err(), BudgetError::EpochNotFound);
    assert_eq!(system.update_epoch_dates(2, 50, 40).unwrap_err(), BudgetError::InvalidDateRange);
    system.activate_epoch(1).unwrap();
    assert_eq!(system.update_epoch_dates(1, 0, 5).unwrap_err(), BudgetError::EpochNotPlanned);
    system.state.current_epoch = None;
    system.state.epochs[0].status = EpochStatus::Planned;
    assert_eq!(snapshot(&system), before);
}

#[test]
fn reward_is_set_on_the_current_epoch() {
    let mut system = create_test_budget_system();
    assert_eq!(system.set_epoch_reward("USDC", 1000).unwrap_err(), BudgetError::NoActiveEpoch);
    let epoch = create_active_epoch(&mut system, "E", 30);
    system.set_epoch_reward("USDC", 1000).unwrap();
    let reward = system.epoch(epoch).unwrap().reward().unwrap();
    assert_eq!(reward.token(), "USDC");
    assert_eq!(reward.amount(), 1000);
}

#[test]
fn proposals_belong_to_the_current_epoch() {
    let mut system = create_test_budget_system();
    assert_eq!(
        system.add_proposal("P".to_string(), None, None, None, None, None).unwrap_err(),
        BudgetError::NoActiveEpoch
    );
    let epoch = create_active_epoch(&mut system, "E", 30);
    let details = BudgetRequestDetails::new(
        None,
        vec![RequestAmount { token: "ETH".to_string(), amount: 5 }],
        Some(10),
        Some(20),
        None,
    )
    .unwrap();
    let first = system
        .add_proposal(
            "First".to_string(),
            Some("https://example.org/1".to_string()),
            Some(details),
            Some(100),
            Some(101),
            Some(true),
        )
        .unwrap();
    let second = system.add_proposal("Second".to_string(), None, None, None, None, None).unwrap();
    assert_eq!(system.get_proposal_id_by_name("First"), Some(first));
    assert_eq!(system.get_proposal_id_by_name("Second"), Some(second));
    assert_eq!(system.get_proposal_id_by_name("Third"), None);
    assert_eq!(system.epoch(epoch).unwrap().associated_proposals(), &vec![first, second]);
    let listed: Vec<u128> = system.get_proposals_for_epoch(epoch).iter().map(|p| p.id()).collect();
    assert_eq!(listed, vec![first, second]);
    assert!(system.get_proposals_for_epoch(12345).is_empty());
    let proposal = system.proposal(first).unwrap();
    assert_eq!(proposal.title(), "First");
    assert_eq!(proposal.url(), Some("https://example.org/1"));
    assert_eq!(proposal.epoch_id(), epoch);
    assert_eq!(proposal.status(), ProposalStatus::Open);
    assert_eq!(proposal.resolution(), None);
    assert_eq!(proposal.announced_at(), Some(100));
    assert_eq!(proposal.published_at(), Some(101));
    assert_eq!(proposal.resolved_at(), None);
    assert!(proposal.is_historical());
    assert!(proposal.is_actionable());
    assert!(!system.proposal(second).unwrap().is_historical());
    assert_eq!(
        system
            .add_proposal_with_id(first, "Dup".to_string(), None, None, None, None, None)
            .unwrap_err(),
        BudgetError::DuplicateId
    );
    assert_eq!(system.count_actionable_proposals(epoch), 2);
    let counts = system.count_proposals(epoch);
    assert_eq!((counts.total, counts.open, counts.approved, counts.rejected, counts.retracted), (2, 2, 0, 0, 0));
}

#[test]
fn budget_request_period_must_be_in_order() {
    assert_eq!(
        BudgetRequestDetails::new(None, Vec::new(), Some(20), Some(10), None).unwrap_err(),
        BudgetError::InvalidDateRange
    );
    assert!(BudgetRequestDetails::new(None, Vec::new(), Some(10), Some(10), None).is_ok());
    assert!(BudgetRequestDetails::new(None, Vec::new(), Some(20), None, None).is_ok());
}

#[test]
fn proposals_are_closed_once() {
    let mut system = create_test_budget_system();
    create_active_epoch(&mut system, "E", 30);
    let id = system.add_proposal("P".to_string(), None, None, None, None, None).unwrap();
    assert_eq!(
        system.close_with_reason(id + 1, &Resolution::Retracted).unwrap_err(),
        BudgetError::ProposalNotFound
    );
    system.close_with_reason(id, &Resolution::Retracted).unwrap();
    let proposal = system.proposal(id).unwrap();
    assert!(proposal.is_closed());
    assert!(!proposal.is_actionable());
    assert_eq!(proposal.resolution(), Some(Resolution::Retracted));
    let before = snapshot(&system);
    assert_eq!(
        system.close_with_reason(id, &Resolution::Approved).unwrap_err(),
        BudgetError::ProposalAlreadyClosed
    );
    assert_eq!(snapshot(&system), before);
}

#[test]
fn paid_proposals_are_neither_closed_nor_resolved() {
    let mut system = create_test_budget_system();
    create_active_epoch(&mut system, "E", 30);
    let details = BudgetRequestDetails::new(None, Vec::new(), None, None, Some(PaymentStatus::Paid)).unwrap();
    let id = system.add_proposal("P".to_string(), None, Some(details), None, None, None).unwrap();
    let before = snapshot(&system);
    assert_eq!(
        system.close_with_reason(id, &Resolution::Approved).unwrap_err(),
        BudgetError::ProposalAlreadyPaid
    );
    assert!(!system.proposal(id).unwrap().is_actionable());
    assert!(system.proposal(id).unwrap().is_paid());
    assert_eq!(system.create_informal_vote(id).unwrap_err(), BudgetError::ProposalNotActionable);
    assert_eq!(snapshot(&system), before);
    let mut copy = system.proposal(id).unwrap().clone();
    assert_eq!(copy.approve().unwrap_err(), BudgetError::ProposalAlreadyPaid);
}

#[test]
fn a_resolution_is_set_only_once() {
    let mut system = create_test_budget_system();
    create_active_epoch(&mut system, "E", 30);
    let id = system.add_proposal("P".to_string(), None, None, None, None, None).unwrap();
    let mut proposal = system.proposal(id).unwrap().clone();
    proposal.approve().unwrap();
    assert_eq!(proposal.resolution(), Some(Resolution::Approved));
    assert_eq!(proposal.reject().unwrap_err(), BudgetError::ResolutionAlreadySet);
    assert_eq!(proposal.close(Resolution::Rejected).unwrap_err(), BudgetError::ResolutionAlreadySet);
    assert_eq!(proposal.resolution(), Some(Resolution::Approved));
    proposal.close(Resolution::Approved).unwrap();
    assert!(proposal.is_closed());
    assert_eq!(proposal.approve().unwrap_err(), BudgetError::ProposalAlreadyClosed);
}

#[test]
fn proposals_are_updated_by_title() {
    let mut system = create_test_budget_system();
    create_active_epoch(&mut system, "E", 30);
    let team = system.add_team("Team A".to_string(), "A".to_string(), None).unwrap();
    let id = system.add_proposal("Old".to_string(), None, None, Some(1), None, None).unwrap();
    let updates = UpdateProposalDetails {
        title: Some("New".to_string()),
        url: Some("https://example.org".to_string()),
        budget_request_details: Some(BudgetRequestDetailsScript {
            team: Some("Team A".to_string()),
            request_amounts: Some(vec![RequestAmount { token: "USDC".to_string(), amount: 7 }]),
            start_date: Some(5),
            end_date: Some(9),
            payment_status: None,
        }),
        announced_at: None,
        published_at: Some(3),
        resolved_at: None,
    };
    system.update_proposal("Old", updates).unwrap();
    assert_eq!(system.get_proposal_id_by_name("Old"), None);
    assert_eq!(system.get_proposal_id_by_name("New"), Some(id));
    let proposal = system.proposal(id).unwrap();
    assert_eq!(proposal.url(), Some("https://example.org"));
    assert_eq!(proposal.announced_at(), Some(1));
    assert_eq!(proposal.published_at(), Some(3));
    let details = proposal.budget_request_details().unwrap();
    assert_eq!(details.team(), Some(team));
    assert_eq!(details.request_amounts().len(), 1);
    assert_eq!(details.request_amounts()[0].amount, 7);
    assert_eq!(details.start_date(), Some(5));
    assert_eq!(details.end_date(), Some(9));
    assert_eq!(details.payment_status(), None);
    assert!(!details.is_paid());

    let before = snapshot(&system);
    let bad = UpdateProposalDetails {
        title: Some("Newer".to_string()),
        url: None,
        budget_request_details: Some(BudgetRequestDetailsScript {
            team: None,
            request_amounts: None,
            start_date: Some(10),
            end_date: None,
            payment_status: None,
        }),
        announced_at: None,
        published_at: None,
        resolved_at: None,
    };
    assert_eq!(system.update_proposal("New", bad).unwrap_err(), BudgetError::InvalidDateRange);
    let missing = UpdateProposalDetails {
        title: None,
        url: None,
        budget_request_details: None,
        announced_at: None,
        published_at: None,
        resolved_at: None,
    };
    assert_eq!(system.update_proposal("Nowhere", missing).unwrap_err(), BudgetError::ProposalNotFound);
    assert_eq!(snapshot(&system), before);
}

#[test]
fn predefined_raffle_must_fill_the_counted_seats() {
    let (mut system, epoch, a, b, proposal, raffle) = with_raffle();
    assert_eq!(system.get_raffle_id_by_name("Proposal 1"), Some(raffle));
    assert_eq!(system.find_proposal_and_raffle("Proposal 1"), Ok((proposal, raffle)));
    let stored = system.raffle(raffle).unwrap();
    assert_eq!(stored.result().unwrap().counted(), &vec![a]);
    assert_eq!(stored.result().unwrap().uncounted(), &vec![b]);
    assert!(stored.config().is_historical());
    assert_eq!(stored.config().block_randomness(), "N/A");
    assert_eq!(stored.config().proposal_id(), proposal);
    assert_eq!(stored.config().epoch_id(), epoch);
    assert_eq!(stored.config().total_counted_seats(), 1);
    assert_eq!(stored.config().max_earner_seats(), 1);
    let lineup: Vec<u128> = stored.team_snapshots().iter().map(|s| s.id()).collect();
    assert_eq!(lineup, vec![a, b]);

    let before = snapshot(&system);
    assert_eq!(
        system
            .import_predefined_raffle("Proposal 1", names(&["Team A", "Team B"]), vec![], 1, 1)
            .unwrap_err(),
        BudgetError::CountedSeatsMismatch { expected: 1, actual: 2 }
    );
    assert_eq!(
        system
            .import_predefined_raffle("Proposal 1", names(&["Team A", "Nobody"]), vec![], 2, 1)
            .unwrap_err(),
        BudgetError::CountedSeatsMismatch { expected: 2, actual: 1 }
    );
    assert_eq!(
        system
            .import_predefined_raffle("Proposal 1", names(&["Team A"]), vec![], 1, 2)
            .unwrap_err(),
        BudgetError::EarnerSeatsExceedTotal { max_earner_seats: 2, total_counted_seats: 1 }
    );
    assert_eq!(
        system.import_predefined_raffle("Nothing", names(&["Team A"]), vec![], 1, 1).unwrap_err(),
        BudgetError::ProposalNotFound
    );
    assert_eq!(snapshot(&system), before);
    assert_eq!(system.find_proposal_and_raffle("Nothing"), Err(BudgetError::ProposalNotFound));
}

#[test]
fn raffle_is_prepared_then_finalized() {
    let mut system = create_test_budget_system();
    create_active_epoch(&mut system, "E", 30);
    let a = system.add_team("A".to_string(), "a".to_string(), Some(vec![12000, 12000, 12000])).unwrap();
    let b = system.add_team("B".to_string(), "b".to_string(), None).unwrap();
    let c = system.add_team("C".to_string(), "c".to_string(), None).unwrap();
    system.add_proposal("P".to_string(), None, None, None, None, None).unwrap();
    assert_eq!(system.find_proposal_and_raffle("P"), Err(BudgetError::RaffleNotFound));
    let (raffle_id, tickets) = system.prepare_raffle("P", Some(names(&["C", "Nobody"]))).unwrap();
    let owners: Vec<u128> = tickets.iter().map(|t| t.team_id()).collect();
    assert_eq!(owners, vec![a, a, a, b]);
    assert!(!system.raffle(raffle_id).unwrap().is_completed());
    assert_eq!(system.raffle(raffle_id).unwrap().config().excluded_teams(), &vec![c]);

    let drawn = system.finalize_raffle(raffle_id, 12345, 12355, "abc".to_string()).unwrap();
    assert_eq!(drawn.config().initiation_block(), 12345);
    assert_eq!(drawn.config().randomness_block(), 12355);
    assert_eq!(drawn.config().block_randomness(), "abc");
    assert_eq!(drawn.tickets()[0].score(), 17623209344444925058);
    assert_eq!(drawn.tickets()[3].score(), 13964881136568410509);
    assert_eq!(drawn.result().unwrap().counted(), &vec![a, b]);
    assert!(drawn.result().unwrap().uncounted().is_empty());
    assert_eq!(system.raffle(raffle_id).unwrap().tickets(), drawn.tickets());
    assert!(system.raffle(raffle_id).unwrap().is_completed());

    let before = snapshot(&system);
    assert_eq!(
        system.finalize_raffle(raffle_id, 1, 2, "other".to_string()).unwrap_err(),
        BudgetError::RaffleAlreadyCompleted
    );
    assert_eq!(
        system.finalize_raffle(raffle_id + 1, 1, 2, "other".to_string()).unwrap_err(),
        BudgetError::RaffleNotFound
    );
    assert_eq!(system.prepare_raffle("Nothing", None).unwrap_err(), BudgetError::ProposalNotFound);
    assert_eq!(snapshot(&system), before);
}

#[test]
fn historical_raffle_is_replayed_from_its_randomness() {
    let mut system = create_test_budget_system();
    create_active_epoch(&mut system, "E", 30);
    let s0 = system.add_team("S0".to_string(), "r".to_string(), None).unwrap();
    let s1 = system.add_team("S1".to_string(), "r".to_string(), None).unwrap();
    let s2 = system.add_team("S2".to_string(), "r".to_string(), None).unwrap();
    system.add_proposal("P".to_string(), None, None, None, None, None).unwrap();
    let replay = |system: &mut BudgetSystem| {
        system
            .import_historical_raffle(
                "P",
                100,
                110,
                "".to_string(),
                Some(names(&["S2", "S0"])),
                None,
                Some(2),
                Some(0),
            )
            .unwrap()
    };
    let (first_id, first) = replay(&mut system);
    let (second_id, second) = replay(&mut system);
    assert_ne!(first_id, second_id);
    assert_eq!(first.tickets(), second.tickets());
    assert_eq!(first.result().unwrap().counted(), second.result().unwrap().counted());
    let owners: Vec<u128> = first.tickets().iter().map(|t| t.team_id()).collect();
    assert_eq!(owners, vec![s2, s0, s1]);
    assert_eq!(first.result().unwrap().counted(), &vec![s1, s0]);
    assert_eq!(first.result().unwrap().uncounted(), &vec![s2]);
    assert!(first.config().is_historical());
    assert_eq!(
        system
            .import_historical_raffle("P", 1, 2, "x".to_string(), None, None, Some(1), Some(2))
            .unwrap_err(),
        BudgetError::EarnerSeatsExceedTotal { max_earner_seats: 2, total_counted_seats: 1 }
    );
}

#[test]
fn formal_vote_needs_a_drawn_raffle_and_an_open_proposal() {
    let (mut system, _epoch, a, b, proposal, raffle) = with_raffle();
    let before = snapshot(&system);
    assert_eq!(system.create_formal_vote(proposal + 1, raffle, None).unwrap_err(), BudgetError::ProposalNotFound);
    assert_eq!(system.create_formal_vote(proposal, raffle + 1, None).unwrap_err(), BudgetError::RaffleNotFound);
    assert_eq!(
        system
            .create_formal_vote(proposal, raffle, Some(Threshold { numerator: 3, denominator: 2 }))
            .unwrap_err(),
        BudgetError::InvalidThreshold
    );
    assert_eq!(snapshot(&system), before);

    let vote = system.create_formal_vote(proposal, raffle, None).unwrap();
    match system.vote(vote).unwrap().vote_type() {
        VoteType::Formal { raffle_id, total_eligible_seats, threshold, counted_points, uncounted_points } => {
            assert_eq!(*raffle_id, raffle);
            assert_eq!(*total_eligible_seats, 1);
            assert_eq!(*threshold, Threshold { numerator: 7, denominator: 10 });
            assert_eq!((*counted_points, *uncounted_points), (5, 2));
        }
        VoteType::Informal => panic!("formal vote expected"),
    }
    let open = snapshot(&system);
    assert_eq!(
        system
            .cast_votes(
                vote,
                vec![
                    Ballot { team_id: a, choice: VoteChoice::Yes },
                    Ballot { team_id: 424242, choice: VoteChoice::Yes }
                ]
            )
            .unwrap_err(),
        BudgetError::TeamNotEligible { team: 424242 }
    );
    assert_eq!(system.cast_votes(vote + 1, vec![]).unwrap_err(), BudgetError::VoteNotFound);
    assert_eq!(snapshot(&system), open);
    system
        .cast_votes(
            vote,
            vec![
                Ballot { team_id: a, choice: VoteChoice::No },
                Ballot { team_id: b, choice: VoteChoice::Yes },
                Ballot { team_id: a, choice: VoteChoice::Yes },
            ],
        )
        .unwrap();
    assert_eq!(system.close_vote(vote), Ok(true));
    assert_eq!(
        system.vote(vote).unwrap().vote_counts(),
        Some((VoteCount { yes: 1, no: 0 }, VoteCount { yes: 1, no: 0 }))
    );
    let closed = snapshot(&system);
    assert_eq!(system.close_vote(vote).unwrap_err(), BudgetError::VoteAlreadyClosed);
    assert_eq!(
        system.cast_votes(vote, vec![Ballot { team_id: a, choice: VoteChoice::No }]).unwrap_err(),
        BudgetError::VoteClosed
    );
    assert_eq!(system.close_vote(vote + 1).unwrap_err(), BudgetError::VoteNotFound);
    assert_eq!(snapshot(&system), closed);
}

#[test]
fn informal_vote_is_advisory() {
    let (mut system, _epoch, a, _b, proposal, _raffle) = with_raffle();
    let vote = system.create_informal_vote_at(77, 1000, proposal).unwrap();
    assert_eq!(vote, ());
    system
        .cast_votes(
            77,
            vec![
                Ballot { team_id: a, choice: VoteChoice::Yes },
                Ballot { team_id: 999, choice: VoteChoice::No },
            ],
        )
        .unwrap();
    assert_eq!(system.close_vote_at(77, 2000), Ok(false));
    assert_eq!(
        system.vote(77).unwrap().result(),
        Some(&VoteResult::Informal { count: VoteCount { yes: 1, no: 1 } })
    );
    assert_eq!(system.vote(77).unwrap().closed_at(), Some(2000));
    assert!(system.proposal(proposal).unwrap().is_actionable());
    assert_eq!(system.calculate_team_points_for_epoch(a, system.vote(77).unwrap().epoch_id()), Ok(0));
}

#[test]
fn vote_dates_are_set_from_days() {
    let (mut system, _epoch, _a, _b, proposal, raffle) = with_raffle();
    system.create_formal_vote_at(5, 123, proposal, raffle, None).unwrap();
    assert_eq!(system.vote(5).unwrap().opened_at(), 123);
    system.update_vote_dates(5, Some(19000), Some(19001)).unwrap();
    assert_eq!(system.vote(5).unwrap().opened_at(), 19000 * DAY);
    assert_eq!(system.vote(5).unwrap().closed_at(), Some(19001 * DAY + 86399));
    system.update_vote_dates(5, None, None).unwrap();
    assert_eq!(system.vote(5).unwrap().opened_at(), 19000 * DAY);
    assert_eq!(system.update_vote_dates(6, None, None).unwrap_err(), BudgetError::VoteNotFound);
}

#[test]
fn whole_vote_resolves_the_proposal() {
    let (mut system, epoch, a, b, proposal, _raffle) = with_raffle();
    let passed = system
        .create_and_process_vote_at(
            9,
            5000,
            "Proposal 1",
            vec![ballot("Team A", VoteChoice::Yes)],
            vec![ballot("Team B", VoteChoice::No)],
            Some(19000),
            Some(19002),
        )
        .unwrap();
    assert!(passed);
    let vote = system.vote(9).unwrap();
    assert!(vote.is_closed());
    assert!(!vote.is_historical());
    assert_eq!(vote.opened_at(), 19000 * DAY);
    assert_eq!(vote.closed_at(), Some(19002 * DAY + 86399));
    assert_eq!(vote.vote_counts(), Some((VoteCount { yes: 1, no: 0 }, VoteCount { yes: 0, no: 1 })));
    let resolved = system.proposal(proposal).unwrap();
    assert_eq!(resolved.resolution(), Some(Resolution::Approved));
    assert_eq!(resolved.resolved_at(), Some(19002));
    assert_eq!(resolved.status(), ProposalStatus::Open);
    assert!(!resolved.is_actionable());
    assert_eq!(system.get_team_points_for_epoch(a, epoch), Ok(5));
    assert_eq!(system.get_team_points_for_epoch(b, epoch), Ok(2));
    assert_eq!(system.get_total_points_for_epoch(epoch), Ok(7));
    assert_eq!(system.get_team_vote_counts(a, epoch), (1, 0));
    assert_eq!(system.get_team_vote_counts(b, epoch), (0, 1));

    let before = snapshot(&system);
    assert_eq!(
        system
            .create_and_process_vote("Proposal 1", vec![ballot("Team A", VoteChoice::Yes)], vec![], None, None)
            .unwrap_err(),
        BudgetError::ResolutionAlreadySet
    );
    assert_eq!(snapshot(&system), before);
}

#[test]
fn whole_vote_is_refused_as_a_whole() {
    let (mut system, _epoch, _a, b, _proposal, _raffle) = with_raffle();
    let before = snapshot(&system);
    let refused = |system: &mut BudgetSystem, counted: Vec<NamedBallot>, uncounted: Vec<NamedBallot>| {
        system.create_and_process_vote("Proposal 1", counted, uncounted, None, None).unwrap_err()
    };
    assert_eq!(
        refused(&mut system, vec![ballot("Team B", VoteChoice::Yes)], vec![]),
        BudgetError::TeamNotEligible { team: b }
    );
    assert_eq!(
        refused(&mut system, vec![ballot("Team A", VoteChoice::Yes)], vec![ballot("Nobody", VoteChoice::Yes)]),
        BudgetError::TeamNotFound
    );
    assert_eq!(
        system.create_and_process_vote("Nothing", vec![], vec![], None, None).unwrap_err(),
        BudgetError::ProposalNotFound
    );
    assert_eq!(snapshot(&system), before);
    let (id, passed) = system
        .create_and_process_vote("Proposal 1", vec![ballot("Team A", VoteChoice::No)], vec![], None, None)
        .unwrap();
    assert!(!passed);
    assert_eq!(system.state.votes.last().unwrap().id(), id);
    assert_eq!(
        system.proposal(system.get_proposal_id_by_name("Proposal 1").unwrap()).unwrap().resolution(),
        Some(Resolution::Rejected)
    );
}

#[test]
fn closing_a_vote_resolves_its_proposal() {
    let (mut system, _epoch, a, _b, proposal, raffle) = with_raffle();
    system.create_formal_vote_at(5, 100, proposal, raffle, None).unwrap();
    system.cast_votes(5, vec![Ballot { team_id: a, choice: VoteChoice::No }]).unwrap();
    let before = snapshot(&system);
    assert_eq!(
        system.close_vote_and_update_proposal_at(5, proposal + 1, None, 200).unwrap_err(),
        BudgetError::ProposalNotFound
    );
    assert_eq!(
        system.close_vote_and_update_proposal_at(6, proposal, None, 200).unwrap_err(),
        BudgetError::VoteNotFound
    );
    assert_eq!(snapshot(&system), before);
    assert_eq!(system.close_vote_and_update_proposal_at(5, proposal, Some(19000), 200), Ok(false));
    assert_eq!(system.proposal(proposal).unwrap().resolution(), Some(Resolution::Rejected));
    assert_eq!(system.proposal(proposal).unwrap().resolved_at(), Some(19000));
    assert_eq!(system.vote(5).unwrap().closed_at(), Some(200));
    assert_eq!(
        system.close_vote_and_update_proposal_at(5, proposal, None, 300).unwrap_err(),
        BudgetError::VoteAlreadyClosed
    );
}

#[test]
fn vote_of_the_past_is_imported_with_its_result() {
    let (mut system, epoch, a, b, proposal, raffle) = with_raffle();
    let raffle_copy = system.raffle(raffle).unwrap().clone();
    assert_eq!(
        system.determine_participation(&raffle_copy, &names(&["Team B"]), &vec![]).unwrap(),
        (vec![b], vec![a])
    );
    assert_eq!(
        system.determine_participation(&raffle_copy, &vec![], &names(&["Team B"])).unwrap(),
        (vec![a], vec![b])
    );
    assert_eq!(
        system.determine_participation(&raffle_copy, &vec![], &vec![]).unwrap(),
        (vec![a, b], vec![])
    );
    system
        .import_historical_vote_at(31, 9000, "Proposal 1", true, vec![], names(&["Team B"]), Some(30), None)
        .unwrap();
    let vote = system.vote(31).unwrap();
    assert!(vote.is_historical());
    assert!(vote.is_closed());
    assert_eq!(vote.opened_at(), 9000);
    assert_eq!(vote.closed_at(), Some(9000));
    assert_eq!(
        vote.result(),
        Some(&VoteResult::Formal { counted: VoteCount::new(), uncounted: VoteCount::new(), passed: true })
    );
    assert_eq!(vote.points_for(a), 30);
    assert_eq!(vote.points_for(b), 0);
    assert_eq!(system.proposal(proposal).unwrap().resolution(), Some(Resolution::Approved));
    assert!(system.proposal(proposal).unwrap().is_closed());
    assert_eq!(system.get_team_points_for_epoch(a, epoch), Ok(30));
    assert_eq!(system.get_team_points_history(a), Ok(vec![(epoch, 30)]));

    let before = snapshot(&system);
    assert_eq!(
        system
            .import_historical_vote("Proposal 1", false, vec![], vec![], None, None)
            .unwrap_err(),
        BudgetError::ProposalAlreadyClosed
    );
    assert_eq!(
        system.import_historical_vote("Nothing", false, vec![], vec![], None, None).unwrap_err(),
        BudgetError::ProposalNotFound
    );
    assert_eq!(snapshot(&system), before);
}

/// An epoch with a reward of 1000, in which Team A earned 30 points and
/// Team B earned 70.
fn epoch_with_points() -> (BudgetSystem, u128, u128, u128) {
    let mut system = BudgetSystem::new(
        SystemConfig { counted_vote_points: 30, uncounted_vote_points: 70, ..test_config() },
        0,
    );
    let epoch = create_active_epoch(&mut system, "Epoch 1", 30);
    system.set_epoch_reward("USDC", 1000).unwrap();
    let a = system.add_team("Team A".to_string(), "Alice".to_string(), Some(vec![1000, 2000, 3000])).unwrap();
    let b = system.add_team("Team B".to_string(), "Bob".to_string(), None).unwrap();
    system.add_proposal("Proposal 1".to_string(), None, None, None, None, None).unwrap();
    system
        .import_predefined_raffle("Proposal 1", names(&["Team A"]), names(&["Team B"]), 1, 1)
        .unwrap();
    system
        .create_and_process_vote(
            "Proposal 1",
            vec![ballot("Team A", VoteChoice::Yes)],
            vec![ballot("Team B", VoteChoice::Yes)],
            None,
            None,
        )
        .unwrap();
    (system, epoch, a, b)
}

#[test]
fn reward_is_shared_by_points_at_the_close_of_the_epoch() {
    let (mut system, epoch, a, b) = epoch_with_points();
    assert_eq!(system.get_team_points_for_epoch(a, epoch), Ok(30));
    assert_eq!(system.get_team_points_for_epoch(b, epoch), Ok(70));
    system.close_epoch(None).unwrap();
    let closed = system.epoch(epoch).unwrap();
    assert!(closed.is_closed());
    assert_eq!(closed.team_reward(a), Some(TeamReward { points: 30, total_points: 100, amount: 300 }));
    assert_eq!(closed.team_reward(b), Some(TeamReward { points: 70, total_points: 100, amount: 700 }));
    assert_eq!(system.state.current_epoch, None);
    assert!(system.get_current_epoch().is_none());
}

#[test]
fn closing_an_epoch_twice_fails_and_keeps_the_rewards() {
    let (mut system, epoch, _a, _b) = epoch_with_points();
    system.close_epoch(Some("Epoch 1")).unwrap();
    let rewards = system.epoch(epoch).unwrap().team_rewards().clone();
    let before = snapshot(&system);
    assert_eq!(system.close_epoch(Some("Epoch 1")).unwrap_err(), BudgetError::EpochAlreadyClosed);
    assert_eq!(system.close_epoch(None).unwrap_err(), BudgetError::NoActiveEpoch);
    assert_eq!(system.epoch(epoch).unwrap().team_rewards(), &rewards);
    assert_eq!(snapshot(&system), before);
}

#[test]
fn epoch_with_an_open_proposal_is_not_closed() {
    let (mut system, epoch, _a, _b) = epoch_with_points();
    system.add_proposal("Still open".to_string(), None, None, None, None, None).unwrap();
    let before = snapshot(&system);
    let refused = system.close_epoch(None).unwrap_err();
    assert_eq!(refused, BudgetError::ActionableProposalsRemaining { count: 1 });
    assert_eq!(refused.kind(), ErrorKind::InvalidState);
    assert_eq!(snapshot(&system), before);
    assert!(system.epoch(epoch).unwrap().is_active());
    assert!(system.epoch(epoch).unwrap().team_rewards().is_empty());
}

#[test]
fn epoch_close_needs_a_reward_and_points() {
    let mut system = create_test_budget_system();
    assert_eq!(system.close_epoch(None).unwrap_err(), BudgetError::NoActiveEpoch);
    assert_eq!(system.close_epoch(Some("E")).unwrap_err(), BudgetError::EpochNotFound);
    system.create_epoch_with_id(1, "Planned", 0, 10).unwrap();
    assert_eq!(system.close_epoch(Some("Planned")).unwrap_err(), BudgetError::EpochNotActive);
    system.activate_epoch(1).unwrap();
    system.add_team("A".to_string(), "a".to_string(), None).unwrap();
    let before = snapshot(&system);
    assert_eq!(system.close_epoch(None).unwrap_err(), BudgetError::RewardNotSet);
    assert_eq!(snapshot(&system), before);
    system.set_epoch_reward("USDC", 0).unwrap();
    assert_eq!(system.close_epoch(None).unwrap_err(), BudgetError::RewardNotSet);
    system.set_epoch_reward("USDC", 10).unwrap();
    let with_reward = snapshot(&system);
    let refused = system.close_epoch(None).unwrap_err();
    assert_eq!(refused, BudgetError::NoPointsEarned);
    assert_eq!(refused.kind(), ErrorKind::ArithmeticImpossibility);
    assert_eq!(snapshot(&system), with_reward);
}

#[test]
fn points_of_an_unknown_epoch() {
    let system = create_test_budget_system();
    assert_eq!(system.get_team_points_for_epoch(1, 2), Err(BudgetError::EpochNotFound));
    assert_eq!(system.calculate_team_points_for_epoch(1, 2), Ok(0));
    assert_eq!(system.get_total_points_for_epoch(2), Ok(0));
    assert_eq!(system.get_team_points_history(1), Ok(vec![]));
}

#[test]
fn error_kinds() {
    assert_eq!(BudgetError::TeamNotFound.kind(), ErrorKind::NotFound);
    assert_eq!(BudgetError::VoteNotFound.kind(), ErrorKind::NotFound);
    assert_eq!(BudgetError::VoteAlreadyClosed.kind(), ErrorKind::InvalidState);
    assert_eq!(BudgetError::OverlappingEpoch.kind(), ErrorKind::ConstraintViolation);
    assert_eq!(BudgetError::TeamNotEligible { team: 1 }.kind(), ErrorKind::ConstraintViolation);
    assert_eq!(
        BudgetError::EarnerSeatsExceedTotal { max_earner_seats: 2, total_counted_seats: 1 }.kind(),
        ErrorKind::ConstraintViolation
    );
    assert_eq!(BudgetError::OracleFailure.kind(), ErrorKind::ExternalDependencyFailure);
    assert_eq!(BudgetError::NoPointsEarned.kind(), ErrorKind::ArithmeticImpossibility);
}

#[test]
fn every_vote_on_a_proposal_of_the_epoch_credits_its_points() {
    let (mut system, epoch, a, b, proposal, raffle) = with_raffle();
    system.create_informal_vote_at(40, 10, proposal).unwrap();
    system.create_formal_vote_at(41, 20, proposal, raffle, None).unwrap();
    system.create_formal_vote_at(42, 30, proposal, raffle, None).unwrap();
    system.cast_votes(40, vec![Ballot { team_id: a, choice: VoteChoice::Yes }]).unwrap();
    system
        .cast_votes(
            41,
            vec![
                Ballot { team_id: a, choice: VoteChoice::Yes },
                Ballot { team_id: b, choice: VoteChoice::Yes },
            ],
        )
        .unwrap();
    system.cast_votes(42, vec![Ballot { team_id: a, choice: VoteChoice::No }]).unwrap();
    assert_eq!(system.calculate_team_points_for_epoch(a, epoch), Ok(10));
    assert_eq!(system.get_team_points_for_epoch(a, epoch), Ok(10));
    assert_eq!(system.get_team_points_for_epoch(b, epoch), Ok(2));
    assert_eq!(system.get_total_points_for_epoch(epoch), Ok(12));
    assert_eq!(system.get_team_points_history(a), Ok(vec![(epoch, 10)]));
    let records = system.team_participation(a, epoch).unwrap();
    let points: Vec<(u128, u32)> = records.iter().map(|r| (r.vote_id, r.points)).collect();
    assert_eq!(points, vec![(40, 0), (41, 5), (42, 5)]);
    assert_eq!(records.iter().map(|r| u64::from(r.points)).sum::<u64>(), 10);
}

#[test]
fn an_informal_vote_does_not_hide_the_points_of_a_formal_one() {
    let (mut system, epoch, a, b, proposal, raffle) = with_raffle();
    system.set_epoch_reward("USDC", 700).unwrap();
    system.create_informal_vote_at(40, 10, proposal).unwrap();
    system.create_formal_vote_at(41, 20, proposal, raffle, None).unwrap();
    system
        .cast_votes(
            41,
            vec![
                Ballot { team_id: a, choice: VoteChoice::Yes },
                Ballot { team_id: b, choice: VoteChoice::Yes },
            ],
        )
        .unwrap();
    system.close_vote_at(40, 50).unwrap();
    assert_eq!(system.close_vote_and_update_proposal_at(41, proposal, None, 60), Ok(true));
    system.close_epoch(None).unwrap();
    let closed = system.epoch(epoch).unwrap();
    assert_eq!(closed.team_reward(a), Some(TeamReward { points: 5, total_points: 7, amount: 500 }));
    assert_eq!(closed.team_reward(b), Some(TeamReward { points: 2, total_points: 7, amount: 200 }));
}

#[test]
fn votes_on_proposals_of_another_epoch_credit_nothing_here() {
    let (mut system, epoch, a, _b, proposal, raffle) = with_raffle();
    system.create_epoch_with_id(9000, "Later", i64::MAX - 10, i64::MAX).unwrap();
    system.create_formal_vote_at(41, 20, proposal, raffle, None).unwrap();
    system.cast_votes(41, vec![Ballot { team_id: a, choice: VoteChoice::Yes }]).unwrap();
    assert_eq!(system.get_team_points_for_epoch(a, epoch), Ok(5));
    assert_eq!(system.get_team_points_for_epoch(a, 9000), Ok(0));
    assert_eq!(system.team_participation(a, 9000), Ok(vec![]));
}
