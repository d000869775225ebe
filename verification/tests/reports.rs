use robokitty::proposal::Resolution;
use robokitty::reports::{ParticipationRecord, Seat};
use robokitty::system::{BudgetSystem, SystemConfig};
use robokitty::system_vote_flows::{ids_without, NamedBallot};
use robokitty::vote::{Ballot, Threshold, VoteChoice, VoteCount, VoteResult};
use robokitty::BudgetError;

fn names(list: &[&str]) -> Vec<String> {
    list.iter().map(|s| s.to_string()).collect()
}

fn ballot(team: &str, choice: VoteChoice) -> NamedBallot {
    NamedBallot { team: team.to_string(), choice }
}

struct World {
    system: BudgetSystem,
    epoch: u128,
    a: u128,
    b: u128,
    c: u128,
    d: u128,
}

/// Four teams; one proposal whose raffle seats A and B as counted and C and
/// D as uncounted.
fn world() -> World {
    let mut system = BudgetSystem::new(
        SystemConfig {
            future_block_offset: 10,
            default_total_counted_seats: 7,
            default_max_earner_seats: 5,
            default_qualified_majority_threshold: Threshold { numerator: 7, denominator: 10 },
            counted_vote_points: 5,
            uncounted_vote_points: 2,
        },
        0,
    );
    system.create_epoch_with_id(1000, "Epoch 1", 0, 86400 * 30).unwrap();
    system.activate_epoch(1000).unwrap();
    let a = system.add_team("A".to_string(), "a".to_string(), Some(vec![5000])).unwrap();
    let b = system.add_team("B".to_string(), "b".to_string(), None).unwrap();
    let c = system.add_team("C".to_string(), "c".to_string(), None).unwrap();
    let d = system.add_team("D".to_string(), "d".to_string(), None).unwrap();
    system.add_proposal_with_id(1, "One".to_string(), None, None, None, None, None).unwrap();
    system
        .import_predefined_raffle_with_id(10, "One", names(&["A", "B"]), names(&["C", "D"]), 2, 1)
        .unwrap();
    World { system, epoch: 1000, a, b, c, d }
}

#[test]
fn report_on_a_closed_vote() {
    let World { mut system, a, b, c, d, .. } = world();
    system.create_formal_vote_at(20, 100, 1, 10, None).unwrap();
    system
        .cast_votes(
            20,
            vec![
                Ballot { team_id: a, choice: VoteChoice::Yes },
                Ballot { team_id: c, choice: VoteChoice::No },
            ],
        )
        .unwrap();
    assert_eq!(system.generate_vote_report(20).unwrap_err(), BudgetError::VoteStillOpen);
    assert_eq!(system.generate_vote_report(21).unwrap_err(), BudgetError::VoteNotFound);
    system.close_vote_at(20, 200).unwrap();
    let report = system.generate_vote_report(20).unwrap();
    assert_eq!(report.counted, VoteCount { yes: 1, no: 0 });
    assert_eq!(report.uncounted, VoteCount { yes: 0, no: 1 });
    assert_eq!(report.absent, 1);
    assert_eq!(
        report.result,
        VoteResult::Formal {
            counted: VoteCount { yes: 1, no: 0 },
            uncounted: VoteCount { yes: 0, no: 1 },
            passed: true
        }
    );
    assert_eq!(report.deciding_teams, vec![a, b, c, d]);
    assert_eq!(report.total_eligible_seats, 2);
    assert_eq!(report.total_uncounted_seats, 2);
    assert_eq!(report.absent_counted, vec![b]);
    assert_eq!(report.absent_uncounted, vec![d]);
}

#[test]
fn report_needs_the_raffle_of_the_proposal() {
    let World { mut system, .. } = world();
    system.add_proposal_with_id(2, "Two".to_string(), None, None, None, None, None).unwrap();
    system.create_informal_vote_at(30, 100, 2).unwrap();
    system.close_vote_at(30, 200).unwrap();
    assert_eq!(system.generate_vote_report(30).unwrap_err(), BudgetError::RaffleNotFound);
}

#[test]
fn parts_that_a_team_took() {
    let World { mut system, epoch, a, b, c, .. } = world();
    system
        .create_and_process_vote_at(
            20,
            500,
            "One",
            vec![ballot("A", VoteChoice::Yes)],
            vec![ballot("C", VoteChoice::Abstain)],
            None,
            None,
        )
        .unwrap();
    system.add_proposal_with_id(2, "Two".to_string(), None, None, None, None, None).unwrap();
    system.create_informal_vote_at(30, 600, 2).unwrap();
    system.cast_votes(30, vec![Ballot { team_id: a, choice: VoteChoice::No }]).unwrap();
    let result = Some(VoteResult::Formal {
        counted: VoteCount { yes: 1, no: 0 },
        uncounted: VoteCount { yes: 0, no: 0 },
        passed: true,
    });
    assert_eq!(
        system.team_participation(a, epoch),
        Ok(vec![
            ParticipationRecord {
                vote_id: 20,
                proposal_id: 1,
                seat: Seat::Counted,
                points: 5,
                result,
                opened_at: 500
            },
            ParticipationRecord {
                vote_id: 30,
                proposal_id: 2,
                seat: Seat::Informal,
                points: 0,
                result: None,
                opened_at: 600
            },
        ])
    );
    assert_eq!(
        system.team_participation(c, epoch),
        Ok(vec![ParticipationRecord {
            vote_id: 20,
            proposal_id: 1,
            seat: Seat::Uncounted,
            points: 2,
            result,
            opened_at: 500
        }])
    );
    assert_eq!(system.team_participation(b, epoch), Ok(vec![]));
    assert_eq!(system.team_participation(a, 7), Err(BudgetError::EpochNotFound));
    assert_eq!(system.get_team_vote_counts(a, epoch), (1, 0));
    assert_eq!(system.get_team_vote_counts(c, epoch), (0, 1));
    assert_eq!(system.get_team_vote_counts(b, epoch), (0, 0));
    assert_eq!(system.get_team_vote_counts(a, 7), (0, 0));
    assert_eq!(system.get_team_points_history(a), Ok(vec![(epoch, 5)]));
    assert_eq!(system.get_team_points_history(c), Ok(vec![(epoch, 2)]));
    assert_eq!(system.vote_on_proposal(1), Some(0));
    assert_eq!(system.vote_on_proposal(2), Some(1));
    assert_eq!(system.vote_on_proposal(3), None);
}

#[test]
fn proposals_are_counted_by_their_standing() {
    let World { mut system, epoch, .. } = world();
    for (id, title) in [(2, "Two"), (3, "Three"), (4, "Four"), (5, "Five")] {
        system
            .add_proposal_with_id(id, title.to_string(), None, None, None, None, None)
            .unwrap();
    }
    system.close_with_reason(2, &Resolution::Approved).unwrap();
    system.close_with_reason(3, &Resolution::Retracted).unwrap();
    system.close_with_reason(4, &Resolution::Invalid).unwrap();
    system
        .create_and_process_vote_at(20, 1, "One", vec![ballot("A", VoteChoice::No)], vec![], None, None)
        .unwrap();
    let counts = system.count_proposals(epoch);
    assert_eq!(counts.total, 5);
    assert_eq!(counts.open, 1);
    assert_eq!(counts.approved, 1);
    assert_eq!(counts.rejected, 1);
    assert_eq!(counts.retracted, 1);
    assert_eq!(system.count_actionable_proposals(epoch), 1);
    let none = system.count_proposals(4711);
    assert_eq!((none.total, none.open), (0, 0));
}

#[test]
fn epoch_by_name_or_the_current_one() {
    let World { mut system, epoch, .. } = world();
    system.create_epoch_with_id(2000, "Epoch 2", 86400 * 30, 86400 * 60).unwrap();
    let (found, id) = system.get_current_or_specified_epoch(None).unwrap();
    assert_eq!((found.name(), id), ("Epoch 1", epoch));
    let (named, named_id) = system.get_current_or_specified_epoch(Some("Epoch 2")).unwrap();
    assert_eq!((named.name(), named_id), ("Epoch 2", 2000));
    assert_eq!(
        system.get_current_or_specified_epoch(Some("Epoch 3")).unwrap_err(),
        BudgetError::EpochNotFound
    );
    system.state.current_epoch = None;
    assert_eq!(system.get_current_or_specified_epoch(None).unwrap_err(), BudgetError::NoActiveEpoch);
    system.state.current_epoch = Some(5);
    assert_eq!(system.get_current_or_specified_epoch(None).unwrap_err(), BudgetError::EpochNotFound);
}

#[test]
fn seats_by_role() {
    let World { system, a, b, c, d, .. } = world();
    let raffle = system.raffle(10).unwrap();
    let result = raffle.result().unwrap();
    assert_eq!(raffle.teams_of_role(result.counted(), true), vec![a]);
    assert_eq!(raffle.teams_of_role(result.counted(), false), vec![b]);
    assert_eq!(raffle.teams_of_role(result.uncounted(), true), Vec::<u128>::new());
    assert_eq!(raffle.teams_of_role(result.uncounted(), false), vec![c, d]);
    assert!(raffle.snapshot_has_role(a, true));
    assert!(!raffle.snapshot_has_role(a, false));
    assert!(!raffle.snapshot_has_role(12345, false));
    assert_eq!(raffle.snapshot(c).unwrap().name(), "C");
    assert_eq!(raffle.snapshot(c).unwrap().representative(), "c");
    assert!(raffle.snapshot(12345).is_none());
    assert_eq!(ids_without(&vec![1, 2, 3, 2], &vec![2]), vec![1, 3]);
    assert_eq!(ids_without(&vec![1, 2], &vec![]), vec![1, 2]);
}
