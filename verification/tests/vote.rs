use robokitty::raffle::RaffleResult;
use robokitty::vote::{
    count_ballots, record_ballot, Ballot, Threshold, Vote, VoteChoice, VoteCount,
    VoteParticipation, VoteResult, VoteStatus, VoteType,
};
use robokitty::BudgetError;

fn threshold(numerator: u32, denominator: u32) -> Threshold {
    Threshold::new(numerator, denominator).unwrap()
}

fn formal(threshold: Threshold) -> Vote {
    Vote::new(
        1,
        2,
        3,
        VoteType::Formal {
            raffle_id: 4,
            total_eligible_seats: 10,
            threshold,
            counted_points: 5,
            uncounted_points: 2,
        },
        false,
        1000,
    )
}

fn seats() -> RaffleResult {
    RaffleResult::new((1..=10).collect(), vec![11, 12, 13])
}

fn passed(vote: &Vote) -> bool {
    match vote.result().unwrap() {
        VoteResult::Formal { passed, .. } => *passed,
        VoteResult::Informal { .. } => panic!("formal result expected"),
    }
}

fn run(yes: u128, no: u128, threshold: Threshold) -> Vote {
    let seats = seats();
    let mut vote = formal(threshold);
    for team in 1..=yes {
        vote.cast_vote(team, VoteChoice::Yes, Some(&seats)).unwrap();
    }
    for team in yes + 1..=yes + no {
        vote.cast_vote(team, VoteChoice::No, Some(&seats)).unwrap();
    }
    vote.close(2000).unwrap();
    vote
}

#[test]
fn threshold_must_be_a_fraction_between_zero_and_one() {
    assert_eq!(Threshold::new(7, 10).unwrap(), Threshold { numerator: 7, denominator: 10 });
    assert_eq!(Threshold::new(1, 0).unwrap_err(), BudgetError::InvalidThreshold);
    assert_eq!(Threshold::new(11, 10).unwrap_err(), BudgetError::InvalidThreshold);
    assert!(Threshold::new(0, 1).is_ok());
    assert!(Threshold::new(1, 1).is_ok());
}

#[test]
fn seven_of_ten_meets_seventy_percent_exactly() {
    let vote = run(7, 3, threshold(7, 10));
    assert!(passed(&vote));
    assert_eq!(vote.vote_counts(), Some((VoteCount { yes: 7, no: 3 }, VoteCount { yes: 0, no: 0 })));
}

#[test]
fn eight_of_ten_passes_seventy_percent() {
    assert!(passed(&run(8, 2, threshold(7, 10))));
}

#[test]
fn six_of_ten_fails_seventy_percent() {
    assert!(!passed(&run(6, 4, threshold(7, 10))));
    assert!(!passed(&run(0, 1, threshold(7, 10))));
}

#[test]
fn no_counted_ballot_means_not_passed() {
    let vote = run(0, 0, threshold(0, 1));
    assert!(!passed(&vote));
    assert!(threshold(0, 1).is_met(VoteCount { yes: 0, no: 1 }));
    assert!(!threshold(0, 1).is_met(VoteCount { yes: 0, no: 0 }));
}

#[test]
fn threshold_is_compared_exactly() {
    let t = threshold(2, 3);
    assert!(t.is_met(VoteCount { yes: 2, no: 1 }));
    assert!(!t.is_met(VoteCount { yes: 199, no: 100 }));
    assert!(t.is_met(VoteCount { yes: 200, no: 100 }));
    assert!(threshold(1, 1).is_met(VoteCount { yes: u64::MAX, no: 0 }));
    assert!(!threshold(1, 1).is_met(VoteCount { yes: u64::MAX, no: 1 }));
    assert!(threshold(u32::MAX - 1, u32::MAX).is_met(VoteCount { yes: u64::MAX, no: 1 }));
}

#[test]
fn uncounted_ballots_do_not_decide() {
    let seats = seats();
    let mut vote = formal(threshold(7, 10));
    vote.cast_vote(1, VoteChoice::Yes, Some(&seats)).unwrap();
    vote.cast_vote(11, VoteChoice::No, Some(&seats)).unwrap();
    vote.cast_vote(12, VoteChoice::No, Some(&seats)).unwrap();
    vote.cast_vote(13, VoteChoice::Yes, Some(&seats)).unwrap();
    vote.close(5).unwrap();
    assert!(passed(&vote));
    assert_eq!(vote.vote_counts(), Some((VoteCount { yes: 1, no: 0 }, VoteCount { yes: 1, no: 2 })));
}

#[test]
fn abstention_counts_for_neither_side() {
    let seats = seats();
    let mut vote = formal(threshold(1, 2));
    vote.cast_vote(1, VoteChoice::Abstain, Some(&seats)).unwrap();
    vote.cast_vote(2, VoteChoice::Yes, Some(&seats)).unwrap();
    vote.close(5).unwrap();
    assert_eq!(vote.vote_counts().unwrap().0, VoteCount { yes: 1, no: 0 });
    assert!(passed(&vote));
    assert_eq!(vote.points_for(1), 5);
}

#[test]
fn a_second_ballot_replaces_the_first() {
    let seats = seats();
    let mut twice = formal(threshold(7, 10));
    twice.cast_vote(1, VoteChoice::Yes, Some(&seats)).unwrap();
    twice.cast_vote(2, VoteChoice::Yes, Some(&seats)).unwrap();
    twice.cast_vote(1, VoteChoice::No, Some(&seats)).unwrap();
    let mut once = formal(threshold(7, 10));
    once.cast_vote(1, VoteChoice::No, Some(&seats)).unwrap();
    once.cast_vote(2, VoteChoice::Yes, Some(&seats)).unwrap();
    twice.close(9).unwrap();
    once.close(9).unwrap();
    assert_eq!(twice.vote_counts(), once.vote_counts());
    assert_eq!(twice.vote_counts().unwrap().0, VoteCount { yes: 1, no: 1 });
    match twice.participation() {
        VoteParticipation::Formal { counted, uncounted } => {
            assert_eq!(
                counted,
                &vec![
                    Ballot { team_id: 1, choice: VoteChoice::No },
                    Ballot { team_id: 2, choice: VoteChoice::Yes }
                ]
            );
            assert!(uncounted.is_empty());
        }
        VoteParticipation::Informal(_) => panic!("formal participation expected"),
    }
}

#[test]
fn ineligible_team_is_refused_and_nothing_is_recorded() {
    let seats = seats();
    let mut vote = formal(threshold(7, 10));
    assert_eq!(
        vote.cast_vote(99, VoteChoice::Yes, Some(&seats)).unwrap_err(),
        BudgetError::TeamNotEligible { team: 99 }
    );
    assert_eq!(
        vote.cast_vote(1, VoteChoice::Yes, None).unwrap_err(),
        BudgetError::RaffleNotCompleted
    );
    vote.close(5).unwrap();
    assert_eq!(vote.vote_counts(), Some((VoteCount::new(), VoteCount::new())));
    assert_eq!(vote.points_for(99), 0);
}

#[test]
fn closed_vote_takes_no_ballot_and_is_not_closed_again() {
    let seats = seats();
    let mut vote = formal(threshold(7, 10));
    vote.cast_vote(1, VoteChoice::Yes, Some(&seats)).unwrap();
    assert_eq!(vote.status(), VoteStatus::Open);
    assert!(vote.result().is_none());
    vote.close(77).unwrap();
    assert!(vote.is_closed());
    assert_eq!(vote.closed_at(), Some(77));
    assert_eq!(vote.opened_at(), 1000);
    assert_eq!(vote.cast_vote(2, VoteChoice::No, Some(&seats)).unwrap_err(), BudgetError::VoteClosed);
    assert_eq!(vote.add_participant(2, true).unwrap_err(), BudgetError::VoteClosed);
    assert_eq!(vote.close(78).unwrap_err(), BudgetError::VoteAlreadyClosed);
    assert_eq!(vote.close_historical(true, 78).unwrap_err(), BudgetError::VoteAlreadyClosed);
    assert_eq!(vote.closed_at(), Some(77));
    assert_eq!(vote.vote_counts().unwrap().0, VoteCount { yes: 1, no: 0 });
}

#[test]
fn all_ballots_or_none() {
    let seats = seats();
    let mut vote = formal(threshold(7, 10));
    let ballots = vec![
        Ballot { team_id: 1, choice: VoteChoice::Yes },
        Ballot { team_id: 50, choice: VoteChoice::Yes },
        Ballot { team_id: 60, choice: VoteChoice::Yes },
    ];
    assert_eq!(
        vote.cast_ballots(&ballots, Some(&seats)).unwrap_err(),
        BudgetError::TeamNotEligible { team: 50 }
    );
    assert_eq!(vote.points_for(1), 0);
    let good = vec![
        Ballot { team_id: 1, choice: VoteChoice::Yes },
        Ballot { team_id: 11, choice: VoteChoice::No },
        Ballot { team_id: 1, choice: VoteChoice::No },
    ];
    vote.cast_ballots(&good, Some(&seats)).unwrap();
    assert_eq!(vote.points_for(1), 5);
    assert_eq!(vote.points_for(11), 2);
    assert_eq!(vote.points_for(2), 0);
    vote.close(1).unwrap();
    assert_eq!(vote.vote_counts(), Some((VoteCount { yes: 0, no: 1 }, VoteCount { yes: 0, no: 1 })));
}

#[test]
fn informal_vote_counts_everyone_and_credits_nothing() {
    let mut vote = Vote::new(1, 2, 3, VoteType::Informal, false, 0);
    vote.cast_vote(500, VoteChoice::Yes, None).unwrap();
    vote.cast_vote(501, VoteChoice::No, None).unwrap();
    vote.cast_vote(502, VoteChoice::Yes, None).unwrap();
    vote.cast_vote(500, VoteChoice::No, None).unwrap();
    vote.close(10).unwrap();
    assert_eq!(vote.result(), Some(&VoteResult::Informal { count: VoteCount { yes: 1, no: 2 } }));
    assert_eq!(vote.vote_counts(), None);
    assert_eq!(vote.points_for(500), 0);
}

#[test]
fn historical_vote_has_participants_and_a_given_result() {
    let mut vote = formal(threshold(7, 10));
    vote.add_participant(1, true).unwrap();
    vote.add_participant(11, false).unwrap();
    vote.add_participant(1, true).unwrap();
    vote.close_historical(true, 4242).unwrap();
    assert!(vote.is_historical());
    assert!(passed(&vote));
    assert_eq!(vote.vote_counts(), Some((VoteCount::new(), VoteCount::new())));
    assert_eq!(vote.opened_at(), 4242);
    assert_eq!(vote.closed_at(), Some(4242));
    assert_eq!(vote.points_for(1), 5);
    assert_eq!(vote.points_for(11), 2);
    assert_eq!(vote.points_for(3), 0);
}

#[test]
fn recording_and_counting_ballots() {
    let mut ballots = Vec::new();
    record_ballot(&mut ballots, 1, VoteChoice::Yes);
    record_ballot(&mut ballots, 2, VoteChoice::No);
    record_ballot(&mut ballots, 3, VoteChoice::Abstain);
    record_ballot(&mut ballots, 2, VoteChoice::Yes);
    assert_eq!(ballots.len(), 3);
    assert_eq!(ballots[1], Ballot { team_id: 2, choice: VoteChoice::Yes });
    assert_eq!(count_ballots(&ballots), VoteCount { yes: 2, no: 0 });
    assert_eq!(count_ballots(&Vec::new()), VoteCount { yes: 0, no: 0 });
}
