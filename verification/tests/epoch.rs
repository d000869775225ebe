use robokitty::epoch::{allocate_rewards, Epoch, EpochStatus, TeamPoints, TeamReward, TeamRewardEntry};
use robokitty::BudgetError;

fn points(team_id: u128, points: u64) -> TeamPoints {
    TeamPoints { team_id, points }
}

#[test]
fn thirty_and_seventy_points_share_a_thousand() {
    let rewards = allocate_rewards(&vec![points(1, 30), points(2, 70)], 1000).unwrap();
    assert_eq!(
        rewards,
        vec![
            TeamRewardEntry {
                team_id: 1,
                reward: TeamReward { points: 30, total_points: 100, amount: 300 }
            },
            TeamRewardEntry {
                team_id: 2,
                reward: TeamReward { points: 70, total_points: 100, amount: 700 }
            },
        ]
    );
    assert_eq!(rewards[0].reward.amount(), 300);
    assert_eq!(rewards[1].reward.points(), 70);
    assert_eq!(rewards[1].reward.total_points(), 100);
}

#[test]
fn shares_are_rounded_down_and_stay_within_the_pool() {
    let rewards = allocate_rewards(&vec![points(1, 1), points(2, 1), points(3, 1)], 100).unwrap();
    let amounts: Vec<u64> = rewards.iter().map(|r| r.reward.amount).collect();
    assert_eq!(amounts, vec![33, 33, 33]);
    assert!(amounts.iter().sum::<u64>() <= 100);
    let big = allocate_rewards(&vec![points(1, u64::MAX - 1), points(2, 1)], u64::MAX).unwrap();
    assert_eq!(big[0].reward.amount, u64::MAX - 1);
    assert_eq!(big[1].reward.amount, 1);
    let none = allocate_rewards(&vec![points(1, 0), points(2, 5)], 10).unwrap();
    assert_eq!(none[0].reward.amount, 0);
    assert_eq!(none[1].reward.amount, 10);
}

#[test]
fn no_points_cannot_be_divided() {
    assert_eq!(allocate_rewards(&Vec::new(), 1000).unwrap_err(), BudgetError::NoPointsEarned);
    assert_eq!(
        allocate_rewards(&vec![points(1, 0), points(2, 0)], 1000).unwrap_err(),
        BudgetError::NoPointsEarned
    );
}

#[test]
fn too_many_points_are_reported() {
    assert_eq!(
        allocate_rewards(&vec![points(1, u64::MAX), points(2, 1)], 1000).unwrap_err(),
        BudgetError::PointsOverflow
    );
}

#[test]
fn epoch_lifecycle() {
    assert_eq!(Epoch::new(1, "E".to_string(), 10, 10).unwrap_err(), BudgetError::InvalidDateRange);
    assert_eq!(Epoch::new(1, "E".to_string(), 11, 10).unwrap_err(), BudgetError::InvalidDateRange);
    let mut epoch = Epoch::new(1, "E".to_string(), 10, 20).unwrap();
    assert_eq!(epoch.status(), EpochStatus::Planned);
    assert!(epoch.is_planned());
    assert_eq!(epoch.close(Vec::new()).unwrap_err(), BudgetError::EpochNotActive);
    epoch.set_dates(30, 40).unwrap();
    assert_eq!((epoch.start_date(), epoch.end_date()), (30, 40));
    assert_eq!(epoch.set_dates(40, 40).unwrap_err(), BudgetError::InvalidDateRange);
    epoch.activate().unwrap();
    assert!(epoch.is_active());
    assert_eq!(epoch.activate().unwrap_err(), BudgetError::EpochNotPlanned);
    assert_eq!(epoch.set_dates(1, 2).unwrap_err(), BudgetError::EpochNotPlanned);
    epoch.set_reward("USDC".to_string(), 1000).unwrap();
    assert_eq!(epoch.reward().unwrap().token(), "USDC");
    assert_eq!(epoch.reward().unwrap().amount(), 1000);
    epoch.add_proposal(7);
    epoch.add_proposal(8);
    epoch.add_proposal(7);
    assert_eq!(epoch.associated_proposals(), &vec![7, 8]);
    let rewards = allocate_rewards(&vec![points(5, 1)], 1000).unwrap();
    epoch.close(rewards.clone()).unwrap();
    assert!(epoch.is_closed());
    assert_eq!(epoch.team_rewards(), &rewards);
    assert_eq!(epoch.team_reward(5).unwrap().amount, 1000);
    assert_eq!(epoch.team_reward(6), None);
    assert_eq!(epoch.close(Vec::new()).unwrap_err(), BudgetError::EpochAlreadyClosed);
    assert_eq!(epoch.set_reward("X".to_string(), 1).unwrap_err(), BudgetError::EpochAlreadyClosed);
    assert_eq!(epoch.team_rewards(), &rewards);
}

#[test]
fn overlap_is_strict() {
    let epoch = Epoch::new(1, "E".to_string(), 10, 20).unwrap();
    assert!(epoch.overlaps(19, 30));
    assert!(epoch.overlaps(0, 11));
    assert!(epoch.overlaps(12, 13));
    assert!(epoch.overlaps(0, 100));
    assert!(!epoch.overlaps(20, 30));
    assert!(!epoch.overlaps(0, 10));
}
