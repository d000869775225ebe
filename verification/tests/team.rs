use robokitty::team::{integer_sqrt, Team, TeamStatus};
use robokitty::BudgetError;

#[test]
fn integer_sqrt_rounds_down() {
    assert_eq!(integer_sqrt(0), 0);
    assert_eq!(integer_sqrt(1), 1);
    assert_eq!(integer_sqrt(3), 1);
    assert_eq!(integer_sqrt(4), 2);
    assert_eq!(integer_sqrt(99), 9);
    assert_eq!(integer_sqrt(100), 10);
    assert_eq!(integer_sqrt(u128::MAX), u64::MAX);
}

#[test]
fn new_team_with_revenue_is_an_earner() {
    let team = Team::new(7, "A".to_string(), "rep".to_string(), Some(vec![1000, 2000, 3000])).unwrap();
    assert_eq!(team.id(), 7);
    assert_eq!(team.name(), "A");
    assert!(team.status().is_earner());
    assert_eq!(team.status().ticket_count(), 1);
}

#[test]
fn new_team_rejects_bad_revenue() {
    assert_eq!(Team::new(1, "A".to_string(), "r".to_string(), Some(vec![])).unwrap_err(), BudgetError::EmptyRevenue);
    assert_eq!(
        Team::new(1, "A".to_string(), "r".to_string(), Some(vec![1, 2, 3, 4])).unwrap_err(),
        BudgetError::TooManyRevenueSamples
    );
}

#[test]
fn ticket_counts_follow_the_square_root_of_average_revenue() {
    let count = |revenue: Vec<u64>| TeamStatus::Earner { trailing_monthly_revenue: revenue }.ticket_count();
    assert_eq!(count(vec![0]), 1);
    assert_eq!(count(vec![3000, 3000, 3000]), 1);
    assert_eq!(count(vec![4000, 4000, 4000]), 2);
    assert_eq!(count(vec![9000, 9000, 9000]), 3);
    assert_eq!(count(vec![100_000, 100_000, 100_000]), 10);
    assert_eq!(count(vec![u64::MAX, u64::MAX, u64::MAX]), 135_818_791);
    assert_eq!(TeamStatus::Supporter.ticket_count(), 1);
    assert_eq!(TeamStatus::Inactive.ticket_count(), 0);
}
