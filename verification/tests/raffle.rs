use robokitty::raffle::{
    decide, group_tickets_by_team, score_from_digest, score_ticket, score_tickets,
    ticket_seed_bytes, Raffle, RaffleConfig, RaffleResult, RaffleTicket, TeamSnapshot, TicketRange,
};
use robokitty::team::{Team, TeamStatus};
use robokitty::BudgetError;

fn earner(id: u128, name: &str, revenue: Vec<u64>) -> Team {
    Team::new(id, name.to_string(), "rep".to_string(), Some(revenue)).unwrap()
}

fn supporter(id: u128, name: &str) -> Team {
    Team::new(id, name.to_string(), "rep".to_string(), None).unwrap()
}

fn config(total: usize, max_earner: usize, randomness: &str) -> RaffleConfig {
    RaffleConfig::new(
        100,
        200,
        total,
        max_earner,
        Some(1),
        Some(2),
        Some(randomness.to_string()),
        None,
        None,
        false,
    )
}

fn drawn(teams: &Vec<Team>, config: RaffleConfig) -> Raffle {
    let mut raffle = Raffle::new(1, config, teams).unwrap();
    raffle.generate_ticket_scores().unwrap();
    raffle.select_deciding_teams().unwrap();
    raffle
}

#[test]
fn seed_is_randomness_underscore_index() {
    assert_eq!(ticket_seed_bytes("abc", 5), b"abc_5".to_vec());
    assert_eq!(ticket_seed_bytes("", 0), b"_0".to_vec());
    assert_eq!(ticket_seed_bytes("x", 10), b"x_10".to_vec());
    assert_eq!(
        ticket_seed_bytes("r", u64::MAX),
        b"r_18446744073709551615".to_vec()
    );
    assert_eq!(ticket_seed_bytes("h\u{e9}", 7), vec![b'h', 0xc3, 0xa9, b'_', b'7']);
}

#[test]
fn score_is_leading_eight_bytes_big_endian() {
    assert_eq!(score_from_digest(&[0, 0, 0, 0, 0, 0, 0, 1, 9, 9]), Some(1));
    assert_eq!(score_from_digest(&[1, 0, 0, 0, 0, 0, 0, 0]), Some(1 << 56));
    assert_eq!(score_from_digest(&[0xff; 32]), Some(u64::MAX));
    assert_eq!(
        score_from_digest(&[0x27, 0x33, 0x99, 0x82, 0x33, 0x73, 0x36, 0x3f, 0x62]),
        Some(0x273399823373363f)
    );
    assert_eq!(score_from_digest(&[1, 2, 3, 4, 5, 6, 7]), None);
    assert_eq!(score_from_digest(&[]), None);
}

#[test]
fn ticket_score_is_the_sha256_of_the_seed() {
    assert_eq!(score_ticket("abc", 5), 0x273399823373363f);
    assert_eq!(score_ticket("abc", 0), 17623209344444925058);
    assert_eq!(score_ticket("abc", 1), 15320029449578294943);
    assert_eq!(score_ticket("", 3), 18446180346495621491);
    assert_eq!(score_ticket("h\u{e9}llo", 2), 17799550697344110915);
    assert_eq!(score_ticket("abc", u64::MAX), 8130846349614292237);
}

#[test]
fn scoring_is_reproducible() {
    let tickets = vec![RaffleTicket::new(1, 0), RaffleTicket::new(1, 1), RaffleTicket::new(2, 2)];
    let once = score_tickets(&tickets, "mock_randomness_for_block_12355");
    let again = score_tickets(&tickets, "mock_randomness_for_block_12355");
    assert_eq!(once, again);
    assert_eq!(once[0].score(), 3891783312959266417);
    assert_eq!(once[1].score(), 15802267218550089162);
    assert_eq!(once[2].score(), 17198256745192964696);
    assert_eq!(once[2].team_id(), 2);
    assert_eq!(once[2].index(), 2);
    let other = score_tickets(&tickets, "abc");
    assert_ne!(once, other);
}

#[test]
fn raffle_with_more_earner_seats_than_seats_is_refused() {
    let teams = vec![supporter(1, "A")];
    let refused = Raffle::new(1, config(2, 3, "abc"), &teams).unwrap_err();
    assert_eq!(
        refused,
        BudgetError::EarnerSeatsExceedTotal { max_earner_seats: 3, total_counted_seats: 2 }
    );
    assert!(Raffle::new(1, config(3, 3, "abc"), &teams).is_ok());
}

#[test]
fn tickets_are_numbered_in_blocks_per_team() {
    let teams = vec![
        earner(1, "A", vec![12000, 12000, 12000]),
        supporter(2, "B"),
        earner(3, "C", vec![1000, 2000, 3000]),
    ];
    let raffle = Raffle::new(9, config(2, 1, ""), &teams).unwrap();
    assert_eq!(raffle.id(), 9);
    assert!(!raffle.is_completed());
    let owners: Vec<(u128, u64, u64)> = raffle
        .tickets()
        .iter()
        .map(|t| (t.team_id(), t.index(), t.score()))
        .collect();
    assert_eq!(owners, vec![(1, 0, 0), (1, 1, 0), (1, 2, 0), (2, 3, 0), (3, 4, 0)]);
    assert_eq!(
        group_tickets_by_team(raffle.tickets()),
        vec![
            TicketRange { team_id: 1, first: 0, last: 2 },
            TicketRange { team_id: 2, first: 3, last: 3 },
            TicketRange { team_id: 3, first: 4, last: 4 },
        ]
    );
    let held = raffle.team_tickets(1);
    assert_eq!((held.count, held.first, held.last, held.best_score), (3, Some(0), Some(2), Some(0)));
    let none = raffle.team_tickets(77);
    assert_eq!((none.count, none.first, none.last, none.best_score), (0, None, None, None));
    assert!(raffle.tickets().len() >= raffle.team_snapshots().len());
}

#[test]
fn inactive_and_excluded_teams_are_not_in_the_draw() {
    let mut idle = supporter(2, "B");
    idle.set_status(TeamStatus::Inactive).unwrap();
    let teams = vec![supporter(1, "A"), idle, supporter(3, "C"), supporter(4, "D")];
    let config = RaffleConfig::new(
        100,
        200,
        2,
        0,
        None,
        None,
        None,
        Some(vec![3]),
        None,
        false,
    );
    let raffle = Raffle::new(1, config, &teams).unwrap();
    let lineup: Vec<u128> = raffle.team_snapshots().iter().map(|s| s.id()).collect();
    assert_eq!(lineup, vec![1, 4]);
    assert_eq!(raffle.tickets().len(), 2);
    assert_eq!(raffle.config().initiation_block(), 0);
    assert_eq!(raffle.config().block_randomness(), "");
}

#[test]
fn custom_order_comes_first_then_registry_order() {
    let teams = vec![supporter(1, "A"), supporter(2, "B"), supporter(3, "C"), supporter(4, "D")];
    let config = RaffleConfig::new(
        100,
        200,
        2,
        0,
        None,
        None,
        None,
        None,
        Some(vec![3, 99, 1, 3]),
        true,
    );
    let raffle = Raffle::new(1, config, &teams).unwrap();
    let lineup: Vec<u128> = raffle.team_snapshots().iter().map(|s| s.id()).collect();
    assert_eq!(lineup, vec![3, 1, 2, 4]);
    let owners: Vec<u128> = raffle.tickets().iter().map(|t| t.team_id()).collect();
    assert_eq!(owners, vec![3, 1, 2, 4]);
}

#[test]
fn a_team_that_is_listed_twice_is_drawn_once() {
    let teams = vec![supporter(1, "A"), supporter(1, "A again"), supporter(2, "B")];
    let raffle = Raffle::new(1, config(2, 0, ""), &teams).unwrap();
    let lineup: Vec<u128> = raffle.team_snapshots().iter().map(|s| s.id()).collect();
    assert_eq!(lineup, vec![1, 2]);
}

#[test]
fn earner_with_best_score_is_counted_and_supporter_is_not() {
    let teams = vec![earner(1, "Team A", vec![1000, 2000, 3000]), supporter(2, "Team B")];
    let raffle = drawn(&teams, config(1, 1, "abc"));
    let a_best = raffle.team_tickets(1).best_score.unwrap();
    let b_best = raffle.team_tickets(2).best_score.unwrap();
    assert!(a_best > b_best);
    let result = raffle.result().unwrap();
    assert_eq!(result.counted(), &vec![1]);
    assert_eq!(result.uncounted(), &vec![2]);
    assert_eq!(raffle.deciding_teams(), vec![1, 2]);
    assert!(raffle.is_completed());
}

#[test]
fn earners_are_seated_before_supporters_whatever_the_scores() {
    let teams = vec![earner(1, "A", vec![1000, 2000, 3000]), supporter(2, "B")];
    let raffle = drawn(&teams, config(1, 1, "mock_randomness_for_block_12355"));
    assert!(raffle.team_tickets(1).best_score.unwrap() < raffle.team_tickets(2).best_score.unwrap());
    assert_eq!(raffle.result().unwrap().counted(), &vec![1]);
    let no_earner_seat = drawn(&teams, config(1, 0, "mock_randomness_for_block_12355"));
    assert_eq!(no_earner_seat.result().unwrap().counted(), &vec![2]);
    assert_eq!(no_earner_seat.result().unwrap().uncounted(), &vec![1]);
}

#[test]
fn supporters_are_ranked_by_score() {
    let teams = vec![supporter(10, "S0"), supporter(11, "S1"), supporter(12, "S2")];
    let by_abc = drawn(&teams, config(2, 0, "abc"));
    assert_eq!(by_abc.result().unwrap().counted(), &vec![10, 11]);
    assert_eq!(by_abc.result().unwrap().uncounted(), &vec![12]);
    let by_empty = drawn(&teams, config(2, 0, ""));
    assert_eq!(by_empty.result().unwrap().counted(), &vec![12, 11]);
    assert_eq!(by_empty.result().unwrap().uncounted(), &vec![10]);
}

fn snapshot(id: u128, status: TeamStatus) -> TeamSnapshot {
    TeamSnapshot { id, name: format!("T{}", id), representative: String::new(), status }
}

fn ticket(team_id: u128, index: u64, score: u64) -> RaffleTicket {
    RaffleTicket { team_id, index, score }
}

fn an_earner() -> TeamStatus {
    TeamStatus::Earner { trailing_monthly_revenue: vec![5000] }
}

#[test]
fn best_ticket_of_a_team_decides_and_ties_go_to_the_lower_index() {
    let snapshots = vec![
        snapshot(1, TeamStatus::Supporter),
        snapshot(2, TeamStatus::Supporter),
        snapshot(3, TeamStatus::Supporter),
    ];
    let tickets = vec![ticket(1, 0, 50), ticket(2, 1, 70), ticket(3, 2, 70), ticket(1, 3, 70)];
    let result = decide(&snapshots, &tickets, 0, 2);
    assert_eq!(result.counted(), &vec![2, 3]);
    assert_eq!(result.uncounted(), &vec![1]);
    let one = decide(&snapshots, &tickets, 0, 1);
    assert_eq!(one.counted(), &vec![2]);
    assert_eq!(one.uncounted(), &vec![1, 3]);
}

#[test]
fn earner_cap_holds_and_supporters_fill_the_rest() {
    let snapshots = vec![
        snapshot(1, an_earner()),
        snapshot(2, an_earner()),
        snapshot(3, an_earner()),
        snapshot(4, TeamStatus::Supporter),
        snapshot(5, TeamStatus::Supporter),
        snapshot(6, TeamStatus::Supporter),
    ];
    let tickets = vec![
        ticket(1, 0, 10),
        ticket(2, 1, 90),
        ticket(3, 2, 50),
        ticket(4, 3, 99),
        ticket(5, 4, 5),
        ticket(6, 5, 60),
    ];
    let result = decide(&snapshots, &tickets, 2, 4);
    assert_eq!(result.counted(), &vec![2, 3, 4, 6]);
    assert_eq!(result.uncounted(), &vec![1, 5]);
    assert_eq!(result.counted().len() + result.uncounted().len(), snapshots.len());
}

#[test]
fn missing_earners_are_made_up_for_by_supporters() {
    let snapshots = vec![
        snapshot(1, an_earner()),
        snapshot(4, TeamStatus::Supporter),
        snapshot(5, TeamStatus::Supporter),
        snapshot(6, TeamStatus::Supporter),
    ];
    let tickets = vec![ticket(1, 0, 1), ticket(4, 1, 20), ticket(5, 2, 30), ticket(6, 3, 10)];
    let result = decide(&snapshots, &tickets, 2, 3);
    assert_eq!(result.counted(), &vec![1, 5, 4]);
    assert_eq!(result.uncounted(), &vec![6]);
}

#[test]
fn fewer_teams_than_seats_are_all_counted() {
    let snapshots = vec![snapshot(1, an_earner()), snapshot(2, TeamStatus::Supporter)];
    let tickets = vec![ticket(1, 0, 1), ticket(2, 1, 2)];
    let result = decide(&snapshots, &tickets, 5, 7);
    assert_eq!(result.counted(), &vec![1, 2]);
    assert!(result.uncounted().is_empty());
}

#[test]
fn the_cap_keeps_seats_empty_where_supporters_run_out() {
    let snapshots = vec![snapshot(1, an_earner()), snapshot(2, an_earner())];
    let tickets = vec![ticket(1, 0, 1), ticket(2, 1, 2)];
    let result = decide(&snapshots, &tickets, 1, 2);
    assert_eq!(result.counted(), &vec![2]);
    assert_eq!(result.uncounted(), &vec![1]);
}

#[test]
fn empty_draw_gives_empty_result() {
    let raffle = drawn(&Vec::new(), config(3, 1, "abc"));
    let result = raffle.result().unwrap();
    assert!(result.counted().is_empty());
    assert!(result.uncounted().is_empty());
    assert!(raffle.tickets().is_empty());
}

#[test]
fn a_drawn_raffle_is_final() {
    let teams = vec![supporter(1, "A"), supporter(2, "B")];
    let mut raffle = drawn(&teams, config(1, 0, "abc"));
    let before: Vec<u128> = raffle.result().unwrap().counted().clone();
    assert_eq!(raffle.select_deciding_teams().unwrap_err(), BudgetError::RaffleAlreadyCompleted);
    assert_eq!(raffle.generate_ticket_scores().unwrap_err(), BudgetError::RaffleAlreadyCompleted);
    assert_eq!(
        raffle.set_result(RaffleResult::new(vec![2], vec![1])).unwrap_err(),
        BudgetError::RaffleAlreadyCompleted
    );
    assert_eq!(raffle.result().unwrap().counted(), &before);
}

#[test]
fn the_same_randomness_gives_the_same_seats() {
    let teams = vec![
        earner(1, "A", vec![30000, 30000, 30000]),
        earner(2, "B", vec![3000]),
        supporter(3, "C"),
        supporter(4, "D"),
        supporter(5, "E"),
    ];
    let first = drawn(&teams, config(3, 1, "0xdeadbeef"));
    let second = drawn(&teams, config(3, 1, "0xdeadbeef"));
    assert_eq!(first.tickets(), second.tickets());
    assert_eq!(first.result().unwrap().counted(), second.result().unwrap().counted());
    assert_eq!(first.result().unwrap().uncounted(), second.result().unwrap().uncounted());
    let result = first.result().unwrap();
    assert_eq!(result.counted().len(), 3);
    assert_eq!(result.counted().len() + result.uncounted().len(), 5);
    assert_eq!(first.teams_of_role(result.counted(), true).len(), 1);
    assert_eq!(first.teams_of_role(result.counted(), false).len(), 2);
}

#[test]
fn grouping_follows_adjacency() {
    let tickets = vec![ticket(1, 0, 0), ticket(2, 1, 0), ticket(2, 2, 0), ticket(1, 3, 0)];
    assert_eq!(
        group_tickets_by_team(&tickets),
        vec![
            TicketRange { team_id: 1, first: 0, last: 0 },
            TicketRange { team_id: 2, first: 1, last: 2 },
            TicketRange { team_id: 1, first: 3, last: 3 },
        ]
    );
    assert!(group_tickets_by_team(&Vec::new()).is_empty());
}

/// A small deterministic generator for the trials below.
struct Lcg(u64);

impl Lcg {
    fn next(&mut self) -> u64 {
        self.0 = self.0.wrapping_mul(6364136223846793005).wrapping_add(1442695040888963407);
        self.0 >> 33
    }
}

/// The draw written down the other way round: rank all teams at once, then
/// hand out the seats.
fn ranked_draw(
    snapshots: &Vec<TeamSnapshot>,
    tickets: &Vec<RaffleTicket>,
    max_earner_seats: usize,
    total_counted_seats: usize,
) -> (Vec<u128>, Vec<u128>) {
    let mut standings: Vec<(u128, bool, u64, u64)> = snapshots
        .iter()
        .map(|s| {
            let mut best: Option<(u64, u64)> = None;
            for t in tickets.iter().filter(|t| t.team_id == s.id) {
                best = match best {
                    Some((score, index)) if score > t.score || (score == t.score && index < t.index) => {
                        Some((score, index))
                    }
                    _ => Some((t.score, t.index)),
                };
            }
            let (score, index) = best.unwrap_or((0, u64::MAX));
            (s.id, s.status.is_earner(), score, index)
        })
        .collect();
    standings.sort_by(|a, b| b.2.cmp(&a.2).then(a.3.cmp(&b.3)));
    let cap = max_earner_seats.min(total_counted_seats);
    let mut counted: Vec<u128> =
        standings.iter().filter(|s| s.1).take(cap).map(|s| s.0).collect();
    let left = total_counted_seats - counted.len();
    counted.extend(standings.iter().filter(|s| !s.1).take(left).map(|s| s.0));
    let uncounted = snapshots.iter().map(|s| s.id).filter(|id| !counted.contains(id)).collect();
    (counted, uncounted)
}

#[test]
fn the_draw_agrees_with_ranking_all_teams_at_once() {
    let mut random = Lcg(2024);
    for _ in 0..300 {
        let teams = (random.next() % 8) as usize;
        let mut snapshots = Vec::new();
        let mut tickets = Vec::new();
        for team in 0..teams {
            let status = if random.next() % 2 == 0 { an_earner() } else { TeamStatus::Supporter };
            snapshots.push(snapshot(team as u128 + 1, status));
            for _ in 0..1 + random.next() % 3 {
                let index = tickets.len() as u64;
                tickets.push(ticket(team as u128 + 1, index, random.next() % 6));
            }
        }
        let total = (random.next() % 9) as usize;
        let max_earner = (random.next() % (total as u64 + 1)) as usize;
        let result = decide(&snapshots, &tickets, max_earner, total);
        let (counted, uncounted) = ranked_draw(&snapshots, &tickets, max_earner, total);
        assert_eq!(result.counted(), &counted);
        assert_eq!(result.uncounted(), &uncounted);
        assert_eq!(counted.len() + uncounted.len(), teams);
        assert!(counted.len() <= total);
        let earners = snapshots.iter().filter(|s| s.status.is_earner()).count();
        let earners_seated = counted
            .iter()
            .filter(|id| snapshots.iter().any(|s| s.id == **id && s.status.is_earner()))
            .count();
        assert!(earners_seated <= max_earner);
        if earners <= max_earner || teams - earners >= total - max_earner {
            assert_eq!(counted.len(), total.min(teams));
        }
    }
}

#[test]
fn snapshots_keep_the_status_of_the_day_of_the_raffle() {
    let mut teams = vec![earner(1, "A", vec![12000, 12000, 12000]), supporter(2, "B")];
    let raffle = Raffle::new(1, config(2, 1, "abc"), &teams).unwrap();
    teams[0].set_status(TeamStatus::Inactive).unwrap();
    teams[1].set_status(TeamStatus::Earner { trailing_monthly_revenue: vec![1] }).unwrap();
    assert!(raffle.snapshot(1).unwrap().status().is_earner());
    assert!(raffle.snapshot(2).unwrap().status().is_supporter());
    assert_eq!(raffle.team_tickets(1).count, 3);
    let later = Raffle::new(2, config(2, 1, "abc"), &teams).unwrap();
    assert!(later.snapshot(1).is_none());
    assert!(later.snapshot(2).unwrap().status().is_earner());
}
