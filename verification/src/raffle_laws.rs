//! What holds of every draw: how many seats are taken, by whom, and that the
//! seated teams are the best of their role.

use crate::platform::Id;
use crate::raffle::best_open;
use crate::raffle::best_ticket;
use crate::raffle::ticket_beats;
use crate::raffle::draw;
use crate::raffle::eligible;
use crate::raffle::enlist;
use crate::raffle::issue_tickets;
use crate::raffle::lineup;
use crate::raffle::lineup_by_order;
use crate::raffle::lineup_extend;
use crate::raffle::raffle_outcome;
use crate::raffle::scored;
use crate::raffle::standings;
use crate::raffle::team_ids;
use crate::raffle::tickets_of;
use crate::raffle::RaffleTicket;
use crate::model::distinct;
use crate::team::ticket_count;
use crate::team::TeamView;
use crate::raffle::least;
use crate::raffle::left_out;
use crate::raffle::outranks;
use crate::raffle::seat;
use crate::raffle::Standing;
use vstd::prelude::*;

verus! {

/// The best ticket of a team is one of its tickets that none of its tickets
/// beats; a team has none only where it holds no ticket.
pub proof fn law_best_ticket(tickets: Seq<RaffleTicket>, team: Id)
    ensures
        match best_ticket(tickets, team) {
            Some(best) => {
                &&& best.team_id == team
                &&& tickets.contains(best)
                &&& forall|i: int|
                    0 <= i < tickets.len() && (#[trigger] tickets[i]).team_id == team
                        ==> !ticket_beats(tickets[i], best)
            },
            None => forall|i: int| 0 <= i < tickets.len() ==> (#[trigger] tickets[i]).team_id != team,
        },
    decreases tickets.len(),
{
    if tickets.len() > 0 {
        let front = tickets.drop_last();
        law_best_ticket(front, team);
        assert(forall|i: int| 0 <= i < front.len() ==> front[i] == tickets[i]);
        match best_ticket(tickets, team) {
            Some(best) => {
                if best == tickets.last() {
                    assert(tickets[tickets.len() - 1] == best);
                } else {
                    let at = choose|i: int| 0 <= i < front.len() && front[i] == best;
                    assert(tickets[at] == best);
                }
                assert forall|i: int|
                    0 <= i < tickets.len() && (#[trigger] tickets[i]).team_id == team
                    implies !ticket_beats(tickets[i], best) by {
                    if i < front.len() {
                        assert(front[i].team_id == team);
                    }
                }
            },
            None => {
                assert forall|i: int| 0 <= i < tickets.len() implies (#[trigger] tickets[i]).team_id
                    != team by {
                    if i < front.len() {
                        assert(front[i].team_id != team);
                    }
                }
            },
        }
    }
}

/// How many of the first `upto` teams hold a seat.
pub open spec fn seats_taken(taken: Seq<bool>, upto: int) -> nat
    decreases upto,
{
    if upto <= 0 {
        0
    } else {
        seats_taken(taken, upto - 1) + if taken[upto - 1] {
            1nat
        } else {
            0nat
        }
    }
}

/// How many of the first `upto` teams are of the given role and hold no seat.
pub open spec fn open_of_role(st: Seq<Standing>, taken: Seq<bool>, earner: bool, upto: int) -> nat
    decreases upto,
{
    if upto <= 0 {
        0
    } else {
        open_of_role(st, taken, earner, upto - 1) + if !taken[upto - 1] && st[upto - 1].earner
            == earner {
            1nat
        } else {
            0nat
        }
    }
}

/// Marks under which nobody holds a seat.
pub open spec fn nobody(n: nat) -> Seq<bool> {
    Seq::new(n, |i: int| false)
}

/// What [`best_open`] finds is an open team of the role that no other open
/// team of the role outranks; it finds none only where none is open.
pub proof fn lemma_best_open(st: Seq<Standing>, taken: Seq<bool>, earner: bool, upto: int)
    requires
        0 <= upto <= st.len(),
        taken.len() == st.len(),
    ensures
        match best_open(st, taken, earner, upto) {
            Some(p) => {
                &&& 0 <= p < upto
                &&& !taken[p]
                &&& st[p].earner == earner
                &&& forall|i: int|
                    0 <= i < upto && !taken[i] && st[i].earner == earner ==> !outranks(
                        #[trigger] st[i],
                        st[p],
                    )
                &&& open_of_role(st, taken, earner, upto) > 0
            },
            None => {
                &&& forall|i: int| 0 <= i < upto ==> #[trigger] taken[i] || st[i].earner != earner
                &&& open_of_role(st, taken, earner, upto) == 0
            },
        },
    decreases upto,
{
    if upto > 0 {
        lemma_best_open(st, taken, earner, upto - 1);
    }
}

/// Seating one open team changes each count by one where it is counted.
pub proof fn lemma_mark(st: Seq<Standing>, taken: Seq<bool>, p: int, earner: bool, upto: int)
    requires
        0 <= p < taken.len(),
        !taken[p],
        0 <= upto <= taken.len(),
        taken.len() == st.len(),
    ensures
        seats_taken(taken.update(p, true), upto) == seats_taken(taken, upto) + if p < upto {
            1nat
        } else {
            0nat
        },
        open_of_role(st, taken.update(p, true), earner, upto) + (if p < upto && st[p].earner
            == earner {
            1nat
        } else {
            0nat
        }) == open_of_role(st, taken, earner, upto),
        left_out(st, taken.update(p, true), upto).len() + (if p < upto {
            1nat
        } else {
            0nat
        }) == left_out(st, taken, upto).len(),
    decreases upto,
{
    if upto > 0 {
        lemma_mark(st, taken, p, earner, upto - 1);
    }
}

/// The teams without a seat and the teams with one are all the teams.
pub proof fn lemma_left_out_len(st: Seq<Standing>, taken: Seq<bool>, upto: int)
    requires
        0 <= upto <= taken.len(),
        taken.len() == st.len(),
    ensures
        left_out(st, taken, upto).len() + seats_taken(taken, upto) == upto,
    decreases upto,
{
    if upto > 0 {
        lemma_left_out_len(st, taken, upto - 1);
    }
}

/// While nobody holds a seat, every team is open in its role.
pub proof fn lemma_nobody(st: Seq<Standing>, upto: int)
    requires
        0 <= upto <= st.len(),
    ensures
        seats_taken(nobody(st.len()), upto) == 0,
        open_of_role(st, nobody(st.len()), true, upto) + open_of_role(
            st,
            nobody(st.len()),
            false,
            upto,
        ) == upto,
    decreases upto,
{
    if upto > 0 {
        lemma_nobody(st, upto - 1);
    }
}

/// How many seats a round of [`seat`] fills: as many as are free under the
/// limit, or as many as there are open teams of the role, whichever is fewer.
pub open spec fn seats_filled(
    st: Seq<Standing>,
    taken: Seq<bool>,
    seated: Seq<Id>,
    earner: bool,
    limit: nat,
) -> nat {
    if seated.len() >= limit {
        0
    } else {
        least((limit - seated.len()) as nat, open_of_role(st, taken, earner, st.len() as int))
    }
}

/// A round of [`seat`] fills [`seats_filled`] seats with open teams of its
/// role and leaves the teams of the other role as they were.
pub proof fn lemma_seat_counts(
    st: Seq<Standing>,
    taken: Seq<bool>,
    seated: Seq<Id>,
    earner: bool,
    limit: nat,
)
    requires
        taken.len() == st.len(),
    ensures
        ({
            let after = seat(st, taken, seated, earner, limit);
            let filled = seats_filled(st, taken, seated, earner, limit);
            &&& after.0.len() == st.len()
            &&& after.1.len() == seated.len() + filled
            &&& after.1.subrange(0, seated.len() as int) == seated
            &&& seats_taken(after.0, st.len() as int) == seats_taken(taken, st.len() as int)
                + filled
            &&& open_of_role(st, after.0, earner, st.len() as int) + filled == open_of_role(
                st,
                taken,
                earner,
                st.len() as int,
            )
            &&& open_of_role(st, after.0, !earner, st.len() as int) == open_of_role(
                st,
                taken,
                !earner,
                st.len() as int,
            )
        }),
    decreases limit - seated.len(),
{
    let n = st.len() as int;
    if seated.len() >= limit {
        assert(seated.subrange(0, seated.len() as int) =~= seated);
    } else {
        lemma_best_open(st, taken, earner, n);
        match best_open(st, taken, earner, n) {
            Some(p) => {
                let marked = taken.update(p, true);
                let longer = seated.push(st[p].team_id);
                lemma_mark(st, taken, p, earner, n);
                lemma_mark(st, taken, p, !earner, n);
                lemma_seat_counts(st, marked, longer, earner, limit);
                let after = seat(st, marked, longer, earner, limit);
                assert(after.1.subrange(0, seated.len() as int) =~= longer.subrange(
                    0,
                    seated.len() as int,
                ));
                assert(longer.subrange(0, seated.len() as int) =~= seated);
            },
            None => {
                assert(seated.subrange(0, seated.len() as int) =~= seated);
            },
        }
    }
}

/// A round of [`seat`] takes no seat away, seats only teams of its role, and
/// seats the best: no team of the role that is left without a seat outranks
/// one that the round has seated.
pub proof fn lemma_seat_best(
    st: Seq<Standing>,
    taken: Seq<bool>,
    seated: Seq<Id>,
    earner: bool,
    limit: nat,
)
    requires
        taken.len() == st.len(),
    ensures
        ({
            let after = seat(st, taken, seated, earner, limit);
            &&& after.0.len() == st.len()
            &&& forall|i: int| 0 <= i < st.len() && taken[i] ==> #[trigger] after.0[i]
            &&& forall|i: int|
                0 <= i < st.len() && #[trigger] after.0[i] && !taken[i] ==> st[i].earner == earner
            &&& forall|i: int, j: int|
                0 <= i < st.len() && 0 <= j < st.len() && #[trigger] after.0[i] && !taken[i]
                    && !#[trigger] after.0[j] && st[j].earner == earner ==> !outranks(st[j], st[i])
        }),
    decreases limit - seated.len(),
{
    let n = st.len() as int;
    if seated.len() < limit {
        lemma_best_open(st, taken, earner, n);
        match best_open(st, taken, earner, n) {
            Some(p) => {
                let marked = taken.update(p, true);
                let longer = seated.push(st[p].team_id);
                lemma_seat_best(st, marked, longer, earner, limit);
                let after = seat(st, marked, longer, earner, limit);
                assert forall|i: int, j: int|
                    0 <= i < st.len() && 0 <= j < st.len() && #[trigger] after.0[i] && !taken[i]
                        && !#[trigger] after.0[j] && st[j].earner == earner implies !outranks(
                    st[j],
                    st[i],
                ) by {
                    if i == p {
                        assert(marked[j] ==> after.0[j]);
                        assert(!taken[j]);
                    } else {
                        assert(!marked[i]);
                    }
                }
                assert forall|i: int| 0 <= i < st.len() && taken[i] implies #[trigger] after.0[i] by {
                    assert(marked[i]);
                }
                assert forall|i: int|
                    0 <= i < st.len() && #[trigger] after.0[i] && !taken[i] implies st[i].earner
                    == earner by {
                    if i != p {
                        assert(!marked[i]);
                    }
                }
            },
            None => {},
        }
    }
}

/// The ids that a round of [`seat`] adds are those of the teams that it
/// seats: each added id belongs to a newly seated team, and each newly seated
/// team's id is added.
pub proof fn lemma_seat_ids(
    st: Seq<Standing>,
    taken: Seq<bool>,
    seated: Seq<Id>,
    earner: bool,
    limit: nat,
)
    requires
        taken.len() == st.len(),
    ensures
        ({
            let after = seat(st, taken, seated, earner, limit);
            &&& forall|k: int|
                seated.len() <= k < after.1.len() ==> exists|i: int|
                    0 <= i < st.len() && #[trigger] after.0[i] && !taken[i] && st[i].team_id
                        == #[trigger] after.1[k]
            &&& forall|i: int|
                0 <= i < st.len() && #[trigger] after.0[i] && !taken[i] ==> exists|k: int|
                    seated.len() <= k < after.1.len() && #[trigger] after.1[k] == st[i].team_id
        }),
    decreases limit - seated.len(),
{
    let n = st.len() as int;
    if seated.len() < limit {
        lemma_best_open(st, taken, earner, n);
        match best_open(st, taken, earner, n) {
            Some(p) => {
                let marked = taken.update(p, true);
                let longer = seated.push(st[p].team_id);
                lemma_seat_ids(st, marked, longer, earner, limit);
                lemma_seat_best(st, marked, longer, earner, limit);
                lemma_seat_counts(st, marked, longer, earner, limit);
                let after = seat(st, marked, longer, earner, limit);
                assert(after.1.subrange(0, longer.len() as int) == longer);
                assert(after.1[seated.len() as int] == after.1.subrange(0, longer.len() as int)[seated.len() as int]);
                assert(after.1[seated.len() as int] == st[p].team_id);
                assert(marked[p]);
                assert(after.0[p]);
                assert forall|k: int| seated.len() <= k < after.1.len() implies exists|i: int|
                    0 <= i < st.len() && #[trigger] after.0[i] && !taken[i] && st[i].team_id
                        == #[trigger] after.1[k] by {
                    if k == seated.len() {
                        assert(after.0[p] && !taken[p] && st[p].team_id == after.1[k]);
                    } else {
                        let i = choose|i: int|
                            0 <= i < st.len() && #[trigger] after.0[i] && !marked[i]
                                && st[i].team_id == after.1[k];
                        assert(after.0[i] && !taken[i] && st[i].team_id == after.1[k]);
                    }
                }
                assert forall|i: int|
                    0 <= i < st.len() && #[trigger] after.0[i] && !taken[i] implies exists|k: int|
                    seated.len() <= k < after.1.len() && #[trigger] after.1[k] == st[i].team_id by {
                    if i == p {
                        assert(after.1[seated.len() as int] == st[i].team_id);
                    } else {
                        assert(!marked[i]);
                        let k = choose|k: int|
                            longer.len() <= k < after.1.len() && #[trigger] after.1[k]
                                == st[i].team_id;
                        assert(after.1[k] == st[i].team_id);
                    }
                }
            },
            None => {},
        }
    }
}

/// How many teams of the lineup are earners.
pub open spec fn earners_in(lineup: Seq<TeamView>) -> nat
    decreases lineup.len(),
{
    if lineup.len() == 0 {
        0
    } else {
        earners_in(lineup.drop_last()) + if lineup.last().status is Earner {
            1nat
        } else {
            0nat
        }
    }
}

/// Before the draw the open earners are the earners of the lineup.
pub proof fn lemma_open_earners(lineup: Seq<TeamView>, tickets: Seq<RaffleTicket>, upto: int)
    requires
        0 <= upto <= lineup.len(),
    ensures
        open_of_role(standings(lineup, tickets), nobody(lineup.len()), true, upto) == earners_in(
            lineup.take(upto),
        ),
        earners_in(lineup.take(upto)) <= upto,
    decreases upto,
{
    if upto > 0 {
        lemma_open_earners(lineup, tickets, upto - 1);
        assert(lineup.take(upto).drop_last() =~= lineup.take(upto - 1));
    }
}

/// Every team of the draw is either seated or left out:
/// the two lists together are as long as the lineup.
pub proof fn law_outcome_covers_lineup(
    lineup: Seq<TeamView>,
    tickets: Seq<RaffleTicket>,
    max_earner_seats: nat,
    total_counted_seats: nat,
)
    ensures
        ({
            let outcome = raffle_outcome(lineup, tickets, max_earner_seats, total_counted_seats);
            outcome.counted.len() + outcome.uncounted.len() == lineup.len()
        }),
{
    let st = standings(lineup, tickets);
    let n = st.len() as int;
    let cap = least(max_earner_seats, total_counted_seats);
    lemma_nobody(st, n);
    lemma_seat_counts(st, nobody(st.len()), Seq::empty(), true, cap);
    let first = seat(st, nobody(st.len()), Seq::empty(), true, cap);
    lemma_seat_counts(st, first.0, first.1, false, total_counted_seats);
    let second = seat(st, first.0, first.1, false, total_counted_seats);
    lemma_left_out_len(st, second.0, n);
}

/// The counted seats are never more than the configuration allows.
pub proof fn law_counted_within_total(
    lineup: Seq<TeamView>,
    tickets: Seq<RaffleTicket>,
    max_earner_seats: nat,
    total_counted_seats: nat,
)
    ensures
        raffle_outcome(lineup, tickets, max_earner_seats, total_counted_seats).counted.len()
            <= total_counted_seats,
{
    let st = standings(lineup, tickets);
    let cap = least(max_earner_seats, total_counted_seats);
    lemma_seat_counts(st, nobody(st.len()), Seq::empty(), true, cap);
    let first = seat(st, nobody(st.len()), Seq::empty(), true, cap);
    lemma_seat_counts(st, first.0, first.1, false, total_counted_seats);
}

/// All counted seats are filled, or every team of the draw holds one:
/// the counted list is as long as the smaller of the seat count and the
/// lineup. This holds where the earners fit under their cap or the other
/// teams suffice for the seats that the cap leaves; elsewhere the cap keeps
/// seats empty.
pub proof fn law_counted_seats_filled(
    lineup: Seq<TeamView>,
    tickets: Seq<RaffleTicket>,
    max_earner_seats: nat,
    total_counted_seats: nat,
)
    requires
        max_earner_seats <= total_counted_seats,
        earners_in(lineup) <= max_earner_seats || lineup.len() - earners_in(lineup)
            >= total_counted_seats - max_earner_seats,
    ensures
        raffle_outcome(lineup, tickets, max_earner_seats, total_counted_seats).counted.len()
            == least(total_counted_seats, lineup.len()),
{
    let st = standings(lineup, tickets);
    let n = st.len() as int;
    let cap = least(max_earner_seats, total_counted_seats);
    lemma_nobody(st, n);
    lemma_open_earners(lineup, tickets, n);
    assert(lineup.take(n) =~= lineup);
    lemma_seat_counts(st, nobody(st.len()), Seq::empty(), true, cap);
    let first = seat(st, nobody(st.len()), Seq::empty(), true, cap);
    lemma_seat_counts(st, first.0, first.1, false, total_counted_seats);
}

/// Earners hold at most the first `max_earner_seats` counted seats: every
/// counted seat after those belongs to a team of the lineup that is no earner.
pub proof fn law_earner_cap(
    lineup: Seq<TeamView>,
    tickets: Seq<RaffleTicket>,
    max_earner_seats: nat,
    total_counted_seats: nat,
)
    ensures
        ({
            let outcome = raffle_outcome(lineup, tickets, max_earner_seats, total_counted_seats);
            forall|k: int|
                max_earner_seats <= k < outcome.counted.len() ==> exists|i: int|
                    0 <= i < lineup.len() && (#[trigger] lineup[i]).id == #[trigger] outcome.counted[k]
                        && !(lineup[i].status is Earner)
        }),
{
    let st = standings(lineup, tickets);
    let n = st.len() as int;
    let cap = least(max_earner_seats, total_counted_seats);
    let outcome = raffle_outcome(lineup, tickets, max_earner_seats, total_counted_seats);
    lemma_seat_counts(st, nobody(st.len()), Seq::empty(), true, cap);
    let first = seat(st, nobody(st.len()), Seq::empty(), true, cap);
    lemma_seat_counts(st, first.0, first.1, false, total_counted_seats);
    lemma_seat_ids(st, first.0, first.1, false, total_counted_seats);
    lemma_seat_best(st, first.0, first.1, false, total_counted_seats);
    let second = seat(st, first.0, first.1, false, total_counted_seats);
    assert forall|k: int| max_earner_seats <= k < outcome.counted.len() implies exists|i: int|
        0 <= i < lineup.len() && (#[trigger] lineup[i]).id == #[trigger] outcome.counted[k] && !(
        lineup[i].status is Earner) by {
        assert(first.1.len() <= k);
        let i = choose|i: int|
            0 <= i < st.len() && #[trigger] second.0[i] && !first.0[i] && st[i].team_id
                == second.1[k];
        assert(st[i].earner == false);
        assert(lineup[i].id == outcome.counted[k]);
    }
}

/// The seated teams are the best of their role: no team that is left out
/// outranks a seated team of the same role.
pub proof fn law_best_are_seated(st: Seq<Standing>, max_earner_seats: nat, total_counted_seats: nat)
    ensures
        ({
            let seats = draw(st, max_earner_seats, total_counted_seats);
            &&& seats.0.len() == st.len()
            &&& forall|i: int, j: int|
                0 <= i < st.len() && 0 <= j < st.len() && #[trigger] seats.0[i]
                    && !#[trigger] seats.0[j] && st[i].earner == st[j].earner ==> !outranks(
                    st[j],
                    st[i],
                )
        }),
{
    let cap = least(max_earner_seats, total_counted_seats);
    lemma_seat_best(st, nobody(st.len()), Seq::empty(), true, cap);
    let first = seat(st, nobody(st.len()), Seq::empty(), true, cap);
    lemma_seat_best(st, first.0, first.1, false, total_counted_seats);
    let second = seat(st, first.0, first.1, false, total_counted_seats);
    assert forall|i: int, j: int|
        0 <= i < st.len() && 0 <= j < st.len() && #[trigger] second.0[i]
            && !#[trigger] second.0[j] && st[i].earner == st[j].earner implies !outranks(
        st[j],
        st[i],
    ) by {
        if first.0[i] {
            assert(!nobody(st.len())[i]);
            assert(st[i].earner);
            if first.0[j] {
                assert(second.0[j]);
            }
        } else {
            assert(!st[i].earner);
        }
    }
}

/// The ids of the teams that are left out belong to teams without a seat.
pub proof fn lemma_left_out_ids(st: Seq<Standing>, taken: Seq<bool>, upto: int)
    requires
        0 <= upto <= st.len(),
        taken.len() == st.len(),
    ensures
        forall|k: int|
            0 <= k < left_out(st, taken, upto).len() ==> exists|i: int|
                0 <= i < upto && !#[trigger] taken[i] && st[i].team_id == #[trigger] left_out(
                    st,
                    taken,
                    upto,
                )[k],
        forall|i: int|
            0 <= i < upto && !#[trigger] taken[i] ==> left_out(st, taken, upto).contains(
                st[i].team_id,
            ),
    decreases upto,
{
    if upto > 0 {
        lemma_left_out_ids(st, taken, upto - 1);
        let before = left_out(st, taken, upto - 1);
        let now = left_out(st, taken, upto);
        assert forall|k: int| 0 <= k < now.len() implies exists|i: int|
            0 <= i < upto && !#[trigger] taken[i] && st[i].team_id == #[trigger] now[k] by {
            if k < before.len() {
                let i = choose|i: int|
                    0 <= i < upto - 1 && !#[trigger] taken[i] && st[i].team_id == before[k];
                assert(!taken[i] && st[i].team_id == now[k]);
            } else {
                assert(!taken[upto - 1] && st[upto - 1].team_id == now[k]);
            }
        }
        assert forall|i: int| 0 <= i < upto && !#[trigger] taken[i] implies now.contains(
            st[i].team_id,
        ) by {
            if i < upto - 1 {
                let k = choose|k: int| 0 <= k < before.len() && before[k] == st[i].team_id;
                assert(now[k] == st[i].team_id);
            } else {
                assert(now[now.len() - 1] == st[i].team_id);
            }
        }
    }
}

/// No team is both seated and left out, where the lineup names no team twice.
pub proof fn law_counted_and_uncounted_disjoint(
    lineup: Seq<TeamView>,
    tickets: Seq<RaffleTicket>,
    max_earner_seats: nat,
    total_counted_seats: nat,
)
    requires
        distinct(team_ids(lineup)),
    ensures
        ({
            let outcome = raffle_outcome(lineup, tickets, max_earner_seats, total_counted_seats);
            forall|a: int, b: int|
                0 <= a < outcome.counted.len() && 0 <= b < outcome.uncounted.len()
                    ==> #[trigger] outcome.counted[a] != #[trigger] outcome.uncounted[b]
        }),
{
    let st = standings(lineup, tickets);
    let n = st.len() as int;
    let cap = least(max_earner_seats, total_counted_seats);
    let outcome = raffle_outcome(lineup, tickets, max_earner_seats, total_counted_seats);
    lemma_seat_counts(st, nobody(st.len()), Seq::empty(), true, cap);
    lemma_seat_ids(st, nobody(st.len()), Seq::empty(), true, cap);
    lemma_seat_best(st, nobody(st.len()), Seq::empty(), true, cap);
    let first = seat(st, nobody(st.len()), Seq::empty(), true, cap);
    lemma_seat_counts(st, first.0, first.1, false, total_counted_seats);
    lemma_seat_ids(st, first.0, first.1, false, total_counted_seats);
    lemma_seat_best(st, first.0, first.1, false, total_counted_seats);
    let second = seat(st, first.0, first.1, false, total_counted_seats);
    lemma_left_out_ids(st, second.0, n);
    assert forall|a: int, b: int|
        0 <= a < outcome.counted.len() && 0 <= b < outcome.uncounted.len()
        implies #[trigger] outcome.counted[a] != #[trigger] outcome.uncounted[b] by {
        let j = choose|j: int|
            0 <= j < n && !#[trigger] second.0[j] && st[j].team_id == outcome.uncounted[b];
        let i = if a < first.1.len() {
            assert(second.1.subrange(0, first.1.len() as int)[a] == first.1[a]);
            let i = choose|i: int|
                0 <= i < st.len() && #[trigger] first.0[i] && !nobody(st.len())[i]
                    && st[i].team_id == first.1[a];
            assert(second.0[i]);
            i
        } else {
            choose|i: int|
                0 <= i < st.len() && #[trigger] second.0[i] && !first.0[i] && st[i].team_id
                    == second.1[a]
        };
        assert(second.0[i] && st[i].team_id == outcome.counted[a]);
        assert(i != j);
        assert(team_ids(lineup)[i] == st[i].team_id);
        assert(team_ids(lineup)[j] == st[j].team_id);
    }
}

/// A draw without teams seats nobody and leaves nobody out.
pub proof fn law_empty_draw(
    tickets: Seq<RaffleTicket>,
    max_earner_seats: nat,
    total_counted_seats: nat,
)
    ensures
        ({
            let outcome = raffle_outcome(
                Seq::empty(),
                tickets,
                max_earner_seats,
                total_counted_seats,
            );
            outcome.counted.len() == 0 && outcome.uncounted.len() == 0
        }),
{
    law_outcome_covers_lineup(Seq::empty(), tickets, max_earner_seats, total_counted_seats);
}

/// Scoring and drawing depend on nothing but the randomness, the lineup, the
/// tickets and the seat counts: two runs on the same of these give the same
/// scores and the same seats.
pub proof fn law_raffle_reproducible(
    lineup_a: Seq<TeamView>,
    tickets_a: Seq<RaffleTicket>,
    randomness_a: Seq<char>,
    lineup_b: Seq<TeamView>,
    tickets_b: Seq<RaffleTicket>,
    randomness_b: Seq<char>,
    max_earner_seats: nat,
    total_counted_seats: nat,
)
    requires
        lineup_a =~= lineup_b,
        tickets_a =~= tickets_b,
        randomness_a =~= randomness_b,
    ensures
        scored(tickets_a, randomness_a) == scored(tickets_b, randomness_b),
        raffle_outcome(
            lineup_a,
            scored(tickets_a, randomness_a),
            max_earner_seats,
            total_counted_seats,
        ) == raffle_outcome(
            lineup_b,
            scored(tickets_b, randomness_b),
            max_earner_seats,
            total_counted_seats,
        ),
{
}

/// A lineup is sound for a registry: it names no team twice, and each of its
/// teams is an eligible team of the registry.
pub open spec fn sound_lineup(lineup: Seq<TeamView>, teams: Seq<TeamView>, excluded: Seq<Id>) -> bool {
    &&& distinct(team_ids(lineup))
    &&& forall|i: int|
        0 <= i < lineup.len() ==> eligible(#[trigger] lineup[i], excluded) && teams.contains(
            lineup[i],
        )
}

/// Adding a team of the registry keeps a lineup sound, keeps the teams that
/// are in it, and leaves the added team in it if it is eligible.
pub proof fn lemma_enlist(lineup: Seq<TeamView>, team: TeamView, teams: Seq<TeamView>, excluded: Seq<Id>)
    requires
        sound_lineup(lineup, teams, excluded),
        teams.contains(team),
    ensures
        sound_lineup(enlist(lineup, team, excluded), teams, excluded),
        forall|id: Id|
            team_ids(lineup).contains(id) ==> #[trigger] team_ids(
                enlist(lineup, team, excluded),
            ).contains(id),
        eligible(team, excluded) ==> team_ids(enlist(lineup, team, excluded)).contains(team.id),
{
    let after = enlist(lineup, team, excluded);
    if eligible(team, excluded) && !team_ids(lineup).contains(team.id) {
        assert(team_ids(after) =~= team_ids(lineup).push(team.id));
        assert(team_ids(after)[lineup.len() as int] == team.id);
        assert forall|i: int, j: int| 0 <= i < j < after.len() implies team_ids(after)[i]
            != team_ids(after)[j] by {
            if j == lineup.len() {
                assert(team_ids(lineup)[i] != team.id);
            } else {
                assert(team_ids(lineup)[i] != team_ids(lineup)[j]);
            }
        }
        assert forall|i: int| 0 <= i < after.len() implies eligible(
            #[trigger] after[i],
            excluded,
        ) && teams.contains(after[i]) by {
            if i < lineup.len() {
                assert(after[i] == lineup[i]);
            }
        }
        assert forall|id: Id| team_ids(lineup).contains(id) implies #[trigger] team_ids(
            after,
        ).contains(id) by {
            let k = choose|k: int| 0 <= k < team_ids(lineup).len() && team_ids(lineup)[k] == id;
            assert(team_ids(after)[k] == id);
        }
    }
}

/// The part of the lineup that a custom order gives is sound.
pub proof fn lemma_lineup_by_order(teams: Seq<TeamView>, order: Seq<Id>, excluded: Seq<Id>)
    ensures
        sound_lineup(lineup_by_order(teams, order, excluded), teams, excluded),
    decreases order.len(),
{
    if order.len() > 0 {
        lemma_lineup_by_order(teams, order.drop_last(), excluded);
        crate::model::lemma_position_of(team_ids(teams), order.last());
        match crate::model::position_of(team_ids(teams), order.last()) {
            Some(i) => {
                assert(teams[i] == teams[i]);
                lemma_enlist(
                    lineup_by_order(teams, order.drop_last(), excluded),
                    teams[i],
                    teams,
                    excluded,
                );
            },
            None => {},
        }
    }
}

/// Extending a sound lineup by teams of the registry keeps it sound, keeps
/// its teams, and takes in every eligible team that is offered.
pub proof fn lemma_lineup_extend(
    first: Seq<TeamView>,
    part: Seq<TeamView>,
    teams: Seq<TeamView>,
    excluded: Seq<Id>,
)
    requires
        sound_lineup(first, teams, excluded),
        forall|i: int| 0 <= i < part.len() ==> teams.contains(#[trigger] part[i]),
    ensures
        sound_lineup(lineup_extend(first, part, excluded), teams, excluded),
        forall|id: Id|
            team_ids(first).contains(id) ==> #[trigger] team_ids(
                lineup_extend(first, part, excluded),
            ).contains(id),
        forall|i: int|
            0 <= i < part.len() && eligible(#[trigger] part[i], excluded) ==> team_ids(
                lineup_extend(first, part, excluded),
            ).contains(part[i].id),
    decreases part.len(),
{
    if part.len() > 0 {
        let front = part.drop_last();
        assert forall|i: int| 0 <= i < front.len() implies teams.contains(#[trigger] front[i]) by {
            assert(front[i] == part[i]);
        }
        lemma_lineup_extend(first, front, teams, excluded);
        let before = lineup_extend(first, front, excluded);
        assert(teams.contains(part[part.len() - 1]));
        lemma_enlist(before, part.last(), teams, excluded);
        let after = lineup_extend(first, part, excluded);
        assert forall|i: int|
            0 <= i < part.len() && eligible(#[trigger] part[i], excluded) implies team_ids(
            after,
        ).contains(part[i].id) by {
            if i < front.len() {
                assert(front[i] == part[i]);
                assert(team_ids(before).contains(part[i].id));
            }
        }
        assert forall|id: Id| team_ids(first).contains(id) implies #[trigger] team_ids(
            after,
        ).contains(id) by {
            assert(team_ids(before).contains(id));
        }
    }
}

/// The lineup of a raffle names no team twice, holds only eligible teams of
/// the registry, and holds every eligible team of the registry.
pub proof fn law_lineup_sound(teams: Seq<TeamView>, order: Option<Seq<Id>>, excluded: Seq<Id>)
    ensures
        sound_lineup(lineup(teams, order, excluded), teams, excluded),
        forall|i: int|
            0 <= i < teams.len() && eligible(#[trigger] teams[i], excluded) ==> team_ids(
                lineup(teams, order, excluded),
            ).contains(teams[i].id),
{
    let first = match order {
        Some(ids) => lineup_by_order(teams, ids, excluded),
        None => Seq::empty(),
    };
    match order {
        Some(ids) => {
            lemma_lineup_by_order(teams, ids, excluded);
        },
        None => {},
    }
    assert forall|i: int| 0 <= i < teams.len() implies teams.contains(#[trigger] teams[i]) by {}
    lemma_lineup_extend(first, teams, teams, excluded);
}

/// The tickets of the first teams of a lineup are the first tickets of the lineup.
pub proof fn lemma_tickets_prefix(lineup: Seq<TeamView>, upto: int)
    requires
        0 <= upto <= lineup.len(),
    ensures
        issue_tickets(lineup.take(upto)).len() <= issue_tickets(lineup).len(),
        issue_tickets(lineup).subrange(0, issue_tickets(lineup.take(upto)).len() as int)
            == issue_tickets(lineup.take(upto)),
    decreases lineup.len() - upto,
{
    if upto < lineup.len() {
        lemma_tickets_prefix(lineup, upto + 1);
        assert(lineup.take(upto + 1).drop_last() =~= lineup.take(upto));
        let shorter = issue_tickets(lineup.take(upto));
        let longer = issue_tickets(lineup.take(upto + 1));
        assert(longer.subrange(0, shorter.len() as int) =~= shorter);
        assert(issue_tickets(lineup).subrange(0, shorter.len() as int) =~= issue_tickets(
            lineup,
        ).subrange(0, longer.len() as int).subrange(0, shorter.len() as int));
    } else {
        assert(lineup.take(upto) =~= lineup);
        assert(issue_tickets(lineup).subrange(0, issue_tickets(lineup).len() as int)
            =~= issue_tickets(lineup));
    }
}

/// The tickets are numbered by their place and unscored: as long as the
/// places fit in 64 bits, the ticket at place `i` has index `i`.
pub proof fn law_tickets_numbered(lineup: Seq<TeamView>)
    ensures
        forall|i: int|
            0 <= i < issue_tickets(lineup).len() ==> (#[trigger] issue_tickets(lineup)[i]).index
                == i as u64 && issue_tickets(lineup)[i].score == 0,
    decreases lineup.len(),
{
    if lineup.len() > 0 {
        law_tickets_numbered(lineup.drop_last());
        let before = issue_tickets(lineup.drop_last());
        assert forall|i: int| 0 <= i < issue_tickets(lineup).len() implies (#[trigger] issue_tickets(
            lineup,
        )[i]).index == i as u64 && issue_tickets(lineup)[i].score == 0 by {
            if i < before.len() {
                assert(issue_tickets(lineup)[i] == before[i]);
            } else {
                assert(issue_tickets(lineup)[i] == tickets_of(lineup.last(), before.len())[i
                    - before.len()]);
            }
        }
    }
}

/// Every team that is not inactive holds a ticket, so there are at least as
/// many tickets as teams in the draw.
pub proof fn law_tickets_cover_lineup(lineup: Seq<TeamView>)
    requires
        forall|i: int| 0 <= i < lineup.len() ==> !((#[trigger] lineup[i]).status is Inactive),
    ensures
        issue_tickets(lineup).len() >= lineup.len(),
    decreases lineup.len(),
{
    if lineup.len() > 0 {
        let front = lineup.drop_last();
        assert forall|i: int| 0 <= i < front.len() implies !((#[trigger] front[i]).status
            is Inactive) by {
            assert(front[i] == lineup[i]);
        }
        law_tickets_cover_lineup(front);
        assert(!(lineup[lineup.len() - 1].status is Inactive));
        assert(ticket_count(lineup.last().status) >= 1);
    }
}

/// The tickets of a team stand in one block: the team at place `p` of the
/// lineup holds exactly the tickets from where the tickets of the teams
/// before it end, as many as its status gives it.
pub proof fn law_tickets_in_blocks(lineup: Seq<TeamView>, p: int)
    requires
        0 <= p < lineup.len(),
    ensures
        ({
            let start = issue_tickets(lineup.take(p)).len();
            let count = ticket_count(lineup[p].status);
            &&& start + count <= issue_tickets(lineup).len()
            &&& forall|k: int|
                start <= k < start + count ==> (#[trigger] issue_tickets(lineup)[k]).team_id
                    == lineup[p].id
        }),
{
    lemma_tickets_prefix(lineup, p + 1);
    assert(lineup.take(p + 1).drop_last() =~= lineup.take(p));
    assert(lineup.take(p + 1).last() == lineup[p]);
    let start = issue_tickets(lineup.take(p)).len();
    let count = ticket_count(lineup[p].status);
    let block = issue_tickets(lineup.take(p + 1));
    assert(block.len() == start + count);
    assert forall|k: int| start <= k < start + count implies (#[trigger] issue_tickets(
        lineup,
    )[k]).team_id == lineup[p].id by {
        assert(issue_tickets(lineup).subrange(0, block.len() as int)[k] == block[k]);
        assert(block[k] == tickets_of(lineup[p], start)[k - start]);
    }
}

} // verus!
