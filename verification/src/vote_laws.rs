//! What holds of every vote: one effective ballot per team, and a verdict
//! that the counted ballots alone decide.

use crate::model::lemma_position_of;
use crate::model::position_of;
use crate::platform::Id;
use crate::vote::ballot_teams;
use crate::vote::has_ballot;
use crate::vote::lemma_record;
use crate::vote::record;
use crate::raffle::RaffleResultView;
use crate::vote::cast_all;
use crate::vote::count_choice;
use crate::vote::lemma_with_ballot_one_per_team;
use crate::vote::one_ballot_per_team;
use crate::vote::seat_of;
use crate::vote::tally;
use crate::vote::VoteStatus;
use crate::vote::VoteView;
use crate::vote::with_ballot;
use crate::vote::Ballot;
use crate::vote::Vote;
use crate::vote::VoteChoice;
use crate::vote::VoteParticipationView;
use crate::vote::VoteResult;
use crate::vote::VoteType;
use vstd::prelude::*;

verus! {

/// Of two answers of one team only the later one stays on record.
pub proof fn lemma_record_twice(ballots: Seq<Ballot>, team: Id, first: VoteChoice, second: VoteChoice)
    ensures
        record(record(ballots, team, first), team, second) == record(ballots, team, second),
{
    let teams = ballot_teams(ballots);
    let once = record(ballots, team, first);
    lemma_position_of(teams, team);
    lemma_record(ballots, team, first);
    lemma_position_of(ballot_teams(once), team);
    match position_of(teams, team) {
        Some(i) => {
            assert(ballot_teams(once) == teams);
            assert(record(once, team, second) =~= record(ballots, team, second));
        },
        None => {
            assert(ballot_teams(once) == teams.push(team));
            assert(ballot_teams(once)[ballots.len() as int] == team);
            assert(position_of(ballot_teams(once), team) == Some(ballots.len() as int));
            assert(record(once, team, second) =~= record(ballots, team, second));
        },
    }
}

/// A team has one effective ballot. After it has answered twice, the record
/// is what it would be had it answered once with its later choice, and so
/// are the tallies and the verdict.
pub proof fn law_recast_replaces(
    vote_type: VoteType,
    participation: VoteParticipationView,
    team: Id,
    first: VoteChoice,
    second: VoteChoice,
    counted_seat: bool,
    seat_at_recast: bool,
)
    ensures
        with_ballot(
            with_ballot(participation, team, first, counted_seat),
            team,
            second,
            seat_at_recast,
        ) == with_ballot(participation, team, second, counted_seat),
        Vote::resolution(
            vote_type,
            with_ballot(
                with_ballot(participation, team, first, counted_seat),
                team,
                second,
                seat_at_recast,
            ),
        ) == Vote::resolution(vote_type, with_ballot(participation, team, second, counted_seat)),
{
    match participation {
        VoteParticipationView::Formal { counted, uncounted } => {
            lemma_record(counted, team, first);
            lemma_record(uncounted, team, first);
            lemma_record_twice(counted, team, first, second);
            lemma_record_twice(uncounted, team, first, second);
        },
        VoteParticipationView::Informal(ballots) => {
            lemma_record_twice(ballots, team, first, second);
        },
    }
}

/// A formal vote passes exactly if some counted team said yes or no and the
/// share of yes among them reaches the threshold:
/// `yes / (yes + no) >= numerator / denominator`, which for a positive
/// denominator and a positive `yes + no` is
/// `yes * denominator >= numerator * (yes + no)`. Without a counted yes or no
/// it fails. The uncounted ballots have no part in it.
pub proof fn law_formal_verdict(
    vote_type: VoteType,
    counted: Seq<Ballot>,
    uncounted: Seq<Ballot>,
    other_uncounted: Seq<Ballot>,
)
    requires
        vote_type is Formal,
    ensures
        ({
            let threshold = vote_type->threshold;
            let result = Vote::resolution(
                vote_type,
                VoteParticipationView::Formal { counted, uncounted },
            );
            let other = Vote::resolution(
                vote_type,
                VoteParticipationView::Formal { counted, uncounted: other_uncounted },
            );
            let votes = tally(counted);
            &&& result is Formal
            &&& result->counted == votes
            &&& votes.yes + votes.no == 0 ==> !result->passed
            &&& votes.yes + votes.no > 0 ==> (result->passed <==> votes.yes * threshold.denominator
                >= threshold.numerator * (votes.yes + votes.no))
            &&& other is Formal
            &&& other->passed == result->passed
        }),
{
}

/// An informal vote neither passes nor fails; its result is the count of its ballots.
pub proof fn law_informal_result(vote_type: VoteType, ballots: Seq<Ballot>)
    ensures
        Vote::resolution(vote_type, VoteParticipationView::Informal(ballots)) == (
        VoteResult::Informal { count: tally(ballots) }),
{
}

/// Every team on the counted list holds a counted seat of the raffle, and
/// every team on the uncounted list holds an uncounted one.
pub open spec fn seated(participation: VoteParticipationView, seats: RaffleResultView) -> bool {
    match participation {
        VoteParticipationView::Formal { counted, uncounted } => {
            &&& forall|i: int|
                0 <= i < counted.len() ==> seat_of(seats, (#[trigger] counted[i]).team_id) == Some(
                    true,
                )
            &&& forall|i: int|
                0 <= i < uncounted.len() ==> seat_of(seats, (#[trigger] uncounted[i]).team_id)
                    == Some(false)
        },
        VoteParticipationView::Informal(_) => true,
    }
}

/// Only seated teams take part in a formal vote, each from the list of its
/// seat: a ballot that is taken keeps this so, and a ballot of a team
/// without a seat is refused.
pub proof fn law_participants_are_seated(
    vote: VoteView,
    team: Id,
    choice: VoteChoice,
    seats: RaffleResultView,
)
    requires
        vote.participation is Formal,
        seated(vote.participation, seats),
        vote.status == VoteStatus::Open,
    ensures
        seat_of(seats, team) is None ==> Vote::cast_rejection(vote, team, Some(seats)) is Some,
        Vote::cast_rejection(vote, team, Some(seats)) is None ==> seated(
            with_ballot(
                vote.participation,
                team,
                choice,
                Vote::counted_seat(Some(seats), team),
            ),
            seats,
        ),
{
    if Vote::cast_rejection(vote, team, Some(seats)) is None {
        let counted = vote.participation->Formal_counted;
        let uncounted = vote.participation->Formal_uncounted;
        lemma_record(counted, team, choice);
        lemma_record(uncounted, team, choice);
        lemma_position_of(ballot_teams(counted), team);
        lemma_position_of(ballot_teams(uncounted), team);
        let seat = Vote::counted_seat(Some(seats), team);
        if has_ballot(counted, team) {
            let at = position_of(ballot_teams(counted), team)->Some_0;
            assert(counted[at].team_id == team);
        } else if has_ballot(uncounted, team) {
            let at = position_of(ballot_teams(uncounted), team)->Some_0;
            assert(uncounted[at].team_id == team);
        }
        let after = with_ballot(vote.participation, team, choice, seat);
        let new_counted = after->Formal_counted;
        let new_uncounted = after->Formal_uncounted;
        assert forall|i: int| 0 <= i < new_counted.len() implies seat_of(
            seats,
            (#[trigger] new_counted[i]).team_id,
        ) == Some(true) by {
            if new_counted[i].team_id != team {
                assert(new_counted[i] == counted[i]);
            }
        }
        assert forall|i: int| 0 <= i < new_uncounted.len() implies seat_of(
            seats,
            (#[trigger] new_uncounted[i]).team_id,
        ) == Some(false) by {
            if new_uncounted[i].team_id != team {
                assert(new_uncounted[i] == uncounted[i]);
            }
        }
    }
}

/// A ballot counts once at most: the yes and the no of a tally are together
/// no more than the ballots.
pub proof fn law_tally_within_ballots(ballots: Seq<Ballot>)
    ensures
        count_choice(ballots, VoteChoice::Yes) + count_choice(ballots, VoteChoice::No)
            <= ballots.len(),
    decreases ballots.len(),
{
    if ballots.len() > 0 {
        law_tally_within_ballots(ballots.drop_last());
    }
}

/// A closed vote is final: it takes no ballot, whatever the team and its seat.
pub proof fn law_closed_vote_takes_no_ballot(vote: VoteView, team: Id, seats: Option<RaffleResultView>)
    requires
        vote.status == VoteStatus::Closed,
    ensures
        Vote::cast_rejection(vote, team, seats) == Some(crate::error::BudgetError::VoteClosed),
{
}

/// Ballots that are taken together leave every team with at most one ballot.
pub proof fn law_one_ballot_per_team(
    participation: VoteParticipationView,
    ballots: Seq<Ballot>,
    seats: Option<RaffleResultView>,
)
    requires
        one_ballot_per_team(participation),
    ensures
        one_ballot_per_team(cast_all(participation, ballots, seats)),
    decreases ballots.len(),
{
    if ballots.len() > 0 {
        law_one_ballot_per_team(participation, ballots.drop_last(), seats);
        lemma_with_ballot_one_per_team(
            cast_all(participation, ballots.drop_last(), seats),
            ballots.last().team_id,
            ballots.last().choice,
            Vote::counted_seat(seats, ballots.last().team_id),
        );
    }
}

} // verus!
