//! Read-only figures that reports are drawn up from.

use crate::epoch::Epoch;
use crate::error::BudgetError;
use crate::model::find_by_name;
use crate::model::find_position;
use crate::model::keys;
use crate::model::name_position;
use crate::model::names;
use crate::model::position_of;
use crate::model::views;
use crate::platform::Id;
use crate::platform::Timestamp;
use crate::proposal::actionable;
use crate::proposal::ProposalView;
use crate::proposal::Resolution;
use crate::system::epoch_ids;
use crate::system::epoch_names;
use crate::system::proposal_with_id;
use crate::system::raffle_proposals;
use crate::system::vote_ids;
use crate::system::BudgetSystem;
use crate::system::SystemView;
use crate::system_epochs::current_epoch_place;
use crate::system_points::team_points;
use crate::system_proposals::epoch_proposals;
use crate::system_vote_flows::ids_without;
use crate::system_vote_flows::without;
use crate::vote::ballot_teams;
use crate::vote::has_ballot;
use crate::vote::Vote;
use crate::vote::VoteCount;
use crate::vote::VoteParticipation;
use crate::vote::VoteParticipationView;
use crate::vote::VoteResult;
use crate::vote::VoteType;
use crate::vote::VoteView;
use vstd::prelude::*;

verus! {

/// How the proposals of an epoch stand.
#[derive(Clone, Copy, Debug, PartialEq, Eq, Structural)]
pub struct ProposalCounts {
    pub total: usize,
    /// Proposals that still await a decision.
    pub open: usize,
    pub approved: usize,
    pub rejected: usize,
    pub retracted: usize,
}

/// How many of the proposals have this resolution.
pub open spec fn resolved_count(proposals: Seq<ProposalView>, resolution: Resolution) -> nat
    decreases proposals.len(),
{
    if proposals.len() == 0 {
        0
    } else {
        resolved_count(proposals.drop_last(), resolution) + if proposals.last().resolution
            == Some(resolution) {
            1nat
        } else {
            0nat
        }
    }
}

/// How many of the proposals await a decision and have none of the three
/// resolutions approved, rejected, retracted.
pub open spec fn open_count(proposals: Seq<ProposalView>) -> nat
    decreases proposals.len(),
{
    if proposals.len() == 0 {
        0
    } else {
        open_count(proposals.drop_last()) + if actionable(proposals.last()) {
            1nat
        } else {
            0nat
        }
    }
}

/// How a team took part in a vote.
#[derive(Clone, Copy, Debug, PartialEq, Eq, Structural)]
pub enum Seat {
    Counted,
    Uncounted,
    Informal,
}

/// The part that a team took in one vote.
#[derive(Clone, Copy, Debug, PartialEq, Eq, Structural)]
pub struct ParticipationRecord {
    pub vote_id: Id,
    pub proposal_id: Id,
    pub seat: Seat,
    /// The points that the vote credits to the team.
    pub points: u32,
    pub result: Option<VoteResult>,
    pub opened_at: Timestamp,
}

/// The seat from which the team took part in the vote, if it took part.
pub open spec fn seat_in(vote: VoteView, team: Id) -> Option<Seat> {
    match (vote.vote_type, vote.participation) {
        (VoteType::Formal { .. }, VoteParticipationView::Formal { counted, uncounted }) => {
            if has_ballot(counted, team) {
                Some(Seat::Counted)
            } else if has_ballot(uncounted, team) {
                Some(Seat::Uncounted)
            } else {
                None
            }
        },
        (VoteType::Informal, VoteParticipationView::Informal(ballots)) => {
            if has_ballot(ballots, team) {
                Some(Seat::Informal)
            } else {
                None
            }
        },
        _ => None,
    }
}

/// The record of the part that the team took in the vote, if it took part.
pub open spec fn record_of(vote: VoteView, team: Id) -> Option<ParticipationRecord> {
    match seat_in(vote, team) {
        Some(seat) => Some(
            ParticipationRecord {
                vote_id: vote.id,
                proposal_id: vote.proposal_id,
                seat,
                points: Vote::spec_points_for(vote, team),
                result: vote.result,
                opened_at: vote.opened_at,
            },
        ),
        None => None,
    }
}

/// The records of the parts that the team took in the votes on these
/// proposals, one for each such vote in which it took part, in the order of
/// the votes.
pub open spec fn records_over(votes: Seq<VoteView>, proposals: Seq<Id>, team: Id) -> Seq<
    ParticipationRecord,
>
    decreases votes.len(),
{
    if votes.len() == 0 {
        Seq::empty()
    } else {
        let before = records_over(votes.drop_last(), proposals, team);
        if proposals.contains(votes.last().proposal_id) {
            match record_of(votes.last(), team) {
                Some(record) => before.push(record),
                None => before,
            }
        } else {
            before
        }
    }
}

/// The points of the records, together.
pub open spec fn record_points(records: Seq<ParticipationRecord>) -> nat
    decreases records.len(),
{
    if records.len() == 0 {
        0
    } else {
        record_points(records.drop_last()) + records.last().points as nat
    }
}

/// The points of a team's records add up to the team's points: a vote in
/// which the team took no part credits it nothing, and each other vote on a
/// proposal of the epoch has its record.
pub proof fn law_records_add_up(votes: Seq<VoteView>, proposals: Seq<Id>, team: Id)
    ensures
        record_points(records_over(votes, proposals, team)) == crate::system_points::points_over(
            votes,
            proposals,
            team,
        ),
    decreases votes.len(),
{
    if votes.len() > 0 {
        law_records_add_up(votes.drop_last(), proposals, team);
        let before = records_over(votes.drop_last(), proposals, team);
        if proposals.contains(votes.last().proposal_id) {
            match record_of(votes.last(), team) {
                Some(record) => {
                    assert(before.push(record).drop_last() =~= before);
                },
                None => {},
            }
        }
    }
}

/// How many of the first `upto` votes belong to the epoch and have the team
/// on the counted list (or, for `counted` false, on the uncounted list but
/// not on the counted one).
pub open spec fn votes_from_seat(
    votes: Seq<VoteView>,
    epoch_id: Id,
    team: Id,
    counted: bool,
    upto: int,
) -> nat
    decreases upto,
{
    if upto <= 0 {
        0
    } else {
        let vote = votes[upto - 1];
        votes_from_seat(votes, epoch_id, team, counted, upto - 1) + if vote.epoch_id == epoch_id
            && (vote.participation matches VoteParticipationView::Formal { counted: c, uncounted: u }
            && (if counted {
            has_ballot(c, team)
        } else {
            !has_ballot(c, team) && has_ballot(u, team)
        })) {
            1nat
        } else {
            0nat
        }
    }
}

/// The epoch that a report is asked for: the first of the given name, or
/// the current one; or why there is none.
pub open spec fn epoch_asked_for(system: SystemView, name: Option<Seq<char>>) -> Result<
    int,
    BudgetError,
> {
    match name {
        Some(n) => match name_position(epoch_names(system.epochs), n) {
            Some(i) => Ok(i),
            None => Err(BudgetError::EpochNotFound),
        },
        None => current_epoch_place(system),
    }
}

/// What a report on a closed vote says in figures.
#[derive(Debug)]
pub struct VoteReport {
    pub counted: VoteCount,
    pub uncounted: VoteCount,
    /// Counted seats from which no yes or no came.
    pub absent: usize,
    pub result: VoteResult,
    /// The teams of the outcome of the raffle, the counted ones first.
    pub deciding_teams: Vec<Id>,
    pub total_eligible_seats: usize,
    pub total_uncounted_seats: usize,
    /// Teams with a counted seat that took no part.
    pub absent_counted: Vec<Id>,
    /// Teams with an uncounted seat that took no part.
    pub absent_uncounted: Vec<Id>,
}

/// The mathematical value of a [`VoteReport`].
pub struct VoteReportView {
    pub counted: VoteCount,
    pub uncounted: VoteCount,
    pub absent: usize,
    pub result: VoteResult,
    pub deciding_teams: Seq<Id>,
    pub total_eligible_seats: usize,
    pub total_uncounted_seats: usize,
    pub absent_counted: Seq<Id>,
    pub absent_uncounted: Seq<Id>,
}

impl View for VoteReport {
    type V = VoteReportView;

    open spec fn view(&self) -> VoteReportView {
        VoteReportView {
            counted: self.counted,
            uncounted: self.uncounted,
            absent: self.absent,
            result: self.result,
            deciding_teams: self.deciding_teams@,
            total_eligible_seats: self.total_eligible_seats,
            total_uncounted_seats: self.total_uncounted_seats,
            absent_counted: self.absent_counted@,
            absent_uncounted: self.absent_uncounted@,
        }
    }
}

/// The counts of a result; those of an informal vote stand as counted.
pub open spec fn result_counts(result: VoteResult) -> (VoteCount, VoteCount) {
    match result {
        VoteResult::Formal { counted, uncounted, .. } => (counted, uncounted),
        VoteResult::Informal { count } => (count, VoteCount { yes: 0, no: 0 }),
    }
}

/// `a - b`, and 0 where `b` is the larger.
pub open spec fn minus_or_zero(a: int, b: int) -> int {
    if a >= b {
        a - b
    } else {
        0
    }
}

/// The figures of the report on the vote, or why there is no report: the
/// vote, its proposal or the raffle of its proposal is missing, the vote is
/// still open, or the raffle has no outcome.
pub open spec fn vote_report(system: SystemView, vote_id: Id) -> Result<VoteReportView, BudgetError> {
    match position_of(vote_ids(system.votes), vote_id) {
        None => Err(BudgetError::VoteNotFound),
        Some(v) => {
            let vote = system.votes[v];
            if proposal_with_id(system, vote.proposal_id) is None {
                Err(BudgetError::ProposalNotFound)
            } else {
                match position_of(raffle_proposals(system.raffles), vote.proposal_id) {
                    None => Err(BudgetError::RaffleNotFound),
                    Some(r) => match vote.result {
                        None => Err(BudgetError::VoteStillOpen),
                        Some(result) => match system.raffles[r].result {
                            None => Err(BudgetError::RaffleNotCompleted),
                            Some(seats) => {
                                let counts = result_counts(result);
                                let seats_total = match vote.vote_type {
                                    VoteType::Formal { total_eligible_seats, .. } => total_eligible_seats,
                                    VoteType::Informal => 0,
                                };
                                let present = match vote.participation {
                                    VoteParticipationView::Formal { counted, uncounted } => (
                                        ballot_teams(counted),
                                        ballot_teams(uncounted),
                                    ),
                                    VoteParticipationView::Informal(_) => (
                                        Seq::empty(),
                                        Seq::empty(),
                                    ),
                                };
                                Ok(
                                    VoteReportView {
                                        counted: counts.0,
                                        uncounted: counts.1,
                                        absent: minus_or_zero(
                                            seats_total as int,
                                            counts.0.yes + counts.0.no,
                                        ) as usize,
                                        result,
                                        deciding_teams: seats.counted + seats.uncounted,
                                        total_eligible_seats: seats_total,
                                        total_uncounted_seats: seats.uncounted.len() as usize,
                                        absent_counted: without(seats.counted, present.0),
                                        absent_uncounted: without(seats.uncounted, present.1),
                                    },
                                )
                            },
                        },
                    },
                }
            }
        },
    }
}

/// The teams of the ballots, in order.
pub fn teams_of_ballots(ballots: &Vec<crate::vote::Ballot>) -> (teams: Vec<Id>)
    ensures
        teams@ == ballot_teams(ballots@),
{
    let mut teams: Vec<Id> = Vec::new();
    let mut i: usize = 0;
    while i < ballots.len()
        invariant
            i <= ballots@.len(),
            teams@ == ballot_teams(ballots@).take(i as int),
        decreases ballots@.len() - i,
    {
        teams.push(ballots[i].team_id);
        assert(teams@ =~= ballot_teams(ballots@).take(i + 1));
        i += 1;
    }
    assert(ballot_teams(ballots@).take(i as int) =~= ballot_teams(ballots@));
    teams
}

impl BudgetSystem {
    /// The epoch of the given name, or the current one, with its id.
    pub fn get_current_or_specified_epoch(&self, epoch_name: Option<&str>) -> (found: Result<
        (&Epoch, Id),
        BudgetError,
    >)
        ensures
            match found {
                Ok((epoch, id)) => epoch_asked_for(
                    self@,
                    match epoch_name {
                        Some(n) => Some(n@),
                        None => None,
                    },
                ) matches Ok(i) && epoch@ == self@.epochs[i] && id == self@.epochs[i].id,
                Err(why) => epoch_asked_for(
                    self@,
                    match epoch_name {
                        Some(n) => Some(n@),
                        None => None,
                    },
                ) == Err::<int, BudgetError>(why),
            },
    {
        match epoch_name {
            Some(name) => {
                assert(names(self.state.epochs@) =~= epoch_names(self@.epochs));
                match find_by_name(&self.state.epochs, name) {
                    Some(i) => Ok((&self.state.epochs[i], self.state.epochs[i].id)),
                    None => Err(BudgetError::EpochNotFound),
                }
            },
            None => match self.current_epoch_index() {
                Ok(i) => Ok((&self.state.epochs[i], self.state.epochs[i].id)),
                Err(why) => Err(why),
            },
        }
    }

    /// How the proposals of the epoch stand.
    pub fn count_proposals(&self, epoch_id: Id) -> (counts: ProposalCounts)
        ensures
            counts.total == epoch_proposals(self@, epoch_id).len(),
            counts.open == open_count(epoch_proposals(self@, epoch_id)),
            counts.approved == resolved_count(
                epoch_proposals(self@, epoch_id),
                Resolution::Approved,
            ),
            counts.rejected == resolved_count(
                epoch_proposals(self@, epoch_id),
                Resolution::Rejected,
            ),
            counts.retracted == resolved_count(
                epoch_proposals(self@, epoch_id),
                Resolution::Retracted,
            ),
    {
        let proposals = self.get_proposals_for_epoch(epoch_id);
        let mut counts = ProposalCounts {
            total: proposals.len(),
            open: 0,
            approved: 0,
            rejected: 0,
            retracted: 0,
        };
        let mut i: usize = 0;
        while i < proposals.len()
            invariant
                i <= proposals@.len(),
                counts.total == proposals@.len(),
                counts.open == open_count(views(proposals@).take(i as int)),
                counts.approved == resolved_count(
                    views(proposals@).take(i as int),
                    Resolution::Approved,
                ),
                counts.rejected == resolved_count(
                    views(proposals@).take(i as int),
                    Resolution::Rejected,
                ),
                counts.retracted == resolved_count(
                    views(proposals@).take(i as int),
                    Resolution::Retracted,
                ),
                counts.open <= i,
                counts.approved <= i,
                counts.rejected <= i,
                counts.retracted <= i,
            decreases proposals@.len() - i,
        {
            assert(views(proposals@).take(i + 1).drop_last() =~= views(proposals@).take(i as int));
            assert(views(proposals@).take(i + 1).last() == proposals@[i as int]@);
            match proposals[i].resolution() {
                Some(Resolution::Approved) => {
                    counts.approved += 1;
                },
                Some(Resolution::Rejected) => {
                    counts.rejected += 1;
                },
                Some(Resolution::Retracted) => {
                    counts.retracted += 1;
                },
                _ => {},
            }
            if proposals[i].is_actionable() {
                counts.open += 1;
            }
            i += 1;
        }
        assert(views(proposals@).take(i as int) =~= views(proposals@));
        counts
    }

    /// The parts that the team took in the votes of the epoch: one record for
    /// each vote on a proposal of the epoch in which it took part. The points
    /// of the records add up to the team's points in the epoch.
    pub fn team_participation(&self, team_id: Id, epoch_id: Id) -> (records: Result<
        Vec<ParticipationRecord>,
        BudgetError,
    >)
        ensures
            match position_of(epoch_ids(self@.epochs), epoch_id) {
                None => records == Err::<Vec<ParticipationRecord>, BudgetError>(
                    BudgetError::EpochNotFound,
                ),
                Some(e) => records matches Ok(list) && list@ == records_over(
                    self@.votes,
                    self@.epochs[e].associated_proposals,
                    team_id,
                ),
            },
    {
        assert(keys(self.state.epochs@) =~= epoch_ids(self@.epochs));
        let e = match find_position(&self.state.epochs, epoch_id) {
            Some(e) => e,
            None => {
                return Err(BudgetError::EpochNotFound);
            },
        };
        let proposals = &self.state.epochs[e].associated_proposals;
        let mut list: Vec<ParticipationRecord> = Vec::new();
        let mut k: usize = 0;
        while k < self.state.votes.len()
            invariant
                k <= self.state.votes@.len(),
                list@ == records_over(self@.votes.take(k as int), proposals@, team_id),
            decreases self.state.votes@.len() - k,
        {
            assert(self@.votes.take(k + 1).drop_last() =~= self@.votes.take(k as int));
            let vote = &self.state.votes[k];
            assert(self@.votes[k as int] == vote@);
            if crate::text::contains_id(proposals, vote.proposal_id) {
                let seat = match (&vote.vote_type, &vote.participation) {
                    (VoteType::Formal { .. }, VoteParticipation::Formal { counted, uncounted }) => {
                        let teams = teams_of_ballots(counted);
                        let others = teams_of_ballots(uncounted);
                        proof {
                            crate::model::lemma_position_of(ballot_teams(counted@), team_id);
                            crate::model::lemma_position_of(ballot_teams(uncounted@), team_id);
                        }
                        if crate::text::contains_id(&teams, team_id) {
                            Some(Seat::Counted)
                        } else if crate::text::contains_id(&others, team_id) {
                            Some(Seat::Uncounted)
                        } else {
                            None
                        }
                    },
                    (VoteType::Informal, VoteParticipation::Informal(ballots)) => {
                        let teams = teams_of_ballots(ballots);
                        proof {
                            crate::model::lemma_position_of(ballot_teams(ballots@), team_id);
                        }
                        if crate::text::contains_id(&teams, team_id) {
                            Some(Seat::Informal)
                        } else {
                            None
                        }
                    },
                    _ => None,
                };
                match seat {
                    Some(seat) => {
                        list.push(
                            ParticipationRecord {
                                vote_id: vote.id,
                                proposal_id: vote.proposal_id,
                                seat,
                                points: vote.points_for(team_id),
                                result: vote.result,
                                opened_at: vote.opened_at,
                            },
                        );
                    },
                    None => {},
                }
            }
            k += 1;
        }
        assert(self@.votes.take(k as int) =~= self@.votes);
        Ok(list)
    }

    /// The points that the team earned in each epoch, in the order of the epochs.
    pub fn get_team_points_history(&self, team_id: Id) -> (history: Result<
        Vec<(Id, u64)>,
        BudgetError,
    >)
        ensures
            match history {
                Ok(rows) => {
                    &&& rows@.len() == self@.epochs.len()
                    &&& forall|i: int|
                        0 <= i < rows@.len() ==> (#[trigger] rows@[i]).0 == self@.epochs[i].id
                            && rows@[i].1 == team_points(self@, self@.epochs[i].id, team_id)
                },
                Err(why) => why == BudgetError::PointsOverflow && exists|i: int|
                    0 <= i < self@.epochs.len() && team_points(
                        self@,
                        (#[trigger] self@.epochs[i]).id,
                        team_id,
                    ) > u64::MAX,
            },
    {
        let mut rows: Vec<(Id, u64)> = Vec::new();
        let mut i: usize = 0;
        while i < self.state.epochs.len()
            invariant
                i <= self.state.epochs@.len(),
                rows@.len() == i,
                forall|j: int|
                    0 <= j < i ==> (#[trigger] rows@[j]).0 == self@.epochs[j].id && rows@[j].1
                        == team_points(self@, self@.epochs[j].id, team_id),
            decreases self.state.epochs@.len() - i,
        {
            let epoch_id = self.state.epochs[i].id;
            assert(self@.epochs[i as int].id == epoch_id);
            match self.calculate_team_points_for_epoch(team_id, epoch_id) {
                Ok(points) => {
                    rows.push((epoch_id, points));
                },
                Err(why) => {
                    return Err(why);
                },
            }
            i += 1;
        }
        Ok(rows)
    }

    /// In how many votes of the epoch the team took part from a counted seat,
    /// and in how many from an uncounted one.
    pub fn get_team_vote_counts(&self, team_id: Id, epoch_id: Id) -> (counts: (usize, usize))
        ensures
            counts.0 == votes_from_seat(
                self@.votes,
                epoch_id,
                team_id,
                true,
                self@.votes.len() as int,
            ),
            counts.1 == votes_from_seat(
                self@.votes,
                epoch_id,
                team_id,
                false,
                self@.votes.len() as int,
            ),
    {
        let mut counted: usize = 0;
        let mut uncounted: usize = 0;
        let mut i: usize = 0;
        while i < self.state.votes.len()
            invariant
                i <= self.state.votes@.len(),
                counted == votes_from_seat(self@.votes, epoch_id, team_id, true, i as int),
                uncounted == votes_from_seat(self@.votes, epoch_id, team_id, false, i as int),
                counted <= i,
                uncounted <= i,
            decreases self.state.votes@.len() - i,
        {
            let vote = &self.state.votes[i];
            assert(self@.votes[i as int] == vote@);
            if vote.epoch_id == epoch_id {
                match &vote.participation {
                    VoteParticipation::Formal { counted: c, uncounted: u } => {
                        let teams = teams_of_ballots(c);
                        let others = teams_of_ballots(u);
                        proof {
                            crate::model::lemma_position_of(ballot_teams(c@), team_id);
                            crate::model::lemma_position_of(ballot_teams(u@), team_id);
                        }
                        if crate::text::contains_id(&teams, team_id) {
                            counted += 1;
                        } else if crate::text::contains_id(&others, team_id) {
                            uncounted += 1;
                        }
                    },
                    VoteParticipation::Informal(_) => {},
                }
            }
            i += 1;
        }
        (counted, uncounted)
    }

    /// The figures of the report on a closed vote.
    pub fn generate_vote_report(&self, vote_id: Id) -> (report: Result<VoteReport, BudgetError>)
        ensures
            match report {
                Ok(figures) => vote_report(self@, vote_id) == Ok::<VoteReportView, BudgetError>(
                    figures@,
                ),
                Err(why) => vote_report(self@, vote_id) == Err::<VoteReportView, BudgetError>(why),
            },
    {
        let vote = match self.vote(vote_id) {
            Some(vote) => vote,
            None => {
                return Err(BudgetError::VoteNotFound);
            },
        };
        if self.proposal(vote.proposal_id).is_none() {
            return Err(BudgetError::ProposalNotFound);
        }
        let mut r: usize = 0;
        let mut found: Option<usize> = None;
        while r < self.state.raffles.len() && found.is_none()
            invariant
                r <= self.state.raffles@.len(),
                match found {
                    Some(at) => at < self.state.raffles@.len() && position_of(
                        raffle_proposals(self@.raffles),
                        vote@.proposal_id,
                    ) == Some(at as int),
                    None => forall|j: int|
                        0 <= j < r ==> raffle_proposals(self@.raffles)[j] != vote@.proposal_id,
                },
            decreases self.state.raffles@.len() - r + if found is None { 1nat } else { 0nat },
        {
            assert(self@.raffles[r as int] == self.state.raffles@[r as int]@);
            if self.state.raffles[r].config.proposal_id == vote.proposal_id {
                proof {
                    crate::model::lemma_position_of_first(
                        raffle_proposals(self@.raffles),
                        vote@.proposal_id,
                        r as int,
                    );
                }
                found = Some(r);
            } else {
                r += 1;
            }
        }
        let raffle = match found {
            Some(at) => &self.state.raffles[at],
            None => {
                proof {
                    crate::model::lemma_position_of_absent(
                        raffle_proposals(self@.raffles),
                        vote@.proposal_id,
                    );
                }
                return Err(BudgetError::RaffleNotFound);
            },
        };
        assert(self@.raffles[found->Some_0 as int] == raffle@);
        let result = match vote.result {
            Some(result) => result,
            None => {
                return Err(BudgetError::VoteStillOpen);
            },
        };
        let seats = match &raffle.result {
            Some(seats) => seats,
            None => {
                return Err(BudgetError::RaffleNotCompleted);
            },
        };
        let (counted, uncounted) = match result {
            VoteResult::Formal { counted, uncounted, .. } => (counted, uncounted),
            VoteResult::Informal { count } => (count, VoteCount { yes: 0, no: 0 }),
        };
        let total_eligible_seats = match vote.vote_type {
            VoteType::Formal { total_eligible_seats, .. } => total_eligible_seats,
            VoteType::Informal => 0,
        };
        let cast = counted.yes as u128 + counted.no as u128;
        let absent = if total_eligible_seats as u128 >= cast {
            (total_eligible_seats as u128 - cast) as usize
        } else {
            0
        };
        let (present_counted, present_uncounted) = match &vote.participation {
            VoteParticipation::Formal { counted: c, uncounted: u } => (
                teams_of_ballots(c),
                teams_of_ballots(u),
            ),
            VoteParticipation::Informal(_) => (Vec::new(), Vec::new()),
        };
        Ok(
            VoteReport {
                counted,
                uncounted,
                absent,
                result,
                deciding_teams: raffle.deciding_teams(),
                total_eligible_seats,
                total_uncounted_seats: seats.uncounted.len(),
                absent_counted: ids_without(&seats.counted, &present_counted),
                absent_uncounted: ids_without(&seats.uncounted, &present_uncounted),
            },
        )
    }
}

} // verus!
