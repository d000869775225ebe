//! The commands that run a whole vote at once: a vote with its ballots, and
//! a vote of the past with its known verdict.

use crate::calendar::day_end;
use crate::calendar::day_start;
use crate::calendar::end_of_day;
use crate::calendar::start_of_day;
use crate::error::BudgetError;
use crate::model::find_position;
use crate::model::keys;
use crate::model::position_of;
use crate::model::views;
use crate::platform::current_timestamp;
use crate::platform::fresh_id;
use crate::platform::Date;
use crate::platform::Id;
use crate::platform::Timestamp;
use crate::proposal::or_keep;
use crate::proposal::resolve_rejection;
use crate::proposal::ProposalStatus;
use crate::proposal::ProposalView;
use crate::proposal::Resolution;
use crate::raffle::Raffle;
use crate::raffle::RaffleResultView;
use crate::raffle::RaffleView;
use crate::system::proposal_ids;
use crate::system::proposal_named;
use crate::system::proposal_with_id;
use crate::system::raffle_named;
use crate::system::raffle_with_id;
use crate::system::team_named;
use crate::system::vote_ids;
use crate::system::BudgetSystem;
use crate::system::SystemView;
use crate::system_raffles::teams_named;
use crate::vote::cast_all;
use crate::system_votes::closed_vote;
use crate::vote::first_rejection;
use crate::system_votes::formal_vote_opened;
use crate::system_votes::passed;
use crate::system_votes::vote_stored;
use crate::text::contains_id;
use crate::vote::find_seat;
use crate::vote::seat_of;
use crate::vote::with_ballot;
use crate::vote::Ballot;
use crate::vote::Vote;
use crate::vote::VoteChoice;
use crate::vote::VoteParticipationView;
use crate::vote::VoteResult;
use crate::vote::VoteStatus;
use crate::vote::VoteType;
use crate::vote::VoteView;
use vstd::prelude::*;

verus! {

/// The answer of a team that is given by its name. Answers come as a list
/// and are taken in its order, so that the first answer that is refused is
/// the same on every run.
#[derive(Debug)]
pub struct NamedBallot {
    pub team: String,
    pub choice: VoteChoice,
}

impl View for NamedBallot {
    type V = (Seq<char>, VoteChoice);

    open spec fn view(&self) -> (Seq<char>, VoteChoice) {
        (self.team@, self.choice)
    }
}

/// The proposal of this title and the raffle drawn for it, or which of them is missing.
pub open spec fn proposal_and_raffle(system: SystemView, title: Seq<char>) -> Result<
    (Id, Id),
    BudgetError,
> {
    match proposal_named(system, title) {
        None => Err(BudgetError::ProposalNotFound),
        Some(proposal) => match raffle_named(system, title) {
            None => Err(BudgetError::RaffleNotFound),
            Some(raffle) => Ok((proposal, raffle)),
        },
    }
}

/// Why the first of the named ballots that does not fit the seats does not
/// fit, if one does not: its team is unknown, or holds none of the seats.
pub open spec fn seat_rejection(
    system: SystemView,
    ballots: Seq<(Seq<char>, VoteChoice)>,
    seats: Seq<Id>,
) -> Option<BudgetError>
    decreases ballots.len(),
{
    if ballots.len() == 0 {
        None
    } else {
        match seat_rejection(system, ballots.drop_last(), seats) {
            Some(why) => Some(why),
            None => match team_named(system, ballots.last().0) {
                None => Some(BudgetError::TeamNotFound),
                Some(team) => if seats.contains(team) {
                    None
                } else {
                    Some(BudgetError::TeamNotEligible { team })
                },
            },
        }
    }
}

/// Why the ballots do not fit the outcome of the raffle, if they do not.
pub open spec fn ballots_rejection(
    system: SystemView,
    raffle: RaffleView,
    counted: Seq<(Seq<char>, VoteChoice)>,
    uncounted: Seq<(Seq<char>, VoteChoice)>,
) -> Option<BudgetError> {
    match raffle.result {
        None => Some(BudgetError::RaffleNotCompleted),
        Some(seats) => match seat_rejection(system, counted, seats.counted) {
            Some(why) => Some(why),
            None => seat_rejection(system, uncounted, seats.uncounted),
        },
    }
}

/// The ballots of the teams that the names name, in order; a ballot whose
/// name names no team is passed over.
pub open spec fn named_ballots(system: SystemView, ballots: Seq<(Seq<char>, VoteChoice)>) -> Seq<
    Ballot,
>
    decreases ballots.len(),
{
    if ballots.len() == 0 {
        Seq::empty()
    } else {
        let before = named_ballots(system, ballots.drop_last());
        match team_named(system, ballots.last().0) {
            Some(team) => before.push(Ballot { team_id: team, choice: ballots.last().1 }),
            None => before,
        }
    }
}

/// The resolution that a verdict gives a proposal.
pub open spec fn verdict_resolution(passed: bool) -> Resolution {
    if passed {
        Resolution::Approved
    } else {
        Resolution::Rejected
    }
}

/// The state after the vote was closed and its proposal resolved by the
/// verdict, or why neither happens. An informal vote resolves nothing.
pub open spec fn vote_closed_and_proposal_updated(
    system: SystemView,
    vote_id: Id,
    proposal_id: Id,
    vote_closed: Option<Date>,
    now: Timestamp,
) -> Result<SystemView, BudgetError> {
    match position_of(vote_ids(system.votes), vote_id) {
        None => Err(BudgetError::VoteNotFound),
        Some(v) => if system.votes[v].status == VoteStatus::Closed {
            Err(BudgetError::VoteAlreadyClosed)
        } else {
            match position_of(proposal_ids(system.proposals), proposal_id) {
                None => Err(BudgetError::ProposalNotFound),
                Some(p) => {
                    let vote = closed_vote(system.votes[v], now);
                    match vote.result {
                        Some(VoteResult::Formal { passed, .. }) => match resolve_rejection(
                            system.proposals[p],
                        ) {
                            Some(why) => Err(why),
                            None => Ok(
                                SystemView {
                                    votes: system.votes.update(v, vote),
                                    proposals: system.proposals.update(
                                        p,
                                        ProposalView {
                                            resolution: Some(verdict_resolution(passed)),
                                            resolved_at: or_keep(
                                                vote_closed,
                                                system.proposals[p].resolved_at,
                                            ),
                                            ..system.proposals[p]
                                        },
                                    ),
                                    ..system
                                },
                            ),
                        },
                        _ => Ok(SystemView { votes: system.votes.update(v, vote), ..system }),
                    }
                },
            }
        },
    }
}

/// The ids without those that `excluded` holds, in order.
pub open spec fn without(ids: Seq<Id>, excluded: Seq<Id>) -> Seq<Id>
    decreases ids.len(),
{
    if ids.len() == 0 {
        Seq::empty()
    } else {
        let before = without(ids.drop_last(), excluded);
        if excluded.contains(ids.last()) {
            before
        } else {
            before.push(ids.last())
        }
    }
}

/// Who took part and who did not, from whichever list is given: the named
/// participants, else all seated teams but the named absentees, else all seated teams.
pub open spec fn participation_split(
    system: SystemView,
    seats: RaffleResultView,
    participating: Seq<Seq<char>>,
    non_participating: Seq<Seq<char>>,
) -> (Seq<Id>, Seq<Id>) {
    let all = seats.counted + seats.uncounted;
    if participating.len() > 0 {
        let present = teams_named(system, participating);
        (present, without(all, present))
    } else if non_participating.len() > 0 {
        let absent = teams_named(system, non_participating);
        (without(all, absent), absent)
    } else {
        (all, Seq::empty())
    }
}

/// The participation of a formal vote of the past: each of the teams that
/// holds a seat is entered on the list of its seat, without an answer.
pub open spec fn historical_participation(seats: RaffleResultView, teams: Seq<Id>) -> VoteParticipationView
    decreases teams.len(),
{
    if teams.len() == 0 {
        VoteParticipationView::Formal { counted: Seq::empty(), uncounted: Seq::empty() }
    } else {
        let before = historical_participation(seats, teams.drop_last());
        match seat_of(seats, teams.last()) {
            Some(counted) => with_ballot(before, teams.last(), VoteChoice::Abstain, counted),
            None => before,
        }
    }
}

/// The state after a vote of the past was entered with its verdict and its
/// proposal closed by it, or why it is not entered.
pub open spec fn historical_vote_imported(
    system: SystemView,
    id: Id,
    now: Timestamp,
    title: Seq<char>,
    verdict: bool,
    participating: Seq<Seq<char>>,
    non_participating: Seq<Seq<char>>,
    counted_points: Option<u32>,
    uncounted_points: Option<u32>,
) -> Result<SystemView, BudgetError> {
    match proposal_and_raffle(system, title) {
        Err(why) => Err(why),
        Ok((proposal_id, raffle_id)) => {
            let raffle = raffle_with_id(system, raffle_id)->Some_0;
            let p = position_of(proposal_ids(system.proposals), proposal_id)->Some_0;
            match raffle.result {
                None => Err(BudgetError::RaffleNotCompleted),
                Some(seats) => match resolve_rejection(system.proposals[p]) {
                    Some(why) => Err(why),
                    None => {
                        let vote_type = VoteType::Formal {
                            raffle_id,
                            total_eligible_seats: raffle.config.total_counted_seats,
                            threshold: system.config.default_qualified_majority_threshold,
                            counted_points: match counted_points {
                                Some(points) => points,
                                None => system.config.counted_vote_points,
                            },
                            uncounted_points: match uncounted_points {
                                Some(points) => points,
                                None => system.config.uncounted_vote_points,
                            },
                        };
                        let present = participation_split(
                            system,
                            seats,
                            participating,
                            non_participating,
                        ).0;
                        let vote = VoteView {
                            id,
                            proposal_id,
                            epoch_id: raffle.config.epoch_id,
                            vote_type,
                            status: VoteStatus::Closed,
                            participation: historical_participation(seats, present),
                            result: Some(
                                VoteResult::Formal {
                                    counted: crate::vote::VoteCount { yes: 0, no: 0 },
                                    uncounted: crate::vote::VoteCount { yes: 0, no: 0 },
                                    passed: verdict,
                                },
                            ),
                            opened_at: now,
                            closed_at: Some(now),
                            is_historical: true,
                        };
                        match vote_stored(system, vote) {
                            Err(why) => Err(why),
                            Ok(stored) => Ok(
                                SystemView {
                                    proposals: system.proposals.update(
                                        p,
                                        ProposalView {
                                            resolution: Some(verdict_resolution(verdict)),
                                            status: ProposalStatus::Closed,
                                            ..system.proposals[p]
                                        },
                                    ),
                                    ..stored
                                },
                            ),
                        }
                    },
                },
            }
        },
    }
}

/// The state after a formal vote on the first proposal of this title was
/// opened, took the named ballots, was closed and resolved the proposal by
/// its verdict; or why none of this happens.
pub open spec fn vote_processed(
    system: SystemView,
    id: Id,
    now: Timestamp,
    title: Seq<char>,
    counted: Seq<(Seq<char>, VoteChoice)>,
    uncounted: Seq<(Seq<char>, VoteChoice)>,
    vote_opened: Option<Date>,
    vote_closed: Option<Date>,
) -> Result<SystemView, BudgetError> {
    match proposal_and_raffle(system, title) {
        Err(why) => Err(why),
        Ok((proposal_id, raffle_id)) => {
            let raffle = raffle_with_id(system, raffle_id)->Some_0;
            let p = position_of(proposal_ids(system.proposals), proposal_id)->Some_0;
            let proposal = system.proposals[p];
            if proposal.resolution is Some {
                Err(BudgetError::ResolutionAlreadySet)
            } else {
                match ballots_rejection(system, raffle, counted, uncounted) {
                    Some(why) => Err(why),
                    None => match formal_vote_opened(system, id, now, proposal_id, raffle_id, None) {
                        Err(why) => Err(why),
                        Ok(opened) => {
                            let ballots = named_ballots(system, counted + uncounted);
                            match first_rejection(opened, ballots, raffle.result) {
                                Some(why) => Err(why),
                                None => {
                                    let filled = VoteView {
                                        participation: cast_all(
                                            opened.participation,
                                            ballots,
                                            raffle.result,
                                        ),
                                        opened_at: match vote_opened {
                                            Some(day) => day_start(day),
                                            None => now,
                                        },
                                        ..opened
                                    };
                                    let closed = closed_vote(
                                        filled,
                                        match vote_closed {
                                            Some(day) => day_end(day),
                                            None => now,
                                        },
                                    );
                                    match vote_stored(system, closed) {
                                        Err(why) => Err(why),
                                        Ok(stored) => Ok(
                                            SystemView {
                                                proposals: system.proposals.update(
                                                    p,
                                                    ProposalView {
                                                        resolution: Some(
                                                            verdict_resolution(
                                                                passed(closed.result->Some_0),
                                                            ),
                                                        ),
                                                        resolved_at: or_keep(
                                                            vote_closed,
                                                            proposal.resolved_at,
                                                        ),
                                                        ..proposal
                                                    },
                                                ),
                                                ..stored
                                            },
                                        ),
                                    }
                                },
                            }
                        },
                    },
                }
            }
        },
    }
}

impl BudgetSystem {
    /// The first proposal of this title and the first raffle drawn for it.
    pub fn find_proposal_and_raffle(&self, proposal_name: &str) -> (found: Result<
        (Id, Id),
        BudgetError,
    >)
        ensures
            found == proposal_and_raffle(self@, proposal_name@),
    {
        match self.get_proposal_id_by_name(proposal_name) {
            None => Err(BudgetError::ProposalNotFound),
            Some(proposal) => match self.get_raffle_id_by_name(proposal_name) {
                None => Err(BudgetError::RaffleNotFound),
                Some(raffle) => Ok((proposal, raffle)),
            },
        }
    }

    fn check_seats(&self, ballots: &Vec<NamedBallot>, seats: &Vec<Id>) -> (why: Option<BudgetError>)
        ensures
            why == seat_rejection(self@, views(ballots@), seats@),
    {
        let mut i: usize = 0;
        while i < ballots.len()
            invariant
                i <= ballots@.len(),
                seat_rejection(self@, views(ballots@).take(i as int), seats@) is None,
            decreases ballots@.len() - i,
        {
            assert(views(ballots@).take(i + 1).drop_last() =~= views(ballots@).take(i as int));
            assert(views(ballots@).take(i + 1).last() == ballots@[i as int]@);
            let why = match self.get_team_id_by_name(ballots[i].team.as_str()) {
                None => Some(BudgetError::TeamNotFound),
                Some(team) => if contains_id(seats, team) {
                    None
                } else {
                    Some(BudgetError::TeamNotEligible { team })
                },
            };
            if why.is_some() {
                proof {
                    lemma_seat_rejection_prefix(self@, views(ballots@), seats@, i + 1);
                }
                return why;
            }
            i += 1;
        }
        assert(views(ballots@).take(i as int) =~= views(ballots@));
        None
    }

    /// Checks the named ballots against the outcome of the raffle: each
    /// counted ballot must come from a counted seat and each uncounted ballot
    /// from an uncounted one.
    pub fn validate_votes_against_raffle(
        &self,
        raffle: &Raffle,
        counted_votes: &Vec<NamedBallot>,
        uncounted_votes: &Vec<NamedBallot>,
    ) -> (done: Result<(), BudgetError>)
        ensures
            match done {
                Ok(()) => ballots_rejection(
                    self@,
                    raffle@,
                    views(counted_votes@),
                    views(uncounted_votes@),
                ) is None,
                Err(why) => ballots_rejection(
                    self@,
                    raffle@,
                    views(counted_votes@),
                    views(uncounted_votes@),
                ) == Some(why),
            },
    {
        match &raffle.result {
            None => Err(BudgetError::RaffleNotCompleted),
            Some(seats) => match self.check_seats(counted_votes, &seats.counted) {
                Some(why) => Err(why),
                None => match self.check_seats(uncounted_votes, &seats.uncounted) {
                    Some(why) => Err(why),
                    None => Ok(()),
                },
            },
        }
    }

    /// Checks the named ballots against the outcome of the raffle with this id.
    pub fn validate_votes(
        &self,
        raffle_id: Id,
        counted_votes: &Vec<NamedBallot>,
        uncounted_votes: &Vec<NamedBallot>,
    ) -> (done: Result<(), BudgetError>)
        ensures
            match raffle_with_id(self@, raffle_id) {
                None => done == Err::<(), BudgetError>(BudgetError::RaffleNotFound),
                Some(raffle) => match ballots_rejection(
                    self@,
                    raffle,
                    views(counted_votes@),
                    views(uncounted_votes@),
                ) {
                    Some(why) => done == Err::<(), BudgetError>(why),
                    None => done is Ok,
                },
            },
    {
        match self.raffle(raffle_id) {
            None => Err(BudgetError::RaffleNotFound),
            Some(raffle) => self.validate_votes_against_raffle(
                raffle,
                counted_votes,
                uncounted_votes,
            ),
        }
    }

    /// The ballots of the teams that the names name.
    pub fn resolve_ballots(&self, ballots: &Vec<NamedBallot>, into: &mut Vec<Ballot>)
        ensures
            final(into)@ == old(into)@ + named_ballots(self@, views(ballots@)),
    {
        let mut i: usize = 0;
        assert(into@ =~= old(into)@ + named_ballots(self@, views(ballots@).take(0)));
        while i < ballots.len()
            invariant
                i <= ballots@.len(),
                into@ == old(into)@ + named_ballots(self@, views(ballots@).take(i as int)),
            decreases ballots@.len() - i,
        {
            assert(views(ballots@).take(i + 1).drop_last() =~= views(ballots@).take(i as int));
            assert(views(ballots@).take(i + 1).last() == ballots@[i as int]@);
            match self.get_team_id_by_name(ballots[i].team.as_str()) {
                Some(team) => {
                    into.push(Ballot { team_id: team, choice: ballots[i].choice });
                    assert(into@ =~= old(into)@ + named_ballots(
                        self@,
                        views(ballots@).take(i + 1),
                    ));
                },
                None => {},
            }
            i += 1;
        }
        assert(views(ballots@).take(i as int) =~= views(ballots@));
    }
}

impl BudgetSystem {
    /// Closes the vote at the instant `now` and resolves its proposal as
    /// approved if the vote passed and as rejected if it did not. Where a
    /// day of closing is given, the proposal is resolved on that day. An
    /// informal vote is closed and resolves nothing. Returns whether the vote passed.
    pub fn close_vote_and_update_proposal_at(
        &mut self,
        vote_id: Id,
        proposal_id: Id,
        vote_closed: Option<Date>,
        now: Timestamp,
    ) -> (done: Result<bool, BudgetError>)
        ensures
            match vote_closed_and_proposal_updated(
                old(self)@,
                vote_id,
                proposal_id,
                vote_closed,
                now,
            ) {
                Ok(next) => {
                    &&& final(self)@ == next
                    &&& position_of(vote_ids(old(self)@.votes), vote_id) matches Some(v)
                        && done == Ok::<bool, BudgetError>(
                        passed(closed_vote(old(self)@.votes[v], now).result->Some_0),
                    )
                },
                Err(why) => done == Err::<bool, BudgetError>(why) && *final(self) == *old(self),
            },
    {
        assert(keys(self.state.votes@) =~= vote_ids(self@.votes));
        assert(keys(self.state.proposals@) =~= proposal_ids(self@.proposals));
        let v = match find_position(&self.state.votes, vote_id) {
            Some(v) => v,
            None => {
                return Err(BudgetError::VoteNotFound);
            },
        };
        if self.state.votes[v].status == VoteStatus::Closed {
            return Err(BudgetError::VoteAlreadyClosed);
        }
        let p = match find_position(&self.state.proposals, proposal_id) {
            Some(p) => p,
            None => {
                return Err(BudgetError::ProposalNotFound);
            },
        };
        let mut vote = self.state.votes[v].clone();
        let closed = vote.close(now);
        assert(closed is Ok);
        match vote.result {
            Some(VoteResult::Formal { passed, .. }) => {
                match self.state.proposals[p].check_resolve() {
                    Some(why) => {
                        return Err(why);
                    },
                    None => {},
                }
                let resolution = if passed {
                    Resolution::Approved
                } else {
                    Resolution::Rejected
                };
                self.state.proposals[p].resolution = Some(resolution);
                match vote_closed {
                    Some(day) => {
                        self.state.proposals[p].resolved_at = Some(day);
                    },
                    None => {},
                }
                self.state.votes.set(v, vote);
                assert(self@.votes =~= old(self)@.votes.update(
                    v as int,
                    closed_vote(old(self)@.votes[v as int], now),
                ));
                assert(self@.proposals =~= old(self)@.proposals.update(
                    p as int,
                    ProposalView {
                        resolution: Some(verdict_resolution(passed)),
                        resolved_at: or_keep(vote_closed, old(self)@.proposals[p as int].resolved_at),
                        ..old(self)@.proposals[p as int]
                    },
                ));
                Ok(passed)
            },
            _ => {
                self.state.votes.set(v, vote);
                assert(self@.votes =~= old(self)@.votes.update(
                    v as int,
                    closed_vote(old(self)@.votes[v as int], now),
                ));
                Ok(false)
            },
        }
    }

    /// Opens a formal vote on the first proposal of this title under the
    /// given id, takes the named ballots, closes the vote and resolves the
    /// proposal by its verdict. The vote is dated to the given days, and to
    /// `now` where none is given. Returns whether the vote passed. Where any
    /// step is refused nothing happens.
    pub fn create_and_process_vote_at(
        &mut self,
        id: Id,
        now: Timestamp,
        proposal_name: &str,
        counted_votes: Vec<NamedBallot>,
        uncounted_votes: Vec<NamedBallot>,
        vote_opened: Option<Date>,
        vote_closed: Option<Date>,
    ) -> (done: Result<bool, BudgetError>)
        ensures
            match vote_processed(
                old(self)@,
                id,
                now,
                proposal_name@,
                views(counted_votes@),
                views(uncounted_votes@),
                vote_opened,
                vote_closed,
            ) {
                Ok(next) => {
                    &&& final(self)@ == next
                    &&& next.votes.len() > 0
                    &&& next.votes.last().result matches Some(result) && done == Ok::<
                        bool,
                        BudgetError,
                    >(passed(result))
                },
                Err(why) => done == Err::<bool, BudgetError>(why) && *final(self) == *old(self),
            },
    {
        let (proposal_id, raffle_id) = match self.find_proposal_and_raffle(proposal_name) {
            Ok(found) => found,
            Err(why) => {
                return Err(why);
            },
        };
        proof {
            lemma_found_by_name(self@, proposal_name@);
        }
        assert(keys(self.state.proposals@) =~= proposal_ids(self@.proposals));
        let p = match find_position(&self.state.proposals, proposal_id) {
            Some(p) => p,
            None => {
                return Err(BudgetError::ProposalNotFound);
            },
        };
        let raffle = match self.raffle(raffle_id) {
            Some(raffle) => raffle,
            None => {
                return Err(BudgetError::RaffleNotFound);
            },
        };
        proof {
            lemma_found_by_name(self@, proposal_name@);
        }
        if self.state.proposals[p].resolution.is_some() {
            return Err(BudgetError::ResolutionAlreadySet);
        }
        match self.validate_votes_against_raffle(raffle, &counted_votes, &uncounted_votes) {
            Err(why) => {
                return Err(why);
            },
            Ok(()) => {},
        }
        let mut vote = match self.open_formal_vote(id, now, proposal_id, raffle_id, None) {
            Ok(vote) => vote,
            Err(why) => {
                return Err(why);
            },
        };
        let ghost opened = vote@;
        let mut ballots: Vec<Ballot> = Vec::new();
        self.resolve_ballots(&counted_votes, &mut ballots);
        self.resolve_ballots(&uncounted_votes, &mut ballots);
        proof {
            lemma_named_ballots_join(self@, views(counted_votes@), views(uncounted_votes@));
            assert(views(counted_votes@) + views(uncounted_votes@) =~= views(counted_votes@)
                + views(uncounted_votes@));
            assert(ballots@ =~= named_ballots(
                self@,
                views(counted_votes@) + views(uncounted_votes@),
            ));
        }
        match vote.cast_ballots(&ballots, raffle.result()) {
            Err(why) => {
                return Err(why);
            },
            Ok(()) => {},
        }
        match vote_opened {
            Some(day) => {
                vote.opened_at = start_of_day(day);
            },
            None => {},
        }
        let closing = match vote_closed {
            Some(day) => end_of_day(day),
            None => now,
        };
        let closed = vote.close(closing);
        assert(closed is Ok);
        let verdict = match vote.result {
            Some(VoteResult::Formal { passed, .. }) => passed,
            _ => false,
        };
        assert(keys(self.state.votes@) =~= vote_ids(self@.votes));
        if find_position(&self.state.votes, id).is_some() {
            return Err(BudgetError::DuplicateId);
        }
        let ghost stored = vote@;
        self.state.votes.push(vote);
        self.state.proposals[p].resolution = Some(
            if verdict {
                Resolution::Approved
            } else {
                Resolution::Rejected
            },
        );
        match vote_closed {
            Some(day) => {
                self.state.proposals[p].resolved_at = Some(day);
            },
            None => {},
        }
        assert(self@.votes =~= old(self)@.votes.push(stored));
        assert(self@.proposals =~= old(self)@.proposals.update(
            p as int,
            ProposalView {
                resolution: Some(verdict_resolution(verdict)),
                resolved_at: or_keep(vote_closed, old(self)@.proposals[p as int].resolved_at),
                ..old(self)@.proposals[p as int]
            },
        ));
        Ok(verdict)
    }

    /// Runs a whole formal vote under a fresh id, at the present instant, and
    /// returns the id of the vote and whether it passed. In the event that
    /// the fresh id is taken nothing happens.
    pub fn create_and_process_vote(
        &mut self,
        proposal_name: &str,
        counted_votes: Vec<NamedBallot>,
        uncounted_votes: Vec<NamedBallot>,
        vote_opened: Option<Date>,
        vote_closed: Option<Date>,
    ) -> (done: Result<(Id, bool), BudgetError>)
        ensures
            done matches Ok(made) ==> ({
                exists|now: Timestamp|
                    #[trigger] vote_processed(
                        old(self)@,
                        made.0,
                        now,
                        proposal_name@,
                        views(counted_votes@),
                        views(uncounted_votes@),
                        vote_opened,
                        vote_closed,
                    ) == Ok::<SystemView, BudgetError>(final(self)@)
            }),
            done matches Ok(made) ==> {
                &&& final(self)@.votes.len() > 0
                &&& final(self)@.votes.last().id == made.0
                &&& final(self)@.votes.last().result matches Some(result) && made.1 == passed(
                    result,
                )
            },
            done matches Err(why) ==> {
                &&& *final(self) == *old(self)
                &&& exists|id: Id, now: Timestamp|
                    #[trigger] vote_processed(
                        old(self)@,
                        id,
                        now,
                        proposal_name@,
                        views(counted_votes@),
                        views(uncounted_votes@),
                        vote_opened,
                        vote_closed,
                    ) == Err::<SystemView, BudgetError>(why)
            },
    {
        let id = fresh_id();
        let now = current_timestamp();
        let ran = self.create_and_process_vote_at(
            id,
            now,
            proposal_name,
            counted_votes,
            uncounted_votes,
            vote_opened,
            vote_closed,
        );
        proof {
            let outcome = vote_processed(
                old(self)@,
                id,
                now,
                proposal_name@,
                views(counted_votes@),
                views(uncounted_votes@),
                vote_opened,
                vote_closed,
            );
            if ran is Ok {
                assert(outcome == Ok::<SystemView, BudgetError>(self@));
            } else {
                assert(outcome == Err::<SystemView, BudgetError>(ran->Err_0));
            }
        }
        let result = match ran {
            Ok(verdict) => Ok((id, verdict)),
            Err(why) => Err(why),
        };
        proof {
            if result is Ok {
                assert(result->Ok_0.0 == id);
                assert(vote_processed(
                    old(self)@,
                    result->Ok_0.0,
                    now,
                    proposal_name@,
                    views(counted_votes@),
                    views(uncounted_votes@),
                    vote_opened,
                    vote_closed,
                ) == Ok::<SystemView, BudgetError>(self@));
            }
        }
        result
    }
}

/// The ids without those that `excluded` holds, in order.
pub fn ids_without(ids: &Vec<Id>, excluded: &Vec<Id>) -> (kept: Vec<Id>)
    ensures
        kept@ == without(ids@, excluded@),
{
    let mut kept: Vec<Id> = Vec::new();
    let mut i: usize = 0;
    while i < ids.len()
        invariant
            i <= ids@.len(),
            kept@ == without(ids@.take(i as int), excluded@),
        decreases ids@.len() - i,
    {
        assert(ids@.take(i + 1).drop_last() =~= ids@.take(i as int));
        if !contains_id(excluded, ids[i]) {
            kept.push(ids[i]);
        }
        i += 1;
    }
    assert(ids@.take(i as int) =~= ids@);
    kept
}

impl BudgetSystem {
    /// Who took part in a vote of the past and who did not, from whichever
    /// list of names is given.
    pub fn determine_participation(
        &self,
        raffle: &Raffle,
        participating_teams: &Vec<String>,
        non_participating_teams: &Vec<String>,
    ) -> (split: Result<(Vec<Id>, Vec<Id>), BudgetError>)
        ensures
            match raffle@.result {
                None => split == Err::<(Vec<Id>, Vec<Id>), BudgetError>(
                    BudgetError::RaffleNotCompleted,
                ),
                Some(seats) => split matches Ok(lists) && (lists.0@, lists.1@)
                    == participation_split(
                    self@,
                    seats,
                    views(participating_teams@),
                    views(non_participating_teams@),
                ),
            },
    {
        if !raffle.is_completed() {
            return Err(BudgetError::RaffleNotCompleted);
        }
        let all = raffle.deciding_teams();
        if participating_teams.len() > 0 {
            let present = self.resolve_team_names(participating_teams);
            let absent = ids_without(&all, &present);
            Ok((present, absent))
        } else if non_participating_teams.len() > 0 {
            let absent = self.resolve_team_names(non_participating_teams);
            let present = ids_without(&all, &absent);
            Ok((present, absent))
        } else {
            Ok((all, Vec::new()))
        }
    }

    /// Enters, under the given id, a vote of the past on the first proposal
    /// of this title: who took part, and the known verdict. The proposal is
    /// resolved by the verdict and closed. The vote is marked historical and
    /// dated `now`.
    pub fn import_historical_vote_at(
        &mut self,
        id: Id,
        now: Timestamp,
        proposal_name: &str,
        passed: bool,
        participating_teams: Vec<String>,
        non_participating_teams: Vec<String>,
        counted_points: Option<u32>,
        uncounted_points: Option<u32>,
    ) -> (done: Result<(), BudgetError>)
        ensures
            match historical_vote_imported(
                old(self)@,
                id,
                now,
                proposal_name@,
                passed,
                views(participating_teams@),
                views(non_participating_teams@),
                counted_points,
                uncounted_points,
            ) {
                Ok(next) => done is Ok && final(self)@ == next,
                Err(why) => done == Err::<(), BudgetError>(why) && *final(self) == *old(self),
            },
    {
        let (proposal_id, raffle_id) = match self.find_proposal_and_raffle(proposal_name) {
            Ok(found) => found,
            Err(why) => {
                return Err(why);
            },
        };
        proof {
            lemma_found_by_name(self@, proposal_name@);
        }
        assert(keys(self.state.proposals@) =~= proposal_ids(self@.proposals));
        let p = match find_position(&self.state.proposals, proposal_id) {
            Some(p) => p,
            None => {
                return Err(BudgetError::ProposalNotFound);
            },
        };
        let raffle = match self.raffle(raffle_id) {
            Some(raffle) => raffle,
            None => {
                return Err(BudgetError::RaffleNotFound);
            },
        };
        let (present, _absent) = match self.determine_participation(
            raffle,
            &participating_teams,
            &non_participating_teams,
        ) {
            Ok(lists) => lists,
            Err(why) => {
                return Err(why);
            },
        };
        let seats = match raffle.result() {
            Some(seats) => seats,
            None => {
                return Err(BudgetError::RaffleNotCompleted);
            },
        };
        match self.state.proposals[p].check_resolve() {
            Some(why) => {
                return Err(why);
            },
            None => {},
        }
        let vote_type = VoteType::Formal {
            raffle_id,
            total_eligible_seats: raffle.config.total_counted_seats,
            threshold: self.config.default_qualified_majority_threshold,
            counted_points: match counted_points {
                Some(points) => points,
                None => self.config.counted_vote_points,
            },
            uncounted_points: match uncounted_points {
                Some(points) => points,
                None => self.config.uncounted_vote_points,
            },
        };
        let mut vote = Vote::new(id, proposal_id, raffle.config.epoch_id, vote_type, true, now);
        let ghost opened = vote@;
        let mut i: usize = 0;
        while i < present.len()
            invariant
                i <= present@.len(),
                opened.status == VoteStatus::Open,
                vote@ == (VoteView {
                    participation: historical_participation(seats@, present@.take(i as int)),
                    ..opened
                }),
            decreases present@.len() - i,
        {
            assert(present@.take(i + 1).drop_last() =~= present@.take(i as int));
            match find_seat(seats, present[i]) {
                Some(counted) => {
                    let entered = vote.add_participant(present[i], counted);
                    assert(entered is Ok);
                },
                None => {},
            }
            i += 1;
        }
        assert(present@.take(i as int) =~= present@);
        let closed = vote.close_historical(passed, now);
        assert(closed is Ok);
        proof {
            lemma_historical_participation_formal(seats@, present@);
        }
        assert(keys(self.state.votes@) =~= vote_ids(self@.votes));
        if find_position(&self.state.votes, id).is_some() {
            return Err(BudgetError::DuplicateId);
        }
        let ghost stored = vote@;
        self.state.votes.push(vote);
        self.state.proposals[p].resolution = Some(
            if passed {
                Resolution::Approved
            } else {
                Resolution::Rejected
            },
        );
        self.state.proposals[p].status = ProposalStatus::Closed;
        assert(self@.votes =~= old(self)@.votes.push(stored));
        assert(self@.proposals =~= old(self)@.proposals.update(
            p as int,
            ProposalView {
                resolution: Some(verdict_resolution(passed)),
                status: ProposalStatus::Closed,
                ..old(self)@.proposals[p as int]
            },
        ));
        Ok(())
    }

    /// Enters a vote of the past under a fresh id, dated to the present
    /// instant, and returns the id. In the event that the fresh id is taken
    /// nothing happens.
    pub fn import_historical_vote(
        &mut self,
        proposal_name: &str,
        passed: bool,
        participating_teams: Vec<String>,
        non_participating_teams: Vec<String>,
        counted_points: Option<u32>,
        uncounted_points: Option<u32>,
    ) -> (done: Result<Id, BudgetError>)
        ensures
            done matches Ok(id) ==> final(self)@.votes.len() > 0 && historical_vote_imported(
                old(self)@,
                id,
                final(self)@.votes.last().opened_at,
                proposal_name@,
                passed,
                views(participating_teams@),
                views(non_participating_teams@),
                counted_points,
                uncounted_points,
            ) == Ok::<SystemView, BudgetError>(final(self)@),
            done matches Err(why) ==> {
                &&& *final(self) == *old(self)
                &&& exists|id: Id, now: Timestamp|
                    #[trigger] historical_vote_imported(
                        old(self)@,
                        id,
                        now,
                        proposal_name@,
                        passed,
                        views(participating_teams@),
                        views(non_participating_teams@),
                        counted_points,
                        uncounted_points,
                    ) == Err::<SystemView, BudgetError>(why)
            },
    {
        let id = fresh_id();
        let now = current_timestamp();
        let ran = self.import_historical_vote_at(
            id,
            now,
            proposal_name,
            passed,
            participating_teams,
            non_participating_teams,
            counted_points,
            uncounted_points,
        );
        proof {
            let outcome = historical_vote_imported(
                old(self)@,
                id,
                now,
                proposal_name@,
                passed,
                views(participating_teams@),
                views(non_participating_teams@),
                counted_points,
                uncounted_points,
            );
            if ran is Ok {
                assert(outcome == Ok::<SystemView, BudgetError>(self@));
            } else {
                assert(outcome == Err::<SystemView, BudgetError>(ran->Err_0));
            }
        }
        match ran {
            Ok(()) => Ok(id),
            Err(why) => Err(why),
        }
    }
}

/// The participation of a vote of the past is that of a formal vote.
pub proof fn lemma_historical_participation_formal(seats: RaffleResultView, teams: Seq<Id>)
    ensures
        historical_participation(seats, teams) is Formal,
    decreases teams.len(),
{
    if teams.len() > 0 {
        lemma_historical_participation_formal(seats, teams.drop_last());
    }
}

/// A proposal that is found by its title is found by its id, and so is its raffle.
pub proof fn lemma_found_by_name(system: SystemView, title: Seq<char>)
    ensures
        proposal_named(system, title) matches Some(id) ==> proposal_with_id(system, id) is Some,
        raffle_named(system, title) matches Some(id) ==> raffle_with_id(system, id) is Some,
{
    crate::model::lemma_name_position(crate::system::proposal_titles(system.proposals), title);
    match proposal_named(system, title) {
        Some(id) => {
            let i = crate::model::name_position(
                crate::system::proposal_titles(system.proposals),
                title,
            )->Some_0;
            assert(proposal_ids(system.proposals)[i] == id);
            crate::model::lemma_position_of(proposal_ids(system.proposals), id);
            crate::model::lemma_position_of(crate::system::raffle_proposals(system.raffles), id);
            match raffle_named(system, title) {
                Some(raffle) => {
                    let j = position_of(crate::system::raffle_proposals(system.raffles), id)->Some_0;
                    assert(crate::system::raffle_ids(system.raffles)[j] == raffle);
                    crate::model::lemma_position_of(
                        crate::system::raffle_ids(system.raffles),
                        raffle,
                    );
                },
                None => {},
            }
        },
        None => {},
    }
}

/// Where the first of the first `upto` ballots that does not fit is found,
/// it is the first of all the ballots that does not fit.
pub proof fn lemma_seat_rejection_prefix(
    system: SystemView,
    ballots: Seq<(Seq<char>, VoteChoice)>,
    seats: Seq<Id>,
    upto: int,
)
    requires
        0 <= upto <= ballots.len(),
    ensures
        seat_rejection(system, ballots.take(upto), seats) is Some ==> seat_rejection(
            system,
            ballots,
            seats,
        ) == seat_rejection(system, ballots.take(upto), seats),
    decreases ballots.len() - upto,
{
    if upto < ballots.len() {
        assert(ballots.take(upto + 1).drop_last() =~= ballots.take(upto));
        lemma_seat_rejection_prefix(system, ballots, seats, upto + 1);
    } else {
        assert(ballots.take(upto) =~= ballots);
    }
}

/// The named ballots of two lists, one after the other, are the named
/// ballots of the lists joined.
pub proof fn lemma_named_ballots_join(
    system: SystemView,
    first: Seq<(Seq<char>, VoteChoice)>,
    second: Seq<(Seq<char>, VoteChoice)>,
)
    ensures
        named_ballots(system, first + second) == named_ballots(system, first) + named_ballots(
            system,
            second,
        ),
    decreases second.len(),
{
    if second.len() == 0 {
        assert(first + second =~= first);
        assert(named_ballots(system, first) + named_ballots(system, second) =~= named_ballots(
            system,
            first,
        ));
    } else {
        lemma_named_ballots_join(system, first, second.drop_last());
        assert((first + second).drop_last() =~= first + second.drop_last());
        assert((first + second).last() == second.last());
        assert(named_ballots(system, first + second) =~= named_ballots(system, first)
            + named_ballots(system, second));
    }
}

} // verus!
