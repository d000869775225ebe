//! The commands on votes: opening, casting, closing.

use crate::calendar::day_end;
use crate::calendar::day_start;
use crate::calendar::end_of_day;
use crate::calendar::start_of_day;
use crate::error::BudgetError;
use crate::model::find_position;
use crate::model::keys;
use crate::model::position_of;
use crate::platform::current_timestamp;
use crate::platform::fresh_id;
use crate::platform::Date;
use crate::platform::Id;
use crate::platform::Timestamp;
use crate::proposal::actionable;
use crate::raffle::RaffleResult;
use crate::raffle::RaffleResultView;
use crate::system::proposal_with_id;
use crate::system::raffle_with_id;
use crate::system::vote_ids;
use crate::system::BudgetSystem;
use crate::system::SystemView;
use crate::vote::cast_all;
use crate::vote::first_rejection;
use crate::vote::Ballot;
use crate::vote::Threshold;
use crate::vote::Vote;
use crate::vote::VoteResult;
use crate::vote::VoteStatus;
use crate::vote::VoteType;
use crate::vote::VoteView;
use vstd::prelude::*;

verus! {

/// The state with the vote added, or the refusal of an id that is taken.
pub open spec fn vote_stored(system: SystemView, vote: VoteView) -> Result<SystemView, BudgetError> {
    if position_of(vote_ids(system.votes), vote.id) is Some {
        Err(BudgetError::DuplicateId)
    } else {
        Ok(SystemView { votes: system.votes.push(vote), ..system })
    }
}

/// The threshold that a new formal vote takes: the given one, else the default.
pub open spec fn chosen_threshold(system: SystemView, threshold: Option<Threshold>) -> Threshold {
    match threshold {
        Some(t) => t,
        None => system.config.default_qualified_majority_threshold,
    }
}

/// The formal vote that is opened on the proposal, bound to the raffle, or
/// why none is opened.
pub open spec fn formal_vote_opened(
    system: SystemView,
    id: Id,
    now: Timestamp,
    proposal_id: Id,
    raffle_id: Id,
    threshold: Option<Threshold>,
) -> Result<VoteView, BudgetError> {
    match proposal_with_id(system, proposal_id) {
        None => Err(BudgetError::ProposalNotFound),
        Some(proposal) => if !actionable(proposal) {
            Err(BudgetError::ProposalNotActionable)
        } else {
            match raffle_with_id(system, raffle_id) {
                None => Err(BudgetError::RaffleNotFound),
                Some(raffle) => if raffle.result is None {
                    Err(BudgetError::RaffleNotCompleted)
                } else if !chosen_threshold(system, threshold).valid() {
                    Err(BudgetError::InvalidThreshold)
                } else {
                    Ok(
                        Vote::spec_new(
                            id,
                            proposal_id,
                            proposal.epoch_id,
                            VoteType::Formal {
                                raffle_id,
                                total_eligible_seats: raffle.config.total_counted_seats,
                                threshold: chosen_threshold(system, threshold),
                                counted_points: system.config.counted_vote_points,
                                uncounted_points: system.config.uncounted_vote_points,
                            },
                            false,
                            now,
                        ),
                    )
                },
            }
        },
    }
}

/// The informal vote that is opened on the proposal, or why none is opened.
pub open spec fn informal_vote_opened(system: SystemView, id: Id, now: Timestamp, proposal_id: Id) -> Result<
    VoteView,
    BudgetError,
> {
    match proposal_with_id(system, proposal_id) {
        None => Err(BudgetError::ProposalNotFound),
        Some(proposal) => if !actionable(proposal) {
            Err(BudgetError::ProposalNotActionable)
        } else {
            Ok(Vote::spec_new(id, proposal_id, proposal.epoch_id, VoteType::Informal, false, now))
        },
    }
}

/// The state after the vote that was opened is stored.
pub open spec fn then_vote_stored(system: SystemView, opened: Result<VoteView, BudgetError>) -> Result<
    SystemView,
    BudgetError,
> {
    match opened {
        Ok(vote) => vote_stored(system, vote),
        Err(why) => Err(why),
    }
}

/// The outcome of the raffle that the vote is bound to, if it is bound to one that has one.
pub open spec fn bound_seats(system: SystemView, vote: VoteView) -> Option<RaffleResultView> {
    match vote.vote_type {
        VoteType::Formal { raffle_id, .. } => match raffle_with_id(system, raffle_id) {
            Some(raffle) => raffle.result,
            None => None,
        },
        VoteType::Informal => None,
    }
}

/// The state after the vote took the ballots, or why it takes none of them.
pub open spec fn votes_cast(system: SystemView, vote_id: Id, ballots: Seq<Ballot>) -> Result<
    SystemView,
    BudgetError,
> {
    match position_of(vote_ids(system.votes), vote_id) {
        None => Err(BudgetError::VoteNotFound),
        Some(v) => {
            let vote = system.votes[v];
            let seats = bound_seats(system, vote);
            match first_rejection(vote, ballots, seats) {
                Some(why) => Err(why),
                None => Ok(
                    SystemView {
                        votes: system.votes.update(
                            v,
                            VoteView {
                                participation: cast_all(vote.participation, ballots, seats),
                                ..vote
                            },
                        ),
                        ..system
                    },
                ),
            }
        },
    }
}

/// Whether the result is that of a formal vote that passed.
pub open spec fn passed(result: VoteResult) -> bool {
    match result {
        VoteResult::Formal { passed, .. } => passed,
        VoteResult::Informal { .. } => false,
    }
}

/// The vote after it was closed at `now`.
pub open spec fn closed_vote(vote: VoteView, now: Timestamp) -> VoteView {
    VoteView {
        status: VoteStatus::Closed,
        closed_at: Some(now),
        result: Some(Vote::resolution(vote.vote_type, vote.participation)),
        ..vote
    }
}

/// The state after the vote was closed at `now`, or why it is not closed.
pub open spec fn vote_closed(system: SystemView, vote_id: Id, now: Timestamp) -> Result<
    SystemView,
    BudgetError,
> {
    match position_of(vote_ids(system.votes), vote_id) {
        None => Err(BudgetError::VoteNotFound),
        Some(v) => if system.votes[v].status == VoteStatus::Closed {
            Err(BudgetError::VoteAlreadyClosed)
        } else {
            Ok(
                SystemView {
                    votes: system.votes.update(v, closed_vote(system.votes[v], now)),
                    ..system
                },
            )
        },
    }
}

/// The state after the vote was dated to the given days, or why it is not.
pub open spec fn vote_dated(
    system: SystemView,
    vote_id: Id,
    opened: Option<Date>,
    closed: Option<Date>,
) -> Result<SystemView, BudgetError> {
    match position_of(vote_ids(system.votes), vote_id) {
        None => Err(BudgetError::VoteNotFound),
        Some(v) => Ok(
            SystemView {
                votes: system.votes.update(
                    v,
                    VoteView {
                        opened_at: match opened {
                            Some(day) => day_start(day),
                            None => system.votes[v].opened_at,
                        },
                        closed_at: match closed {
                            Some(day) => Some(day_end(day)),
                            None => system.votes[v].closed_at,
                        },
                        ..system.votes[v]
                    },
                ),
                ..system
            },
        ),
    }
}

impl BudgetSystem {
    /// Stores a vote, unless its id is taken.
    pub fn store_vote(&mut self, vote: Vote) -> (done: Result<(), BudgetError>)
        ensures
            match vote_stored(old(self)@, vote@) {
                Ok(next) => done is Ok && final(self)@ == next,
                Err(why) => done == Err::<(), BudgetError>(why) && *final(self) == *old(self),
            },
    {
        assert(keys(self.state.votes@) =~= vote_ids(self@.votes));
        if find_position(&self.state.votes, vote.id).is_some() {
            return Err(BudgetError::DuplicateId);
        }
        self.state.votes.push(vote);
        assert(self@.votes =~= old(self)@.votes.push(vote@));
        Ok(())
    }

    /// The formal vote that would be opened on the proposal, bound to the raffle.
    pub fn open_formal_vote(
        &self,
        id: Id,
        now: Timestamp,
        proposal_id: Id,
        raffle_id: Id,
        threshold: Option<Threshold>,
    ) -> (opened: Result<Vote, BudgetError>)
        ensures
            match opened {
                Ok(vote) => formal_vote_opened(self@, id, now, proposal_id, raffle_id, threshold)
                    == Ok::<VoteView, BudgetError>(vote@),
                Err(why) => formal_vote_opened(self@, id, now, proposal_id, raffle_id, threshold)
                    == Err::<VoteView, BudgetError>(why),
            },
    {
        let proposal = match self.proposal(proposal_id) {
            Some(p) => p,
            None => {
                return Err(BudgetError::ProposalNotFound);
            },
        };
        if !proposal.is_actionable() {
            return Err(BudgetError::ProposalNotActionable);
        }
        let raffle = match self.raffle(raffle_id) {
            Some(r) => r,
            None => {
                return Err(BudgetError::RaffleNotFound);
            },
        };
        if !raffle.is_completed() {
            return Err(BudgetError::RaffleNotCompleted);
        }
        let chosen = match threshold {
            Some(t) => t,
            None => self.config.default_qualified_majority_threshold,
        };
        if chosen.denominator == 0 || chosen.numerator > chosen.denominator {
            return Err(BudgetError::InvalidThreshold);
        }
        let vote_type = VoteType::Formal {
            raffle_id,
            total_eligible_seats: raffle.config.total_counted_seats,
            threshold: chosen,
            counted_points: self.config.counted_vote_points,
            uncounted_points: self.config.uncounted_vote_points,
        };
        Ok(Vote::new(id, proposal_id, proposal.epoch_id, vote_type, false, now))
    }

    /// Opens, under the given id and at the instant `now`, a formal vote on
    /// the proposal, bound to the outcome of the raffle.
    pub fn create_formal_vote_at(
        &mut self,
        id: Id,
        now: Timestamp,
        proposal_id: Id,
        raffle_id: Id,
        threshold: Option<Threshold>,
    ) -> (done: Result<(), BudgetError>)
        ensures
            match then_vote_stored(
                old(self)@,
                formal_vote_opened(old(self)@, id, now, proposal_id, raffle_id, threshold),
            ) {
                Ok(next) => done is Ok && final(self)@ == next,
                Err(why) => done == Err::<(), BudgetError>(why) && *final(self) == *old(self),
            },
    {
        match self.open_formal_vote(id, now, proposal_id, raffle_id, threshold) {
            Ok(vote) => self.store_vote(vote),
            Err(why) => Err(why),
        }
    }

    /// Opens a formal vote under a fresh id, at the present instant, and
    /// returns the id. In the event that the fresh id is taken no vote is opened.
    pub fn create_formal_vote(&mut self, proposal_id: Id, raffle_id: Id, threshold: Option<Threshold>) -> (done:
        Result<Id, BudgetError>)
        ensures
            match done {
                Ok(id) => then_vote_stored(
                    old(self)@,
                    formal_vote_opened(
                        old(self)@,
                        id,
                        final(self)@.votes.last().opened_at,
                        proposal_id,
                        raffle_id,
                        threshold,
                    ),
                ) == Ok::<SystemView, BudgetError>(final(self)@),
                Err(why) => {
                    &&& *final(self) == *old(self)
                    &&& exists|id: Id, now: Timestamp|
                        #[trigger] then_vote_stored(
                            old(self)@,
                            formal_vote_opened(old(self)@, id, now, proposal_id, raffle_id, threshold),
                        ) == Err::<SystemView, BudgetError>(why)
                },
            },
            formal_vote_opened(old(self)@, 0, 0, proposal_id, raffle_id, threshold) is Err
                ==> done is Err,
    {
        let id = fresh_id();
        let now = current_timestamp();
        let done = self.create_formal_vote_at(id, now, proposal_id, raffle_id, threshold);
        proof {
            let outcome = then_vote_stored(
                old(self)@,
                formal_vote_opened(old(self)@, id, now, proposal_id, raffle_id, threshold),
            );
            if done is Ok {
                assert(outcome == Ok::<SystemView, BudgetError>(self@));
            } else {
                assert(outcome == Err::<SystemView, BudgetError>(done->Err_0));
            }
        }
        match done {
            Ok(()) => Ok(id),
            Err(why) => Err(why),
        }
    }

    /// Opens, under the given id and at the instant `now`, an informal vote on the proposal.
    pub fn create_informal_vote_at(&mut self, id: Id, now: Timestamp, proposal_id: Id) -> (done:
        Result<(), BudgetError>)
        ensures
            match then_vote_stored(
                old(self)@,
                informal_vote_opened(old(self)@, id, now, proposal_id),
            ) {
                Ok(next) => done is Ok && final(self)@ == next,
                Err(why) => done == Err::<(), BudgetError>(why) && *final(self) == *old(self),
            },
    {
        let proposal = match self.proposal(proposal_id) {
            Some(p) => p,
            None => {
                return Err(BudgetError::ProposalNotFound);
            },
        };
        if !proposal.is_actionable() {
            return Err(BudgetError::ProposalNotActionable);
        }
        let vote = Vote::new(id, proposal_id, proposal.epoch_id, VoteType::Informal, false, now);
        self.store_vote(vote)
    }

    /// Opens an informal vote under a fresh id, at the present instant, and
    /// returns the id. In the event that the fresh id is taken no vote is opened.
    pub fn create_informal_vote(&mut self, proposal_id: Id) -> (done: Result<Id, BudgetError>)
        ensures
            match done {
                Ok(id) => then_vote_stored(
                    old(self)@,
                    informal_vote_opened(
                        old(self)@,
                        id,
                        final(self)@.votes.last().opened_at,
                        proposal_id,
                    ),
                ) == Ok::<SystemView, BudgetError>(final(self)@),
                Err(why) => {
                    &&& *final(self) == *old(self)
                    &&& exists|id: Id, now: Timestamp|
                        #[trigger] then_vote_stored(
                            old(self)@,
                            informal_vote_opened(old(self)@, id, now, proposal_id),
                        ) == Err::<SystemView, BudgetError>(why)
                },
            },
            informal_vote_opened(old(self)@, 0, 0, proposal_id) is Err ==> done is Err,
    {
        let id = fresh_id();
        let now = current_timestamp();
        let done = self.create_informal_vote_at(id, now, proposal_id);
        proof {
            let outcome = then_vote_stored(
                old(self)@,
                informal_vote_opened(old(self)@, id, now, proposal_id),
            );
            if done is Ok {
                assert(outcome == Ok::<SystemView, BudgetError>(self@));
            } else {
                assert(outcome == Err::<SystemView, BudgetError>(done->Err_0));
            }
        }
        match done {
            Ok(()) => Ok(id),
            Err(why) => Err(why),
        }
    }

    /// The outcome of the raffle that the vote is bound to.
    pub fn seats_of(&self, vote: &Vote) -> (seats: Option<&RaffleResult>)
        ensures
            match seats {
                Some(r) => bound_seats(self@, vote@) == Some(r@),
                None => bound_seats(self@, vote@) is None,
            },
    {
        match vote.vote_type {
            VoteType::Formal { raffle_id, .. } => match self.raffle(raffle_id) {
                Some(raffle) => raffle.result(),
                None => None,
            },
            VoteType::Informal => None,
        }
    }

    /// Takes the ballots into the vote, in order. Either all are taken or,
    /// where one is refused, none.
    pub fn cast_votes(&mut self, vote_id: Id, votes: Vec<Ballot>) -> (done: Result<(), BudgetError>)
        ensures
            match votes_cast(old(self)@, vote_id, votes@) {
                Ok(next) => done is Ok && final(self)@ == next,
                Err(why) => done == Err::<(), BudgetError>(why) && *final(self) == *old(self),
            },
    {
        assert(keys(self.state.votes@) =~= vote_ids(self@.votes));
        let v = match find_position(&self.state.votes, vote_id) {
            Some(v) => v,
            None => {
                return Err(BudgetError::VoteNotFound);
            },
        };
        let mut vote = self.state.votes[v].clone();
        let seats = self.seats_of(&vote);
        match vote.cast_ballots(&votes, seats) {
            Err(why) => Err(why),
            Ok(()) => {
                let ghost recorded = vote@;
                self.state.votes.set(v, vote);
                assert(self@.votes =~= old(self)@.votes.update(v as int, recorded));
                Ok(())
            },
        }
    }

    /// Closes the vote at the instant `now` and returns whether it passed.
    /// An informal vote never passes.
    pub fn close_vote_at(&mut self, vote_id: Id, now: Timestamp) -> (done: Result<bool, BudgetError>)
        ensures
            match vote_closed(old(self)@, vote_id, now) {
                Ok(next) => {
                    &&& final(self)@ == next
                    &&& crate::system::vote_with_id(next, vote_id) matches Some(vote)
                        && vote.result matches Some(result) && done == Ok::<bool, BudgetError>(
                        passed(result),
                    )
                },
                Err(why) => done == Err::<bool, BudgetError>(why) && *final(self) == *old(self),
            },
    {
        assert(keys(self.state.votes@) =~= vote_ids(self@.votes));
        let v = match find_position(&self.state.votes, vote_id) {
            Some(v) => v,
            None => {
                return Err(BudgetError::VoteNotFound);
            },
        };
        if self.state.votes[v].status == VoteStatus::Closed {
            return Err(BudgetError::VoteAlreadyClosed);
        }
        let mut vote = self.state.votes[v].clone();
        let closed = vote.close(now);
        assert(closed is Ok);
        let verdict = match vote.result {
            Some(VoteResult::Formal { passed, .. }) => passed,
            _ => false,
        };
        self.state.votes.set(v, vote);
        assert(self@.votes =~= old(self)@.votes.update(
            v as int,
            closed_vote(old(self)@.votes[v as int], now),
        ));
        assert(vote_ids(self@.votes) =~= vote_ids(old(self)@.votes));
        Ok(verdict)
    }

    /// Closes the vote at the present instant and returns whether it passed.
    pub fn close_vote(&mut self, vote_id: Id) -> (done: Result<bool, BudgetError>)
        ensures
            match done {
                Ok(verdict) => crate::system::vote_with_id(final(self)@, vote_id) matches Some(vote)
                    && vote.closed_at matches Some(now) && vote_closed(old(self)@, vote_id, now)
                    == Ok::<SystemView, BudgetError>(final(self)@),
                Err(why) => {
                    &&& *final(self) == *old(self)
                    &&& vote_closed(old(self)@, vote_id, 0) == Err::<SystemView, BudgetError>(why)
                },
            },
            done matches Ok(verdict) ==> crate::system::vote_with_id(final(self)@, vote_id) matches Some(
                vote,
            ) && vote.result matches Some(result) && verdict == passed(result),
    {
        let now = current_timestamp();
        let done = self.close_vote_at(vote_id, now);
        proof {
            if done is Ok {
                crate::model::lemma_position_of(vote_ids(old(self)@.votes), vote_id);
                assert(vote_ids(self@.votes) =~= vote_ids(old(self)@.votes));
            } else {
                assert(vote_closed(old(self)@, vote_id, 0) == vote_closed(old(self)@, vote_id, now));
            }
        }
        done
    }

    /// Dates the vote to the given days: it opened with the first second of
    /// the one and closed with the last second of the other.
    pub fn update_vote_dates(&mut self, vote_id: Id, vote_opened: Option<Date>, vote_closed: Option<Date>) -> (done:
        Result<(), BudgetError>)
        ensures
            match vote_dated(old(self)@, vote_id, vote_opened, vote_closed) {
                Ok(next) => done is Ok && final(self)@ == next,
                Err(why) => done == Err::<(), BudgetError>(why) && *final(self) == *old(self),
            },
    {
        assert(keys(self.state.votes@) =~= vote_ids(self@.votes));
        let v = match find_position(&self.state.votes, vote_id) {
            Some(v) => v,
            None => {
                return Err(BudgetError::VoteNotFound);
            },
        };
        match vote_opened {
            Some(day) => {
                self.state.votes[v].opened_at = start_of_day(day);
            },
            None => {},
        }
        match vote_closed {
            Some(day) => {
                self.state.votes[v].closed_at = Some(end_of_day(day));
            },
            None => {},
        }
        assert(self@.votes =~= old(self)@.votes.update(
            v as int,
            VoteView {
                opened_at: match vote_opened {
                    Some(day) => day_start(day),
                    None => old(self)@.votes[v as int].opened_at,
                },
                closed_at: match vote_closed {
                    Some(day) => Some(day_end(day)),
                    None => old(self)@.votes[v as int].closed_at,
                },
                ..old(self)@.votes[v as int]
            },
        ));
        Ok(())
    }
}

} // verus!
