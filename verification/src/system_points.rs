//! Points that teams earn in an epoch, and the close of an epoch that pays
//! the reward pool out by them.

use crate::epoch::allocate_rewards;
use crate::epoch::allocation;
use crate::epoch::total_points;
use crate::epoch::Epoch;
use crate::epoch::EpochStatus;
use crate::epoch::EpochView;
use crate::epoch::TeamPoints;
use crate::error::BudgetError;
use crate::model::find_position;
use crate::model::keys;
use crate::model::position_of;
use crate::platform::Id;
use crate::system::epoch_ids;
use crate::system::epoch_named;
use crate::system::BudgetSystem;
use crate::system::SystemView;
use crate::system_proposals::actionable_count;
use crate::system_proposals::epoch_proposals;
use crate::text::contains_id;
use crate::vote::Vote;
use crate::vote::VoteView;
use vstd::prelude::*;

verus! {

/// The proposals that the votes are on, in order.
pub open spec fn vote_proposals(votes: Seq<VoteView>) -> Seq<Id> {
    Seq::new(votes.len(), |i: int| votes[i].proposal_id)
}

/// The points that the votes on these proposals credit to the team,
/// together: the sum, over every vote whose proposal is one of them, of what
/// that vote credits to the team.
pub open spec fn points_over(votes: Seq<VoteView>, proposals: Seq<Id>, team: Id) -> nat
    decreases votes.len(),
{
    if votes.len() == 0 {
        0
    } else {
        points_over(votes.drop_last(), proposals, team) + if proposals.contains(
            votes.last().proposal_id,
        ) {
            Vote::spec_points_for(votes.last(), team) as nat
        } else {
            0nat
        }
    }
}

/// The points that the team earned in the epoch: what every vote on a
/// proposal of the epoch credits to it, together; nothing in an epoch that
/// does not exist.
pub open spec fn team_points(system: SystemView, epoch_id: Id, team: Id) -> nat {
    match position_of(epoch_ids(system.epochs), epoch_id) {
        Some(e) => points_over(system.votes, system.epochs[e].associated_proposals, team),
        None => 0,
    }
}

/// Whether some team among the first `upto` earned more points than 64 bits hold.
pub open spec fn points_overflow(system: SystemView, epoch_id: Id, upto: int) -> bool {
    exists|i: int|
        0 <= i < upto && i < system.teams.len() && team_points(
            system,
            epoch_id,
            (#[trigger] system.teams[i]).id,
        ) > u64::MAX
}

/// The points of every team in the epoch, in registry order.
pub open spec fn points_table(system: SystemView, epoch_id: Id) -> Seq<TeamPoints> {
    Seq::new(
        system.teams.len(),
        |i: int|
            TeamPoints {
                team_id: system.teams[i].id,
                points: team_points(system, epoch_id, system.teams[i].id) as u64,
            },
    )
}

/// The epoch that a close is asked for: the first of the given name, or the current one.
pub open spec fn epoch_to_close(system: SystemView, name: Option<Seq<char>>) -> Result<
    Id,
    BudgetError,
> {
    match name {
        Some(n) => match epoch_named(system, n) {
            Some(id) => Ok(id),
            None => Err(BudgetError::EpochNotFound),
        },
        None => match system.current_epoch {
            Some(id) => Ok(id),
            None => Err(BudgetError::NoActiveEpoch),
        },
    }
}

/// The state after the epoch was closed and its reward pool divided among
/// the teams by their points, or why it is not closed.
pub open spec fn epoch_closed(system: SystemView, name: Option<Seq<char>>) -> Result<
    SystemView,
    BudgetError,
> {
    match epoch_to_close(system, name) {
        Err(why) => Err(why),
        Ok(epoch_id) => {
            let remaining = actionable_count(epoch_proposals(system, epoch_id));
            if remaining > 0 {
                Err(BudgetError::ActionableProposalsRemaining { count: remaining as usize })
            } else {
                match position_of(epoch_ids(system.epochs), epoch_id) {
                    None => Err(BudgetError::EpochNotFound),
                    Some(e) => match Epoch::close_rejection(system.epochs[e]) {
                        Some(why) => Err(why),
                        None => match system.epochs[e].reward {
                            None => Err(BudgetError::RewardNotSet),
                            Some(reward) => if reward.amount == 0 {
                                Err(BudgetError::RewardNotSet)
                            } else if points_overflow(
                                system,
                                epoch_id,
                                system.teams.len() as int,
                            ) {
                                Err(BudgetError::PointsOverflow)
                            } else {
                                let table = points_table(system, epoch_id);
                                if total_points(table) == 0 {
                                    Err(BudgetError::NoPointsEarned)
                                } else if total_points(table) > u64::MAX {
                                    Err(BudgetError::PointsOverflow)
                                } else {
                                    Ok(
                                        SystemView {
                                            epochs: system.epochs.update(
                                                e,
                                                EpochView {
                                                    status: EpochStatus::Closed,
                                                    team_rewards: allocation(table, reward.amount),
                                                    ..system.epochs[e]
                                                },
                                            ),
                                            current_epoch: if system.current_epoch == Some(
                                                epoch_id,
                                            ) {
                                                None
                                            } else {
                                                system.current_epoch
                                            },
                                            ..system
                                        },
                                    )
                                }
                            },
                        },
                    },
                }
            }
        },
    }
}

/// The points that the first votes credit are part of the points that all votes credit.
pub proof fn lemma_points_over_prefix(votes: Seq<VoteView>, proposals: Seq<Id>, team: Id, upto: int)
    requires
        0 <= upto <= votes.len(),
    ensures
        points_over(votes.take(upto), proposals, team) <= points_over(votes, proposals, team),
    decreases votes.len() - upto,
{
    if upto < votes.len() {
        assert(votes.take(upto + 1).drop_last() =~= votes.take(upto));
        lemma_points_over_prefix(votes, proposals, team, upto + 1);
    } else {
        assert(votes.take(upto) =~= votes);
    }
}

impl BudgetSystem {
    /// The place of the first vote on the proposal.
    pub fn vote_on_proposal(&self, proposal_id: Id) -> (place: Option<usize>)
        ensures
            match place {
                Some(v) => v < self@.votes.len() && position_of(
                    vote_proposals(self@.votes),
                    proposal_id,
                ) == Some(v as int),
                None => position_of(vote_proposals(self@.votes), proposal_id) is None,
            },
    {
        let mut i: usize = 0;
        while i < self.state.votes.len()
            invariant
                i <= self.state.votes@.len(),
                forall|j: int| 0 <= j < i ==> vote_proposals(self@.votes)[j] != proposal_id,
            decreases self.state.votes@.len() - i,
        {
            if self.state.votes[i].proposal_id == proposal_id {
                proof {
                    assert(self@.votes[i as int] == self.state.votes@[i as int]@);
                    crate::model::lemma_position_of_first(
                        vote_proposals(self@.votes),
                        proposal_id,
                        i as int,
                    );
                }
                return Some(i);
            }
            assert(self@.votes[i as int] == self.state.votes@[i as int]@);
            i += 1;
        }
        proof {
            crate::model::lemma_position_of_absent(vote_proposals(self@.votes), proposal_id);
        }
        None
    }

    fn points_over_proposals(&self, proposals: &Vec<Id>, team_id: Id) -> (points: Option<u64>)
        ensures
            match points {
                Some(p) => p == points_over(self@.votes, proposals@, team_id),
                None => points_over(self@.votes, proposals@, team_id) > u64::MAX,
            },
    {
        let mut total: u64 = 0;
        let mut k: usize = 0;
        while k < self.state.votes.len()
            invariant
                k <= self.state.votes@.len(),
                total == points_over(self@.votes.take(k as int), proposals@, team_id),
            decreases self.state.votes@.len() - k,
        {
            assert(self@.votes.take(k + 1).drop_last() =~= self@.votes.take(k as int));
            let vote = &self.state.votes[k];
            assert(self@.votes[k as int] == vote@);
            let earned: u64 = if contains_id(proposals, vote.proposal_id) {
                vote.points_for(team_id) as u64
            } else {
                0
            };
            if earned > u64::MAX - total {
                proof {
                    lemma_points_over_prefix(self@.votes, proposals@, team_id, k + 1);
                }
                return None;
            }
            total = total + earned;
            k += 1;
        }
        assert(self@.votes.take(k as int) =~= self@.votes);
        Some(total)
    }

    /// The points that the team earned in the epoch: the sum of what every
    /// vote on a proposal of the epoch credits to it. An epoch that does not
    /// exist gave no points.
    pub fn calculate_team_points_for_epoch(&self, team_id: Id, epoch_id: Id) -> (points: Result<
        u64,
        BudgetError,
    >)
        ensures
            match points {
                Ok(p) => p == team_points(self@, epoch_id, team_id),
                Err(why) => why == BudgetError::PointsOverflow && team_points(
                    self@,
                    epoch_id,
                    team_id,
                ) > u64::MAX,
            },
    {
        assert(keys(self.state.epochs@) =~= epoch_ids(self@.epochs));
        match find_position(&self.state.epochs, epoch_id) {
            None => Ok(0),
            Some(e) => match self.points_over_proposals(
                &self.state.epochs[e].associated_proposals,
                team_id,
            ) {
                Some(points) => Ok(points),
                None => Err(BudgetError::PointsOverflow),
            },
        }
    }

    /// The points that the team earned in the epoch.
    pub fn get_team_points_for_epoch(&self, team_id: Id, epoch_id: Id) -> (points: Result<
        u64,
        BudgetError,
    >)
        ensures
            match points {
                Ok(p) => position_of(epoch_ids(self@.epochs), epoch_id) is Some && p
                    == team_points(self@, epoch_id, team_id),
                Err(why) => if position_of(epoch_ids(self@.epochs), epoch_id) is None {
                    why == BudgetError::EpochNotFound
                } else {
                    why == BudgetError::PointsOverflow && team_points(self@, epoch_id, team_id)
                        > u64::MAX
                },
            },
    {
        assert(keys(self.state.epochs@) =~= epoch_ids(self@.epochs));
        match find_position(&self.state.epochs, epoch_id) {
            None => Err(BudgetError::EpochNotFound),
            Some(_) => self.calculate_team_points_for_epoch(team_id, epoch_id),
        }
    }

    /// The points of every team in the epoch, in registry order.
    pub fn team_points_table(&self, epoch_id: Id) -> (table: Result<Vec<TeamPoints>, BudgetError>)
        ensures
            match table {
                Ok(rows) => rows@ == points_table(self@, epoch_id) && !points_overflow(
                    self@,
                    epoch_id,
                    self@.teams.len() as int,
                ),
                Err(why) => why == BudgetError::PointsOverflow && points_overflow(
                    self@,
                    epoch_id,
                    self@.teams.len() as int,
                ),
            },
    {
        let mut rows: Vec<TeamPoints> = Vec::new();
        let mut i: usize = 0;
        while i < self.state.teams.len()
            invariant
                i <= self.state.teams@.len(),
                rows@ == points_table(self@, epoch_id).take(i as int),
                !points_overflow(self@, epoch_id, i as int),
            decreases self.state.teams@.len() - i,
        {
            let team_id = self.state.teams[i].id;
            assert(self@.teams[i as int].id == team_id);
            match self.calculate_team_points_for_epoch(team_id, epoch_id) {
                Ok(points) => {
                    rows.push(TeamPoints { team_id, points });
                    assert(rows@ =~= points_table(self@, epoch_id).take(i + 1));
                },
                Err(why) => {
                    return Err(why);
                },
            }
            i += 1;
        }
        assert(points_table(self@, epoch_id).take(i as int) =~= points_table(self@, epoch_id));
        Ok(rows)
    }

    /// The points of all teams in the epoch, together.
    pub fn get_total_points_for_epoch(&self, epoch_id: Id) -> (total: Result<u64, BudgetError>)
        ensures
            match total {
                Ok(sum) => !points_overflow(self@, epoch_id, self@.teams.len() as int) && sum
                    == total_points(points_table(self@, epoch_id)),
                Err(why) => why == BudgetError::PointsOverflow && (points_overflow(
                    self@,
                    epoch_id,
                    self@.teams.len() as int,
                ) || total_points(points_table(self@, epoch_id)) > u64::MAX),
            },
    {
        let rows = match self.team_points_table(epoch_id) {
            Ok(rows) => rows,
            Err(why) => {
                return Err(why);
            },
        };
        let mut sum: u64 = 0;
        let mut i: usize = 0;
        while i < rows.len()
            invariant
                i <= rows@.len(),
                rows@ == points_table(self@, epoch_id),
                sum == total_points(rows@.take(i as int)),
            decreases rows@.len() - i,
        {
            proof {
                assert(rows@.take(i + 1).drop_last() =~= rows@.take(i as int));
                crate::epoch::lemma_total_points_prefix(rows@, i + 1);
            }
            if rows[i].points > u64::MAX - sum {
                return Err(BudgetError::PointsOverflow);
            }
            sum = sum + rows[i].points;
            i += 1;
        }
        assert(rows@.take(i as int) =~= rows@);
        Ok(sum)
    }

    /// The epoch that a close is asked for.
    pub fn find_epoch_to_close(&self, epoch_name: Option<&str>) -> (found: Result<Id, BudgetError>)
        ensures
            found == epoch_to_close(
                self@,
                match epoch_name {
                    Some(n) => Some(n@),
                    None => None,
                },
            ),
    {
        match epoch_name {
            Some(name) => match self.get_epoch_id_by_name(name) {
                Some(id) => Ok(id),
                None => Err(BudgetError::EpochNotFound),
            },
            None => match self.state.current_epoch {
                Some(id) => Ok(id),
                None => Err(BudgetError::NoActiveEpoch),
            },
        }
    }

    /// Closes the epoch of the given name, or the current one, and divides
    /// its reward pool among the teams in proportion to the points that they
    /// earned in it. The epoch must hold no proposal that still awaits a
    /// decision, it must be active, its pool must be set and some team must
    /// have earned a point. A closed epoch stays closed: its rewards are final.
    pub fn close_epoch(&mut self, epoch_name: Option<&str>) -> (done: Result<(), BudgetError>)
        ensures
            match epoch_closed(
                old(self)@,
                match epoch_name {
                    Some(n) => Some(n@),
                    None => None,
                },
            ) {
                Ok(next) => done is Ok && final(self)@ == next,
                Err(why) => done == Err::<(), BudgetError>(why) && *final(self) == *old(self),
            },
    {
        let epoch_id = match self.find_epoch_to_close(epoch_name) {
            Ok(id) => id,
            Err(why) => {
                return Err(why);
            },
        };
        let remaining = self.count_actionable_proposals(epoch_id);
        if remaining > 0 {
            return Err(BudgetError::ActionableProposalsRemaining { count: remaining });
        }
        assert(keys(self.state.epochs@) =~= epoch_ids(self@.epochs));
        let e = match find_position(&self.state.epochs, epoch_id) {
            Some(e) => e,
            None => {
                return Err(BudgetError::EpochNotFound);
            },
        };
        match self.state.epochs[e].status {
            EpochStatus::Closed => {
                return Err(BudgetError::EpochAlreadyClosed);
            },
            EpochStatus::Planned => {
                return Err(BudgetError::EpochNotActive);
            },
            EpochStatus::Active => {},
        }
        let pool = match &self.state.epochs[e].reward {
            None => {
                return Err(BudgetError::RewardNotSet);
            },
            Some(reward) => reward.amount,
        };
        if pool == 0 {
            return Err(BudgetError::RewardNotSet);
        }
        let table = match self.team_points_table(epoch_id) {
            Ok(table) => table,
            Err(why) => {
                return Err(why);
            },
        };
        let rewards = match allocate_rewards(&table, pool) {
            Ok(rewards) => rewards,
            Err(why) => {
                return Err(why);
            },
        };
        self.state.epochs[e].status = EpochStatus::Closed;
        self.state.epochs[e].team_rewards = rewards;
        let current = match self.state.current_epoch {
            Some(id) => id == epoch_id,
            None => false,
        };
        if current {
            self.state.current_epoch = None;
        }
        assert(self@.epochs =~= old(self)@.epochs.update(
            e as int,
            EpochView {
                status: EpochStatus::Closed,
                team_rewards: allocation(points_table(old(self)@, epoch_id), pool),
                ..old(self)@.epochs[e as int]
            },
        ));
        Ok(())
    }
}

} // verus!
