//! The state of the whole process and the commands on teams.

use crate::epoch::Epoch;
use crate::epoch::EpochView;
use crate::error::BudgetError;
use crate::model::find_position;
use crate::model::get_id_by_name;
use crate::model::name_position;
use crate::model::names;
use crate::model::keys;
use crate::model::position_of;
use crate::model::views;
use crate::platform::fresh_id;
use crate::platform::Id;
use crate::platform::Timestamp;
use crate::proposal::Proposal;
use crate::proposal::ProposalView;
use crate::raffle::team_ids;
use crate::raffle::Raffle;
use crate::raffle::RaffleView;
use crate::team::Team;
use crate::team::TeamStatus;
use crate::team::TeamStatusView;
use crate::team::TeamView;
use crate::vote::Threshold;
use crate::vote::Vote;
use crate::vote::VoteView;
use vstd::prelude::*;

verus! {

/// The settings that new raffles and votes start from.
#[derive(Clone, Copy, Debug, PartialEq, Eq, Structural)]
pub struct SystemConfig {
    /// Blocks to wait between setting up a raffle and reading its randomness.
    pub future_block_offset: u64,
    pub default_total_counted_seats: usize,
    pub default_max_earner_seats: usize,
    pub default_qualified_majority_threshold: Threshold,
    pub counted_vote_points: u32,
    pub uncounted_vote_points: u32,
}

/// Everything that the process remembers. Each registry is a list that keeps
/// its records in the order in which they were added, and a record is found
/// by the first match in that order. A raffle numbers its tickets in registry
/// order and a name may be shared, so the order must be the same wherever
/// the state is loaded; a hash map is walked in an order of its own.
#[derive(Debug)]
pub struct BudgetSystemState {
    pub teams: Vec<Team>,
    /// When the state was set up.
    pub timestamp: Timestamp,
    pub proposals: Vec<Proposal>,
    pub raffles: Vec<Raffle>,
    pub votes: Vec<Vote>,
    pub epochs: Vec<Epoch>,
    /// The active epoch, if there is one.
    pub current_epoch: Option<Id>,
}

/// The state together with the settings.
#[derive(Debug)]
pub struct BudgetSystem {
    pub state: BudgetSystemState,
    pub config: SystemConfig,
}

/// The mathematical value of a [`BudgetSystem`].
pub struct SystemView {
    pub teams: Seq<TeamView>,
    pub timestamp: Timestamp,
    pub proposals: Seq<ProposalView>,
    pub raffles: Seq<RaffleView>,
    pub votes: Seq<VoteView>,
    pub epochs: Seq<EpochView>,
    pub current_epoch: Option<Id>,
    pub config: SystemConfig,
}

impl View for BudgetSystem {
    type V = SystemView;

    open spec fn view(&self) -> SystemView {
        SystemView {
            teams: views(self.state.teams@),
            timestamp: self.state.timestamp,
            proposals: views(self.state.proposals@),
            raffles: views(self.state.raffles@),
            votes: views(self.state.votes@),
            epochs: views(self.state.epochs@),
            current_epoch: self.state.current_epoch,
            config: self.config,
        }
    }
}

/// The ids of the proposals of a sequence, in order.
pub open spec fn proposal_ids(proposals: Seq<ProposalView>) -> Seq<Id> {
    Seq::new(proposals.len(), |i: int| proposals[i].id)
}

/// The ids of the raffles of a sequence, in order.
pub open spec fn raffle_ids(raffles: Seq<RaffleView>) -> Seq<Id> {
    Seq::new(raffles.len(), |i: int| raffles[i].id)
}

/// The ids of the votes of a sequence, in order.
pub open spec fn vote_ids(votes: Seq<VoteView>) -> Seq<Id> {
    Seq::new(votes.len(), |i: int| votes[i].id)
}

/// The ids of the epochs of a sequence, in order.
pub open spec fn epoch_ids(epochs: Seq<EpochView>) -> Seq<Id> {
    Seq::new(epochs.len(), |i: int| epochs[i].id)
}

/// The names of the teams of a sequence, in order.
pub open spec fn team_names(teams: Seq<TeamView>) -> Seq<Seq<char>> {
    Seq::new(teams.len(), |i: int| teams[i].name)
}

/// The titles of the proposals of a sequence, in order.
pub open spec fn proposal_titles(proposals: Seq<ProposalView>) -> Seq<Seq<char>> {
    Seq::new(proposals.len(), |i: int| proposals[i].title)
}

/// The names of the epochs of a sequence, in order.
pub open spec fn epoch_names(epochs: Seq<EpochView>) -> Seq<Seq<char>> {
    Seq::new(epochs.len(), |i: int| epochs[i].name)
}

/// The proposals that the raffles were drawn for, in order.
pub open spec fn raffle_proposals(raffles: Seq<RaffleView>) -> Seq<Id> {
    Seq::new(raffles.len(), |i: int| raffles[i].config.proposal_id)
}

/// The first raffle with this id.
pub open spec fn raffle_with_id(system: SystemView, id: Id) -> Option<RaffleView> {
    match position_of(raffle_ids(system.raffles), id) {
        Some(i) => Some(system.raffles[i]),
        None => None,
    }
}

/// The first vote with this id.
pub open spec fn vote_with_id(system: SystemView, id: Id) -> Option<VoteView> {
    match position_of(vote_ids(system.votes), id) {
        Some(i) => Some(system.votes[i]),
        None => None,
    }
}

/// The first proposal with this id.
pub open spec fn proposal_with_id(system: SystemView, id: Id) -> Option<ProposalView> {
    match position_of(proposal_ids(system.proposals), id) {
        Some(i) => Some(system.proposals[i]),
        None => None,
    }
}

/// The first epoch with this id.
pub open spec fn epoch_with_id(system: SystemView, id: Id) -> Option<EpochView> {
    match position_of(epoch_ids(system.epochs), id) {
        Some(i) => Some(system.epochs[i]),
        None => None,
    }
}

/// The first team with this id.
pub open spec fn team_with_id(system: SystemView, id: Id) -> Option<TeamView> {
    match position_of(team_ids(system.teams), id) {
        Some(i) => Some(system.teams[i]),
        None => None,
    }
}

/// The id of the first team of this name.
pub open spec fn team_named(system: SystemView, name: Seq<char>) -> Option<Id> {
    match name_position(team_names(system.teams), name) {
        Some(i) => Some(system.teams[i].id),
        None => None,
    }
}

/// The id of the first epoch of this name.
pub open spec fn epoch_named(system: SystemView, name: Seq<char>) -> Option<Id> {
    match name_position(epoch_names(system.epochs), name) {
        Some(i) => Some(system.epochs[i].id),
        None => None,
    }
}

/// The id of the first proposal of this title.
pub open spec fn proposal_named(system: SystemView, title: Seq<char>) -> Option<Id> {
    match name_position(proposal_titles(system.proposals), title) {
        Some(i) => Some(system.proposals[i].id),
        None => None,
    }
}

/// The id of the first raffle that was drawn for the first proposal of this title.
pub open spec fn raffle_named(system: SystemView, title: Seq<char>) -> Option<Id> {
    match proposal_named(system, title) {
        Some(proposal) => match position_of(raffle_proposals(system.raffles), proposal) {
            Some(i) => Some(system.raffles[i].id),
            None => None,
        },
        None => None,
    }
}

/// The state after a team was added under the given id, or why it is not added.
pub open spec fn team_added(
    system: SystemView,
    id: Id,
    name: Seq<char>,
    representative: Seq<char>,
    revenue: Option<Seq<u64>>,
) -> Result<SystemView, BudgetError> {
    let status = Team::initial_status(revenue);
    match TeamStatus::spec_rejection(status) {
        Some(why) => Err(why),
        None => if position_of(team_ids(system.teams), id) is Some {
            Err(BudgetError::DuplicateId)
        } else {
            Ok(
                SystemView {
                    teams: system.teams.push(TeamView { id, name, representative, status }),
                    ..system
                },
            )
        },
    }
}

/// The state after the team was removed, or why it is not removed.
pub open spec fn team_removed(system: SystemView, id: Id) -> Result<SystemView, BudgetError> {
    match position_of(team_ids(system.teams), id) {
        Some(i) => Ok(SystemView { teams: system.teams.remove(i), ..system }),
        None => Err(BudgetError::TeamNotFound),
    }
}

/// The state after the team took a new status, or why it does not take it.
pub open spec fn team_status_updated(system: SystemView, id: Id, status: TeamStatusView) -> Result<
    SystemView,
    BudgetError,
> {
    match position_of(team_ids(system.teams), id) {
        Some(i) => match TeamStatus::spec_rejection(status) {
            Some(why) => Err(why),
            None => Ok(
                SystemView {
                    teams: system.teams.update(i, TeamView { status, ..system.teams[i] }),
                    ..system
                },
            ),
        },
        None => Err(BudgetError::TeamNotFound),
    }
}

/// The view of optional revenue.
pub open spec fn optional_revenue(revenue: Option<Vec<u64>>) -> Option<Seq<u64>> {
    match revenue {
        Some(samples) => Some(samples@),
        None => None,
    }
}

impl BudgetSystem {
    /// The empty state, set up at the instant `now`.
    pub fn new(config: SystemConfig, now: Timestamp) -> (system: BudgetSystem)
        ensures
            system@ == (SystemView {
                teams: Seq::empty(),
                timestamp: now,
                proposals: Seq::empty(),
                raffles: Seq::empty(),
                votes: Seq::empty(),
                epochs: Seq::empty(),
                current_epoch: None,
                config,
            }),
    {
        let system = BudgetSystem {
            state: BudgetSystemState {
                teams: Vec::new(),
                timestamp: now,
                proposals: Vec::new(),
                raffles: Vec::new(),
                votes: Vec::new(),
                epochs: Vec::new(),
                current_epoch: None,
            },
            config,
        };
        assert(system@.teams =~= Seq::empty());
        assert(system@.proposals =~= Seq::empty());
        assert(system@.raffles =~= Seq::empty());
        assert(system@.votes =~= Seq::empty());
        assert(system@.epochs =~= Seq::empty());
        system
    }

    /// The empty state, set up at the present instant.
    pub fn new_now(config: SystemConfig) -> (system: BudgetSystem)
        ensures
            system@ == (SystemView {
                teams: Seq::empty(),
                timestamp: system@.timestamp,
                proposals: Seq::empty(),
                raffles: Seq::empty(),
                votes: Seq::empty(),
                epochs: Seq::empty(),
                current_epoch: None,
                config,
            }),
    {
        Self::new(config, crate::platform::current_timestamp())
    }

    /// The state that was saved, under the given settings.
    pub fn from_state(state: BudgetSystemState, config: SystemConfig) -> (system: BudgetSystem)
        ensures
            system.state == state,
            system.config == config,
    {
        BudgetSystem { state, config }
    }

    /// The id of the first team of this name.
    pub fn get_team_id_by_name(&self, name: &str) -> (id: Option<Id>)
        ensures
            id == team_named(self@, name@),
    {
        proof {
            assert(names(self.state.teams@) =~= team_names(self@.teams));
            assert(keys(self.state.teams@) =~= team_ids(self@.teams));
            crate::model::lemma_name_position(team_names(self@.teams), name@);
        }
        get_id_by_name(&self.state.teams, name)
    }

    /// The id of the first epoch of this name.
    pub fn get_epoch_id_by_name(&self, name: &str) -> (id: Option<Id>)
        ensures
            id == epoch_named(self@, name@),
    {
        proof {
            assert(names(self.state.epochs@) =~= epoch_names(self@.epochs));
            assert(keys(self.state.epochs@) =~= epoch_ids(self@.epochs));
            crate::model::lemma_name_position(epoch_names(self@.epochs), name@);
        }
        get_id_by_name(&self.state.epochs, name)
    }

    /// The id of the first proposal of this title.
    pub fn get_proposal_id_by_name(&self, name: &str) -> (id: Option<Id>)
        ensures
            id == proposal_named(self@, name@),
    {
        proof {
            assert(names(self.state.proposals@) =~= proposal_titles(self@.proposals));
            assert(keys(self.state.proposals@) =~= proposal_ids(self@.proposals));
            crate::model::lemma_name_position(proposal_titles(self@.proposals), name@);
        }
        get_id_by_name(&self.state.proposals, name)
    }

    /// The id of the first raffle that was drawn for the first proposal of this title.
    pub fn get_raffle_id_by_name(&self, name: &str) -> (id: Option<Id>)
        ensures
            id == raffle_named(self@, name@),
    {
        match self.get_proposal_id_by_name(name) {
            Some(proposal) => {
                let mut i: usize = 0;
                while i < self.state.raffles.len()
                    invariant
                        i <= self.state.raffles@.len(),
                        proposal_named(self@, name@) == Some(proposal),
                        forall|j: int| 0 <= j < i ==> raffle_proposals(self@.raffles)[j] != proposal,
                    decreases self.state.raffles@.len() - i,
                {
                    if self.state.raffles[i].config.proposal_id == proposal {
                        proof {
                            assert(self@.raffles[i as int] == self.state.raffles@[i as int]@);
                            assert(raffle_proposals(self@.raffles)[i as int] == proposal);
                            crate::model::lemma_position_of_first(
                                raffle_proposals(self@.raffles),
                                proposal,
                                i as int,
                            );
                        }
                        assert(self@.raffles[i as int].id == self.state.raffles@[i as int].id);
                        return Some(self.state.raffles[i].id);
                    }
                    i += 1;
                }
                proof {
                    crate::model::lemma_position_of_absent(raffle_proposals(self@.raffles), proposal);
                }
                None
            },
            None => None,
        }
    }

    /// The first team with this id.
    pub fn team(&self, id: Id) -> (team: Option<&Team>)
        ensures
            match team {
                Some(t) => position_of(team_ids(self@.teams), id) matches Some(i) && t@
                    == self@.teams[i],
                None => position_of(team_ids(self@.teams), id) is None,
            },
    {
        assert(keys(self.state.teams@) =~= team_ids(self@.teams));
        match find_position(&self.state.teams, id) {
            Some(i) => Some(&self.state.teams[i]),
            None => None,
        }
    }

    /// The first proposal with this id.
    pub fn proposal(&self, id: Id) -> (proposal: Option<&Proposal>)
        ensures
            match proposal {
                Some(p) => position_of(proposal_ids(self@.proposals), id) matches Some(i) && p@
                    == self@.proposals[i],
                None => position_of(proposal_ids(self@.proposals), id) is None,
            },
    {
        assert(keys(self.state.proposals@) =~= proposal_ids(self@.proposals));
        match find_position(&self.state.proposals, id) {
            Some(i) => Some(&self.state.proposals[i]),
            None => None,
        }
    }

    /// The first raffle with this id.
    pub fn raffle(&self, id: Id) -> (raffle: Option<&Raffle>)
        ensures
            match raffle {
                Some(r) => position_of(raffle_ids(self@.raffles), id) matches Some(i) && r@
                    == self@.raffles[i],
                None => position_of(raffle_ids(self@.raffles), id) is None,
            },
    {
        assert(keys(self.state.raffles@) =~= raffle_ids(self@.raffles));
        match find_position(&self.state.raffles, id) {
            Some(i) => Some(&self.state.raffles[i]),
            None => None,
        }
    }

    /// The first vote with this id.
    pub fn vote(&self, id: Id) -> (vote: Option<&Vote>)
        ensures
            match vote {
                Some(v) => position_of(vote_ids(self@.votes), id) matches Some(i) && v@
                    == self@.votes[i],
                None => position_of(vote_ids(self@.votes), id) is None,
            },
    {
        assert(keys(self.state.votes@) =~= vote_ids(self@.votes));
        match find_position(&self.state.votes, id) {
            Some(i) => Some(&self.state.votes[i]),
            None => None,
        }
    }

    /// The first epoch with this id.
    pub fn epoch(&self, id: Id) -> (epoch: Option<&Epoch>)
        ensures
            match epoch {
                Some(e) => position_of(epoch_ids(self@.epochs), id) matches Some(i) && e@
                    == self@.epochs[i],
                None => position_of(epoch_ids(self@.epochs), id) is None,
            },
    {
        assert(keys(self.state.epochs@) =~= epoch_ids(self@.epochs));
        match find_position(&self.state.epochs, id) {
            Some(i) => Some(&self.state.epochs[i]),
            None => None,
        }
    }

    /// Adds a team under the given id.
    pub fn add_team_with_id(
        &mut self,
        id: Id,
        name: String,
        representative: String,
        trailing_monthly_revenue: Option<Vec<u64>>,
    ) -> (done: Result<(), BudgetError>)
        ensures
            match team_added(
                old(self)@,
                id,
                name@,
                representative@,
                optional_revenue(trailing_monthly_revenue),
            ) {
                Ok(next) => done is Ok && final(self)@ == next,
                Err(why) => done == Err::<(), BudgetError>(why) && *final(self) == *old(self),
            },
    {
        let team = match Team::new(id, name, representative, trailing_monthly_revenue) {
            Ok(team) => team,
            Err(why) => {
                return Err(why);
            },
        };
        assert(keys(self.state.teams@) =~= team_ids(self@.teams));
        if find_position(&self.state.teams, id).is_some() {
            return Err(BudgetError::DuplicateId);
        }
        self.state.teams.push(team);
        assert(self@.teams =~= old(self)@.teams.push(team@));
        Ok(())
    }

    /// Adds a team under a fresh id and returns the id. In the event that the
    /// fresh id is taken the team is not added.
    pub fn add_team(
        &mut self,
        name: String,
        representative: String,
        trailing_monthly_revenue: Option<Vec<u64>>,
    ) -> (done: Result<Id, BudgetError>)
        ensures
            match done {
                Ok(id) => team_added(
                    old(self)@,
                    id,
                    name@,
                    representative@,
                    optional_revenue(trailing_monthly_revenue),
                ) == Ok::<SystemView, BudgetError>(final(self)@),
                Err(why) => {
                    &&& *final(self) == *old(self)
                    &&& exists|id: Id|
                        #[trigger] team_added(
                            old(self)@,
                            id,
                            name@,
                            representative@,
                            optional_revenue(trailing_monthly_revenue),
                        ) == Err::<SystemView, BudgetError>(why)
                },
            },
            TeamStatus::spec_rejection(
                Team::initial_status(optional_revenue(trailing_monthly_revenue)),
            ) is Some ==> done is Err,
    {
        let id = fresh_id();
        match self.add_team_with_id(id, name, representative, trailing_monthly_revenue) {
            Ok(()) => Ok(id),
            Err(why) => Err(why),
        }
    }

    /// Removes the team from the registry.
    pub fn remove_team(&mut self, team_id: Id) -> (done: Result<(), BudgetError>)
        ensures
            match team_removed(old(self)@, team_id) {
                Ok(next) => done is Ok && final(self)@ == next,
                Err(why) => done == Err::<(), BudgetError>(why) && *final(self) == *old(self),
            },
    {
        assert(keys(self.state.teams@) =~= team_ids(self@.teams));
        match find_position(&self.state.teams, team_id) {
            Some(i) => {
                self.state.teams.remove(i);
                assert(self@.teams =~= old(self)@.teams.remove(i as int));
                Ok(())
            },
            None => Err(BudgetError::TeamNotFound),
        }
    }

    /// Gives the team a new status.
    pub fn update_team_status(&mut self, team_id: Id, new_status: &TeamStatus) -> (done: Result<
        (),
        BudgetError,
    >)
        ensures
            match team_status_updated(old(self)@, team_id, new_status@) {
                Ok(next) => done is Ok && final(self)@ == next,
                Err(why) => done == Err::<(), BudgetError>(why) && *final(self) == *old(self),
            },
    {
        assert(keys(self.state.teams@) =~= team_ids(self@.teams));
        match find_position(&self.state.teams, team_id) {
            Some(i) => {
                let status = new_status.clone();
                match status.rejection() {
                    Some(why) => Err(why),
                    None => {
                        self.state.teams[i].status = status;
                        assert(self@.teams =~= old(self)@.teams.update(
                            i as int,
                            TeamView { status: new_status@, ..old(self)@.teams[i as int] },
                        ));
                        Ok(())
                    },
                }
            },
            None => Err(BudgetError::TeamNotFound),
        }
    }
}

} // verus!
