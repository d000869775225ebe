//! The commands on proposals.

use crate::epoch::EpochView;
use crate::error::BudgetError;
use crate::model::find_by_name;
use crate::model::find_position;
use crate::model::keys;
use crate::model::name_position;
use crate::model::names;
use crate::model::optional_text;
use crate::model::position_of;
use crate::model::views;
use crate::platform::fresh_id;
use crate::platform::Date;
use crate::platform::Id;
use crate::proposal::actionable;
use crate::proposal::close_rejection;
use crate::proposal::optional_details;
use crate::proposal::revised;
use crate::proposal::update_refused;
use crate::proposal::BudgetRequestDetails;
use crate::proposal::BudgetRequestDetailsView;
use crate::proposal::Proposal;
use crate::proposal::ProposalStatus;
use crate::proposal::ProposalView;
use crate::proposal::Resolution;
use crate::proposal::UpdateProposalDetails;
use crate::proposal::UpdateProposalDetailsView;
use crate::system::epoch_ids;
use crate::system::proposal_ids;
use crate::system::proposal_titles;
use crate::system::team_named;
use crate::system::BudgetSystem;
use crate::system::SystemView;
use crate::system_epochs::current_epoch_place;
use crate::text::contains_id;
use vstd::prelude::*;

verus! {

/// The list with `id` at its end, unless it holds `id`.
pub open spec fn with_id(ids: Seq<Id>, id: Id) -> Seq<Id> {
    if ids.contains(id) {
        ids
    } else {
        ids.push(id)
    }
}

/// The state after a proposal was made in the current epoch under the given
/// id, or why it is not made.
pub open spec fn proposal_added(
    system: SystemView,
    id: Id,
    title: Seq<char>,
    url: Option<Seq<char>>,
    budget_request_details: Option<BudgetRequestDetailsView>,
    announced_at: Option<Date>,
    published_at: Option<Date>,
    is_historical: Option<bool>,
) -> Result<SystemView, BudgetError> {
    match current_epoch_place(system) {
        Err(why) => Err(why),
        Ok(e) => if position_of(proposal_ids(system.proposals), id) is Some {
            Err(BudgetError::DuplicateId)
        } else {
            Ok(
                SystemView {
                    proposals: system.proposals.push(
                        Proposal::spec_new(
                            id,
                            system.epochs[e].id,
                            title,
                            url,
                            budget_request_details,
                            announced_at,
                            published_at,
                            is_historical,
                        ),
                    ),
                    epochs: system.epochs.update(
                        e,
                        EpochView {
                            associated_proposals: with_id(system.epochs[e].associated_proposals, id),
                            ..system.epochs[e]
                        },
                    ),
                    ..system
                },
            )
        },
    }
}

/// The state after the proposal was closed with the resolution, or why it is not closed.
pub open spec fn proposal_closed(system: SystemView, id: Id, resolution: Resolution) -> Result<
    SystemView,
    BudgetError,
> {
    match position_of(proposal_ids(system.proposals), id) {
        None => Err(BudgetError::ProposalNotFound),
        Some(i) => match close_rejection(system.proposals[i], resolution) {
            Some(why) => Err(why),
            None => Ok(
                SystemView {
                    proposals: system.proposals.update(
                        i,
                        ProposalView {
                            resolution: Some(resolution),
                            status: ProposalStatus::Closed,
                            ..system.proposals[i]
                        },
                    ),
                    ..system
                },
            ),
        },
    }
}

/// The id of the team that the changes name, if they name one that exists.
pub open spec fn named_team(system: SystemView, changes: UpdateProposalDetailsView) -> Option<Id> {
    match changes.budget_request_details {
        Some(details) => match details.team {
            Some(name) => team_named(system, name),
            None => None,
        },
        None => None,
    }
}

/// The state after the first proposal of this title was changed, or why it is not changed.
pub open spec fn proposal_updated(
    system: SystemView,
    title: Seq<char>,
    changes: UpdateProposalDetailsView,
) -> Result<SystemView, BudgetError> {
    match name_position(proposal_titles(system.proposals), title) {
        None => Err(BudgetError::ProposalNotFound),
        Some(i) => {
            let team = named_team(system, changes);
            if update_refused(system.proposals[i], changes, team) {
                Err(BudgetError::InvalidDateRange)
            } else {
                Ok(
                    SystemView {
                        proposals: system.proposals.update(
                            i,
                            revised(system.proposals[i], changes, team),
                        ),
                        ..system
                    },
                )
            }
        },
    }
}

/// The proposals with these ids, in the order of the ids; an id that names
/// no proposal is passed over.
pub open spec fn proposals_listed(proposals: Seq<ProposalView>, ids: Seq<Id>) -> Seq<ProposalView>
    decreases ids.len(),
{
    if ids.len() == 0 {
        Seq::empty()
    } else {
        let before = proposals_listed(proposals, ids.drop_last());
        match position_of(proposal_ids(proposals), ids.last()) {
            Some(i) => before.push(proposals[i]),
            None => before,
        }
    }
}

/// The proposals of the epoch, in the order in which they were made; none
/// for an epoch that does not exist.
pub open spec fn epoch_proposals(system: SystemView, epoch_id: Id) -> Seq<ProposalView> {
    match position_of(epoch_ids(system.epochs), epoch_id) {
        Some(e) => proposals_listed(system.proposals, system.epochs[e].associated_proposals),
        None => Seq::empty(),
    }
}

/// How many of the proposals still await a decision.
pub open spec fn actionable_count(proposals: Seq<ProposalView>) -> nat
    decreases proposals.len(),
{
    if proposals.len() == 0 {
        0
    } else {
        actionable_count(proposals.drop_last()) + if actionable(proposals.last()) {
            1nat
        } else {
            0nat
        }
    }
}

impl BudgetSystem {
    /// Makes a proposal in the current epoch under the given id.
    pub fn add_proposal_with_id(
        &mut self,
        id: Id,
        title: String,
        url: Option<String>,
        budget_request_details: Option<BudgetRequestDetails>,
        announced_at: Option<Date>,
        published_at: Option<Date>,
        is_historical: Option<bool>,
    ) -> (done: Result<(), BudgetError>)
        ensures
            match proposal_added(
                old(self)@,
                id,
                title@,
                optional_text(url),
                optional_details(budget_request_details),
                announced_at,
                published_at,
                is_historical,
            ) {
                Ok(next) => done is Ok && final(self)@ == next,
                Err(why) => done == Err::<(), BudgetError>(why) && *final(self) == *old(self),
            },
    {
        let e = match self.current_epoch_index() {
            Ok(e) => e,
            Err(why) => {
                return Err(why);
            },
        };
        assert(keys(self.state.proposals@) =~= proposal_ids(self@.proposals));
        if find_position(&self.state.proposals, id).is_some() {
            return Err(BudgetError::DuplicateId);
        }
        let epoch_id = self.state.epochs[e].id;
        let proposal = Proposal::new(
            id,
            epoch_id,
            title,
            url,
            budget_request_details,
            announced_at,
            published_at,
            is_historical,
        );
        self.state.proposals.push(proposal);
        if !contains_id(&self.state.epochs[e].associated_proposals, id) {
            self.state.epochs[e].associated_proposals.push(id);
        }
        assert(self@.proposals =~= old(self)@.proposals.push(proposal@));
        assert(self@.epochs =~= old(self)@.epochs.update(
            e as int,
            EpochView {
                associated_proposals: with_id(old(self)@.epochs[e as int].associated_proposals, id),
                ..old(self)@.epochs[e as int]
            },
        ));
        Ok(())
    }

    /// Makes a proposal in the current epoch under a fresh id and returns the
    /// id. In the event that the fresh id is taken the proposal is not made.
    pub fn add_proposal(
        &mut self,
        title: String,
        url: Option<String>,
        budget_request_details: Option<BudgetRequestDetails>,
        announced_at: Option<Date>,
        published_at: Option<Date>,
        is_historical: Option<bool>,
    ) -> (done: Result<Id, BudgetError>)
        ensures
            match done {
                Ok(id) => proposal_added(
                    old(self)@,
                    id,
                    title@,
                    optional_text(url),
                    optional_details(budget_request_details),
                    announced_at,
                    published_at,
                    is_historical,
                ) == Ok::<SystemView, BudgetError>(final(self)@),
                Err(why) => {
                    &&& *final(self) == *old(self)
                    &&& exists|id: Id|
                        #[trigger] proposal_added(
                            old(self)@,
                            id,
                            title@,
                            optional_text(url),
                            optional_details(budget_request_details),
                            announced_at,
                            published_at,
                            is_historical,
                        ) == Err::<SystemView, BudgetError>(why)
                },
            },
            current_epoch_place(old(self)@) is Err ==> done is Err,
    {
        let id = fresh_id();
        match self.add_proposal_with_id(
            id,
            title,
            url,
            budget_request_details,
            announced_at,
            published_at,
            is_historical,
        ) {
            Ok(()) => Ok(id),
            Err(why) => Err(why),
        }
    }

    /// Closes the proposal with a resolution.
    pub fn close_with_reason(&mut self, id: Id, resolution: &Resolution) -> (done: Result<
        (),
        BudgetError,
    >)
        ensures
            match proposal_closed(old(self)@, id, *resolution) {
                Ok(next) => done is Ok && final(self)@ == next,
                Err(why) => done == Err::<(), BudgetError>(why) && *final(self) == *old(self),
            },
    {
        assert(keys(self.state.proposals@) =~= proposal_ids(self@.proposals));
        match find_position(&self.state.proposals, id) {
            None => Err(BudgetError::ProposalNotFound),
            Some(i) => match self.state.proposals[i].check_close(*resolution) {
                Some(why) => Err(why),
                None => {
                    self.state.proposals[i].resolution = Some(*resolution);
                    self.state.proposals[i].status = ProposalStatus::Closed;
                    assert(self@.proposals =~= old(self)@.proposals.update(
                        i as int,
                        ProposalView {
                            resolution: Some(*resolution),
                            status: ProposalStatus::Closed,
                            ..old(self)@.proposals[i as int]
                        },
                    ));
                    Ok(())
                },
            },
        }
    }

    /// Changes the first proposal of this title.
    pub fn update_proposal(&mut self, proposal_name: &str, updates: UpdateProposalDetails) -> (done:
        Result<(), BudgetError>)
        ensures
            match proposal_updated(old(self)@, proposal_name@, updates@) {
                Ok(next) => done is Ok && final(self)@ == next,
                Err(why) => done == Err::<(), BudgetError>(why) && *final(self) == *old(self),
            },
    {
        let team_id = match &updates.budget_request_details {
            Some(details) => match &details.team {
                Some(name) => self.get_team_id_by_name(name.as_str()),
                None => None,
            },
            None => None,
        };
        assert(names(self.state.proposals@) =~= proposal_titles(self@.proposals));
        match find_by_name(&self.state.proposals, proposal_name) {
            None => Err(BudgetError::ProposalNotFound),
            Some(i) => {
                let mut proposal = self.state.proposals[i].clone();
                match proposal.update(updates, team_id) {
                    Err(why) => Err(why),
                    Ok(()) => {
                        self.state.proposals.set(i, proposal);
                        assert(self@.proposals =~= old(self)@.proposals.update(
                            i as int,
                            revised(old(self)@.proposals[i as int], updates@, team_id),
                        ));
                        Ok(())
                    },
                }
            },
        }
    }

    /// The proposals of the epoch, in the order in which they were made.
    pub fn get_proposals_for_epoch(&self, epoch_id: Id) -> (found: Vec<&Proposal>)
        ensures
            views(found@) == epoch_proposals(self@, epoch_id),
    {
        let mut found: Vec<&Proposal> = Vec::new();
        assert(views(found@) =~= Seq::<ProposalView>::empty());
        assert(keys(self.state.epochs@) =~= epoch_ids(self@.epochs));
        match find_position(&self.state.epochs, epoch_id) {
            None => {},
            Some(e) => {
                let ids = &self.state.epochs[e].associated_proposals;
                let mut k: usize = 0;
                while k < ids.len()
                    invariant
                        k <= ids@.len(),
                        views(found@) == proposals_listed(self@.proposals, ids@.take(k as int)),
                    decreases ids@.len() - k,
                {
                    assert(ids@.take(k + 1).drop_last() =~= ids@.take(k as int));
                    assert(keys(self.state.proposals@) =~= proposal_ids(self@.proposals));
                    match find_position(&self.state.proposals, ids[k]) {
                        Some(i) => {
                            let ghost before = found@;
                            let proposal = &self.state.proposals[i];
                            found.push(proposal);
                            assert(views(found@) =~= views(before).push(proposal@));
                        },
                        None => {},
                    }
                    k += 1;
                }
                assert(ids@.take(k as int) =~= ids@);
            },
        }
        found
    }

    /// How many proposals of the epoch still await a decision.
    pub fn count_actionable_proposals(&self, epoch_id: Id) -> (count: usize)
        ensures
            count == actionable_count(epoch_proposals(self@, epoch_id)),
    {
        let proposals = self.get_proposals_for_epoch(epoch_id);
        let mut count: usize = 0;
        let mut i: usize = 0;
        while i < proposals.len()
            invariant
                i <= proposals@.len(),
                count == actionable_count(views(proposals@).take(i as int)),
                count <= i,
            decreases proposals@.len() - i,
        {
            assert(views(proposals@).take(i + 1).drop_last() =~= views(proposals@).take(i as int));
            if proposals[i].is_actionable() {
                count += 1;
            }
            i += 1;
        }
        assert(views(proposals@).take(i as int) =~= views(proposals@));
        count
    }
}

} // verus!
