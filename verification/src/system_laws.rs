//! What holds of the state across commands: the order among epochs, and the
//! finality of a closed epoch.

use crate::epoch::periods_overlap;
use crate::epoch::EpochStatus;
use crate::model::distinct;
use crate::model::lemma_name_position;
use crate::model::lemma_position_of;
use crate::model::name_position;
use crate::model::position_of;
use crate::platform::Id;
use crate::platform::Timestamp;
use crate::system::epoch_ids;
use crate::system::epoch_names;
use crate::system::SystemView;
use crate::system_epochs::epoch_activated;
use crate::system_epochs::epoch_created;
use crate::system_epochs::epoch_rescheduled;
use crate::system_points::epoch_closed;
use crate::system_points::epoch_to_close;
use crate::raffle::team_ids;
use crate::system::proposal_ids;
use crate::system::raffle_ids;
use crate::system::team_added;
use crate::system::vote_ids;
use crate::system_proposals::proposal_added;
use crate::system_raffles::raffle_stored;
use crate::system_votes::vote_stored;
use crate::raffle::RaffleView;
use crate::vote::VoteView;
use crate::platform::Date;
use crate::proposal::BudgetRequestDetailsView;
use vstd::prelude::*;

verus! {

/// The epochs are in order: no two share an id, each starts before it ends,
/// no two overlap in time, and an active epoch is the current one, so that
/// at most one epoch is active.
pub open spec fn epochs_in_order(system: SystemView) -> bool {
    &&& distinct(epoch_ids(system.epochs))
    &&& forall|i: int|
        0 <= i < system.epochs.len() ==> (#[trigger] system.epochs[i]).start_date
            < system.epochs[i].end_date
    &&& forall|i: int, j: int|
        0 <= i < system.epochs.len() && 0 <= j < system.epochs.len() && i != j ==> !periods_overlap(
            (#[trigger] system.epochs[i]).start_date,
            system.epochs[i].end_date,
            (#[trigger] system.epochs[j]).start_date,
            system.epochs[j].end_date,
        )
    &&& forall|i: int|
        0 <= i < system.epochs.len() && (#[trigger] system.epochs[i]).status == EpochStatus::Active
            ==> system.current_epoch == Some(system.epochs[i].id)
}

/// Where the epochs are in order, at most one of them is active.
pub proof fn law_one_active_epoch(system: SystemView, i: int, j: int)
    requires
        epochs_in_order(system),
        0 <= i < system.epochs.len(),
        0 <= j < system.epochs.len(),
        system.epochs[i].status == EpochStatus::Active,
        system.epochs[j].status == EpochStatus::Active,
    ensures
        i == j,
{
    assert(epoch_ids(system.epochs)[i] == epoch_ids(system.epochs)[j]);
}

/// Planning an epoch keeps the epochs in order.
pub proof fn law_create_keeps_order(
    system: SystemView,
    id: Id,
    name: Seq<char>,
    start_date: Timestamp,
    end_date: Timestamp,
)
    requires
        epochs_in_order(system),
        epoch_created(system, id, name, start_date, end_date) is Ok,
    ensures
        epochs_in_order(epoch_created(system, id, name, start_date, end_date)->Ok_0),
{
    let next = epoch_created(system, id, name, start_date, end_date)->Ok_0;
    let n = system.epochs.len() as int;
    lemma_position_of(epoch_ids(system.epochs), id);
    assert(epoch_ids(next.epochs) =~= epoch_ids(system.epochs).push(id));
    assert forall|i: int, j: int|
        0 <= i < next.epochs.len() && 0 <= j < next.epochs.len() && i != j implies !periods_overlap(
        (#[trigger] next.epochs[i]).start_date,
        next.epochs[i].end_date,
        (#[trigger] next.epochs[j]).start_date,
        next.epochs[j].end_date,
    ) by {
        if i == n {
            assert(next.epochs[j] == system.epochs[j]);
        } else if j == n {
            assert(next.epochs[i] == system.epochs[i]);
        } else {
            assert(next.epochs[i] == system.epochs[i]);
            assert(next.epochs[j] == system.epochs[j]);
        }
    }
    assert forall|i: int| 0 <= i < next.epochs.len() implies (#[trigger] next.epochs[i]).start_date
        < next.epochs[i].end_date by {
        if i < n {
            assert(next.epochs[i] == system.epochs[i]);
        }
    }
    assert forall|i: int|
        0 <= i < next.epochs.len() && (#[trigger] next.epochs[i]).status
            == EpochStatus::Active implies next.current_epoch == Some(next.epochs[i].id) by {
        if i < n {
            assert(next.epochs[i] == system.epochs[i]);
        }
    }
    assert forall|i: int, j: int| 0 <= i < j < next.epochs.len() implies epoch_ids(next.epochs)[i]
        != epoch_ids(next.epochs)[j] by {
        if j < n {
            assert(epoch_ids(system.epochs)[i] != epoch_ids(system.epochs)[j]);
        } else {
            assert(epoch_ids(system.epochs)[i] != id);
        }
    }
}

/// Activating an epoch keeps the epochs in order: it is refused while
/// another epoch is the current one.
pub proof fn law_activate_keeps_order(system: SystemView, id: Id)
    requires
        epochs_in_order(system),
        epoch_activated(system, id) is Ok,
    ensures
        epochs_in_order(epoch_activated(system, id)->Ok_0),
{
    let next = epoch_activated(system, id)->Ok_0;
    lemma_position_of(epoch_ids(system.epochs), id);
    let e = position_of(epoch_ids(system.epochs), id)->Some_0;
    assert(epoch_ids(next.epochs) =~= epoch_ids(system.epochs));
    assert forall|i: int|
        0 <= i < next.epochs.len() && (#[trigger] next.epochs[i]).status
            == EpochStatus::Active implies next.current_epoch == Some(next.epochs[i].id) by {
        if i != e {
            assert(next.epochs[i] == system.epochs[i]);
        }
    }
    assert forall|i: int, j: int|
        0 <= i < next.epochs.len() && 0 <= j < next.epochs.len() && i != j implies !periods_overlap(
        (#[trigger] next.epochs[i]).start_date,
        next.epochs[i].end_date,
        (#[trigger] next.epochs[j]).start_date,
        next.epochs[j].end_date,
    ) by {
        assert(next.epochs[i].start_date == system.epochs[i].start_date);
        assert(next.epochs[j].start_date == system.epochs[j].start_date);
    }
    assert forall|i: int| 0 <= i < next.epochs.len() implies (#[trigger] next.epochs[i]).start_date
        < next.epochs[i].end_date by {
        assert(next.epochs[i].start_date == system.epochs[i].start_date);
    }
}

/// Moving an epoch to another period keeps the epochs in order.
pub proof fn law_reschedule_keeps_order(
    system: SystemView,
    id: Id,
    start_date: Timestamp,
    end_date: Timestamp,
)
    requires
        epochs_in_order(system),
        epoch_rescheduled(system, id, start_date, end_date) is Ok,
    ensures
        epochs_in_order(epoch_rescheduled(system, id, start_date, end_date)->Ok_0),
{
    let next = epoch_rescheduled(system, id, start_date, end_date)->Ok_0;
    lemma_position_of(epoch_ids(system.epochs), id);
    let e = position_of(epoch_ids(system.epochs), id)->Some_0;
    assert(epoch_ids(next.epochs) =~= epoch_ids(system.epochs));
    assert forall|i: int|
        0 <= i < next.epochs.len() && (#[trigger] next.epochs[i]).status
            == EpochStatus::Active implies next.current_epoch == Some(next.epochs[i].id) by {
        if i != e {
            assert(next.epochs[i] == system.epochs[i]);
        } else {
            assert(system.epochs[e].status == EpochStatus::Planned);
        }
    }
    assert forall|i: int, j: int|
        0 <= i < next.epochs.len() && 0 <= j < next.epochs.len() && i != j implies !periods_overlap(
        (#[trigger] next.epochs[i]).start_date,
        next.epochs[i].end_date,
        (#[trigger] next.epochs[j]).start_date,
        next.epochs[j].end_date,
    ) by {
        if i == e {
            assert(next.epochs[j] == system.epochs[j]);
            assert(epoch_ids(system.epochs)[j] != epoch_ids(system.epochs)[e]);
        } else if j == e {
            assert(next.epochs[i] == system.epochs[i]);
            assert(epoch_ids(system.epochs)[i] != epoch_ids(system.epochs)[e]);
        } else {
            assert(next.epochs[i] == system.epochs[i]);
            assert(next.epochs[j] == system.epochs[j]);
        }
    }
    assert forall|i: int| 0 <= i < next.epochs.len() implies (#[trigger] next.epochs[i]).start_date
        < next.epochs[i].end_date by {
        if i != e {
            assert(next.epochs[i] == system.epochs[i]);
        }
    }
}

/// Closing an epoch keeps the epochs in order.
pub proof fn law_close_keeps_order(system: SystemView, name: Option<Seq<char>>)
    requires
        epochs_in_order(system),
        epoch_closed(system, name) is Ok,
    ensures
        epochs_in_order(epoch_closed(system, name)->Ok_0),
{
    let next = epoch_closed(system, name)->Ok_0;
    let id = epoch_to_close(system, name)->Ok_0;
    lemma_position_of(epoch_ids(system.epochs), id);
    let e = position_of(epoch_ids(system.epochs), id)->Some_0;
    assert(epoch_ids(next.epochs) =~= epoch_ids(system.epochs));
    assert forall|i: int|
        0 <= i < next.epochs.len() && (#[trigger] next.epochs[i]).status
            == EpochStatus::Active implies next.current_epoch == Some(next.epochs[i].id) by {
        assert(i != e);
        assert(next.epochs[i] == system.epochs[i]);
        assert(epoch_ids(system.epochs)[i] != epoch_ids(system.epochs)[e]);
    }
    assert forall|i: int, j: int|
        0 <= i < next.epochs.len() && 0 <= j < next.epochs.len() && i != j implies !periods_overlap(
        (#[trigger] next.epochs[i]).start_date,
        next.epochs[i].end_date,
        (#[trigger] next.epochs[j]).start_date,
        next.epochs[j].end_date,
    ) by {
        assert(next.epochs[i].start_date == system.epochs[i].start_date);
        assert(next.epochs[j].start_date == system.epochs[j].start_date);
    }
    assert forall|i: int| 0 <= i < next.epochs.len() implies (#[trigger] next.epochs[i]).start_date
        < next.epochs[i].end_date by {
        assert(next.epochs[i].start_date == system.epochs[i].start_date);
    }
}

/// The close of an epoch is final. Once an epoch is closed, a second close
/// is refused, whether it is asked for in the same words or in any other
/// words that mean the same epoch; and a refused close changes nothing, so
/// the rewards stay as the first close set them.
pub proof fn law_close_is_final(system: SystemView, first: Option<Seq<char>>, second: Option<Seq<char>>)
    requires
        epoch_closed(system, first) is Ok,
    ensures
        epoch_closed(epoch_closed(system, first)->Ok_0, first) is Err,
        epoch_to_close(epoch_closed(system, first)->Ok_0, second) == epoch_to_close(system, first)
            ==> epoch_closed(epoch_closed(system, first)->Ok_0, second) is Err,
{
    let next = epoch_closed(system, first)->Ok_0;
    let id = epoch_to_close(system, first)->Ok_0;
    lemma_position_of(epoch_ids(system.epochs), id);
    let e = position_of(epoch_ids(system.epochs), id)->Some_0;
    assert(epoch_ids(next.epochs) =~= epoch_ids(system.epochs));
    assert(epoch_names(next.epochs) =~= epoch_names(system.epochs));
    assert(next.epochs[e].status == EpochStatus::Closed);
    match first {
        Some(name) => {
            lemma_name_position(epoch_names(system.epochs), name);
            let at = name_position(epoch_names(system.epochs), name)->Some_0;
            assert(next.epochs[at].id == system.epochs[at].id);
            assert(epoch_to_close(next, first) == epoch_to_close(system, first));
        },
        None => {},
    }
}

/// A closed epoch never pays out more than its pool: the rewards that the
/// close records are together at most the reward that was set.
pub proof fn law_close_pays_within_pool(system: SystemView, name: Option<Seq<char>>)
    requires
        epoch_closed(system, name) is Ok,
    ensures
        ({
            let id = epoch_to_close(system, name)->Ok_0;
            let e = position_of(epoch_ids(system.epochs), id)->Some_0;
            let closed = epoch_closed(system, name)->Ok_0.epochs[e];
            &&& closed.status == EpochStatus::Closed
            &&& closed.reward is Some
            &&& crate::epoch::total_paid(closed.team_rewards) <= closed.reward->Some_0.amount
        }),
{
    let id = epoch_to_close(system, name)->Ok_0;
    lemma_position_of(epoch_ids(system.epochs), id);
    let e = position_of(epoch_ids(system.epochs), id)->Some_0;
    let pool = system.epochs[e].reward->Some_0.amount;
    crate::epoch::law_rewards_within_pool(crate::system_points::points_table(system, id), pool);
}

/// No registry holds two records of one id.
pub open spec fn ids_are_unique(system: SystemView) -> bool {
    &&& distinct(team_ids(system.teams))
    &&& distinct(proposal_ids(system.proposals))
    &&& distinct(raffle_ids(system.raffles))
    &&& distinct(vote_ids(system.votes))
    &&& distinct(epoch_ids(system.epochs))
}

/// A list of distinct ids stays one when an id that it lacks is added.
pub proof fn lemma_distinct_push(ids: Seq<Id>, id: Id)
    requires
        distinct(ids),
        position_of(ids, id) is None,
    ensures
        distinct(ids.push(id)),
{
    lemma_position_of(ids, id);
    assert forall|i: int, j: int| 0 <= i < j < ids.push(id).len() implies ids.push(id)[i]
        != ids.push(id)[j] by {
        if j < ids.len() {
            assert(ids[i] != ids[j]);
        } else {
            assert(ids[i] != id);
        }
    }
}

/// Adding a team keeps the ids unique: a taken id is refused.
pub proof fn law_team_ids_stay_unique(
    system: SystemView,
    id: Id,
    name: Seq<char>,
    representative: Seq<char>,
    revenue: Option<Seq<u64>>,
)
    requires
        ids_are_unique(system),
        team_added(system, id, name, representative, revenue) is Ok,
    ensures
        ids_are_unique(team_added(system, id, name, representative, revenue)->Ok_0),
{
    let next = team_added(system, id, name, representative, revenue)->Ok_0;
    lemma_distinct_push(team_ids(system.teams), id);
    assert(team_ids(next.teams) =~= team_ids(system.teams).push(id));
}

/// Making a proposal keeps the ids unique: a taken id is refused.
pub proof fn law_proposal_ids_stay_unique(
    system: SystemView,
    id: Id,
    title: Seq<char>,
    url: Option<Seq<char>>,
    budget_request_details: Option<BudgetRequestDetailsView>,
    announced_at: Option<Date>,
    published_at: Option<Date>,
    is_historical: Option<bool>,
)
    requires
        ids_are_unique(system),
        proposal_added(
            system,
            id,
            title,
            url,
            budget_request_details,
            announced_at,
            published_at,
            is_historical,
        ) is Ok,
    ensures
        ids_are_unique(
            proposal_added(
                system,
                id,
                title,
                url,
                budget_request_details,
                announced_at,
                published_at,
                is_historical,
            )->Ok_0,
        ),
{
    let next = proposal_added(
        system,
        id,
        title,
        url,
        budget_request_details,
        announced_at,
        published_at,
        is_historical,
    )->Ok_0;
    lemma_distinct_push(proposal_ids(system.proposals), id);
    assert(proposal_ids(next.proposals) =~= proposal_ids(system.proposals).push(id));
    let e = crate::system_epochs::current_epoch_place(system)->Ok_0;
    lemma_position_of(epoch_ids(system.epochs), system.current_epoch->Some_0);
    assert(epoch_ids(next.epochs) =~= epoch_ids(system.epochs));
}

/// Storing a raffle keeps the ids unique: a taken id is refused.
pub proof fn law_raffle_ids_stay_unique(system: SystemView, raffle: RaffleView)
    requires
        ids_are_unique(system),
        raffle_stored(system, raffle) is Ok,
    ensures
        ids_are_unique(raffle_stored(system, raffle)->Ok_0),
{
    let next = raffle_stored(system, raffle)->Ok_0;
    lemma_distinct_push(raffle_ids(system.raffles), raffle.id);
    assert(raffle_ids(next.raffles) =~= raffle_ids(system.raffles).push(raffle.id));
}

/// Storing a vote keeps the ids unique: a taken id is refused.
pub proof fn law_vote_ids_stay_unique(system: SystemView, vote: VoteView)
    requires
        ids_are_unique(system),
        vote_stored(system, vote) is Ok,
    ensures
        ids_are_unique(vote_stored(system, vote)->Ok_0),
{
    let next = vote_stored(system, vote)->Ok_0;
    lemma_distinct_push(vote_ids(system.votes), vote.id);
    assert(vote_ids(next.votes) =~= vote_ids(system.votes).push(vote.id));
}

} // verus!
