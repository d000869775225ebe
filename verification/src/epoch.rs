//! Epochs, their reward pool and the shares that teams receive from it.

use crate::error::BudgetError;
use crate::model::Keyed;
use crate::model::NameMatches;
use crate::platform::Id;
use crate::platform::Timestamp;
use crate::text::contains_id;
use crate::text::str_eq;
use vstd::prelude::*;

verus! {

#[derive(Clone, Copy, Debug, PartialEq, Eq, Structural)]
pub enum EpochStatus {
    Planned,
    Active,
    Closed,
}

/// The pool that an epoch pays out, in the token's smallest unit.
#[derive(Debug)]
pub struct EpochReward {
    pub token: String,
    pub amount: u64,
}

/// The mathematical value of an [`EpochReward`].
pub struct EpochRewardView {
    pub token: Seq<char>,
    pub amount: u64,
}

impl View for EpochReward {
    type V = EpochRewardView;

    open spec fn view(&self) -> EpochRewardView {
        EpochRewardView { token: self.token@, amount: self.amount }
    }
}

impl Clone for EpochReward {
    fn clone(&self) -> (copy: Self)
        ensures
            copy@ == self@,
    {
        EpochReward { token: self.token.clone(), amount: self.amount }
    }
}

impl EpochReward {
    pub fn new(token: String, amount: u64) -> (reward: EpochReward)
        ensures
            reward@ == (EpochRewardView { token: token@, amount }),
    {
        EpochReward { token, amount }
    }

    pub fn token(&self) -> (token: &str)
        ensures
            token@ == self@.token,
    {
        self.token.as_str()
    }

    pub fn amount(&self) -> (amount: u64)
        ensures
            amount == self@.amount,
    {
        self.amount
    }
}

/// What a team receives at the close of an epoch: its share is
/// `points / total_points`, and `amount` is that share of the pool, rounded down.
#[derive(Clone, Copy, Debug, PartialEq, Eq, Structural)]
pub struct TeamReward {
    pub points: u64,
    pub total_points: u64,
    pub amount: u64,
}

impl TeamReward {
    pub fn points(&self) -> (points: u64)
        ensures
            points == self.points,
    {
        self.points
    }

    pub fn total_points(&self) -> (total: u64)
        ensures
            total == self.total_points,
    {
        self.total_points
    }

    pub fn amount(&self) -> (amount: u64)
        ensures
            amount == self.amount,
    {
        self.amount
    }
}

/// The points that a team earned in an epoch.
#[derive(Clone, Copy, Debug, PartialEq, Eq, Structural)]
pub struct TeamPoints {
    pub team_id: Id,
    pub points: u64,
}

/// The reward of one team.
#[derive(Clone, Copy, Debug, PartialEq, Eq, Structural)]
pub struct TeamRewardEntry {
    pub team_id: Id,
    pub reward: TeamReward,
}

/// The points of all teams together.
pub open spec fn total_points(entries: Seq<TeamPoints>) -> nat
    decreases entries.len(),
{
    if entries.len() == 0 {
        0
    } else {
        total_points(entries.drop_last()) + entries.last().points as nat
    }
}

/// The part of the pool that `points` out of `total` points earn, rounded down.
pub open spec fn share_of_pool(points: nat, total: nat, pool: nat) -> nat {
    if total == 0 {
        0
    } else {
        points * pool / total
    }
}

/// The reward of each team: its share of the pool, in the order of the entries.
pub open spec fn allocation(entries: Seq<TeamPoints>, pool: u64) -> Seq<TeamRewardEntry> {
    Seq::new(
        entries.len(),
        |i: int|
            TeamRewardEntry {
                team_id: entries[i].team_id,
                reward: TeamReward {
                    points: entries[i].points,
                    total_points: total_points(entries) as u64,
                    amount: share_of_pool(
                        entries[i].points as nat,
                        total_points(entries),
                        pool as nat,
                    ) as u64,
                },
            },
    )
}

/// The points of the first entries are part of the total.
pub proof fn lemma_total_points_prefix(entries: Seq<TeamPoints>, upto: int)
    requires
        0 <= upto <= entries.len(),
    ensures
        total_points(entries.take(upto)) <= total_points(entries),
    decreases entries.len() - upto,
{
    if upto < entries.len() {
        assert(entries.take(upto + 1).drop_last() =~= entries.take(upto));
        lemma_total_points_prefix(entries, upto + 1);
    } else {
        assert(entries.take(upto) =~= entries);
    }
}

/// No team has more points than all teams together.
pub proof fn lemma_total_points_members(entries: Seq<TeamPoints>)
    ensures
        forall|i: int| 0 <= i < entries.len() ==> (#[trigger] entries[i]).points <= total_points(entries),
    decreases entries.len(),
{
    if entries.len() > 0 {
        lemma_total_points_members(entries.drop_last());
        assert forall|i: int| 0 <= i < entries.len() implies (#[trigger] entries[i]).points
            <= total_points(entries) by {
            if i < entries.len() - 1 {
                assert(entries.drop_last()[i] == entries[i]);
            }
        }
    }
}

/// A share is at most the pool, and it is the pool's proportional part rounded down.
pub proof fn lemma_share_of_pool(points: nat, total: nat, pool: nat)
    requires
        0 < total,
        points <= total,
    ensures
        share_of_pool(points, total, pool) <= pool,
        share_of_pool(points, total, pool) * total <= points * pool,
        points * pool < (share_of_pool(points, total, pool) + 1) * total,
{
    let product = points * pool;
    let share = product / total;
    assert(share * total <= product && product < (share + 1) * total) by (nonlinear_arith)
        requires
            share == product / total,
            0 < total,
            0 <= product,
    ;
    assert(share <= pool) by (nonlinear_arith)
        requires
            share * total <= points * pool,
            points <= total,
            0 < total,
            0 <= share,
            0 <= pool,
    ;
}

/// Divides the pool among the teams in proportion to their points. There is
/// nothing to divide by where no team has a point, and no sum where the
/// points together exceed 64 bits.
pub fn allocate_rewards(entries: &Vec<TeamPoints>, pool: u64) -> (made: Result<
    Vec<TeamRewardEntry>,
    BudgetError,
>)
    ensures
        match made {
            Ok(rewards) => {
                &&& 0 < total_points(entries@) <= u64::MAX
                &&& rewards@ == allocation(entries@, pool)
            },
            Err(why) => {
                if total_points(entries@) == 0 {
                    why == BudgetError::NoPointsEarned
                } else {
                    total_points(entries@) > u64::MAX && why == BudgetError::PointsOverflow
                }
            },
        },
{
    let mut total: u64 = 0;
    let mut i: usize = 0;
    while i < entries.len()
        invariant
            i <= entries@.len(),
            total == total_points(entries@.take(i as int)),
        decreases entries@.len() - i,
    {
        proof {
            assert(entries@.take(i + 1).drop_last() =~= entries@.take(i as int));
            lemma_total_points_prefix(entries@, i + 1);
        }
        let points = entries[i].points;
        if points > u64::MAX - total {
            return Err(BudgetError::PointsOverflow);
        }
        total = total + points;
        i += 1;
    }
    assert(entries@.take(i as int) =~= entries@);
    if total == 0 {
        return Err(BudgetError::NoPointsEarned);
    }
    let mut rewards: Vec<TeamRewardEntry> = Vec::new();
    let mut k: usize = 0;
    while k < entries.len()
        invariant
            k <= entries@.len(),
            0 < total == total_points(entries@),
            rewards@ == allocation(entries@, pool).take(k as int),
        decreases entries@.len() - k,
    {
        let entry = entries[k];
        proof {
            lemma_total_points_members(entries@);
            lemma_share_of_pool(entry.points as nat, total as nat, pool as nat);
            assert(entry.points as u128 * pool as u128 <= 0xffff_ffff_ffff_ffff
                * 0xffff_ffff_ffff_ffff) by (nonlinear_arith)
                requires
                    entry.points <= 0xffff_ffff_ffff_ffff,
                    pool <= 0xffff_ffff_ffff_ffff,
            ;
        }
        let amount = (entry.points as u128 * pool as u128 / total as u128) as u64;
        rewards.push(
            TeamRewardEntry {
                team_id: entry.team_id,
                reward: TeamReward { points: entry.points, total_points: total, amount },
            },
        );
        assert(rewards@ =~= allocation(entries@, pool).take(k + 1));
        k += 1;
    }
    assert(allocation(entries@, pool).take(k as int) =~= allocation(entries@, pool));
    Ok(rewards)
}

/// What the rewards pay out together.
pub open spec fn total_paid(rewards: Seq<TeamRewardEntry>) -> nat
    decreases rewards.len(),
{
    if rewards.len() == 0 {
        0
    } else {
        total_paid(rewards.drop_last()) + rewards.last().reward.amount as nat
    }
}

/// Two periods overlap if each starts before the other ends.
pub open spec fn periods_overlap(
    a_start: Timestamp,
    a_end: Timestamp,
    b_start: Timestamp,
    b_end: Timestamp,
) -> bool {
    a_start < b_end && b_start < a_end
}

/// The first `upto` rewards pay out no more than the proportional part of
/// the pool that the first `upto` teams' points stand for.
pub proof fn lemma_paid_prefix(entries: Seq<TeamPoints>, pool: u64, upto: int)
    requires
        0 < total_points(entries) <= u64::MAX,
        0 <= upto <= entries.len(),
    ensures
        total_paid(allocation(entries, pool).take(upto)) * total_points(entries) <= total_points(
            entries.take(upto),
        ) * pool,
    decreases upto,
{
    let total = total_points(entries);
    let rewards = allocation(entries, pool);
    if upto > 0 {
        lemma_paid_prefix(entries, pool, upto - 1);
        assert(rewards.take(upto).drop_last() =~= rewards.take(upto - 1));
        assert(entries.take(upto).drop_last() =~= entries.take(upto - 1));
        let points = entries[upto - 1].points as nat;
        lemma_total_points_members(entries);
        lemma_share_of_pool(points, total, pool as nat);
        let share = share_of_pool(points, total, pool as nat);
        assert(rewards[upto - 1].reward.amount == share);
        let paid_before = total_paid(rewards.take(upto - 1));
        let points_before = total_points(entries.take(upto - 1));
        assert(total_paid(rewards.take(upto)) == paid_before + share);
        assert(total_points(entries.take(upto)) == points_before + points);
        assert((paid_before + share) * total <= (points_before + points) * pool)
            by (nonlinear_arith)
            requires
                paid_before * total <= points_before * pool,
                share * total <= points * pool,
        ;
    } else {
        assert(total_paid(rewards.take(0)) == 0);
        assert(total_points(entries.take(0)) == 0);
        assert(0 * total <= 0 * pool) by (nonlinear_arith);
    }
}

/// The rewards never pay out more than the pool, and each team's reward is
/// its proportional part of the pool, rounded down.
pub proof fn law_rewards_within_pool(entries: Seq<TeamPoints>, pool: u64)
    requires
        0 < total_points(entries) <= u64::MAX,
    ensures
        total_paid(allocation(entries, pool)) <= pool,
        forall|i: int|
            0 <= i < entries.len() ==> {
                let reward = (#[trigger] allocation(entries, pool)[i]).reward;
                &&& reward.amount <= pool
                &&& reward.amount * total_points(entries) <= entries[i].points * pool
                &&& entries[i].points * pool < (reward.amount + 1) * total_points(entries)
            },
{
    let total = total_points(entries);
    let rewards = allocation(entries, pool);
    lemma_paid_prefix(entries, pool, entries.len() as int);
    assert(rewards.take(entries.len() as int) =~= rewards);
    assert(entries.take(entries.len() as int) =~= entries);
    let paid = total_paid(rewards);
    assert(paid <= pool) by (nonlinear_arith)
        requires
            paid * total <= total * pool,
            0 < total,
    ;
    lemma_total_points_members(entries);
    assert forall|i: int| 0 <= i < entries.len() implies {
        let reward = (#[trigger] allocation(entries, pool)[i]).reward;
        &&& reward.amount <= pool
        &&& reward.amount * total_points(entries) <= entries[i].points * pool
        &&& entries[i].points * pool < (reward.amount + 1) * total_points(entries)
    } by {
        lemma_share_of_pool(entries[i].points as nat, total, pool as nat);
    }
}

/// A bounded governance period with its proposals and its reward pool.
#[derive(Debug)]
pub struct Epoch {
    pub id: Id,
    pub name: String,
    pub start_date: Timestamp,
    pub end_date: Timestamp,
    pub status: EpochStatus,
    /// The proposals made in the epoch, in the order in which they were made.
    pub associated_proposals: Vec<Id>,
    pub reward: Option<EpochReward>,
    /// What each team receives, in the order of the team registry at the
    /// close; empty until the epoch is closed.
    pub team_rewards: Vec<TeamRewardEntry>,
}

/// The mathematical value of an [`Epoch`].
pub struct EpochView {
    pub id: Id,
    pub name: Seq<char>,
    pub start_date: Timestamp,
    pub end_date: Timestamp,
    pub status: EpochStatus,
    pub associated_proposals: Seq<Id>,
    pub reward: Option<EpochRewardView>,
    pub team_rewards: Seq<TeamRewardEntry>,
}

/// The view of an optional reward.
pub open spec fn optional_reward(reward: Option<EpochReward>) -> Option<EpochRewardView> {
    match reward {
        Some(r) => Some(r@),
        None => None,
    }
}

impl View for Epoch {
    type V = EpochView;

    open spec fn view(&self) -> EpochView {
        EpochView {
            id: self.id,
            name: self.name@,
            start_date: self.start_date,
            end_date: self.end_date,
            status: self.status,
            associated_proposals: self.associated_proposals@,
            reward: optional_reward(self.reward),
            team_rewards: self.team_rewards@,
        }
    }
}

impl NameMatches for Epoch {
    open spec fn spec_name(&self) -> Seq<char> {
        self.name@
    }

    fn name_matches(&self, name: &str) -> (yes: bool) {
        str_eq(self.name.as_str(), name)
    }
}

impl Keyed for Epoch {
    open spec fn spec_key(&self) -> Id {
        self.id
    }

    fn key(&self) -> (id: Id) {
        self.id
    }
}

impl Clone for Epoch {
    fn clone(&self) -> (copy: Self)
        ensures
            copy@ == self@,
    {
        let proposals = self.associated_proposals.clone();
        let rewards = self.team_rewards.clone();
        assert(proposals@ =~= self.associated_proposals@);
        assert(rewards@ =~= self.team_rewards@);
        Epoch {
            id: self.id,
            name: self.name.clone(),
            start_date: self.start_date,
            end_date: self.end_date,
            status: self.status,
            associated_proposals: proposals,
            reward: match &self.reward {
                Some(r) => Some(r.clone()),
                None => None,
            },
            team_rewards: rewards,
        }
    }
}

impl Epoch {
    /// The epoch as it is planned.
    pub open spec fn spec_new(id: Id, name: Seq<char>, start_date: Timestamp, end_date: Timestamp) -> EpochView {
        EpochView {
            id,
            name,
            start_date,
            end_date,
            status: EpochStatus::Planned,
            associated_proposals: Seq::empty(),
            reward: None,
            team_rewards: Seq::empty(),
        }
    }

    /// Plans an epoch; it must start before it ends.
    pub fn new(id: Id, name: String, start_date: Timestamp, end_date: Timestamp) -> (made: Result<
        Epoch,
        BudgetError,
    >)
        ensures
            match made {
                Ok(epoch) => start_date < end_date && epoch@ == Self::spec_new(
                    id,
                    name@,
                    start_date,
                    end_date,
                ),
                Err(why) => start_date >= end_date && why == BudgetError::InvalidDateRange,
            },
    {
        if start_date >= end_date {
            return Err(BudgetError::InvalidDateRange);
        }
        Ok(
            Epoch {
                id,
                name,
                start_date,
                end_date,
                status: EpochStatus::Planned,
                associated_proposals: Vec::new(),
                reward: None,
                team_rewards: Vec::new(),
            },
        )
    }

    pub fn id(&self) -> (id: Id)
        ensures
            id == self@.id,
    {
        self.id
    }

    pub fn name(&self) -> (name: &str)
        ensures
            name@ == self@.name,
    {
        self.name.as_str()
    }

    pub fn start_date(&self) -> (date: Timestamp)
        ensures
            date == self@.start_date,
    {
        self.start_date
    }

    pub fn end_date(&self) -> (date: Timestamp)
        ensures
            date == self@.end_date,
    {
        self.end_date
    }

    pub fn status(&self) -> (status: EpochStatus)
        ensures
            status == self@.status,
    {
        self.status
    }

    pub fn associated_proposals(&self) -> (ids: &Vec<Id>)
        ensures
            ids@ == self@.associated_proposals,
    {
        &self.associated_proposals
    }

    pub fn reward(&self) -> (reward: Option<&EpochReward>)
        ensures
            match reward {
                Some(r) => self@.reward == Some(r@),
                None => self@.reward is None,
            },
    {
        self.reward.as_ref()
    }

    pub fn team_rewards(&self) -> (rewards: &Vec<TeamRewardEntry>)
        ensures
            rewards@ == self@.team_rewards,
    {
        &self.team_rewards
    }

    pub fn is_planned(&self) -> (yes: bool)
        ensures
            yes == (self@.status == EpochStatus::Planned),
    {
        self.status == EpochStatus::Planned
    }

    pub fn is_active(&self) -> (yes: bool)
        ensures
            yes == (self@.status == EpochStatus::Active),
    {
        self.status == EpochStatus::Active
    }

    pub fn is_closed(&self) -> (yes: bool)
        ensures
            yes == (self@.status == EpochStatus::Closed),
    {
        self.status == EpochStatus::Closed
    }


    /// Whether the epoch's period overlaps the given one.
    pub fn overlaps(&self, start_date: Timestamp, end_date: Timestamp) -> (yes: bool)
        ensures
            yes == periods_overlap(start_date, end_date, self@.start_date, self@.end_date),
    {
        start_date < self.end_date && self.start_date < end_date
    }

    /// The reward that the team received, if the epoch holds one for it.
    pub open spec fn spec_team_reward(epoch: EpochView, team: Id) -> Option<TeamReward> {
        match crate::model::position_of(reward_teams(epoch.team_rewards), team) {
            Some(i) => Some(epoch.team_rewards[i].reward),
            None => None,
        }
    }

    /// The reward that the team received, if the epoch holds one for it.
    pub fn team_reward(&self, team_id: Id) -> (reward: Option<TeamReward>)
        ensures
            reward == Self::spec_team_reward(self@, team_id),
    {
        let mut i: usize = 0;
        while i < self.team_rewards.len()
            invariant
                i <= self.team_rewards@.len(),
                forall|j: int| 0 <= j < i ==> reward_teams(self.team_rewards@)[j] != team_id,
            decreases self.team_rewards@.len() - i,
        {
            if self.team_rewards[i].team_id == team_id {
                proof {
                    crate::model::lemma_position_of_first(
                        reward_teams(self.team_rewards@),
                        team_id,
                        i as int,
                    );
                }
                return Some(self.team_rewards[i].reward);
            }
            i += 1;
        }
        proof {
            crate::model::lemma_position_of_absent(reward_teams(self.team_rewards@), team_id);
        }
        None
    }

    /// Adds a proposal to the epoch, at the end of its list, unless it is listed.
    pub fn add_proposal(&mut self, proposal_id: Id)
        ensures
            final(self)@ == (EpochView {
                associated_proposals: if old(self)@.associated_proposals.contains(proposal_id) {
                    old(self)@.associated_proposals
                } else {
                    old(self)@.associated_proposals.push(proposal_id)
                },
                ..old(self)@
            }),
    {
        if !contains_id(&self.associated_proposals, proposal_id) {
            self.associated_proposals.push(proposal_id);
        }
    }

    /// Makes the planned epoch the active one.
    pub fn activate(&mut self) -> (done: Result<(), BudgetError>)
        ensures
            match done {
                Ok(()) => {
                    &&& old(self)@.status == EpochStatus::Planned
                    &&& final(self)@ == (EpochView { status: EpochStatus::Active, ..old(self)@ })
                },
                Err(why) => {
                    &&& old(self)@.status != EpochStatus::Planned
                    &&& why == BudgetError::EpochNotPlanned
                    &&& *final(self) == *old(self)
                },
            },
    {
        if self.status != EpochStatus::Planned {
            return Err(BudgetError::EpochNotPlanned);
        }
        self.status = EpochStatus::Active;
        Ok(())
    }

    /// Sets the pool that the epoch pays out. A closed epoch has paid and
    /// takes no other pool.
    pub fn set_reward(&mut self, token: String, amount: u64) -> (done: Result<(), BudgetError>)
        ensures
            match done {
                Ok(()) => {
                    &&& old(self)@.status != EpochStatus::Closed
                    &&& final(self)@ == (EpochView {
                        reward: Some(EpochRewardView { token: token@, amount }),
                        ..old(self)@
                    })
                },
                Err(why) => {
                    &&& old(self)@.status == EpochStatus::Closed
                    &&& why == BudgetError::EpochAlreadyClosed
                    &&& *final(self) == *old(self)
                },
            },
    {
        if self.status == EpochStatus::Closed {
            return Err(BudgetError::EpochAlreadyClosed);
        }
        self.reward = Some(EpochReward { token, amount });
        Ok(())
    }

    /// Why the period cannot be changed to the given one, if it cannot: the
    /// epoch has left the planned stage, or the period does not start before it ends.
    pub open spec fn dates_rejection(epoch: EpochView, start_date: Timestamp, end_date: Timestamp) -> Option<BudgetError> {
        if epoch.status != EpochStatus::Planned {
            Some(BudgetError::EpochNotPlanned)
        } else if start_date >= end_date {
            Some(BudgetError::InvalidDateRange)
        } else {
            None
        }
    }

    /// Moves the planned epoch to another period.
    pub fn set_dates(&mut self, start_date: Timestamp, end_date: Timestamp) -> (done: Result<
        (),
        BudgetError,
    >)
        ensures
            match done {
                Ok(()) => {
                    &&& Self::dates_rejection(old(self)@, start_date, end_date) is None
                    &&& final(self)@ == (EpochView { start_date, end_date, ..old(self)@ })
                },
                Err(why) => {
                    &&& Self::dates_rejection(old(self)@, start_date, end_date) == Some(why)
                    &&& *final(self) == *old(self)
                },
            },
    {
        if self.status != EpochStatus::Planned {
            return Err(BudgetError::EpochNotPlanned);
        }
        if start_date >= end_date {
            return Err(BudgetError::InvalidDateRange);
        }
        self.start_date = start_date;
        self.end_date = end_date;
        Ok(())
    }

    /// Why the epoch cannot be closed, if it cannot: it was closed before, or
    /// it never became active.
    pub open spec fn close_rejection(epoch: EpochView) -> Option<BudgetError> {
        match epoch.status {
            EpochStatus::Closed => Some(BudgetError::EpochAlreadyClosed),
            EpochStatus::Planned => Some(BudgetError::EpochNotActive),
            EpochStatus::Active => None,
        }
    }

    /// Closes the active epoch and records what each team receives.
    pub fn close(&mut self, team_rewards: Vec<TeamRewardEntry>) -> (done: Result<(), BudgetError>)
        ensures
            match done {
                Ok(()) => {
                    &&& Self::close_rejection(old(self)@) is None
                    &&& final(self)@ == (EpochView {
                        status: EpochStatus::Closed,
                        team_rewards: team_rewards@,
                        ..old(self)@
                    })
                },
                Err(why) => {
                    &&& Self::close_rejection(old(self)@) == Some(why)
                    &&& *final(self) == *old(self)
                },
            },
    {
        match self.status {
            EpochStatus::Closed => Err(BudgetError::EpochAlreadyClosed),
            EpochStatus::Planned => Err(BudgetError::EpochNotActive),
            EpochStatus::Active => {
                self.status = EpochStatus::Closed;
                self.team_rewards = team_rewards;
                Ok(())
            },
        }
    }
}

/// The teams of the rewards, in order.
pub open spec fn reward_teams(rewards: Seq<TeamRewardEntry>) -> Seq<Id> {
    Seq::new(rewards.len(), |i: int| rewards[i].team_id)
}

} // verus!
