//! The commands on epochs.

use crate::epoch::periods_overlap;
use crate::epoch::Epoch;
use crate::epoch::EpochRewardView;
use crate::epoch::EpochStatus;
use crate::epoch::EpochView;
use crate::error::BudgetError;
use crate::model::find_position;
use crate::model::keys;
use crate::model::position_of;
use crate::platform::fresh_id;
use crate::platform::Id;
use crate::platform::Timestamp;
use crate::system::epoch_ids;
use crate::system::BudgetSystem;
use crate::system::SystemView;
use vstd::prelude::*;
use vstd::string::*;

verus! {

/// Whether the period overlaps that of an epoch other than `except`.
pub open spec fn overlaps_any(
    epochs: Seq<EpochView>,
    start_date: Timestamp,
    end_date: Timestamp,
    except: Option<Id>,
) -> bool {
    exists|i: int|
        0 <= i < epochs.len() && except != Some((#[trigger] epochs[i]).id) && periods_overlap(
            start_date,
            end_date,
            epochs[i].start_date,
            epochs[i].end_date,
        )
}

/// The state after an epoch was planned under the given id, or why it is not planned.
pub open spec fn epoch_created(
    system: SystemView,
    id: Id,
    name: Seq<char>,
    start_date: Timestamp,
    end_date: Timestamp,
) -> Result<SystemView, BudgetError> {
    if start_date >= end_date {
        Err(BudgetError::InvalidDateRange)
    } else if overlaps_any(system.epochs, start_date, end_date, None) {
        Err(BudgetError::OverlappingEpoch)
    } else if position_of(epoch_ids(system.epochs), id) is Some {
        Err(BudgetError::DuplicateId)
    } else {
        Ok(
            SystemView {
                epochs: system.epochs.push(Epoch::spec_new(id, name, start_date, end_date)),
                ..system
            },
        )
    }
}

/// The state after the epoch became the active one, or why it does not.
pub open spec fn epoch_activated(system: SystemView, id: Id) -> Result<SystemView, BudgetError> {
    if system.current_epoch is Some {
        Err(BudgetError::AnotherEpochActive)
    } else {
        match position_of(epoch_ids(system.epochs), id) {
            None => Err(BudgetError::EpochNotFound),
            Some(i) => if system.epochs[i].status != EpochStatus::Planned {
                Err(BudgetError::EpochNotPlanned)
            } else {
                Ok(
                    SystemView {
                        epochs: system.epochs.update(
                            i,
                            EpochView { status: EpochStatus::Active, ..system.epochs[i] },
                        ),
                        current_epoch: Some(id),
                        ..system
                    },
                )
            },
        }
    }
}

/// The place of the current epoch, or why there is none.
pub open spec fn current_epoch_place(system: SystemView) -> Result<int, BudgetError> {
    match system.current_epoch {
        None => Err(BudgetError::NoActiveEpoch),
        Some(id) => match position_of(epoch_ids(system.epochs), id) {
            None => Err(BudgetError::EpochNotFound),
            Some(i) => Ok(i),
        },
    }
}

/// The state after the current epoch got its reward pool, or why it gets none.
pub open spec fn epoch_reward_set(system: SystemView, token: Seq<char>, amount: u64) -> Result<
    SystemView,
    BudgetError,
> {
    match current_epoch_place(system) {
        Err(why) => Err(why),
        Ok(i) => if system.epochs[i].status == EpochStatus::Closed {
            Err(BudgetError::EpochAlreadyClosed)
        } else {
            Ok(
                SystemView {
                    epochs: system.epochs.update(
                        i,
                        EpochView {
                            reward: Some(EpochRewardView { token, amount }),
                            ..system.epochs[i]
                        },
                    ),
                    ..system
                },
            )
        },
    }
}

/// The state after the planned epoch moved to another period, or why it does not move.
pub open spec fn epoch_rescheduled(
    system: SystemView,
    id: Id,
    start_date: Timestamp,
    end_date: Timestamp,
) -> Result<SystemView, BudgetError> {
    if overlaps_any(system.epochs, start_date, end_date, Some(id)) {
        Err(BudgetError::OverlappingEpoch)
    } else {
        match position_of(epoch_ids(system.epochs), id) {
            None => Err(BudgetError::EpochNotFound),
            Some(i) => match Epoch::dates_rejection(system.epochs[i], start_date, end_date) {
                Some(why) => Err(why),
                None => Ok(
                    SystemView {
                        epochs: system.epochs.update(
                            i,
                            EpochView { start_date, end_date, ..system.epochs[i] },
                        ),
                        ..system
                    },
                ),
            },
        }
    }
}

impl BudgetSystem {
    /// Whether the period overlaps that of an epoch other than `except`.
    pub fn overlaps_existing(
        &self,
        start_date: Timestamp,
        end_date: Timestamp,
        except: Option<Id>,
    ) -> (yes: bool)
        ensures
            yes == overlaps_any(self@.epochs, start_date, end_date, except),
    {
        let mut i: usize = 0;
        while i < self.state.epochs.len()
            invariant
                i <= self.state.epochs@.len(),
                forall|j: int|
                    0 <= j < i ==> !(except != Some((#[trigger] self@.epochs[j]).id)
                        && periods_overlap(
                        start_date,
                        end_date,
                        self@.epochs[j].start_date,
                        self@.epochs[j].end_date,
                    )),
            decreases self.state.epochs@.len() - i,
        {
            let epoch = &self.state.epochs[i];
            let skipped = match except {
                Some(id) => id == epoch.id,
                None => false,
            };
            if !skipped && epoch.overlaps(start_date, end_date) {
                assert(self@.epochs[i as int] == epoch@);
                return true;
            }
            i += 1;
        }
        false
    }

    /// Plans an epoch under the given id.
    pub fn create_epoch_with_id(
        &mut self,
        id: Id,
        name: &str,
        start_date: Timestamp,
        end_date: Timestamp,
    ) -> (done: Result<(), BudgetError>)
        ensures
            match epoch_created(old(self)@, id, name@, start_date, end_date) {
                Ok(next) => done is Ok && final(self)@ == next,
                Err(why) => done == Err::<(), BudgetError>(why) && *final(self) == *old(self),
            },
    {
        let epoch = match Epoch::new(id, name.to_owned(), start_date, end_date) {
            Ok(epoch) => epoch,
            Err(why) => {
                return Err(why);
            },
        };
        if self.overlaps_existing(start_date, end_date, None) {
            return Err(BudgetError::OverlappingEpoch);
        }
        assert(keys(self.state.epochs@) =~= epoch_ids(self@.epochs));
        if find_position(&self.state.epochs, id).is_some() {
            return Err(BudgetError::DuplicateId);
        }
        self.state.epochs.push(epoch);
        assert(self@.epochs =~= old(self)@.epochs.push(epoch@));
        Ok(())
    }

    /// Plans an epoch under a fresh id and returns the id. In the event that
    /// the fresh id is taken the epoch is not planned.
    pub fn create_epoch(&mut self, name: &str, start_date: Timestamp, end_date: Timestamp) -> (done:
        Result<Id, BudgetError>)
        ensures
            match done {
                Ok(id) => epoch_created(old(self)@, id, name@, start_date, end_date) == Ok::<
                    SystemView,
                    BudgetError,
                >(final(self)@),
                Err(why) => {
                    &&& *final(self) == *old(self)
                    &&& exists|id: Id|
                        #[trigger] epoch_created(old(self)@, id, name@, start_date, end_date)
                            == Err::<SystemView, BudgetError>(why)
                },
            },
            start_date >= end_date || overlaps_any(old(self)@.epochs, start_date, end_date, None)
                ==> done is Err,
    {
        let id = fresh_id();
        match self.create_epoch_with_id(id, name, start_date, end_date) {
            Ok(()) => Ok(id),
            Err(why) => Err(why),
        }
    }

    /// Makes the planned epoch the active one. Only one epoch is active at a time.
    pub fn activate_epoch(&mut self, epoch_id: Id) -> (done: Result<(), BudgetError>)
        ensures
            match epoch_activated(old(self)@, epoch_id) {
                Ok(next) => done is Ok && final(self)@ == next,
                Err(why) => done == Err::<(), BudgetError>(why) && *final(self) == *old(self),
            },
    {
        if self.state.current_epoch.is_some() {
            return Err(BudgetError::AnotherEpochActive);
        }
        assert(keys(self.state.epochs@) =~= epoch_ids(self@.epochs));
        match find_position(&self.state.epochs, epoch_id) {
            None => Err(BudgetError::EpochNotFound),
            Some(i) => {
                if !self.state.epochs[i].is_planned() {
                    return Err(BudgetError::EpochNotPlanned);
                }
                self.state.epochs[i].status = EpochStatus::Active;
                self.state.current_epoch = Some(epoch_id);
                assert(self@.epochs =~= old(self)@.epochs.update(
                    i as int,
                    EpochView { status: EpochStatus::Active, ..old(self)@.epochs[i as int] },
                ));
                Ok(())
            },
        }
    }

    /// The place of the current epoch among the epochs.
    pub fn current_epoch_index(&self) -> (place: Result<usize, BudgetError>)
        ensures
            match place {
                Ok(i) => current_epoch_place(self@) == Ok::<int, BudgetError>(i as int) && i
                    < self.state.epochs@.len(),
                Err(why) => current_epoch_place(self@) == Err::<int, BudgetError>(why),
            },
    {
        match self.state.current_epoch {
            None => Err(BudgetError::NoActiveEpoch),
            Some(id) => {
                assert(keys(self.state.epochs@) =~= epoch_ids(self@.epochs));
                match find_position(&self.state.epochs, id) {
                    None => Err(BudgetError::EpochNotFound),
                    Some(i) => Ok(i),
                }
            },
        }
    }

    /// Sets the reward pool of the current epoch.
    pub fn set_epoch_reward(&mut self, token: &str, amount: u64) -> (done: Result<(), BudgetError>)
        ensures
            match epoch_reward_set(old(self)@, token@, amount) {
                Ok(next) => done is Ok && final(self)@ == next,
                Err(why) => done == Err::<(), BudgetError>(why) && *final(self) == *old(self),
            },
    {
        match self.current_epoch_index() {
            Err(why) => Err(why),
            Ok(i) => {
                if self.state.epochs[i].is_closed() {
                    return Err(BudgetError::EpochAlreadyClosed);
                }
                let reward = crate::epoch::EpochReward::new(token.to_owned(), amount);
                self.state.epochs[i].reward = Some(reward);
                assert(self@.epochs =~= old(self)@.epochs.update(
                    i as int,
                    EpochView {
                        reward: Some(EpochRewardView { token: token@, amount }),
                        ..old(self)@.epochs[i as int]
                    },
                ));
                Ok(())
            },
        }
    }

    /// The current epoch, if there is one.
    pub fn get_current_epoch(&self) -> (epoch: Option<&Epoch>)
        ensures
            match epoch {
                Some(e) => current_epoch_place(self@) matches Ok(i) && e@ == self@.epochs[i],
                None => current_epoch_place(self@) is Err,
            },
    {
        match self.current_epoch_index() {
            Ok(i) => Some(&self.state.epochs[i]),
            Err(_) => None,
        }
    }

    /// Moves the planned epoch to another period that overlaps no other epoch.
    pub fn update_epoch_dates(&mut self, epoch_id: Id, new_start: Timestamp, new_end: Timestamp) -> (done:
        Result<(), BudgetError>)
        ensures
            match epoch_rescheduled(old(self)@, epoch_id, new_start, new_end) {
                Ok(next) => done is Ok && final(self)@ == next,
                Err(why) => done == Err::<(), BudgetError>(why) && *final(self) == *old(self),
            },
    {
        if self.overlaps_existing(new_start, new_end, Some(epoch_id)) {
            return Err(BudgetError::OverlappingEpoch);
        }
        assert(keys(self.state.epochs@) =~= epoch_ids(self@.epochs));
        match find_position(&self.state.epochs, epoch_id) {
            None => Err(BudgetError::EpochNotFound),
            Some(i) => {
                if !self.state.epochs[i].is_planned() {
                    return Err(BudgetError::EpochNotPlanned);
                }
                if new_start >= new_end {
                    return Err(BudgetError::InvalidDateRange);
                }
                self.state.epochs[i].start_date = new_start;
                self.state.epochs[i].end_date = new_end;
                assert(self@.epochs =~= old(self)@.epochs.update(
                    i as int,
                    EpochView {
                        start_date: new_start,
                        end_date: new_end,
                        ..old(self)@.epochs[i as int]
                    },
                ));
                Ok(())
            },
        }
    }
}

} // verus!
