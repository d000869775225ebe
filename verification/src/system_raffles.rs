//! The commands on raffles: setting one up, drawing it, importing one.

use crate::error::BudgetError;
use crate::model::find_position;
use crate::model::keys;
use crate::model::position_of;
use crate::model::views;
use crate::platform::fresh_id;
use crate::platform::Id;
use crate::raffle::raffle_outcome;
use crate::raffle::scored;
use crate::raffle::Raffle;
use crate::raffle::RaffleConfig;
use crate::raffle::RaffleConfigView;
use crate::raffle::RaffleResult;
use crate::raffle::RaffleResultView;
use crate::raffle::RaffleTicket;
use crate::raffle::RaffleView;
use crate::system::proposal_named;
use crate::system::raffle_ids;
use crate::system::team_named;
use crate::system::BudgetSystem;
use crate::system::SystemView;
use vstd::prelude::*;
use vstd::string::*;

verus! {

/// The ids of the teams that the names name, in the order of the names; a
/// name that names no team is passed over.
pub open spec fn teams_named(system: SystemView, names: Seq<Seq<char>>) -> Seq<Id>
    decreases names.len(),
{
    if names.len() == 0 {
        Seq::empty()
    } else {
        let before = teams_named(system, names.drop_last());
        match team_named(system, names.last()) {
            Some(id) => before.push(id),
            None => before,
        }
    }
}

/// The ids of the teams that an optional list of names names.
pub open spec fn optional_teams_named(system: SystemView, names: Option<Seq<Seq<char>>>) -> Option<
    Seq<Id>,
> {
    match names {
        Some(list) => Some(teams_named(system, list)),
        None => None,
    }
}

/// The view of an optional list of names.
pub open spec fn optional_names(names: Option<Vec<String>>) -> Option<Seq<Seq<char>>> {
    match names {
        Some(list) => Some(views(list@)),
        None => None,
    }
}

/// The ids, or none where there is no list.
pub open spec fn ids_or_none(ids: Option<Seq<Id>>) -> Seq<Id> {
    match ids {
        Some(list) => list,
        None => Seq::empty(),
    }
}

/// The state with the raffle added, or the refusal of an id that is taken.
pub open spec fn raffle_stored(system: SystemView, raffle: RaffleView) -> Result<
    SystemView,
    BudgetError,
> {
    if position_of(raffle_ids(system.raffles), raffle.id) is Some {
        Err(BudgetError::DuplicateId)
    } else {
        Ok(SystemView { raffles: system.raffles.push(raffle), ..system })
    }
}

/// The raffle after it was drawn: its tickets scored under its randomness,
/// and the outcome that the scores give.
pub open spec fn conducted(raffle: RaffleView) -> RaffleView {
    let tickets = scored(raffle.tickets, raffle.config.block_randomness);
    RaffleView {
        tickets,
        result: Some(
            raffle_outcome(
                raffle.team_snapshots,
                tickets,
                raffle.config.max_earner_seats as nat,
                raffle.config.total_counted_seats as nat,
            ),
        ),
        ..raffle
    }
}

/// The raffle that is set up for the first proposal of this title with the
/// default seat counts, or why none is set up.
pub open spec fn raffle_prepared(
    system: SystemView,
    id: Id,
    title: Seq<char>,
    excluded: Option<Seq<Seq<char>>>,
) -> Result<RaffleView, BudgetError> {
    match proposal_named(system, title) {
        None => Err(BudgetError::ProposalNotFound),
        Some(proposal_id) => match system.current_epoch {
            None => Err(BudgetError::NoActiveEpoch),
            Some(epoch_id) => {
                let config = RaffleConfigView {
                    proposal_id,
                    epoch_id,
                    total_counted_seats: system.config.default_total_counted_seats,
                    max_earner_seats: system.config.default_max_earner_seats,
                    initiation_block: 0,
                    randomness_block: 0,
                    block_randomness: Seq::empty(),
                    excluded_teams: ids_or_none(optional_teams_named(system, excluded)),
                    custom_team_order: None,
                    is_historical: false,
                };
                match RaffleConfig::spec_rejection(config) {
                    Some(why) => Err(why),
                    None => Ok(Raffle::spec_new(id, config, system.teams)),
                }
            },
        },
    }
}

/// The raffle that is entered with its known outcome, or why none is entered.
pub open spec fn raffle_predefined(
    system: SystemView,
    id: Id,
    title: Seq<char>,
    counted: Seq<Seq<char>>,
    uncounted: Seq<Seq<char>>,
    total_counted_seats: usize,
    max_earner_seats: usize,
) -> Result<RaffleView, BudgetError> {
    match proposal_named(system, title) {
        None => Err(BudgetError::ProposalNotFound),
        Some(proposal_id) => match system.current_epoch {
            None => Err(BudgetError::NoActiveEpoch),
            Some(epoch_id) => {
                let counted_ids = teams_named(system, counted);
                let uncounted_ids = teams_named(system, uncounted);
                if counted_ids.len() != total_counted_seats {
                    Err(
                        BudgetError::CountedSeatsMismatch {
                            expected: total_counted_seats,
                            actual: counted_ids.len() as usize,
                        },
                    )
                } else if max_earner_seats > total_counted_seats {
                    Err(
                        BudgetError::EarnerSeatsExceedTotal {
                            max_earner_seats,
                            total_counted_seats,
                        },
                    )
                } else {
                    let config = RaffleConfigView {
                        proposal_id,
                        epoch_id,
                        total_counted_seats,
                        max_earner_seats,
                        initiation_block: 0,
                        randomness_block: 0,
                        block_randomness: "N/A"@,
                        excluded_teams: Seq::empty(),
                        custom_team_order: Some(counted_ids + uncounted_ids),
                        is_historical: true,
                    };
                    Ok(
                        RaffleView {
                            result: Some(
                                RaffleResultView { counted: counted_ids, uncounted: uncounted_ids },
                            ),
                            ..Raffle::spec_new(id, config, system.teams)
                        },
                    )
                }
            },
        },
    }
}

/// The raffle that is drawn after the fact from known randomness, or why none is drawn.
pub open spec fn raffle_replayed(
    system: SystemView,
    id: Id,
    title: Seq<char>,
    initiation_block: u64,
    randomness_block: u64,
    randomness: Seq<char>,
    team_order: Option<Seq<Seq<char>>>,
    excluded: Option<Seq<Seq<char>>>,
    total_counted_seats: Option<usize>,
    max_earner_seats: Option<usize>,
) -> Result<RaffleView, BudgetError> {
    match proposal_named(system, title) {
        None => Err(BudgetError::ProposalNotFound),
        Some(proposal_id) => match system.current_epoch {
            None => Err(BudgetError::NoActiveEpoch),
            Some(epoch_id) => {
                let config = RaffleConfigView {
                    proposal_id,
                    epoch_id,
                    total_counted_seats: match total_counted_seats {
                        Some(seats) => seats,
                        None => system.config.default_total_counted_seats,
                    },
                    max_earner_seats: match max_earner_seats {
                        Some(seats) => seats,
                        None => system.config.default_max_earner_seats,
                    },
                    initiation_block,
                    randomness_block,
                    block_randomness: randomness,
                    excluded_teams: ids_or_none(optional_teams_named(system, excluded)),
                    custom_team_order: optional_teams_named(system, team_order),
                    is_historical: true,
                };
                match RaffleConfig::spec_rejection(config) {
                    Some(why) => Err(why),
                    None => Ok(conducted(Raffle::spec_new(id, config, system.teams))),
                }
            },
        },
    }
}

/// The state after the raffle read its randomness and was drawn, or why it is not drawn.
pub open spec fn raffle_finalized(
    system: SystemView,
    raffle_id: Id,
    initiation_block: u64,
    randomness_block: u64,
    randomness: Seq<char>,
) -> Result<SystemView, BudgetError> {
    match position_of(raffle_ids(system.raffles), raffle_id) {
        None => Err(BudgetError::RaffleNotFound),
        Some(i) => if system.raffles[i].result is Some {
            Err(BudgetError::RaffleAlreadyCompleted)
        } else {
            Ok(
                SystemView {
                    raffles: system.raffles.update(
                        i,
                        conducted(
                            RaffleView {
                                config: RaffleConfigView {
                                    initiation_block,
                                    randomness_block,
                                    block_randomness: randomness,
                                    ..system.raffles[i].config
                                },
                                ..system.raffles[i]
                            },
                        ),
                    ),
                    ..system
                },
            )
        },
    }
}

/// The state after the result of `made` was stored, where a raffle was made.
pub open spec fn then_stored(system: SystemView, made: Result<RaffleView, BudgetError>) -> Result<
    SystemView,
    BudgetError,
> {
    match made {
        Ok(raffle) => raffle_stored(system, raffle),
        Err(why) => Err(why),
    }
}

impl BudgetSystem {
    /// The ids of the teams that the names name; a name that names no team is passed over.
    pub fn resolve_team_names(&self, names: &Vec<String>) -> (ids: Vec<Id>)
        ensures
            ids@ == teams_named(self@, views(names@)),
    {
        let mut ids: Vec<Id> = Vec::new();
        let mut i: usize = 0;
        while i < names.len()
            invariant
                i <= names@.len(),
                ids@ == teams_named(self@, views(names@).take(i as int)),
            decreases names@.len() - i,
        {
            assert(views(names@).take(i + 1).drop_last() =~= views(names@).take(i as int));
            match self.get_team_id_by_name(names[i].as_str()) {
                Some(id) => {
                    ids.push(id);
                },
                None => {},
            }
            i += 1;
        }
        assert(views(names@).take(i as int) =~= views(names@));
        ids
    }

    fn resolve_optional_names(&self, names: &Option<Vec<String>>) -> (ids: Option<Vec<Id>>)
        ensures
            crate::model::optional_ids(ids) == optional_teams_named(self@, optional_names(*names)),
    {
        match names {
            Some(list) => Some(self.resolve_team_names(list)),
            None => None,
        }
    }

    fn store_raffle(&mut self, raffle: Raffle) -> (done: Result<(), BudgetError>)
        ensures
            match raffle_stored(old(self)@, raffle@) {
                Ok(next) => done is Ok && final(self)@ == next,
                Err(why) => done == Err::<(), BudgetError>(why) && *final(self) == *old(self),
            },
    {
        assert(keys(self.state.raffles@) =~= raffle_ids(self@.raffles));
        if find_position(&self.state.raffles, raffle.id).is_some() {
            return Err(BudgetError::DuplicateId);
        }
        self.state.raffles.push(raffle);
        assert(self@.raffles =~= old(self)@.raffles.push(raffle@));
        Ok(())
    }

    /// Sets up a raffle for the first proposal of this title under the given
    /// id, with the default seat counts, and returns its unscored tickets.
    pub fn prepare_raffle_with_id(
        &mut self,
        id: Id,
        proposal_name: &str,
        excluded_teams: Option<Vec<String>>,
    ) -> (done: Result<Vec<RaffleTicket>, BudgetError>)
        ensures
            match then_stored(
                old(self)@,
                raffle_prepared(old(self)@, id, proposal_name@, optional_names(excluded_teams)),
            ) {
                Ok(next) => done matches Ok(tickets) && final(self)@ == next && tickets@
                    == next.raffles.last().tickets,
                Err(why) => done == Err::<Vec<RaffleTicket>, BudgetError>(why) && *final(self)
                    == *old(self),
            },
    {
        let proposal_id = match self.get_proposal_id_by_name(proposal_name) {
            Some(id) => id,
            None => {
                return Err(BudgetError::ProposalNotFound);
            },
        };
        let epoch_id = match self.state.current_epoch {
            Some(id) => id,
            None => {
                return Err(BudgetError::NoActiveEpoch);
            },
        };
        let excluded = self.resolve_optional_names(&excluded_teams);
        let config = RaffleConfig::new(
            proposal_id,
            epoch_id,
            self.config.default_total_counted_seats,
            self.config.default_max_earner_seats,
            Some(0),
            Some(0),
            Some(String::new()),
            Some(
                match excluded {
                    Some(ids) => ids,
                    None => Vec::new(),
                },
            ),
            None,
            false,
        );
        let raffle = match Raffle::new(id, config, &self.state.teams) {
            Ok(raffle) => raffle,
            Err(why) => {
                return Err(why);
            },
        };
        let tickets = raffle.tickets.clone();
        assert(tickets@ =~= raffle.tickets@);
        match self.store_raffle(raffle) {
            Ok(()) => Ok(tickets),
            Err(why) => Err(why),
        }
    }

    /// Sets up a raffle under a fresh id and returns the id and the unscored
    /// tickets. In the event that the fresh id is taken no raffle is set up.
    pub fn prepare_raffle(&mut self, proposal_name: &str, excluded_teams: Option<Vec<String>>) -> (done:
        Result<(Id, Vec<RaffleTicket>), BudgetError>)
        ensures
            match done {
                Ok((id, tickets)) => then_stored(
                    old(self)@,
                    raffle_prepared(old(self)@, id, proposal_name@, optional_names(excluded_teams)),
                ) == Ok::<SystemView, BudgetError>(final(self)@) && tickets@
                    == final(self)@.raffles.last().tickets,
                Err(why) => {
                    &&& *final(self) == *old(self)
                    &&& exists|id: Id|
                        #[trigger] then_stored(
                            old(self)@,
                            raffle_prepared(
                                old(self)@,
                                id,
                                proposal_name@,
                                optional_names(excluded_teams),
                            ),
                        ) == Err::<SystemView, BudgetError>(why)
                },
            },
            raffle_prepared(old(self)@, 0, proposal_name@, optional_names(excluded_teams)) is Err
                ==> done is Err,
    {
        let id = fresh_id();
        match self.prepare_raffle_with_id(id, proposal_name, excluded_teams) {
            Ok(tickets) => Ok((id, tickets)),
            Err(why) => Err(why),
        }
    }

    /// Enters, under the given id, a raffle whose outcome is known. The
    /// counted teams must fill the counted seats exactly.
    pub fn import_predefined_raffle_with_id(
        &mut self,
        id: Id,
        proposal_name: &str,
        counted_teams: Vec<String>,
        uncounted_teams: Vec<String>,
        total_counted_seats: usize,
        max_earner_seats: usize,
    ) -> (done: Result<(), BudgetError>)
        ensures
            match then_stored(
                old(self)@,
                raffle_predefined(
                    old(self)@,
                    id,
                    proposal_name@,
                    views(counted_teams@),
                    views(uncounted_teams@),
                    total_counted_seats,
                    max_earner_seats,
                ),
            ) {
                Ok(next) => done is Ok && final(self)@ == next,
                Err(why) => done == Err::<(), BudgetError>(why) && *final(self) == *old(self),
            },
    {
        let proposal_id = match self.get_proposal_id_by_name(proposal_name) {
            Some(id) => id,
            None => {
                return Err(BudgetError::ProposalNotFound);
            },
        };
        let epoch_id = match self.state.current_epoch {
            Some(id) => id,
            None => {
                return Err(BudgetError::NoActiveEpoch);
            },
        };
        let counted = self.resolve_team_names(&counted_teams);
        let uncounted = self.resolve_team_names(&uncounted_teams);
        if counted.len() != total_counted_seats {
            return Err(
                BudgetError::CountedSeatsMismatch {
                    expected: total_counted_seats,
                    actual: counted.len(),
                },
            );
        }
        if max_earner_seats > total_counted_seats {
            return Err(
                BudgetError::EarnerSeatsExceedTotal { max_earner_seats, total_counted_seats },
            );
        }
        let mut order = counted.clone();
        let mut k: usize = 0;
        assert(order@ =~= counted@);
        while k < uncounted.len()
            invariant
                k <= uncounted@.len(),
                order@ == counted@ + uncounted@.take(k as int),
            decreases uncounted@.len() - k,
        {
            order.push(uncounted[k]);
            assert(order@ =~= counted@ + uncounted@.take(k + 1));
            k += 1;
        }
        assert(uncounted@.take(k as int) =~= uncounted@);
        let config = RaffleConfig::new(
            proposal_id,
            epoch_id,
            total_counted_seats,
            max_earner_seats,
            Some(0),
            Some(0),
            Some("N/A".to_owned()),
            Some(Vec::new()),
            Some(order),
            true,
        );
        let mut raffle = match Raffle::new(id, config, &self.state.teams) {
            Ok(raffle) => raffle,
            Err(why) => {
                return Err(why);
            },
        };
        let taken = raffle.set_result(RaffleResult::new(counted, uncounted));
        assert(taken is Ok);
        self.store_raffle(raffle)
    }

    /// Enters a raffle whose outcome is known under a fresh id and returns the
    /// id. In the event that the fresh id is taken no raffle is entered.
    pub fn import_predefined_raffle(
        &mut self,
        proposal_name: &str,
        counted_teams: Vec<String>,
        uncounted_teams: Vec<String>,
        total_counted_seats: usize,
        max_earner_seats: usize,
    ) -> (done: Result<Id, BudgetError>)
        ensures
            match done {
                Ok(id) => then_stored(
                    old(self)@,
                    raffle_predefined(
                        old(self)@,
                        id,
                        proposal_name@,
                        views(counted_teams@),
                        views(uncounted_teams@),
                        total_counted_seats,
                        max_earner_seats,
                    ),
                ) == Ok::<SystemView, BudgetError>(final(self)@),
                Err(why) => {
                    &&& *final(self) == *old(self)
                    &&& exists|id: Id|
                        #[trigger] then_stored(
                            old(self)@,
                            raffle_predefined(
                                old(self)@,
                                id,
                                proposal_name@,
                                views(counted_teams@),
                                views(uncounted_teams@),
                                total_counted_seats,
                                max_earner_seats,
                            ),
                        ) == Err::<SystemView, BudgetError>(why)
                },
            },
            raffle_predefined(
                old(self)@,
                0,
                proposal_name@,
                views(counted_teams@),
                views(uncounted_teams@),
                total_counted_seats,
                max_earner_seats,
            ) is Err ==> done is Err,
    {
        let id = fresh_id();
        match self.import_predefined_raffle_with_id(
            id,
            proposal_name,
            counted_teams,
            uncounted_teams,
            total_counted_seats,
            max_earner_seats,
        ) {
            Ok(()) => Ok(id),
            Err(why) => Err(why),
        }
    }

    /// Draws, under the given id, a raffle of the past from the randomness
    /// that it had, and returns a copy of it.
    pub fn import_historical_raffle_with_id(
        &mut self,
        id: Id,
        proposal_name: &str,
        initiation_block: u64,
        randomness_block: u64,
        randomness: String,
        team_order: Option<Vec<String>>,
        excluded_teams: Option<Vec<String>>,
        total_counted_seats: Option<usize>,
        max_earner_seats: Option<usize>,
    ) -> (done: Result<Raffle, BudgetError>)
        ensures
            match then_stored(
                old(self)@,
                raffle_replayed(
                    old(self)@,
                    id,
                    proposal_name@,
                    initiation_block,
                    randomness_block,
                    randomness@,
                    optional_names(team_order),
                    optional_names(excluded_teams),
                    total_counted_seats,
                    max_earner_seats,
                ),
            ) {
                Ok(next) => done matches Ok(raffle) && final(self)@ == next && raffle@
                    == next.raffles.last(),
                Err(why) => done == Err::<Raffle, BudgetError>(why) && *final(self) == *old(self),
            },
    {
        let proposal_id = match self.get_proposal_id_by_name(proposal_name) {
            Some(id) => id,
            None => {
                return Err(BudgetError::ProposalNotFound);
            },
        };
        let epoch_id = match self.state.current_epoch {
            Some(id) => id,
            None => {
                return Err(BudgetError::NoActiveEpoch);
            },
        };
        let order = self.resolve_optional_names(&team_order);
        let excluded = self.resolve_optional_names(&excluded_teams);
        let config = RaffleConfig::new(
            proposal_id,
            epoch_id,
            match total_counted_seats {
                Some(seats) => seats,
                None => self.config.default_total_counted_seats,
            },
            match max_earner_seats {
                Some(seats) => seats,
                None => self.config.default_max_earner_seats,
            },
            Some(initiation_block),
            Some(randomness_block),
            Some(randomness),
            Some(
                match excluded {
                    Some(ids) => ids,
                    None => Vec::new(),
                },
            ),
            order,
            true,
        );
        let mut raffle = match Raffle::new(id, config, &self.state.teams) {
            Ok(raffle) => raffle,
            Err(why) => {
                return Err(why);
            },
        };
        let scored = raffle.generate_ticket_scores();
        let drawn = raffle.select_deciding_teams();
        let copy = raffle.clone();
        match self.store_raffle(raffle) {
            Ok(()) => Ok(copy),
            Err(why) => Err(why),
        }
    }

    /// Draws a raffle of the past under a fresh id and returns the id and a
    /// copy of the raffle. In the event that the fresh id is taken no raffle is drawn.
    pub fn import_historical_raffle(
        &mut self,
        proposal_name: &str,
        initiation_block: u64,
        randomness_block: u64,
        randomness: String,
        team_order: Option<Vec<String>>,
        excluded_teams: Option<Vec<String>>,
        total_counted_seats: Option<usize>,
        max_earner_seats: Option<usize>,
    ) -> (done: Result<(Id, Raffle), BudgetError>)
        ensures
            match done {
                Ok((id, raffle)) => then_stored(
                    old(self)@,
                    raffle_replayed(
                        old(self)@,
                        id,
                        proposal_name@,
                        initiation_block,
                        randomness_block,
                        randomness@,
                        optional_names(team_order),
                        optional_names(excluded_teams),
                        total_counted_seats,
                        max_earner_seats,
                    ),
                ) == Ok::<SystemView, BudgetError>(final(self)@) && raffle@
                    == final(self)@.raffles.last(),
                Err(why) => {
                    &&& *final(self) == *old(self)
                    &&& exists|id: Id|
                        #[trigger] then_stored(
                            old(self)@,
                            raffle_replayed(
                                old(self)@,
                                id,
                                proposal_name@,
                                initiation_block,
                                randomness_block,
                                randomness@,
                                optional_names(team_order),
                                optional_names(excluded_teams),
                                total_counted_seats,
                                max_earner_seats,
                            ),
                        ) == Err::<SystemView, BudgetError>(why)
                },
            },
            raffle_replayed(
                old(self)@,
                0,
                proposal_name@,
                initiation_block,
                randomness_block,
                randomness@,
                optional_names(team_order),
                optional_names(excluded_teams),
                total_counted_seats,
                max_earner_seats,
            ) is Err ==> done is Err,
    {
        let id = fresh_id();
        match self.import_historical_raffle_with_id(
            id,
            proposal_name,
            initiation_block,
            randomness_block,
            randomness,
            team_order,
            excluded_teams,
            total_counted_seats,
            max_earner_seats,
        ) {
            Ok(raffle) => Ok((id, raffle)),
            Err(why) => Err(why),
        }
    }

    /// Records the randomness of a raffle that was set up, scores its tickets
    /// and draws its outcome. Returns a copy of the drawn raffle.
    pub fn finalize_raffle(
        &mut self,
        raffle_id: Id,
        initiation_block: u64,
        randomness_block: u64,
        randomness: String,
    ) -> (done: Result<Raffle, BudgetError>)
        ensures
            match raffle_finalized(
                old(self)@,
                raffle_id,
                initiation_block,
                randomness_block,
                randomness@,
            ) {
                Ok(next) => {
                    &&& final(self)@ == next
                    &&& done matches Ok(raffle) && Some(raffle@) == crate::system::raffle_with_id(
                        next,
                        raffle_id,
                    )
                },
                Err(why) => done == Err::<Raffle, BudgetError>(why) && *final(self) == *old(self),
            },
    {
        assert(keys(self.state.raffles@) =~= raffle_ids(self@.raffles));
        match find_position(&self.state.raffles, raffle_id) {
            None => Err(BudgetError::RaffleNotFound),
            Some(i) => {
                if self.state.raffles[i].is_completed() {
                    return Err(BudgetError::RaffleAlreadyCompleted);
                }
                let mut raffle = self.state.raffles[i].clone();
                raffle.set_randomness(initiation_block, randomness_block, randomness);
                let scored = raffle.generate_ticket_scores();
                let drawn = raffle.select_deciding_teams();
                let copy = raffle.clone();
                assert(scored is Ok && drawn is Ok);
                assert(copy@ == conducted(
                    RaffleView {
                        config: RaffleConfigView {
                            initiation_block,
                            randomness_block,
                            block_randomness: randomness@,
                            ..old(self)@.raffles[i as int].config
                        },
                        ..old(self)@.raffles[i as int]
                    },
                ));
                self.state.raffles.set(i, raffle);
                assert(self@.raffles =~= old(self)@.raffles.update(i as int, copy@));
                assert(raffle_ids(self@.raffles) =~= raffle_ids(old(self)@.raffles));
                Ok(copy)
            },
        }
    }
}

} // verus!
