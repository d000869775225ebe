//! Ballots, tallies and the resolution of a vote.

use crate::error::BudgetError;
use crate::model::lemma_position_of;
use crate::model::position_of;
use crate::model::Keyed;
use crate::platform::Id;
use crate::platform::Timestamp;
use crate::raffle::RaffleResult;
use crate::raffle::RaffleResultView;
use crate::text::contains_id;
use vstd::prelude::*;

verus! {

/// What a team can answer.
#[derive(Clone, Copy, Debug, PartialEq, Eq, Structural)]
pub enum VoteChoice {
    Yes,
    No,
    /// Takes part without siding; counts for neither side.
    Abstain,
}

/// The share of yes among yes and no that a formal vote needs to pass: the
/// fraction `numerator / denominator`, between zero and one.
#[derive(Clone, Copy, Debug, PartialEq, Eq, Structural)]
pub struct Threshold {
    pub numerator: u32,
    pub denominator: u32,
}

/// How many teams said yes and how many said no.
#[derive(Clone, Copy, Debug, PartialEq, Eq, Structural)]
pub struct VoteCount {
    pub yes: u64,
    pub no: u64,
}

impl Threshold {
    /// A fraction between zero and one.
    pub open spec fn valid(self) -> bool {
        self.denominator > 0 && self.numerator <= self.denominator
    }

    /// The threshold `numerator / denominator`; refused unless it lies between zero and one.
    pub fn new(numerator: u32, denominator: u32) -> (made: Result<Threshold, BudgetError>)
        ensures
            match made {
                Ok(threshold) => threshold == (Threshold { numerator, denominator })
                    && threshold.valid(),
                Err(why) => why == BudgetError::InvalidThreshold && !(Threshold {
                    numerator,
                    denominator,
                }).valid(),
            },
    {
        if denominator == 0 || numerator > denominator {
            Err(BudgetError::InvalidThreshold)
        } else {
            Ok(Threshold { numerator, denominator })
        }
    }

    /// Whether the share of yes among yes and no reaches the threshold:
    /// `yes / (yes + no) >= numerator / denominator`, compared without
    /// division. Without a yes or a no nothing passes.
    pub open spec fn spec_is_met(self, count: VoteCount) -> bool {
        count.yes + count.no > 0 && count.yes * self.denominator >= self.numerator * (count.yes
            + count.no)
    }

    /// Whether the share of yes among yes and no reaches the threshold.
    #[verifier::when_used_as_spec(spec_is_met)]
    pub fn is_met(self, count: VoteCount) -> (met: bool)
        ensures
            met == self.spec_is_met(count),
    {
        let yes = count.yes as u128;
        let cast = count.yes as u128 + count.no as u128;
        let need = self.numerator as u128;
        let of = self.denominator as u128;
        assert(yes * of <= 0xffff_ffff_ffff_ffff * 0xffff_ffff) by (nonlinear_arith)
            requires
                yes <= 0xffff_ffff_ffff_ffff,
                of <= 0xffff_ffff,
        ;
        assert(need * cast <= 0xffff_ffff * 0x1_ffff_ffff_ffff_fffe) by (nonlinear_arith)
            requires
                cast <= 0x1_ffff_ffff_ffff_fffe,
                need <= 0xffff_ffff,
        ;
        cast > 0 && yes * of >= need * cast
    }
}

impl VoteCount {
    /// No yes and no no.
    pub fn new() -> (count: VoteCount)
        ensures
            count == (VoteCount { yes: 0, no: 0 }),
    {
        VoteCount { yes: 0, no: 0 }
    }

    pub fn yes(&self) -> (yes: u64)
        ensures
            yes == self.yes,
    {
        self.yes
    }

    pub fn no(&self) -> (no: u64)
        ensures
            no == self.no,
    {
        self.no
    }
}

/// The rules of a vote.
#[derive(Clone, Copy, Debug, PartialEq, Eq, Structural)]
pub enum VoteType {
    /// Binding: only the counted seats of the raffle decide.
    Formal {
        raffle_id: Id,
        total_eligible_seats: usize,
        threshold: Threshold,
        /// Points for a team that voted from a counted seat.
        counted_points: u32,
        /// Points for a team that voted from an uncounted seat.
        uncounted_points: u32,
    },
    /// Advisory: every team may answer, nothing passes or fails.
    Informal,
}

#[derive(Clone, Copy, Debug, PartialEq, Eq, Structural)]
pub enum VoteStatus {
    Open,
    Closed,
}

/// The answer of one team.
#[derive(Clone, Copy, Debug, PartialEq, Eq, Structural)]
pub struct Ballot {
    pub team_id: Id,
    pub choice: VoteChoice,
}

/// What a closed vote came to.
#[derive(Clone, Copy, Debug, PartialEq, Eq, Structural)]
pub enum VoteResult {
    Formal { counted: VoteCount, uncounted: VoteCount, passed: bool },
    Informal { count: VoteCount },
}

/// Who took part, with their latest answers, in the order of their first answer.
#[derive(Debug)]
pub enum VoteParticipation {
    Formal { counted: Vec<Ballot>, uncounted: Vec<Ballot> },
    Informal(Vec<Ballot>),
}

/// The mathematical value of a [`VoteParticipation`].
pub enum VoteParticipationView {
    Formal { counted: Seq<Ballot>, uncounted: Seq<Ballot> },
    Informal(Seq<Ballot>),
}

impl View for VoteParticipation {
    type V = VoteParticipationView;

    open spec fn view(&self) -> VoteParticipationView {
        match self {
            VoteParticipation::Formal { counted, uncounted } => VoteParticipationView::Formal {
                counted: counted@,
                uncounted: uncounted@,
            },
            VoteParticipation::Informal(ballots) => VoteParticipationView::Informal(ballots@),
        }
    }
}

impl Clone for VoteParticipation {
    fn clone(&self) -> (copy: Self)
        ensures
            copy@ == self@,
    {
        match self {
            VoteParticipation::Formal { counted, uncounted } => {
                let c = counted.clone();
                let u = uncounted.clone();
                assert(c@ =~= counted@);
                assert(u@ =~= uncounted@);
                VoteParticipation::Formal { counted: c, uncounted: u }
            },
            VoteParticipation::Informal(ballots) => {
                let b = ballots.clone();
                assert(b@ =~= ballots@);
                VoteParticipation::Informal(b)
            },
        }
    }
}

/// The teams of the ballots, in order.
pub open spec fn ballot_teams(ballots: Seq<Ballot>) -> Seq<Id> {
    Seq::new(ballots.len(), |i: int| ballots[i].team_id)
}

/// Whether the team has a ballot among these.
pub open spec fn has_ballot(ballots: Seq<Ballot>, team: Id) -> bool {
    position_of(ballot_teams(ballots), team) is Some
}

/// The ballots after the team has answered: its earlier ballot is replaced
/// where it stands, a first ballot is added at the end.
pub open spec fn record(ballots: Seq<Ballot>, team: Id, choice: VoteChoice) -> Seq<Ballot> {
    match position_of(ballot_teams(ballots), team) {
        Some(i) => ballots.update(i, Ballot { team_id: team, choice }),
        None => ballots.push(Ballot { team_id: team, choice }),
    }
}

/// How many of the ballots carry this choice.
pub open spec fn count_choice(ballots: Seq<Ballot>, choice: VoteChoice) -> nat
    decreases ballots.len(),
{
    if ballots.len() == 0 {
        0
    } else {
        count_choice(ballots.drop_last(), choice) + if ballots.last().choice == choice {
            1nat
        } else {
            0nat
        }
    }
}

/// The yes and the no among the ballots.
pub open spec fn tally(ballots: Seq<Ballot>) -> VoteCount {
    VoteCount {
        yes: count_choice(ballots, VoteChoice::Yes) as u64,
        no: count_choice(ballots, VoteChoice::No) as u64,
    }
}

fn find_ballot(ballots: &Vec<Ballot>, team: Id) -> (place: Option<usize>)
    ensures
        match place {
            Some(i) => i < ballots@.len() && position_of(ballot_teams(ballots@), team) == Some(
                i as int,
            ),
            None => position_of(ballot_teams(ballots@), team) is None,
        },
{
    let mut i: usize = 0;
    while i < ballots.len()
        invariant
            i <= ballots@.len(),
            forall|j: int| 0 <= j < i ==> ballot_teams(ballots@)[j] != team,
        decreases ballots@.len() - i,
    {
        if ballots[i].team_id == team {
            proof {
                crate::model::lemma_position_of_first(ballot_teams(ballots@), team, i as int);
            }
            return Some(i);
        }
        i += 1;
    }
    proof {
        crate::model::lemma_position_of_absent(ballot_teams(ballots@), team);
    }
    None
}

/// Records the team's answer among the ballots.
pub fn record_ballot(ballots: &mut Vec<Ballot>, team: Id, choice: VoteChoice)
    ensures
        final(ballots)@ == record(old(ballots)@, team, choice),
{
    match find_ballot(ballots, team) {
        Some(i) => {
            ballots.set(i, Ballot { team_id: team, choice });
        },
        None => {
            ballots.push(Ballot { team_id: team, choice });
        },
    }
}

/// The yes and the no among the ballots.
pub fn count_ballots(ballots: &Vec<Ballot>) -> (count: VoteCount)
    ensures
        count == tally(ballots@),
        count.yes + count.no <= ballots@.len(),
{
    let mut yes: u64 = 0;
    let mut no: u64 = 0;
    let mut i: usize = 0;
    while i < ballots.len()
        invariant
            i <= ballots@.len(),
            yes == count_choice(ballots@.take(i as int), VoteChoice::Yes),
            no == count_choice(ballots@.take(i as int), VoteChoice::No),
            yes + no <= i,
        decreases ballots@.len() - i,
    {
        assert(ballots@.take(i + 1).drop_last() =~= ballots@.take(i as int));
        match ballots[i].choice {
            VoteChoice::Yes => {
                yes = yes + 1;
            },
            VoteChoice::No => {
                no = no + 1;
            },
            VoteChoice::Abstain => {},
        }
        i += 1;
    }
    assert(ballots@.take(i as int) =~= ballots@);
    VoteCount { yes, no }
}

/// A vote on a proposal.
#[derive(Debug)]
pub struct Vote {
    pub id: Id,
    pub proposal_id: Id,
    pub epoch_id: Id,
    pub vote_type: VoteType,
    pub status: VoteStatus,
    pub participation: VoteParticipation,
    /// Set when the vote closes.
    pub result: Option<VoteResult>,
    pub opened_at: Timestamp,
    pub closed_at: Option<Timestamp>,
    /// Entered after the fact, with participation but without real ballots.
    pub is_historical: bool,
}

/// The mathematical value of a [`Vote`].
pub struct VoteView {
    pub id: Id,
    pub proposal_id: Id,
    pub epoch_id: Id,
    pub vote_type: VoteType,
    pub status: VoteStatus,
    pub participation: VoteParticipationView,
    pub result: Option<VoteResult>,
    pub opened_at: Timestamp,
    pub closed_at: Option<Timestamp>,
    pub is_historical: bool,
}

impl View for Vote {
    type V = VoteView;

    open spec fn view(&self) -> VoteView {
        VoteView {
            id: self.id,
            proposal_id: self.proposal_id,
            epoch_id: self.epoch_id,
            vote_type: self.vote_type,
            status: self.status,
            participation: self.participation@,
            result: self.result,
            opened_at: self.opened_at,
            closed_at: self.closed_at,
            is_historical: self.is_historical,
        }
    }
}

impl Keyed for Vote {
    open spec fn spec_key(&self) -> Id {
        self.id
    }

    fn key(&self) -> (id: Id) {
        self.id
    }
}

impl Clone for Vote {
    fn clone(&self) -> (copy: Self)
        ensures
            copy@ == self@,
    {
        Vote {
            id: self.id,
            proposal_id: self.proposal_id,
            epoch_id: self.epoch_id,
            vote_type: self.vote_type,
            status: self.status,
            participation: self.participation.clone(),
            result: self.result,
            opened_at: self.opened_at,
            closed_at: self.closed_at,
            is_historical: self.is_historical,
        }
    }
}

/// The seat that the raffle gave the team: `Some(true)` for a counted seat,
/// `Some(false)` for an uncounted one, `None` for a team outside the outcome.
pub open spec fn seat_of(seats: RaffleResultView, team: Id) -> Option<bool> {
    if seats.counted.contains(team) {
        Some(true)
    } else if seats.uncounted.contains(team) {
        Some(false)
    } else {
        None
    }
}

/// The seat that the raffle gave the team.
pub fn find_seat(seats: &RaffleResult, team: Id) -> (seat: Option<bool>)
    ensures
        seat == seat_of(seats@, team),
{
    if contains_id(&seats.counted, team) {
        Some(true)
    } else if contains_id(&seats.uncounted, team) {
        Some(false)
    } else {
        None
    }
}

/// The participation after the team has answered. A team that has a ballot
/// keeps its list; a first ballot goes to the list of the team's seat.
pub open spec fn with_ballot(
    participation: VoteParticipationView,
    team: Id,
    choice: VoteChoice,
    counted_seat: bool,
) -> VoteParticipationView {
    match participation {
        VoteParticipationView::Formal { counted, uncounted } => {
            if has_ballot(counted, team) || (!has_ballot(uncounted, team) && counted_seat) {
                VoteParticipationView::Formal { counted: record(counted, team, choice), uncounted }
            } else {
                VoteParticipationView::Formal { counted, uncounted: record(uncounted, team, choice) }
            }
        },
        VoteParticipationView::Informal(ballots) => VoteParticipationView::Informal(
            record(ballots, team, choice),
        ),
    }
}

/// No team has two ballots.
pub open spec fn one_ballot_per_team(participation: VoteParticipationView) -> bool {
    match participation {
        VoteParticipationView::Formal { counted, uncounted } => {
            &&& crate::model::distinct(ballot_teams(counted))
            &&& crate::model::distinct(ballot_teams(uncounted))
            &&& forall|i: int, j: int|
                0 <= i < counted.len() && 0 <= j < uncounted.len() ==> (#[trigger] counted[i]).team_id
                    != (#[trigger] uncounted[j]).team_id
        },
        VoteParticipationView::Informal(ballots) => crate::model::distinct(ballot_teams(ballots)),
    }
}

/// Recording an answer keeps the teams of the ballots apart.
pub proof fn lemma_record(ballots: Seq<Ballot>, team: Id, choice: VoteChoice)
    ensures
        record(ballots, team, choice).len() == ballots.len() + if has_ballot(ballots, team) {
            0int
        } else {
            1int
        },
        has_ballot(record(ballots, team, choice), team),
        forall|other: Id| other != team ==> has_ballot(record(ballots, team, choice), other) == has_ballot(ballots, other),
        ballot_teams(record(ballots, team, choice)) == if has_ballot(ballots, team) {
            ballot_teams(ballots)
        } else {
            ballot_teams(ballots).push(team)
        },
        crate::model::distinct(ballot_teams(ballots)) ==> crate::model::distinct(
            ballot_teams(record(ballots, team, choice)),
        ),
        forall|k: int|
            0 <= k < record(ballots, team, choice).len() ==> (#[trigger] record(
                ballots,
                team,
                choice,
            )[k]).team_id == team || (k < ballots.len() && record(ballots, team, choice)[k]
                == ballots[k]),
{
    let teams = ballot_teams(ballots);
    let after = record(ballots, team, choice);
    lemma_position_of(teams, team);
    match position_of(teams, team) {
        Some(i) => {
            assert(ballot_teams(after) =~= teams);
        },
        None => {
            assert(ballot_teams(after) =~= teams.push(team));
        },
    }
    lemma_position_of(ballot_teams(after), team);
    assert(ballot_teams(after)[after.len() - 1] == team || position_of(teams, team) is Some);
    assert forall|other: Id| other != team implies has_ballot(after, other) == has_ballot(
        ballots,
        other,
    ) by {
        lemma_position_of(teams, other);
        lemma_position_of(ballot_teams(after), other);
        if position_of(teams, other) is Some {
            let i = position_of(teams, other).unwrap();
            assert(ballot_teams(after)[i] == other);
        }
        if position_of(ballot_teams(after), other) is Some {
            let i = position_of(ballot_teams(after), other).unwrap();
            assert(teams[i] == other);
        }
    }
}

/// An answer leaves every team with at most one ballot.
pub proof fn lemma_with_ballot_one_per_team(
    participation: VoteParticipationView,
    team: Id,
    choice: VoteChoice,
    counted_seat: bool,
)
    requires
        one_ballot_per_team(participation),
    ensures
        one_ballot_per_team(with_ballot(participation, team, choice, counted_seat)),
{
    match participation {
        VoteParticipationView::Formal { counted, uncounted } => {
            lemma_record(counted, team, choice);
            lemma_record(uncounted, team, choice);
            lemma_position_of(ballot_teams(counted), team);
            lemma_position_of(ballot_teams(uncounted), team);
            if has_ballot(counted, team) || (!has_ballot(uncounted, team) && counted_seat) {
                let after = record(counted, team, choice);
                assert forall|i: int, j: int|
                    0 <= i < after.len() && 0 <= j < uncounted.len() implies (#[trigger] after[i]).team_id
                    != (#[trigger] uncounted[j]).team_id by {
                    if after[i].team_id == team {
                        if has_ballot(counted, team) {
                            let at = position_of(ballot_teams(counted), team).unwrap();
                            assert(counted[at].team_id == team);
                        } else {
                            assert(ballot_teams(uncounted)[j] != team);
                        }
                    } else {
                        assert(after[i] == counted[i]);
                    }
                }
            } else {
                let after = record(uncounted, team, choice);
                assert forall|i: int, j: int|
                    0 <= i < counted.len() && 0 <= j < after.len() implies (#[trigger] counted[i]).team_id
                    != (#[trigger] after[j]).team_id by {
                    if after[j].team_id == team {
                        assert(ballot_teams(counted)[i] != team);
                    } else {
                        assert(after[j] == uncounted[j]);
                    }
                }
            }
        },
        VoteParticipationView::Informal(ballots) => {
            lemma_record(ballots, team, choice);
        },
    }
}

/// Why the first of the ballots that is refused is refused, if one is.
pub open spec fn first_rejection(vote: VoteView, ballots: Seq<Ballot>, seats: Option<RaffleResultView>) -> Option<
    BudgetError,
>
    decreases ballots.len(),
{
    if ballots.len() == 0 {
        None
    } else {
        match first_rejection(vote, ballots.drop_last(), seats) {
            Some(why) => Some(why),
            None => Vote::cast_rejection(vote, ballots.last().team_id, seats),
        }
    }
}

/// The participation after all the ballots were taken, in order.
pub open spec fn cast_all(
    participation: VoteParticipationView,
    ballots: Seq<Ballot>,
    seats: Option<RaffleResultView>,
) -> VoteParticipationView
    decreases ballots.len(),
{
    if ballots.len() == 0 {
        participation
    } else {
        with_ballot(
            cast_all(participation, ballots.drop_last(), seats),
            ballots.last().team_id,
            ballots.last().choice,
            Vote::counted_seat(seats, ballots.last().team_id),
        )
    }
}

/// Taking ballots leaves a formal participation formal and an informal one informal.
pub proof fn lemma_cast_all_kind(
    participation: VoteParticipationView,
    ballots: Seq<Ballot>,
    seats: Option<RaffleResultView>,
)
    ensures
        cast_all(participation, ballots, seats) is Formal <==> participation is Formal,
    decreases ballots.len(),
{
    if ballots.len() > 0 {
        lemma_cast_all_kind(participation, ballots.drop_last(), seats);
    }
}

/// Where none of the ballots is refused, none of the first `upto` is; and
/// where one of the first `upto` is refused, the first refusal among them
/// is the first among all.
pub proof fn lemma_first_rejection_prefix(
    vote: VoteView,
    ballots: Seq<Ballot>,
    seats: Option<RaffleResultView>,
    upto: int,
)
    requires
        0 < upto <= ballots.len(),
    ensures
        first_rejection(vote, ballots, seats) is None ==> first_rejection(
            vote,
            ballots.take(upto),
            seats,
        ) is None && Vote::cast_rejection(vote, ballots[upto - 1].team_id, seats) is None,
        first_rejection(vote, ballots.take(upto), seats) is Some ==> first_rejection(
            vote,
            ballots,
            seats,
        ) == first_rejection(vote, ballots.take(upto), seats),
    decreases ballots.len() - upto,
{
    if upto < ballots.len() {
        assert(ballots.take(upto + 1).drop_last() =~= ballots.take(upto));
        lemma_first_rejection_prefix(vote, ballots, seats, upto + 1);
    } else {
        assert(ballots.take(upto) =~= ballots);
    }
}

impl Vote {
    /// The vote as it is opened: no ballot, no result.
    pub open spec fn spec_new(
        id: Id,
        proposal_id: Id,
        epoch_id: Id,
        vote_type: VoteType,
        is_historical: bool,
        now: Timestamp,
    ) -> VoteView {
        VoteView {
            id,
            proposal_id,
            epoch_id,
            vote_type,
            status: VoteStatus::Open,
            participation: match vote_type {
                VoteType::Formal { .. } => VoteParticipationView::Formal {
                    counted: Seq::empty(),
                    uncounted: Seq::empty(),
                },
                VoteType::Informal => VoteParticipationView::Informal(Seq::empty()),
            },
            result: None,
            opened_at: now,
            closed_at: None,
            is_historical,
        }
    }

    /// Opens a vote at the instant `now`.
    pub fn new(
        id: Id,
        proposal_id: Id,
        epoch_id: Id,
        vote_type: VoteType,
        is_historical: bool,
        now: Timestamp,
    ) -> (vote: Vote)
        ensures
            vote@ == Self::spec_new(id, proposal_id, epoch_id, vote_type, is_historical, now),
            one_ballot_per_team(vote@.participation),
    {
        let participation = match vote_type {
            VoteType::Formal { .. } => VoteParticipation::Formal {
                counted: Vec::new(),
                uncounted: Vec::new(),
            },
            VoteType::Informal => VoteParticipation::Informal(Vec::new()),
        };
        Vote {
            id,
            proposal_id,
            epoch_id,
            vote_type,
            status: VoteStatus::Open,
            participation,
            result: None,
            opened_at: now,
            closed_at: None,
            is_historical,
        }
    }

    /// Why the team's ballot is refused, if it is: the vote is closed, or it
    /// is formal and the raffle gave the team no seat.
    pub open spec fn cast_rejection(vote: VoteView, team: Id, seats: Option<RaffleResultView>) -> Option<
        BudgetError,
    > {
        if vote.status == VoteStatus::Closed {
            Some(BudgetError::VoteClosed)
        } else {
            match vote.participation {
                VoteParticipationView::Formal { .. } => match seats {
                    None => Some(BudgetError::RaffleNotCompleted),
                    Some(outcome) => if seat_of(outcome, team) is None {
                        Some(BudgetError::TeamNotEligible { team })
                    } else {
                        None
                    },
                },
                VoteParticipationView::Informal(_) => None,
            }
        }
    }

    /// Whether the raffle gave the team a counted seat.
    pub open spec fn counted_seat(seats: Option<RaffleResultView>, team: Id) -> bool {
        match seats {
            Some(outcome) => seat_of(outcome, team) == Some(true),
            None => false,
        }
    }

    /// Why the team's ballot is refused, if it is.
    pub fn check_cast(&self, team_id: Id, raffle_result: Option<&RaffleResult>) -> (why: Option<
        BudgetError,
    >)
        ensures
            why == Self::cast_rejection(
                self@,
                team_id,
                match raffle_result {
                    Some(r) => Some(r@),
                    None => None,
                },
            ),
    {
        if self.status == VoteStatus::Closed {
            return Some(BudgetError::VoteClosed);
        }
        match &self.participation {
            VoteParticipation::Formal { .. } => match raffle_result {
                None => Some(BudgetError::RaffleNotCompleted),
                Some(outcome) => match find_seat(outcome, team_id) {
                    None => Some(BudgetError::TeamNotEligible { team: team_id }),
                    Some(_) => None,
                },
            },
            VoteParticipation::Informal(_) => None,
        }
    }

    fn put_ballot(&mut self, team_id: Id, choice: VoteChoice, counted_seat: bool)
        ensures
            final(self)@ == (VoteView {
                participation: with_ballot(old(self)@.participation, team_id, choice, counted_seat),
                ..old(self)@
            }),
            one_ballot_per_team(old(self)@.participation) ==> one_ballot_per_team(
                final(self)@.participation,
            ),
    {
        proof {
            if one_ballot_per_team(self@.participation) {
                lemma_with_ballot_one_per_team(self@.participation, team_id, choice, counted_seat);
            }
        }
        match &mut self.participation {
            VoteParticipation::Formal { counted, uncounted } => {
                let in_counted = find_ballot(counted, team_id).is_some();
                let in_uncounted = find_ballot(uncounted, team_id).is_some();
                if in_counted || (!in_uncounted && counted_seat) {
                    record_ballot(counted, team_id, choice);
                } else {
                    record_ballot(uncounted, team_id, choice);
                }
            },
            VoteParticipation::Informal(ballots) => {
                record_ballot(ballots, team_id, choice);
            },
        }
    }

    /// Takes the team's ballot. A later ballot of the same team replaces the
    /// earlier one. A refused ballot changes nothing.
    pub fn cast_vote(
        &mut self,
        team_id: Id,
        choice: VoteChoice,
        raffle_result: Option<&RaffleResult>,
    ) -> (done: Result<(), BudgetError>)
        ensures
            match done {
                Ok(()) => {
                    &&& Self::cast_rejection(
                        old(self)@,
                        team_id,
                        match raffle_result {
                            Some(r) => Some(r@),
                            None => None,
                        },
                    ) is None
                    &&& final(self)@ == (VoteView {
                        participation: with_ballot(
                            old(self)@.participation,
                            team_id,
                            choice,
                            Self::counted_seat(
                                match raffle_result {
                                    Some(r) => Some(r@),
                                    None => None,
                                },
                                team_id,
                            ),
                        ),
                        ..old(self)@
                    })
                },
                Err(why) => {
                    &&& Self::cast_rejection(
                        old(self)@,
                        team_id,
                        match raffle_result {
                            Some(r) => Some(r@),
                            None => None,
                        },
                    ) == Some(why)
                    &&& *final(self) == *old(self)
                },
            },
            one_ballot_per_team(old(self)@.participation) ==> one_ballot_per_team(
                final(self)@.participation,
            ),
    {
        match self.check_cast(team_id, raffle_result) {
            Some(why) => Err(why),
            None => {
                let counted_seat = match raffle_result {
                    Some(outcome) => match find_seat(outcome, team_id) {
                        Some(counted) => counted,
                        None => false,
                    },
                    None => false,
                };
                self.put_ballot(team_id, choice, counted_seat);
                Ok(())
            },
        }
    }

    /// Why the first of the ballots that is refused is refused, if one is.
    pub fn check_ballots(&self, ballots: &Vec<Ballot>, raffle_result: Option<&RaffleResult>) -> (why:
        Option<BudgetError>)
        ensures
            why == first_rejection(
                self@,
                ballots@,
                match raffle_result {
                    Some(r) => Some(r@),
                    None => None,
                },
            ),
    {
        let ghost seats = match raffle_result {
            Some(r) => Some(r@),
            None => None,
        };
        let mut i: usize = 0;
        while i < ballots.len()
            invariant
                i <= ballots@.len(),
                seats == match raffle_result {
                    Some(r) => Some(r@),
                    None => None,
                },
                first_rejection(self@, ballots@.take(i as int), seats) is None,
            decreases ballots@.len() - i,
        {
            assert(ballots@.take(i + 1).drop_last() =~= ballots@.take(i as int));
            match self.check_cast(ballots[i].team_id, raffle_result) {
                Some(why) => {
                    proof {
                        assert(ballots@.take(i + 1).last() == ballots@[i as int]);
                        assert(first_rejection(self@, ballots@.take(i + 1), seats) == Some(why));
                        lemma_first_rejection_prefix(self@, ballots@, seats, i + 1);
                    }
                    return Some(why);
                },
                None => {},
            }
            i += 1;
        }
        assert(ballots@.take(i as int) =~= ballots@);
        None
    }

    /// Takes the ballots, in order. Either all are taken or, where one is refused, none.
    pub fn cast_ballots(&mut self, ballots: &Vec<Ballot>, raffle_result: Option<&RaffleResult>) -> (done:
        Result<(), BudgetError>)
        ensures
            match first_rejection(
                old(self)@,
                ballots@,
                match raffle_result {
                    Some(r) => Some(r@),
                    None => None,
                },
            ) {
                Some(why) => done == Err::<(), BudgetError>(why) && *final(self) == *old(self),
                None => done is Ok && final(self)@ == (VoteView {
                    participation: cast_all(
                        old(self)@.participation,
                        ballots@,
                        match raffle_result {
                            Some(r) => Some(r@),
                            None => None,
                        },
                    ),
                    ..old(self)@
                }),
            },
            one_ballot_per_team(old(self)@.participation) ==> one_ballot_per_team(
                final(self)@.participation,
            ),
    {
        match self.check_ballots(ballots, raffle_result) {
            Some(why) => {
                return Err(why);
            },
            None => {},
        }
        let ghost seats = match raffle_result {
            Some(r) => Some(r@),
            None => None,
        };
        let ghost before = self@;
        let mut k: usize = 0;
        while k < ballots.len()
            invariant
                k <= ballots@.len(),
                seats == match raffle_result {
                    Some(r) => Some(r@),
                    None => None,
                },
                first_rejection(before, ballots@, seats) is None,
                self@ == (VoteView {
                    participation: cast_all(before.participation, ballots@.take(k as int), seats),
                    ..before
                }),
                one_ballot_per_team(before.participation) ==> one_ballot_per_team(
                    self@.participation,
                ),
            decreases ballots@.len() - k,
        {
            assert(ballots@.take(k + 1).drop_last() =~= ballots@.take(k as int));
            proof {
                lemma_first_rejection_prefix(before, ballots@, seats, k + 1);
                lemma_cast_all_kind(before.participation, ballots@.take(k as int), seats);
                assert(ballots@.take(k + 1).last() == ballots@[k as int]);
            }
            let cast = self.cast_vote(ballots[k].team_id, ballots[k].choice, raffle_result);
            assert(cast is Ok);
            k += 1;
        }
        assert(ballots@.take(k as int) =~= ballots@);
        Ok(())
    }

    /// Enters a team as having taken part, without an answer; it counts as an
    /// abstention. This is for votes entered after the fact. Refused once the vote is closed.
    pub fn add_participant(&mut self, team_id: Id, counted_seat: bool) -> (done: Result<
        (),
        BudgetError,
    >)
        ensures
            match done {
                Ok(()) => {
                    &&& old(self)@.status == VoteStatus::Open
                    &&& final(self)@ == (VoteView {
                        participation: with_ballot(
                            old(self)@.participation,
                            team_id,
                            VoteChoice::Abstain,
                            counted_seat,
                        ),
                        ..old(self)@
                    })
                },
                Err(why) => {
                    &&& old(self)@.status == VoteStatus::Closed
                    &&& why == BudgetError::VoteClosed
                    &&& *final(self) == *old(self)
                },
            },
            one_ballot_per_team(old(self)@.participation) ==> one_ballot_per_team(
                final(self)@.participation,
            ),
    {
        if self.status == VoteStatus::Closed {
            return Err(BudgetError::VoteClosed);
        }
        self.put_ballot(team_id, VoteChoice::Abstain, counted_seat);
        Ok(())
    }

    /// What the ballots come to. In a formal vote the counted ballots alone
    /// decide: it passes if the share of yes among their yes and no reaches
    /// the threshold. An informal vote only reports its count.
    pub open spec fn resolution(vote_type: VoteType, participation: VoteParticipationView) -> VoteResult {
        match participation {
            VoteParticipationView::Formal { counted, uncounted } => VoteResult::Formal {
                counted: tally(counted),
                uncounted: tally(uncounted),
                passed: match vote_type {
                    VoteType::Formal { threshold, .. } => threshold.spec_is_met(tally(counted)),
                    VoteType::Informal => false,
                },
            },
            VoteParticipationView::Informal(ballots) => VoteResult::Informal {
                count: tally(ballots),
            },
        }
    }

    /// Closes the vote at the instant `now` and settles its result. Closing is
    /// final: a closed vote is not closed again.
    pub fn close(&mut self, now: Timestamp) -> (done: Result<(), BudgetError>)
        ensures
            match done {
                Ok(()) => {
                    &&& old(self)@.status == VoteStatus::Open
                    &&& final(self)@ == (VoteView {
                        status: VoteStatus::Closed,
                        closed_at: Some(now),
                        result: Some(
                            Self::resolution(old(self)@.vote_type, old(self)@.participation),
                        ),
                        ..old(self)@
                    })
                },
                Err(why) => {
                    &&& old(self)@.status == VoteStatus::Closed
                    &&& why == BudgetError::VoteAlreadyClosed
                    &&& *final(self) == *old(self)
                },
            },
    {
        if self.status == VoteStatus::Closed {
            return Err(BudgetError::VoteAlreadyClosed);
        }
        let result = match &self.participation {
            VoteParticipation::Formal { counted, uncounted } => {
                let counted_count = count_ballots(counted);
                let uncounted_count = count_ballots(uncounted);
                let passed = match self.vote_type {
                    VoteType::Formal { threshold, .. } => threshold.is_met(counted_count),
                    VoteType::Informal => false,
                };
                VoteResult::Formal { counted: counted_count, uncounted: uncounted_count, passed }
            },
            VoteParticipation::Informal(ballots) => VoteResult::Informal {
                count: count_ballots(ballots),
            },
        };
        self.status = VoteStatus::Closed;
        self.closed_at = Some(now);
        self.result = Some(result);
        Ok(())
    }

    /// The result of a vote entered after the fact: the known verdict, and no counts.
    pub open spec fn historical_result(participation: VoteParticipationView, passed: bool) -> VoteResult {
        match participation {
            VoteParticipationView::Formal { .. } => VoteResult::Formal {
                counted: VoteCount { yes: 0, no: 0 },
                uncounted: VoteCount { yes: 0, no: 0 },
                passed,
            },
            VoteParticipationView::Informal(_) => VoteResult::Informal {
                count: VoteCount { yes: 0, no: 0 },
            },
        }
    }

    /// Closes a vote entered after the fact with its known verdict. It is
    /// marked historical and dated `now`, both for its opening and its close.
    pub fn close_historical(&mut self, passed: bool, now: Timestamp) -> (done: Result<
        (),
        BudgetError,
    >)
        ensures
            match done {
                Ok(()) => {
                    &&& old(self)@.status == VoteStatus::Open
                    &&& final(self)@ == (VoteView {
                        status: VoteStatus::Closed,
                        opened_at: now,
                        closed_at: Some(now),
                        result: Some(Self::historical_result(old(self)@.participation, passed)),
                        is_historical: true,
                        ..old(self)@
                    })
                },
                Err(why) => {
                    &&& old(self)@.status == VoteStatus::Closed
                    &&& why == BudgetError::VoteAlreadyClosed
                    &&& *final(self) == *old(self)
                },
            },
    {
        if self.status == VoteStatus::Closed {
            return Err(BudgetError::VoteAlreadyClosed);
        }
        let zero = VoteCount { yes: 0, no: 0 };
        let result = match &self.participation {
            VoteParticipation::Formal { .. } => VoteResult::Formal {
                counted: zero,
                uncounted: zero,
                passed,
            },
            VoteParticipation::Informal(_) => VoteResult::Informal { count: zero },
        };
        self.status = VoteStatus::Closed;
        self.opened_at = now;
        self.closed_at = Some(now);
        self.result = Some(result);
        self.is_historical = true;
        Ok(())
    }

    pub fn id(&self) -> (id: Id)
        ensures
            id == self@.id,
    {
        self.id
    }

    pub fn proposal_id(&self) -> (id: Id)
        ensures
            id == self@.proposal_id,
    {
        self.proposal_id
    }

    pub fn epoch_id(&self) -> (id: Id)
        ensures
            id == self@.epoch_id,
    {
        self.epoch_id
    }

    pub fn vote_type(&self) -> (vote_type: &VoteType)
        ensures
            *vote_type == self@.vote_type,
    {
        &self.vote_type
    }

    pub fn status(&self) -> (status: VoteStatus)
        ensures
            status == self@.status,
    {
        self.status
    }

    pub fn participation(&self) -> (participation: &VoteParticipation)
        ensures
            participation@ == self@.participation,
    {
        &self.participation
    }

    pub fn result(&self) -> (result: Option<&VoteResult>)
        ensures
            match result {
                Some(r) => self@.result == Some(*r),
                None => self@.result is None,
            },
    {
        self.result.as_ref()
    }

    pub fn opened_at(&self) -> (instant: Timestamp)
        ensures
            instant == self@.opened_at,
    {
        self.opened_at
    }

    pub fn closed_at(&self) -> (instant: Option<Timestamp>)
        ensures
            instant == self@.closed_at,
    {
        self.closed_at
    }

    pub fn is_historical(&self) -> (yes: bool)
        ensures
            yes == self@.is_historical,
    {
        self.is_historical
    }

    pub fn is_closed(&self) -> (yes: bool)
        ensures
            yes == (self@.status == VoteStatus::Closed),
    {
        self.status == VoteStatus::Closed
    }

    /// The counted and the uncounted count of a formal result; none before
    /// the vote is closed and none for an informal vote.
    pub fn vote_counts(&self) -> (counts: Option<(VoteCount, VoteCount)>)
        ensures
            counts == match self@.result {
                Some(VoteResult::Formal { counted, uncounted, .. }) => Some((counted, uncounted)),
                _ => None,
            },
    {
        match self.result {
            Some(VoteResult::Formal { counted, uncounted, .. }) => Some((counted, uncounted)),
            _ => None,
        }
    }

    pub fn set_opened_at(&mut self, instant: Timestamp)
        ensures
            final(self)@ == (VoteView { opened_at: instant, ..old(self)@ }),
    {
        self.opened_at = instant;
    }

    pub fn set_closed_at(&mut self, instant: Option<Timestamp>)
        ensures
            final(self)@ == (VoteView { closed_at: instant, ..old(self)@ }),
    {
        self.closed_at = instant;
    }

    /// The points that the vote credits to the team: the counted or the
    /// uncounted credit of a formal vote for a team that took part from such
    /// a seat, and nothing otherwise.
    pub open spec fn spec_points_for(vote: VoteView, team: Id) -> u32 {
        match (vote.vote_type, vote.participation) {
            (
                VoteType::Formal { counted_points, uncounted_points, .. },
                VoteParticipationView::Formal { counted, uncounted },
            ) => {
                if has_ballot(counted, team) {
                    counted_points
                } else if has_ballot(uncounted, team) {
                    uncounted_points
                } else {
                    0
                }
            },
            _ => 0,
        }
    }

    /// The points that the vote credits to the team.
    pub fn points_for(&self, team_id: Id) -> (points: u32)
        ensures
            points == Self::spec_points_for(self@, team_id),
    {
        match (&self.vote_type, &self.participation) {
            (
                VoteType::Formal { counted_points, uncounted_points, .. },
                VoteParticipation::Formal { counted, uncounted },
            ) => {
                if find_ballot(counted, team_id).is_some() {
                    *counted_points
                } else if find_ballot(uncounted, team_id).is_some() {
                    *uncounted_points
                } else {
                    0
                }
            },
            _ => 0,
        }
    }
}

} // verus!
