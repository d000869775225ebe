//! The weighted lottery: who is in the draw, which tickets they hold, how a
//! ticket is scored and which teams take the counted seats.

use crate::error::BudgetError;
use crate::model::optional_ids;
use crate::model::views;
use crate::model::Keyed;
use crate::platform::sha256;
use crate::platform::sha256_digest;
use crate::platform::Id;
use crate::team::ticket_count;
use crate::team::Team;
use crate::team::TeamStatus;
use crate::team::TeamView;
use crate::text::contains_id;
use vstd::prelude::*;
use vstd::string::*;
use vstd::utf8::encode_utf8;

verus! {

/// What a raffle is drawn for and with.
#[derive(Debug)]
pub struct RaffleConfig {
    pub proposal_id: Id,
    pub epoch_id: Id,
    /// Seats whose ballots decide a formal vote.
    pub total_counted_seats: usize,
    /// Most of the counted seats that earners may take.
    pub max_earner_seats: usize,
    pub initiation_block: u64,
    pub randomness_block: u64,
    /// The entropy that scores the tickets; opaque text from the oracle.
    pub block_randomness: String,
    /// Teams kept out of the draw.
    pub excluded_teams: Vec<Id>,
    /// Teams that come first, in this order, when tickets are numbered.
    pub custom_team_order: Option<Vec<Id>>,
    pub is_historical: bool,
}

/// The mathematical value of a [`RaffleConfig`].
pub struct RaffleConfigView {
    pub proposal_id: Id,
    pub epoch_id: Id,
    pub total_counted_seats: usize,
    pub max_earner_seats: usize,
    pub initiation_block: u64,
    pub randomness_block: u64,
    pub block_randomness: Seq<char>,
    pub excluded_teams: Seq<Id>,
    pub custom_team_order: Option<Seq<Id>>,
    pub is_historical: bool,
}

impl View for RaffleConfig {
    type V = RaffleConfigView;

    open spec fn view(&self) -> RaffleConfigView {
        RaffleConfigView {
            proposal_id: self.proposal_id,
            epoch_id: self.epoch_id,
            total_counted_seats: self.total_counted_seats,
            max_earner_seats: self.max_earner_seats,
            initiation_block: self.initiation_block,
            randomness_block: self.randomness_block,
            block_randomness: self.block_randomness@,
            excluded_teams: self.excluded_teams@,
            custom_team_order: match self.custom_team_order {
                Some(order) => Some(order@),
                None => None,
            },
            is_historical: self.is_historical,
        }
    }
}

impl Clone for RaffleConfig {
    fn clone(&self) -> (copy: Self)
        ensures
            copy@ == self@,
    {
        let excluded = self.excluded_teams.clone();
        assert(excluded@ =~= self.excluded_teams@);
        let order = match &self.custom_team_order {
            Some(ids) => {
                let copy = ids.clone();
                assert(copy@ =~= ids@);
                Some(copy)
            },
            None => None,
        };
        RaffleConfig {
            proposal_id: self.proposal_id,
            epoch_id: self.epoch_id,
            total_counted_seats: self.total_counted_seats,
            max_earner_seats: self.max_earner_seats,
            initiation_block: self.initiation_block,
            randomness_block: self.randomness_block,
            block_randomness: self.block_randomness.clone(),
            excluded_teams: excluded,
            custom_team_order: order,
            is_historical: self.is_historical,
        }
    }
}

impl RaffleConfig {
    /// A configuration; blocks left out are 0, text and lists left out are empty.
    pub fn new(
        proposal_id: Id,
        epoch_id: Id,
        total_counted_seats: usize,
        max_earner_seats: usize,
        initiation_block: Option<u64>,
        randomness_block: Option<u64>,
        block_randomness: Option<String>,
        excluded_teams: Option<Vec<Id>>,
        custom_team_order: Option<Vec<Id>>,
        is_historical: bool,
    ) -> (config: RaffleConfig)
        ensures
            config@ == (RaffleConfigView {
                proposal_id,
                epoch_id,
                total_counted_seats,
                max_earner_seats,
                initiation_block: match initiation_block {
                    Some(block) => block,
                    None => 0,
                },
                randomness_block: match randomness_block {
                    Some(block) => block,
                    None => 0,
                },
                block_randomness: match block_randomness {
                    Some(text) => text@,
                    None => Seq::empty(),
                },
                excluded_teams: match excluded_teams {
                    Some(ids) => ids@,
                    None => Seq::empty(),
                },
                custom_team_order: optional_ids(custom_team_order),
                is_historical,
            }),
    {
        RaffleConfig {
            proposal_id,
            epoch_id,
            total_counted_seats,
            max_earner_seats,
            initiation_block: match initiation_block {
                Some(block) => block,
                None => 0,
            },
            randomness_block: match randomness_block {
                Some(block) => block,
                None => 0,
            },
            block_randomness: match block_randomness {
                Some(text) => text,
                None => String::new(),
            },
            excluded_teams: match excluded_teams {
                Some(ids) => ids,
                None => Vec::new(),
            },
            custom_team_order,
            is_historical,
        }
    }

    /// Why no raffle can be drawn with these seat counts, if none can.
    pub open spec fn spec_rejection(config: RaffleConfigView) -> Option<BudgetError> {
        if config.max_earner_seats > config.total_counted_seats {
            Some(
                BudgetError::EarnerSeatsExceedTotal {
                    max_earner_seats: config.max_earner_seats,
                    total_counted_seats: config.total_counted_seats,
                },
            )
        } else {
            None
        }
    }

    /// Why no raffle can be drawn with these seat counts, if none can.
    pub fn rejection(&self) -> (why: Option<BudgetError>)
        ensures
            why == Self::spec_rejection(self@),
    {
        if self.max_earner_seats > self.total_counted_seats {
            Some(
                BudgetError::EarnerSeatsExceedTotal {
                    max_earner_seats: self.max_earner_seats,
                    total_counted_seats: self.total_counted_seats,
                },
            )
        } else {
            None
        }
    }

    pub fn proposal_id(&self) -> (id: Id)
        ensures
            id == self@.proposal_id,
    {
        self.proposal_id
    }

    pub fn epoch_id(&self) -> (id: Id)
        ensures
            id == self@.epoch_id,
    {
        self.epoch_id
    }

    pub fn total_counted_seats(&self) -> (seats: usize)
        ensures
            seats == self@.total_counted_seats,
    {
        self.total_counted_seats
    }

    pub fn max_earner_seats(&self) -> (seats: usize)
        ensures
            seats == self@.max_earner_seats,
    {
        self.max_earner_seats
    }

    pub fn initiation_block(&self) -> (block: u64)
        ensures
            block == self@.initiation_block,
    {
        self.initiation_block
    }

    pub fn randomness_block(&self) -> (block: u64)
        ensures
            block == self@.randomness_block,
    {
        self.randomness_block
    }

    pub fn block_randomness(&self) -> (text: &str)
        ensures
            text@ == self@.block_randomness,
    {
        self.block_randomness.as_str()
    }

    pub fn excluded_teams(&self) -> (ids: &Vec<Id>)
        ensures
            ids@ == self@.excluded_teams,
    {
        &self.excluded_teams
    }

    pub fn is_historical(&self) -> (yes: bool)
        ensures
            yes == self@.is_historical,
    {
        self.is_historical
    }

    pub fn set_initiation_block(&mut self, block: u64)
        ensures
            final(self)@ == (RaffleConfigView { initiation_block: block, ..old(self)@ }),
    {
        self.initiation_block = block;
    }

    pub fn set_randomness_block(&mut self, block: u64)
        ensures
            final(self)@ == (RaffleConfigView { randomness_block: block, ..old(self)@ }),
    {
        self.randomness_block = block;
    }

    pub fn set_block_randomness(&mut self, randomness: String)
        ensures
            final(self)@ == (RaffleConfigView { block_randomness: randomness@, ..old(self)@ }),
    {
        self.block_randomness = randomness;
    }
}

/// A unit of the lottery: it belongs to a team, has a place in the numbering
/// and, once the randomness is known, a score.
#[derive(Clone, Copy, Debug, PartialEq, Eq, Structural)]
pub struct RaffleTicket {
    pub team_id: Id,
    pub index: u64,
    /// The leading 64 bits of the ticket's digest; as a fraction of `2^64` it
    /// lies in `[0, 1)`. It is 0 until the tickets are scored.
    pub score: u64,
}

impl RaffleTicket {
    pub fn new(team_id: Id, index: u64) -> (ticket: RaffleTicket)
        ensures
            ticket == (RaffleTicket { team_id, index, score: 0 }),
    {
        RaffleTicket { team_id, index, score: 0 }
    }

    pub fn team_id(&self) -> (id: Id)
        ensures
            id == self.team_id,
    {
        self.team_id
    }

    pub fn index(&self) -> (index: u64)
        ensures
            index == self.index,
    {
        self.index
    }

    pub fn score(&self) -> (score: u64)
        ensures
            score == self.score,
    {
        self.score
    }
}

/// A team as it was when the raffle was set up.
#[derive(Debug)]
pub struct TeamSnapshot {
    pub id: Id,
    pub name: String,
    pub representative: String,
    pub status: TeamStatus,
}

impl View for TeamSnapshot {
    type V = TeamView;

    open spec fn view(&self) -> TeamView {
        TeamView {
            id: self.id,
            name: self.name@,
            representative: self.representative@,
            status: self.status@,
        }
    }
}

impl Clone for TeamSnapshot {
    fn clone(&self) -> (copy: Self)
        ensures
            copy@ == self@,
    {
        TeamSnapshot {
            id: self.id,
            name: self.name.clone(),
            representative: self.representative.clone(),
            status: self.status.clone(),
        }
    }
}

impl TeamSnapshot {
    /// The team as it is now.
    pub fn of(team: &Team) -> (snapshot: TeamSnapshot)
        ensures
            snapshot@ == team@,
    {
        TeamSnapshot {
            id: team.id,
            name: team.name.clone(),
            representative: team.representative.clone(),
            status: team.status.clone(),
        }
    }

    pub fn id(&self) -> (id: Id)
        ensures
            id == self@.id,
    {
        self.id
    }

    pub fn name(&self) -> (name: &str)
        ensures
            name@ == self@.name,
    {
        self.name.as_str()
    }

    pub fn representative(&self) -> (representative: &str)
        ensures
            representative@ == self@.representative,
    {
        self.representative.as_str()
    }

    pub fn status(&self) -> (status: &TeamStatus)
        ensures
            status@ == self@.status,
    {
        &self.status
    }
}

/// The ids of the teams of a sequence, in order.
pub open spec fn team_ids(teams: Seq<TeamView>) -> Seq<Id> {
    Seq::new(teams.len(), |i: int| teams[i].id)
}

/// A team is in the draw unless it is inactive or excluded.
pub open spec fn eligible(team: TeamView, excluded: Seq<Id>) -> bool {
    !(team.status is Inactive) && !excluded.contains(team.id)
}

/// The lineup with `team` added at its end, if the team is eligible and not in it yet.
pub open spec fn enlist(lineup: Seq<TeamView>, team: TeamView, excluded: Seq<Id>) -> Seq<
    TeamView,
> {
    if eligible(team, excluded) && !team_ids(lineup).contains(team.id) {
        lineup.push(team)
    } else {
        lineup
    }
}

/// The eligible teams that a custom order names, in that order. An id that
/// names no team is passed over, and so is the second mention of a team.
pub open spec fn lineup_by_order(teams: Seq<TeamView>, order: Seq<Id>, excluded: Seq<Id>) -> Seq<
    TeamView,
>
    decreases order.len(),
{
    if order.len() == 0 {
        Seq::empty()
    } else {
        let before = lineup_by_order(teams, order.drop_last(), excluded);
        match crate::model::position_of(team_ids(teams), order.last()) {
            Some(i) => enlist(before, teams[i], excluded),
            None => before,
        }
    }
}

/// `lineup` followed by the eligible teams of `teams` that it lacks, in registry order.
pub open spec fn lineup_extend(lineup: Seq<TeamView>, teams: Seq<TeamView>, excluded: Seq<Id>) -> Seq<
    TeamView,
>
    decreases teams.len(),
{
    if teams.len() == 0 {
        lineup
    } else {
        enlist(lineup_extend(lineup, teams.drop_last(), excluded), teams.last(), excluded)
    }
}

/// The teams in the draw, in the order in which their tickets are numbered:
/// first those that the custom order names, then the others in registry order.
pub open spec fn lineup(teams: Seq<TeamView>, order: Option<Seq<Id>>, excluded: Seq<Id>) -> Seq<
    TeamView,
> {
    let first = match order {
        Some(ids) => lineup_by_order(teams, ids, excluded),
        None => Seq::empty(),
    };
    lineup_extend(first, teams, excluded)
}

/// The tickets of one team, numbered from `first` on.
pub open spec fn tickets_of(team: TeamView, first: nat) -> Seq<RaffleTicket> {
    Seq::new(
        ticket_count(team.status),
        |k: int| RaffleTicket { team_id: team.id, index: (first + k) as u64, score: 0 },
    )
}

/// The unscored tickets of a lineup: each team's tickets in one block, the
/// blocks in lineup order, numbered from 0 without a gap.
pub open spec fn issue_tickets(lineup: Seq<TeamView>) -> Seq<RaffleTicket>
    decreases lineup.len(),
{
    if lineup.len() == 0 {
        Seq::empty()
    } else {
        let before = issue_tickets(lineup.drop_last());
        before + tickets_of(lineup.last(), before.len())
    }
}

fn snapshot_taken(snapshots: &Vec<TeamSnapshot>, id: Id) -> (taken: bool)
    ensures
        taken == team_ids(views(snapshots@)).contains(id),
{
    let mut i: usize = 0;
    while i < snapshots.len()
        invariant
            i <= snapshots@.len(),
            forall|j: int| 0 <= j < i ==> team_ids(views(snapshots@))[j] != id,
        decreases snapshots@.len() - i,
    {
        if snapshots[i].id == id {
            assert(team_ids(views(snapshots@))[i as int] == id);
            return true;
        }
        i += 1;
    }
    false
}

fn enlist_team(snapshots: &mut Vec<TeamSnapshot>, team: &Team, excluded: &Vec<Id>)
    ensures
        views(final(snapshots)@) == enlist(views(old(snapshots)@), team@, excluded@),
{
    if team.is_active() && !contains_id(excluded, team.id) && !snapshot_taken(snapshots, team.id) {
        snapshots.push(TeamSnapshot::of(team));
        assert(views(snapshots@) =~= views(old(snapshots)@).push(team@));
    }
}

fn take_snapshots(teams: &Vec<Team>, order: &Option<Vec<Id>>, excluded: &Vec<Id>) -> (snapshots:
    Vec<TeamSnapshot>)
    ensures
        views(snapshots@) == lineup(views(teams@), optional_ids(*order), excluded@),
{
    let mut snapshots: Vec<TeamSnapshot> = Vec::new();
    assert(views(snapshots@) =~= Seq::<TeamView>::empty());
    match order {
        Some(ids) => {
            let mut k: usize = 0;
            while k < ids.len()
                invariant
                    k <= ids@.len(),
                    views(snapshots@) == lineup_by_order(
                        views(teams@),
                        ids@.take(k as int),
                        excluded@,
                    ),
                decreases ids@.len() - k,
            {
                assert(ids@.take(k + 1).drop_last() =~= ids@.take(k as int));
                assert(crate::model::keys(teams@) =~= team_ids(views(teams@)));
                match crate::model::find_position(teams, ids[k]) {
                    Some(i) => {
                        enlist_team(&mut snapshots, &teams[i], excluded);
                    },
                    None => {},
                }
                k += 1;
            }
            assert(ids@.take(k as int) =~= ids@);
        },
        None => {},
    }
    let ghost first = views(snapshots@);
    let mut i: usize = 0;
    while i < teams.len()
        invariant
            i <= teams@.len(),
            views(snapshots@) == lineup_extend(first, views(teams@).take(i as int), excluded@),
        decreases teams@.len() - i,
    {
        assert(views(teams@).take(i + 1).drop_last() =~= views(teams@).take(i as int));
        enlist_team(&mut snapshots, &teams[i], excluded);
        i += 1;
    }
    assert(views(teams@).take(i as int) =~= views(teams@));
    snapshots
}

fn number_tickets(snapshots: &Vec<TeamSnapshot>) -> (tickets: Vec<RaffleTicket>)
    ensures
        tickets@ == issue_tickets(views(snapshots@)),
{
    let mut tickets: Vec<RaffleTicket> = Vec::new();
    let mut i: usize = 0;
    while i < snapshots.len()
        invariant
            i <= snapshots@.len(),
            tickets@ == issue_tickets(views(snapshots@).take(i as int)),
        decreases snapshots@.len() - i,
    {
        let ghost before = tickets@;
        let ghost team = snapshots@[i as int]@;
        assert(views(snapshots@).take(i + 1).drop_last() =~= views(snapshots@).take(i as int));
        assert(views(snapshots@).take(i + 1).last() == team);
        let count = snapshots[i].status.ticket_count();
        let mut k: u64 = 0;
        while k < count
            invariant
                k <= count,
                count == ticket_count(team.status),
                team.id == snapshots@[i as int].id,
                i < snapshots@.len(),
                tickets@ == before + tickets_of(team, before.len()).take(k as int),
            decreases count - k,
        {
            let index = tickets.len() as u64;
            tickets.push(RaffleTicket::new(snapshots[i].id, index));
            assert(tickets@ =~= before + tickets_of(team, before.len()).take(k + 1));
            k += 1;
        }
        assert(tickets_of(team, before.len()).take(k as int) =~= tickets_of(team, before.len()));
        i += 1;
    }
    assert(views(snapshots@).take(i as int) =~= views(snapshots@));
    tickets
}

/// The decimal digits of `n` in ASCII, most significant first.
pub open spec fn decimal_digits(n: nat) -> Seq<u8>
    decreases n,
{
    if n < 10 {
        seq![(48 + n) as u8]
    } else {
        decimal_digits(n / 10).push((48 + n % 10) as u8)
    }
}

fn push_decimal(out: &mut Vec<u8>, n: u64)
    ensures
        final(out)@ == old(out)@ + decimal_digits(n as nat),
    decreases n,
{
    if n >= 10 {
        push_decimal(out, n / 10);
    }
    out.push(48 + (n % 10) as u8);
    assert(out@ =~= old(out)@ + decimal_digits(n as nat));
}

/// The bytes that are hashed for a ticket: the randomness in UTF-8, an
/// underscore, and the ticket's index in decimal.
pub open spec fn ticket_seed(randomness: Seq<char>, index: u64) -> Seq<u8> {
    encode_utf8(randomness) + seq![95u8] + decimal_digits(index as nat)
}

/// The bytes that are hashed for a ticket.
pub fn ticket_seed_bytes(randomness: &str, index: u64) -> (seed: Vec<u8>)
    ensures
        seed@ == ticket_seed(randomness@, index),
{
    let mut seed = randomness.as_bytes_vec();
    seed.push(95u8);
    push_decimal(&mut seed, index);
    seed
}

/// The first eight bytes of a digest, read as a big-endian number.
pub open spec fn leading_bits(digest: Seq<u8>) -> u64 {
    (digest[0] as int * 0x0100_0000_0000_0000 + digest[1] as int * 0x0001_0000_0000_0000
        + digest[2] as int * 0x0000_0100_0000_0000 + digest[3] as int * 0x0000_0001_0000_0000
        + digest[4] as int * 0x0000_0000_0100_0000 + digest[5] as int * 0x0000_0000_0001_0000
        + digest[6] as int * 0x0000_0000_0000_0100 + digest[7] as int) as u64
}

/// The score that a digest gives: its first eight bytes as a big-endian
/// number. A digest of fewer than eight bytes gives none.
pub fn score_from_digest(digest: &[u8]) -> (score: Option<u64>)
    ensures
        score == if digest@.len() >= 8 {
            Some(leading_bits(digest@))
        } else {
            None
        },
{
    if digest.len() < 8 {
        return None;
    }
    let b0: u64 = digest[0] as u64;
    let b1: u64 = digest[1] as u64;
    let b2: u64 = digest[2] as u64;
    let b3: u64 = digest[3] as u64;
    let b4: u64 = digest[4] as u64;
    let b5: u64 = digest[5] as u64;
    let b6: u64 = digest[6] as u64;
    let b7: u64 = digest[7] as u64;
    Some(
        b0 * 0x0100_0000_0000_0000 + b1 * 0x0001_0000_0000_0000 + b2 * 0x0000_0100_0000_0000 + b3
            * 0x0000_0001_0000_0000 + b4 * 0x0000_0000_0100_0000 + b5 * 0x0000_0000_0001_0000 + b6
            * 0x0000_0000_0000_0100 + b7,
    )
}

/// The score of the ticket with this index under this randomness.
pub open spec fn ticket_score(randomness: Seq<char>, index: u64) -> u64 {
    leading_bits(sha256_digest(ticket_seed(randomness, index)))
}

/// The score of the ticket with this index under this randomness: the leading
/// 64 bits of the SHA-256 digest of the ticket's seed.
pub fn score_ticket(randomness: &str, index: u64) -> (score: u64)
    ensures
        score == ticket_score(randomness@, index),
{
    let seed = ticket_seed_bytes(randomness, index);
    let digest = sha256(seed.as_slice());
    match score_from_digest(digest.as_slice()) {
        Some(score) => score,
        None => 0,
    }
}

/// The tickets with the scores that the randomness gives them.
pub open spec fn scored(tickets: Seq<RaffleTicket>, randomness: Seq<char>) -> Seq<RaffleTicket> {
    Seq::new(
        tickets.len(),
        |i: int| RaffleTicket { score: ticket_score(randomness, tickets[i].index), ..tickets[i] },
    )
}

/// The tickets with the scores that the randomness gives them.
pub fn score_tickets(tickets: &Vec<RaffleTicket>, randomness: &str) -> (out: Vec<RaffleTicket>)
    ensures
        out@ == scored(tickets@, randomness@),
{
    let mut out: Vec<RaffleTicket> = Vec::new();
    let mut i: usize = 0;
    while i < tickets.len()
        invariant
            i <= tickets@.len(),
            out@ == scored(tickets@, randomness@).take(i as int),
        decreases tickets@.len() - i,
    {
        let ticket = tickets[i];
        let score = score_ticket(randomness, ticket.index);
        out.push(RaffleTicket { team_id: ticket.team_id, index: ticket.index, score });
        assert(out@ =~= scored(tickets@, randomness@).take(i + 1));
        i += 1;
    }
    assert(scored(tickets@, randomness@).take(i as int) =~= scored(tickets@, randomness@));
    out
}

/// Whether ticket `a` beats ticket `b`: by the higher score, and between equal
/// scores by the lower index.
pub open spec fn ticket_beats(a: RaffleTicket, b: RaffleTicket) -> bool {
    a.score > b.score || (a.score == b.score && a.index < b.index)
}

/// The best ticket that the team holds, if it holds any.
pub open spec fn best_ticket(tickets: Seq<RaffleTicket>, team: Id) -> Option<RaffleTicket>
    decreases tickets.len(),
{
    if tickets.len() == 0 {
        None
    } else {
        let before = best_ticket(tickets.drop_last(), team);
        let ticket = tickets.last();
        if ticket.team_id != team {
            before
        } else {
            match before {
                Some(best) => if ticket_beats(ticket, best) {
                    Some(ticket)
                } else {
                    Some(best)
                },
                None => Some(ticket),
            }
        }
    }
}

/// The best ticket that the team holds, if it holds any.
pub fn best_ticket_of(tickets: &Vec<RaffleTicket>, team: Id) -> (best: Option<RaffleTicket>)
    ensures
        best == best_ticket(tickets@, team),
{
    let mut best: Option<RaffleTicket> = None;
    let mut i: usize = 0;
    while i < tickets.len()
        invariant
            i <= tickets@.len(),
            best == best_ticket(tickets@.take(i as int), team),
        decreases tickets@.len() - i,
    {
        assert(tickets@.take(i + 1).drop_last() =~= tickets@.take(i as int));
        let ticket = tickets[i];
        if ticket.team_id == team {
            best = match best {
                Some(b) => if ticket.score > b.score || (ticket.score == b.score && ticket.index
                    < b.index) {
                    Some(ticket)
                } else {
                    Some(b)
                },
                None => Some(ticket),
            };
        }
        i += 1;
    }
    assert(tickets@.take(i as int) =~= tickets@);
    best
}

/// Where a team stands in the draw: its role, and the score and index of its best ticket.
#[derive(Clone, Copy, Debug, PartialEq, Eq, Structural)]
pub struct Standing {
    pub team_id: Id,
    pub earner: bool,
    pub score: u64,
    pub ticket: u64,
}

/// The standing of a team of the lineup. A team without a ticket stands
/// behind every team that holds one.
pub open spec fn standing(team: TeamView, tickets: Seq<RaffleTicket>) -> Standing {
    match best_ticket(tickets, team.id) {
        Some(best) => Standing {
            team_id: team.id,
            earner: team.status is Earner,
            score: best.score,
            ticket: best.index,
        },
        None => Standing {
            team_id: team.id,
            earner: team.status is Earner,
            score: 0,
            ticket: u64::MAX,
        },
    }
}

/// The standings of the lineup, in lineup order.
pub open spec fn standings(lineup: Seq<TeamView>, tickets: Seq<RaffleTicket>) -> Seq<Standing> {
    Seq::new(lineup.len(), |i: int| standing(lineup[i], tickets))
}

/// Whether `a` ranks before `b`: by the higher score, and between equal scores
/// by the lower ticket index.
pub open spec fn outranks(a: Standing, b: Standing) -> bool {
    a.score > b.score || (a.score == b.score && a.ticket < b.ticket)
}

/// The place, among the first `upto`, of the best team of the given role that
/// has no seat yet. Between two that neither outranks the other, the earlier.
pub open spec fn best_open(st: Seq<Standing>, taken: Seq<bool>, earner: bool, upto: int) -> Option<
    int,
>
    decreases upto,
{
    if upto <= 0 {
        None
    } else {
        let before = best_open(st, taken, earner, upto - 1);
        let i = upto - 1;
        if taken[i] || st[i].earner != earner {
            before
        } else {
            match before {
                Some(p) => if outranks(st[i], st[p]) {
                    Some(i)
                } else {
                    Some(p)
                },
                None => Some(i),
            }
        }
    }
}

/// Seats teams of one role, best first, until `limit` seats are taken in all
/// or no team of that role is left. Gives the new marks and the seated ids.
pub open spec fn seat(
    st: Seq<Standing>,
    taken: Seq<bool>,
    seated: Seq<Id>,
    earner: bool,
    limit: nat,
) -> (Seq<bool>, Seq<Id>)
    decreases limit - seated.len(),
{
    if seated.len() >= limit {
        (taken, seated)
    } else {
        match best_open(st, taken, earner, st.len() as int) {
            Some(p) => seat(st, taken.update(p, true), seated.push(st[p].team_id), earner, limit),
            None => (taken, seated),
        }
    }
}

/// The smaller of two numbers.
pub open spec fn least(a: nat, b: nat) -> nat {
    if a <= b {
        a
    } else {
        b
    }
}

/// The draw: the best earners take seats up to the earner cap, then the best
/// of the other teams take what is left of the counted seats.
pub open spec fn draw(st: Seq<Standing>, max_earner_seats: nat, total_counted_seats: nat) -> (
    Seq<bool>,
    Seq<Id>,
) {
    let nobody = Seq::new(st.len(), |i: int| false);
    let earners = seat(
        st,
        nobody,
        Seq::empty(),
        true,
        least(max_earner_seats, total_counted_seats),
    );
    seat(st, earners.0, earners.1, false, total_counted_seats)
}

/// The ids of the teams among the first `upto` that took no seat, in lineup order.
pub open spec fn left_out(st: Seq<Standing>, taken: Seq<bool>, upto: int) -> Seq<Id>
    decreases upto,
{
    if upto <= 0 {
        Seq::empty()
    } else {
        let before = left_out(st, taken, upto - 1);
        if taken[upto - 1] {
            before
        } else {
            before.push(st[upto - 1].team_id)
        }
    }
}

/// Who holds the counted seats, and who of the draw does not.
#[derive(Debug)]
pub struct RaffleResult {
    pub counted: Vec<Id>,
    pub uncounted: Vec<Id>,
}

/// The mathematical value of a [`RaffleResult`].
pub struct RaffleResultView {
    pub counted: Seq<Id>,
    pub uncounted: Seq<Id>,
}

impl View for RaffleResult {
    type V = RaffleResultView;

    open spec fn view(&self) -> RaffleResultView {
        RaffleResultView { counted: self.counted@, uncounted: self.uncounted@ }
    }
}

impl Clone for RaffleResult {
    fn clone(&self) -> (copy: Self)
        ensures
            copy@ == self@,
    {
        let counted = self.counted.clone();
        let uncounted = self.uncounted.clone();
        assert(counted@ =~= self.counted@);
        assert(uncounted@ =~= self.uncounted@);
        RaffleResult { counted, uncounted }
    }
}

impl RaffleResult {
    pub fn new(counted: Vec<Id>, uncounted: Vec<Id>) -> (result: RaffleResult)
        ensures
            result@ == (RaffleResultView { counted: counted@, uncounted: uncounted@ }),
    {
        RaffleResult { counted, uncounted }
    }

    pub fn counted(&self) -> (ids: &Vec<Id>)
        ensures
            ids@ == self@.counted,
    {
        &self.counted
    }

    pub fn uncounted(&self) -> (ids: &Vec<Id>)
        ensures
            ids@ == self@.uncounted,
    {
        &self.uncounted
    }
}

/// The outcome of the raffle over this lineup and these tickets.
pub open spec fn raffle_outcome(
    lineup: Seq<TeamView>,
    tickets: Seq<RaffleTicket>,
    max_earner_seats: nat,
    total_counted_seats: nat,
) -> RaffleResultView {
    let st = standings(lineup, tickets);
    let seats = draw(st, max_earner_seats, total_counted_seats);
    RaffleResultView { counted: seats.1, uncounted: left_out(st, seats.0, st.len() as int) }
}

/// The standings of the lineup, in lineup order.
pub fn compute_standings(snapshots: &Vec<TeamSnapshot>, tickets: &Vec<RaffleTicket>) -> (st: Vec<
    Standing,
>)
    ensures
        st@ == standings(views(snapshots@), tickets@),
{
    let mut st: Vec<Standing> = Vec::new();
    let mut i: usize = 0;
    while i < snapshots.len()
        invariant
            i <= snapshots@.len(),
            st@ == standings(views(snapshots@), tickets@).take(i as int),
        decreases snapshots@.len() - i,
    {
        let team = &snapshots[i];
        let entry = match best_ticket_of(tickets, team.id) {
            Some(best) => Standing {
                team_id: team.id,
                earner: team.status.is_earner(),
                score: best.score,
                ticket: best.index,
            },
            None => Standing {
                team_id: team.id,
                earner: team.status.is_earner(),
                score: 0,
                ticket: u64::MAX,
            },
        };
        st.push(entry);
        assert(st@ =~= standings(views(snapshots@), tickets@).take(i + 1));
        i += 1;
    }
    assert(standings(views(snapshots@), tickets@).take(i as int) =~= standings(
        views(snapshots@),
        tickets@,
    ));
    st
}

fn find_best_open(st: &Vec<Standing>, taken: &Vec<bool>, earner: bool) -> (place: Option<usize>)
    requires
        taken@.len() == st@.len(),
    ensures
        match place {
            Some(p) => p < st@.len() && best_open(st@, taken@, earner, st@.len() as int) == Some(
                p as int,
            ),
            None => best_open(st@, taken@, earner, st@.len() as int) is None,
        },
{
    let mut place: Option<usize> = None;
    let mut i: usize = 0;
    while i < st.len()
        invariant
            i <= st@.len(),
            taken@.len() == st@.len(),
            match place {
                Some(p) => p < i && best_open(st@, taken@, earner, i as int) == Some(p as int),
                None => best_open(st@, taken@, earner, i as int) is None,
            },
        decreases st@.len() - i,
    {
        if !taken[i] && st[i].earner == earner {
            place = match place {
                Some(p) => if st[i].score > st[p].score || (st[i].score == st[p].score
                    && st[i].ticket < st[p].ticket) {
                    Some(i)
                } else {
                    Some(p)
                },
                None => Some(i),
            };
        }
        i += 1;
    }
    place
}

fn seat_role(
    st: &Vec<Standing>,
    taken: &mut Vec<bool>,
    seated: &mut Vec<Id>,
    earner: bool,
    limit: usize,
)
    requires
        old(taken)@.len() == st@.len(),
    ensures
        (final(taken)@, final(seated)@) == seat(
            st@,
            old(taken)@,
            old(seated)@,
            earner,
            limit as nat,
        ),
        final(taken)@.len() == st@.len(),
{
    let mut open = true;
    while open && seated.len() < limit
        invariant
            taken@.len() == st@.len(),
            seat(st@, taken@, seated@, earner, limit as nat) == seat(
                st@,
                old(taken)@,
                old(seated)@,
                earner,
                limit as nat,
            ),
            !open ==> best_open(st@, taken@, earner, st@.len() as int) is None,
        decreases (if open { 1nat } else { 0nat }) + limit - seated@.len(),
    {
        match find_best_open(st, taken, earner) {
            Some(p) => {
                taken.set(p, true);
                seated.push(st[p].team_id);
            },
            None => {
                open = false;
            },
        }
    }
}

/// The outcome of the raffle over these snapshots and tickets.
pub fn decide(
    snapshots: &Vec<TeamSnapshot>,
    tickets: &Vec<RaffleTicket>,
    max_earner_seats: usize,
    total_counted_seats: usize,
) -> (result: RaffleResult)
    ensures
        result@ == raffle_outcome(
            views(snapshots@),
            tickets@,
            max_earner_seats as nat,
            total_counted_seats as nat,
        ),
{
    let st = compute_standings(snapshots, tickets);
    let mut taken: Vec<bool> = Vec::new();
    let mut i: usize = 0;
    while i < st.len()
        invariant
            i <= st@.len(),
            taken@ == Seq::new(i as nat, |k: int| false),
        decreases st@.len() - i,
    {
        taken.push(false);
        assert(taken@ =~= Seq::new((i + 1) as nat, |k: int| false));
        i += 1;
    }
    let mut counted: Vec<Id> = Vec::new();
    let cap = if max_earner_seats <= total_counted_seats {
        max_earner_seats
    } else {
        total_counted_seats
    };
    assert(counted@ =~= Seq::<Id>::empty());
    seat_role(&st, &mut taken, &mut counted, true, cap);
    seat_role(&st, &mut taken, &mut counted, false, total_counted_seats);
    let mut uncounted: Vec<Id> = Vec::new();
    let mut j: usize = 0;
    while j < st.len()
        invariant
            j <= st@.len(),
            taken@.len() == st@.len(),
            uncounted@ == left_out(st@, taken@, j as int),
        decreases st@.len() - j,
    {
        if !taken[j] {
            uncounted.push(st[j].team_id);
        }
        j += 1;
    }
    RaffleResult { counted, uncounted }
}

/// A raffle: the teams in the draw as they were at setup, their tickets, and
/// the outcome once it is drawn or imported.
#[derive(Debug)]
pub struct Raffle {
    pub id: Id,
    pub config: RaffleConfig,
    pub team_snapshots: Vec<TeamSnapshot>,
    pub tickets: Vec<RaffleTicket>,
    pub result: Option<RaffleResult>,
}

/// The mathematical value of a [`Raffle`].
pub struct RaffleView {
    pub id: Id,
    pub config: RaffleConfigView,
    pub team_snapshots: Seq<TeamView>,
    pub tickets: Seq<RaffleTicket>,
    pub result: Option<RaffleResultView>,
}

/// The view of an optional result.
pub open spec fn optional_result(result: Option<RaffleResult>) -> Option<RaffleResultView> {
    match result {
        Some(r) => Some(r@),
        None => None,
    }
}

impl View for Raffle {
    type V = RaffleView;

    open spec fn view(&self) -> RaffleView {
        RaffleView {
            id: self.id,
            config: self.config@,
            team_snapshots: views(self.team_snapshots@),
            tickets: self.tickets@,
            result: optional_result(self.result),
        }
    }
}

impl Keyed for Raffle {
    open spec fn spec_key(&self) -> Id {
        self.id
    }

    fn key(&self) -> (id: Id) {
        self.id
    }
}

fn clone_snapshots(snapshots: &Vec<TeamSnapshot>) -> (copy: Vec<TeamSnapshot>)
    ensures
        views(copy@) == views(snapshots@),
{
    let mut copy: Vec<TeamSnapshot> = Vec::new();
    let mut i: usize = 0;
    while i < snapshots.len()
        invariant
            i <= snapshots@.len(),
            copy@.len() == i,
            views(copy@) == views(snapshots@).take(i as int),
        decreases snapshots@.len() - i,
    {
        let ghost before = copy@;
        let snapshot = snapshots[i].clone();
        assert(snapshot@ == snapshots@[i as int]@);
        copy.push(snapshot);
        assert(views(copy@) =~= views(before).push(snapshot@));
        assert(views(copy@) =~= views(snapshots@).take(i + 1));
        i += 1;
    }
    assert(views(snapshots@).take(i as int) =~= views(snapshots@));
    copy
}

impl Clone for Raffle {
    fn clone(&self) -> (copy: Self)
        ensures
            copy@ == self@,
    {
        let tickets = self.tickets.clone();
        assert(tickets@ =~= self.tickets@);
        Raffle {
            id: self.id,
            config: self.config.clone(),
            team_snapshots: clone_snapshots(&self.team_snapshots),
            tickets,
            result: match &self.result {
                Some(r) => Some(r.clone()),
                None => None,
            },
        }
    }
}

impl Raffle {
    /// The raffle as it is set up: the lineup of the eligible teams and their
    /// unscored tickets, and no result.
    pub open spec fn spec_new(id: Id, config: RaffleConfigView, teams: Seq<TeamView>) -> RaffleView {
        let lineup = lineup(teams, config.custom_team_order, config.excluded_teams);
        RaffleView {
            id,
            config,
            team_snapshots: lineup,
            tickets: issue_tickets(lineup),
            result: None,
        }
    }

    /// Sets up a raffle over the teams as they are now. A configuration with
    /// more earner seats than counted seats is refused before anything is drawn up.
    pub fn new(id: Id, config: RaffleConfig, teams: &Vec<Team>) -> (made: Result<
        Raffle,
        BudgetError,
    >)
        ensures
            match made {
                Ok(raffle) => {
                    &&& RaffleConfig::spec_rejection(config@) is None
                    &&& raffle@ == Self::spec_new(id, config@, views(teams@))
                },
                Err(why) => RaffleConfig::spec_rejection(config@) == Some(why),
            },
    {
        match config.rejection() {
            Some(why) => Err(why),
            None => {
                let team_snapshots = take_snapshots(
                    teams,
                    &config.custom_team_order,
                    &config.excluded_teams,
                );
                let tickets = number_tickets(&team_snapshots);
                Ok(Raffle { id, config, team_snapshots, tickets, result: None })
            },
        }
    }

    /// Records the randomness and the blocks that it was requested at and read from.
    pub fn set_randomness(&mut self, initiation_block: u64, randomness_block: u64, randomness: String)
        ensures
            final(self)@ == (RaffleView {
                config: RaffleConfigView {
                    initiation_block,
                    randomness_block,
                    block_randomness: randomness@,
                    ..old(self)@.config
                },
                ..old(self)@
            }),
    {
        self.config.initiation_block = initiation_block;
        self.config.randomness_block = randomness_block;
        self.config.block_randomness = randomness;
    }

    /// Scores every ticket under the recorded randomness. A raffle that has
    /// its result takes no new scores.
    pub fn generate_ticket_scores(&mut self) -> (done: Result<(), BudgetError>)
        ensures
            match done {
                Ok(()) => {
                    &&& old(self)@.result is None
                    &&& final(self)@ == (RaffleView {
                        tickets: scored(old(self)@.tickets, old(self)@.config.block_randomness),
                        ..old(self)@
                    })
                },
                Err(why) => {
                    &&& old(self)@.result is Some
                    &&& why == BudgetError::RaffleAlreadyCompleted
                    &&& *final(self) == *old(self)
                },
            },
    {
        if self.result.is_some() {
            return Err(BudgetError::RaffleAlreadyCompleted);
        }
        let tickets = score_tickets(&self.tickets, self.config.block_randomness.as_str());
        self.tickets = tickets;
        Ok(())
    }

    /// Draws the outcome from the scored tickets. The result of a raffle is
    /// final: a second draw is refused.
    pub fn select_deciding_teams(&mut self) -> (done: Result<(), BudgetError>)
        ensures
            match done {
                Ok(()) => {
                    &&& old(self)@.result is None
                    &&& final(self)@ == (RaffleView {
                        result: Some(
                            raffle_outcome(
                                old(self)@.team_snapshots,
                                old(self)@.tickets,
                                old(self)@.config.max_earner_seats as nat,
                                old(self)@.config.total_counted_seats as nat,
                            ),
                        ),
                        ..old(self)@
                    })
                },
                Err(why) => {
                    &&& old(self)@.result is Some
                    &&& why == BudgetError::RaffleAlreadyCompleted
                    &&& *final(self) == *old(self)
                },
            },
    {
        if self.result.is_some() {
            return Err(BudgetError::RaffleAlreadyCompleted);
        }
        let result = decide(
            &self.team_snapshots,
            &self.tickets,
            self.config.max_earner_seats,
            self.config.total_counted_seats,
        );
        self.result = Some(result);
        Ok(())
    }

    /// Why the raffle does not take the outcome, if it does not: it has one,
    /// or the counted teams do not fill the counted seats exactly.
    pub open spec fn result_rejection(raffle: RaffleView, result: RaffleResultView) -> Option<
        BudgetError,
    > {
        if raffle.result is Some {
            Some(BudgetError::RaffleAlreadyCompleted)
        } else if result.counted.len() != raffle.config.total_counted_seats {
            Some(
                BudgetError::CountedSeatsMismatch {
                    expected: raffle.config.total_counted_seats,
                    actual: result.counted.len() as usize,
                },
            )
        } else {
            None
        }
    }

    /// Takes an outcome that was decided elsewhere. Its counted teams must
    /// fill the counted seats exactly. The result of a raffle is final: a
    /// raffle that has one takes no other.
    pub fn set_result(&mut self, result: RaffleResult) -> (done: Result<(), BudgetError>)
        ensures
            match done {
                Ok(()) => {
                    &&& Self::result_rejection(old(self)@, result@) is None
                    &&& final(self)@ == (RaffleView { result: Some(result@), ..old(self)@ })
                },
                Err(why) => {
                    &&& Self::result_rejection(old(self)@, result@) == Some(why)
                    &&& *final(self) == *old(self)
                },
            },
    {
        if self.result.is_some() {
            return Err(BudgetError::RaffleAlreadyCompleted);
        }
        if result.counted.len() != self.config.total_counted_seats {
            return Err(
                BudgetError::CountedSeatsMismatch {
                    expected: self.config.total_counted_seats,
                    actual: result.counted.len(),
                },
            );
        }
        self.result = Some(result);
        Ok(())
    }

    pub fn id(&self) -> (id: Id)
        ensures
            id == self@.id,
    {
        self.id
    }

    pub fn config(&self) -> (config: &RaffleConfig)
        ensures
            config@ == self@.config,
    {
        &self.config
    }

    pub fn team_snapshots(&self) -> (snapshots: &Vec<TeamSnapshot>)
        ensures
            views(snapshots@) == self@.team_snapshots,
    {
        &self.team_snapshots
    }

    pub fn tickets(&self) -> (tickets: &Vec<RaffleTicket>)
        ensures
            tickets@ == self@.tickets,
    {
        &self.tickets
    }

    pub fn result(&self) -> (result: Option<&RaffleResult>)
        ensures
            match result {
                Some(r) => self@.result == Some(r@),
                None => self@.result is None,
            },
    {
        self.result.as_ref()
    }

    /// Whether the outcome is known.
    pub fn is_completed(&self) -> (yes: bool)
        ensures
            yes == (self@.result is Some),
    {
        self.result.is_some()
    }

    /// The teams of the outcome, the counted ones first; none before the outcome is known.
    pub open spec fn spec_deciding_teams(raffle: RaffleView) -> Seq<Id> {
        match raffle.result {
            Some(r) => r.counted + r.uncounted,
            None => Seq::empty(),
        }
    }

    /// The teams of the outcome, the counted ones first; none before the outcome is known.
    pub fn deciding_teams(&self) -> (ids: Vec<Id>)
        ensures
            ids@ == Self::spec_deciding_teams(self@),
    {
        let mut ids: Vec<Id> = Vec::new();
        match &self.result {
            Some(r) => {
                let mut i: usize = 0;
                while i < r.counted.len()
                    invariant
                        i <= r.counted@.len(),
                        ids@ == r.counted@.take(i as int),
                    decreases r.counted@.len() - i,
                {
                    ids.push(r.counted[i]);
                    assert(ids@ =~= r.counted@.take(i + 1));
                    i += 1;
                }
                assert(r.counted@.take(i as int) =~= r.counted@);
                let mut j: usize = 0;
                while j < r.uncounted.len()
                    invariant
                        j <= r.uncounted@.len(),
                        ids@ == r.counted@ + r.uncounted@.take(j as int),
                    decreases r.uncounted@.len() - j,
                {
                    ids.push(r.uncounted[j]);
                    assert(ids@ =~= r.counted@ + r.uncounted@.take(j + 1));
                    j += 1;
                }
                assert(r.uncounted@.take(j as int) =~= r.uncounted@);
            },
            None => {},
        }
        ids
    }
}

/// The tickets that stand next to each other and belong to one team.
#[derive(Clone, Copy, Debug, PartialEq, Eq, Structural)]
pub struct TicketRange {
    pub team_id: Id,
    /// The index of the first ticket of the run.
    pub first: u64,
    /// The index of the last ticket of the run.
    pub last: u64,
}

/// The runs of tickets of one team, in order: a ticket continues the run
/// before it if it belongs to the same team, and starts a run otherwise.
pub open spec fn grouped(tickets: Seq<RaffleTicket>) -> Seq<TicketRange>
    decreases tickets.len(),
{
    if tickets.len() == 0 {
        Seq::empty()
    } else {
        let before = grouped(tickets.drop_last());
        let ticket = tickets.last();
        if before.len() > 0 && before.last().team_id == ticket.team_id {
            before.update(before.len() - 1, TicketRange { last: ticket.index, ..before.last() })
        } else {
            before.push(
                TicketRange { team_id: ticket.team_id, first: ticket.index, last: ticket.index },
            )
        }
    }
}

/// The runs of tickets of one team, in order.
pub fn group_tickets_by_team(tickets: &Vec<RaffleTicket>) -> (runs: Vec<TicketRange>)
    ensures
        runs@ == grouped(tickets@),
{
    let mut runs: Vec<TicketRange> = Vec::new();
    let mut i: usize = 0;
    while i < tickets.len()
        invariant
            i <= tickets@.len(),
            runs@ == grouped(tickets@.take(i as int)),
        decreases tickets@.len() - i,
    {
        assert(tickets@.take(i + 1).drop_last() =~= tickets@.take(i as int));
        let ticket = tickets[i];
        let n = runs.len();
        if n > 0 && runs[n - 1].team_id == ticket.team_id {
            let run = runs[n - 1];
            runs.set(n - 1, TicketRange { team_id: run.team_id, first: run.first, last: ticket.index });
        } else {
            runs.push(
                TicketRange { team_id: ticket.team_id, first: ticket.index, last: ticket.index },
            );
        }
        i += 1;
    }
    assert(tickets@.take(i as int) =~= tickets@);
    runs
}

/// The first ticket of the team, if it holds one.
pub open spec fn first_ticket(tickets: Seq<RaffleTicket>, team: Id) -> Option<RaffleTicket>
    decreases tickets.len(),
{
    if tickets.len() == 0 {
        None
    } else {
        match first_ticket(tickets.drop_last(), team) {
            Some(ticket) => Some(ticket),
            None => if tickets.last().team_id == team {
                Some(tickets.last())
            } else {
                None
            },
        }
    }
}

/// The last ticket of the team, if it holds one.
pub open spec fn last_ticket(tickets: Seq<RaffleTicket>, team: Id) -> Option<RaffleTicket>
    decreases tickets.len(),
{
    if tickets.len() == 0 {
        None
    } else if tickets.last().team_id == team {
        Some(tickets.last())
    } else {
        last_ticket(tickets.drop_last(), team)
    }
}

/// How many tickets the team holds.
pub open spec fn tickets_held(tickets: Seq<RaffleTicket>, team: Id) -> nat
    decreases tickets.len(),
{
    if tickets.len() == 0 {
        0
    } else {
        tickets_held(tickets.drop_last(), team) + if tickets.last().team_id == team {
            1nat
        } else {
            0nat
        }
    }
}

/// What the tickets of one team come to.
#[derive(Clone, Copy, Debug, PartialEq, Eq, Structural)]
pub struct TeamTickets {
    /// How many tickets the team holds.
    pub count: usize,
    /// The index of its first ticket.
    pub first: Option<u64>,
    /// The index of its last ticket.
    pub last: Option<u64>,
    /// The score of its best ticket.
    pub best_score: Option<u64>,
}

/// The index of an optional ticket.
pub open spec fn index_of(ticket: Option<RaffleTicket>) -> Option<u64> {
    match ticket {
        Some(t) => Some(t.index),
        None => None,
    }
}

/// The score of an optional ticket.
pub open spec fn score_of(ticket: Option<RaffleTicket>) -> Option<u64> {
    match ticket {
        Some(t) => Some(t.score),
        None => None,
    }
}

/// Whether the lineup holds a team of this id and role: an earner for
/// `earner`, a supporter otherwise.
pub open spec fn has_role(lineup: Seq<TeamView>, team: Id, earner: bool) -> bool {
    exists|i: int|
        0 <= i < lineup.len() && (#[trigger] lineup[i]).id == team && if earner {
            lineup[i].status is Earner
        } else {
            lineup[i].status is Supporter
        }
}

/// Those of the ids that name a team of the role in the lineup, in order.
pub open spec fn of_role(lineup: Seq<TeamView>, ids: Seq<Id>, earner: bool) -> Seq<Id>
    decreases ids.len(),
{
    if ids.len() == 0 {
        Seq::empty()
    } else {
        let before = of_role(lineup, ids.drop_last(), earner);
        if has_role(lineup, ids.last(), earner) {
            before.push(ids.last())
        } else {
            before
        }
    }
}

impl Raffle {
    /// What the tickets of the team come to.
    pub fn team_tickets(&self, team_id: Id) -> (held: TeamTickets)
        ensures
            held.count == tickets_held(self@.tickets, team_id),
            held.first == index_of(first_ticket(self@.tickets, team_id)),
            held.last == index_of(last_ticket(self@.tickets, team_id)),
            held.best_score == score_of(best_ticket(self@.tickets, team_id)),
    {
        let mut count: usize = 0;
        let mut first: Option<u64> = None;
        let mut last: Option<u64> = None;
        let mut i: usize = 0;
        while i < self.tickets.len()
            invariant
                i <= self.tickets@.len(),
                count == tickets_held(self.tickets@.take(i as int), team_id),
                count <= i,
                first == index_of(first_ticket(self.tickets@.take(i as int), team_id)),
                last == index_of(last_ticket(self.tickets@.take(i as int), team_id)),
            decreases self.tickets@.len() - i,
        {
            assert(self.tickets@.take(i + 1).drop_last() =~= self.tickets@.take(i as int));
            if self.tickets[i].team_id == team_id {
                count += 1;
                if first.is_none() {
                    first = Some(self.tickets[i].index);
                }
                last = Some(self.tickets[i].index);
            }
            i += 1;
        }
        assert(self.tickets@.take(i as int) =~= self.tickets@);
        let best_score = match best_ticket_of(&self.tickets, team_id) {
            Some(ticket) => Some(ticket.score),
            None => None,
        };
        TeamTickets { count, first, last, best_score }
    }

    /// Whether the raffle holds a snapshot of this team in this role.
    pub fn snapshot_has_role(&self, team_id: Id, earner: bool) -> (yes: bool)
        ensures
            yes == has_role(self@.team_snapshots, team_id, earner),
    {
        let mut i: usize = 0;
        while i < self.team_snapshots.len()
            invariant
                i <= self.team_snapshots@.len(),
                forall|j: int|
                    0 <= j < i ==> !((#[trigger] self@.team_snapshots[j]).id == team_id && if earner {
                        self@.team_snapshots[j].status is Earner
                    } else {
                        self@.team_snapshots[j].status is Supporter
                    }),
            decreases self.team_snapshots@.len() - i,
        {
            let snapshot = &self.team_snapshots[i];
            assert(self@.team_snapshots[i as int] == snapshot@);
            let fits = if earner {
                snapshot.status.is_earner()
            } else {
                snapshot.status.is_supporter()
            };
            if snapshot.id == team_id && fits {
                return true;
            }
            i += 1;
        }
        false
    }

    /// Those of the ids that name a team of the role among the snapshots, in order.
    pub fn teams_of_role(&self, ids: &Vec<Id>, earner: bool) -> (kept: Vec<Id>)
        ensures
            kept@ == of_role(self@.team_snapshots, ids@, earner),
    {
        let mut kept: Vec<Id> = Vec::new();
        let mut i: usize = 0;
        while i < ids.len()
            invariant
                i <= ids@.len(),
                kept@ == of_role(self@.team_snapshots, ids@.take(i as int), earner),
            decreases ids@.len() - i,
        {
            assert(ids@.take(i + 1).drop_last() =~= ids@.take(i as int));
            if self.snapshot_has_role(ids[i], earner) {
                kept.push(ids[i]);
            }
            i += 1;
        }
        assert(ids@.take(i as int) =~= ids@);
        kept
    }

    /// The first snapshot of the team.
    pub fn snapshot(&self, team_id: Id) -> (found: Option<&TeamSnapshot>)
        ensures
            match found {
                Some(snapshot) => crate::model::position_of(
                    team_ids(self@.team_snapshots),
                    team_id,
                ) matches Some(i) && snapshot@ == self@.team_snapshots[i],
                None => crate::model::position_of(team_ids(self@.team_snapshots), team_id) is None,
            },
    {
        let mut i: usize = 0;
        while i < self.team_snapshots.len()
            invariant
                i <= self.team_snapshots@.len(),
                forall|j: int| 0 <= j < i ==> team_ids(self@.team_snapshots)[j] != team_id,
            decreases self.team_snapshots@.len() - i,
        {
            assert(self@.team_snapshots[i as int] == self.team_snapshots@[i as int]@);
            if self.team_snapshots[i].id == team_id {
                proof {
                    crate::model::lemma_position_of_first(
                        team_ids(self@.team_snapshots),
                        team_id,
                        i as int,
                    );
                }
                return Some(&self.team_snapshots[i]);
            }
            i += 1;
        }
        proof {
            crate::model::lemma_position_of_absent(team_ids(self@.team_snapshots), team_id);
        }
        None
    }
}

} // verus!
