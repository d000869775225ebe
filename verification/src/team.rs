//! Teams and the lottery weight that their status gives them.

use crate::error::BudgetError;
use crate::model::Keyed;
use crate::model::NameMatches;
use crate::platform::Id;
use crate::text::str_eq;
use vstd::prelude::*;

verus! {

/// Months over which an earner's revenue is averaged.
pub const REVENUE_MONTHS: u128 = 3;

/// Revenue that one square unit of lottery weight stands for.
pub const REVENUE_SCALE: u128 = 1000;

/// An earner reports at least one and at most this many monthly samples.
pub const MAX_REVENUE_SAMPLES: usize = 3;

/// Tickets of a supporter.
pub const SUPPORTER_TICKETS: u64 = 1;

/// What a team is to the lottery.
#[derive(Debug)]
pub enum TeamStatus {
    /// A revenue earner, with its trailing monthly revenue, oldest first.
    Earner { trailing_monthly_revenue: Vec<u64> },
    Supporter,
    Inactive,
}

/// The mathematical value of a [`TeamStatus`].
pub enum TeamStatusView {
    Earner { trailing_monthly_revenue: Seq<u64> },
    Supporter,
    Inactive,
}

impl View for TeamStatus {
    type V = TeamStatusView;

    open spec fn view(&self) -> TeamStatusView {
        match self {
            TeamStatus::Earner { trailing_monthly_revenue } => TeamStatusView::Earner {
                trailing_monthly_revenue: trailing_monthly_revenue@,
            },
            TeamStatus::Supporter => TeamStatusView::Supporter,
            TeamStatus::Inactive => TeamStatusView::Inactive,
        }
    }
}

/// Sum of the revenue samples.
pub open spec fn revenue_total(revenue: Seq<u64>) -> nat
    decreases revenue.len(),
{
    if revenue.len() == 0 {
        0
    } else {
        revenue_total(revenue.drop_last()) + revenue.last() as nat
    }
}

/// `root` is the integer square root of `n`, rounded down.
pub open spec fn is_square_root(n: nat, root: nat) -> bool {
    root * root <= n < (root + 1) * (root + 1)
}

/// The integer square root of `n`, rounded down.
pub open spec fn square_root(n: nat) -> nat
    decreases n,
{
    if n == 0 {
        0
    } else {
        let below = square_root((n - 1) as nat);
        if (below + 1) * (below + 1) <= n {
            below + 1
        } else {
            below
        }
    }
}

/// [`square_root`] is the one number that [`is_square_root`] accepts.
pub proof fn lemma_square_root(n: nat)
    ensures
        is_square_root(n, square_root(n)),
        forall|root: nat| is_square_root(n, root) ==> root == square_root(n),
    decreases n,
{
    if n > 0 {
        lemma_square_root((n - 1) as nat);
    }
    let s = square_root(n);
    assert(is_square_root(n, s)) by (nonlinear_arith)
        requires
            n == 0 ==> s == 0,
            n > 0 ==> {
                let below = square_root((n - 1) as nat);
                &&& below * below <= n - 1 < (below + 1) * (below + 1)
                &&& s == if (below + 1) * (below + 1) <= n { below + 1 } else { below }
            },
    ;
    assert forall|root: nat| is_square_root(n, root) implies root == s by {
        lemma_square_root_unique(n, root, s);
    }
}

/// Two numbers that [`is_square_root`] accepts for one `n` are equal.
pub proof fn lemma_square_root_unique(n: nat, a: nat, b: nat)
    requires
        is_square_root(n, a),
        is_square_root(n, b),
    ensures
        a == b,
{
    assert(a == b) by (nonlinear_arith)
        requires
            a * a <= n < (a + 1) * (a + 1),
            b * b <= n < (b + 1) * (b + 1),
    ;
}

/// Tickets that an earner with this revenue holds: the square root of the
/// quarter's monthly average, counted in thousands, and at least one.
pub open spec fn earner_tickets(revenue: Seq<u64>) -> nat {
    let weight = square_root(revenue_total(revenue) / (REVENUE_MONTHS * REVENUE_SCALE) as nat);
    if weight < 1 {
        1
    } else {
        weight
    }
}

/// Tickets that a team of this status holds in a raffle.
pub open spec fn ticket_count(status: TeamStatusView) -> nat {
    match status {
        TeamStatusView::Earner { trailing_monthly_revenue } => earner_tickets(
            trailing_monthly_revenue,
        ),
        TeamStatusView::Supporter => SUPPORTER_TICKETS as nat,
        TeamStatusView::Inactive => 0,
    }
}

/// An earner's revenue has between one and three samples.
pub open spec fn valid_revenue(revenue: Seq<u64>) -> bool {
    1 <= revenue.len() <= MAX_REVENUE_SAMPLES
}

/// A status that a team may take.
pub open spec fn valid_status(status: TeamStatusView) -> bool {
    status matches TeamStatusView::Earner { trailing_monthly_revenue } ==> valid_revenue(
        trailing_monthly_revenue,
    )
}

/// The square root of a larger number is no smaller.
pub proof fn lemma_square_root_monotonic(a: nat, b: nat)
    requires
        a <= b,
    ensures
        square_root(a) <= square_root(b),
    decreases b,
{
    if a < b {
        lemma_square_root_monotonic(a, (b - 1) as nat);
    }
}

/// More revenue never means fewer tickets, and an earner always holds one.
pub proof fn law_tickets_grow_with_revenue(less: Seq<u64>, more: Seq<u64>)
    requires
        revenue_total(less) <= revenue_total(more),
    ensures
        1 <= earner_tickets(less) <= earner_tickets(more),
{
    let scale = (REVENUE_MONTHS * REVENUE_SCALE) as nat;
    assert(revenue_total(less) / scale <= revenue_total(more) / scale) by (nonlinear_arith)
        requires
            revenue_total(less) <= revenue_total(more),
            scale == 3000,
    ;
    lemma_square_root_monotonic(revenue_total(less) / scale, revenue_total(more) / scale);
}

/// A total of `k` samples is at most `k` times the largest sample there can be.
pub proof fn lemma_revenue_total_bound(revenue: Seq<u64>)
    ensures
        revenue_total(revenue) <= revenue.len() * 0xffff_ffff_ffff_ffff,
    decreases revenue.len(),
{
    if revenue.len() > 0 {
        lemma_revenue_total_bound(revenue.drop_last());
        assert(revenue_total(revenue) <= revenue.len() * 0xffff_ffff_ffff_ffff) by (nonlinear_arith)
            requires
                revenue_total(revenue) == revenue_total(revenue.drop_last()) + revenue.last() as nat,
                revenue.last() <= 0xffff_ffff_ffff_ffff,
                revenue.drop_last().len() == revenue.len() - 1,
                revenue_total(revenue.drop_last()) <= revenue.drop_last().len()
                    * 0xffff_ffff_ffff_ffff,
        ;
    }
}

/// The integer square root of `n`, rounded down.
pub fn integer_sqrt(n: u128) -> (root: u64)
    ensures
        root == square_root(n as nat),
{
    let mut low: u128 = 0;
    let mut high: u128 = 0x1_0000_0000_0000_0000;
    assert(0x1_0000_0000_0000_0000u128 * 0x1_0000_0000_0000_0000u128 > n) by (nonlinear_arith);
    while high - low > 1
        invariant
            low < high <= 0x1_0000_0000_0000_0000,
            low * low <= n,
            high * high > n,
        decreases high - low,
    {
        let mid: u128 = low + (high - low) / 2;
        assert(mid * mid < 0x1_0000_0000_0000_0000 * 0x1_0000_0000_0000_0000) by (nonlinear_arith)
            requires
                mid < 0x1_0000_0000_0000_0000,
        ;
        assert(0x1_0000_0000_0000_0000 * 0x1_0000_0000_0000_0000 == 0x1_0000_0000_0000_0000_0000_0000_0000_0000)
            by (nonlinear_arith);
        if mid <= n / mid {
            proof {
                assert(mid * mid <= n) by (nonlinear_arith)
                    requires
                        mid > 0,
                        mid <= n / mid,
                ;
            }
            low = mid;
        } else {
            proof {
                assert(mid * mid > n) by (nonlinear_arith)
                    requires
                        mid > 0,
                        mid > n / mid,
                        low * low <= n,
                        low < mid,
                ;
            }
            high = mid;
        }
    }
    proof {
        assert(is_square_root(n as nat, low as nat));
        lemma_square_root(n as nat);
    }
    low as u64
}

impl TeamStatus {
    /// Why this status cannot be taken, if it cannot.
    pub open spec fn spec_rejection(status: TeamStatusView) -> Option<BudgetError> {
        match status {
            TeamStatusView::Earner { trailing_monthly_revenue } => {
                if trailing_monthly_revenue.len() == 0 {
                    Some(BudgetError::EmptyRevenue)
                } else if trailing_monthly_revenue.len() > MAX_REVENUE_SAMPLES {
                    Some(BudgetError::TooManyRevenueSamples)
                } else {
                    None
                }
            },
            _ => None,
        }
    }

    /// Why this status cannot be taken, if it cannot.
    pub fn rejection(&self) -> (why: Option<BudgetError>)
        ensures
            why == Self::spec_rejection(self@),
            why is None <==> valid_status(self@),
    {
        match self {
            TeamStatus::Earner { trailing_monthly_revenue } => {
                if trailing_monthly_revenue.len() == 0 {
                    Some(BudgetError::EmptyRevenue)
                } else if trailing_monthly_revenue.len() > MAX_REVENUE_SAMPLES {
                    Some(BudgetError::TooManyRevenueSamples)
                } else {
                    None
                }
            },
            _ => None,
        }
    }

    pub fn is_earner(&self) -> (yes: bool)
        ensures
            yes == (self@ is Earner),
    {
        match self {
            TeamStatus::Earner { .. } => true,
            _ => false,
        }
    }

    pub fn is_supporter(&self) -> (yes: bool)
        ensures
            yes == (self@ is Supporter),
    {
        match self {
            TeamStatus::Supporter => true,
            _ => false,
        }
    }

    pub fn is_inactive(&self) -> (yes: bool)
        ensures
            yes == (self@ is Inactive),
    {
        match self {
            TeamStatus::Inactive => true,
            _ => false,
        }
    }

    /// Tickets that a team of this status holds in a raffle.
    pub fn ticket_count(&self) -> (count: u64)
        ensures
            count == ticket_count(self@),
    {
        match self {
            TeamStatus::Earner { trailing_monthly_revenue } => {
                let mut total: u128 = 0;
                let mut i: usize = 0;
                while i < trailing_monthly_revenue.len()
                    invariant
                        i <= trailing_monthly_revenue@.len(),
                        total == revenue_total(trailing_monthly_revenue@.take(i as int)),
                    decreases trailing_monthly_revenue@.len() - i,
                {
                    proof {
                        let next = trailing_monthly_revenue@.take(i + 1);
                        assert(next.drop_last() =~= trailing_monthly_revenue@.take(i as int));
                        lemma_revenue_total_bound(next);
                        assert(next.len() * 0xffff_ffff_ffff_ffff <= 0xffff_ffff_ffff_ffff
                            * 0xffff_ffff_ffff_ffff) by (nonlinear_arith)
                            requires
                                next.len() <= 0xffff_ffff_ffff_ffff,
                        ;
                    }
                    total = total + trailing_monthly_revenue[i] as u128;
                    i += 1;
                }
                assert(trailing_monthly_revenue@.take(i as int) =~= trailing_monthly_revenue@);
                let weight = integer_sqrt(total / (REVENUE_MONTHS * REVENUE_SCALE));
                if weight < 1 {
                    1
                } else {
                    weight
                }
            },
            TeamStatus::Supporter => SUPPORTER_TICKETS,
            TeamStatus::Inactive => 0,
        }
    }
}

impl Clone for TeamStatus {
    fn clone(&self) -> (copy: Self)
        ensures
            copy@ == self@,
    {
        match self {
            TeamStatus::Earner { trailing_monthly_revenue } => {
                let revenue = trailing_monthly_revenue.clone();
                assert(revenue@ =~= trailing_monthly_revenue@);
                TeamStatus::Earner { trailing_monthly_revenue: revenue }
            },
            TeamStatus::Supporter => TeamStatus::Supporter,
            TeamStatus::Inactive => TeamStatus::Inactive,
        }
    }
}

/// A participant of the funding process.
#[derive(Debug)]
pub struct Team {
    pub id: Id,
    pub name: String,
    pub representative: String,
    pub status: TeamStatus,
}

/// The mathematical value of a [`Team`].
pub struct TeamView {
    pub id: Id,
    pub name: Seq<char>,
    pub representative: Seq<char>,
    pub status: TeamStatusView,
}

impl View for Team {
    type V = TeamView;

    open spec fn view(&self) -> TeamView {
        TeamView {
            id: self.id,
            name: self.name@,
            representative: self.representative@,
            status: self.status@,
        }
    }
}

impl Clone for Team {
    fn clone(&self) -> (copy: Self)
        ensures
            copy@ == self@,
    {
        Team {
            id: self.id,
            name: self.name.clone(),
            representative: self.representative.clone(),
            status: self.status.clone(),
        }
    }
}

impl NameMatches for Team {
    open spec fn spec_name(&self) -> Seq<char> {
        self.name@
    }

    fn name_matches(&self, name: &str) -> (yes: bool) {
        str_eq(self.name.as_str(), name)
    }
}

impl Keyed for Team {
    open spec fn spec_key(&self) -> Id {
        self.id
    }

    fn key(&self) -> (id: Id) {
        self.id
    }
}

impl Team {
    /// The status that a new team starts with: an earner where revenue is
    /// reported, a supporter where none is.
    pub open spec fn initial_status(revenue: Option<Seq<u64>>) -> TeamStatusView {
        match revenue {
            Some(samples) => TeamStatusView::Earner { trailing_monthly_revenue: samples },
            None => TeamStatusView::Supporter,
        }
    }

    /// A team under the given id. Reported revenue makes it an earner and must
    /// hold one to three samples; without revenue it is a supporter.
    pub fn new(
        id: Id,
        name: String,
        representative: String,
        trailing_monthly_revenue: Option<Vec<u64>>,
    ) -> (made: Result<Team, BudgetError>)
        ensures
            match made {
                Ok(team) => {
                    &&& valid_status(team@.status)
                    &&& team@ == (TeamView {
                        id,
                        name: name@,
                        representative: representative@,
                        status: Self::initial_status(
                            match trailing_monthly_revenue {
                                Some(samples) => Some(samples@),
                                None => None,
                            },
                        ),
                    })
                },
                Err(why) => trailing_monthly_revenue matches Some(samples)
                    && TeamStatus::spec_rejection(
                    TeamStatusView::Earner { trailing_monthly_revenue: samples@ },
                ) == Some(why),
            },
    {
        let status = match trailing_monthly_revenue {
            Some(samples) => TeamStatus::Earner { trailing_monthly_revenue: samples },
            None => TeamStatus::Supporter,
        };
        match status.rejection() {
            Some(why) => Err(why),
            None => Ok(Team { id, name, representative, status }),
        }
    }

    /// Replaces the status, unless the new one is an earner without valid revenue.
    pub fn set_status(&mut self, new_status: TeamStatus) -> (done: Result<(), BudgetError>)
        ensures
            match done {
                Ok(()) => {
                    &&& valid_status(new_status@)
                    &&& final(self)@ == (TeamView { status: new_status@, ..old(self)@ })
                },
                Err(why) => {
                    &&& TeamStatus::spec_rejection(new_status@) == Some(why)
                    &&& *final(self) == *old(self)
                },
            },
    {
        match new_status.rejection() {
            Some(why) => Err(why),
            None => {
                self.status = new_status;
                Ok(())
            },
        }
    }

    pub fn id(&self) -> (id: Id)
        ensures
            id == self@.id,
    {
        self.id
    }

    pub fn name(&self) -> (name: &str)
        ensures
            name@ == self@.name,
    {
        self.name.as_str()
    }

    pub fn representative(&self) -> (representative: &str)
        ensures
            representative@ == self@.representative,
    {
        self.representative.as_str()
    }

    pub fn status(&self) -> (status: &TeamStatus)
        ensures
            status@ == self@.status,
    {
        &self.status
    }

    /// Whether the team takes part in raffles.
    pub fn is_active(&self) -> (yes: bool)
        ensures
            yes == !(self@.status is Inactive),
    {
        !self.status.is_inactive()
    }

}

} // verus!
