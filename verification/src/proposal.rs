//! Funding proposals and their way from open to resolved.

use crate::error::BudgetError;
use crate::model::clone_text;
use crate::model::optional_text;
use crate::model::views;
use crate::model::Keyed;
use crate::model::NameMatches;
use crate::platform::Date;
use crate::platform::Id;
use crate::text::str_eq;
use vstd::prelude::*;

verus! {

#[derive(Clone, Copy, Debug, PartialEq, Eq, Structural)]
pub enum ProposalStatus {
    Open,
    Closed,
}

/// How a proposal ended.
#[derive(Clone, Copy, Debug, PartialEq, Eq, Structural)]
pub enum Resolution {
    Approved,
    Rejected,
    Invalid,
    Duplicate,
    Retracted,
}

#[derive(Clone, Copy, Debug, PartialEq, Eq, Structural)]
pub enum PaymentStatus {
    Unpaid,
    Paid,
}

/// An amount of one token, in the token's smallest unit.
#[derive(Debug)]
pub struct RequestAmount {
    pub token: String,
    pub amount: u64,
}

impl View for RequestAmount {
    type V = (Seq<char>, u64);

    open spec fn view(&self) -> (Seq<char>, u64) {
        (self.token@, self.amount)
    }
}

impl Clone for RequestAmount {
    fn clone(&self) -> (copy: Self)
        ensures
            copy@ == self@,
    {
        RequestAmount { token: self.token.clone(), amount: self.amount }
    }
}

/// A copy of the amounts.
pub fn clone_amounts(amounts: &Vec<RequestAmount>) -> (copy: Vec<RequestAmount>)
    ensures
        views(copy@) == views(amounts@),
{
    let mut copy: Vec<RequestAmount> = Vec::new();
    let mut i: usize = 0;
    while i < amounts.len()
        invariant
            i <= amounts@.len(),
            copy@.len() == i,
            views(copy@) == views(amounts@).take(i as int),
        decreases amounts@.len() - i,
    {
        let ghost before = copy@;
        let amount = amounts[i].clone();
        copy.push(amount);
        assert(views(copy@) =~= views(before).push(amount@));
        assert(views(copy@) =~= views(amounts@).take(i + 1));
        i += 1;
    }
    assert(views(amounts@).take(i as int) =~= views(amounts@));
    copy
}

/// What a budget request asks for.
#[derive(Debug)]
pub struct BudgetRequestDetails {
    /// The team that asks.
    pub team: Option<Id>,
    pub request_amounts: Vec<RequestAmount>,
    /// First day of the period that the request pays for.
    pub start_date: Option<Date>,
    /// Last day of that period.
    pub end_date: Option<Date>,
    pub payment_status: Option<PaymentStatus>,
}

/// The mathematical value of a [`BudgetRequestDetails`].
pub struct BudgetRequestDetailsView {
    pub team: Option<Id>,
    pub request_amounts: Seq<(Seq<char>, u64)>,
    pub start_date: Option<Date>,
    pub end_date: Option<Date>,
    pub payment_status: Option<PaymentStatus>,
}

impl View for BudgetRequestDetails {
    type V = BudgetRequestDetailsView;

    open spec fn view(&self) -> BudgetRequestDetailsView {
        BudgetRequestDetailsView {
            team: self.team,
            request_amounts: views(self.request_amounts@),
            start_date: self.start_date,
            end_date: self.end_date,
            payment_status: self.payment_status,
        }
    }
}

impl Clone for BudgetRequestDetails {
    fn clone(&self) -> (copy: Self)
        ensures
            copy@ == self@,
    {
        BudgetRequestDetails {
            team: self.team,
            request_amounts: clone_amounts(&self.request_amounts),
            start_date: self.start_date,
            end_date: self.end_date,
            payment_status: self.payment_status,
        }
    }
}

/// A period is in order unless it ends before it starts.
pub open spec fn period_in_order(start_date: Option<Date>, end_date: Option<Date>) -> bool {
    match (start_date, end_date) {
        (Some(start), Some(end)) => start <= end,
        _ => true,
    }
}

fn check_period(start_date: Option<Date>, end_date: Option<Date>) -> (ok: bool)
    ensures
        ok == period_in_order(start_date, end_date),
{
    match (start_date, end_date) {
        (Some(start), Some(end)) => start <= end,
        _ => true,
    }
}

impl BudgetRequestDetails {
    /// The details of a request; refused where the period ends before it starts.
    pub fn new(
        team: Option<Id>,
        request_amounts: Vec<RequestAmount>,
        start_date: Option<Date>,
        end_date: Option<Date>,
        payment_status: Option<PaymentStatus>,
    ) -> (made: Result<BudgetRequestDetails, BudgetError>)
        ensures
            match made {
                Ok(details) => {
                    &&& period_in_order(start_date, end_date)
                    &&& details@ == (BudgetRequestDetailsView {
                        team,
                        request_amounts: views(request_amounts@),
                        start_date,
                        end_date,
                        payment_status,
                    })
                },
                Err(why) => why == BudgetError::InvalidDateRange && !period_in_order(
                    start_date,
                    end_date,
                ),
            },
    {
        if !check_period(start_date, end_date) {
            return Err(BudgetError::InvalidDateRange);
        }
        Ok(BudgetRequestDetails { team, request_amounts, start_date, end_date, payment_status })
    }

    pub fn team(&self) -> (team: Option<Id>)
        ensures
            team == self@.team,
    {
        self.team
    }

    pub fn request_amounts(&self) -> (amounts: &Vec<RequestAmount>)
        ensures
            views(amounts@) == self@.request_amounts,
    {
        &self.request_amounts
    }

    pub fn start_date(&self) -> (date: Option<Date>)
        ensures
            date == self@.start_date,
    {
        self.start_date
    }

    pub fn end_date(&self) -> (date: Option<Date>)
        ensures
            date == self@.end_date,
    {
        self.end_date
    }

    pub fn payment_status(&self) -> (status: Option<PaymentStatus>)
        ensures
            status == self@.payment_status,
    {
        self.payment_status
    }

    /// Whether the request has been paid out.
    pub fn is_paid(&self) -> (paid: bool)
        ensures
            paid == (self@.payment_status == Some(PaymentStatus::Paid)),
    {
        match self.payment_status {
            Some(PaymentStatus::Paid) => true,
            _ => false,
        }
    }
}

/// Changes to the details of a budget request, as a script names them; what
/// is left out stays as it is. The team is given by name.
#[derive(Debug)]
pub struct BudgetRequestDetailsScript {
    pub team: Option<String>,
    pub request_amounts: Option<Vec<RequestAmount>>,
    pub start_date: Option<Date>,
    pub end_date: Option<Date>,
    pub payment_status: Option<PaymentStatus>,
}

/// The mathematical value of a [`BudgetRequestDetailsScript`].
pub struct BudgetRequestDetailsScriptView {
    pub team: Option<Seq<char>>,
    pub request_amounts: Option<Seq<(Seq<char>, u64)>>,
    pub start_date: Option<Date>,
    pub end_date: Option<Date>,
    pub payment_status: Option<PaymentStatus>,
}

impl View for BudgetRequestDetailsScript {
    type V = BudgetRequestDetailsScriptView;

    open spec fn view(&self) -> BudgetRequestDetailsScriptView {
        BudgetRequestDetailsScriptView {
            team: optional_text(self.team),
            request_amounts: match self.request_amounts {
                Some(amounts) => Some(views(amounts@)),
                None => None,
            },
            start_date: self.start_date,
            end_date: self.end_date,
            payment_status: self.payment_status,
        }
    }
}

/// Changes to a proposal; what is left out stays as it is.
#[derive(Debug)]
pub struct UpdateProposalDetails {
    pub title: Option<String>,
    pub url: Option<String>,
    pub budget_request_details: Option<BudgetRequestDetailsScript>,
    pub announced_at: Option<Date>,
    pub published_at: Option<Date>,
    pub resolved_at: Option<Date>,
}

/// The mathematical value of an [`UpdateProposalDetails`].
pub struct UpdateProposalDetailsView {
    pub title: Option<Seq<char>>,
    pub url: Option<Seq<char>>,
    pub budget_request_details: Option<BudgetRequestDetailsScriptView>,
    pub announced_at: Option<Date>,
    pub published_at: Option<Date>,
    pub resolved_at: Option<Date>,
}

impl View for UpdateProposalDetails {
    type V = UpdateProposalDetailsView;

    open spec fn view(&self) -> UpdateProposalDetailsView {
        UpdateProposalDetailsView {
            title: optional_text(self.title),
            url: optional_text(self.url),
            budget_request_details: match self.budget_request_details {
                Some(details) => Some(details@),
                None => None,
            },
            announced_at: self.announced_at,
            published_at: self.published_at,
            resolved_at: self.resolved_at,
        }
    }
}

/// `new` where it is given, else `old`.
pub open spec fn or_keep<T>(new: Option<T>, old: Option<T>) -> Option<T> {
    match new {
        Some(_) => new,
        None => old,
    }
}

/// The details of a request after the changes. `team` is the id that the
/// named team resolved to, if it did.
pub open spec fn revised_details(
    details: Option<BudgetRequestDetailsView>,
    changes: BudgetRequestDetailsScriptView,
    team: Option<Id>,
) -> BudgetRequestDetailsView {
    match details {
        Some(old) => BudgetRequestDetailsView {
            team: or_keep(team, old.team),
            request_amounts: match changes.request_amounts {
                Some(amounts) => amounts,
                None => old.request_amounts,
            },
            start_date: or_keep(changes.start_date, old.start_date),
            end_date: or_keep(changes.end_date, old.end_date),
            payment_status: or_keep(changes.payment_status, old.payment_status),
        },
        None => BudgetRequestDetailsView {
            team,
            request_amounts: match changes.request_amounts {
                Some(amounts) => amounts,
                None => Seq::empty(),
            },
            start_date: changes.start_date,
            end_date: changes.end_date,
            payment_status: changes.payment_status,
        },
    }
}

/// A request for funding, or another matter put to the teams.
#[derive(Debug)]
pub struct Proposal {
    pub id: Id,
    pub title: String,
    pub url: Option<String>,
    pub status: ProposalStatus,
    pub resolution: Option<Resolution>,
    pub budget_request_details: Option<BudgetRequestDetails>,
    pub announced_at: Option<Date>,
    pub published_at: Option<Date>,
    pub resolved_at: Option<Date>,
    pub is_historical: bool,
    /// The epoch in which the proposal was made.
    pub epoch_id: Id,
}

/// The mathematical value of a [`Proposal`].
pub struct ProposalView {
    pub id: Id,
    pub title: Seq<char>,
    pub url: Option<Seq<char>>,
    pub status: ProposalStatus,
    pub resolution: Option<Resolution>,
    pub budget_request_details: Option<BudgetRequestDetailsView>,
    pub announced_at: Option<Date>,
    pub published_at: Option<Date>,
    pub resolved_at: Option<Date>,
    pub is_historical: bool,
    pub epoch_id: Id,
}

/// The view of optional details.
pub open spec fn optional_details(details: Option<BudgetRequestDetails>) -> Option<
    BudgetRequestDetailsView,
> {
    match details {
        Some(d) => Some(d@),
        None => None,
    }
}

impl View for Proposal {
    type V = ProposalView;

    open spec fn view(&self) -> ProposalView {
        ProposalView {
            id: self.id,
            title: self.title@,
            url: optional_text(self.url),
            status: self.status,
            resolution: self.resolution,
            budget_request_details: optional_details(self.budget_request_details),
            announced_at: self.announced_at,
            published_at: self.published_at,
            resolved_at: self.resolved_at,
            is_historical: self.is_historical,
            epoch_id: self.epoch_id,
        }
    }
}

impl NameMatches for Proposal {
    open spec fn spec_name(&self) -> Seq<char> {
        self.title@
    }

    fn name_matches(&self, name: &str) -> (yes: bool) {
        str_eq(self.title.as_str(), name)
    }
}

impl Keyed for Proposal {
    open spec fn spec_key(&self) -> Id {
        self.id
    }

    fn key(&self) -> (id: Id) {
        self.id
    }
}

impl Clone for Proposal {
    fn clone(&self) -> (copy: Self)
        ensures
            copy@ == self@,
    {
        Proposal {
            id: self.id,
            title: self.title.clone(),
            url: clone_text(&self.url),
            status: self.status,
            resolution: self.resolution,
            budget_request_details: match &self.budget_request_details {
                Some(details) => Some(details.clone()),
                None => None,
            },
            announced_at: self.announced_at,
            published_at: self.published_at,
            resolved_at: self.resolved_at,
            is_historical: self.is_historical,
            epoch_id: self.epoch_id,
        }
    }
}

/// Whether the proposal's budget request has been paid out.
pub open spec fn paid(proposal: ProposalView) -> bool {
    proposal.budget_request_details matches Some(details) && details.payment_status == Some(
        PaymentStatus::Paid,
    )
}

/// Whether the proposal still awaits a decision: it is open, has no
/// resolution and has not been paid.
pub open spec fn actionable(proposal: ProposalView) -> bool {
    proposal.status == ProposalStatus::Open && proposal.resolution is None && !paid(proposal)
}

/// Why the proposal takes no resolution, if it takes none: it is closed, it
/// is paid, or it has one.
pub open spec fn resolve_rejection(proposal: ProposalView) -> Option<BudgetError> {
    if proposal.status == ProposalStatus::Closed {
        Some(BudgetError::ProposalAlreadyClosed)
    } else if paid(proposal) {
        Some(BudgetError::ProposalAlreadyPaid)
    } else if proposal.resolution is Some {
        Some(BudgetError::ResolutionAlreadySet)
    } else {
        None
    }
}

/// Why the proposal cannot be closed with this resolution, if it cannot: it
/// is closed, it is paid, or it has another resolution.
pub open spec fn close_rejection(proposal: ProposalView, resolution: Resolution) -> Option<
    BudgetError,
> {
    if proposal.status == ProposalStatus::Closed {
        Some(BudgetError::ProposalAlreadyClosed)
    } else if paid(proposal) {
        Some(BudgetError::ProposalAlreadyPaid)
    } else if proposal.resolution is Some && proposal.resolution != Some(resolution) {
        Some(BudgetError::ResolutionAlreadySet)
    } else {
        None
    }
}

/// The proposal after the changes. `team` is the id that the team named in
/// the changes resolved to, if it did.
pub open spec fn revised(proposal: ProposalView, changes: UpdateProposalDetailsView, team: Option<Id>) -> ProposalView {
    ProposalView {
        title: match changes.title {
            Some(title) => title,
            None => proposal.title,
        },
        url: or_keep(changes.url, proposal.url),
        budget_request_details: match changes.budget_request_details {
            Some(details) => Some(revised_details(proposal.budget_request_details, details, team)),
            None => proposal.budget_request_details,
        },
        announced_at: or_keep(changes.announced_at, proposal.announced_at),
        published_at: or_keep(changes.published_at, proposal.published_at),
        resolved_at: or_keep(changes.resolved_at, proposal.resolved_at),
        ..proposal
    }
}

/// Whether the changes are refused: they would leave the request with a
/// period that ends before it starts.
pub open spec fn update_refused(proposal: ProposalView, changes: UpdateProposalDetailsView, team: Option<Id>) -> bool {
    revised(proposal, changes, team).budget_request_details matches Some(details)
        && changes.budget_request_details is Some && !period_in_order(
        details.start_date,
        details.end_date,
    )
}

fn pick<T: Copy>(new: Option<T>, old: Option<T>) -> (out: Option<T>)
    ensures
        out == or_keep(new, old),
{
    match new {
        Some(_) => new,
        None => old,
    }
}

impl Proposal {
    /// The proposal as it is made: open and without a resolution.
    pub open spec fn spec_new(
        id: Id,
        epoch_id: Id,
        title: Seq<char>,
        url: Option<Seq<char>>,
        budget_request_details: Option<BudgetRequestDetailsView>,
        announced_at: Option<Date>,
        published_at: Option<Date>,
        is_historical: Option<bool>,
    ) -> ProposalView {
        ProposalView {
            id,
            title,
            url,
            status: ProposalStatus::Open,
            resolution: None,
            budget_request_details,
            announced_at,
            published_at,
            resolved_at: None,
            is_historical: is_historical == Some(true),
            epoch_id,
        }
    }

    /// A new proposal in the given epoch.
    pub fn new(
        id: Id,
        epoch_id: Id,
        title: String,
        url: Option<String>,
        budget_request_details: Option<BudgetRequestDetails>,
        announced_at: Option<Date>,
        published_at: Option<Date>,
        is_historical: Option<bool>,
    ) -> (proposal: Proposal)
        ensures
            proposal@ == Self::spec_new(
                id,
                epoch_id,
                title@,
                optional_text(url),
                optional_details(budget_request_details),
                announced_at,
                published_at,
                is_historical,
            ),
    {
        Proposal {
            id,
            title,
            url,
            status: ProposalStatus::Open,
            resolution: None,
            budget_request_details,
            announced_at,
            published_at,
            resolved_at: None,
            is_historical: match is_historical {
                Some(flag) => flag,
                None => false,
            },
            epoch_id,
        }
    }

    pub fn id(&self) -> (id: Id)
        ensures
            id == self@.id,
    {
        self.id
    }

    pub fn epoch_id(&self) -> (id: Id)
        ensures
            id == self@.epoch_id,
    {
        self.epoch_id
    }

    pub fn title(&self) -> (title: &str)
        ensures
            title@ == self@.title,
    {
        self.title.as_str()
    }

    pub fn url(&self) -> (url: Option<&str>)
        ensures
            match url {
                Some(u) => self@.url == Some(u@),
                None => self@.url is None,
            },
    {
        match &self.url {
            Some(u) => Some(u.as_str()),
            None => None,
        }
    }

    pub fn status(&self) -> (status: ProposalStatus)
        ensures
            status == self@.status,
    {
        self.status
    }

    pub fn resolution(&self) -> (resolution: Option<Resolution>)
        ensures
            resolution == self@.resolution,
    {
        self.resolution
    }

    pub fn budget_request_details(&self) -> (details: Option<&BudgetRequestDetails>)
        ensures
            match details {
                Some(d) => self@.budget_request_details == Some(d@),
                None => self@.budget_request_details is None,
            },
    {
        self.budget_request_details.as_ref()
    }

    pub fn announced_at(&self) -> (date: Option<Date>)
        ensures
            date == self@.announced_at,
    {
        self.announced_at
    }

    pub fn published_at(&self) -> (date: Option<Date>)
        ensures
            date == self@.published_at,
    {
        self.published_at
    }

    pub fn resolved_at(&self) -> (date: Option<Date>)
        ensures
            date == self@.resolved_at,
    {
        self.resolved_at
    }

    pub fn is_historical(&self) -> (yes: bool)
        ensures
            yes == self@.is_historical,
    {
        self.is_historical
    }

    pub fn is_closed(&self) -> (yes: bool)
        ensures
            yes == (self@.status == ProposalStatus::Closed),
    {
        self.status == ProposalStatus::Closed
    }

    /// Whether the budget request has been paid out.
    pub fn is_paid(&self) -> (yes: bool)
        ensures
            yes == paid(self@),
    {
        match &self.budget_request_details {
            Some(details) => details.is_paid(),
            None => false,
        }
    }

    /// Whether the proposal still awaits a decision.
    pub fn is_actionable(&self) -> (yes: bool)
        ensures
            yes == actionable(self@),
    {
        self.status == ProposalStatus::Open && self.resolution.is_none() && !self.is_paid()
    }


    /// Why the proposal takes no resolution, if it takes none.
    pub fn check_resolve(&self) -> (why: Option<BudgetError>)
        ensures
            why == resolve_rejection(self@),
    {
        if self.status == ProposalStatus::Closed {
            Some(BudgetError::ProposalAlreadyClosed)
        } else if self.is_paid() {
            Some(BudgetError::ProposalAlreadyPaid)
        } else if self.resolution.is_some() {
            Some(BudgetError::ResolutionAlreadySet)
        } else {
            None
        }
    }

    /// Why the proposal cannot be closed with this resolution, if it cannot.
    pub fn check_close(&self, resolution: Resolution) -> (why: Option<BudgetError>)
        ensures
            why == close_rejection(self@, resolution),
    {
        if self.status == ProposalStatus::Closed {
            Some(BudgetError::ProposalAlreadyClosed)
        } else if self.is_paid() {
            Some(BudgetError::ProposalAlreadyPaid)
        } else {
            match self.resolution {
                Some(present) => if present == resolution {
                    None
                } else {
                    Some(BudgetError::ResolutionAlreadySet)
                },
                None => None,
            }
        }
    }

    /// Gives the open, unpaid and unresolved proposal its resolution.
    pub fn resolve(&mut self, resolution: Resolution) -> (done: Result<(), BudgetError>)
        ensures
            match done {
                Ok(()) => {
                    &&& resolve_rejection(old(self)@) is None
                    &&& final(self)@ == (ProposalView { resolution: Some(resolution), ..old(self)@ })
                },
                Err(why) => {
                    &&& resolve_rejection(old(self)@) == Some(why)
                    &&& *final(self) == *old(self)
                },
            },
    {
        match self.check_resolve() {
            Some(why) => Err(why),
            None => {
                self.resolution = Some(resolution);
                Ok(())
            },
        }
    }

    /// Resolves the proposal as approved.
    pub fn approve(&mut self) -> (done: Result<(), BudgetError>)
        ensures
            match done {
                Ok(()) => {
                    &&& resolve_rejection(old(self)@) is None
                    &&& final(self)@ == (ProposalView {
                        resolution: Some(Resolution::Approved),
                        ..old(self)@
                    })
                },
                Err(why) => {
                    &&& resolve_rejection(old(self)@) == Some(why)
                    &&& *final(self) == *old(self)
                },
            },
    {
        self.resolve(Resolution::Approved)
    }

    /// Resolves the proposal as rejected.
    pub fn reject(&mut self) -> (done: Result<(), BudgetError>)
        ensures
            match done {
                Ok(()) => {
                    &&& resolve_rejection(old(self)@) is None
                    &&& final(self)@ == (ProposalView {
                        resolution: Some(Resolution::Rejected),
                        ..old(self)@
                    })
                },
                Err(why) => {
                    &&& resolve_rejection(old(self)@) == Some(why)
                    &&& *final(self) == *old(self)
                },
            },
    {
        self.resolve(Resolution::Rejected)
    }

    /// Closes the proposal with a resolution. A proposal that was resolved by
    /// a vote is closed with that same resolution only.
    pub fn close(&mut self, resolution: Resolution) -> (done: Result<(), BudgetError>)
        ensures
            match done {
                Ok(()) => {
                    &&& close_rejection(old(self)@, resolution) is None
                    &&& final(self)@ == (ProposalView {
                        resolution: Some(resolution),
                        status: ProposalStatus::Closed,
                        ..old(self)@
                    })
                },
                Err(why) => {
                    &&& close_rejection(old(self)@, resolution) == Some(why)
                    &&& *final(self) == *old(self)
                },
            },
    {
        match self.check_close(resolution) {
            Some(why) => Err(why),
            None => {
                self.resolution = Some(resolution);
                self.status = ProposalStatus::Closed;
                Ok(())
            },
        }
    }

    pub fn set_resolved_at(&mut self, date: Option<Date>)
        ensures
            final(self)@ == (ProposalView { resolved_at: date, ..old(self)@ }),
    {
        self.resolved_at = date;
    }

    /// Applies the changes; what they leave out stays. Refused, with nothing
    /// changed, where the request's period would end before it starts.
    pub fn update(&mut self, updates: UpdateProposalDetails, team_id: Option<Id>) -> (done: Result<
        (),
        BudgetError,
    >)
        ensures
            match done {
                Ok(()) => {
                    &&& !update_refused(old(self)@, updates@, team_id)
                    &&& final(self)@ == revised(old(self)@, updates@, team_id)
                },
                Err(why) => {
                    &&& update_refused(old(self)@, updates@, team_id)
                    &&& why == BudgetError::InvalidDateRange
                    &&& *final(self) == *old(self)
                },
            },
    {
        let UpdateProposalDetails {
            title,
            url,
            budget_request_details,
            announced_at,
            published_at,
            resolved_at,
        } = updates;
        let new_details = match budget_request_details {
            Some(changes) => {
                let BudgetRequestDetailsScript {
                    team: _,
                    request_amounts,
                    start_date,
                    end_date,
                    payment_status,
                } = changes;
                let details = match &self.budget_request_details {
                    Some(old) => BudgetRequestDetails {
                        team: pick(team_id, old.team),
                        request_amounts: match request_amounts {
                            Some(amounts) => amounts,
                            None => clone_amounts(&old.request_amounts),
                        },
                        start_date: pick(start_date, old.start_date),
                        end_date: pick(end_date, old.end_date),
                        payment_status: pick(payment_status, old.payment_status),
                    },
                    None => BudgetRequestDetails {
                        team: team_id,
                        request_amounts: match request_amounts {
                            Some(amounts) => amounts,
                            None => Vec::new(),
                        },
                        start_date,
                        end_date,
                        payment_status,
                    },
                };
                assert(details@.request_amounts =~= revised_details(
                    self@.budget_request_details,
                    changes@,
                    team_id,
                ).request_amounts);
                if !check_period(details.start_date, details.end_date) {
                    return Err(BudgetError::InvalidDateRange);
                }
                Some(details)
            },
            None => None,
        };
        match title {
            Some(t) => {
                self.title = t;
            },
            None => {},
        }
        match url {
            Some(u) => {
                self.url = Some(u);
            },
            None => {},
        }
        match new_details {
            Some(details) => {
                self.budget_request_details = Some(details);
            },
            None => {},
        }
        self.announced_at = pick(announced_at, self.announced_at);
        self.published_at = pick(published_at, self.published_at);
        self.resolved_at = pick(resolved_at, self.resolved_at);
        Ok(())
    }
}

} // verus!
