use vstd::prelude::*;
use crate::account::{Account, AccountView};
use crate::service::{ExchangeCode, ExchangeError, ExchangeErrorView, exchange_code_view};
use crate::text::{chars_of, string_of};

verus! {

/// The step of the secondary exchange that failed.
#[derive(Clone, Copy, Debug, PartialEq, Eq, Structural)]
pub enum ExchangeStage {
    /// Requesting an exchange code with the primary credential.
    ExchangeCode,
    /// Trading the exchange code for the dependent service's credential.
    TokenMint,
}

/// The secondary exchange failed at `stage` for `cause`.
#[derive(Clone, Debug, PartialEq, Eq)]
pub struct DependentServiceAuthFailed {
    pub stage: ExchangeStage,
    pub cause: ExchangeError,
}

/// What the caller does next on behalf of a [`SecondaryExchange`].
#[derive(Debug)]
pub enum SecondaryAction {
    /// Request an exchange code, authenticated by this access token.
    RequestExchangeCode { access_token: String },
    /// Call the token endpoint, as the dependent service's application, with
    /// this grant type and token.
    Exchange { grant_type: String, token: String },
    /// The dependent service's credential.
    Resolved(Account),
    /// The exchange failed.
    Failed(DependentServiceAuthFailed),
}

pub enum SecondaryActionView {
    RequestExchangeCode { access_token: Seq<char> },
    Exchange { grant_type: Seq<char>, token: Seq<char> },
    Resolved(AccountView),
    Failed(ExchangeStage, ExchangeErrorView),
}

impl View for SecondaryAction {
    type V = SecondaryActionView;

    open spec fn view(&self) -> SecondaryActionView {
        match self {
            SecondaryAction::RequestExchangeCode { access_token } => SecondaryActionView::RequestExchangeCode {
                access_token: access_token@,
            },
            SecondaryAction::Exchange { grant_type, token } => SecondaryActionView::Exchange {
                grant_type: grant_type@,
                token: token@,
            },
            SecondaryAction::Resolved(a) => SecondaryActionView::Resolved(a@),
            SecondaryAction::Failed(f) => SecondaryActionView::Failed(f.stage, f.cause@),
        }
    }
}

/// The answer to the last [`SecondaryAction`].
#[derive(Debug)]
pub enum SecondaryEvent {
    /// The exchange-code endpoint's answer.
    CodeIssued(Result<ExchangeCode, ExchangeError>),
    /// The token endpoint's answer.
    Minted(Result<Account, ExchangeError>),
}

pub enum SecondaryEventView {
    CodeIssued(Result<(Seq<char>, Seq<char>, u32), ExchangeErrorView>),
    Minted(Result<AccountView, ExchangeErrorView>),
}

impl View for SecondaryEvent {
    type V = SecondaryEventView;

    open spec fn view(&self) -> SecondaryEventView {
        match self {
            SecondaryEvent::CodeIssued(Ok(c)) => SecondaryEventView::CodeIssued(
                Ok(exchange_code_view(*c)),
            ),
            SecondaryEvent::CodeIssued(Err(e)) => SecondaryEventView::CodeIssued(Err(e@)),
            SecondaryEvent::Minted(Ok(a)) => SecondaryEventView::Minted(Ok(a@)),
            SecondaryEvent::Minted(Err(e)) => SecondaryEventView::Minted(Err(e@)),
        }
    }
}

/// What a [`SecondaryExchange`] waits for.
#[derive(Clone, Copy, Debug, PartialEq, Eq, Structural)]
pub enum SecondaryStage {
    AwaitingCode,
    Minting,
    Done,
}

/// Obtains a credential for a dependent service from a resolved primary
/// credential: an exchange code first, then a token mint with it.
pub struct SecondaryExchange {
    pub stage: SecondaryStage,
}

/// The first step: request an exchange code with the primary access token.
pub open spec fn secondary_start_spec(primary: AccountView) -> (SecondaryStage, SecondaryActionView) {
    (
        SecondaryStage::AwaitingCode,
        SecondaryActionView::RequestExchangeCode { access_token: primary.access_token },
    )
}

/// `ev` answers what a secondary exchange at `stage` waits for.
pub open spec fn secondary_expects(stage: SecondaryStage, ev: SecondaryEventView) -> bool {
    match ev {
        SecondaryEventView::CodeIssued(_) => stage == SecondaryStage::AwaitingCode,
        SecondaryEventView::Minted(_) => stage == SecondaryStage::Minting,
    }
}

/// The next step once `ev` answers what the exchange waits for.
pub open spec fn secondary_advance_spec(ev: SecondaryEventView) -> (SecondaryStage, SecondaryActionView) {
    match ev {
        SecondaryEventView::CodeIssued(Ok(c)) => (
            SecondaryStage::Minting,
            SecondaryActionView::Exchange { grant_type: "exchange_code"@, token: c.0 },
        ),
        SecondaryEventView::CodeIssued(Err(e)) => (
            SecondaryStage::Done,
            SecondaryActionView::Failed(ExchangeStage::ExchangeCode, e),
        ),
        SecondaryEventView::Minted(Ok(a)) => (SecondaryStage::Done, SecondaryActionView::Resolved(a)),
        SecondaryEventView::Minted(Err(e)) => (
            SecondaryStage::Done,
            SecondaryActionView::Failed(ExchangeStage::TokenMint, e),
        ),
    }
}

impl SecondaryExchange {
    /// Begins the exchange for the resolved credential `primary`.
    pub fn start(primary: &Account) -> (r: (SecondaryExchange, SecondaryAction))
        ensures
            (r.0.stage, r.1@) == secondary_start_spec(primary@),
    {
        (
            SecondaryExchange { stage: SecondaryStage::AwaitingCode },
            SecondaryAction::RequestExchangeCode { access_token: primary.access_token.clone() },
        )
    }

    /// Whether `ev` answers what this exchange waits for.
    pub fn expects(&self, ev: &SecondaryEvent) -> (r: bool)
        ensures
            r == secondary_expects(self.stage, ev@),
    {
        match ev {
            SecondaryEvent::CodeIssued(_) => self.stage == SecondaryStage::AwaitingCode,
            SecondaryEvent::Minted(_) => self.stage == SecondaryStage::Minting,
        }
    }

    /// Takes the answer to the last action and gives the next one.
    pub fn advance(&mut self, ev: SecondaryEvent) -> (a: SecondaryAction)
        requires
            secondary_expects(old(self).stage, ev@),
        ensures
            (final(self).stage, a@) == secondary_advance_spec(ev@),
    {
        match ev {
            SecondaryEvent::CodeIssued(Ok(c)) => {
                self.stage = SecondaryStage::Minting;
                SecondaryAction::Exchange {
                    grant_type: string_of(&chars_of("exchange_code")),
                    token: c.code,
                }
            },
            SecondaryEvent::CodeIssued(Err(e)) => {
                self.stage = SecondaryStage::Done;
                SecondaryAction::Failed(
                    DependentServiceAuthFailed { stage: ExchangeStage::ExchangeCode, cause: e },
                )
            },
            SecondaryEvent::Minted(Ok(a)) => {
                self.stage = SecondaryStage::Done;
                SecondaryAction::Resolved(a)
            },
            SecondaryEvent::Minted(Err(e)) => {
                self.stage = SecondaryStage::Done;
                SecondaryAction::Failed(
                    DependentServiceAuthFailed { stage: ExchangeStage::TokenMint, cause: e },
                )
            },
        }
    }
}

/// The secondary exchange requests an exchange code before anything else,
/// then trades that code with grant type `exchange_code`; when the code
/// request fails, the exchange ends there and no mint is ever expected.
pub proof fn lemma_code_before_mint(
    primary: AccountView,
    code: (Seq<char>, Seq<char>, u32),
    e: ExchangeErrorView,
    later: SecondaryEventView,
)
    ensures
        secondary_start_spec(primary).1 is RequestExchangeCode,
        secondary_expects(
            secondary_start_spec(primary).0,
            SecondaryEventView::CodeIssued(Ok(code)),
        ),
        secondary_advance_spec(SecondaryEventView::CodeIssued(Ok(code))).1 == (
        SecondaryActionView::Exchange { grant_type: "exchange_code"@, token: code.0 }),
        secondary_advance_spec(SecondaryEventView::CodeIssued(Err(e))).1 == SecondaryActionView::Failed(
            ExchangeStage::ExchangeCode,
            e,
        ),
        !secondary_expects(secondary_advance_spec(SecondaryEventView::CodeIssued(Err(e))).0, later),
{
}

} // verus!
