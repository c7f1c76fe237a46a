use vstd::prelude::*;
use vstd::string::StringExecFns;

use crate::address_book::{Action, ActionView};

verus! {

/// What the contact provider hands back: a name, an email split at its `@`,
/// and a phone number.
#[derive(Debug, Clone)]
pub struct FakeContactData {
    pub name: String,
    pub email_u: String,
    pub email_d: String,
    pub phone_h: String,
}

/// The contact provider could not deliver.
#[derive(Debug, Clone, Copy)]
pub struct ProviderError;

/// Work that a middleware asks for, performed outside the store once
/// `dispatch` has returned.
#[derive(Debug, Clone)]
pub enum Effect {
    /// Record the action as it reached the middleware.
    Log(Action),
    /// Fetch a contact from the provider, then hand the reply back to the
    /// store as a fresh dispatch.
    FetchContact,
}

pub enum EffectView {
    Log(ActionView),
    FetchContact,
}

impl View for Effect {
    type V = EffectView;

    open spec fn view(&self) -> EffectView {
        match self {
            Effect::Log(a) => EffectView::Log(a@),
            Effect::FetchContact => EffectView::FetchContact,
        }
    }
}

/// What one middleware makes of an action: the action that goes on (`None`
/// halts the dispatch) and the work it asks for.
pub struct MwOutput {
    pub next: Option<Action>,
    pub effect: Option<Effect>,
}

pub open spec fn action_opt_view(a: Option<Action>) -> Option<ActionView> {
    match a {
        Some(x) => Some(x@),
        None => None,
    }
}

pub open spec fn effect_opt_view(e: Option<Effect>) -> Option<EffectView> {
    match e {
        Some(x) => Some(x@),
        None => None,
    }
}

/// Logs every action and lets it pass unchanged.
#[derive(Debug, Clone, Copy, Default)]
pub struct LoggerMw;

/// Turns a request for an asynchronous contact into a fetch that runs
/// outside the store; the request itself goes no further.
#[derive(Debug, Clone, Copy, Default)]
pub struct AddAsyncCmdMw;

/// The middlewares a store can hold.
#[derive(Debug, Clone, Copy)]
pub enum Middleware {
    Logger(LoggerMw),
    AddAsyncCmd(AddAsyncCmdMw),
}

/// The action that leaves middleware `m` when `a` enters it.
pub open spec fn mw_next(m: Middleware, a: ActionView) -> Option<ActionView> {
    match m {
        Middleware::Logger(_) => Some(a),
        Middleware::AddAsyncCmd(_) => if a is AsyncAddContactRequested {
            None
        } else {
            Some(a)
        },
    }
}

/// The work that middleware `m` asks for when `a` enters it.
pub open spec fn mw_effect(m: Middleware, a: ActionView) -> Option<EffectView> {
    match m {
        Middleware::Logger(_) => Some(EffectView::Log(a)),
        Middleware::AddAsyncCmd(_) => if a is AsyncAddContactRequested {
            Some(EffectView::FetchContact)
        } else {
            None
        },
    }
}

impl LoggerMw {
    pub fn run(&self, action: &Action) -> (r: MwOutput)
        ensures
            action_opt_view(r.next) == mw_next(Middleware::Logger(*self), action@),
            effect_opt_view(r.effect) == mw_effect(Middleware::Logger(*self), action@),
    {
        MwOutput { next: Some(action.duplicate()), effect: Some(Effect::Log(action.duplicate())) }
    }
}

impl AddAsyncCmdMw {
    pub fn run(&self, action: &Action) -> (r: MwOutput)
        ensures
            action_opt_view(r.next) == mw_next(Middleware::AddAsyncCmd(*self), action@),
            effect_opt_view(r.effect) == mw_effect(Middleware::AddAsyncCmd(*self), action@),
    {
        match action {
            Action::AsyncAddContactRequested => MwOutput {
                next: None,
                effect: Some(Effect::FetchContact),
            },
            _ => MwOutput { next: Some(action.duplicate()), effect: None },
        }
    }
}

impl Middleware {
    pub fn run(&self, action: &Action) -> (r: MwOutput)
        ensures
            action_opt_view(r.next) == mw_next(*self, action@),
            effect_opt_view(r.effect) == mw_effect(*self, action@),
    {
        match self {
            Middleware::Logger(m) => m.run(action),
            Middleware::AddAsyncCmd(m) => m.run(action),
        }
    }
}

/// The logging middleware as a plain function.
pub fn logger_mw(action: &Action) -> (r: MwOutput)
    ensures
        action_opt_view(r.next) == mw_next(Middleware::Logger(LoggerMw), action@),
        effect_opt_view(r.effect) == mw_effect(Middleware::Logger(LoggerMw), action@),
{
    LoggerMw.run(action)
}

/// The middleware that serves asynchronous contact requests, as a plain
/// function.
pub fn add_async_cmd_mw(action: &Action) -> (r: MwOutput)
    ensures
        action_opt_view(r.next) == mw_next(Middleware::AddAsyncCmd(AddAsyncCmdMw), action@),
        effect_opt_view(r.effect) == mw_effect(Middleware::AddAsyncCmd(AddAsyncCmdMw), action@),
{
    AddAsyncCmdMw.run(action)
}

/// The email that the provider's two halves make.
pub open spec fn joined_email(user: Seq<char>, domain: Seq<char>) -> Seq<char> {
    user + "@"@ + domain
}

/// The contact added when the provider fails.
pub open spec fn fallback_contact() -> ActionView {
    ActionView::AddContact("Foo Bar"@, "foo@bar.com"@, "123-456-7890"@)
}

/// The action that a provider reply becomes.
pub open spec fn reply_action(reply: Result<FakeContactData, ProviderError>) -> ActionView {
    match reply {
        Ok(d) => ActionView::AddContact(d.name@, joined_email(d.email_u@, d.email_d@), d.phone_h@),
        Err(_) => fallback_contact(),
    }
}

/// Turns the provider's reply into the contact to add, falling back to a
/// fixed contact when the provider failed.
pub fn contact_action_from(reply: &Result<FakeContactData, ProviderError>) -> (r: Action)
    ensures
        r@ == reply_action(*reply),
{
    match reply {
        Ok(d) => {
            let mut email = d.email_u.clone();
            email.append("@");
            email.append(d.email_d.as_str());
            Action::AddContact(d.name.clone(), email, d.phone_h.clone())
        },
        Err(_) => Action::AddContact(
            String::from_str("Foo Bar"),
            String::from_str("foo@bar.com"),
            String::from_str("123-456-7890"),
        ),
    }
}

} // verus!
