use vstd::prelude::*;

use crate::address_book::{
    contacts_view, empty_state, reduce, Action, ActionView, State, StateView,
};
use crate::middleware::{
    action_opt_view, contact_action_from, effect_opt_view, mw_effect, mw_next, reply_action,
    AddAsyncCmdMw, Effect, EffectView, FakeContactData, LoggerMw, Middleware, ProviderError,
};

verus! {

/// The reducers a store can hold.
#[derive(Debug, Clone, Copy)]
pub enum Reducer {
    AddressBook,
}

/// Owns the state, the ordered middlewares, reducers and subscribers, and
/// the history of every action that reached the reducers.
///
/// Registration is meant for setup; afterwards `dispatch` is the only way
/// the state changes. Callers that share a store across threads hold it
/// behind one lock and take it for a single `dispatch` call, then perform
/// the returned effects and notifications after releasing it.
pub struct Store {
    state: State,
    history: Vec<Action>,
    middlewares: Vec<Middleware>,
    reducers: Vec<Reducer>,
    subscribers: Vec<u64>,
}

pub struct StoreView {
    pub state: StateView,
    pub history: Seq<ActionView>,
    pub middlewares: Seq<Middleware>,
    pub reducers: Seq<Reducer>,
    pub subscribers: Seq<u64>,
}

pub open spec fn actions_view(s: Seq<Action>) -> Seq<ActionView> {
    s.map_values(|a: Action| a@)
}

pub open spec fn effects_view(s: Seq<Effect>) -> Seq<EffectView> {
    s.map_values(|e: Effect| e@)
}

impl View for Store {
    type V = StoreView;

    closed spec fn view(&self) -> StoreView {
        StoreView {
            state: self.state@,
            history: actions_view(self.history@),
            middlewares: self.middlewares@,
            reducers: self.reducers@,
            subscribers: self.subscribers@,
        }
    }
}

/// The action that leaves the middleware chain `mws` when `a` enters it,
/// each middleware seeing what the previous one let through; `None` when
/// one of them halts.
pub open spec fn run_chain(mws: Seq<Middleware>, a: ActionView) -> Option<ActionView>
    decreases mws.len(),
{
    if mws.len() == 0 {
        Some(a)
    } else {
        match mw_next(mws[0], a) {
            Some(b) => run_chain(mws.drop_first(), b),
            None => None,
        }
    }
}

pub open spec fn effect_seq(e: Option<EffectView>) -> Seq<EffectView> {
    match e {
        Some(x) => seq![x],
        None => Seq::empty(),
    }
}

/// The work the chain `mws` asks for on `a`, in chain order.
pub open spec fn chain_effects(mws: Seq<Middleware>, a: ActionView) -> Seq<EffectView>
    decreases mws.len(),
{
    if mws.len() == 0 {
        Seq::empty()
    } else {
        match mw_next(mws[0], a) {
            Some(b) => effect_seq(mw_effect(mws[0], a)) + chain_effects(mws.drop_first(), b),
            None => effect_seq(mw_effect(mws[0], a)),
        }
    }
}

pub open spec fn reduce_by(r: Reducer, s: StateView, a: ActionView) -> StateView {
    match r {
        Reducer::AddressBook => reduce(s, a),
    }
}

/// The state after folding `a` through the reducers `rs` in order.
pub open spec fn run_reducers(rs: Seq<Reducer>, s: StateView, a: ActionView) -> StateView
    decreases rs.len(),
{
    if rs.len() == 0 {
        s
    } else {
        run_reducers(rs.drop_first(), reduce_by(rs[0], s, a), a)
    }
}

/// The store after one dispatch of `a`.
pub open spec fn step(m: StoreView, a: ActionView) -> StoreView {
    match run_chain(m.middlewares, a) {
        Some(b) => StoreView {
            state: run_reducers(m.reducers, m.state, b),
            history: m.history.push(b),
            ..m
        },
        None => m,
    }
}

/// The store after dispatching `acts` one at a time, in order.
pub open spec fn dispatch_all(m: StoreView, acts: Seq<ActionView>) -> StoreView
    decreases acts.len(),
{
    if acts.len() == 0 {
        m
    } else {
        dispatch_all(step(m, acts[0]), acts.drop_first())
    }
}

/// The actions that reach the reducers when `acts` are dispatched through
/// the chain `mws`, in call order.
pub open spec fn committed_all(mws: Seq<Middleware>, acts: Seq<ActionView>) -> Seq<ActionView>
    decreases acts.len(),
{
    if acts.len() == 0 {
        Seq::empty()
    } else {
        let here = match run_chain(mws, acts[0]) {
            Some(b) => seq![b],
            None => Seq::empty(),
        };
        here + committed_all(mws, acts.drop_first())
    }
}

/// What one dispatch hands back to its caller: the work the middlewares
/// asked for, the subscribers to notify in order, and the state they are
/// notified with.
pub struct DispatchOutcome {
    pub effects: Vec<Effect>,
    pub notify: Vec<u64>,
    pub published: Option<State>,
}

fn copy_ids(ids: &Vec<u64>) -> (r: Vec<u64>)
    ensures
        r@ == ids@,
{
    let mut out: Vec<u64> = Vec::new();
    let mut i: usize = 0;
    while i < ids.len()
        invariant
            i <= ids.len(),
            out@ == ids@.subrange(0, i as int),
        decreases ids.len() - i,
    {
        out.push(ids[i]);
        proof {
            assert(ids@.subrange(0, i + 1) =~= ids@.subrange(0, i as int).push(ids@[i as int]));
        }
        i += 1;
    }
    proof {
        assert(ids@.subrange(0, ids@.len() as int) =~= ids@);
    }
    out
}

impl Store {
    /// A store with an empty state and nothing registered.
    pub fn new() -> (r: Store)
        ensures
            r@ == (StoreView {
                state: empty_state(),
                history: Seq::empty(),
                middlewares: Seq::empty(),
                reducers: Seq::empty(),
                subscribers: Seq::empty(),
            }),
    {
        let r = Store {
            state: State::new(),
            history: Vec::new(),
            middlewares: Vec::new(),
            reducers: Vec::new(),
            subscribers: Vec::new(),
        };
        proof {
            assert(actions_view(r.history@) =~= Seq::empty());
        }
        r
    }

    /// Appends a middleware to the chain. For setup only.
    pub fn add_middleware(&mut self, m: Middleware)
        ensures
            final(self)@ == (StoreView { middlewares: old(self)@.middlewares.push(m), ..old(self)@ }),
    {
        self.middlewares.push(m);
    }

    /// Appends a reducer to the chain. For setup only.
    pub fn add_reducer(&mut self, r: Reducer)
        ensures
            final(self)@ == (StoreView { reducers: old(self)@.reducers.push(r), ..old(self)@ }),
    {
        self.reducers.push(r);
    }

    /// Appends a subscriber, known by its id, to the notification list. For
    /// setup only.
    pub fn add_subscriber(&mut self, id: u64)
        ensures
            final(self)@ == (StoreView { subscribers: old(self)@.subscribers.push(id), ..old(self)@ }),
    {
        self.subscribers.push(id);
    }

    /// A snapshot of the committed state.
    pub fn get_state(&self) -> (r: State)
        ensures
            r@ == self@.state,
    {
        self.state.duplicate()
    }

    /// A snapshot of the history, oldest first.
    pub fn get_history(&self) -> (r: Vec<Action>)
        ensures
            actions_view(r@) == self@.history,
    {
        let mut out: Vec<Action> = Vec::new();
        let mut i: usize = 0;
        while i < self.history.len()
            invariant
                i <= self.history.len(),
                actions_view(out@) == actions_view(self.history@.subrange(0, i as int)),
            decreases self.history.len() - i,
        {
            let a = self.history[i].duplicate();
            proof {
                let h = self.history@;
                assert(h.subrange(0, i + 1) =~= h.subrange(0, i as int).push(h[i as int]));
                assert(actions_view(out@.push(a)) =~= actions_view(out@).push(a@));
                assert(actions_view(h.subrange(0, i as int).push(h[i as int])) =~= actions_view(
                    h.subrange(0, i as int),
                ).push(h[i as int]@));
            }
            out.push(a);
            i += 1;
        }
        proof {
            assert(self.history@.subrange(0, self.history@.len() as int) =~= self.history@);
        }
        out
    }

    /// Runs `action` through the middlewares, then the reducers, records
    /// the action that reached them, and returns the effects asked for and
    /// the subscribers to notify with the new state.
    pub fn dispatch(&mut self, action: Action) -> (out: DispatchOutcome)
        ensures
            final(self)@ == step(old(self)@, action@),
            effects_view(out.effects@) == chain_effects(old(self)@.middlewares, action@),
            run_chain(old(self)@.middlewares, action@) is Some ==> {
                &&& out.notify@ == old(self)@.subscribers
                &&& out.published is Some
                &&& out.published->0@ == final(self)@.state
            },
            run_chain(old(self)@.middlewares, action@) is None ==> {
                &&& out.notify@.len() == 0
                &&& out.published is None
            },
    {
        let ghost a0 = action@;
        let ghost mws = self.middlewares@;
        let n = self.middlewares.len();
        let mut cur = action;
        let mut halted = false;
        let mut effects: Vec<Effect> = Vec::new();
        let mut i: usize = 0;
        proof {
            assert(mws.subrange(0, n as int) =~= mws);
            assert(effects_view(effects@) =~= Seq::empty());
        }
        while i < n && !halted
            invariant
                n == self.middlewares.len(),
                mws == self.middlewares@,
                i <= n,
                !halted ==> run_chain(mws, a0) == run_chain(mws.subrange(i as int, n as int), cur@),
                !halted ==> chain_effects(mws, a0) == effects_view(effects@) + chain_effects(
                    mws.subrange(i as int, n as int),
                    cur@,
                ),
                halted ==> run_chain(mws, a0) is None,
                halted ==> chain_effects(mws, a0) == effects_view(effects@),
            decreases n - i,
        {
            let m = self.middlewares[i];
            let ghost before = cur@;
            let ghost ev0 = effects_view(effects@);
            let out = m.run(&cur);
            proof {
                let rest = mws.subrange(i as int, n as int);
                assert(rest[0] == m);
                assert(rest.drop_first() =~= mws.subrange(i + 1, n as int));
            }
            match out.effect {
                Some(e) => {
                    proof {
                        assert(effects_view(effects@.push(e)) =~= effects_view(effects@).push(e@));
                    }
                    effects.push(e);
                },
                None => {},
            }
            proof {
                assert(effects_view(effects@) =~= ev0 + effect_seq(mw_effect(m, before)));
            }
            match out.next {
                Some(b) => {
                    cur = b;
                    proof {
                        let tail = chain_effects(mws.subrange(i + 1, n as int), cur@);
                        assert(ev0 + (effect_seq(mw_effect(m, before)) + tail) =~= (ev0
                            + effect_seq(mw_effect(m, before))) + tail);
                    }
                },
                None => {
                    halted = true;
                },
            }
            i += 1;
        }
        if halted {
            return DispatchOutcome { effects, notify: Vec::new(), published: None };
        }
        proof {
            assert(mws.subrange(n as int, n as int) =~= Seq::<Middleware>::empty());
            assert(effects_view(effects@) + Seq::<EffectView>::empty() =~= effects_view(effects@));
        }
        let ghost s0 = self.state@;
        let ghost rs = self.reducers@;
        let m_r = self.reducers.len();
        let mut j: usize = 0;
        proof {
            assert(rs.subrange(0, m_r as int) =~= rs);
        }
        while j < m_r
            invariant
                m_r == self.reducers.len(),
                rs == self.reducers@,
                j <= m_r,
                run_reducers(rs, s0, cur@) == run_reducers(
                    rs.subrange(j as int, m_r as int),
                    self.state@,
                    cur@,
                ),
                self.history@ == old(self).history@,
                self.middlewares@ == old(self).middlewares@,
                self.subscribers@ == old(self).subscribers@,
            decreases m_r - j,
        {
            proof {
                let rest = rs.subrange(j as int, m_r as int);
                assert(rest.drop_first() =~= rs.subrange(j + 1, m_r as int));
            }
            match self.reducers[j] {
                Reducer::AddressBook => self.state.apply(&cur),
            }
            j += 1;
        }
        proof {
            assert(rs.subrange(m_r as int, m_r as int) =~= Seq::<Reducer>::empty());
            assert(actions_view(self.history@.push(cur)) =~= actions_view(self.history@).push(
                cur@,
            ));
        }
        self.history.push(cur);
        let published = self.state.duplicate();
        let notify = copy_ids(&self.subscribers);
        DispatchOutcome { effects, notify, published: Some(published) }
    }

    /// The same as `dispatch`; names call sites whose action only asks a
    /// middleware for outside work.
    pub fn dispatch_async(&mut self, action: Action) -> (out: DispatchOutcome)
        ensures
            final(self)@ == step(old(self)@, action@),
            effects_view(out.effects@) == chain_effects(old(self)@.middlewares, action@),
            run_chain(old(self)@.middlewares, action@) is Some ==> {
                &&& out.notify@ == old(self)@.subscribers
                &&& out.published is Some
                &&& out.published->0@ == final(self)@.state
            },
            run_chain(old(self)@.middlewares, action@) is None ==> {
                &&& out.notify@.len() == 0
                &&& out.published is None
            },
    {
        self.dispatch(action)
    }

    /// Dispatches the contact that the provider's reply makes, or the
    /// fallback contact when the provider failed.
    pub fn complete_contact_fetch(&mut self, reply: &Result<FakeContactData, ProviderError>) -> (out:
        DispatchOutcome)
        ensures
            final(self)@ == step(old(self)@, reply_action(*reply)),
            final(self)@.history == old(self)@.history.push(reply_action(*reply)),
            out.notify@ == old(self)@.subscribers,
            out.published is Some,
            out.published->0@ == final(self)@.state,
    {
        let action = contact_action_from(reply);
        proof {
            lemma_chain_passes(self@.middlewares, action@);
        }
        self.dispatch(action)
    }
}

/// The subscriber id under which the front end renders the state.
pub const RENDER_SUBSCRIBER: u64 = 1;

/// The address book's store: the rendering subscriber, the logging
/// middleware ahead of the one that serves asynchronous requests, and the
/// address-book reducer.
pub fn create_store() -> (r: Store)
    ensures
        r@ == (StoreView {
            state: empty_state(),
            history: Seq::empty(),
            middlewares: seq![Middleware::Logger(LoggerMw), Middleware::AddAsyncCmd(AddAsyncCmdMw)],
            reducers: seq![Reducer::AddressBook],
            subscribers: seq![RENDER_SUBSCRIBER],
        }),
{
    let mut store = Store::new();
    store.add_subscriber(RENDER_SUBSCRIBER);
    store.add_middleware(Middleware::Logger(LoggerMw));
    store.add_middleware(Middleware::AddAsyncCmd(AddAsyncCmdMw));
    store.add_reducer(Reducer::AddressBook);
    proof {
        assert(store@.middlewares =~= seq![
            Middleware::Logger(LoggerMw),
            Middleware::AddAsyncCmd(AddAsyncCmdMw),
        ]);
        assert(store@.reducers =~= seq![Reducer::AddressBook]);
        assert(store@.subscribers =~= seq![RENDER_SUBSCRIBER]);
    }
    store
}

/// Every action other than the request for an asynchronous contact passes
/// the middleware chain unchanged.
pub proof fn lemma_chain_passes(mws: Seq<Middleware>, a: ActionView)
    requires
        !(a is AsyncAddContactRequested),
    ensures
        run_chain(mws, a) == Some(a),
    decreases mws.len(),
{
    if mws.len() > 0 {
        lemma_chain_passes(mws.drop_first(), a);
    }
}

/// Dispatching actions one at a time leaves in the history exactly the
/// actions that left the middleware chain, in call order, after what was
/// there before.
pub proof fn lemma_history_in_call_order(m: StoreView, acts: Seq<ActionView>)
    ensures
        dispatch_all(m, acts).history == m.history + committed_all(m.middlewares, acts),
        dispatch_all(m, acts).middlewares == m.middlewares,
    decreases acts.len(),
{
    if acts.len() == 0 {
        assert(m.history + Seq::<ActionView>::empty() =~= m.history);
    } else {
        let m1 = step(m, acts[0]);
        lemma_history_in_call_order(m1, acts.drop_first());
        let here = match run_chain(m.middlewares, acts[0]) {
            Some(b) => seq![b],
            None => Seq::<ActionView>::empty(),
        };
        assert(m1.history =~= m.history + here);
        assert(m.history + here + committed_all(m.middlewares, acts.drop_first()) =~= m.history + (
        here + committed_all(m.middlewares, acts.drop_first())));
    }
}

proof fn lemma_reducers_keep_absent(rs: Seq<Reducer>, s: StateView, id: u64)
    requires
        forall|i: int| 0 <= i < s.contacts.len() ==> s.contacts[i].id != id,
    ensures
        run_reducers(rs, s, ActionView::RemoveContactById(id)) == s,
    decreases rs.len(),
{
    if rs.len() > 0 {
        crate::address_book::lemma_remove_absent_id(s, id);
        lemma_reducers_keep_absent(rs.drop_first(), s, id);
    }
}

/// Removing an id that no contact has leaves the state unchanged and
/// still records the removal.
pub proof fn lemma_remove_absent_is_recorded(m: StoreView, id: u64)
    requires
        forall|i: int| 0 <= i < m.state.contacts.len() ==> m.state.contacts[i].id != id,
    ensures
        step(m, ActionView::RemoveContactById(id)).state == m.state,
        step(m, ActionView::RemoveContactById(id)).history == m.history.push(
            ActionView::RemoveContactById(id),
        ),
{
    lemma_chain_passes(m.middlewares, ActionView::RemoveContactById(id));
    lemma_reducers_keep_absent(m.reducers, m.state, id);
}

proof fn lemma_reducers_reset(rs: Seq<Reducer>, s: StateView, s0: StateView)
    requires
        rs.len() > 0,
    ensures
        run_reducers(rs, s, ActionView::ResetState(s0)) == s0,
    decreases rs.len(),
{
    let a = ActionView::ResetState(s0);
    if rs.len() > 1 {
        lemma_reducers_reset(rs.drop_first(), reduce_by(rs[0], s, a), s0);
    } else {
        assert(rs.drop_first().len() == 0);
        assert(run_reducers(rs.drop_first(), s0, a) == s0);
    }
}

/// Once a store with a reducer dispatches a reset to `s0`, its state is
/// exactly `s0`, whatever it held before.
pub proof fn lemma_reset_is_complete(m: StoreView, s0: StateView)
    requires
        m.reducers.len() > 0,
    ensures
        step(m, ActionView::ResetState(s0)).state == s0,
{
    lemma_chain_passes(m.middlewares, ActionView::ResetState(s0));
    lemma_reducers_reset(m.reducers, m.state, s0);
}

/// A request for an asynchronous contact, in a store whose chain holds the
/// middleware that serves it, changes neither state nor history: the
/// dispatch returns at once with a fetch among its effects, and the contact
/// arrives by a later dispatch of its own.
pub proof fn lemma_async_request_defers(m: StoreView)
    requires
        exists|i: int| 0 <= i < m.middlewares.len() && m.middlewares[i] is AddAsyncCmd,
    ensures
        step(m, ActionView::AsyncAddContactRequested) == m,
        chain_effects(m.middlewares, ActionView::AsyncAddContactRequested).contains(
            EffectView::FetchContact,
        ),
{
    lemma_chain_defers(m.middlewares);
}

proof fn lemma_chain_defers(mws: Seq<Middleware>)
    requires
        exists|i: int| 0 <= i < mws.len() && mws[i] is AddAsyncCmd,
    ensures
        run_chain(mws, ActionView::AsyncAddContactRequested) is None,
        chain_effects(mws, ActionView::AsyncAddContactRequested).contains(EffectView::FetchContact),
    decreases mws.len(),
{
    let a = ActionView::AsyncAddContactRequested;
    let k = choose|i: int| 0 <= i < mws.len() && mws[i] is AddAsyncCmd;
    if mws[0] is AddAsyncCmd {
        assert(effect_seq(mw_effect(mws[0], a))[0] == EffectView::FetchContact);
    } else {
        assert(mws.drop_first()[k - 1] is AddAsyncCmd);
        lemma_chain_defers(mws.drop_first());
        let tail = chain_effects(mws.drop_first(), a);
        let t = choose|j: int| 0 <= j < tail.len() && tail[j] == EffectView::FetchContact;
        let all = effect_seq(mw_effect(mws[0], a)) + tail;
        assert(all[1 + t] == EffectView::FetchContact);
    }
}

} // verus!
