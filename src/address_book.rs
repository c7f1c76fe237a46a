use vstd::prelude::*;
use vstd::string::StrSliceExecFns;

verus! {

/// One entry of the address book.
#[derive(Debug, Clone)]
pub struct Contact {
    pub id: u64,
    pub name: String,
    pub email: String,
    pub phone: String,
}

/// A contact as mathematical values.
pub struct ContactView {
    pub id: u64,
    pub name: Seq<char>,
    pub email: Seq<char>,
    pub phone: Seq<char>,
}

impl View for Contact {
    type V = ContactView;

    open spec fn view(&self) -> ContactView {
        ContactView { id: self.id, name: self.name@, email: self.email@, phone: self.phone@ }
    }
}

impl Contact {
    /// A field-by-field copy.
    pub fn duplicate(&self) -> (r: Contact)
        ensures
            r@ == self@,
    {
        Contact {
            id: self.id,
            name: self.name.clone(),
            email: self.email.clone(),
            phone: self.phone.clone(),
        }
    }
}

/// The single source of truth: the contacts in insertion order, the last
/// search term, and the id that the next added contact receives.
#[derive(Debug, Clone)]
pub struct State {
    pub contacts: Vec<Contact>,
    pub search_term: Option<String>,
    pub next_id: u64,
}

pub struct StateView {
    pub contacts: Seq<ContactView>,
    pub search_term: Option<Seq<char>>,
    pub next_id: u64,
}

pub open spec fn contacts_view(cs: Seq<Contact>) -> Seq<ContactView> {
    cs.map_values(|c: Contact| c@)
}

pub open spec fn text_view(t: Option<String>) -> Option<Seq<char>> {
    match t {
        Some(s) => Some(s@),
        None => None,
    }
}

impl View for State {
    type V = StateView;

    open spec fn view(&self) -> StateView {
        StateView {
            contacts: contacts_view(self.contacts@),
            search_term: text_view(self.search_term),
            next_id: self.next_id,
        }
    }
}

pub open spec fn empty_state() -> StateView {
    StateView { contacts: Seq::empty(), search_term: None, next_id: 0 }
}

fn copy_text(t: &Option<String>) -> (r: Option<String>)
    ensures
        text_view(r) == text_view(*t),
{
    match t {
        Some(s) => Some(s.clone()),
        None => None,
    }
}

fn copy_contacts(cs: &Vec<Contact>) -> (r: Vec<Contact>)
    ensures
        contacts_view(r@) == contacts_view(cs@),
{
    let mut out: Vec<Contact> = Vec::new();
    let mut i: usize = 0;
    while i < cs.len()
        invariant
            i <= cs.len(),
            contacts_view(out@) == contacts_view(cs@.subrange(0, i as int)),
        decreases cs.len() - i,
    {
        let c = cs[i].duplicate();
        proof {
            assert(cs@.subrange(0, i + 1) =~= cs@.subrange(0, i as int).push(cs@[i as int]));
            assert(contacts_view(out@.push(c)) =~= contacts_view(out@).push(c@));
            assert(contacts_view(cs@.subrange(0, i as int).push(cs@[i as int])) =~= contacts_view(
                cs@.subrange(0, i as int),
            ).push(cs@[i as int]@));
        }
        out.push(c);
        i += 1;
    }
    proof {
        assert(cs@.subrange(0, cs@.len() as int) =~= cs@);
    }
    out
}

impl State {
    /// An empty address book whose first contact gets id 0.
    pub fn new() -> (r: State)
        ensures
            r@ == empty_state(),
    {
        let r = State { contacts: Vec::new(), search_term: None, next_id: 0 };
        proof {
            assert(contacts_view(r.contacts@) =~= Seq::empty());
        }
        r
    }

    /// A copy whose view equals this one's.
    pub fn duplicate(&self) -> (r: State)
        ensures
            r@ == self@,
    {
        State {
            contacts: copy_contacts(&self.contacts),
            search_term: copy_text(&self.search_term),
            next_id: self.next_id,
        }
    }

    /// Number of contacts.
    pub fn len(&self) -> (r: usize)
        ensures
            r == self@.contacts.len(),
    {
        self.contacts.len()
    }
}

impl Default for State {
    fn default() -> (r: State)
        ensures
            r@ == empty_state(),
    {
        State::new()
    }
}

/// The commands that may change the state or trigger outside work.
#[derive(Debug, Clone)]
pub enum Action {
    AddContact(String, String, String),
    RemoveContactById(u64),
    RemoveAllContacts,
    Search(String),
    ResetState(State),
    AsyncAddContactRequested,
}

pub enum ActionView {
    AddContact(Seq<char>, Seq<char>, Seq<char>),
    RemoveContactById(u64),
    RemoveAllContacts,
    Search(Seq<char>),
    ResetState(StateView),
    AsyncAddContactRequested,
}

impl View for Action {
    type V = ActionView;

    open spec fn view(&self) -> ActionView {
        match self {
            Action::AddContact(n, e, p) => ActionView::AddContact(n@, e@, p@),
            Action::RemoveContactById(id) => ActionView::RemoveContactById(*id),
            Action::RemoveAllContacts => ActionView::RemoveAllContacts,
            Action::Search(t) => ActionView::Search(t@),
            Action::ResetState(s) => ActionView::ResetState(s@),
            Action::AsyncAddContactRequested => ActionView::AsyncAddContactRequested,
        }
    }
}

impl Action {
    /// A copy whose view equals this one's.
    pub fn duplicate(&self) -> (r: Action)
        ensures
            r@ == self@,
    {
        match self {
            Action::AddContact(n, e, p) => Action::AddContact(n.clone(), e.clone(), p.clone()),
            Action::RemoveContactById(id) => Action::RemoveContactById(*id),
            Action::RemoveAllContacts => Action::RemoveAllContacts,
            Action::Search(t) => Action::Search(t.clone()),
            Action::ResetState(s) => Action::ResetState(s.duplicate()),
            Action::AsyncAddContactRequested => Action::AsyncAddContactRequested,
        }
    }
}

/// The id handed out after `n`; it stays at the largest value once reached.
pub open spec fn following_id(n: u64) -> u64 {
    if n < u64::MAX {
        (n + 1) as u64
    } else {
        n
    }
}

/// The contacts that a removal by `id` keeps.
pub open spec fn keeps(id: u64) -> spec_fn(ContactView) -> bool {
    |c: ContactView| c.id != id
}

/// What the address-book reducer makes of `s` under `a`.
pub open spec fn reduce(s: StateView, a: ActionView) -> StateView {
    match a {
        ActionView::AddContact(name, email, phone) => StateView {
            contacts: s.contacts.push(ContactView { id: s.next_id, name, email, phone }),
            next_id: following_id(s.next_id),
            ..s
        },
        ActionView::RemoveContactById(id) => StateView {
            contacts: s.contacts.filter(keeps(id)),
            ..s
        },
        ActionView::RemoveAllContacts => StateView { contacts: Seq::empty(), ..s },
        ActionView::Search(term) => StateView { search_term: Some(term), ..s },
        ActionView::ResetState(s0) => s0,
        ActionView::AsyncAddContactRequested => s,
    }
}

fn retain_other_ids(cs: &Vec<Contact>, id: u64) -> (r: Vec<Contact>)
    ensures
        contacts_view(r@) == contacts_view(cs@).filter(keeps(id)),
{
    let ghost vs = contacts_view(cs@);
    let mut out: Vec<Contact> = Vec::new();
    let mut i: usize = 0;
    while i < cs.len()
        invariant
            i <= cs.len(),
            vs == contacts_view(cs@),
            contacts_view(out@) == vs.subrange(0, i as int).filter(keeps(id)),
        decreases cs.len() - i,
    {
        proof {
            assert(vs.subrange(0, i + 1) =~= vs.subrange(0, i as int).push(vs[i as int]));
            vs.subrange(0, i as int).lemma_filter_push(vs[i as int], keeps(id));
        }
        if cs[i].id != id {
            let c = cs[i].duplicate();
            proof {
                assert(contacts_view(out@.push(c)) =~= contacts_view(out@).push(c@));
            }
            out.push(c);
        }
        i += 1;
    }
    proof {
        assert(vs.subrange(0, cs@.len() as int) =~= vs);
    }
    out
}

impl State {
    /// Folds `action` into this state in place.
    pub fn apply(&mut self, action: &Action)
        ensures
            final(self)@ == reduce(old(self)@, action@),
    {
        match action {
            Action::AddContact(n, e, p) => {
                let c = Contact {
                    id: self.next_id,
                    name: n.clone(),
                    email: e.clone(),
                    phone: p.clone(),
                };
                proof {
                    assert(contacts_view(self.contacts@.push(c)) =~= contacts_view(
                        self.contacts@,
                    ).push(c@));
                }
                self.contacts.push(c);
                if self.next_id < u64::MAX {
                    self.next_id = self.next_id + 1;
                }
            },
            Action::RemoveContactById(id) => {
                self.contacts = retain_other_ids(&self.contacts, *id);
            },
            Action::RemoveAllContacts => {
                self.contacts = Vec::new();
                proof {
                    assert(contacts_view(self.contacts@) =~= Seq::empty());
                }
            },
            Action::Search(t) => {
                self.search_term = Some(t.clone());
            },
            Action::ResetState(s0) => {
                *self = s0.duplicate();
            },
            Action::AsyncAddContactRequested => {},
        }
    }
}

/// The address-book reducer: total, pure, and a no-op on actions it does
/// not handle.
pub fn address_book_reducer(state: &State, action: &Action) -> (r: State)
    ensures
        r@ == reduce(state@, action@),
{
    let mut next = state.duplicate();
    next.apply(action);
    next
}

/// `needle` occurs in `hay` as a run of consecutive characters.
pub open spec fn contains_text(hay: Seq<char>, needle: Seq<char>) -> bool {
    exists|k: int|
        0 <= k && k + needle.len() <= hay.len() && #[trigger] hay.subrange(k, k + needle.len())
            == needle
}

/// The contacts whose name holds `term`.
pub open spec fn name_has(term: Seq<char>) -> spec_fn(ContactView) -> bool {
    |c: ContactView| contains_text(c.name, term)
}

/// The search-result view: every contact when no search was made, else
/// those whose name holds the last search term, in book order.
pub open spec fn shown(s: StateView) -> Seq<ContactView> {
    match s.search_term {
        None => s.contacts,
        Some(t) => s.contacts.filter(name_has(t)),
    }
}

fn matches_at(hay: &str, needle: &str, k: usize) -> (r: bool)
    requires
        k + needle@.len() <= hay@.len(),
    ensures
        r == (hay@.subrange(k as int, k + needle@.len()) == needle@),
{
    let h = hay.unicode_len();
    let n = needle.unicode_len();
    let mut j: usize = 0;
    while j < n
        invariant
            h == hay@.len(),
            n == needle@.len(),
            k + n <= hay@.len(),
            j <= n,
            forall|i: int| 0 <= i < j ==> hay@[k + i] == needle@[i],
        decreases n - j,
    {
        if hay.get_char(k + j) != needle.get_char(j) {
            proof {
                assert(hay@.subrange(k as int, k + n)[j as int] != needle@[j as int]);
            }
            return false;
        }
        j += 1;
    }
    proof {
        assert(hay@.subrange(k as int, k + n) =~= needle@);
    }
    true
}

/// Whether `needle` occurs in `hay`.
pub fn text_contains(hay: &str, needle: &str) -> (r: bool)
    ensures
        r == contains_text(hay@, needle@),
{
    let h = hay.unicode_len();
    let n = needle.unicode_len();
    if n > h {
        return false;
    }
    let last = h - n;
    let mut k: usize = 0;
    loop
        invariant
            h == hay@.len(),
            n == needle@.len(),
            n <= h,
            last == h - n,
            k <= last,
            forall|q: int| 0 <= q < k ==> #[trigger] hay@.subrange(q, q + n) != needle@,
        decreases last - k,
    {
        if matches_at(hay, needle, k) {
            return true;
        }
        if k == last {
            return false;
        }
        k += 1;
    }
}

impl State {
    /// The search-result view of this state.
    pub fn search_results(&self) -> (r: Vec<Contact>)
        ensures
            contacts_view(r@) == shown(self@),
    {
        let term = match &self.search_term {
            None => {
                return copy_contacts(&self.contacts);
            },
            Some(t) => t,
        };
        let ghost vs = contacts_view(self.contacts@);
        let ghost pred = name_has(term@);
        let mut out: Vec<Contact> = Vec::new();
        let mut i: usize = 0;
        while i < self.contacts.len()
            invariant
                i <= self.contacts.len(),
                vs == contacts_view(self.contacts@),
                pred == name_has(term@),
                contacts_view(out@) == vs.subrange(0, i as int).filter(pred),
            decreases self.contacts.len() - i,
        {
            proof {
                assert(vs.subrange(0, i + 1) =~= vs.subrange(0, i as int).push(vs[i as int]));
                vs.subrange(0, i as int).lemma_filter_push(vs[i as int], pred);
            }
            if text_contains(self.contacts[i].name.as_str(), term.as_str()) {
                let c = self.contacts[i].duplicate();
                proof {
                    assert(contacts_view(out@.push(c)) =~= contacts_view(out@).push(c@));
                }
                out.push(c);
            }
            i += 1;
        }
        proof {
            assert(vs.subrange(0, self.contacts@.len() as int) =~= vs);
        }
        out
    }
}

/// Reducing the same state with the same action gives the same state.
pub proof fn lemma_reduce_deterministic(s1: StateView, s2: StateView, a1: ActionView, a2: ActionView)
    requires
        s1 == s2,
        a1 == a2,
    ensures
        reduce(s1, a1) == reduce(s2, a2),
{
}

/// Removing an id that no contact has leaves the state as it was.
pub proof fn lemma_remove_absent_id(s: StateView, id: u64)
    requires
        forall|i: int| 0 <= i < s.contacts.len() ==> s.contacts[i].id != id,
    ensures
        reduce(s, ActionView::RemoveContactById(id)) == s,
{
    lemma_filter_keeps_all(s.contacts, id);
}

proof fn lemma_filter_keeps_all(cs: Seq<ContactView>, id: u64)
    requires
        forall|i: int| 0 <= i < cs.len() ==> cs[i].id != id,
    ensures
        cs.filter(keeps(id)) == cs,
    decreases cs.len(),
{
    if cs.len() > 0 {
        let init = cs.drop_last();
        assert(forall|i: int| 0 <= i < init.len() ==> init[i] == cs[i]);
        lemma_filter_keeps_all(init, id);
        init.lemma_filter_push(cs.last(), keeps(id));
        assert(init.push(cs.last()) =~= cs);
    } else {
        reveal(Seq::filter);
    }
}

/// After a reset to `s0` the state is exactly `s0`.
pub proof fn lemma_reset_replaces(s: StateView, s0: StateView)
    ensures
        reduce(s, ActionView::ResetState(s0)) == s0,
{
}

} // verus!
