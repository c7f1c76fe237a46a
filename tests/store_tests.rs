use address_book::address_book::{address_book_reducer, Action, Contact, State};
use address_book::middleware::{
    contact_action_from, AddAsyncCmdMw, Effect, FakeContactData, LoggerMw, Middleware,
    ProviderError,
};
use address_book::store::{Reducer, Store};

fn add(name: &str, email: &str, phone: &str) -> Action {
    Action::AddContact(name.to_string(), email.to_string(), phone.to_string())
}

fn full_store() -> Store {
    let mut store = Store::new();
    store.add_subscriber(1);
    store.add_subscriber(2);
    store.add_middleware(Middleware::Logger(LoggerMw));
    store.add_middleware(Middleware::AddAsyncCmd(AddAsyncCmdMw));
    store.add_reducer(Reducer::AddressBook);
    store
}

fn names(state: &State) -> Vec<String> {
    state.contacts.iter().map(|c| c.name.clone()).collect()
}

fn ann_reply() -> Result<FakeContactData, ProviderError> {
    Ok(FakeContactData {
        name: "Ann".to_string(),
        email_u: "a".to_string(),
        email_d: "b.com".to_string(),
        phone_h: "555".to_string(),
    })
}

#[test]
fn reducer_adds_contacts_with_fresh_ids() {
    let s0 = State::new();
    let s1 = address_book_reducer(&s0, &add("Ann", "a@b.com", "555"));
    let s2 = address_book_reducer(&s1, &add("Bob", "b@c.com", "666"));
    assert_eq!(s2.contacts.len(), 2);
    assert_eq!(s2.contacts[0].id, 0);
    assert_eq!(s2.contacts[1].id, 1);
    assert_eq!(s2.contacts[1].email, "b@c.com");
    assert_eq!(s2.next_id, 2);
    assert_eq!(s0.contacts.len(), 0);
}

#[test]
fn reducer_removes_by_id() {
    let mut s = State::new();
    s.apply(&add("Ann", "a", "1"));
    s.apply(&add("Bob", "b", "2"));
    s.apply(&add("Cid", "c", "3"));
    s.apply(&Action::RemoveContactById(1));
    assert_eq!(names(&s), vec!["Ann".to_string(), "Cid".to_string()]);
    assert_eq!(s.next_id, 3);
}

#[test]
fn reducer_clear_and_search() {
    let mut s = State::new();
    s.apply(&add("Ann", "a", "1"));
    s.apply(&Action::Search("An".to_string()));
    assert_eq!(s.search_term, Some("An".to_string()));
    s.apply(&Action::RemoveAllContacts);
    assert!(s.contacts.is_empty());
    assert_eq!(s.search_term, Some("An".to_string()));
}

#[test]
fn reducer_is_deterministic() {
    let mut s = State::new();
    s.apply(&add("Ann", "a", "1"));
    let a = add("Bob", "b", "2");
    let r1 = address_book_reducer(&s, &a);
    let r2 = address_book_reducer(&s, &a);
    assert_eq!(format!("{:?}", r1), format!("{:?}", r2));
}

#[test]
fn remove_of_absent_id_keeps_state_and_is_recorded() {
    let mut store = full_store();
    store.dispatch(add("Ann", "a", "1"));
    let before = format!("{:?}", store.get_state());
    let out = store.dispatch(Action::RemoveContactById(42));
    assert_eq!(format!("{:?}", store.get_state()), before);
    let history = store.get_history();
    assert_eq!(history.len(), 2);
    assert!(matches!(history[1], Action::RemoveContactById(42)));
    assert_eq!(out.notify, vec![1, 2]);
}

#[test]
fn reset_replaces_everything() {
    let mut store = full_store();
    store.dispatch(add("Ann", "a", "1"));
    store.dispatch(add("Bob", "b", "2"));
    let mut s0 = State::new();
    s0.apply(&add("Zed", "z", "9"));
    store.dispatch(Action::ResetState(s0.duplicate()));
    let now = store.get_state();
    assert_eq!(names(&now), vec!["Zed".to_string()]);
    assert_eq!(format!("{:?}", now), format!("{:?}", s0));
}

#[test]
fn history_keeps_call_order() {
    let mut store = full_store();
    store.dispatch(add("Ann", "a", "1"));
    store.dispatch(Action::Search("x".to_string()));
    store.dispatch(Action::RemoveAllContacts);
    store.dispatch_async(Action::AsyncAddContactRequested);
    store.dispatch(Action::RemoveContactById(7));
    let h = store.get_history();
    assert_eq!(h.len(), 4);
    assert!(matches!(h[0], Action::AddContact(..)));
    assert!(matches!(h[1], Action::Search(_)));
    assert!(matches!(h[2], Action::RemoveAllContacts));
    assert!(matches!(h[3], Action::RemoveContactById(7)));
}

#[test]
fn async_request_defers_to_a_fetch() {
    let mut store = full_store();
    let out = store.dispatch_async(Action::AsyncAddContactRequested);
    assert!(store.get_history().is_empty());
    assert!(out.published.is_none());
    assert!(out.notify.is_empty());
    assert_eq!(out.effects.len(), 2);
    assert!(matches!(out.effects[0], Effect::Log(Action::AsyncAddContactRequested)));
    assert!(matches!(out.effects[1], Effect::FetchContact));
}

#[test]
fn provider_reply_becomes_one_history_entry() {
    let mut store = full_store();
    store.dispatch_async(Action::AsyncAddContactRequested);
    store.complete_contact_fetch(&ann_reply());
    let h = store.get_history();
    assert_eq!(h.len(), 1);
    match &h[0] {
        Action::AddContact(n, e, p) => {
            assert_eq!(n, "Ann");
            assert_eq!(e, "a@b.com");
            assert_eq!(p, "555");
        }
        other => panic!("unexpected {:?}", other),
    }
}

#[test]
fn provider_failure_adds_fallback_contact() {
    let mut store = full_store();
    store.complete_contact_fetch(&Err(ProviderError));
    let s = store.get_state();
    assert_eq!(s.contacts.len(), 1);
    let c: &Contact = &s.contacts[0];
    assert_eq!(c.name, "Foo Bar");
    assert_eq!(c.email, "foo@bar.com");
    assert_eq!(c.phone, "123-456-7890");
}

#[test]
fn contact_action_joins_email_halves() {
    match contact_action_from(&ann_reply()) {
        Action::AddContact(n, e, p) => {
            assert_eq!(n, "Ann");
            assert_eq!(e, "a@b.com");
            assert_eq!(p, "555");
        }
        other => panic!("unexpected {:?}", other),
    }
}

#[test]
fn failing_subscriber_does_not_stop_the_next() {
    let mut store = full_store();
    let out = store.dispatch(add("Ann", "a", "1"));
    let published = out.published.expect("committed");
    let mut reached = Vec::new();
    for id in &out.notify {
        let result: Result<(), String> = if *id == 1 {
            Err("subscriber failed".to_string())
        } else {
            reached.push(*id);
            Ok(())
        };
        let _ = result;
    }
    assert_eq!(reached, vec![2]);
    assert_eq!(names(&published), vec!["Ann".to_string()]);
    assert_eq!(names(&store.get_state()), vec!["Ann".to_string()]);
}

#[test]
fn logger_passes_action_and_logs_it() {
    let out = LoggerMw.run(&Action::RemoveAllContacts);
    assert!(matches!(out.next, Some(Action::RemoveAllContacts)));
    assert!(matches!(out.effect, Some(Effect::Log(Action::RemoveAllContacts))));
    let out = AddAsyncCmdMw.run(&Action::RemoveAllContacts);
    assert!(matches!(out.next, Some(Action::RemoveAllContacts)));
    assert!(out.effect.is_none());
}

#[test]
fn store_without_reducers_records_but_keeps_state() {
    let mut store = Store::new();
    store.dispatch(add("Ann", "a", "1"));
    assert!(store.get_state().contacts.is_empty());
    assert_eq!(store.get_history().len(), 1);
}
