use address_book::address_book::{text_contains, Action, State};
use address_book::command::{parse_command, parse_id, Command};
use address_book::middleware::{add_async_cmd_mw, logger_mw, Effect};
use address_book::store::{create_store, RENDER_SUBSCRIBER};

#[test]
fn commands_map_from_fixed_words() {
    let cases = [
        ("help", Command::Help),
        ("quit", Command::Quit),
        ("exit", Command::Quit),
        ("add-sync", Command::AddSync),
        ("add-async", Command::AddAsync),
        ("clear", Command::Clear),
        ("remove", Command::Remove),
        ("search", Command::Search),
        ("reset", Command::Reset),
        ("history", Command::History),
        ("ip", Command::Ip),
        ("air", Command::Air),
        ("", Command::Unknown),
        ("Help", Command::Unknown),
        ("help ", Command::Unknown),
    ];
    for (text, expected) in cases {
        assert_eq!(parse_command(&text.to_string()), expected, "{:?}", text);
    }
}

#[test]
fn ids_parse_only_from_digits() {
    assert_eq!(parse_id("0"), Some(0));
    assert_eq!(parse_id("42"), Some(42));
    assert_eq!(parse_id("007"), Some(7));
    assert_eq!(parse_id("18446744073709551615"), Some(u64::MAX));
    assert_eq!(parse_id("18446744073709551616"), None);
    assert_eq!(parse_id("99999999999999999999x"), None);
    assert_eq!(parse_id(""), None);
    assert_eq!(parse_id("-1"), None);
    assert_eq!(parse_id("4a"), None);
    assert_eq!(parse_id(" 4"), None);
}

#[test]
fn text_contains_finds_runs() {
    assert!(text_contains("Jane Roe", "Roe"));
    assert!(text_contains("Jane Roe", ""));
    assert!(text_contains("abc", "abc"));
    assert!(!text_contains("abc", "abcd"));
    assert!(!text_contains("Jane Roe", "roe"));
    assert!(!text_contains("", "a"));
}

#[test]
fn search_results_follow_the_term() {
    let mut s = State::new();
    s.apply(&Action::AddContact("Ann Lee".to_string(), "a".to_string(), "1".to_string()));
    s.apply(&Action::AddContact("Bob".to_string(), "b".to_string(), "2".to_string()));
    s.apply(&Action::AddContact("Lee Ann".to_string(), "c".to_string(), "3".to_string()));
    assert_eq!(s.search_results().len(), 3);
    s.apply(&Action::Search("Lee".to_string()));
    let shown: Vec<u64> = s.search_results().iter().map(|c| c.id).collect();
    assert_eq!(shown, vec![0, 2]);
    s.apply(&Action::Search("zzz".to_string()));
    assert!(s.search_results().is_empty());
}

#[test]
fn create_store_registers_in_order() {
    let mut store = create_store();
    let out = store.dispatch(Action::AsyncAddContactRequested);
    assert_eq!(out.effects.len(), 2);
    assert!(matches!(out.effects[0], Effect::Log(_)));
    assert!(matches!(out.effects[1], Effect::FetchContact));
    let out = store.dispatch(Action::RemoveAllContacts);
    assert_eq!(out.notify, vec![RENDER_SUBSCRIBER]);
    assert_eq!(store.get_history().len(), 1);
}

#[test]
fn middleware_functions_match_their_types() {
    let out = logger_mw(&Action::AsyncAddContactRequested);
    assert!(matches!(out.next, Some(Action::AsyncAddContactRequested)));
    let out = add_async_cmd_mw(&Action::AsyncAddContactRequested);
    assert!(out.next.is_none());
    assert!(matches!(out.effect, Some(Effect::FetchContact)));
}
