use bgs::{Action, Bg, BgError, Event, ImportRun};

/// Where the in-memory store of these tests fails.
#[derive(Clone, Copy)]
enum Fail {
    Never,
    Lookup(usize),
    Insert(usize),
}

fn names(list: &[&str]) -> Vec<String> {
    list.iter().map(|s| s.to_string()).collect()
}

fn held(store: &[Bg]) -> Vec<String> {
    store.iter().map(|bg| bg.name.clone()).collect()
}

/// Runs an import against an in-memory table, answering each request of the
/// run as a store would.
fn run(store: &mut Vec<Bg>, fetched: Result<Vec<String>, String>, fail: Fail) -> Result<usize, BgError> {
    let (mut import, mut action) = ImportRun::start(fetched);
    let mut lookups: usize = 0;
    let mut inserts: usize = 0;
    loop {
        let event = match action {
            Action::Finish(result) => {
                assert!(import.is_over());
                return result;
            }
            Action::FindByName(name) => {
                lookups += 1;
                if matches!(fail, Fail::Lookup(k) if k + 1 == lookups) {
                    Event::LookedUp(Err("database is locked".to_string()))
                } else {
                    Event::LookedUp(Ok(store.iter().find(|bg| bg.name == name).map(|bg| Bg::new(bg.id, bg.name.clone()))))
                }
            }
            Action::Insert(name) => {
                inserts += 1;
                if matches!(fail, Fail::Insert(k) if k + 1 == inserts) {
                    Event::Inserted(Err("disk full".to_string()))
                } else {
                    let id = store.len() as i64 + 1;
                    store.push(Bg::new(id, name));
                    Event::Inserted(Ok(()))
                }
            }
        };
        assert!(!import.is_over());
        action = import.step(event);
    }
}

#[test]
fn import_catan_and_chess_twice() {
    let mut store = Vec::new();
    let remote = names(&["Catan", "Chess"]);
    assert_eq!(run(&mut store, Ok(remote.clone()), Fail::Never).unwrap(), 2);
    assert_eq!(held(&store), names(&["Catan", "Chess"]));
    assert_eq!(run(&mut store, Ok(remote), Fail::Never).unwrap(), 0);
    assert_eq!(held(&store), names(&["Catan", "Chess"]));
    assert_eq!(store.len(), 2);
}

#[test]
fn fresh_names_are_all_added() {
    let mut store = vec![Bg::new(1, "Go".to_string())];
    let remote = names(&["Catan", "Chess", "Azul"]);
    assert_eq!(run(&mut store, Ok(remote), Fail::Never).unwrap(), 3);
    assert_eq!(held(&store), names(&["Go", "Catan", "Chess", "Azul"]));
}

#[test]
fn known_names_add_nothing() {
    let mut store = vec![Bg::new(1, "Chess".to_string()), Bg::new(2, "Catan".to_string())];
    let remote = names(&["Catan", "Chess"]);
    assert_eq!(run(&mut store, Ok(remote), Fail::Never).unwrap(), 0);
    assert_eq!(store.len(), 2);
}

#[test]
fn names_match_exactly() {
    let mut store = vec![Bg::new(1, "catan".to_string())];
    assert_eq!(run(&mut store, Ok(names(&["Catan", "catan "])), Fail::Never).unwrap(), 2);
    assert_eq!(held(&store), names(&["catan", "Catan", "catan "]));
}

#[test]
fn second_import_adds_nothing() {
    let mut store = vec![Bg::new(1, "Go".to_string())];
    let remote = names(&["Go", "Hive", "Azul"]);
    assert_eq!(run(&mut store, Ok(remote.clone()), Fail::Never).unwrap(), 2);
    let after_first = held(&store);
    assert_eq!(run(&mut store, Ok(remote), Fail::Never).unwrap(), 0);
    assert_eq!(held(&store), after_first);
}

#[test]
fn repeated_remote_name_is_added_once() {
    let mut store = Vec::new();
    assert_eq!(run(&mut store, Ok(names(&["Catan", "Catan", "Chess"])), Fail::Never).unwrap(), 2);
    assert_eq!(held(&store), names(&["Catan", "Chess"]));
}

#[test]
fn empty_catalog_adds_nothing() {
    let mut store = vec![Bg::new(1, "Go".to_string())];
    assert_eq!(run(&mut store, Ok(Vec::new()), Fail::Never).unwrap(), 0);
    assert_eq!(store.len(), 1);
    let (import, action) = ImportRun::start(Ok(Vec::new()));
    assert!(import.is_over());
    assert!(matches!(action, Action::Finish(Ok(0))));
}

#[test]
fn fetch_failure_leaves_store_unchanged() {
    let mut store = vec![Bg::new(1, "Go".to_string())];
    let err = run(&mut store, Err("connection refused".to_string()), Fail::Insert(0)).unwrap_err();
    assert!(matches!(err, BgError::Fetch(_)));
    assert_eq!(err.message(), "connection refused");
    assert_eq!(held(&store), names(&["Go"]));
}

#[test]
fn lookup_failure_keeps_earlier_inserts() {
    let mut store = Vec::new();
    let remote = names(&["Catan", "Chess", "Azul"]);
    let err = run(&mut store, Ok(remote), Fail::Lookup(2)).unwrap_err();
    assert!(matches!(err, BgError::Store(_)));
    assert_eq!(err.message(), "database is locked");
    assert_eq!(held(&store), names(&["Catan", "Chess"]));
}

#[test]
fn insert_failure_keeps_earlier_inserts() {
    let mut store = vec![Bg::new(1, "Chess".to_string())];
    let remote = names(&["Catan", "Chess", "Azul", "Hive"]);
    let err = run(&mut store, Ok(remote), Fail::Insert(1)).unwrap_err();
    assert!(matches!(err, BgError::Store(_)));
    assert_eq!(err.message(), "disk full");
    assert_eq!(held(&store), names(&["Chess", "Catan"]));
}

#[test]
fn listing_holds_union_of_imports() {
    let mut store = Vec::new();
    assert_eq!(run(&mut store, Ok(names(&["Catan", "Chess"])), Fail::Never).unwrap(), 2);
    assert_eq!(run(&mut store, Ok(names(&["Chess", "Go", "Catan", "Hive"])), Fail::Never).unwrap(), 2);
    assert_eq!(run(&mut store, Ok(names(&["Go"])), Fail::Never).unwrap(), 0);
    assert_eq!(held(&store), names(&["Catan", "Chess", "Go", "Hive"]));
}

#[test]
fn first_request_is_lookup_of_first_name() {
    let (import, action) = ImportRun::start(Ok(names(&["Catan", "Chess"])));
    assert!(!import.is_over());
    assert!(matches!(action, Action::FindByName(ref n) if n == "Catan"));
    assert!(matches!(import.action(), Action::FindByName(ref n) if n == "Catan"));
}

#[test]
fn absent_name_is_inserted_then_next_looked_up() {
    let (mut import, _) = ImportRun::start(Ok(names(&["Catan", "Chess"])));
    let action = import.step(Event::LookedUp(Ok(None)));
    assert!(matches!(action, Action::Insert(ref n) if n == "Catan"));
    let action = import.step(Event::Inserted(Ok(())));
    assert!(matches!(action, Action::FindByName(ref n) if n == "Chess"));
    let action = import.step(Event::LookedUp(Ok(Some(Bg::new(7, "Chess".to_string())))));
    assert!(matches!(action, Action::Finish(Ok(1))));
}

#[test]
fn unrequested_report_is_ignored() {
    let (mut import, _) = ImportRun::start(Ok(names(&["Catan"])));
    let action = import.step(Event::Inserted(Ok(())));
    assert!(matches!(action, Action::FindByName(ref n) if n == "Catan"));
    let action = import.step(Event::LookedUp(Ok(None)));
    assert!(matches!(action, Action::Insert(ref n) if n == "Catan"));
    let action = import.step(Event::LookedUp(Ok(None)));
    assert!(matches!(action, Action::Insert(ref n) if n == "Catan"));
}

#[test]
fn finished_run_keeps_its_error() {
    let (mut import, _) = ImportRun::start(Ok(names(&["Catan"])));
    let action = import.step(Event::LookedUp(Err("no such table: bgs".to_string())));
    assert!(matches!(action, Action::Finish(Err(BgError::Store(ref m))) if m == "no such table: bgs"));
    assert!(import.is_over());
    let action = import.step(Event::Inserted(Ok(())));
    assert!(matches!(action, Action::Finish(Err(BgError::Store(ref m))) if m == "no such table: bgs"));
}

#[test]
fn error_duplicate_keeps_kind_and_text() {
    let e = BgError::Fetch("timeout".to_string());
    let d = e.duplicate();
    assert!(matches!(d, BgError::Fetch(ref m) if m == "timeout"));
}
