use std::cell::Cell;
use world_graph::{
    resolve_in, Action, Event, Pair, ResolveError, Resolver, Strategy, Triple, TripleStore,
};

fn t(a: &str, b: &str, c: &str) -> Triple {
    Triple::new(a.to_string(), b.to_string(), c.to_string())
}

fn pair(a: &str, b: &str) -> Pair {
    Pair::new(a.to_string(), b.to_string())
}

#[test]
fn second_resolution_is_a_pure_hit() {
    let mut store = TripleStore::new();
    let calls = Cell::new(0);
    let oracle = |_: &str| {
        calls.set(calls.get() + 1);
        Ok(" Queen\n".to_string())
    };
    let first = resolve_in(&mut store, Strategy::Simple, pair("king", "woman"), &oracle).unwrap();
    assert_eq!(first, t("woman", "king", "Queen"));
    assert_eq!(calls.get(), 1);
    let second = resolve_in(&mut store, Strategy::Simple, pair("woman", "king"), &oracle).unwrap();
    assert_eq!(second, first);
    assert_eq!(calls.get(), 1);
    assert_eq!(store.list_all(), vec![t("woman", "king", "Queen")]);
}

#[test]
fn lookup_is_case_sensitive() {
    let mut store = TripleStore::new();
    store.insert(t("king", "woman", "queen"));
    let calls = Cell::new(0);
    let oracle = |_: &str| {
        calls.set(calls.get() + 1);
        Ok("Empress".to_string())
    };
    let r = resolve_in(&mut store, Strategy::Simple, pair("Woman", "King"), &oracle).unwrap();
    assert_eq!(r, t("Woman", "King", "Empress"));
    assert_eq!(calls.get(), 1);
    assert_eq!(store.get("king", "woman"), Some(t("king", "woman", "queen")));
    assert_eq!(store.list_all().len(), 2);
}

#[test]
fn sampled_three_makes_two_calls() {
    let mut store = TripleStore::new();
    let calls = Cell::new(0);
    let oracle = |_: &str| {
        calls.set(calls.get() + 1);
        Ok("Steam".to_string())
    };
    let r = resolve_in(&mut store, Strategy::Sample(3), pair("water", "fire"), &oracle).unwrap();
    assert_eq!(calls.get(), 2);
    assert_eq!(r, t("water", "fire", "Steam"));
}

#[test]
fn sampled_all_failures_store_undefined() {
    let mut store = TripleStore::new();
    let calls = Cell::new(0);
    let failing = |_: &str| {
        calls.set(calls.get() + 1);
        Err("connection refused".to_string())
    };
    let r = resolve_in(&mut store, Strategy::Sample(3), pair("moss", "karl marx"), &failing).unwrap();
    assert_eq!(r, t("moss", "karl marx", "undefined"));
    assert_eq!(calls.get(), 2);
    let again = resolve_in(&mut store, Strategy::Sample(3), pair("karl marx", "moss"), &failing).unwrap();
    assert_eq!(again, r);
    assert_eq!(calls.get(), 2);
}

#[test]
fn simple_failure_stores_nothing() {
    let mut store = TripleStore::new();
    let failing = |_: &str| Err("timeout".to_string());
    let r = resolve_in(&mut store, Strategy::Simple, pair("a", "b"), &failing);
    assert!(matches!(r, Err(ResolveError::Oracle(ref m)) if m == "timeout"));
    assert!(store.list_all().is_empty());
}

#[test]
fn prompt_carries_context_from_store() {
    let mut store = TripleStore::new();
    store.insert(t("water", "fire", "steam"));
    store.insert(t("sea", "sand", "beach"));
    let seen = std::cell::RefCell::new(String::new());
    let oracle = |p: &str| {
        *seen.borrow_mut() = p.to_string();
        Ok("Ocean".to_string())
    };
    resolve_in(&mut store, Strategy::Simple, pair("sea", "water"), &oracle).unwrap();
    assert!(seen
        .borrow()
        .ends_with("% water + fire = steam\n% sea + sand = beach\n% water + sea ="));
}

#[test]
fn machine_walks_a_miss_to_the_end() {
    let (mut r, act) = Resolver::start(pair("fire", "water"), Strategy::Sample(4));
    assert!(matches!(act, Action::Lookup { ref a, ref b } if a == "water" && b == "fire"));
    let act = r.step(Event::Looked(None));
    assert!(matches!(act, Action::FindByOperand(ref x) if x == "water"));
    let act = r.step(Event::Found(Ok(vec![t("water", "sea", "ocean")])));
    assert!(matches!(act, Action::FindByOperand(ref x) if x == "fire"));
    let act = r.step(Event::Found(Ok(Vec::new())));
    match act {
        Action::Complete { prompt, calls } => {
            assert_eq!(calls, 3);
            assert!(prompt.ends_with("% water + sea = ocean\n% water + fire ="));
        }
        other => panic!("unexpected {:?}", other),
    }
    let outs = vec![Ok("Steam".to_string()), Err("x".to_string()), Ok(" Steam".to_string())];
    let act = r.step(Event::Completed(outs));
    assert!(matches!(act, Action::Persist(ref f) if *f == t("water", "fire", "Steam")));
    let act = r.step(Event::Persisted(Ok(())));
    assert!(matches!(act, Action::Respond(Ok(ref f)) if *f == t("water", "fire", "Steam")));
}

#[test]
fn machine_answers_a_hit_unchanged() {
    let (mut r, _) = Resolver::start(pair("x", "y"), Strategy::Simple);
    let act = r.step(Event::Looked(Some(t("y", "x", "undefined"))));
    assert!(matches!(act, Action::Respond(Ok(ref f)) if *f == t("y", "x", "undefined")));
}

#[test]
fn machine_reports_store_failures() {
    let (mut r, _) = Resolver::start(pair("x", "y"), Strategy::Simple);
    r.step(Event::Looked(None));
    let act = r.step(Event::Found(Err("disk full".to_string())));
    assert!(matches!(act, Action::Respond(Err(ResolveError::Store(ref m))) if m == "disk full"));

    let (mut r, _) = Resolver::start(pair("x", "y"), Strategy::Simple);
    r.step(Event::Looked(None));
    r.step(Event::Found(Ok(Vec::new())));
    r.step(Event::Found(Ok(Vec::new())));
    r.step(Event::Completed(vec![Ok("z".to_string())]));
    let act = r.step(Event::Persisted(Err("locked".to_string())));
    match act {
        Action::Respond(Err(e)) => {
            assert!(matches!(e, ResolveError::Store(_)));
            assert_eq!(e.message(), "locked");
        }
        other => panic!("unexpected {:?}", other),
    }
}

#[test]
fn sampled_miss_succeeds_and_appends() {
    let mut store = TripleStore::new();
    store.insert(t("king", "woman", "queen"));
    let r = resolve_in(&mut store, Strategy::Sample(4), pair("Woman", "King"), &|_: &str| {
        Ok("Empress".to_string())
    })
    .unwrap();
    assert_eq!(r, t("Woman", "King", "Empress"));
    assert_eq!(store.list_all(), vec![t("king", "woman", "queen"), t("Woman", "King", "Empress")]);
}
