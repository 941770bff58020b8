use quku::locks::{lock, purge, unlock};
use quku::{Error, Lock, Registry};

fn token(text: &str) -> Lock {
    Lock { token: text.to_string() }
}

fn body(record: &Lock) -> String {
    let mut fields = serde_json::Map::new();
    fields.insert("token".to_string(), serde_json::Value::String(record.token.clone()));
    serde_json::to_string(&serde_json::Value::Object(fields)).unwrap()
}

#[test]
fn release_hands_back_the_acquired_token() {
    let mut registry = Registry::new();

    registry.acquire("k".to_string(), token("t"));

    assert_eq!(registry.release("k"), Ok(token("t")));
    assert_eq!(registry.release("k"), Err(Error::NotFound));
}

#[test]
fn later_acquire_overwrites_the_earlier_token() {
    let mut registry = Registry::new();

    registry.acquire("k".to_string(), token("t1"));
    registry.acquire("k".to_string(), token("t2"));

    assert_eq!(registry.release("k"), Ok(token("t2")));
    assert_eq!(registry.release("k"), Err(Error::NotFound));
}

#[test]
fn purge_of_an_empty_registry_changes_nothing() {
    let mut registry = Registry::new();

    registry.purge_all();

    assert_eq!(registry.release("k"), Err(Error::NotFound));
    registry.acquire("k".to_string(), token("t"));
    assert_eq!(registry.release("k"), Ok(token("t")));
}

#[test]
fn purge_frees_every_acquired_key() {
    let mut registry = Registry::new();
    registry.acquire("a".to_string(), token("x"));
    registry.acquire("b".to_string(), token("y"));
    registry.acquire("c".to_string(), token("z"));

    registry.purge_all();

    assert_eq!(registry.release("a"), Err(Error::NotFound));
    assert_eq!(registry.release("b"), Err(Error::NotFound));
    assert_eq!(registry.release("c"), Err(Error::NotFound));
}

#[test]
fn purge_twice_is_the_same_as_once() {
    let mut registry = Registry::new();
    registry.acquire("a".to_string(), token("x"));

    registry.purge_all();
    registry.purge_all();

    assert_eq!(registry.release("a"), Err(Error::NotFound));
}

#[test]
fn release_of_an_unknown_key_fails() {
    let mut registry = Registry::new();

    assert_eq!(registry.release("nope"), Err(Error::NotFound));
}

#[test]
fn distinct_keys_do_not_interfere() {
    let mut one_order = Registry::new();
    one_order.acquire("a".to_string(), token("x"));
    one_order.acquire("b".to_string(), token("y"));

    let mut other_order = Registry::new();
    other_order.acquire("b".to_string(), token("y"));
    other_order.acquire("a".to_string(), token("x"));

    assert_eq!(one_order.release("a"), Ok(token("x")));
    assert_eq!(one_order.release("b"), Ok(token("y")));
    assert_eq!(other_order.release("b"), Ok(token("y")));
    assert_eq!(other_order.release("a"), Ok(token("x")));
}

#[test]
fn release_of_one_key_leaves_the_other_held() {
    let mut registry = Registry::new();
    registry.acquire("a".to_string(), token("x"));
    registry.acquire("b".to_string(), token("y"));

    assert_eq!(registry.release("a"), Ok(token("x")));
    registry.acquire("a".to_string(), token("x2"));

    assert_eq!(registry.release("b"), Ok(token("y")));
    assert_eq!(registry.release("a"), Ok(token("x2")));
}

#[test]
fn release_does_not_look_at_the_token() {
    let mut registry = Registry::new();
    registry.acquire("door".to_string(), token("owner-1"));

    let released = registry.release("door").unwrap();

    assert_eq!(released.token, "owner-1");
}

#[test]
fn keys_are_told_apart_exactly() {
    let mut registry = Registry::new();
    registry.acquire("Room".to_string(), token("upper"));
    registry.acquire("room".to_string(), token("lower"));
    registry.acquire("room ".to_string(), token("spaced"));

    assert_eq!(registry.release("room"), Ok(token("lower")));
    assert_eq!(registry.release("Room"), Ok(token("upper")));
    assert_eq!(registry.release("room "), Ok(token("spaced")));
    assert_eq!(registry.release("roo"), Err(Error::NotFound));
}

#[test]
fn empty_key_and_empty_token_are_kept() {
    let mut registry = Registry::new();

    registry.acquire(String::new(), token(""));

    assert_eq!(registry.release(""), Ok(token("")));
    assert_eq!(registry.release(""), Err(Error::NotFound));
}

#[test]
fn token_comes_back_unmodified() {
    let text = " \u{1F512} tok\u{00E9}n\n\t\"quoted\" \\ \u{0000} ";
    let mut registry = Registry::new();

    registry.acquire("k\u{00FC}y".to_string(), token(text));

    let released = registry.release("k\u{00FC}y").unwrap();
    assert_eq!(released.token, text);
    assert_eq!(released.token.as_bytes(), text.as_bytes());
}

#[test]
fn lock_copy_equals_the_lock() {
    let first = token("tok-abc");

    let copy = first.clone();

    assert_eq!(copy, first);
    assert_ne!(copy, token("tok-abd"));
}

#[test]
fn lock_request_answers_created() {
    let mut registry = Registry::new();

    assert_eq!(lock(&mut registry, "k".to_string(), token("t1")), 201);
    assert_eq!(lock(&mut registry, "k".to_string(), token("t2")), 201);
    assert_eq!(registry.release("k"), Ok(token("t2")));
}

#[test]
fn unlock_request_answers_ok_with_the_record_or_gone() {
    let mut registry = Registry::new();
    registry.acquire("k".to_string(), token("t"));

    assert_eq!(unlock(&mut registry, "k"), (200, Some(token("t"))));
    assert_eq!(unlock(&mut registry, "k"), (410, None));
    assert_eq!(unlock(&mut registry, "other"), (410, None));
}

#[test]
fn purge_request_answers_ok() {
    let mut registry = Registry::new();

    assert_eq!(purge(&mut registry), 200);
    registry.acquire("k".to_string(), token("t"));
    assert_eq!(purge(&mut registry), 200);
    assert_eq!(registry.release("k"), Err(Error::NotFound));
}

#[test]
fn lock_service_scenario() {
    let mut registry = Registry::new();

    assert_eq!(lock(&mut registry, "room1".to_string(), token("tok-abc")), 201);

    let (status, record) = unlock(&mut registry, "room1");
    assert_eq!(status, 200);
    assert_eq!(body(&record.unwrap()), "{\"token\":\"tok-abc\"}");

    assert_eq!(unlock(&mut registry, "room1"), (410, None));

    assert_eq!(lock(&mut registry, "room1".to_string(), token("t1")), 201);
    assert_eq!(lock(&mut registry, "room1".to_string(), token("t2")), 201);
    let (status, record) = unlock(&mut registry, "room1");
    assert_eq!(status, 200);
    assert_eq!(body(&record.unwrap()), "{\"token\":\"t2\"}");

    assert_eq!(purge(&mut registry), 200);

    assert_eq!(unlock(&mut registry, "room1"), (410, None));
}
