use bulls_and_cows::game::{Error, GameResult};
use bulls_and_cows::id_pool::IdPool;
use bulls_and_cows::store::{SessionStore, StoreError};

fn chars(s: &str) -> Vec<char> {
    s.chars().collect()
}

#[test]
fn id_pool_hands_out_distinct_increasing_ids() {
    let mut pool = IdPool::new();
    let mut seen = Vec::new();
    for _ in 0..100 {
        let id = pool.next();
        assert!(!seen.contains(&id));
        if let Some(last) = seen.last() {
            assert!(id > *last);
        }
        seen.push(id);
    }
    assert_eq!(seen.first(), Some(&1));
    assert_eq!(seen.last(), Some(&100));
}

#[test]
fn create_returns_fresh_ids() {
    let mut store = SessionStore::new();
    let a = store.create(chars("1234"), 5).unwrap();
    let b = store.create(chars("5678"), 5).unwrap();
    let c = store.create(chars("1357"), 5).unwrap();
    assert_eq!(a, 1);
    assert_eq!(b, 2);
    assert_eq!(c, 3);
}

#[test]
fn create_rejects_duplicate_secret_and_skips_the_id() {
    let mut store = SessionStore::new();
    assert!(matches!(store.create(chars("1224"), 5), Err(Error::NonUnique)));
    // the identifier drawn for the failed start is never reused
    assert_eq!(store.create(chars("1234"), 5).unwrap(), 2);
}

#[test]
fn guess_on_unknown_session_fails() {
    let mut store = SessionStore::new();
    assert!(matches!(
        store.guess(7, chars("1234")),
        Err(StoreError::UnknownSession)
    ));
    let id = store.create(chars("1234"), 5).unwrap();
    assert!(matches!(
        store.guess(id + 1, chars("1234")),
        Err(StoreError::UnknownSession)
    ));
}

#[test]
fn guess_reaches_the_right_session() {
    let mut store = SessionStore::new();
    let a = store.create(chars("1234"), 5).unwrap();
    let b = store.create(chars("4321"), 5).unwrap();
    assert!(matches!(
        store.guess(a, chars("1234")),
        Ok(GameResult::Win)
    ));
    // the other session is untouched and scores against its own secret
    assert!(matches!(
        store.guess(b, chars("1234")),
        Ok(GameResult::Feedback { bulls: 0, cows: 4 })
    ));
    assert_eq!(store.history_of(a).unwrap().len(), 1);
    assert_eq!(store.history_of(b).unwrap().len(), 1);
}

#[test]
fn guess_errors_surface_from_the_game() {
    let mut store = SessionStore::new();
    let id = store.create(chars("1234"), 5).unwrap();
    assert!(matches!(
        store.guess(id, chars("12345")),
        Err(StoreError::LenMismatch)
    ));
    assert!(matches!(
        store.guess(id, chars("1123")),
        Err(StoreError::NonUnique)
    ));
    assert_eq!(store.history_of(id).unwrap().len(), 0);
}

#[test]
fn history_of_reports_guesses_in_order() {
    let mut store = SessionStore::new();
    let id = store.create(chars("1234"), 5).unwrap();
    store.guess(id, chars("1243")).unwrap();
    store.guess(id, chars("5678")).unwrap();
    let history = store.history_of(id).unwrap();
    assert_eq!(history.len(), 2);
    assert_eq!(history[0].sequence, "1243");
    assert_eq!(history[0].bulls, 2);
    assert_eq!(history[0].cows, 2);
    assert_eq!(history[1].sequence, "5678");
    assert_eq!(history[1].bulls, 0);
    assert_eq!(history[1].cows, 0);
    assert!(matches!(
        store.history_of(id + 1),
        Err(StoreError::UnknownSession)
    ));
}

#[test]
fn sequence_of_reveals_the_secret() {
    let mut store = SessionStore::new();
    let id = store.create(chars("1234"), 0).unwrap();
    assert!(matches!(store.guess(id, chars("4321")), Ok(GameResult::Loss)));
    assert_eq!(sequence_string(&store, id), "1234");
    assert!(matches!(
        store.sequence_of(id + 1),
        Err(StoreError::UnknownSession)
    ));
}

fn sequence_string(store: &SessionStore, id: usize) -> String {
    store.sequence_of(id).unwrap().iter().collect()
}
