use todo_core::session::SessionStore;

const GUILD: u64 = 1;
const USER: u64 = 2;

#[test]
fn started_session_is_found_and_consumed_once() {
    let mut sessions = SessionStore::new();
    sessions.start(10, GUILD, USER, "note".to_string(), 0, 30);
    assert!(sessions.has(10));
    assert!(!sessions.has(11));

    let s = sessions.consume(10, GUILD, USER, 5).expect("live session");
    assert_eq!(s.content, "note");
    assert_eq!(s.guild, GUILD);
    assert_eq!(s.user, USER);
    assert_eq!(s.expires_at, 30);
    assert!(!sessions.has(10));
    assert!(sessions.consume(10, GUILD, USER, 6).is_none());
}

#[test]
fn consume_with_wrong_key_guild_user_or_time_changes_nothing() {
    let mut sessions = SessionStore::new();
    sessions.start(10, GUILD, USER, "note".to_string(), 0, 30);

    assert!(sessions.consume(11, GUILD, USER, 5).is_none());
    assert!(sessions.consume(10, GUILD + 1, USER, 5).is_none());
    assert!(sessions.consume(10, GUILD, USER + 1, 5).is_none());
    assert!(sessions.consume(10, GUILD, USER, 30).is_none());
    assert!(sessions.has(10));
}

#[test]
fn ttl_saturates_instead_of_wrapping() {
    let mut sessions = SessionStore::new();
    sessions.start(10, GUILD, USER, "note".to_string(), u64::MAX - 1, 100);
    let s = sessions.consume(10, GUILD, USER, u64::MAX - 1).expect("still live");
    assert_eq!(s.expires_at, u64::MAX);
}

#[test]
fn eviction_removes_exactly_the_expired_sessions() {
    let mut sessions = SessionStore::new();
    sessions.start(1, GUILD, USER, "early".to_string(), 0, 10);
    sessions.start(2, GUILD, USER, "late".to_string(), 0, 100);

    sessions.evict_expired(10);

    assert!(!sessions.has(1));
    assert!(sessions.has(2));
}
