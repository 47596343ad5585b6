use todo_core::store::{RepoError, TodoStore};
use todo_core::team::Team;

const GUILD_A: u64 = 11;
const GUILD_B: u64 = 22;
const USER: u64 = 7;
const NOW: u64 = 1000;

#[test]
fn teams_are_fixed_and_ordered() {
    let teams = Team::all();
    let names: Vec<&str> = teams.iter().map(|t| t.name()).collect();
    assert_eq!(names, vec!["iOS", "Android", "Web", "Server"]);
}

#[test]
fn team_parse_accepts_exactly_the_fixed_names() {
    assert_eq!(Team::parse(&"iOS".to_string()), Some(Team::IOs));
    assert_eq!(Team::parse(&"Android".to_string()), Some(Team::Android));
    assert_eq!(Team::parse(&"Web".to_string()), Some(Team::Web));
    assert_eq!(Team::parse(&"Server".to_string()), Some(Team::Server));
    assert_eq!(Team::parse(&"ios".to_string()), None);
    assert_eq!(Team::parse(&"Backend".to_string()), None);
    assert_eq!(Team::parse(&"".to_string()), None);
}

#[test]
fn add_then_get_round_trip() {
    let mut store = TodoStore::new();
    let created = store
        .add_todo(GUILD_A, Team::Web, "buy milk".to_string(), USER, NOW)
        .expect("add must succeed");
    assert_eq!(created.team, Team::Web);
    assert_eq!(created.content, "buy milk");
    assert_eq!(created.guild, GUILD_A);
    assert_eq!(created.author, USER);
    assert_eq!(created.created_at, NOW);

    let todos = store.get_todos(GUILD_A);
    assert_eq!(todos.len(), 1);
    assert_eq!(todos[0].team, Team::Web);
    assert_eq!(todos[0].content, "buy milk");
}

#[test]
fn get_todos_of_untouched_guild_is_empty_not_an_error() {
    let store = TodoStore::new();
    assert!(store.get_todos(GUILD_A).is_empty());
}

#[test]
fn add_in_one_guild_never_affects_another() {
    let mut store = TodoStore::new();
    store
        .add_todo(GUILD_A, Team::IOs, "ship login".to_string(), USER, NOW)
        .unwrap();
    assert!(store.get_todos(GUILD_B).is_empty());
    assert_eq!(store.get_todos(GUILD_A).len(), 1);
}

#[test]
fn reset_clears_only_its_guild() {
    let mut store = TodoStore::new();
    store
        .add_todo(GUILD_A, Team::IOs, "one".to_string(), USER, NOW)
        .unwrap();
    store
        .add_todo(GUILD_A, Team::Web, "two".to_string(), USER, NOW)
        .unwrap();
    store
        .add_todo(GUILD_B, Team::Server, "other".to_string(), USER, NOW)
        .unwrap();

    store.reset(GUILD_A);

    assert!(store.get_todos(GUILD_A).is_empty());
    let other = store.get_todos(GUILD_B);
    assert_eq!(other.len(), 1);
    assert_eq!(other[0].content, "other");
}

#[test]
fn reset_twice_equals_reset_once() {
    let mut store = TodoStore::new();
    store
        .add_todo(GUILD_A, Team::Android, "gone".to_string(), USER, NOW)
        .unwrap();
    store
        .add_todo(GUILD_B, Team::Android, "kept".to_string(), USER, NOW)
        .unwrap();

    store.reset(GUILD_A);
    let a_once: Vec<String> = store.get_todos(GUILD_A).iter().map(|t| t.content.clone()).collect();
    let b_once: Vec<String> = store.get_todos(GUILD_B).iter().map(|t| t.content.clone()).collect();

    store.reset(GUILD_A);
    let a_twice: Vec<String> = store.get_todos(GUILD_A).iter().map(|t| t.content.clone()).collect();
    let b_twice: Vec<String> = store.get_todos(GUILD_B).iter().map(|t| t.content.clone()).collect();

    assert_eq!(a_once, a_twice);
    assert_eq!(b_once, b_twice);
    assert!(a_once.is_empty());
}

#[test]
fn reset_on_guild_without_data_is_safe() {
    let mut store = TodoStore::new();
    store.reset(GUILD_A);
    assert!(store.get_todos(GUILD_A).is_empty());
}

#[test]
fn empty_content_is_rejected_with_validation_error() {
    let mut store = TodoStore::new();
    let r = store.add_todo(GUILD_A, Team::Web, String::new(), USER, NOW);
    assert_eq!(r.unwrap_err(), RepoError::Validation);
    assert!(store.get_todos(GUILD_A).is_empty());
}

#[test]
fn many_adds_each_succeed_exactly_once() {
    let mut store = TodoStore::new();
    let n: u64 = 25;
    for k in 0..n {
        // adds for an unrelated guild interleave without being counted
        store
            .add_todo(GUILD_B, Team::IOs, "noise".to_string(), USER, NOW)
            .unwrap();
        store
            .add_todo(GUILD_A, Team::Server, format!("task {}", k), USER, NOW + k)
            .unwrap();
    }
    let todos = store.get_todos(GUILD_A);
    assert_eq!(todos.len(), n as usize);
    let mut ids: Vec<u64> = todos.iter().map(|t| t.id).collect();
    ids.dedup();
    assert_eq!(ids.len(), n as usize);
    for (k, t) in todos.iter().enumerate() {
        assert_eq!(t.content, format!("task {}", k));
    }
}

#[test]
fn insertion_order_is_preserved_per_guild() {
    let mut store = TodoStore::new();
    store
        .add_todo(GUILD_A, Team::Web, "first".to_string(), USER, NOW)
        .unwrap();
    store
        .add_todo(GUILD_A, Team::IOs, "second".to_string(), USER, NOW)
        .unwrap();
    store
        .add_todo(GUILD_A, Team::Web, "third".to_string(), USER, NOW)
        .unwrap();
    let contents: Vec<String> = store.get_todos(GUILD_A).iter().map(|t| t.content.clone()).collect();
    assert_eq!(contents, vec!["first", "second", "third"]);
}
