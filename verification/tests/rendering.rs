use todo_core::render::render;
use todo_core::store::TodoStore;
use todo_core::team::Team;

const GUILD: u64 = 5;
const USER: u64 = 9;
const NOW: u64 = 42;

#[test]
fn report_with_no_todos_still_shows_every_team_block() {
    let store = TodoStore::new();
    let teams = store.get_teams(GUILD);
    let todos = store.get_todos(GUILD);
    let report = render(&teams, &todos);
    assert_eq!(
        report,
        "iOS:\n  no items\n\n\
         Android:\n  no items\n\n\
         Web:\n  no items\n\n\
         Server:\n  no items\n\n"
    );
}

#[test]
fn report_groups_todos_by_team_in_fixed_order() {
    let mut store = TodoStore::new();
    store
        .add_todo(GUILD, Team::Web, "buy milk".to_string(), USER, NOW)
        .unwrap();
    store
        .add_todo(GUILD, Team::IOs, "fix crash".to_string(), USER, NOW)
        .unwrap();
    store
        .add_todo(GUILD, Team::Web, "write docs".to_string(), USER, NOW)
        .unwrap();

    let teams = store.get_teams(GUILD);
    let todos = store.get_todos(GUILD);
    let report = render(&teams, &todos);
    assert_eq!(
        report,
        "iOS:\n  - fix crash\n\n\
         Android:\n  no items\n\n\
         Web:\n  - buy milk\n  - write docs\n\n\
         Server:\n  no items\n\n"
    );
}

#[test]
fn added_todo_appears_inside_its_team_block() {
    let mut store = TodoStore::new();
    store
        .add_todo(GUILD, Team::Web, "buy milk".to_string(), USER, NOW)
        .unwrap();
    let report = render(&store.get_teams(GUILD), &store.get_todos(GUILD));
    let web_block_start = report.find("Web:").expect("web block present");
    let server_block_start = report.find("Server:").expect("server block present");
    let milk = report.find("  - buy milk").expect("todo line present");
    assert!(web_block_start < milk && milk < server_block_start);
}

#[test]
fn rendering_is_deterministic() {
    let mut store = TodoStore::new();
    store
        .add_todo(GUILD, Team::Android, "triage".to_string(), USER, NOW)
        .unwrap();
    let teams = store.get_teams(GUILD);
    let todos = store.get_todos(GUILD);
    assert_eq!(render(&teams, &todos), render(&teams, &todos));
}

#[test]
fn report_order_follows_the_team_list_given() {
    let store = TodoStore::new();
    let teams = vec![Team::Server, Team::Web];
    let report = render(&teams, &store.get_todos(GUILD));
    assert_eq!(report, "Server:\n  no items\n\nWeb:\n  no items\n\n");
}
