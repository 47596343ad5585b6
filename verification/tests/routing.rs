use todo_core::router::{Event, TodoBot};
use todo_core::team::Team;

const GUILD: u64 = 100;
const OTHER_GUILD: u64 = 200;
const USER: u64 = 1;
const OTHER_USER: u64 = 2;
const TTL: u64 = 60;

fn command(
    guild: Option<u64>,
    interaction_id: u64,
    user: u64,
    name: &str,
    sub: Option<&str>,
    content: Option<&str>,
    team: Option<&str>,
) -> Event {
    Event::Command {
        guild,
        interaction_id,
        user,
        name: name.to_string(),
        sub: sub.map(|s| s.to_string()),
        content: content.map(|s| s.to_string()),
        team: team.map(|s| s.to_string()),
    }
}

fn click(guild: Option<u64>, origin: Option<u64>, user: u64, custom_id: &str) -> Event {
    Event::Component {
        guild,
        origin_interaction_id: origin,
        user,
        custom_id: custom_id.to_string(),
    }
}

#[test]
fn event_without_guild_is_consumed_silently() {
    let mut bot = TodoBot::new(TTL);
    let r = bot.handle_event(command(None, 1, USER, "todo", Some("show"), None, None), 0);
    assert!(r.is_none());
    let r = bot.handle_event(click(None, Some(1), USER, "Web"), 0);
    assert!(r.is_none());
}

#[test]
fn unmatched_command_name_routes_to_not_found() {
    let mut bot = TodoBot::new(TTL);
    let r = bot
        .handle_event(command(Some(GUILD), 1, USER, "ping", Some("show"), None, None), 0)
        .unwrap();
    assert_eq!(r.title, "Not found");
}

#[test]
fn unmatched_sub_command_routes_to_not_found() {
    let mut bot = TodoBot::new(TTL);
    let r = bot
        .handle_event(command(Some(GUILD), 1, USER, "todo", Some("edit"), None, None), 0)
        .unwrap();
    assert_eq!(r.title, "Not found");
    let r = bot
        .handle_event(command(Some(GUILD), 2, USER, "todo", None, None, None), 0)
        .unwrap();
    assert_eq!(r.title, "Not found");
}

#[test]
fn unmatched_custom_id_routes_to_not_found() {
    let mut bot = TodoBot::new(TTL);
    let r = bot.handle_event(click(Some(GUILD), Some(1), USER, "Backend"), 0).unwrap();
    assert_eq!(r.title, "Not found");
}

#[test]
fn click_without_origin_metadata_routes_to_not_found() {
    let mut bot = TodoBot::new(TTL);
    let r = bot.handle_event(click(Some(GUILD), None, USER, "Web"), 0).unwrap();
    assert_eq!(r.title, "Not found");
}

#[test]
fn show_renders_the_report() {
    let mut bot = TodoBot::new(TTL);
    let r = bot
        .handle_event(command(Some(GUILD), 1, USER, "todo", Some("show"), None, None), 0)
        .unwrap();
    assert_eq!(r.title, "Todos");
    assert!(r.description.contains("iOS:"));
    assert!(r.description.contains("Server:"));
    assert!(r.description.contains("no items"));
}

#[test]
fn one_step_add_with_team_completes_immediately() {
    let mut bot = TodoBot::new(TTL);
    let r = bot
        .handle_event(
            command(Some(GUILD), 1, USER, "todo", Some("add"), Some("buy milk"), Some("Web")),
            5,
        )
        .unwrap();
    assert_eq!(r.title, "Todo added");
    assert_eq!(r.description, "Added a todo for Web.");
    let todos = bot.store.get_todos(GUILD);
    assert_eq!(todos.len(), 1);
    assert_eq!(todos[0].team, Team::Web);
    assert_eq!(todos[0].content, "buy milk");
    assert_eq!(todos[0].created_at, 5);
}

#[test]
fn add_with_unknown_team_is_rejected() {
    let mut bot = TodoBot::new(TTL);
    let r = bot
        .handle_event(
            command(Some(GUILD), 1, USER, "todo", Some("add"), Some("buy milk"), Some("Backend")),
            0,
        )
        .unwrap();
    assert_eq!(r.title, "Invalid request");
    assert!(bot.store.get_todos(GUILD).is_empty());
}

#[test]
fn add_with_empty_or_missing_content_is_rejected() {
    let mut bot = TodoBot::new(TTL);
    let r = bot
        .handle_event(command(Some(GUILD), 1, USER, "todo", Some("add"), Some(""), Some("Web")), 0)
        .unwrap();
    assert_eq!(r.title, "Invalid request");
    let r = bot
        .handle_event(command(Some(GUILD), 2, USER, "todo", Some("add"), None, None), 0)
        .unwrap();
    assert_eq!(r.title, "Invalid request");
    assert!(bot.store.get_todos(GUILD).is_empty());
}

#[test]
fn reset_command_clears_the_guild() {
    let mut bot = TodoBot::new(TTL);
    bot.handle_event(
        command(Some(GUILD), 1, USER, "todo", Some("add"), Some("a"), Some("iOS")),
        0,
    );
    bot.handle_event(
        command(Some(OTHER_GUILD), 2, USER, "todo", Some("add"), Some("b"), Some("iOS")),
        0,
    );
    let r = bot
        .handle_event(command(Some(GUILD), 3, USER, "todo", Some("reset"), None, None), 1)
        .unwrap();
    assert_eq!(r.title, "Todos reset");
    assert!(bot.store.get_todos(GUILD).is_empty());
    assert_eq!(bot.store.get_todos(OTHER_GUILD).len(), 1);
}

#[test]
fn two_step_add_completes_on_matching_click() {
    let mut bot = TodoBot::new(TTL);
    let r = bot
        .handle_event(
            command(Some(GUILD), 10, USER, "todo", Some("add"), Some("buy milk"), None),
            0,
        )
        .unwrap();
    assert_eq!(r.title, "Choose a team");
    assert!(bot.store.get_todos(GUILD).is_empty());

    let r = bot.handle_event(click(Some(GUILD), Some(10), USER, "Web"), 1).unwrap();
    assert_eq!(r.title, "Todo added");
    let todos = bot.store.get_todos(GUILD);
    assert_eq!(todos.len(), 1);
    assert_eq!(todos[0].team, Team::Web);
    assert_eq!(todos[0].content, "buy milk");
}

#[test]
fn click_referencing_a_different_interaction_completes_nothing() {
    let mut bot = TodoBot::new(TTL);
    bot.handle_event(
        command(Some(GUILD), 10, USER, "todo", Some("add"), Some("buy milk"), None),
        0,
    );
    let r = bot.handle_event(click(Some(GUILD), Some(11), USER, "Web"), 1).unwrap();
    assert_eq!(r.title, "Not found");
    assert!(bot.store.get_todos(GUILD).is_empty());

    // the original session is still intact and can complete afterwards
    let r = bot.handle_event(click(Some(GUILD), Some(10), USER, "Web"), 2).unwrap();
    assert_eq!(r.title, "Todo added");
}

#[test]
fn session_is_consumed_exactly_once() {
    let mut bot = TodoBot::new(TTL);
    bot.handle_event(command(Some(GUILD), 10, USER, "todo", Some("add"), Some("x"), None), 0);
    let r = bot.handle_event(click(Some(GUILD), Some(10), USER, "iOS"), 1).unwrap();
    assert_eq!(r.title, "Todo added");
    let r = bot.handle_event(click(Some(GUILD), Some(10), USER, "iOS"), 2).unwrap();
    assert_eq!(r.title, "Not found");
    assert_eq!(bot.store.get_todos(GUILD).len(), 1);
}

#[test]
fn expired_session_routes_like_no_session() {
    let mut bot = TodoBot::new(TTL);
    bot.handle_event(command(Some(GUILD), 10, USER, "todo", Some("add"), Some("x"), None), 0);
    // the deadline itself is already expiry
    let r = bot.handle_event(click(Some(GUILD), Some(10), USER, "Web"), TTL).unwrap();
    assert_eq!(r.title, "Not found");
    assert!(bot.store.get_todos(GUILD).is_empty());
}

#[test]
fn click_by_another_user_does_not_consume_the_session() {
    let mut bot = TodoBot::new(TTL);
    bot.handle_event(command(Some(GUILD), 10, USER, "todo", Some("add"), Some("x"), None), 0);
    let r = bot.handle_event(click(Some(GUILD), Some(10), OTHER_USER, "Web"), 1).unwrap();
    assert_eq!(r.title, "Not found");
    assert!(bot.store.get_todos(GUILD).is_empty());
    let r = bot.handle_event(click(Some(GUILD), Some(10), USER, "Web"), 2).unwrap();
    assert_eq!(r.title, "Todo added");
}

#[test]
fn click_from_another_guild_does_not_consume_the_session() {
    let mut bot = TodoBot::new(TTL);
    bot.handle_event(command(Some(GUILD), 10, USER, "todo", Some("add"), Some("x"), None), 0);
    let r = bot.handle_event(click(Some(OTHER_GUILD), Some(10), USER, "Web"), 1).unwrap();
    assert_eq!(r.title, "Not found");
    assert!(bot.store.get_todos(GUILD).is_empty());
    assert!(bot.store.get_todos(OTHER_GUILD).is_empty());
}

#[test]
fn repeated_add_command_reacknowledges_without_new_session() {
    let mut bot = TodoBot::new(TTL);
    let r1 = bot
        .handle_event(command(Some(GUILD), 10, USER, "todo", Some("add"), Some("x"), None), 0)
        .unwrap();
    let r2 = bot
        .handle_event(command(Some(GUILD), 10, USER, "todo", Some("add"), Some("x"), None), 1)
        .unwrap();
    assert_eq!(r1.title, "Choose a team");
    assert_eq!(r2.title, "Choose a team");
    let r = bot.handle_event(click(Some(GUILD), Some(10), USER, "Web"), 2).unwrap();
    assert_eq!(r.title, "Todo added");
    assert_eq!(bot.store.get_todos(GUILD).len(), 1);
}
