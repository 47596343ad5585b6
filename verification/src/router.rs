//! The interaction router and the top-level bot state.
//!
//! `TodoBot::handle_event` classifies an inbound event as a command or a
//! component interaction, resolves exactly one handler (unmatched names,
//! sub-commands and custom-ids fall back to the fixed not-found handler),
//! and returns at most one renderable response. An event without a guild
//! context is consumed silently, since no guild-scoped action is
//! possible. The entire effect of one event on the observable state is
//! pinned by [`event_post`].

use vstd::prelude::*;
use crate::render::render;
use crate::respond::{
    added_resp, added_response, not_found_resp, not_found_response, opt_view, prompt_resp,
    prompt_response, reset_resp, reset_response, show_resp, storage_resp, storage_response,
    validation_resp, validation_response, RespView, Response,
};
use crate::session::{spec_deadline, SessionStore, SessionView};
use crate::store::{add_post, reset_post, RepoError, TodoStore};
use crate::team::Team;
use crate::todo::TodoView;

verus! {

/// One inbound platform event, reduced to the plain values the core
/// routes on.
#[derive(Debug)]
pub enum Event {
    /// A slash-command invocation.
    Command {
        guild: Option<u64>,
        interaction_id: u64,
        user: u64,
        name: String,
        sub: Option<String>,
        content: Option<String>,
        team: Option<String>,
    },
    /// A component (button) click; the origin is the identity of the
    /// command interaction the clicked message responded to, recovered
    /// from the message metadata.
    Component {
        guild: Option<u64>,
        origin_interaction_id: Option<u64>,
        user: u64,
        custom_id: String,
    },
}

/// The mathematical value of an [`Event`].
pub enum EventView {
    Command {
        guild: Option<u64>,
        interaction_id: u64,
        user: u64,
        name: Seq<char>,
        sub: Option<Seq<char>>,
        content: Option<Seq<char>>,
        team: Option<Seq<char>>,
    },
    Component {
        guild: Option<u64>,
        origin_interaction_id: Option<u64>,
        user: u64,
        custom_id: Seq<char>,
    },
}

/// The view of an optional string field.
pub open spec fn opt_str_view(s: Option<String>) -> Option<Seq<char>> {
    match s {
        Some(x) => Some(x@),
        None => None,
    }
}

impl View for Event {
    type V = EventView;

    open spec fn view(&self) -> EventView {
        match self {
            Event::Command { guild, interaction_id, user, name, sub, content, team } => {
                EventView::Command {
                    guild: *guild,
                    interaction_id: *interaction_id,
                    user: *user,
                    name: name@,
                    sub: opt_str_view(*sub),
                    content: opt_str_view(*content),
                    team: opt_str_view(*team),
                }
            },
            Event::Component { guild, origin_interaction_id, user, custom_id } => {
                EventView::Component {
                    guild: *guild,
                    origin_interaction_id: *origin_interaction_id,
                    user: *user,
                    custom_id: custom_id@,
                }
            },
        }
    }
}

/// The whole bot state: the repository, the workflow correlator, and the
/// configured session TTL.
pub struct TodoBot {
    pub store: TodoStore,
    pub sessions: SessionStore,
    pub session_ttl: u64,
}

/// What completing an add for guild `g` does: a fresh todo is appended
/// when identifier space remains, otherwise the storage failure is
/// surfaced and nothing changes. Sessions are untouched either way.
pub open spec fn complete_add_post(
    pre: TodoBot,
    g: u64,
    team: Team,
    content: Seq<char>,
    user: u64,
    now: u64,
    post: TodoBot,
    r: RespView,
) -> bool {
    &&& post.sessions == pre.sessions
    &&& post.session_ttl == pre.session_ttl
    &&& if pre.store.spec_next_id() == u64::MAX {
        post.store == pre.store && r == storage_resp()
    } else {
        add_post(
            pre.store,
            g,
            TodoView {
                id: pre.store.spec_next_id(),
                team,
                content,
                author: user,
                created_at: now,
                guild: g,
            },
            post.store,
        ) && r == added_resp(team)
    }
}

/// What the add command does: reject missing or empty content and
/// unknown team names; complete in one step when a valid team is
/// supplied; otherwise open (or merely re-acknowledge) the session of a
/// two-step workflow and prompt for a team.
pub open spec fn add_command_post(
    pre: TodoBot,
    g: u64,
    interaction_id: u64,
    user: u64,
    content: Option<Seq<char>>,
    team: Option<Seq<char>>,
    now: u64,
    post: TodoBot,
    r: RespView,
) -> bool {
    match content {
        None => post == pre && r == validation_resp(),
        Some(c) => if c.len() == 0 {
            post == pre && r == validation_resp()
        } else {
            match team {
                Some(ts) => match Team::spec_parse(ts) {
                    None => post == pre && r == validation_resp(),
                    Some(t) => complete_add_post(pre, g, t, c, user, now, post, r),
                },
                None => if pre.sessions.session_of(interaction_id) is Some {
                    post == pre && r == prompt_resp()
                } else {
                    &&& post.store == pre.store
                    &&& post.session_ttl == pre.session_ttl
                    &&& post.sessions.session_of(interaction_id) == Some(
                        SessionView {
                            interaction_id,
                            guild: g,
                            user,
                            content: c,
                            expires_at: spec_deadline(now, pre.session_ttl),
                        },
                    )
                    &&& forall|id2: u64|
                        id2 != interaction_id ==> post.sessions.session_of(id2)
                            == pre.sessions.session_of(id2)
                    &&& r == prompt_resp()
                },
            }
        },
    }
}

/// What a team-selection click does: with a matching live session of the
/// same guild and initiating user, the session is consumed and the add
/// completes with its pending content; any other click — unknown key,
/// wrong guild or user, or an expired session — changes nothing and
/// falls back to the not-found response.
pub open spec fn component_post(
    pre: TodoBot,
    g: u64,
    origin: u64,
    user: u64,
    team: Team,
    now: u64,
    post: TodoBot,
    r: RespView,
) -> bool {
    match pre.sessions.session_of(origin) {
        Some(s) => if s.guild == g && s.user == user && s.live_at(now) {
            &&& post.session_ttl == pre.session_ttl
            &&& post.sessions.session_of(origin) is None
            &&& forall|id2: u64|
                id2 != origin ==> post.sessions.session_of(id2) == pre.sessions.session_of(id2)
            &&& if pre.store.spec_next_id() == u64::MAX {
                post.store == pre.store && r == storage_resp()
            } else {
                add_post(
                    pre.store,
                    g,
                    TodoView {
                        id: pre.store.spec_next_id(),
                        team,
                        content: s.content,
                        author: user,
                        created_at: now,
                        guild: g,
                    },
                    post.store,
                ) && r == added_resp(team)
            }
        } else {
            post == pre && r == not_found_resp()
        },
        None => post == pre && r == not_found_resp(),
    }
}

/// The full effect of one inbound event: which handler resolves, what it
/// does to the observable state, and which response (if any) comes back.
pub open spec fn event_post(
    pre: TodoBot,
    ev: EventView,
    now: u64,
    post: TodoBot,
    r: Option<RespView>,
) -> bool {
    match ev {
        EventView::Command { guild, interaction_id, user, name, sub, content, team } => {
            match guild {
                None => post == pre && r is None,
                Some(g) => if name != "todo"@ {
                    post == pre && r == Some(not_found_resp())
                } else {
                    match sub {
                        None => post == pre && r == Some(not_found_resp()),
                        Some(s) => if s == "show"@ {
                            post == pre && r == Some(show_resp(pre.store, g))
                        } else if s == "reset"@ {
                            &&& reset_post(pre.store, g, post.store)
                            &&& post.sessions == pre.sessions
                            &&& post.session_ttl == pre.session_ttl
                            &&& r == Some(reset_resp())
                        } else if s == "add"@ {
                            r matches Some(x) && add_command_post(
                                pre,
                                g,
                                interaction_id,
                                user,
                                content,
                                team,
                                now,
                                post,
                                x,
                            )
                        } else {
                            post == pre && r == Some(not_found_resp())
                        },
                    }
                },
            }
        },
        EventView::Component { guild, origin_interaction_id, user, custom_id } => {
            match guild {
                None => post == pre && r is None,
                Some(g) => match origin_interaction_id {
                    None => post == pre && r == Some(not_found_resp()),
                    Some(origin) => match Team::spec_parse(custom_id) {
                        None => post == pre && r == Some(not_found_resp()),
                        Some(t) => r matches Some(x) && component_post(
                            pre,
                            g,
                            origin,
                            user,
                            t,
                            now,
                            post,
                            x,
                        ),
                    },
                },
            }
        },
    }
}

/// Handles `todo reset`: deletes all todos of the guild, atomically and
/// idempotently.
pub struct ResetTodosCommand;

impl ResetTodosCommand {
    /// Runs the reset against the repository and confirms it.
    pub fn run(store: &mut TodoStore, guild: u64) -> (r: Response)
        requires
            old(store).wf(),
        ensures
            final(store).wf(),
            reset_post(*old(store), guild, *final(store)),
            r@ == reset_resp(),
    {
        store.reset(guild);
        reset_response()
    }
}

/// Handles `todo show`: renders all todos of the guild grouped by team.
pub struct ShowAllTodosCommand;

impl ShowAllTodosCommand {
    /// Reads the teams and todos of the guild and renders the report.
    pub fn run(store: &TodoStore, guild: u64) -> (r: Response)
        ensures
            r@ == show_resp(*store, guild),
    {
        let teams = store.get_teams(guild);
        let todos = store.get_todos(guild);
        let description = render(&teams, &todos);
        let r = Response { title: "Todos".to_owned(), description };
        proof {
            assert(r@ =~= show_resp(*store, guild));
        }
        r
    }
}

/// Handles `todo add`: validates the request and either completes the
/// add in one step or opens the two-step team-selection workflow.
pub struct CreateTodoCommand;

impl CreateTodoCommand {
    /// Runs the add command against the bot state.
    pub fn run(
        bot: &mut TodoBot,
        guild: u64,
        interaction_id: u64,
        user: u64,
        content: Option<String>,
        team: Option<String>,
        now: u64,
    ) -> (r: Response)
        requires
            old(bot).wf(),
        ensures
            final(bot).wf(),
            add_command_post(
                *old(bot),
                guild,
                interaction_id,
                user,
                opt_str_view(content),
                opt_str_view(team),
                now,
                *final(bot),
                r@,
            ),
    {
        let c = match content {
            Some(c) => c,
            None => {
                return validation_response();
            },
        };
        if c.as_str().is_empty() {
            return validation_response();
        }
        match team {
            Some(ts) => {
                match Team::parse(&ts) {
                    None => validation_response(),
                    Some(t) => complete_add(bot, guild, t, c, user, now),
                }
            },
            None => {
                if bot.sessions.has(interaction_id) {
                    prompt_response()
                } else {
                    let ttl = bot.session_ttl;
                    bot.sessions.start(interaction_id, guild, user, c, now, ttl);
                    prompt_response()
                }
            },
        }
    }
}

/// Handles a team-selection click of the two-step add workflow.
pub struct CreateTodoComponent;

impl CreateTodoComponent {
    /// Consumes the matching session, if any, and completes the add.
    pub fn run(
        bot: &mut TodoBot,
        guild: u64,
        origin_interaction_id: u64,
        user: u64,
        team: Team,
        now: u64,
    ) -> (r: Response)
        requires
            old(bot).wf(),
        ensures
            final(bot).wf(),
            component_post(
                *old(bot),
                guild,
                origin_interaction_id,
                user,
                team,
                now,
                *final(bot),
                r@,
            ),
    {
        match bot.sessions.consume(origin_interaction_id, guild, user, now) {
            Some(sess) => complete_add(bot, guild, team, sess.content, user, now),
            None => not_found_response(),
        }
    }
}

/// Completes an add whose content is already validated as non-empty.
fn complete_add(bot: &mut TodoBot, guild: u64, team: Team, content: String, user: u64, now: u64)
    -> (r: Response)
    requires
        old(bot).wf(),
        content@.len() > 0,
    ensures
        final(bot).wf(),
        complete_add_post(*old(bot), guild, team, content@, user, now, *final(bot), r@),
{
    match bot.store.add_todo(guild, team, content, user, now) {
        Ok(_) => added_response(team),
        Err(RepoError::Storage) => storage_response(),
        Err(RepoError::Validation) => {
            proof {
                assert(false);
            }
            storage_response()
        },
    }
}

impl TodoBot {
    /// Internal invariant of the whole bot state.
    pub open spec fn wf(self) -> bool {
        self.store.wf() && self.sessions.wf()
    }

    /// A fresh bot with no todos and no pending sessions.
    pub fn new(session_ttl: u64) -> (r: TodoBot)
        ensures
            r.wf(),
            forall|g: u64| r.store.todos_of(g) == Seq::<TodoView>::empty(),
            forall|id: u64| r.sessions.session_of(id) is None,
            r.store.spec_next_id() == 0,
            r.session_ttl == session_ttl,
    {
        TodoBot { store: TodoStore::new(), sessions: SessionStore::new(), session_ttl }
    }

    /// Routes one inbound event to exactly one handler and returns its
    /// response; `None` only when the event carries no guild context.
    /// A failing handler is impossible by construction here: every
    /// handler returns a response, so one interaction can never affect
    /// the platform connection.
    pub fn handle_event(&mut self, event: Event, now: u64) -> (r: Option<Response>)
        requires
            old(self).wf(),
        ensures
            final(self).wf(),
            event_post(*old(self), event@, now, *final(self), opt_view(r)),
    {
        match event {
            Event::Command { guild, interaction_id, user, name, sub, content, team } => {
                let g = match guild {
                    Some(g) => g,
                    None => {
                        return None;
                    },
                };
                if !(name == "todo".to_owned()) {
                    return Some(not_found_response());
                }
                let s = match sub {
                    Some(s) => s,
                    None => {
                        return Some(not_found_response());
                    },
                };
                if s == "show".to_owned() {
                    Some(ShowAllTodosCommand::run(&self.store, g))
                } else if s == "reset".to_owned() {
                    Some(ResetTodosCommand::run(&mut self.store, g))
                } else if s == "add".to_owned() {
                    Some(CreateTodoCommand::run(self, g, interaction_id, user, content, team, now))
                } else {
                    Some(not_found_response())
                }
            },
            Event::Component { guild, origin_interaction_id, user, custom_id } => {
                let g = match guild {
                    Some(g) => g,
                    None => {
                        return None;
                    },
                };
                let origin = match origin_interaction_id {
                    Some(o) => o,
                    None => {
                        return Some(not_found_response());
                    },
                };
                match Team::parse(&custom_id) {
                    Some(t) => Some(CreateTodoComponent::run(self, g, origin, user, t, now)),
                    None => Some(not_found_response()),
                }
            },
        }
    }
}

} // verus!
