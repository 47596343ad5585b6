//! Response payloads.
//!
//! Every handled interaction yields at most one renderable message, a
//! title/description pair; unmatched routes yield the fixed not-found
//! response, so an interaction is always acknowledged when a guild
//! context exists.

use vstd::prelude::*;
use vstd::string::StringExecFns;
use crate::render::render_spec;
use crate::store::TodoStore;
use crate::team::Team;

verus! {

/// One renderable message.
#[derive(Debug)]
pub struct Response {
    pub title: String,
    pub description: String,
}

/// The mathematical value of a [`Response`].
#[verifier::ext_equal]
pub struct RespView {
    pub title: Seq<char>,
    pub description: Seq<char>,
}

impl View for Response {
    type V = RespView;

    open spec fn view(&self) -> RespView {
        RespView { title: self.title@, description: self.description@ }
    }
}

/// The view of an optional response; `None` means the event is consumed
/// silently.
pub open spec fn opt_view(r: Option<Response>) -> Option<RespView> {
    match r {
        Some(x) => Some(x@),
        None => None,
    }
}

/// The fixed fallback for every unmatched command, sub-command or
/// component, and for a follow-up click whose session is gone.
pub open spec fn not_found_resp() -> RespView {
    RespView { title: "Not found"@, description: "No handler matched this interaction."@ }
}

/// Confirmation of a completed guild-wide reset.
pub open spec fn reset_resp() -> RespView {
    RespView { title: "Todos reset"@, description: "All todos of this guild were removed."@ }
}

/// Rejection of an add request with an unknown team or empty content.
pub open spec fn validation_resp() -> RespView {
    RespView {
        title: "Invalid request"@,
        description: "A team from the fixed set and non-empty content are required."@,
    }
}

/// Failure of the storage layer; surfaced, never retried here.
pub open spec fn storage_resp() -> RespView {
    RespView { title: "Storage failure"@, description: "The todo could not be persisted."@ }
}

/// The first response of a two-step add workflow, asking for a team.
pub open spec fn prompt_resp() -> RespView {
    RespView { title: "Choose a team"@, description: "Pick the team for the pending todo."@ }
}

/// Confirmation of a completed add, naming the chosen team.
pub open spec fn added_resp(team: Team) -> RespView {
    RespView { title: "Todo added"@, description: "Added a todo for "@ + team.spec_name() + "."@ }
}

/// The rendered report of one guild's todos, grouped by team.
pub open spec fn show_resp(store: TodoStore, guild: u64) -> RespView {
    RespView { title: "Todos"@, description: render_spec(Team::spec_all(), store.todos_of(guild)) }
}

/// Builds the fixed not-found response.
pub fn not_found_response() -> (r: Response)
    ensures
        r@ == not_found_resp(),
{
    Response {
        title: "Not found".to_owned(),
        description: "No handler matched this interaction.".to_owned(),
    }
}

/// Builds the reset confirmation.
pub fn reset_response() -> (r: Response)
    ensures
        r@ == reset_resp(),
{
    Response {
        title: "Todos reset".to_owned(),
        description: "All todos of this guild were removed.".to_owned(),
    }
}

/// Builds the validation rejection.
pub fn validation_response() -> (r: Response)
    ensures
        r@ == validation_resp(),
{
    Response {
        title: "Invalid request".to_owned(),
        description: "A team from the fixed set and non-empty content are required.".to_owned(),
    }
}

/// Builds the storage failure response.
pub fn storage_response() -> (r: Response)
    ensures
        r@ == storage_resp(),
{
    Response {
        title: "Storage failure".to_owned(),
        description: "The todo could not be persisted.".to_owned(),
    }
}

/// Builds the team-selection prompt.
pub fn prompt_response() -> (r: Response)
    ensures
        r@ == prompt_resp(),
{
    Response {
        title: "Choose a team".to_owned(),
        description: "Pick the team for the pending todo.".to_owned(),
    }
}

/// Builds the add confirmation for the chosen team.
pub fn added_response(team: Team) -> (r: Response)
    ensures
        r@ == added_resp(team),
{
    let mut description = "Added a todo for ".to_owned();
    description.append(team.name());
    description.append(".");
    proof {
        assert(description@ =~= added_resp(team).description);
    }
    Response { title: "Todo added".to_owned(), description }
}

} // verus!
