//! The laws of the library, proved from the public contracts: guild
//! isolation, reset semantics and idempotence, visibility of an added
//! todo in the list and in the report, correlation of the two-step add
//! workflow, and accumulation of any number of interleaved adds.

use vstd::prelude::*;
use crate::render::{has_item, lemma_lines_push, lines_for, team_block, team_header, todo_line};
use crate::respond::{not_found_resp, RespView};
use crate::router::{component_post, event_post, EventView, TodoBot};
use crate::store::{add_post, reset_post, TodoStore};
use crate::team::Team;
use crate::todo::TodoView;

verus! {

/// Adding a todo to one guild never affects what another guild reads.
pub proof fn lemma_add_isolated(pre: TodoStore, g1: u64, tv: TodoView, post: TodoStore, g2: u64)
    requires
        add_post(pre, g1, tv, post),
        g2 != g1,
    ensures
        post.todos_of(g2) == pre.todos_of(g2),
{
}

/// After a reset, the guild reads an empty list, whatever it held
/// before; unrelated guilds are unaffected.
pub proof fn lemma_reset_clears(pre: TodoStore, g: u64, post: TodoStore, g2: u64)
    requires
        reset_post(pre, g, post),
    ensures
        post.todos_of(g).len() == 0,
        g2 != g ==> post.todos_of(g2) == pre.todos_of(g2),
{
}

/// Resetting a guild twice in a row leaves the same observable state as
/// resetting it once.
pub proof fn lemma_reset_idempotent(s0: TodoStore, g: u64, s1: TodoStore, s2: TodoStore)
    requires
        reset_post(s0, g, s1),
        reset_post(s1, g, s2),
    ensures
        forall|g2: u64| s2.todos_of(g2) == s1.todos_of(g2),
        s2.spec_next_id() == s1.spec_next_id(),
{
    assert forall|g2: u64| s2.todos_of(g2) == s1.todos_of(g2) by {
        if g2 != g {
            assert(s2.todos_of(g2) == s1.todos_of(g2));
        }
    }
}

/// An added todo is visible: the guild's list gains exactly that todo at
/// its end, and the report's block of its team gains exactly its line,
/// in both cases after everything that was already there.
pub proof fn lemma_added_todo_visible(pre: TodoStore, g: u64, tv: TodoView, post: TodoStore)
    requires
        add_post(pre, g, tv, post),
    ensures
        post.todos_of(g).len() == pre.todos_of(g).len() + 1,
        post.todos_of(g).last() == tv,
        post.todos_of(g).contains(tv),
        has_item(tv.team, post.todos_of(g)),
        lines_for(tv.team, post.todos_of(g)) == lines_for(tv.team, pre.todos_of(g)) + todo_line(
            tv,
        ),
        team_block(tv.team, post.todos_of(g)) == team_header(tv.team) + lines_for(
            tv.team,
            post.todos_of(g),
        ),
{
    let s = pre.todos_of(g);
    assert(post.todos_of(g) == s.push(tv));
    assert(s.push(tv)[s.len() as int] == tv);
    lemma_lines_push(tv.team, s, tv);
}

/// A follow-up click that references an interaction with no pending
/// session — in particular one that references a different interaction
/// than the one whose session was started — completes no add: the state
/// is untouched and the click routes to the not-found fallback.
pub proof fn lemma_unmatched_click_ignored(
    pre: TodoBot,
    g: u64,
    origin: u64,
    user: u64,
    team: Team,
    now: u64,
    post: TodoBot,
    r: RespView,
)
    requires
        pre.sessions.session_of(origin) is None,
        component_post(pre, g, origin, user, team, now, post, r),
    ensures
        post == pre,
        r == not_found_resp(),
{
}

/// Workflow correlation across two events: whatever command arrives for
/// interaction `i1`, it creates no session under a different key `i2`;
/// a later component click referencing `i2` therefore changes nothing
/// and is answered with the not-found fallback.
pub proof fn lemma_workflow_correlation(
    pre: TodoBot,
    cguild: Option<u64>,
    i1: u64,
    cuser: u64,
    name: Seq<char>,
    sub: Option<Seq<char>>,
    content: Option<Seq<char>>,
    team: Option<Seq<char>>,
    now1: u64,
    mid: TodoBot,
    r1: Option<RespView>,
    g: u64,
    i2: u64,
    user2: u64,
    custom_id: Seq<char>,
    now2: u64,
    post: TodoBot,
    r2: Option<RespView>,
)
    requires
        i2 != i1,
        pre.sessions.session_of(i2) is None,
        event_post(
            pre,
            EventView::Command {
                guild: cguild,
                interaction_id: i1,
                user: cuser,
                name,
                sub,
                content,
                team,
            },
            now1,
            mid,
            r1,
        ),
        Team::spec_parse(custom_id) is Some,
        event_post(
            mid,
            EventView::Component {
                guild: Some(g),
                origin_interaction_id: Some(i2),
                user: user2,
                custom_id,
            },
            now2,
            post,
            r2,
        ),
    ensures
        post == mid,
        r2 == Some(not_found_resp()),
{
    assert(mid.sessions.session_of(i2) is None);
}

/// Whether `states` is the trace of applying the adds `tvs` to guild
/// `g`, one after the other, in the order the persistence facade
/// serialized them.
pub open spec fn adds_chain(states: Seq<TodoStore>, g: u64, tvs: Seq<TodoView>) -> bool {
    &&& states.len() == tvs.len() + 1
    &&& forall|i: int|
        0 <= i < tvs.len() ==> add_post(states[i], g, #[trigger] tvs[i], states[i + 1])
}

/// Any number of adds, applied in any serialization order, each succeed
/// exactly once: the guild's list afterwards is exactly what it was,
/// followed by every added todo, each under a distinct fresh identifier
/// — none lost, none duplicated.
pub proof fn lemma_adds_accumulate(states: Seq<TodoStore>, g: u64, tvs: Seq<TodoView>)
    requires
        adds_chain(states, g, tvs),
    ensures
        states.last().todos_of(g) == states.first().todos_of(g) + tvs,
        states.last().todos_of(g).len() == states.first().todos_of(g).len() + tvs.len(),
        states.last().spec_next_id() == states.first().spec_next_id() + tvs.len(),
        forall|i: int|
            0 <= i < tvs.len() ==> (#[trigger] tvs[i]).id == states.first().spec_next_id() + i,
    decreases tvs.len(),
{
    if tvs.len() == 0 {
        assert(states.last() == states.first());
        assert(states.first().todos_of(g) + tvs =~= states.first().todos_of(g));
    } else {
        let substates = states.drop_last();
        let subtvs = tvs.drop_last();
        assert(adds_chain(substates, g, subtvs)) by {
            assert forall|i: int| 0 <= i < subtvs.len() implies add_post(
                substates[i],
                g,
                #[trigger] subtvs[i],
                substates[i + 1],
            ) by {
                assert(add_post(states[i], g, tvs[i], states[i + 1]));
            }
        }
        lemma_adds_accumulate(substates, g, subtvs);
        let n = tvs.len() - 1;
        assert(add_post(states[n], g, tvs[n], states[n + 1]));
        assert(states.last().todos_of(g) == substates.last().todos_of(g).push(tvs[n]));
        assert(states.first().todos_of(g) + subtvs.push(tvs[n]) =~= (states.first().todos_of(g)
            + subtvs).push(tvs[n]));
        assert(subtvs.push(tvs[n]) =~= tvs);
    }
}

} // verus!
