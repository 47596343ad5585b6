//! The aggregator/renderer.
//!
//! A pure, deterministic function from the team list and the todo list of
//! one guild to the grouped report: one block per team, in the order the
//! teams are given, each block holding the team's todos in their original
//! relative order, with an explicit marker when a team has none.

use vstd::prelude::*;
use vstd::string::StringExecFns;
use crate::team::Team;
use crate::todo::{Todo, TodoView};

verus! {

/// The report line of one todo.
pub open spec fn todo_line(t: TodoView) -> Seq<char> {
    "  - "@ + t.content + "\n"@
}

/// The header line of one team's block.
pub open spec fn team_header(team: Team) -> Seq<char> {
    team.spec_name() + ":\n"@
}

/// The marker body of a team with no todos; an empty team is rendered,
/// never omitted.
pub open spec fn no_items_marker() -> Seq<char> {
    "  no items\n"@
}

/// Whether `todos` holds at least one todo of `team`.
pub open spec fn has_item(team: Team, todos: Seq<TodoView>) -> bool {
    exists|i: int| 0 <= i < todos.len() && todos[i].team == team
}

/// The report lines of the todos of `team`, in their original relative
/// order.
pub open spec fn lines_for(team: Team, todos: Seq<TodoView>) -> Seq<char>
    decreases todos.len(),
{
    if todos.len() == 0 {
        Seq::empty()
    } else {
        lines_for(team, todos.drop_last()) + (if todos.last().team == team {
            todo_line(todos.last())
        } else {
            Seq::<char>::empty()
        })
    }
}

/// One team's block: a header, then either the team's todo lines or the
/// explicit no-items marker.
pub open spec fn team_block(team: Team, todos: Seq<TodoView>) -> Seq<char> {
    team_header(team) + (if has_item(team, todos) {
        lines_for(team, todos)
    } else {
        no_items_marker()
    })
}

/// One team's block followed by the blank separator line.
pub open spec fn team_block_sep(team: Team, todos: Seq<TodoView>) -> Seq<char> {
    team_block(team, todos) + "\n"@
}

/// The whole report: the blocks of `teams`, in the given order.
pub open spec fn render_spec(teams: Seq<Team>, todos: Seq<TodoView>) -> Seq<char>
    decreases teams.len(),
{
    if teams.len() == 0 {
        Seq::empty()
    } else {
        render_spec(teams.drop_last(), todos) + team_block_sep(teams.last(), todos)
    }
}

/// Extending the todos by one either appends its line to its team's lines
/// or changes nothing.
pub proof fn lemma_lines_push(team: Team, s: Seq<TodoView>, x: TodoView)
    ensures
        lines_for(team, s.push(x)) == lines_for(team, s) + (if x.team == team {
            todo_line(x)
        } else {
            Seq::<char>::empty()
        }),
        has_item(team, s.push(x)) == (has_item(team, s) || x.team == team),
{
    assert(s.push(x).drop_last() =~= s);
    assert(s.push(x).last() == x);
    if has_item(team, s.push(x)) {
        let w = choose|i: int| 0 <= i < s.push(x).len() && s.push(x)[i].team == team;
        if w < s.len() {
            assert(s[w].team == team);
        }
    }
    if has_item(team, s) {
        let w = choose|i: int| 0 <= i < s.len() && s[i].team == team;
        assert(s.push(x)[w].team == team);
    }
    if x.team == team {
        assert(s.push(x)[s.len() as int].team == team);
    }
}

/// Renders the grouped report for one guild. Pure and deterministic: the
/// same teams and todos always produce the same string.
pub fn render(teams: &Vec<Team>, todos: &Vec<Todo>) -> (r: String)
    ensures
        r@ == render_spec(teams@, todos@.map_values(|t: Todo| t@)),
{
    let ghost tv = todos@.map_values(|t: Todo| t@);
    let mut out = String::new();
    proof {
        assert(teams@.take(0) =~= Seq::<Team>::empty());
        assert(out@ =~= render_spec(teams@.take(0), tv));
    }
    let mut i: usize = 0;
    while i < teams.len()
        invariant
            i <= teams.len(),
            tv == todos@.map_values(|t: Todo| t@),
            out@ == render_spec(teams@.take(i as int), tv),
        decreases teams.len() - i,
    {
        let ghost out_pre = out@;
        let team = teams[i];

        // the team's own lines, and whether any todo matched
        let mut lines = String::new();
        let mut found = false;
        proof {
            assert(tv.take(0) =~= Seq::<TodoView>::empty());
            assert(lines@ =~= lines_for(team, tv.take(0)));
        }
        let mut j: usize = 0;
        while j < todos.len()
            invariant
                j <= todos.len(),
                tv == todos@.map_values(|t: Todo| t@),
                tv.len() == todos.len(),
                lines@ == lines_for(team, tv.take(j as int)),
                found == has_item(team, tv.take(j as int)),
            decreases todos.len() - j,
        {
            let ghost lines_pre = lines@;
            let t = &todos[j];
            proof {
                assert(tv[j as int] == t@);
                lemma_lines_push(team, tv.take(j as int), t@);
                assert(tv.take(j as int).push(t@) =~= tv.take(j + 1));
            }
            if t.team == team {
                lines.append("  - ");
                lines.append(t.content.as_str());
                lines.append("\n");
                found = true;
                proof {
                    assert(lines@ =~= lines_pre + todo_line(t@));
                }
            }
            j = j + 1;
        }
        proof {
            assert(tv.take(todos.len() as int) =~= tv);
        }

        out.append(team.name());
        out.append(":\n");
        if found {
            out.append(lines.as_str());
        } else {
            out.append("  no items\n");
        }
        out.append("\n");
        proof {
            assert(out@ =~= out_pre + team_block_sep(team, tv));
            assert(teams@.take(i + 1).drop_last() =~= teams@.take(i as int));
            assert(teams@.take(i + 1).last() == team);
            assert(out@ == render_spec(teams@.take(i + 1), tv));
        }
        i = i + 1;
    }
    proof {
        assert(teams@.take(teams.len() as int) =~= teams@);
    }
    out
}

/// The report is the concatenation of exactly one block per team, in the
/// order of `teams`, each followed by the blank separator; which block
/// stands at which position depends on `teams` alone.
pub proof fn lemma_render_one_block_per_team(teams: Seq<Team>, todos: Seq<TodoView>)
    ensures
        render_spec(teams, todos) == teams.map_values(
            |t: Team| team_block_sep(t, todos),
        ).flatten_alt(),
        teams.map_values(|t: Team| team_block_sep(t, todos)).len() == teams.len(),
        forall|i: int|
            0 <= i < teams.len() ==> teams.map_values(|t: Team| team_block_sep(t, todos))[i]
                == team_block_sep(teams[i], todos),
    decreases teams.len(),
{
    let bf = |t: Team| team_block_sep(t, todos);
    if teams.len() == 0 {
        assert(teams.map_values(bf) =~= Seq::<Seq<char>>::empty());
    } else {
        lemma_render_one_block_per_team(teams.drop_last(), todos);
        assert(teams.drop_last().map_values(bf) =~= teams.map_values(bf).drop_last());
        assert(teams.map_values(bf).last() == team_block_sep(teams.last(), todos));
    }
}

} // verus!
