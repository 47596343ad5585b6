//! The guild-scoped repository.
//!
//! All todos live in one insertion-ordered list; every read and write is
//! scoped to exactly one guild, and the todos of a guild are the stored
//! list filtered by that guild, in unchanged relative order. Reset is
//! atomic per guild: it removes that guild's todos and nothing else.

use vstd::prelude::*;
use crate::seqs::{
    lemma_filter_excluded, lemma_filter_is_subseq_elem, lemma_filter_push, lemma_filter_subsumed,
};
use crate::team::Team;
use crate::todo::{Todo, TodoView};

verus! {

/// An error surfaced by a repository operation.
#[derive(Clone, Copy, PartialEq, Eq, Structural, Debug)]
pub enum RepoError {
    /// The add request carried empty content or an unrecognized team.
    Validation,
    /// The storage layer cannot complete the operation (identifier space
    /// exhausted); never retried here.
    Storage,
}

/// The persistence facade: all todos, keyed by the guild field of each.
pub struct TodoStore {
    todos: Vec<Todo>,
    next_id: u64,
}

/// The filter selecting one guild's todos.
pub open spec fn of_guild(g: u64) -> spec_fn(TodoView) -> bool {
    |t: TodoView| t.guild == g
}

/// The filter selecting every todo outside one guild.
pub open spec fn outside_guild(g: u64) -> spec_fn(TodoView) -> bool {
    |t: TodoView| t.guild != g
}

impl TodoStore {
    /// Every stored todo, across all guilds, in insertion order.
    pub closed spec fn all(self) -> Seq<TodoView> {
        self.todos@.map_values(|t: Todo| t@)
    }

    /// The identifier the next created todo will receive.
    pub closed spec fn spec_next_id(self) -> u64 {
        self.next_id
    }

    /// Internal invariant: contents are valid and identifiers are fresh.
    pub open spec fn wf(self) -> bool {
        &&& forall|i: int| 0 <= i < self.all().len() ==> (#[trigger] self.all()[i]).valid()
        &&& forall|i: int| 0 <= i < self.all().len() ==> (#[trigger] self.all()[i]).id
            < self.spec_next_id()
        &&& forall|i: int, j: int|
            0 <= i < j < self.all().len() ==> (#[trigger] self.all()[i]).id != (
            #[trigger] self.all()[j]).id
    }

    /// The todos of one guild, in insertion order.
    pub open spec fn todos_of(self, g: u64) -> Seq<TodoView> {
        self.all().filter(of_guild(g))
    }

    /// An empty store.
    pub fn new() -> (r: TodoStore)
        ensures
            r.wf(),
            r.all() == Seq::<TodoView>::empty(),
            r.spec_next_id() == 0,
            forall|g: u64| r.todos_of(g) == Seq::<TodoView>::empty(),
    {
        let r = TodoStore { todos: Vec::new(), next_id: 0 };
        proof {
            assert(r.all() =~= Seq::<TodoView>::empty());
            assert forall|g: u64| r.todos_of(g) == Seq::<TodoView>::empty() by {
                reveal(Seq::filter);
            }
        }
        r
    }

    /// The fixed team enumeration; teams are not guild data, but the
    /// repository exposes them per guild for symmetry with todos.
    pub fn get_teams(&self, _guild: u64) -> (r: Vec<Team>)
        ensures
            r@ == Team::spec_all(),
    {
        Team::all()
    }

    /// All todos of `guild`, in insertion order; empty when none exist.
    pub fn get_todos(&self, guild: u64) -> (r: Vec<Todo>)
        ensures
            r@.map_values(|t: Todo| t@) == self.todos_of(guild),
    {
        let ghost pred = of_guild(guild);
        let mut out: Vec<Todo> = Vec::new();
        proof {
            assert(self.all().take(0) =~= Seq::<TodoView>::empty());
            reveal(Seq::filter);
            assert(out@.map_values(|t: Todo| t@) =~= self.all().take(0).filter(pred));
        }
        let mut i: usize = 0;
        while i < self.todos.len()
            invariant
                i <= self.todos.len(),
                self.all().len() == self.todos.len(),
                out@.map_values(|t: Todo| t@) == self.all().take(i as int).filter(of_guild(guild)),
            decreases self.todos.len() - i,
        {
            let ghost prev = out@.map_values(|t: Todo| t@);
            let t = &self.todos[i];
            proof {
                assert(self.all()[i as int] == t@);
                assert(of_guild(guild)(t@) == (t@.guild == guild));
                lemma_filter_push(self.all().take(i as int), t@, of_guild(guild));
                assert(self.all().take(i as int).push(t@) =~= self.all().take(i + 1));
            }
            if t.guild == guild {
                out.push(t.clone());
                proof {
                    assert(out@.map_values(|t: Todo| t@) =~= prev.push(t@));
                }
            }
            i = i + 1;
        }
        proof {
            assert(self.all().take(self.todos.len() as int) =~= self.all());
        }
        out
    }

    /// Validates and persists one todo for `guild`, returning the created
    /// entity with a freshly assigned identifier; the todos of every other
    /// guild are untouched.
    pub fn add_todo(
        &mut self,
        guild: u64,
        team: Team,
        content: String,
        author: u64,
        now: u64,
    ) -> (r: Result<Todo, RepoError>)
        requires
            old(self).wf(),
        ensures
            final(self).wf(),
            content@.len() == 0 ==> r == Err::<Todo, RepoError>(RepoError::Validation)
                && *final(self) == *old(self),
            content@.len() > 0 && old(self).spec_next_id() == u64::MAX ==> r == Err::<Todo,
            RepoError>(RepoError::Storage) && *final(self) == *old(self),
            content@.len() > 0 && old(self).spec_next_id() < u64::MAX ==> {
                let tv = TodoView {
                    id: old(self).spec_next_id(),
                    team,
                    content: content@,
                    author,
                    created_at: now,
                    guild,
                };
                &&& r matches Ok(t) && t@ == tv
                &&& add_post(*old(self), guild, tv, *final(self))
            },
    {
        if content.as_str().is_empty() {
            return Err(RepoError::Validation);
        }
        if self.next_id == u64::MAX {
            return Err(RepoError::Storage);
        }
        let id = self.next_id;
        let todo = Todo { id, team, content, author, created_at: now, guild };
        let out = todo.clone();
        let ghost tv = todo@;
        let ghost pre = *self;
        self.todos.push(todo);
        self.next_id = id + 1;
        proof {
            assert(content@.len() > 0);
            assert(self.all() =~= pre.all().push(tv));
            assert forall|g2: u64| self.todos_of(g2) == if g2 == guild {
                pre.todos_of(g2).push(tv)
            } else {
                pre.todos_of(g2)
            } by {
                lemma_filter_push(pre.all(), tv, of_guild(g2));
            }
            assert forall|i: int| 0 <= i < self.all().len() implies (
            #[trigger] self.all()[i]).valid() && self.all()[i].id < self.spec_next_id() by {
                if i < pre.all().len() {
                    assert(self.all()[i] == pre.all()[i]);
                }
            }
        }
        Ok(out)
    }

    /// Deletes every todo of `guild`; idempotent and safe when the guild
    /// has no data. Other guilds are untouched.
    pub fn reset(&mut self, guild: u64)
        requires
            old(self).wf(),
        ensures
            final(self).wf(),
            reset_post(*old(self), guild, *final(self)),
    {
        let ghost keep = outside_guild(guild);
        let ghost pre = *self;
        let mut kept: Vec<Todo> = Vec::new();
        proof {
            reveal(Seq::filter);
            assert(pre.all().take(0) =~= Seq::<TodoView>::empty());
            assert(kept@.map_values(|t: Todo| t@) =~= pre.all().take(0).filter(keep));
        }
        let mut i: usize = 0;
        while i < self.todos.len()
            invariant
                i <= self.todos.len(),
                *self == pre,
                pre.all().len() == self.todos.len(),
                kept@.map_values(|t: Todo| t@) == pre.all().take(i as int).filter(
                    outside_guild(guild),
                ),
            decreases self.todos.len() - i,
        {
            let ghost prevkept = kept@.map_values(|t: Todo| t@);
            let t = &self.todos[i];
            proof {
                assert(pre.all()[i as int] == t@);
                assert(outside_guild(guild)(t@) == (t@.guild != guild));
                lemma_filter_push(pre.all().take(i as int), t@, outside_guild(guild));
                assert(pre.all().take(i as int).push(t@) =~= pre.all().take(i + 1));
            }
            if t.guild != guild {
                kept.push(t.clone());
                proof {
                    assert(kept@.map_values(|t: Todo| t@) =~= prevkept.push(t@));
                }
            }
            i = i + 1;
        }
        proof {
            assert(pre.all().take(pre.all().len() as int) =~= pre.all());
        }
        self.todos = kept;
        proof {
            assert(self.all() == pre.all().filter(keep));
            assert(self.spec_next_id() == pre.spec_next_id());
            lemma_filter_excluded(pre.all(), keep, of_guild(guild));
            assert(self.todos_of(guild) == Seq::<TodoView>::empty());
            assert forall|g2: u64| g2 != guild implies self.todos_of(g2) == pre.todos_of(g2) by {
                lemma_filter_subsumed(pre.all(), keep, of_guild(g2));
            }
            assert forall|i: int| 0 <= i < self.all().len() implies (
            #[trigger] self.all()[i]).valid() && self.all()[i].id < self.spec_next_id() by {
                Seq::lemma_filter_pred(pre.all(), keep, i);
                lemma_filter_is_subseq_elem(pre.all(), keep, i);
            }
            assert forall|i: int, j: int|
                0 <= i < j < self.all().len() implies (#[trigger] self.all()[i]).id != (
            #[trigger] self.all()[j]).id by {
                lemma_filter_distinct(pre.all(), keep, i, j);
            }
        }
    }
}

/// What a successful add does to the observable state: the new todo is
/// appended to its guild's list, every other guild's list is unchanged,
/// and the identifier counter advances.
pub open spec fn add_post(pre: TodoStore, guild: u64, tv: TodoView, post: TodoStore) -> bool {
    &&& post.todos_of(guild) == pre.todos_of(guild).push(tv)
    &&& forall|g2: u64| g2 != guild ==> post.todos_of(g2) == pre.todos_of(g2)
    &&& post.spec_next_id() == pre.spec_next_id() + 1
    &&& tv.id == pre.spec_next_id()
    &&& tv.guild == guild
}

/// What a reset does to the observable state: the guild's list becomes
/// empty, every other guild's list is unchanged.
pub open spec fn reset_post(pre: TodoStore, guild: u64, post: TodoStore) -> bool {
    &&& post.todos_of(guild) == Seq::<TodoView>::empty()
    &&& forall|g2: u64| g2 != guild ==> post.todos_of(g2) == pre.todos_of(g2)
    &&& post.spec_next_id() == pre.spec_next_id()
}

/// A filter of a sequence with pairwise-distinct ids again has
/// pairwise-distinct ids.
pub proof fn lemma_filter_distinct(s: Seq<TodoView>, p: spec_fn(TodoView) -> bool, i: int, j: int)
    requires
        forall|a: int, b: int|
            0 <= a < b < s.len() ==> (#[trigger] s[a]).id != (#[trigger] s[b]).id,
        0 <= i < j < s.filter(p).len(),
    ensures
        s.filter(p)[i].id != s.filter(p)[j].id,
    decreases s.len(),
{
    reveal(Seq::filter);
    if s.len() > 0 {
        let fprev = s.drop_last().filter(p);
        assert(s.drop_last().len() == s.len() - 1);
        if p(s.last()) && j == fprev.len() {
            lemma_filter_is_subseq_elem(s.drop_last(), p, i);
            let k = choose|k: int|
                0 <= k < s.drop_last().len() && s.drop_last()[k] == fprev[i];
            assert(s[k] == s.filter(p)[i]);
            assert(s[k].id != s.last().id);
        } else {
            lemma_filter_distinct(s.drop_last(), p, i, j);
        }
    }
}

} // verus!
