//! The todo entity.
//!
//! A todo is created through the add workflow, always carries a team from
//! the fixed enumeration and a non-empty content string, and is destroyed
//! only by a guild-wide reset.

use vstd::prelude::*;
use crate::team::Team;

verus! {

/// One todo record, scoped to the guild that created it.
#[derive(Debug)]
pub struct Todo {
    pub id: u64,
    pub team: Team,
    pub content: String,
    pub author: u64,
    pub created_at: u64,
    pub guild: u64,
}

/// The mathematical value of a [`Todo`].
#[verifier::ext_equal]
pub struct TodoView {
    pub id: u64,
    pub team: Team,
    pub content: Seq<char>,
    pub author: u64,
    pub created_at: u64,
    pub guild: u64,
}

impl View for Todo {
    type V = TodoView;

    open spec fn view(&self) -> TodoView {
        TodoView {
            id: self.id,
            team: self.team,
            content: self.content@,
            author: self.author,
            created_at: self.created_at,
            guild: self.guild,
        }
    }
}

impl TodoView {
    /// A todo is valid when its content is non-empty; empty content is
    /// rejected at the repository boundary, never stored.
    pub open spec fn valid(self) -> bool {
        self.content.len() > 0
    }
}

impl Clone for Todo {
    fn clone(&self) -> (r: Self)
        ensures
            r@ == self@,
    {
        Todo {
            id: self.id,
            team: self.team,
            content: self.content.clone(),
            author: self.author,
            created_at: self.created_at,
            guild: self.guild,
        }
    }
}

} // verus!
