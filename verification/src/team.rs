//! The fixed, closed enumeration of teams.
//!
//! Teams are defined at compile time and only referenced by name; the
//! repository rejects any team name outside this enumeration.

use vstd::prelude::*;

verus! {

/// One of the fixed teams a todo can belong to.
#[derive(Clone, Copy, PartialEq, Eq, Structural, Debug)]
pub enum Team {
    IOs,
    Android,
    Web,
    Server,
}

impl Team {
    /// The fixed enumeration order that every per-team report follows.
    pub open spec fn spec_all() -> Seq<Team> {
        seq![Team::IOs, Team::Android, Team::Web, Team::Server]
    }

    /// All teams, in their fixed enumeration order.
    pub fn all() -> (r: Vec<Team>)
        ensures
            r@ == Team::spec_all(),
    {
        let r: Vec<Team> = vec![Team::IOs, Team::Android, Team::Web, Team::Server];
        assert(r@ =~= Team::spec_all());
        r
    }

    /// The display name of the team, also used as the component custom-id.
    pub open spec fn spec_name(self) -> Seq<char> {
        match self {
            Team::IOs => "iOS"@,
            Team::Android => "Android"@,
            Team::Web => "Web"@,
            Team::Server => "Server"@,
        }
    }

    /// The display name of the team, also used as the component custom-id.
    pub fn name(&self) -> (r: &'static str)
        ensures
            r@ == self.spec_name(),
    {
        match self {
            Team::IOs => "iOS",
            Team::Android => "Android",
            Team::Web => "Web",
            Team::Server => "Server",
        }
    }

    /// Which team, if any, a custom-id string selects.
    pub open spec fn spec_parse(s: Seq<char>) -> Option<Team> {
        if s == "iOS"@ {
            Some(Team::IOs)
        } else if s == "Android"@ {
            Some(Team::Android)
        } else if s == "Web"@ {
            Some(Team::Web)
        } else if s == "Server"@ {
            Some(Team::Server)
        } else {
            None
        }
    }

    /// Parses a custom-id string into a team; every string outside the
    /// fixed enumeration is rejected.
    pub fn parse(s: &String) -> (r: Option<Team>)
        ensures
            r == Team::spec_parse(s@),
    {
        if *s == "iOS".to_owned() {
            Some(Team::IOs)
        } else if *s == "Android".to_owned() {
            Some(Team::Android)
        } else if *s == "Web".to_owned() {
            Some(Team::Web)
        } else if *s == "Server".to_owned() {
            Some(Team::Server)
        } else {
            None
        }
    }
}

} // verus!
