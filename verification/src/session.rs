//! The workflow correlator.
//!
//! A session links the follow-up component click of a multi-step add
//! workflow back to the originating command interaction. Sessions are
//! keyed by the identity of that original interaction, carry the pending
//! content together with the initiating guild and user, and expire after
//! a TTL; a consume with the wrong key, guild, user or time changes
//! nothing and finds nothing.

use vstd::prelude::*;
use crate::seqs::{
    lemma_filter_excluded, lemma_filter_is_subseq_elem, lemma_filter_none, lemma_filter_push,
    lemma_filter_subsumed,
};

verus! {

/// One pending add workflow, created by the add command's first response
/// and consumed by the matching component click.
#[derive(Debug)]
pub struct Session {
    pub interaction_id: u64,
    pub guild: u64,
    pub user: u64,
    pub content: String,
    pub expires_at: u64,
}

/// The mathematical value of a [`Session`].
#[verifier::ext_equal]
pub struct SessionView {
    pub interaction_id: u64,
    pub guild: u64,
    pub user: u64,
    pub content: Seq<char>,
    pub expires_at: u64,
}

impl View for Session {
    type V = SessionView;

    open spec fn view(&self) -> SessionView {
        SessionView {
            interaction_id: self.interaction_id,
            guild: self.guild,
            user: self.user,
            content: self.content@,
            expires_at: self.expires_at,
        }
    }
}

impl Clone for Session {
    fn clone(&self) -> (r: Self)
        ensures
            r@ == self@,
    {
        Session {
            interaction_id: self.interaction_id,
            guild: self.guild,
            user: self.user,
            content: self.content.clone(),
            expires_at: self.expires_at,
        }
    }
}

impl SessionView {
    /// A session is valid when its pending content is non-empty; the add
    /// command validates content before a session is ever created.
    pub open spec fn valid(self) -> bool {
        self.content.len() > 0
    }

    /// Whether the session may still be consumed at `now`; from its
    /// expiry instant on, a session only awaits garbage collection.
    pub open spec fn live_at(self, now: u64) -> bool {
        now < self.expires_at
    }
}

/// The filter selecting the session of one originating interaction.
pub open spec fn with_key(id: u64) -> spec_fn(SessionView) -> bool {
    |s: SessionView| s.interaction_id == id
}

/// The filter selecting every session of other originating interactions.
pub open spec fn other_keys(id: u64) -> spec_fn(SessionView) -> bool {
    |s: SessionView| s.interaction_id != id
}

/// `now + ttl`, saturating at the largest representable instant.
pub open spec fn spec_deadline(now: u64, ttl: u64) -> u64 {
    if now + ttl > u64::MAX {
        u64::MAX
    } else {
        (now + ttl) as u64
    }
}

/// The session store, owned exclusively by the correlator.
pub struct SessionStore {
    sessions: Vec<Session>,
}

impl SessionStore {
    /// Every pending session, in creation order.
    pub closed spec fn all(self) -> Seq<SessionView> {
        self.sessions@.map_values(|s: Session| s@)
    }

    /// Internal invariant: one session per originating interaction, each
    /// with non-empty pending content.
    pub open spec fn wf(self) -> bool {
        &&& forall|i: int| 0 <= i < self.all().len() ==> (#[trigger] self.all()[i]).valid()
        &&& forall|i: int, j: int|
            0 <= i < j < self.all().len() ==> (#[trigger] self.all()[i]).interaction_id != (
            #[trigger] self.all()[j]).interaction_id
    }

    /// The pending session of one originating interaction, if any.
    pub open spec fn session_of(self, id: u64) -> Option<SessionView> {
        let matching = self.all().filter(with_key(id));
        if matching.len() > 0 {
            Some(matching[0])
        } else {
            None
        }
    }

    /// An empty store.
    pub fn new() -> (r: SessionStore)
        ensures
            r.wf(),
            forall|id: u64| r.session_of(id) == Option::<SessionView>::None,
    {
        let r = SessionStore { sessions: Vec::new() };
        proof {
            assert(r.all() =~= Seq::<SessionView>::empty());
            assert forall|id: u64| r.session_of(id) == Option::<SessionView>::None by {
                reveal(Seq::filter);
            }
        }
        r
    }

    /// Whether an add workflow is already pending for this interaction.
    pub fn has(&self, interaction_id: u64) -> (r: bool)
        requires
            self.wf(),
        ensures
            r == (self.session_of(interaction_id) is Some),
    {
        let mut i: usize = 0;
        while i < self.sessions.len()
            invariant
                i <= self.sessions.len(),
                self.all().len() == self.sessions.len(),
                forall|j: int|
                    0 <= j < i ==> (#[trigger] self.all()[j]).interaction_id != interaction_id,
            decreases self.sessions.len() - i,
        {
            if self.sessions[i].interaction_id == interaction_id {
                proof {
                    Seq::lemma_filter_contains(self.all(), with_key(interaction_id), i as int);
                }
                return true;
            }
            i = i + 1;
        }
        proof {
            lemma_filter_none(self.all(), with_key(interaction_id));
        }
        false
    }

    /// Creates the session for a new add workflow, expiring `ttl` after
    /// `now` (saturating); every other interaction's session is untouched.
    pub fn start(
        &mut self,
        interaction_id: u64,
        guild: u64,
        user: u64,
        content: String,
        now: u64,
        ttl: u64,
    )
        requires
            old(self).wf(),
            old(self).session_of(interaction_id) is None,
            content@.len() > 0,
        ensures
            final(self).wf(),
            final(self).session_of(interaction_id) == Some(
                SessionView {
                    interaction_id,
                    guild,
                    user,
                    content: content@,
                    expires_at: spec_deadline(now, ttl),
                },
            ),
            forall|id2: u64|
                id2 != interaction_id ==> final(self).session_of(id2) == old(self).session_of(id2),
    {
        let expires_at: u64 = if ttl > u64::MAX - now {
            u64::MAX
        } else {
            now + ttl
        };
        let s = Session { interaction_id, guild, user, content, expires_at };
        let ghost sv = s@;
        let ghost pre = *self;
        proof {
            // an id that resolves to no session occurs at no index
            assert forall|j: int| 0 <= j < pre.all().len() implies (
            #[trigger] pre.all()[j]).interaction_id != interaction_id by {
                if pre.all()[j].interaction_id == interaction_id {
                    Seq::lemma_filter_contains(pre.all(), with_key(interaction_id), j);
                }
            }
        }
        self.sessions.push(s);
        proof {
            assert(self.all() =~= pre.all().push(sv));
            assert forall|id2: u64| #![auto] true implies self.session_of(id2) == if id2
                == interaction_id {
                Some(sv)
            } else {
                pre.session_of(id2)
            } by {
                lemma_filter_push(pre.all(), sv, with_key(id2));
                if id2 == interaction_id {
                    lemma_filter_none(pre.all(), with_key(id2));
                }
            }
        }
    }

    /// Consumes and deletes the session that matches this interaction,
    /// guild, initiating user and time. With no such match — unknown key,
    /// another guild or user, or an expired session — nothing changes and
    /// nothing is returned.
    pub fn consume(&mut self, interaction_id: u64, guild: u64, user: u64, now: u64) -> (r: Option<
        Session,
    >)
        requires
            old(self).wf(),
        ensures
            final(self).wf(),
            match old(self).session_of(interaction_id) {
                Some(s) => if s.guild == guild && s.user == user && s.live_at(now) {
                    &&& r matches Some(t) && t@ == s
                    &&& s.valid()
                    &&& final(self).session_of(interaction_id) is None
                    &&& forall|id2: u64|
                        id2 != interaction_id ==> final(self).session_of(id2) == old(
                            self,
                        ).session_of(id2)
                } else {
                    r is None && *final(self) == *old(self)
                },
                None => r is None && *final(self) == *old(self),
            },
    {
        let ghost pre = *self;
        let mut kept: Vec<Session> = Vec::new();
        let mut found: Option<Session> = None;
        proof {
            reveal(Seq::filter);
            assert(pre.all().take(0) =~= Seq::<SessionView>::empty());
            assert(kept@.map_values(|s: Session| s@) =~= pre.all().take(0).filter(
                other_keys(interaction_id),
            ));
        }
        let mut i: usize = 0;
        while i < self.sessions.len()
            invariant
                i <= self.sessions.len(),
                *self == pre,
                pre.wf(),
                pre.all().len() == self.sessions.len(),
                kept@.map_values(|s: Session| s@) == pre.all().take(i as int).filter(
                    other_keys(interaction_id),
                ),
                match found {
                    Some(f) => pre.all().take(i as int).filter(with_key(interaction_id)) == seq![
                        f@,
                    ],
                    None => pre.all().take(i as int).filter(with_key(interaction_id))
                        == Seq::<SessionView>::empty(),
                },
            decreases self.sessions.len() - i,
        {
            let ghost prevkept = kept@.map_values(|s: Session| s@);
            let s = &self.sessions[i];
            proof {
                assert(pre.all()[i as int] == s@);
                assert(with_key(interaction_id)(s@) == (s@.interaction_id == interaction_id));
                assert(other_keys(interaction_id)(s@) == (s@.interaction_id != interaction_id));
                lemma_filter_push(pre.all().take(i as int), s@, other_keys(interaction_id));
                lemma_filter_push(pre.all().take(i as int), s@, with_key(interaction_id));
                assert(pre.all().take(i as int).push(s@) =~= pre.all().take(i + 1));
            }
            if s.interaction_id == interaction_id {
                proof {
                    if found is Some {
                        // a second session under the same key would break
                        // the uniqueness invariant
                        let prevmatch = pre.all().take(i as int).filter(with_key(interaction_id));
                        Seq::lemma_filter_pred(pre.all().take(i as int), with_key(interaction_id), 0);
                        lemma_filter_is_subseq_elem(
                            pre.all().take(i as int),
                            with_key(interaction_id),
                            0,
                        );
                        let j = choose|j: int|
                            0 <= j < pre.all().take(i as int).len() && pre.all().take(i as int)[j]
                                == prevmatch[0];
                        assert(pre.all()[j] == prevmatch[0]);
                        assert(pre.all()[j].interaction_id != pre.all()[i as int].interaction_id);
                        assert(false);
                    }
                }
                found = Some(s.clone());
            } else {
                kept.push(s.clone());
                proof {
                    assert(kept@.map_values(|s: Session| s@) =~= prevkept.push(s@));
                }
            }
            i = i + 1;
        }
        proof {
            assert(pre.all().take(pre.all().len() as int) =~= pre.all());
        }
        match found {
            Some(f) => {
                if f.guild == guild && f.user == user && f.expires_at > now {
                    self.sessions = kept;
                    proof {
                        lemma_filter_is_subseq_elem(pre.all(), with_key(interaction_id), 0);
                        assert(f@.valid());
                        assert(self.all() == pre.all().filter(other_keys(interaction_id)));
                        lemma_filter_excluded(
                            pre.all(),
                            other_keys(interaction_id),
                            with_key(interaction_id),
                        );
                        assert forall|id2: u64| id2 != interaction_id implies self.session_of(id2)
                            == pre.session_of(id2) by {
                            lemma_filter_subsumed(
                                pre.all(),
                                other_keys(interaction_id),
                                with_key(id2),
                            );
                        }
                        assert forall|a: int| 0 <= a < self.all().len() implies (
                        #[trigger] self.all()[a]).valid() by {
                            lemma_filter_is_subseq_elem(
                                pre.all(),
                                other_keys(interaction_id),
                                a,
                            );
                        }
                        assert forall|a: int, b: int|
                            0 <= a < b < self.all().len() implies (
                        #[trigger] self.all()[a]).interaction_id != (
                        #[trigger] self.all()[b]).interaction_id by {
                            lemma_filter_distinct_keys(
                                pre.all(),
                                other_keys(interaction_id),
                                a,
                                b,
                            );
                        }
                    }
                    Some(f)
                } else {
                    None
                }
            },
            None => None,
        }
    }

    /// Deletes every session whose expiry instant has been reached;
    /// a live session survives untouched.
    pub fn evict_expired(&mut self, now: u64)
        requires
            old(self).wf(),
        ensures
            final(self).wf(),
            forall|id: u64|
                final(self).session_of(id) == match old(self).session_of(id) {
                    Some(s) => if s.live_at(now) {
                        Some(s)
                    } else {
                        None::<SessionView>
                    },
                    None => None::<SessionView>,
                },
    {
        let ghost pre = *self;
        let mut kept: Vec<Session> = Vec::new();
        proof {
            reveal(Seq::filter);
            assert(pre.all().take(0) =~= Seq::<SessionView>::empty());
            assert(kept@.map_values(|s: Session| s@) =~= pre.all().take(0).filter(live_filter(now)));
        }
        let mut i: usize = 0;
        while i < self.sessions.len()
            invariant
                i <= self.sessions.len(),
                *self == pre,
                pre.all().len() == self.sessions.len(),
                kept@.map_values(|s: Session| s@) == pre.all().take(i as int).filter(
                    live_filter(now),
                ),
            decreases self.sessions.len() - i,
        {
            let ghost prevkept = kept@.map_values(|s: Session| s@);
            let s = &self.sessions[i];
            proof {
                assert(pre.all()[i as int] == s@);
                assert(live_filter(now)(s@) == s@.live_at(now));
                lemma_filter_push(pre.all().take(i as int), s@, live_filter(now));
                assert(pre.all().take(i as int).push(s@) =~= pre.all().take(i + 1));
            }
            if now < s.expires_at {
                kept.push(s.clone());
                proof {
                    assert(kept@.map_values(|s: Session| s@) =~= prevkept.push(s@));
                }
            }
            i = i + 1;
        }
        proof {
            assert(pre.all().take(pre.all().len() as int) =~= pre.all());
        }
        self.sessions = kept;
        proof {
            assert(self.all() == pre.all().filter(live_filter(now)));
            assert forall|a: int| 0 <= a < self.all().len() implies (
            #[trigger] self.all()[a]).valid() by {
                lemma_filter_is_subseq_elem(pre.all(), live_filter(now), a);
            }
            assert forall|a: int, b: int|
                0 <= a < b < self.all().len() implies (#[trigger] self.all()[a]).interaction_id
                != (#[trigger] self.all()[b]).interaction_id by {
                lemma_filter_distinct_keys(pre.all(), live_filter(now), a, b);
            }
            assert forall|id: u64| #![auto] true implies self.session_of(id) == match pre.session_of(
                id,
            ) {
                Some(s) => if s.live_at(now) {
                    Some(s)
                } else {
                    None::<SessionView>
                },
                None => None::<SessionView>,
            } by {
                reveal(Seq::filter);
                lemma_filter_commutes(pre.all(), live_filter(now), with_key(id));
                lemma_sessions_unique_filtered(pre, id);
                let m = pre.all().filter(with_key(id));
                if m.len() == 1 {
                    let s = m[0];
                    assert(live_filter(now)(s) == s.live_at(now));
                    assert(m =~= seq![s]);
                    assert(seq![s].drop_last() =~= Seq::<SessionView>::empty());
                    assert(m.filter(live_filter(now)) == if s.live_at(now) {
                        Seq::<SessionView>::empty().push(s)
                    } else {
                        Seq::<SessionView>::empty()
                    });
                } else {
                    assert(m =~= Seq::<SessionView>::empty());
                }
            }
        }
    }
}

/// The filter selecting the sessions still live at `now`.
pub open spec fn live_filter(now: u64) -> spec_fn(SessionView) -> bool {
    |s: SessionView| s.live_at(now)
}

/// Two filters applied in sequence commute.
pub proof fn lemma_filter_commutes<A>(s: Seq<A>, p: spec_fn(A) -> bool, q: spec_fn(A) -> bool)
    ensures
        s.filter(p).filter(q) == s.filter(q).filter(p),
    decreases s.len(),
{
    reveal(Seq::filter);
    if s.len() > 0 {
        lemma_filter_commutes(s.drop_last(), p, q);
        if p(s.last()) {
            lemma_filter_push(s.drop_last().filter(p), s.last(), q);
        }
        if q(s.last()) {
            lemma_filter_push(s.drop_last().filter(q), s.last(), p);
        }
    }
}

/// In a well-formed store, the sessions matching one key form either an
/// empty sequence or exactly the one session of that key.
proof fn lemma_sessions_unique_filtered(pre: SessionStore, id: u64)
    requires
        pre.wf(),
    ensures
        pre.all().filter(with_key(id)).len() <= 1,
{
    let m = pre.all().filter(with_key(id));
    if m.len() > 1 {
        lemma_filter_distinct_keys(pre.all(), with_key(id), 0, 1);
        Seq::lemma_filter_pred(pre.all(), with_key(id), 0);
        Seq::lemma_filter_pred(pre.all(), with_key(id), 1);
        assert(false);
    }
}

/// A filter of a sequence with pairwise-distinct interaction ids again
/// has pairwise-distinct interaction ids.
pub proof fn lemma_filter_distinct_keys(
    s: Seq<SessionView>,
    p: spec_fn(SessionView) -> bool,
    i: int,
    j: int,
)
    requires
        forall|a: int, b: int|
            0 <= a < b < s.len() ==> (#[trigger] s[a]).interaction_id != (
            #[trigger] s[b]).interaction_id,
        0 <= i < j < s.filter(p).len(),
    ensures
        s.filter(p)[i].interaction_id != s.filter(p)[j].interaction_id,
    decreases s.len(),
{
    reveal(Seq::filter);
    if s.len() > 0 {
        let fprev = s.drop_last().filter(p);
        assert(s.drop_last().len() == s.len() - 1);
        if p(s.last()) && j == fprev.len() {
            lemma_filter_is_subseq_elem(s.drop_last(), p, i);
            let k = choose|k: int| 0 <= k < s.drop_last().len() && s.drop_last()[k] == fprev[i];
            assert(s[k] == s.filter(p)[i]);
            assert(s[k].interaction_id != s.last().interaction_id);
        } else {
            lemma_filter_distinct_keys(s.drop_last(), p, i, j);
        }
    }
}

} // verus!
