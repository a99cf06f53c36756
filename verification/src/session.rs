//! Session-token minting and the token-keyed session store.
//!
//! The store models a key-value cache with per-entry expiry: `put` writes a
//! token with a time-to-live, `resolve` reads a token back and honours it
//! only before its expiry. Time is passed in explicitly; the store itself
//! never consults a clock. Its contents are modelled as a `Map` from the
//! token's characters to the session it names.

use vstd::prelude::*;

use crate::models::Session;
use crate::SESSION_ID_LENGTH;

use rand::Rng;

verus! {

/// Characters a session token is drawn from: ASCII letters and digits.
pub open spec fn is_token_char(c: char) -> bool {
    ('A' <= c && c <= 'Z') || ('a' <= c && c <= 'z') || ('0' <= c && c <= '9')
}

/// A well-formed token: exactly `SESSION_ID_LENGTH` characters, all from the
/// token alphabet.
pub open spec fn token_wellformed(t: Seq<char>) -> bool {
    &&& t.len() == SESSION_ID_LENGTH
    &&& forall|i: int| 0 <= i < t.len() ==> is_token_char(#[trigger] t[i])
}

/// Relies on rand's `Alphanumeric` distribution: every sampled value is an
/// ASCII letter or digit, so the collected string is `len` characters from
/// the token alphabet. Each draw comes from the thread-local
/// cryptographically secure generator, so nothing more is promised of the
/// result; two calls may and almost surely do differ.
#[verifier::external_body]
fn random_alphanumeric(len: usize) -> (r: String)
    ensures
        r@.len() == len as nat,
        forall|i: int| 0 <= i < r@.len() ==> is_token_char(#[trigger] r@[i]),
{
    rand::thread_rng()
        .sample_iter(&rand::distributions::Alphanumeric)
        .take(len)
        .map(char::from)
        .collect()
}

/// Mints a fresh opaque session token.
///
/// Uniqueness is probabilistic: the token is drawn uniformly from an
/// alphabet of 62 characters at length `SESSION_ID_LENGTH`, a space so large
/// that collisions are never checked for.
pub fn mint_token() -> (t: String)
    ensures
        token_wellformed(t@),
{
    random_alphanumeric(SESSION_ID_LENGTH)
}

/// One stored session: the token under which it was filed and the session.
pub struct SessionEntry {
    pub token: String,
    pub session: Session,
}

impl Clone for SessionEntry {
    fn clone(&self) -> (r: Self)
        ensures
            r == *self,
    {
        SessionEntry { token: self.token.clone(), session: self.session }
    }
}

/// The map a sequence of entries spells out, later entries winning.
pub open spec fn entries_contents(s: Seq<SessionEntry>) -> Map<Seq<char>, Session>
    decreases s.len(),
{
    if s.len() == 0 {
        Map::empty()
    } else {
        entries_contents(s.drop_last()).insert(s.last().token@, s.last().session)
    }
}

/// The token-keyed session store.
pub struct SessionStore {
    entries: Vec<SessionEntry>,
}

/// What `resolve` answers over the store's contents: the user the token was
/// issued to, if the store holds the token and the instant lies strictly
/// before its expiry; nothing otherwise.
pub open spec fn spec_resolve(m: Map<Seq<char>, Session>, token: Seq<char>, now: u64) -> Option<
    i32,
> {
    if m.contains_key(token) && now < m[token].expires_at {
        Some(m[token].user_id)
    } else {
        None
    }
}

impl View for SessionStore {
    type V = Map<Seq<char>, Session>;

    closed spec fn view(&self) -> Map<Seq<char>, Session> {
        entries_contents(self.entries@)
    }
}

impl SessionStore {
    /// No two entries file the same token.
    pub closed spec fn wf(&self) -> bool {
        forall|i: int, j: int|
            0 <= i < j < self.entries@.len() ==> self.entries@[i].token@
                != self.entries@[j].token@
    }

    /// An empty store.
    pub fn new() -> (s: SessionStore)
        ensures
            s.wf(),
            s@ == Map::<Seq<char>, Session>::empty(),
    {
        SessionStore { entries: Vec::new() }
    }

    /// The index of the entry filing `token`, if any.
    fn find_index(&self, token: &str) -> (r: Option<usize>)
        ensures
            match r {
                Some(i) => i < self.entries@.len() && self.entries@[i as int].token@ == token@,
                None => forall|i: int|
                    0 <= i < self.entries@.len() ==> self.entries@[i].token@ != token@,
            },
    {
        let n = self.entries.len();
        let mut i: usize = 0;
        while i < n
            invariant
                n == self.entries@.len(),
                i <= n,
                forall|j: int| 0 <= j < i ==> self.entries@[j].token@ != token@,
            decreases n - i,
        {
            if crate::util::str_eq(self.entries[i].token.as_str(), token) {
                return Some(i);
            }
            i = i + 1;
        }
        None
    }

    /// Stores `token -> user_id`, to be honoured until `now + ttl`. Writing
    /// a token the store already holds replaces that entry, as a cache write
    /// does; every other entry is untouched.
    pub fn put(&mut self, token: String, user_id: i32, now: u64, ttl: u64)
        requires
            old(self).wf(),
            now + ttl <= u64::MAX,
        ensures
            final(self).wf(),
            final(self)@ == old(self)@.insert(
                token@,
                Session { user_id, expires_at: (now + ttl) as u64 },
            ),
    {
        let expires_at = now + ttl;
        let entry = SessionEntry { token, session: Session { user_id, expires_at } };
        let ghost tok = entry.token@;
        let ghost sess = entry.session;
        match self.find_index(entry.token.as_str()) {
            Some(i) => {
                proof {
                    lemma_contents_remove(self.entries@, i as int);
                }
                let _ = self.entries.remove(i);
                proof {
                    lemma_contents_no_match(self.entries@, tok);
                    assert(self.entries@.push(entry).drop_last() =~= self.entries@);
                }
                self.entries.push(entry);
                proof {
                    assert(self@ =~= old(self)@.insert(tok, sess));
                }
            },
            None => {
                proof {
                    lemma_contents_no_match(self.entries@, tok);
                    assert(self.entries@.push(entry).drop_last() =~= self.entries@);
                }
                self.entries.push(entry);
            },
        }
    }

    /// Looks a token up at instant `now`: the user id it was issued to while
    /// the entry is live, nothing for an expired, replaced-away or never
    /// stored token.
    pub fn resolve(&self, token: &str, now: u64) -> (r: Option<i32>)
        requires
            self.wf(),
        ensures
            r == spec_resolve(self@, token@, now),
    {
        match self.find_index(token) {
            Some(i) => {
                proof {
                    lemma_contents_match(self.entries@, i as int);
                }
                let entry = &self.entries[i];
                if now < entry.session.expires_at {
                    Some(entry.session.user_id)
                } else {
                    None
                }
            },
            None => {
                proof {
                    lemma_contents_no_match(self.entries@, token@);
                }
                None
            },
        }
    }
}

/// Whether `e` is one of the entries in `s`.
pub open spec fn contains_entry(s: Seq<SessionEntry>, e: SessionEntry) -> bool {
    exists|i: int| 0 <= i < s.len() && s[i] == e
}

/// The entries of `m` still live at instant `now`: those whose expiry lies
/// strictly after it.
pub open spec fn live_contents(m: Map<Seq<char>, Session>, now: u64) -> Map<Seq<char>, Session> {
    Map::new(|t: Seq<char>| m.contains_key(t) && now < m[t].expires_at, |t: Seq<char>| m[t])
}

impl SessionStore {
    /// Evicts every entry whose expiry has arrived, as the cache's
    /// time-to-live sweep does: what stays is exactly what was live, each
    /// entry as it was.
    pub fn evict_expired(&mut self, now: u64)
        requires
            old(self).wf(),
        ensures
            final(self).wf(),
            final(self)@ == live_contents(old(self)@, now),
    {
        let ghost s0 = self.entries@;
        let n = self.entries.len();
        let mut kept: Vec<SessionEntry> = Vec::new();
        let mut i: usize = 0;
        proof {
            assert(s0.take(0) =~= Seq::<SessionEntry>::empty());
            assert(entries_contents(kept@) =~= live_contents(entries_contents(s0.take(0)), now));
        }
        while i < n
            invariant
                i <= n,
                n == self.entries@.len(),
                self.entries@ == s0,
                forall|p: int, q: int| 0 <= p < q < s0.len() ==> s0[p].token@ != s0[q].token@,
                forall|k: int|
                    0 <= k < kept@.len() ==> contains_entry(s0.take(i as int), #[trigger] kept@[k]),
                forall|p: int, q: int|
                    0 <= p < q < kept@.len() ==> kept@[p].token@ != kept@[q].token@,
                entries_contents(kept@) == live_contents(entries_contents(s0.take(i as int)), now),
            decreases n - i,
        {
            let ghost kept0 = kept@;
            let entry = self.entries[i].clone();
            proof {
                assert(s0.take(i as int + 1).drop_last() =~= s0.take(i as int));
                assert(s0.take(i as int + 1).last() == s0[i as int]);
                assert forall|j: int| 0 <= j < s0.take(i as int).len() implies (#[trigger] s0.take(
                    i as int,
                )[j]).token@ != s0[i as int].token@ by {
                    assert(s0[j] == s0.take(i as int)[j]);
                }
                lemma_contents_no_match(s0.take(i as int), s0[i as int].token@);
            }
            if now < entry.session.expires_at {
                proof {
                    assert(kept0.push(entry).drop_last() =~= kept0);
                    assert forall|k: int| 0 <= k < kept0.len() implies (#[trigger] kept0[k]).token@
                        != entry.token@ by {
                        let j = choose|j: int| 0 <= j < i && s0.take(i as int)[j] == kept0[k];
                        assert(s0[j] == kept0[k]);
                    }
                    assert(entries_contents(kept0.push(entry)) =~= live_contents(
                        entries_contents(s0.take(i as int + 1)),
                        now,
                    ));
                }
                kept.push(entry);
                proof {
                    assert forall|k: int| 0 <= k < kept@.len() implies contains_entry(
                        s0.take(i as int + 1),
                        #[trigger] kept@[k],
                    ) by {
                        if k < kept0.len() {
                            let j = choose|j: int| 0 <= j < i && s0.take(i as int)[j] == kept0[k];
                            assert(s0.take(i as int + 1)[j] == kept0[k]);
                        } else {
                            assert(s0.take(i as int + 1)[i as int] == kept@[k]);
                        }
                    }
                }
            } else {
                proof {
                    assert(!(now < entries_contents(s0.take(i as int + 1))[s0[i as int].token@]
                        .expires_at));
                    assert(entries_contents(kept@) =~= live_contents(
                        entries_contents(s0.take(i as int + 1)),
                        now,
                    ));
                    assert forall|k: int| 0 <= k < kept@.len() implies contains_entry(
                        s0.take(i as int + 1),
                        #[trigger] kept@[k],
                    ) by {
                        let j = choose|j: int| 0 <= j < i && s0.take(i as int)[j] == kept@[k];
                        assert(s0.take(i as int + 1)[j] == kept@[k]);
                    }
                }
            }
            i = i + 1;
        }
        proof {
            assert(s0.take(n as int) =~= s0);
        }
        self.entries = kept;
    }
}

/// Law: evicting expired entries changes no resolution made at that
/// instant: a token resolves after the sweep exactly as it did before.
pub proof fn lemma_eviction_preserves_resolution(
    m: Map<Seq<char>, Session>,
    token: Seq<char>,
    now: u64,
)
    ensures
        spec_resolve(live_contents(m, now), token, now) == spec_resolve(m, token, now),
{
}

/// If no entry files `tok`, the contents do not know `tok`.
proof fn lemma_contents_no_match(s: Seq<SessionEntry>, tok: Seq<char>)
    requires
        forall|i: int| 0 <= i < s.len() ==> s[i].token@ != tok,
    ensures
        !entries_contents(s).contains_key(tok),
    decreases s.len(),
{
    if s.len() > 0 {
        assert(forall|i: int| 0 <= i < s.drop_last().len() ==> s.drop_last()[i] == s[i]);
        lemma_contents_no_match(s.drop_last(), tok);
    }
}

/// Under distinct tokens, the contents file entry `i` under its token.
proof fn lemma_contents_match(s: Seq<SessionEntry>, i: int)
    requires
        forall|p: int, q: int| 0 <= p < q < s.len() ==> s[p].token@ != s[q].token@,
        0 <= i < s.len(),
    ensures
        entries_contents(s).contains_key(s[i].token@),
        entries_contents(s)[s[i].token@] == s[i].session,
    decreases s.len(),
{
    if i < s.len() - 1 {
        assert(forall|p: int| 0 <= p < s.drop_last().len() ==> s.drop_last()[p] == s[p]);
        lemma_contents_match(s.drop_last(), i);
        assert(s[i].token@ != s.last().token@);
    }
}

/// Under distinct tokens, dropping entry `i` removes exactly its token.
proof fn lemma_contents_remove(s: Seq<SessionEntry>, i: int)
    requires
        forall|p: int, q: int| 0 <= p < q < s.len() ==> s[p].token@ != s[q].token@,
        0 <= i < s.len(),
    ensures
        entries_contents(s.remove(i)) == entries_contents(s).remove(s[i].token@),
    decreases s.len(),
{
    if i == s.len() - 1 {
        assert(s.remove(i) =~= s.drop_last());
        assert(forall|p: int| 0 <= p < s.drop_last().len() ==> s.drop_last()[p] == s[p]);
        lemma_contents_no_match(s.drop_last(), s[i].token@);
        assert(entries_contents(s.drop_last()).remove(s[i].token@) =~= entries_contents(
            s.drop_last(),
        ));
        assert(entries_contents(s).remove(s[i].token@) =~= entries_contents(s.drop_last()));
    } else {
        assert(forall|p: int| 0 <= p < s.drop_last().len() ==> s.drop_last()[p] == s[p]);
        lemma_contents_remove(s.drop_last(), i);
        assert(s.remove(i).drop_last() =~= s.drop_last().remove(i));
        assert(s.remove(i).last() == s.last());
        assert(s[i].token@ != s.last().token@);
        assert(entries_contents(s.remove(i)) =~= entries_contents(s).remove(s[i].token@));
    }
}

/// Law: a token just placed in the store resolves to the user it was issued
/// for, at every instant strictly before its expiry, whatever the store held
/// before.
pub proof fn lemma_fresh_token_resolves(
    m: Map<Seq<char>, Session>,
    token: Seq<char>,
    user_id: i32,
    expires_at: u64,
    later: u64,
)
    requires
        later < expires_at,
    ensures
        spec_resolve(m.insert(token, Session { user_id, expires_at }), token, later) == Some(
            user_id,
        ),
{
}

/// Law: a token the store never issued, or holds only past its expiry, does
/// not resolve.
pub proof fn lemma_stale_token_rejected(m: Map<Seq<char>, Session>, token: Seq<char>, now: u64)
    requires
        !m.contains_key(token) || now >= m[token].expires_at,
    ensures
        spec_resolve(m, token, now) is None,
{
}

} // verus!
