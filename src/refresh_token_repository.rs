use vstd::prelude::*;

use crate::errors::ServiceError;
use crate::model::{RefreshSession, SessionRow};
use crate::seq_facts::{lemma_filter_all, lemma_filter_unique_by, unique_by};

verus! {

/// The abstract contents of a refresh-session table.
pub struct SessionTable {
    pub sessions: Seq<SessionRow>,
    pub next_id: i32,
}

/// The unique hash of a stored session.
pub open spec fn hash_key() -> spec_fn(SessionRow) -> Seq<char> {
    |s: SessionRow| s.token_hash
}

/// The primary key of a stored session.
pub open spec fn id_key() -> spec_fn(SessionRow) -> i32 {
    |s: SessionRow| s.id
}

/// Hashes and ids are unique and every id was handed out before `next_id`.
pub open spec fn table_wf(t: SessionTable) -> bool {
    &&& unique_by(t.sessions, hash_key())
    &&& unique_by(t.sessions, id_key())
    &&& 1 <= t.next_id
    &&& forall|i: int| 0 <= i < t.sessions.len() ==> 1 <= #[trigger] t.sessions[i].id < t.next_id
}

/// The session stored under `hash`, if any.
pub open spec fn lookup(ss: Seq<SessionRow>, hash: Seq<char>) -> Option<SessionRow> {
    if exists|i: int| 0 <= i < ss.len() && #[trigger] ss[i].token_hash == hash {
        let i = choose|i: int| 0 <= i < ss.len() && #[trigger] ss[i].token_hash == hash;
        Some(ss[i])
    } else {
        None
    }
}

/// Sessions whose hash differs from `hash`.
pub open spec fn without_hash(ss: Seq<SessionRow>, hash: Seq<char>) -> Seq<SessionRow> {
    ss.filter(|s: SessionRow| s.token_hash != hash)
}

/// Sessions that `user_id` does not own.
pub open spec fn without_owner(ss: Seq<SessionRow>, user_id: i32) -> Seq<SessionRow> {
    ss.filter(|s: SessionRow| s.user_id != user_id)
}

/// Sessions that `user_id` owns.
pub open spec fn owned_by(ss: Seq<SessionRow>, user_id: i32) -> Seq<SessionRow> {
    ss.filter(|s: SessionRow| s.user_id == user_id)
}

/// Sessions that are still live at `now`.
pub open spec fn live_at(ss: Seq<SessionRow>, now: i64) -> Seq<SessionRow> {
    ss.filter(|s: SessionRow| !s.expired_at(now))
}

/// Inserting a row: refused on a taken hash or when ids are exhausted.
pub open spec fn spec_create(
    t: SessionTable,
    user_id: i32,
    token_hash: Seq<char>,
    expires_at: i64,
    now: i64,
) -> (SessionTable, Result<SessionRow, ServiceError>) {
    if lookup(t.sessions, token_hash) is Some {
        (t, Err(ServiceError::Conflict))
    } else if t.next_id == i32::MAX {
        (t, Err(ServiceError::Persistence))
    } else {
        let row = SessionRow { id: t.next_id, user_id, token_hash, expires_at, created_at: now };
        (SessionTable { sessions: t.sessions.push(row), next_id: (t.next_id + 1) as i32 }, Ok(row))
    }
}

pub open spec fn rows(v: Seq<RefreshSession>) -> Seq<SessionRow> {
    v.map_values(|s: RefreshSession| s@)
}

/// A criterion for keeping rows during a bulk delete or a listing.
enum Keep<'a> {
    HashOtherThan(&'a String),
    OwnerOtherThan(i32),
    OwnedBy(i32),
    LiveAt(i64),
}

spec fn keeps(k: Keep, s: SessionRow) -> bool {
    match k {
        Keep::HashOtherThan(h) => s.token_hash != h@,
        Keep::OwnerOtherThan(u) => s.user_id != u,
        Keep::OwnedBy(u) => s.user_id == u,
        Keep::LiveAt(now) => !s.expired_at(now),
    }
}

fn keep(k: &Keep, s: &RefreshSession) -> (r: bool)
    ensures
        r == keeps(*k, s@),
{
    match k {
        Keep::HashOtherThan(h) => {
            let eq = s.token_hash == **h;
            !eq
        },
        Keep::OwnerOtherThan(u) => s.user_id != *u,
        Keep::OwnedBy(u) => s.user_id == *u,
        Keep::LiveAt(now) => !(s.expires_at < *now),
    }
}

fn filtered(ss: &Vec<RefreshSession>, k: &Keep) -> (out: Vec<RefreshSession>)
    ensures
        rows(out@) == rows(ss@).filter(|s: SessionRow| keeps(*k, s)),
{
    let ghost f = |s: SessionRow| keeps(*k, s);
    let mut out: Vec<RefreshSession> = Vec::new();
    let mut i: usize = 0;
    while i < ss.len()
        invariant
            0 <= i <= ss@.len(),
            f == (|s: SessionRow| keeps(*k, s)),
            rows(out@) == rows(ss@).take(i as int).filter(f),
        decreases ss@.len() - i,
    {
        let s = &ss[i];
        let kept = keep(k, s);
        let ghost before = out@;
        if kept {
            out.push(s.copy());
            assert(rows(out@) =~= rows(before).push(s@));
        }
        proof {
            let t = rows(ss@).take(i + 1);
            assert(t.drop_last() =~= rows(ss@).take(i as int));
            assert(t.last() == s@);
            reveal(Seq::filter);
            assert(f(s@) == kept);
        }
        i = i + 1;
    }
    assert(rows(ss@).take(ss@.len() as int) =~= rows(ss@));
    out
}

/// Refresh sessions, keyed by the hash of their secret.
pub struct RefreshTokenRepository {
    sessions: Vec<RefreshSession>,
    next_id: i32,
}

impl View for RefreshTokenRepository {
    type V = SessionTable;

    closed spec fn view(&self) -> SessionTable {
        SessionTable { sessions: rows(self.sessions@), next_id: self.next_id }
    }
}

/// Dropping rows keeps the table well formed.
proof fn lemma_filter_keeps_wf(t: SessionTable, p: spec_fn(SessionRow) -> bool)
    requires
        table_wf(t),
    ensures
        table_wf(SessionTable { sessions: t.sessions.filter(p), next_id: t.next_id }),
{
    lemma_filter_unique_by(t.sessions, p, hash_key());
    lemma_filter_unique_by(t.sessions, p, id_key());
    let q = |s: SessionRow| 1 <= s.id < t.next_id;
    lemma_filter_all(t.sessions, p, q);
    let f = t.sessions.filter(p);
    assert forall|i: int| 0 <= i < f.len() implies 1 <= #[trigger] f[i].id < t.next_id by {
        assert(q(f[i]));
    }
}

impl RefreshTokenRepository {
    pub open spec fn wf(&self) -> bool {
        table_wf(self@)
    }

    /// How many rows the table holds.
    pub fn count(&self) -> (r: usize)
        ensures
            r == self@.sessions.len(),
    {
        self.sessions.len()
    }

    pub fn new() -> (r: Self)
        ensures
            r.wf(),
            r@.sessions.len() == 0,
            r@.next_id == 1,
    {
        let r = RefreshTokenRepository { sessions: Vec::new(), next_id: 1 };
        assert(r@.sessions =~= Seq::<SessionRow>::empty());
        r
    }

    fn position(&self, token_hash: &String) -> (r: Option<usize>)
        requires
            self.wf(),
        ensures
            match r {
                Some(i) => i < self@.sessions.len() && lookup(self@.sessions, token_hash@)
                    == Some(self@.sessions[i as int]),
                None => lookup(self@.sessions, token_hash@) is None,
            },
    {
        let mut i: usize = 0;
        while i < self.sessions.len()
            invariant
                0 <= i <= self.sessions@.len(),
                self.wf(),
                forall|j: int| 0 <= j < i ==> #[trigger] self@.sessions[j].token_hash != token_hash@,
            decreases self.sessions@.len() - i,
        {
            if self.sessions[i].token_hash == *token_hash {
                proof {
                    let ss = self@.sessions;
                    assert(ss[i as int].token_hash == token_hash@);
                    let c = choose|c: int| 0 <= c < ss.len() && #[trigger] ss[c].token_hash == token_hash@;
                    assert((hash_key())(ss[c]) == (hash_key())(ss[i as int]));
                    assert(c == i);
                }
                return Some(i);
            }
            i = i + 1;
        }
        None
    }

    /// Stores a new session row.
    pub fn create(&mut self, user_id: i32, token_hash: String, expires_at: i64, now: i64) -> (r:
        Result<RefreshSession, ServiceError>)
        requires
            old(self).wf(),
        ensures
            final(self).wf(),
            (final(self)@, match r {
                Ok(s) => Ok(s@),
                Err(e) => Err(e),
            }) == spec_create(old(self)@, user_id, token_hash@, expires_at, now),
    {
        if self.position(&token_hash).is_some() {
            return Err(ServiceError::Conflict);
        }
        if self.next_id == i32::MAX {
            return Err(ServiceError::Persistence);
        }
        let row = RefreshSession {
            id: self.next_id,
            user_id,
            token_hash,
            expires_at,
            created_at: now,
        };
        let out = row.copy();
        self.sessions.push(row);
        self.next_id = self.next_id + 1;
        proof {
            let ss = self@.sessions;
            let os = old(self)@.sessions;
            assert(ss =~= os.push(out@));
            assert forall|i: int, j: int|
                0 <= i < ss.len() && 0 <= j < ss.len() && #[trigger] (hash_key())(ss[i])
                    == #[trigger] (hash_key())(ss[j]) implies i == j by {
                if i < ss.len() - 1 && j == ss.len() - 1 {
                    assert(ss[i] == os[i]);
                } else if j < ss.len() - 1 && i == ss.len() - 1 {
                    assert(ss[j] == os[j]);
                } else if i < ss.len() - 1 && j < ss.len() - 1 {
                    assert(ss[i] == os[i] && ss[j] == os[j]);
                    assert((hash_key())(os[i]) == (hash_key())(os[j]));
                }
            }
            assert forall|i: int, j: int|
                0 <= i < ss.len() && 0 <= j < ss.len() && #[trigger] (id_key())(ss[i])
                    == #[trigger] (id_key())(ss[j]) implies i == j by {
                if i < ss.len() - 1 && j < ss.len() - 1 {
                    assert(ss[i] == os[i] && ss[j] == os[j]);
                    assert((id_key())(os[i]) == (id_key())(os[j]));
                }
            }
            assert forall|i: int| 0 <= i < ss.len() implies 1 <= #[trigger] ss[i].id < self.next_id by {
                if i < ss.len() - 1 {
                    assert(ss[i] == os[i]);
                }
            }
        }
        Ok(out)
    }

    /// The session stored under `token_hash`, if any.
    pub fn find_by_token_hash(&self, token_hash: &String) -> (r: Option<RefreshSession>)
        requires
            self.wf(),
        ensures
            match r {
                Some(s) => lookup(self@.sessions, token_hash@) == Some(s@),
                None => lookup(self@.sessions, token_hash@) is None,
            },
    {
        match self.position(token_hash) {
            Some(i) => Some(self.sessions[i].copy()),
            None => None,
        }
    }

    /// Every session that `user_id` owns, in insertion order.
    pub fn find_by_user_id(&self, user_id: i32) -> (r: Vec<RefreshSession>)
        ensures
            rows(r@) == owned_by(self@.sessions, user_id),
    {
        let k = Keep::OwnedBy(user_id);
        let r = filtered(&self.sessions, &k);
        assert((|s: SessionRow| keeps(k, s)) =~= (|s: SessionRow| s.user_id == user_id));
        r
    }

    /// Deletes the session stored under `token_hash`; returns how many rows went.
    pub fn delete_by_token_hash(&mut self, token_hash: &String) -> (r: usize)
        requires
            old(self).wf(),
        ensures
            final(self).wf(),
            final(self)@.sessions == without_hash(old(self)@.sessions, token_hash@),
            final(self)@.next_id == old(self)@.next_id,
            r == old(self)@.sessions.len() - final(self)@.sessions.len(),
    {
        let k = Keep::HashOtherThan(token_hash);
        let kept = filtered(&self.sessions, &k);
        assert((|s: SessionRow| keeps(k, s)) =~= (|s: SessionRow| s.token_hash != token_hash@));
        proof {
            old(self)@.sessions.lemma_filter_len(|s: SessionRow| s.token_hash != token_hash@);
            lemma_filter_keeps_wf(old(self)@, |s: SessionRow| s.token_hash != token_hash@);
        }
        let r = self.sessions.len() - kept.len();
        self.sessions = kept;
        r
    }

    /// Deletes every session that `user_id` owns; returns how many rows went.
    pub fn delete_by_user_id(&mut self, user_id: i32) -> (r: usize)
        requires
            old(self).wf(),
        ensures
            final(self).wf(),
            final(self)@.sessions == without_owner(old(self)@.sessions, user_id),
            final(self)@.next_id == old(self)@.next_id,
            r == old(self)@.sessions.len() - final(self)@.sessions.len(),
    {
        let k = Keep::OwnerOtherThan(user_id);
        let kept = filtered(&self.sessions, &k);
        assert((|s: SessionRow| keeps(k, s)) =~= (|s: SessionRow| s.user_id != user_id));
        proof {
            old(self)@.sessions.lemma_filter_len(|s: SessionRow| s.user_id != user_id);
            lemma_filter_keeps_wf(old(self)@, |s: SessionRow| s.user_id != user_id);
        }
        let r = self.sessions.len() - kept.len();
        self.sessions = kept;
        r
    }

    /// Deletes every session past its expiry at `now`; returns how many rows went.
    pub fn delete_expired(&mut self, now: i64) -> (r: usize)
        requires
            old(self).wf(),
        ensures
            final(self).wf(),
            final(self)@.sessions == live_at(old(self)@.sessions, now),
            final(self)@.next_id == old(self)@.next_id,
            r == old(self)@.sessions.len() - final(self)@.sessions.len(),
    {
        let k = Keep::LiveAt(now);
        let kept = filtered(&self.sessions, &k);
        assert((|s: SessionRow| keeps(k, s)) =~= (|s: SessionRow| !s.expired_at(now)));
        proof {
            old(self)@.sessions.lemma_filter_len(|s: SessionRow| !s.expired_at(now));
            lemma_filter_keeps_wf(old(self)@, |s: SessionRow| !s.expired_at(now));
        }
        let r = self.sessions.len() - kept.len();
        self.sessions = kept;
        r
    }
}

} // verus!
