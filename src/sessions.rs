//! The session registry: one row per outstanding refresh token.
use vstd::prelude::*;

verus! {

/// One outstanding refresh token, the user that owns it, and when it was
/// created or last rotated.
pub struct Session {
    pub user_id: u64,
    pub token: String,
    /// Seconds since the Unix epoch.
    pub created_at: u64,
}

/// A registry row as a mathematical value: owner, token text, creation or
/// rotation time.
pub type Row = (u64, Seq<char>, u64);

pub open spec fn row_of(s: Session) -> Row {
    (s.user_id, s.token@, s.created_at)
}

/// Whether `r` is the session of `user_id` that holds `token`.
pub open spec fn is_session(user_id: u64, token: Seq<char>) -> spec_fn(Row) -> bool {
    |r: Row| r.0 == user_id && r.1 == token
}

/// Whether `r` is any row but the session of `user_id` that holds `token`.
pub open spec fn not_session(user_id: u64, token: Seq<char>) -> spec_fn(Row) -> bool {
    |r: Row| !(r.0 == user_id && r.1 == token)
}

/// Some row of `user_id` holds `token`.
pub open spec fn has_row(rows: Seq<Row>, user_id: u64, token: Seq<char>) -> bool {
    exists|i: int| 0 <= i < rows.len() && (#[trigger] rows[i]).0 == user_id && rows[i].1 == token
}

pub open spec fn rows_of(v: Seq<Session>) -> Seq<Row> {
    v.map_values(|s: Session| row_of(s))
}

/// Some row, of any user, holds `token`.
pub open spec fn token_live(rows: Seq<Row>, token: Seq<char>) -> bool {
    exists|i: int| 0 <= i < rows.len() && (#[trigger] rows[i]).1 == token
}

/// `rows` with every row of `user_id` removed.
pub open spec fn without_user(rows: Seq<Row>, user_id: u64) -> Seq<Row> {
    rows.filter(not_owned_by(user_id))
}

/// Rows that `user_id` does not own.
pub open spec fn not_owned_by(user_id: u64) -> spec_fn(Row) -> bool {
    |r: Row| r.0 != user_id
}

/// `rows` with the session of `user_id` that holds `token` removed.
pub open spec fn without_row(rows: Seq<Row>, user_id: u64, token: Seq<char>) -> Seq<Row> {
    rows.filter(not_session(user_id, token))
}

/// The rotation of one row: the session of `user_id` holding `old_token` gets
/// `new_token` and the time `now`; any other row stays.
pub open spec fn rotate_row(user_id: u64, old_token: Seq<char>, new_token: Seq<char>, now: u64) -> spec_fn(Row) -> Row {
    |r: Row| if r.0 == user_id && r.1 == old_token { (user_id, new_token, now) } else { r }
}

/// `rows` with each session of `user_id` holding `old_token` rotated to
/// `new_token` at `now`.
pub open spec fn rotated(rows: Seq<Row>, user_id: u64, old_token: Seq<char>, new_token: Seq<char>, now: u64) -> Seq<Row> {
    rows.map_values(rotate_row(user_id, old_token, new_token, now))
}

/// What revocation on reuse leaves: everything when `token` is still held by some
/// row, else the rows of the other users.
pub open spec fn after_reuse_check(rows: Seq<Row>, user_id: u64, token: Seq<char>) -> Seq<Row> {
    if token_live(rows, token) {
        rows
    } else {
        without_user(rows, user_id)
    }
}

/// No two rows hold the same token: a live token identifies one session.
pub open spec fn tokens_unique(rows: Seq<Row>) -> bool {
    forall|i: int, j: int|
        0 <= i < rows.len() && 0 <= j < rows.len() && i != j ==> (#[trigger] rows[i]).1 != (#[trigger] rows[j]).1
}

proof fn lemma_filter_not_live(rows: Seq<Row>, p: spec_fn(Row) -> bool, token: Seq<char>)
    requires
        !token_live(rows, token),
    ensures
        !token_live(rows.filter(p), token),
{
    let f = rows.filter(p);
    if token_live(f, token) {
        let i = choose|i: int| 0 <= i < f.len() && (#[trigger] f[i]).1 == token;
        assert(f.contains(f[i]));
        rows.lemma_filter_contains_rev(p, f[i]);
        let k = choose|k: int| 0 <= k < rows.len() && rows[k] == f[i];
        assert(rows[k].1 == token);
    }
}

/// Removing rows keeps tokens unique.
pub proof fn lemma_filter_tokens_unique(rows: Seq<Row>, p: spec_fn(Row) -> bool)
    requires
        tokens_unique(rows),
    ensures
        tokens_unique(rows.filter(p)),
    decreases rows.len(),
{
    reveal(Seq::filter);
    if rows.len() > 0 {
        let d = rows.drop_last();
        assert(tokens_unique(d)) by {
            assert forall|i: int, j: int| 0 <= i < d.len() && 0 <= j < d.len() && i != j implies (#[trigger] d[i]).1 != (#[trigger] d[j]).1 by {
                assert(d[i] == rows[i] && d[j] == rows[j]);
            }
        }
        lemma_filter_tokens_unique(d, p);
        if p(rows.last()) {
            assert(!token_live(d, rows.last().1)) by {
                if token_live(d, rows.last().1) {
                    let k = choose|k: int| 0 <= k < d.len() && (#[trigger] d[k]).1 == rows.last().1;
                    assert(rows[k].1 == rows[rows.len() - 1].1);
                }
            }
            lemma_filter_not_live(d, p, rows.last().1);
            let fd = d.filter(p);
            let f = fd.push(rows.last());
            assert forall|i: int, j: int| 0 <= i < f.len() && 0 <= j < f.len() && i != j implies (#[trigger] f[i]).1 != (#[trigger] f[j]).1 by {
                if i == f.len() - 1 {
                    assert(fd[j].1 != rows.last().1);
                } else if j == f.len() - 1 {
                    assert(fd[i].1 != rows.last().1);
                } else {
                    assert(fd[i] == f[i] && fd[j] == f[j]);
                }
            }
        }
    }
}

/// The registry after revocation on reuse still has unique tokens, and a token
/// that was not live is still not live.
pub proof fn lemma_reuse_check_keeps_unique(rows: Seq<Row>, user_id: u64, cookie: Seq<char>, fresh: Seq<char>)
    requires
        tokens_unique(rows),
        !token_live(rows, fresh),
    ensures
        tokens_unique(after_reuse_check(rows, user_id, cookie)),
        !token_live(after_reuse_check(rows, user_id, cookie), fresh),
{
    lemma_filter_tokens_unique(rows, not_owned_by(user_id));
    lemma_filter_not_live(rows, not_owned_by(user_id), fresh);
}

/// Adding a row with a token that is not live keeps tokens unique.
pub proof fn lemma_push_keeps_unique(rows: Seq<Row>, row: Row)
    requires
        tokens_unique(rows),
        !token_live(rows, row.1),
    ensures
        tokens_unique(rows.push(row)),
{
    let f = rows.push(row);
    assert forall|i: int, j: int| 0 <= i < f.len() && 0 <= j < f.len() && i != j implies (#[trigger] f[i]).1 != (#[trigger] f[j]).1 by {
        if i == rows.len() {
            assert(rows[j].1 != row.1);
        } else if j == rows.len() {
            assert(rows[i].1 != row.1);
        } else {
            assert(f[i] == rows[i] && f[j] == rows[j]);
        }
    }
}

/// Rotating to a token that is not live keeps tokens unique.
pub proof fn lemma_rotate_keeps_unique(rows: Seq<Row>, user_id: u64, old_token: Seq<char>, new_token: Seq<char>, now: u64)
    requires
        tokens_unique(rows),
        !token_live(rows, new_token),
    ensures
        tokens_unique(rotated(rows, user_id, old_token, new_token, now)),
{
    let f = rotated(rows, user_id, old_token, new_token, now);
    assert forall|i: int, j: int| 0 <= i < f.len() && 0 <= j < f.len() && i != j implies (#[trigger] f[i]).1 != (#[trigger] f[j]).1 by {
        assert(rows[i].1 != new_token);
        assert(rows[j].1 != new_token);
        assert(rows[i].1 != rows[j].1);
    }
}

/// Removing one session keeps tokens unique.
pub proof fn lemma_remove_keeps_unique(rows: Seq<Row>, user_id: u64, token: Seq<char>)
    requires
        tokens_unique(rows),
    ensures
        tokens_unique(without_row(rows, user_id, token)),
        tokens_unique(without_user(rows, user_id)),
{
    lemma_filter_tokens_unique(rows, not_session(user_id, token));
    lemma_filter_tokens_unique(rows, not_owned_by(user_id));
}

proof fn lemma_filter_take_step<A>(s: Seq<A>, p: spec_fn(A) -> bool, i: int)
    requires
        0 <= i < s.len(),
    ensures
        s.take(i + 1).filter(p) == (if p(s[i]) {
            s.take(i).filter(p).push(s[i])
        } else {
            s.take(i).filter(p)
        }),
{
    reveal(Seq::filter);
    assert(s.take(i + 1).drop_last() =~= s.take(i));
    assert(s.take(i + 1).last() == s[i]);
}

proof fn lemma_rows_push(v: Seq<Session>, s: Session)
    ensures
        rows_of(v.push(s)) == rows_of(v).push(row_of(s)),
{
    assert(rows_of(v.push(s)) =~= rows_of(v).push(row_of(s)));
}

/// All outstanding sessions, in insertion order.
pub struct SessionRegistry {
    sessions: Vec<Session>,
}

impl SessionRegistry {
    /// The registry's rows.
    pub closed spec fn rows(&self) -> Seq<Row> {
        rows_of(self.sessions@)
    }

    pub fn new() -> (r: SessionRegistry)
        ensures
            r.rows() == Seq::<Row>::empty(),
    {
        let r = SessionRegistry { sessions: Vec::new() };
        assert(r.rows() =~= Seq::<Row>::empty());
        r
    }

    pub fn len(&self) -> (n: usize)
        ensures
            n == self.rows().len(),
    {
        self.sessions.len()
    }

    /// Whether some row of any user holds `token`.
    pub fn holds_token(&self, token: &str) -> (r: bool)
        ensures
            r == token_live(self.rows(), token@),
    {
        let t = token.to_owned();
        let mut i: usize = 0;
        while i < self.sessions.len()
            invariant
                i <= self.sessions@.len(),
                t@ == token@,
                forall|j: int| 0 <= j < i ==> (#[trigger] self.rows()[j]).1 != token@,
            decreases self.sessions.len() - i,
        {
            if self.sessions[i].token == t {
                assert(self.rows()[i as int].1 == token@);
                return true;
            }
            i = i + 1;
        }
        false
    }

    /// Whether the row `(user_id, token)` exists.
    pub fn has_session(&self, user_id: u64, token: &str) -> (r: bool)
        ensures
            r == has_row(self.rows(), user_id, token@),
    {
        let t = token.to_owned();
        let mut i: usize = 0;
        while i < self.sessions.len()
            invariant
                i <= self.sessions@.len(),
                t@ == token@,
                forall|j: int| 0 <= j < i ==> !((#[trigger] self.rows()[j]).0 == user_id && self.rows()[j].1 == token@),
            decreases self.sessions.len() - i,
        {
            if self.sessions[i].user_id == user_id && self.sessions[i].token == t {
                assert(self.rows()[i as int].0 == user_id && self.rows()[i as int].1 == token@);
                return true;
            }
            i = i + 1;
        }
        false
    }

    /// When the session of `user_id` holding `token` was created or last
    /// rotated; `None` when there is no such session.
    pub fn session_time(&self, user_id: u64, token: &str) -> (r: Option<u64>)
        ensures
            r is None <==> !has_row(self.rows(), user_id, token@),
            r matches Some(t) ==> self.rows().contains((user_id, token@, t)),
    {
        let tk = token.to_owned();
        let mut i: usize = 0;
        while i < self.sessions.len()
            invariant
                i <= self.sessions@.len(),
                tk@ == token@,
                forall|j: int| 0 <= j < i ==> !((#[trigger] self.rows()[j]).0 == user_id && self.rows()[j].1 == token@),
            decreases self.sessions.len() - i,
        {
            if self.sessions[i].user_id == user_id && self.sessions[i].token == tk {
                assert(self.rows()[i as int] == (user_id, token@, self.sessions[i as int].created_at));
                return Some(self.sessions[i].created_at);
            }
            i = i + 1;
        }
        None
    }

    /// Adds a session of `user_id` holding `token`, created at `now`.
    pub fn create_session(&mut self, user_id: u64, token: &str, now: u64)
        ensures
            final(self).rows() == old(self).rows().push((user_id, token@, now)),
    {
        let s = Session { user_id, token: token.to_owned(), created_at: now };
        proof {
            lemma_rows_push(self.sessions@, s);
        }
        self.sessions.push(s);
    }

    /// Removes every row of `user_id`; returns how many went.
    pub fn delete_user_sessions(&mut self, user_id: u64) -> (n: usize)
        ensures
            final(self).rows() == without_user(old(self).rows(), user_id),
            n == old(self).rows().len() - final(self).rows().len(),
    {
        let ghost rows = self.rows();
        let ghost p = not_owned_by(user_id);
        let mut kept: Vec<Session> = Vec::new();
        let mut i: usize = 0;
        while i < self.sessions.len()
            invariant
                i <= self.sessions@.len(),
                rows == self.rows(),
                p == not_owned_by(user_id),
                rows_of(kept@) == rows.take(i as int).filter(p),
            decreases self.sessions.len() - i,
        {
            proof {
                lemma_filter_take_step(rows, p, i as int);
            }
            if self.sessions[i].user_id != user_id {
                let s = Session {
                    user_id: self.sessions[i].user_id,
                    token: self.sessions[i].token.clone(),
                    created_at: self.sessions[i].created_at,
                };
                proof {
                    lemma_rows_push(kept@, s);
                }
                kept.push(s);
            }
            i = i + 1;
        }
        assert(rows.take(rows.len() as int) =~= rows);
        proof {
            rows.lemma_filter_len(p);
        }
        let n = self.sessions.len() - kept.len();
        self.sessions = kept;
        n
    }

    /// Revocation on reuse: when no row of any user holds `token`, removes every
    /// row of `user_id`; otherwise leaves the registry as it is. Returns how many
    /// rows went.
    pub fn delete_all_user_sessions_on_reuse(&mut self, user_id: u64, token: &str) -> (n: usize)
        ensures
            final(self).rows() == after_reuse_check(old(self).rows(), user_id, token@),
            n == old(self).rows().len() - final(self).rows().len(),
    {
        if self.holds_token(token) {
            0
        } else {
            self.delete_user_sessions(user_id)
        }
    }

    /// Removes the session of `user_id` holding `token` if there is one; returns
    /// how many rows went.
    pub fn delete_session(&mut self, user_id: u64, token: &str) -> (n: usize)
        ensures
            final(self).rows() == without_row(old(self).rows(), user_id, token@),
            n == old(self).rows().len() - final(self).rows().len(),
    {
        let ghost rows = self.rows();
        let ghost p = not_session(user_id, token@);
        let t = token.to_owned();
        let mut kept: Vec<Session> = Vec::new();
        let mut i: usize = 0;
        while i < self.sessions.len()
            invariant
                i <= self.sessions@.len(),
                rows == self.rows(),
                t@ == token@,
                p == not_session(user_id, token@),
                rows_of(kept@) == rows.take(i as int).filter(p),
            decreases self.sessions.len() - i,
        {
            proof {
                lemma_filter_take_step(rows, p, i as int);
            }
            if !(self.sessions[i].user_id == user_id && self.sessions[i].token == t) {
                let s = Session {
                    user_id: self.sessions[i].user_id,
                    token: self.sessions[i].token.clone(),
                    created_at: self.sessions[i].created_at,
                };
                proof {
                    lemma_rows_push(kept@, s);
                }
                kept.push(s);
            }
            i = i + 1;
        }
        assert(rows.take(rows.len() as int) =~= rows);
        proof {
            rows.lemma_filter_len(p);
        }
        let n = self.sessions.len() - kept.len();
        self.sessions = kept;
        n
    }

    /// Rotates each session of `user_id` holding `old_token`: it gets
    /// `new_token` and the time `now`. Returns how many rows changed.
    pub fn update_session(&mut self, user_id: u64, old_token: &str, new_token: &str, now: u64) -> (n: usize)
        ensures
            final(self).rows() == rotated(old(self).rows(), user_id, old_token@, new_token@, now),
            n == old(self).rows().filter(is_session(user_id, old_token@)).len(),
    {
        let ghost rows = self.rows();
        let ghost q = is_session(user_id, old_token@);
        let ghost f = rotate_row(user_id, old_token@, new_token@, now);
        let t = old_token.to_owned();
        let mut updated: Vec<Session> = Vec::new();
        let mut n: usize = 0;
        let mut i: usize = 0;
        while i < self.sessions.len()
            invariant
                i <= self.sessions@.len(),
                rows == self.rows(),
                t@ == old_token@,
                q == is_session(user_id, old_token@),
                f == rotate_row(user_id, old_token@, new_token@, now),
                rows_of(updated@) == rows.take(i as int).map_values(f),
                n == rows.take(i as int).filter(q).len(),
                n <= i,
            decreases self.sessions.len() - i,
        {
            proof {
                lemma_filter_take_step(rows, q, i as int);
            }
            let hit = self.sessions[i].user_id == user_id && self.sessions[i].token == t;
            let s = if hit {
                Session { user_id, token: new_token.to_owned(), created_at: now }
            } else {
                Session {
                    user_id: self.sessions[i].user_id,
                    token: self.sessions[i].token.clone(),
                    created_at: self.sessions[i].created_at,
                }
            };
            proof {
                lemma_rows_push(updated@, s);
                assert(rows.take(i + 1).map_values(f) =~= rows.take(i as int).map_values(f).push(f(rows[i as int])));
            }
            updated.push(s);
            if hit {
                n = n + 1;
            }
            i = i + 1;
        }
        assert(rows.take(rows.len() as int) =~= rows);
        self.sessions = updated;
        n
    }
}

} // verus!
