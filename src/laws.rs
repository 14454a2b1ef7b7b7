//! Laws of the session lifecycle, proved over the transition functions that
//! the operations' contracts are stated in.
use crate::auth::{AuthError, AuthenticatedUser, SignIn, SignUp, User};
use crate::credentials::username_taken;
use crate::lifecycle::{
    claims_at, decodes_as, fresh_for, fresh_pair, lemma_minted_token_is_fresh, outcome_of, refresh_post, refresh_result, signed_up, signin_post, signin_rows,
    signup_post, AuthService, TokenPair,
};
use crate::password::argon2_matches;
use crate::sessions::{
    has_row, not_owned_by, not_session, rotate_row, rotated, token_live, without_row, without_user, Row,
};
use crate::tokens::{hs256_claims, owner, unexpired, ClaimsView};
use crate::Validate;
use vstd::prelude::*;

verus! {

broadcast use vstd::seq_lib::group_filter_ensures;

/// Once an account is stored under a username, the username is taken, so a
/// second sign-up under it fails with `Conflict`.
pub proof fn lemma_second_signup_conflicts(before: Seq<User>, after: Seq<User>, name: Seq<char>)
    requires
        signed_up(before, after, name),
    ensures
        username_taken(after, name),
{
    assert(after[after.len() - 1].username@ == name);
}

/// Sign-in with a wrong password and sign-in with an unknown username end
/// alike: `Unauthorized`, with nothing changed.
pub proof fn lemma_signin_failures_look_alike(
    old: AuthService,
    new: AuthService,
    body: SignIn,
    cookie: Option<Seq<char>>,
    now: u64,
    r: Result<TokenPair, AuthError>,
)
    requires
        signin_post(old, new, body, cookie, now, r),
        body.valid(),
        !username_taken(old.users.users(), body.username@) || exists|i: int|
            0 <= i < old.users.users().len() && (#[trigger] old.users.users()[i]).username@ == body.username@
                && !argon2_matches(old.config.argon_secret@, body.password@, old.users.users()[i].password@),
    ensures
        r == Err::<TokenPair, AuthError>(AuthError::Unauthorized),
        new.same_state(&old),
{
    if username_taken(old.users.users(), body.username@) {
        let i = choose|i: int|
            0 <= i < old.users.users().len() && (#[trigger] old.users.users()[i]).username@ == body.username@
                && !argon2_matches(old.config.argon_secret@, body.password@, old.users.users()[i].password@);
        assert(old.users.users()[i].username@ == body.username@);
    }
}

proof fn lemma_no_row_of(rows: Seq<Row>, user_id: u64, token: Seq<char>)
    ensures
        !has_row(without_user(rows, user_id), user_id, token),
{
    let w = without_user(rows, user_id);
    if has_row(w, user_id, token) {
        let i = choose|i: int| 0 <= i < w.len() && (#[trigger] w[i]).0 == user_id && w[i].1 == token;
        assert(not_owned_by(user_id)(w[i]));
    }
}

/// A refresh token is redeemed at most once: the first refresh with a live,
/// current token succeeds and rotates it; presenting the same token again
/// fails with `Unauthorized` and revokes every session of its owner.
pub proof fn lemma_refresh_token_single_use(
    rows: Seq<Row>,
    token: Seq<char>,
    c: ClaimsView,
    now: u64,
    later: u64,
    fresh: Option<(Seq<char>, Seq<char>)>,
    fresh_later: Option<(Seq<char>, Seq<char>)>,
)
    requires
        unexpired(c.1, now),
        unexpired(c.1, later),
        has_row(rows, owner(c), token),
        fresh is Some,
        !token_live(rows, (fresh->0).1),
    ensures
        refresh_result(rows, token, Some(c), now, fresh) == (
            Ok::<(Seq<char>, Seq<char>), AuthError>(fresh->0),
            rotated(rows, owner(c), token, (fresh->0).1, now),
        ),
        has_row(rotated(rows, owner(c), token, (fresh->0).1, now), owner(c), (fresh->0).1),
        refresh_result(rotated(rows, owner(c), token, (fresh->0).1, now), token, Some(c), later, fresh_later) == (
            Err::<(Seq<char>, Seq<char>), AuthError>(AuthError::Unauthorized),
            without_user(rotated(rows, owner(c), token, (fresh->0).1, now), owner(c)),
        ),
        forall|t: Seq<char>|
            !(#[trigger] has_row(without_user(rotated(rows, owner(c), token, (fresh->0).1, now), owner(c)), owner(c), t)),
{
    let uid = owner(c);
    let t = (fresh->0).1;
    let r1 = rotated(rows, uid, token, t, now);
    let i = choose|i: int| 0 <= i < rows.len() && (#[trigger] rows[i]).0 == uid && rows[i].1 == token;
    assert(rows[i].1 == token);
    assert(token != t);
    assert(r1[i] == (uid, t, now));
    if has_row(r1, uid, token) {
        let j = choose|j: int| 0 <= j < r1.len() && (#[trigger] r1[j]).0 == uid && r1[j].1 == token;
        assert(r1[j] == rotate_row(uid, token, t, now)(rows[j]));
    }
    assert forall|tk: Seq<char>| !(#[trigger] has_row(without_user(r1, uid), uid, tk)) by {
        lemma_no_row_of(r1, uid, tk);
    }
}

/// Revocation is per user: after a replayed token of one user revokes that
/// user's sessions, a live, current refresh token of another user still
/// redeems.
pub proof fn lemma_revocation_spares_other_users(
    rows: Seq<Row>,
    replayed: Seq<char>,
    ca: ClaimsView,
    other: Seq<char>,
    cb: ClaimsView,
    now: u64,
    fresh_a: Option<(Seq<char>, Seq<char>)>,
    fresh_b: Option<(Seq<char>, Seq<char>)>,
)
    requires
        owner(ca) != owner(cb),
        unexpired(ca.1, now),
        !has_row(rows, owner(ca), replayed),
        unexpired(cb.1, now),
        has_row(rows, owner(cb), other),
        fresh_b is Some,
    ensures
        refresh_result(rows, replayed, Some(ca), now, fresh_a) == (
            Err::<(Seq<char>, Seq<char>), AuthError>(AuthError::Unauthorized),
            without_user(rows, owner(ca)),
        ),
        refresh_result(without_user(rows, owner(ca)), other, Some(cb), now, fresh_b).0 == Ok::<(Seq<char>, Seq<char>), AuthError>(fresh_b->0),
{
    let w = without_user(rows, owner(ca));
    let i = choose|i: int| 0 <= i < rows.len() && (#[trigger] rows[i]).0 == owner(cb) && rows[i].1 == other;
    assert(not_owned_by(owner(ca))(rows[i]));
    assert(w.contains(rows[i]));
    let k = choose|k: int| 0 <= k < w.len() && w[k] == rows[i];
    assert(w[k].0 == owner(cb) && w[k].1 == other);
}

proof fn lemma_filter_keeps_all(rows: Seq<Row>, p: spec_fn(Row) -> bool)
    requires
        forall|i: int| 0 <= i < rows.len() ==> p(#[trigger] rows[i]),
    ensures
        rows.filter(p) == rows,
    decreases rows.len(),
{
    reveal(Seq::filter);
    if rows.len() > 0 {
        let d = rows.drop_last();
        assert forall|i: int| 0 <= i < d.len() implies p(#[trigger] d[i]) by {
            assert(d[i] == rows[i]);
        }
        lemma_filter_keeps_all(d, p);
        assert(p(rows[rows.len() - 1]));
        assert(d.push(rows.last()) =~= rows);
    }
}

/// Logout ends exactly the one session: refreshing with its token afterwards
/// fails with `Unauthorized`; logging out of a session that is not there
/// changes nothing.
pub proof fn lemma_logout_ends_session(
    rows: Seq<Row>,
    token: Seq<char>,
    c: ClaimsView,
    now: u64,
    fresh: Option<(Seq<char>, Seq<char>)>,
)
    ensures
        refresh_result(without_row(rows, owner(c), token), token, Some(c), now, fresh).0 == Err::<(Seq<char>, Seq<char>), AuthError>(
            AuthError::Unauthorized,
        ),
        !has_row(rows, owner(c), token) ==> without_row(rows, owner(c), token) == rows,
{
    let uid = owner(c);
    let w = without_row(rows, uid, token);
    let p = not_session(uid, token);
    if has_row(w, uid, token) {
        let i = choose|i: int| 0 <= i < w.len() && (#[trigger] w[i]).0 == uid && w[i].1 == token;
        assert(p(w[i]));
    }
    if !has_row(rows, uid, token) {
        assert forall|i: int| 0 <= i < rows.len() implies p(#[trigger] rows[i]) by {
            if rows[i].0 == uid && rows[i].1 == token {
                assert(has_row(rows, uid, token));
            }
        }
        lemma_filter_keeps_all(rows, p);
    }
}

/// Sign-in after sign-up: once sign-up has stored an account, sign-in with the
/// same username and password succeeds while serial numbers last. Both tokens
/// read back as claims over the identity that sign-up returned, and the new
/// session holds the refresh token.
pub proof fn lemma_signin_after_signup(
    s0: AuthService,
    s1: AuthService,
    up: SignUp,
    a: AuthenticatedUser,
    s2: AuthService,
    body: SignIn,
    cookie: Option<Seq<char>>,
    now: u64,
    r: Result<TokenPair, AuthError>,
)
    requires
        signup_post(s0, s1, up, Ok(a)),
        signin_post(s1, s2, body, cookie, now, r),
        body.username@ == up.username@,
        body.password@ == up.password@,
        s1.next_token_id < u64::MAX,
    ensures
        r is Ok,
        outcome_of(r) == Ok::<(Seq<char>, Seq<char>), AuthError>(fresh_pair(s1.config, s1.next_token_id, a.identity(), now)->0),
        r matches Ok(p) ==> {
            &&& decodes_as((p.access_token.token@, p.refresh_token@), s1.config, a.identity(), now, s1.next_token_id)
            &&& s2.sessions.rows() == signin_rows(s1.sessions.rows(), a.id, cookie, p.refresh_token@, now)
            &&& has_row(s2.sessions.rows(), a.id, p.refresh_token@)
        },
{
    let users = s1.users.users();
    let i = users.len() - 1;
    assert(users[i].username@ == body.username@);
    assert(users[i].identity() == a.identity());
    let rows2 = s2.sessions.rows();
    let n = rows2.len() - 1;
    if r is Ok {
        assert(rows2[n].0 == a.id && rows2[n].1 == r->Ok_0.refresh_token@);
    }
}

/// Rotation through the refresh operation: while serial numbers last, a live,
/// current refresh token redeems once. Its row then holds a new, different
/// token and the time of the refresh, and both new tokens read back as claims
/// over the presented token's identity. Presenting the old token again fails
/// with `Unauthorized` and leaves its owner with no session.
pub proof fn lemma_refresh_rotates_once(
    s0: AuthService,
    s1: AuthService,
    s2: AuthService,
    token: Seq<char>,
    c: ClaimsView,
    now: u64,
    later: u64,
    r1: Result<TokenPair, AuthError>,
    r2: Result<TokenPair, AuthError>,
)
    requires
        s0.wf(),
        refresh_post(s0, s1, token, now, r1),
        refresh_post(s1, s2, token, later, r2),
        hs256_claims(token, s0.config.refresh_token_secret@) == Some(c),
        unexpired(c.1, now),
        unexpired(c.1, later),
        has_row(s0.sessions.rows(), owner(c), token),
        s0.next_token_id < u64::MAX,
    ensures
        r1 is Ok,
        r1 matches Ok(p) ==> {
            &&& p.refresh_token@ != token
            &&& decodes_as((p.access_token.token@, p.refresh_token@), s0.config, c.0, now, s0.next_token_id)
            &&& s1.sessions.rows() == rotated(s0.sessions.rows(), owner(c), token, p.refresh_token@, now)
            &&& has_row(s1.sessions.rows(), owner(c), p.refresh_token@)
        },
        r2 == Err::<TokenPair, AuthError>(AuthError::Unauthorized),
        s2.sessions.rows() == without_user(s1.sessions.rows(), owner(c)),
        forall|t: Seq<char>| !(#[trigger] has_row(s2.sessions.rows(), owner(c), t)),
{
    let fresh = fresh_for(s0.config, s0.next_token_id, Some(c), now);
    let secret = s0.config.refresh_token_secret@;
    assert(outcome_of(r1) == Ok::<(Seq<char>, Seq<char>), AuthError>(fresh->0));
    let p = r1->Ok_0;
    let c_new = claims_at(c.0, now, s0.config.refresh_token_ttl_sec, s0.next_token_id);
    assert(hs256_claims(p.refresh_token@, secret) == Some(c_new));
    lemma_minted_token_is_fresh(s0.sessions.rows(), secret, s0.next_token_id, p.refresh_token@, c_new);
    lemma_refresh_token_single_use(
        s0.sessions.rows(),
        token,
        c,
        now,
        later,
        fresh,
        fresh_for(s1.config, s1.next_token_id, Some(c), later),
    );
}

/// Per-user isolation through the refresh operation: a replayed token of one
/// user revokes that user's sessions, and then a live, current refresh token
/// of another user still redeems, while serial numbers last.
pub proof fn lemma_revocation_spares_other_users_in_service(
    s0: AuthService,
    s1: AuthService,
    s2: AuthService,
    replayed: Seq<char>,
    ca: ClaimsView,
    other: Seq<char>,
    cb: ClaimsView,
    now: u64,
    r1: Result<TokenPair, AuthError>,
    r2: Result<TokenPair, AuthError>,
)
    requires
        refresh_post(s0, s1, replayed, now, r1),
        refresh_post(s1, s2, other, now, r2),
        hs256_claims(replayed, s0.config.refresh_token_secret@) == Some(ca),
        hs256_claims(other, s0.config.refresh_token_secret@) == Some(cb),
        owner(ca) != owner(cb),
        unexpired(ca.1, now),
        unexpired(cb.1, now),
        !has_row(s0.sessions.rows(), owner(ca), replayed),
        has_row(s0.sessions.rows(), owner(cb), other),
        s0.next_token_id < u64::MAX,
    ensures
        r1 == Err::<TokenPair, AuthError>(AuthError::Unauthorized),
        s1.sessions.rows() == without_user(s0.sessions.rows(), owner(ca)),
        r2 is Ok,
        outcome_of(r2) == Ok::<(Seq<char>, Seq<char>), AuthError>(fresh_pair(s0.config, s0.next_token_id, cb.0, now)->0),
{
    lemma_revocation_spares_other_users(
        s0.sessions.rows(),
        replayed,
        ca,
        other,
        cb,
        now,
        fresh_for(s0.config, s0.next_token_id, Some(ca), now),
        fresh_for(s0.config, s0.next_token_id, Some(cb), now),
    );
}

} // verus!
