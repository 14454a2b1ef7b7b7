//! The session lifecycle controller: sign-up, sign-in, refresh-token rotation
//! with reuse detection, and logout.
use crate::auth::{AccessToken, AuthError, AuthenticatedUser, Identity, SignIn, SignUp, User};
use crate::credentials::{username_taken, StoreError, UserStore};
use crate::keys::{compute_random_32_bytes_key, hex_encoding, KEY_LEN};
use crate::password::{argon2_matches, hash_password, verify_password};
use crate::sessions::{
    after_reuse_check, lemma_push_keeps_unique, lemma_remove_keeps_unique, lemma_reuse_check_keeps_unique,
    lemma_rotate_keeps_unique, has_row, not_owned_by, not_session, rotated, token_live, tokens_unique, without_row, without_user, Row, SessionRegistry,
};
use crate::tokens::{decode_claims, encode_claims, expiry, expiry_of, hs256_claims, hs256_token, owner, unexpired, ClaimsView, TokenClaims};
use crate::Validate;
use vstd::prelude::*;

verus! {

/// Process-wide secrets and lifetimes, fixed at startup.
pub struct Config {
    pub access_token_secret: String,
    pub refresh_token_secret: String,
    pub access_token_ttl_sec: u64,
    pub refresh_token_ttl_sec: u64,
    /// The pepper: a secret that keys password hashing and is never stored.
    pub argon_secret: String,
}

/// A fresh access token, for the response body, and a fresh refresh token, for
/// the session cookie.
pub struct TokenPair {
    pub access_token: AccessToken,
    pub refresh_token: String,
}

/// An outcome as a mathematical value: the two tokens, or the failure.
pub type Outcome = Result<(Seq<char>, Seq<char>), AuthError>;

pub open spec fn outcome_of(r: Result<TokenPair, AuthError>) -> Outcome {
    match r {
        Ok(p) => Ok((p.access_token.token@, p.refresh_token@)),
        Err(e) => Err(e),
    }
}

pub open spec fn opt_view(s: Option<&str>) -> Option<Seq<char>> {
    match s {
        Some(t) => Some(t@),
        None => None,
    }
}

/// The claims of a token minted for `identity` at `now`, living `ttl` seconds.
pub open spec fn claims_at(identity: Identity, now: u64, ttl: u64, jti: u64) -> ClaimsView {
    (identity, expiry(now, ttl), jti, now)
}

/// The access and refresh tokens minted for `identity` at `now` with serial
/// number `jti`; `None` when the serial numbers are used up.
pub open spec fn fresh_pair(cfg: Config, jti: u64, identity: Identity, now: u64) -> Option<(Seq<char>, Seq<char>)> {
    if jti == u64::MAX {
        None
    } else {
        Some(
            (
                hs256_token(claims_at(identity, now, cfg.access_token_ttl_sec, jti), cfg.access_token_secret@),
                hs256_token(claims_at(identity, now, cfg.refresh_token_ttl_sec, jti), cfg.refresh_token_secret@),
            ),
        )
    }
}

/// The tokens `pair` read back as the claims minted for `identity` at `now`
/// with serial number `jti`, each under its own secret.
pub open spec fn decodes_as(pair: (Seq<char>, Seq<char>), cfg: Config, identity: Identity, now: u64, jti: u64) -> bool {
    &&& hs256_claims(pair.0, cfg.access_token_secret@) == Some(claims_at(identity, now, cfg.access_token_ttl_sec, jti))
    &&& hs256_claims(pair.1, cfg.refresh_token_secret@) == Some(claims_at(identity, now, cfg.refresh_token_ttl_sec, jti))
}

/// `token` reads back under `secret` as claims with a serial number below `next`.
pub open spec fn minted_before(token: Seq<char>, secret: Seq<char>, next: u64) -> bool {
    match hs256_claims(token, secret) {
        Some(c) => c.2 < next,
        None => false,
    }
}

/// Every live refresh token was minted with a serial number below `next`.
pub open spec fn all_minted_before(rows: Seq<Row>, secret: Seq<char>, next: u64) -> bool {
    forall|i: int| 0 <= i < rows.len() ==> minted_before((#[trigger] rows[i]).1, secret, next)
}

/// A token minted with serial number `next` is held by no row.
pub proof fn lemma_minted_token_is_fresh(rows: Seq<Row>, secret: Seq<char>, next: u64, token: Seq<char>, c: ClaimsView)
    requires
        all_minted_before(rows, secret, next),
        hs256_claims(token, secret) == Some(c),
        c.2 == next,
    ensures
        !token_live(rows, token),
{
    if token_live(rows, token) {
        let i = choose|i: int| 0 <= i < rows.len() && (#[trigger] rows[i]).1 == token;
        assert(minted_before(rows[i].1, secret, next));
    }
}

/// Adding a row whose token was minted with serial number `next` keeps every
/// token minted before `next + 1`.
pub proof fn lemma_push_minted(rows: Seq<Row>, secret: Seq<char>, next: u64, row: Row, c: ClaimsView)
    requires
        all_minted_before(rows, secret, next),
        hs256_claims(row.1, secret) == Some(c),
        c.2 == next,
        next < u64::MAX,
    ensures
        all_minted_before(rows.push(row), secret, (next + 1) as u64),
{
    let f = rows.push(row);
    assert forall|i: int| 0 <= i < f.len() implies minted_before((#[trigger] f[i]).1, secret, (next + 1) as u64) by {
        if i < rows.len() {
            assert(f[i] == rows[i]);
            assert(minted_before(rows[i].1, secret, next));
        }
    }
}

/// Rotating to a token minted with serial number `next` keeps every token
/// minted before `next + 1`.
pub proof fn lemma_rotate_minted(
    rows: Seq<Row>,
    user_id: u64,
    old_token: Seq<char>,
    new_token: Seq<char>,
    now: u64,
    secret: Seq<char>,
    next: u64,
    c: ClaimsView,
)
    requires
        all_minted_before(rows, secret, next),
        hs256_claims(new_token, secret) == Some(c),
        c.2 == next,
        next < u64::MAX,
    ensures
        all_minted_before(rotated(rows, user_id, old_token, new_token, now), secret, (next + 1) as u64),
{
    let f = rotated(rows, user_id, old_token, new_token, now);
    assert forall|i: int| 0 <= i < f.len() implies minted_before((#[trigger] f[i]).1, secret, (next + 1) as u64) by {
        assert(minted_before(rows[i].1, secret, next));
    }
}

/// Removing rows keeps every token minted before `next`.
pub proof fn lemma_filter_minted_before(rows: Seq<Row>, p: spec_fn(Row) -> bool, secret: Seq<char>, next: u64)
    requires
        all_minted_before(rows, secret, next),
    ensures
        all_minted_before(rows.filter(p), secret, next),
{
    let f = rows.filter(p);
    assert forall|i: int| 0 <= i < f.len() implies minted_before((#[trigger] f[i]).1, secret, next) by {
        assert(f.contains(f[i]));
        rows.lemma_filter_contains_rev(p, f[i]);
        let k = choose|k: int| 0 <= k < rows.len() && rows[k] == f[i];
        assert(minted_before(rows[k].1, secret, next));
    }
}

/// The registry after a successful sign-in of `user_id` at `now`: the reuse
/// check on the presented cookie, then the new session.
pub open spec fn signin_rows(rows: Seq<Row>, user_id: u64, cookie: Option<Seq<char>>, refresh: Seq<char>, now: u64) -> Seq<Row> {
    let kept = match cookie {
        Some(c) => after_reuse_check(rows, user_id, c),
        None => rows,
    };
    kept.push((user_id, refresh, now))
}

/// Sign-in of the account `u` with password `password`, once the shape checks
/// passed: outcome and registry.
pub open spec fn signin_result(
    rows: Seq<Row>,
    u: User,
    password: Seq<char>,
    pepper: Seq<char>,
    cookie: Option<Seq<char>>,
    now: u64,
    fresh: Option<(Seq<char>, Seq<char>)>,
) -> (Outcome, Seq<Row>) {
    if !argon2_matches(pepper, password, u.password@) {
        (Err(AuthError::Unauthorized), rows)
    } else {
        signin_completion(rows, u, cookie, now, fresh)
    }
}

/// Sign-in of the account `u` once its password checked: outcome and registry.
pub open spec fn signin_completion(
    rows: Seq<Row>,
    u: User,
    cookie: Option<Seq<char>>,
    now: u64,
    fresh: Option<(Seq<char>, Seq<char>)>,
) -> (Outcome, Seq<Row>) {
    match fresh {
        None => (Err(AuthError::Internal), rows),
        Some(p) => (Ok(p), signin_rows(rows, u.id, cookie, p.1, now)),
    }
}

/// What completing the sign-in of the account `u` at `now` does to the service
/// `old`, giving `new` and `r`.
pub open spec fn completion_post(
    old: AuthService,
    new: AuthService,
    u: User,
    cookie: Option<Seq<char>>,
    now: u64,
    r: Result<TokenPair, AuthError>,
) -> bool {
    &&& new.wf()
    &&& new.config == old.config
    &&& new.users.users() == old.users.users()
    &&& new.next_token_id == if r is Ok { (old.next_token_id + 1) as u64 } else { old.next_token_id }
    &&& signin_completion(old.sessions.rows(), u, cookie, now, fresh_pair(old.config, old.next_token_id, u.identity(), now))
        == (outcome_of(r), new.sessions.rows())
    &&& r matches Ok(p) ==> decodes_as((p.access_token.token@, p.refresh_token@), old.config, u.identity(), now, old.next_token_id)
}

/// The part of sign-up that needs no store: checks the shape of the request,
/// hashes the password under the pepper, and draws the key-material salt.
/// Gives the hash and the salt, `InvalidInput` exactly for an ill-shaped
/// request, or `Internal` when hashing or the random generator fails.
pub fn hash_signup(config: &Config, body: &SignUp) -> (r: Result<(String, String), AuthError>)
    ensures
        r == Err::<(String, String), AuthError>(AuthError::InvalidInput) <==> !body.valid(),
        r matches Err(e) ==> e == AuthError::InvalidInput || e == AuthError::Internal,
        r matches Ok(p) ==> {
            &&& body.valid()
            &&& argon2_matches(config.argon_secret@, body.password@, p.0@)
            &&& exists|b: Seq<u8>| b.len() == KEY_LEN && p.1@ == hex_encoding(b)
        },
{
    if !body.validate() {
        return Err(AuthError::InvalidInput);
    }
    let password_hash = match hash_password(config.argon_secret.as_str(), body.password.as_str()) {
        Ok(h) => h,
        Err(_) => return Err(AuthError::Internal),
    };
    let key_salt = match compute_random_32_bytes_key() {
        Some(s) => s,
        None => return Err(AuthError::Internal),
    };
    Ok((password_hash, key_salt))
}

/// The password check of sign-in, which needs no store: whether `password`
/// matches the stored hash of `user` under the pepper. For an unknown user it
/// checks against `DUMMY_PASSWORD_HASH` and gives `false`, so that an unknown
/// username costs as much as a wrong password.
pub fn check_password(config: &Config, password: &str, user: Option<&User>) -> (r: bool)
    ensures
        r == match user {
            Some(u) => argon2_matches(config.argon_secret@, password@, u.password@),
            None => false,
        },
{
    match user {
        Some(u) => verify_password(config.argon_secret.as_str(), password, u.password.as_str()),
        None => {
            let _ = verify_password(config.argon_secret.as_str(), password, DUMMY_PASSWORD_HASH);
            false
        },
    }
}

/// Refresh at `now` with the presented `token`, whose verified claims are
/// `claims`: outcome and registry; a rotated row records `now`. A token that
/// no row of its owner holds is a reuse signal: every session of the owner is
/// revoked.
pub open spec fn refresh_result(
    rows: Seq<Row>,
    token: Seq<char>,
    claims: Option<ClaimsView>,
    now: u64,
    fresh: Option<(Seq<char>, Seq<char>)>,
) -> (Outcome, Seq<Row>) {
    match claims {
        None => (Err(AuthError::Unauthorized), rows),
        Some(c) => if !unexpired(c.1, now) {
            (Err(AuthError::Unauthorized), rows)
        } else if !has_row(rows, owner(c), token) {
            (Err(AuthError::Unauthorized), without_user(rows, owner(c)))
        } else {
            match fresh {
                None => (Err(AuthError::Internal), rows),
                Some(p) => (Ok(p), rotated(rows, owner(c), token, p.1, now)),
            }
        },
    }
}

/// The tokens that a refresh at `now` would mint for the holder of `claims`.
pub open spec fn fresh_for(cfg: Config, jti: u64, claims: Option<ClaimsView>, now: u64) -> Option<(Seq<char>, Seq<char>)> {
    match claims {
        Some(c) => fresh_pair(cfg, jti, c.0, now),
        None => None,
    }
}

/// A well-formed PHC string with the default cost parameters, which no password
/// matches; verified against on unknown usernames so that they cost as much as
/// a wrong password.
pub const DUMMY_PASSWORD_HASH: &'static str = "$argon2id$v=19$m=19456,t=2,p=1$c2FsdHNhbHRzYWx0c2FsdA$AAAAAAAAAAAAAAAAAAAAAAAAAAAAAAAAAAAAAAAAAAA";

/// Relies on `std::time::SystemTime::now`, chrono's `From<SystemTime>` for
/// `DateTime<Utc>` and `DateTime::timestamp`: the current time in whole seconds
/// since the Unix epoch, negative for a clock set before it.
#[verifier::external_body]
fn current_timestamp() -> (r: i64) {
    chrono::DateTime::<chrono::Utc>::from(std::time::SystemTime::now()).timestamp()
}

/// The clock as an unsigned count of seconds since the Unix epoch; a negative
/// reading counts as 0.
pub fn now_seconds() -> u64 {
    let t = current_timestamp();
    if t < 0 {
        0
    } else {
        t as u64
    }
}

/// The identity layer: configuration, accounts, sessions, and the serial
/// number of the next token pair.
pub struct AuthService {
    pub config: Config,
    pub users: UserStore,
    pub sessions: SessionRegistry,
    pub next_token_id: u64,
}

impl AuthService {
    pub open spec fn wf(&self) -> bool {
        &&& self.users.wf()
        &&& tokens_unique(self.sessions.rows())
        &&& all_minted_before(self.sessions.rows(), self.config.refresh_token_secret@, self.next_token_id)
    }

    /// Everything that the operations change is as in `other`.
    pub open spec fn same_state(&self, other: &AuthService) -> bool {
        &&& self.config == other.config
        &&& self.users.users() == other.users.users()
        &&& self.sessions.rows() == other.sessions.rows()
        &&& self.next_token_id == other.next_token_id
    }

    /// A service with no accounts and no sessions. Access and refresh tokens
    /// are signed with distinct secrets, so that neither can forge the other.
    pub fn new(config: Config) -> (r: AuthService)
        requires
            config.access_token_secret@ != config.refresh_token_secret@,
        ensures
            r.wf(),
            r.config == config,
            r.users.users().len() == 0,
            r.sessions.rows().len() == 0,
            r.next_token_id == 0,
    {
        AuthService { config, users: UserStore::new(), sessions: SessionRegistry::new(), next_token_id: 0 }
    }

    /// Mints the access and refresh tokens for `user` at `now`.
    fn mint_pair(&self, user: &AuthenticatedUser, now: u64) -> (r: Option<(String, String)>)
        ensures
            match r {
                Some(p) => fresh_pair(self.config, self.next_token_id, user.identity(), now) == Some((p.0@, p.1@)),
                None => fresh_pair(self.config, self.next_token_id, user.identity(), now) is None,
            },
            r matches Some(p) ==> decodes_as((p.0@, p.1@), self.config, user.identity(), now, self.next_token_id),
    {
        if self.next_token_id == u64::MAX {
            return None;
        }
        let jti = self.next_token_id;
        let access_claims = TokenClaims {
            id: user.id,
            username: user.username.clone(),
            pbkdf2_salt: user.pbkdf2_salt.clone(),
            created_at: user.created_at,
            exp: expiry_of(now, self.config.access_token_ttl_sec),
            jti,
            iat: now,
        };
        let access = match encode_claims(&access_claims, self.config.access_token_secret.as_str()) {
            Ok(t) => t,
            Err(_) => return None,
        };
        let refresh_claims = TokenClaims {
            id: user.id,
            username: user.username.clone(),
            pbkdf2_salt: user.pbkdf2_salt.clone(),
            created_at: user.created_at,
            exp: expiry_of(now, self.config.refresh_token_ttl_sec),
            jti,
            iat: now,
        };
        let refresh = match encode_claims(&refresh_claims, self.config.refresh_token_secret.as_str()) {
            Ok(t) => t,
            Err(_) => return None,
        };
        Some((access, refresh))
    }

    /// Stores the account of a sign-up whose shape was checked, with the hash of
    /// its password and its key-material salt.
    pub fn register(&mut self, body: &SignUp, password_hash: &str, key_salt: &str, created_at: i64) -> (r: Result<AuthenticatedUser, AuthError>)
        requires
            old(self).wf(),
            body.valid(),
        ensures
            final(self).wf(),
            final(self).config == old(self).config,
            final(self).sessions.rows() == old(self).sessions.rows(),
            final(self).next_token_id == old(self).next_token_id,
            username_taken(old(self).users.users(), body.username@) ==> r == Err::<AuthenticatedUser, AuthError>(AuthError::Conflict)
                && final(self).users.users() == old(self).users.users(),
            !username_taken(old(self).users.users(), body.username@) ==> {
                &&& r matches Ok(a)
                &&& a.identity() == (old(self).users.users().len() as u64, body.username@, key_salt@, created_at)
                &&& signed_up(old(self).users.users(), final(self).users.users(), body.username@)
                &&& final(self).users.users().last().identity() == a.identity()
                &&& final(self).users.users().last().password@ == password_hash@
            },
    {
        match self.users.insert_user(body.username.as_str(), password_hash, key_salt, created_at) {
            Ok(a) => Ok(a),
            Err(StoreError::UniqueViolation) => Err(AuthError::Conflict),
        }
    }

    /// Sign-up: checks the shape of the request, hashes the password under the
    /// pepper, draws the key-material salt, and stores the account. Creates no
    /// session.
    pub fn signup(&mut self, body: &SignUp) -> (r: Result<AuthenticatedUser, AuthError>)
        requires
            old(self).wf(),
        ensures
            signup_post(*old(self), *final(self), *body, r),
    {
        let (password_hash, key_salt) = match hash_signup(&self.config, body) {
            Ok(p) => p,
            Err(e) => return Err(e),
        };
        let created_at = current_timestamp();
        self.register(body, password_hash.as_str(), key_salt.as_str(), created_at)
    }

    /// Sign-in at time `now`, with the refresh token of an earlier session if
    /// the client presented one.
    pub fn signin_at(&mut self, body: &SignIn, session_cookie: Option<&str>, now: u64) -> (r: Result<TokenPair, AuthError>)
        requires
            old(self).wf(),
        ensures
            signin_post(*old(self), *final(self), *body, opt_view(session_cookie), now, r),
    {
        if !body.validate() {
            return Err(AuthError::InvalidInput);
        }
        let found = self.users.get_user_by_username(body.username.as_str());
        let user = match found {
            Some(u) => u,
            None => {
                let _ = check_password(&self.config, body.password.as_str(), None);
                return Err(AuthError::Unauthorized);
            },
        };
        let ghost users = self.users.users();
        assert forall|j: int| 0 <= j < users.len() && (#[trigger] users[j]).username@ == body.username@ implies users[j] == user by {
            let i = choose|i: int| 0 <= i < users.len() && users[i] == user;
            assert(users[i].username@ == users[j].username@);
        }
        if !check_password(&self.config, body.password.as_str(), Some(&user)) {
            return Err(AuthError::Unauthorized);
        }
        self.complete_signin_at(&user, session_cookie, now)
    }

    /// The part of sign-in that follows a successful password check for the
    /// stored account `user`: the reuse check on the presented cookie, new
    /// tokens, and the new session.
    pub fn complete_signin_at(&mut self, user: &User, session_cookie: Option<&str>, now: u64) -> (r: Result<TokenPair, AuthError>)
        requires
            old(self).wf(),
            old(self).users.users().contains(*user),
        ensures
            completion_post(*old(self), *final(self), *user, opt_view(session_cookie), now, r),
    {
        let view = AuthenticatedUser::from_user(user);
        let (access, refresh) = match self.mint_pair(&view, now) {
            Some(p) => p,
            None => return Err(AuthError::Internal),
        };
        let ghost rows = self.sessions.rows();
        let ghost secret = self.config.refresh_token_secret@;
        let ghost next = self.next_token_id;
        let ghost c_new = claims_at(view.identity(), now, self.config.refresh_token_ttl_sec, next);
        proof {
            lemma_minted_token_is_fresh(rows, secret, next, refresh@, c_new);
        }
        match session_cookie {
            Some(c) => {
                proof {
                    lemma_reuse_check_keeps_unique(rows, user.id, c@, refresh@);
                    lemma_filter_minted_before(rows, not_owned_by(user.id), secret, next);
                }
                let _ = self.sessions.delete_all_user_sessions_on_reuse(user.id, c);
            },
            None => {},
        }
        proof {
            lemma_push_keeps_unique(self.sessions.rows(), (user.id, refresh@, now));
            lemma_push_minted(self.sessions.rows(), secret, next, (user.id, refresh@, now), c_new);
        }
        self.sessions.create_session(user.id, refresh.as_str(), now);
        self.next_token_id = self.next_token_id + 1;
        Ok(TokenPair { access_token: AccessToken { token: access }, refresh_token: refresh })
    }

    /// Sign-in at the current time.
    pub fn signin(&mut self, body: &SignIn, session_cookie: Option<&str>) -> (r: Result<TokenPair, AuthError>)
        requires
            old(self).wf(),
        ensures
            exists|now: u64| signin_post(*old(self), *final(self), *body, opt_view(session_cookie), now, r),
    {
        let now = now_seconds();
        self.signin_at(body, session_cookie, now)
    }

    /// Refresh at time `now` with the refresh token that the client presented.
    pub fn refresh_at(&mut self, presented: &str, now: u64) -> (r: Result<TokenPair, AuthError>)
        requires
            old(self).wf(),
        ensures
            refresh_post(*old(self), *final(self), presented@, now, r),
    {
        let claims = match decode_claims(presented, self.config.refresh_token_secret.as_str()) {
            Some(c) => c,
            None => return Err(AuthError::Unauthorized),
        };
        if claims.exp < now {
            return Err(AuthError::Unauthorized);
        }
        let user_id = claims.id;
        if !self.sessions.has_session(user_id, presented) {
            proof {
                lemma_remove_keeps_unique(self.sessions.rows(), user_id, presented@);
                lemma_filter_minted_before(
                    self.sessions.rows(),
                    not_owned_by(user_id),
                    self.config.refresh_token_secret@,
                    self.next_token_id,
                );
            }
            let _ = self.sessions.delete_user_sessions(user_id);
            return Err(AuthError::Unauthorized);
        }
        let user = AuthenticatedUser {
            id: user_id,
            username: claims.username,
            pbkdf2_salt: claims.pbkdf2_salt,
            created_at: claims.created_at,
        };
        let (access, refresh) = match self.mint_pair(&user, now) {
            Some(p) => p,
            None => return Err(AuthError::Internal),
        };
        let ghost c_new = claims_at(user.identity(), now, self.config.refresh_token_ttl_sec, self.next_token_id);
        proof {
            lemma_minted_token_is_fresh(self.sessions.rows(), self.config.refresh_token_secret@, self.next_token_id, refresh@, c_new);
            lemma_rotate_keeps_unique(self.sessions.rows(), user_id, presented@, refresh@, now);
            lemma_rotate_minted(
                self.sessions.rows(),
                user_id,
                presented@,
                refresh@,
                now,
                self.config.refresh_token_secret@,
                self.next_token_id,
                c_new,
            );
        }
        let _ = self.sessions.update_session(user_id, presented, refresh.as_str(), now);
        self.next_token_id = self.next_token_id + 1;
        Ok(TokenPair { access_token: AccessToken { token: access }, refresh_token: refresh })
    }

    /// Refresh at the current time.
    pub fn refresh(&mut self, presented: &str) -> (r: Result<TokenPair, AuthError>)
        requires
            old(self).wf(),
        ensures
            exists|now: u64| refresh_post(*old(self), *final(self), presented@, now, r),
    {
        let now = now_seconds();
        self.refresh_at(presented, now)
    }

    /// Logout: removes the session of `user` holding `refresh_token` if there is one.
    /// Never fails.
    pub fn logout(&mut self, user: &AuthenticatedUser, refresh_token: &str)
        requires
            old(self).wf(),
        ensures
            final(self).wf(),
            final(self).config == old(self).config,
            final(self).users.users() == old(self).users.users(),
            final(self).next_token_id == old(self).next_token_id,
            final(self).sessions.rows() == without_row(old(self).sessions.rows(), user.id, refresh_token@),
    {
        proof {
            lemma_remove_keeps_unique(self.sessions.rows(), user.id, refresh_token@);
            lemma_filter_minted_before(
                self.sessions.rows(),
                not_session(user.id, refresh_token@),
                self.config.refresh_token_secret@,
                self.next_token_id,
            );
        }
        let _ = self.sessions.delete_session(user.id, refresh_token);
    }
}

/// `after` is `before` with one more account, named `name`, at the end.
pub open spec fn signed_up(before: Seq<User>, after: Seq<User>, name: Seq<char>) -> bool {
    &&& after.len() == before.len() + 1
    &&& after.take(before.len() as int) == before
    &&& after.last().username@ == name
}

/// What sign-up does to the service `old`, giving `new` and `r`. Success,
/// which needs the random hash salt and key salt to be drawn, appends the
/// account: its public identity is the one returned, its key salt is 32 random
/// bytes in hexadecimal, and its stored hash matches the password under the
/// pepper.
pub open spec fn signup_post(old: AuthService, new: AuthService, body: SignUp, r: Result<AuthenticatedUser, AuthError>) -> bool {
    let taken = username_taken(old.users.users(), body.username@);
    &&& new.wf()
    &&& new.config == old.config
    &&& new.sessions.rows() == old.sessions.rows()
    &&& new.next_token_id == old.next_token_id
    &&& !body.valid() ==> r == Err::<AuthenticatedUser, AuthError>(AuthError::InvalidInput) && new.same_state(&old)
    &&& r == Err::<AuthenticatedUser, AuthError>(AuthError::InvalidInput) ==> !body.valid()
    &&& r == Err::<AuthenticatedUser, AuthError>(AuthError::Conflict) ==> body.valid() && taken
    &&& body.valid() ==> (r is Ok || r == Err::<AuthenticatedUser, AuthError>(AuthError::Internal)
        || r == Err::<AuthenticatedUser, AuthError>(AuthError::Conflict) && taken)
    &&& body.password@ != body.password_check@ ==> r == Err::<AuthenticatedUser, AuthError>(AuthError::InvalidInput)
        && new.same_state(&old)
    &&& body.valid() && taken ==> (r == Err::<AuthenticatedUser, AuthError>(AuthError::Conflict)
        || r == Err::<AuthenticatedUser, AuthError>(AuthError::Internal)) && new.same_state(&old)
    &&& r is Err ==> new.same_state(&old)
    &&& r matches Ok(a) ==> {
        &&& body.valid()
        &&& !taken
        &&& a.id == old.users.users().len()
        &&& a.username@ == body.username@
        &&& signed_up(old.users.users(), new.users.users(), body.username@)
        &&& new.users.users().last().identity() == a.identity()
        &&& exists|b: Seq<u8>| b.len() == KEY_LEN && a.pbkdf2_salt@ == hex_encoding(b)
        &&& argon2_matches(old.config.argon_secret@, body.password@, new.users.users().last().password@)
    }
}

/// What sign-in at `now` does to the service `old`, giving `new` and `r`.
pub open spec fn signin_post(
    old: AuthService,
    new: AuthService,
    body: SignIn,
    cookie: Option<Seq<char>>,
    now: u64,
    r: Result<TokenPair, AuthError>,
) -> bool {
    &&& new.wf()
    &&& new.config == old.config
    &&& new.users.users() == old.users.users()
    &&& new.next_token_id == if r is Ok { (old.next_token_id + 1) as u64 } else { old.next_token_id }
    &&& !body.valid() ==> r == Err::<TokenPair, AuthError>(AuthError::InvalidInput) && new.same_state(&old)
    &&& body.valid() && !username_taken(old.users.users(), body.username@)
        ==> r == Err::<TokenPair, AuthError>(AuthError::Unauthorized) && new.same_state(&old)
    &&& forall|i: int|
        0 <= i < old.users.users().len() && body.valid() && (#[trigger] old.users.users()[i]).username@ == body.username@
            ==> signin_result(
            old.sessions.rows(),
            old.users.users()[i],
            body.password@,
            old.config.argon_secret@,
            cookie,
            now,
            fresh_pair(old.config, old.next_token_id, old.users.users()[i].identity(), now),
        ) == (outcome_of(r), new.sessions.rows()) && (r matches Ok(p) ==> decodes_as(
            (p.access_token.token@, p.refresh_token@),
            old.config,
            old.users.users()[i].identity(),
            now,
            old.next_token_id,
        ))
}

/// What refresh with `token` at `now` does to the service `old`, giving `new` and `r`.
pub open spec fn refresh_post(old: AuthService, new: AuthService, token: Seq<char>, now: u64, r: Result<TokenPair, AuthError>) -> bool {
    let claims = hs256_claims(token, old.config.refresh_token_secret@);
    &&& new.wf()
    &&& new.config == old.config
    &&& new.users.users() == old.users.users()
    &&& new.next_token_id == if r is Ok { (old.next_token_id + 1) as u64 } else { old.next_token_id }
    &&& refresh_result(old.sessions.rows(), token, claims, now, fresh_for(old.config, old.next_token_id, claims, now))
        == (outcome_of(r), new.sessions.rows())
    &&& r matches Ok(p) ==> match claims {
        Some(c) => decodes_as((p.access_token.token@, p.refresh_token@), old.config, c.0, now, old.next_token_id),
        None => false,
    }
}

} // verus!
