//! The bearer guard: `Authorization: Bearer <access token>` to an identity.
use crate::auth::{AuthenticatedUser, Identity};
use crate::lifecycle::AuthService;
use crate::lifecycle::{now_seconds, opt_view};
use crate::tokens::{decode_claims, hs256_claims, unexpired};
use crate::validation::chars_of;
use vstd::prelude::*;

verus! {

/// `c` is the uppercase ASCII letter `upper` or its lowercase form.
pub open spec fn same_letter(c: char, upper: char) -> bool {
    c == upper || c as u32 == upper as u32 + 32
}

/// `s` is the word `Bearer`, each letter in either ASCII case.
pub open spec fn bearer_scheme(s: Seq<char>) -> bool {
    &&& s.len() == 6
    &&& forall|i: int| 0 <= i < 6 ==> same_letter(#[trigger] s[i], seq!['B', 'E', 'A', 'R', 'E', 'R'][i])
}

/// `header` is the scheme `Bearer`, one space, and `token`.
pub open spec fn bearer_header(header: Seq<char>, token: Seq<char>) -> bool {
    exists|scheme: Seq<char>| bearer_scheme(scheme) && header == scheme + seq![' '] + token
}

/// The identity in `token` if it verifies under `secret` and is current at `now`.
pub open spec fn current_identity(token: Seq<char>, secret: Seq<char>, now: u64) -> Option<Identity> {
    match hs256_claims(token, secret) {
        Some(c) => if unexpired(c.1, now) {
            Some(c.0)
        } else {
            None
        },
        None => None,
    }
}

/// `token` verifies under `secret` but its expiry has passed at `now`.
pub open spec fn expired_token(token: Seq<char>, secret: Seq<char>, now: u64) -> bool {
    match hs256_claims(token, secret) {
        Some(c) => !unexpired(c.1, now),
        None => false,
    }
}

/// `header` carries a token that verifies under `secret` and is current at `now`.
pub open spec fn bearer_accepts(header: Seq<char>, secret: Seq<char>, now: u64) -> bool {
    exists|token: Seq<char>| bearer_header(header, token) && (#[trigger] current_identity(token, secret, now)) is Some
}

/// What the bearer guard owes for the header `authorization` at `now`: the
/// identity of a current, verified bearer token, else nothing; in particular
/// nothing for an expired token, however well signed.
pub open spec fn guard_post(authorization: Option<Seq<char>>, secret: Seq<char>, now: u64, r: Option<AuthenticatedUser>) -> bool {
    &&& match r {
        Some(u) => authorization is Some && exists|token: Seq<char>|
            bearer_header(authorization->0, token) && #[trigger] current_identity(token, secret, now) == Some(u.identity()),
        None => authorization is None || !bearer_accepts(authorization->0, secret, now),
    }
    &&& forall|token: Seq<char>|
        authorization is Some && bearer_header(authorization->0, token) && #[trigger] expired_token(token, secret, now)
            ==> r is None
}

/// Relies on `str::split_once` with a `char` pattern: the text before and after
/// the first space, or `None` when there is none.
#[verifier::external_body]
fn split_at_first_space(s: &str) -> (r: Option<(&str, &str)>)
    ensures
        match r {
            None => !s@.contains(' '),
            Some(p) => s@ == p.0@ + seq![' '] + p.1@ && !p.0@.contains(' '),
        },
{
    s.split_once(' ')
}

proof fn lemma_first_space_split(a1: Seq<char>, b1: Seq<char>, a2: Seq<char>, b2: Seq<char>)
    requires
        !a1.contains(' '),
        !a2.contains(' '),
        a1 + seq![' '] + b1 == a2 + seq![' '] + b2,
    ensures
        a1 == a2,
        b1 == b2,
{
    let h = a1 + seq![' '] + b1;
    if a1.len() < a2.len() {
        assert(h[a1.len() as int] == ' ');
        assert(a2[a1.len() as int] == h[a1.len() as int]);
        assert(a2.contains(' '));
    } else if a2.len() < a1.len() {
        assert(h[a2.len() as int] == ' ');
        assert(a1[a2.len() as int] == h[a2.len() as int]);
        assert(a1.contains(' '));
    }
    assert(a1 =~= h.take(a1.len() as int));
    assert(a2 =~= h.take(a2.len() as int));
    assert(b1 =~= h.skip(a1.len() as int + 1));
    assert(b2 =~= h.skip(a2.len() as int + 1));
}

proof fn lemma_scheme_has_no_space(s: Seq<char>)
    requires
        bearer_scheme(s),
    ensures
        !s.contains(' '),
{
    if s.contains(' ') {
        let i = choose|i: int| 0 <= i < s.len() && s[i] == ' ';
        assert(same_letter(s[i], seq!['B', 'E', 'A', 'R', 'E', 'R'][i]));
    }
}

/// Whether `s` is the word `Bearer`, in any mix of ASCII case.
pub fn is_bearer_scheme(s: &str) -> (r: bool)
    ensures
        r == bearer_scheme(s@),
{
    let cs = chars_of(s);
    if cs.len() != 6 {
        return false;
    }
    let expected: Vec<char> = vec!['B', 'E', 'A', 'R', 'E', 'R'];
    assert(expected@ == seq!['B', 'E', 'A', 'R', 'E', 'R']);
    let mut i: usize = 0;
    while i < 6
        invariant
            i <= 6,
            cs@ == s@,
            cs@.len() == 6,
            expected@ == seq!['B', 'E', 'A', 'R', 'E', 'R'],
            forall|j: int| 0 <= j < i ==> same_letter(#[trigger] cs@[j], expected@[j]),
        decreases 6 - i,
    {
        let c = cs[i];
        let e = expected[i];
        if !(c == e || c as u32 == e as u32 + 32) {
            return false;
        }
        i = i + 1;
    }
    true
}

impl AuthenticatedUser {
    /// The bearer guard: the identity in the access token of an
    /// `Authorization` header, if the scheme is `Bearer`, the signature checks
    /// under `access_token_secret`, and the token is current at `now`. Anything
    /// else is `None`, to be handled as an unauthenticated request.
    pub fn from_request(authorization: Option<&str>, access_token_secret: &str, now: u64) -> (r: Option<AuthenticatedUser>)
        ensures
            guard_post(opt_view(authorization), access_token_secret@, now, r),
    {
        let h = match authorization {
            Some(h) => h,
            None => return None,
        };
        let (scheme, token) = match split_at_first_space(h) {
            Some(p) => p,
            None => {
                assert forall|t: Seq<char>| !bearer_header(h@, t) by {
                    if bearer_header(h@, t) {
                        let sc = choose|sc: Seq<char>| bearer_scheme(sc) && h@ == sc + seq![' '] + t;
                        assert(h@[sc.len() as int] == ' ');
                    }
                }
                return None;
            },
        };
        assert forall|t: Seq<char>| bearer_header(h@, t) implies bearer_scheme(scheme@) && t == token@ by {
            let sc = choose|sc: Seq<char>| bearer_scheme(sc) && h@ == sc + seq![' '] + t;
            lemma_scheme_has_no_space(sc);
            lemma_first_space_split(scheme@, token@, sc, t);
        }
        if !is_bearer_scheme(scheme) {
            return None;
        }
        let claims = match decode_claims(token, access_token_secret) {
            Some(c) => c,
            None => return None,
        };
        if claims.exp < now {
            return None;
        }
        assert(bearer_header(h@, token@));
        let u = AuthenticatedUser {
            id: claims.id,
            username: claims.username,
            pbkdf2_salt: claims.pbkdf2_salt,
            created_at: claims.created_at,
        };
        assert(current_identity(token@, access_token_secret@, now) == Some(u.identity()));
        Some(u)
    }
}

impl AuthService {
    /// The bearer guard against this service's access-token secret, at the
    /// current time.
    pub fn authenticate(&self, authorization: Option<&str>) -> (r: Option<AuthenticatedUser>)
        ensures
            exists|now: u64| guard_post(opt_view(authorization), self.config.access_token_secret@, now, r),
    {
        let now = now_seconds();
        AuthenticatedUser::from_request(authorization, self.config.access_token_secret.as_str(), now)
    }
}

} // verus!
