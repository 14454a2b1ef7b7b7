//! Shape rules for usernames and passwords.
use vstd::prelude::*;

verus! {

broadcast use vstd::string::group_string_axioms;

pub const USERNAME_MIN_LEN: usize = 2;
pub const USERNAME_MAX_LEN: usize = 32;
pub const PASSWORD_MIN_LEN: usize = 12;
pub const PASSWORD_MAX_LEN: usize = 64;

/// The Unicode `Alphabetic` property of a character.
pub uninterp spec fn alphabetic_char(c: char) -> bool;

/// Relies on `char::is_alphabetic`: whether `c` has the Unicode `Alphabetic`
/// property, which among ASCII characters the letters alone have.
#[verifier::external_body]
fn is_alphabetic(c: char) -> (r: bool)
    ensures
        r == alphabetic_char(c),
        (c as u32) < 128 ==> (r <==> ascii_letter(c)),
{
    c.is_alphabetic()
}

pub open spec fn ascii_letter(c: char) -> bool {
    ('a' <= c && c <= 'z') || ('A' <= c && c <= 'Z')
}

pub open spec fn ascii_digit(c: char) -> bool {
    '0' <= c && c <= '9'
}

pub open spec fn username_char(c: char) -> bool {
    ascii_letter(c) || c == '-' || c == '_'
}

/// A username has 2 to 32 characters, each an ASCII letter, `-` or `_`.
pub open spec fn valid_username(s: Seq<char>) -> bool {
    &&& USERNAME_MIN_LEN <= s.len() <= USERNAME_MAX_LEN
    &&& forall|i: int| 0 <= i < s.len() ==> username_char(#[trigger] s[i])
}

/// A password has 12 to 64 characters, among them at least one alphabetic
/// character, one ASCII digit, and one character that is neither.
pub open spec fn valid_password(s: Seq<char>) -> bool {
    &&& PASSWORD_MIN_LEN <= s.len() <= PASSWORD_MAX_LEN
    &&& exists|i: int| 0 <= i < s.len() && alphabetic_char(#[trigger] s[i])
    &&& exists|i: int| 0 <= i < s.len() && ascii_digit(#[trigger] s[i])
    &&& exists|i: int|
        0 <= i < s.len() && !alphabetic_char(#[trigger] s[i]) && !ascii_digit(s[i])
}

/// The characters of `s`, in order.
pub fn chars_of(s: &str) -> (v: Vec<char>)
    ensures
        v@ == s@,
{
    let mut v: Vec<char> = Vec::new();
    for c in it: s.chars()
        invariant
            it.seq() == s@,
            v@ == it.seq().take(it.index() as int),
    {
        v.push(c);
    }
    v
}

pub fn is_valid_username(username: &str) -> (r: bool)
    ensures
        r == valid_username(username@),
{
    let cs = chars_of(username);
    if cs.len() < USERNAME_MIN_LEN || cs.len() > USERNAME_MAX_LEN {
        return false;
    }
    let mut i: usize = 0;
    while i < cs.len()
        invariant
            i <= cs@.len(),
            cs@ == username@,
            forall|j: int| 0 <= j < i ==> username_char(#[trigger] cs@[j]),
        decreases cs.len() - i,
    {
        let c = cs[i];
        if !(('a' <= c && c <= 'z') || ('A' <= c && c <= 'Z') || c == '-' || c == '_') {
            return false;
        }
        i = i + 1;
    }
    true
}

pub fn is_valid_password(password: &str) -> (r: bool)
    ensures
        r == valid_password(password@),
{
    let cs = chars_of(password);
    let mut has_alpha = false;
    let mut has_digit = false;
    let mut has_other = false;
    let mut i: usize = 0;
    while i < cs.len()
        invariant
            i <= cs@.len(),
            cs@ == password@,
            has_alpha == exists|j: int| 0 <= j < i && alphabetic_char(#[trigger] cs@[j]),
            has_digit == exists|j: int| 0 <= j < i && ascii_digit(#[trigger] cs@[j]),
            has_other == exists|j: int|
                0 <= j < i && !alphabetic_char(#[trigger] cs@[j]) && !ascii_digit(cs@[j]),
        decreases cs.len() - i,
    {
        let c = cs[i];
        let alpha = is_alphabetic(c);
        let digit = '0' <= c && c <= '9';
        has_alpha = has_alpha || alpha;
        has_digit = has_digit || digit;
        has_other = has_other || (!alpha && !digit);
        i = i + 1;
    }
    PASSWORD_MIN_LEN <= cs.len() && cs.len() <= PASSWORD_MAX_LEN && has_alpha && has_digit
        && has_other
}

} // verus!
