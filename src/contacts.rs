//! Request shapes of the friend-invite and message endpoints, which sit behind
//! the bearer guard.
use crate::keys::{from_hex, hex_decoding, hex_encoding, to_hex};
use crate::Validate;
use vstd::prelude::*;

verus! {

pub const PUBLIC_KEY_LEN: usize = 32;

/// A public key offered when inviting or accepting a friend.
pub struct PublicKey {
    pub public_key: Vec<u8>,
}

impl Validate for PublicKey {
    open spec fn valid(&self) -> bool {
        self.public_key@.len() == PUBLIC_KEY_LEN
    }

    fn validate(&self) -> (r: bool) {
        self.public_key.len() == PUBLIC_KEY_LEN
    }
}

/// Which related users a search lists.
#[derive(PartialEq, Eq, Structural, Debug, Clone, Copy)]
pub enum UserFilter {
    /// Users that the caller invited.
    Invited,
    /// Users whose invitation the caller has not accepted yet.
    Pending,
    /// Users with an accepted invitation either way.
    Friends,
}

/// The text that stands for a missing key.
pub open spec fn null_text() -> Seq<char> {
    seq!['n', 'u', 'l', 'l']
}

/// An optional key as text: lowercase hexadecimal digits, or `null` for none.
pub fn serialize(op: &Option<Vec<u8>>) -> (r: String)
    ensures
        r@ == match op {
            Some(v) => hex_encoding(v@),
            None => null_text(),
        },
{
    match op {
        Some(v) => to_hex(v.as_slice()),
        None => {
            let r = "null".to_owned();
            proof {
                reveal_strlit("null");
            }
            assert(r@ =~= null_text());
            r
        },
    }
}

/// The optional key that `s` spells: `null` for none, else hexadecimal digits
/// of either case; `None` when `s` is neither.
pub fn deserialize(s: &str) -> (r: Option<Option<Vec<u8>>>)
    ensures
        match r {
            Some(Some(v)) => s@ != null_text() && hex_decoding(s@) == Some(v@),
            Some(None) => s@ == null_text(),
            None => s@ != null_text() && hex_decoding(s@) is None,
        },
{
    let text = s.to_owned();
    let null = "null".to_owned();
    proof {
        reveal_strlit("null");
    }
    assert(null@ =~= null_text());
    if text == null {
        return Some(None);
    }
    match from_hex(s) {
        Ok(v) => Some(Some(v)),
        Err(_) => None,
    }
}

/// Where a page of messages starts, and how long it is.
pub struct MessagePage {
    pub start_timestamp: i64,
    pub start_id: i32,
    pub limit: i64,
}

} // verus!
