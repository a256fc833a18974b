//! Rules for names and identifiers.
use vstd::prelude::*;
use vstd::string::*;

use crate::text::{ascii_alphanumeric, ascii_graphic, is_ascii_graphic};

verus! {

/// Longest scope or collection name, in bytes.
pub const MAX_NAME_LEN: usize = 251;

/// Characters of scope and collection names.
pub open spec fn name_char(c: char) -> bool {
    ascii_alphanumeric(c) || c == '_' || c == '-' || c == '%'
}

/// Scope and collection names: 1 to 251 characters, all of them ASCII.
pub open spec fn valid_name(s: Seq<char>) -> bool {
    &&& 0 < s.len() <= MAX_NAME_LEN
    &&& forall|i: int| 0 <= i < s.len() ==> name_char(#[trigger] s[i])
}

fn is_name_char(c: char) -> (result: bool)
    ensures
        result == name_char(c),
{
    let u: u32 = c as u32;
    (0x30 <= u && u <= 0x39) || (0x41 <= u && u <= 0x5a) || (0x61 <= u && u <= 0x7a) || c == '_'
        || c == '-' || c == '%'
}

/// Tests a scope or collection name.
pub fn is_valid_name(s: &str) -> (result: bool)
    ensures
        result == valid_name(s@),
{
    let n: usize = s.unicode_len();
    if n == 0 || n > MAX_NAME_LEN {
        return false;
    }
    let mut i: usize = 0;
    while i < n
        invariant
            i <= n,
            n == s@.len(),
            forall|j: int| 0 <= j < i ==> name_char(#[trigger] s@[j]),
        decreases n - i,
    {
        if !is_name_char(s.get_char(i)) {
            return false;
        }
        i = i + 1;
    }
    true
}

/// Identifiers of visible ASCII characters, at least one and at most `limit`.
pub open spec fn visible(s: Seq<char>, limit: nat) -> bool {
    &&& 0 < s.len() <= limit
    &&& forall|i: int| 0 <= i < s.len() ==> ascii_graphic(#[trigger] s[i])
}

/// Tests an identifier of visible ASCII characters.
pub fn is_visible(s: &str, limit: usize) -> (result: bool)
    ensures
        result == visible(s@, limit as nat),
{
    let n: usize = s.unicode_len();
    if n == 0 || n > limit {
        return false;
    }
    let mut i: usize = 0;
    while i < n
        invariant
            i <= n,
            n == s@.len(),
            forall|j: int| 0 <= j < i ==> ascii_graphic(#[trigger] s@[j]),
        decreases n - i,
    {
        if !is_ascii_graphic(s.get_char(i)) {
            return false;
        }
        i = i + 1;
    }
    true
}

} // verus!
