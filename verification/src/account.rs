//! Syntactic validity of account identities.
//!
//! The host's identity format: 2 to 64 bytes, each a lowercase ASCII letter, a
//! digit, or one of the separators `-`, `_`, `.`; a separator may neither open
//! nor close the identity, and two separators may not stand next to each other.

use vstd::prelude::*;

verus! {

/// ASCII code of `-`.
pub const HYPHEN: u8 = 45;

/// ASCII code of `_`.
pub const UNDERSCORE: u8 = 95;

/// ASCII code of `.`.
pub const DOT: u8 = 46;

/// The byte stands for one of the three separator characters.
pub open spec fn is_id_separator(b: u8) -> bool {
    b == HYPHEN || b == UNDERSCORE || b == DOT
}

/// The byte is allowed somewhere in an identity: a lowercase ASCII letter
/// (codes 97 to 122), a digit (codes 48 to 57) or a separator.
pub open spec fn is_id_byte(b: u8) -> bool {
    (97 <= b && b <= 122) || (48 <= b && b <= 57) || is_id_separator(b)
}

/// The byte sequence is a well-formed account identity.
pub open spec fn valid_account_bytes(s: Seq<u8>) -> bool {
    &&& 2 <= s.len() <= 64
    &&& forall|i: int| 0 <= i < s.len() ==> is_id_byte(#[trigger] s[i])
    &&& !is_id_separator(s[0])
    &&& !is_id_separator(s[s.len() - 1])
    &&& forall|i: int| 0 < i < s.len() ==> !(is_id_separator(s[i - 1]) && is_id_separator(#[trigger] s[i]))
}

/// The character sequence is a well-formed account identity, judged on its UTF-8 bytes.
pub open spec fn valid_account_id(s: Seq<char>) -> bool {
    valid_account_bytes(vstd::utf8::encode_utf8(s))
}

/// Decides whether `id` is a well-formed account identity.
pub fn is_valid_account_id(id: &str) -> (r: bool)
    ensures
        r == valid_account_id(id@),
{
    let bytes: &[u8] = id.as_bytes();
    let n: usize = bytes.len();
    if n < 2 || n > 64 {
        return false;
    }
    let ghost s: Seq<u8> = bytes@;
    let mut i: usize = 0;
    // Holds at the loop head: no byte before `i` breaks the format, and
    // `last_sep` records whether the previous byte was a separator (a fictitious
    // separator precedes the identity, so a leading separator is rejected too).
    let mut last_sep: bool = true;
    while i < n
        invariant
            s == bytes@,
            s == vstd::utf8::encode_utf8(id@),
            n == s.len(),
            2 <= n <= 64,
            0 <= i <= n,
            forall|k: int| 0 <= k < i ==> is_id_byte(#[trigger] s[k]),
            i == 0 ==> last_sep,
            i > 0 ==> last_sep == is_id_separator(s[i - 1]),
            i > 0 ==> !is_id_separator(s[0]),
            forall|k: int| 0 < k < i ==> !(is_id_separator(s[k - 1]) && is_id_separator(#[trigger] s[k])),
        decreases n - i,
    {
        let b: u8 = bytes[i];
        let sep: bool = b == HYPHEN || b == UNDERSCORE || b == DOT;
        let alnum: bool = (97 <= b && b <= 122) || (48 <= b && b <= 57);
        if !sep && !alnum {
            return false;
        }
        if sep && last_sep {
            return false;
        }
        last_sep = sep;
        i += 1;
    }
    !last_sep
}

} // verus!
