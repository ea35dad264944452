//! Text decoding and small string helpers.
//!
//! The text gate of the entry processor and the UTF-8 check on archive
//! paths both go through [`decode_text`], whose contract is exact: it
//! succeeds precisely on valid UTF-8, and the returned string's bytes are
//! the input bytes. Source labels for nested archives are built with
//! [`join_path`].

use vstd::prelude::*;
use vstd::utf8::{decode_utf8, encode_utf8, valid_utf8};

verus! {

/// Relies on simdutf8's `basic::from_utf8`: returns the decoded string
/// exactly when the input is valid UTF-8, and rejects it otherwise. The
/// returned string consists of exactly the input bytes.
#[verifier::external_body]
pub(crate) fn decode_text(data: &[u8]) -> (r: Option<String>)
    ensures
        r is Some <==> valid_utf8(data@),
        r matches Some(s) ==> s@ == decode_utf8(data@) && encode_utf8(s@) == data@,
{
    match simdutf8::basic::from_utf8(data) {
        Ok(s) => Some(s.to_string()),
        Err(_) => None,
    }
}

/// Relies on `String::push_str`: appends the bytes of `t` to `s`.
#[verifier::external_body]
fn append_str(s: &mut String, t: &str)
    ensures
        final(s)@ == old(s)@ + t@,
{
    s.push_str(t);
}

/// Relies on `String::push`: appends the character `c` to `s`.
#[verifier::external_body]
fn append_char(s: &mut String, c: char)
    ensures
        final(s)@ == old(s)@.push(c),
{
    s.push(c);
}

/// The source label of a nested archive or entry: the parent label and the
/// entry path separated by `/`. An absolute entry path replaces the parent
/// label, and an empty parent label contributes nothing, mirroring how
/// filesystem paths join.
pub open spec fn spec_join_path(parent: Seq<char>, child: Seq<char>) -> Seq<char> {
    if child.len() > 0 && child[0] == '/' {
        child
    } else if parent.len() == 0 {
        child
    } else {
        parent.push('/') + child
    }
}

/// Join a parent source label with an entry path, as `spec_join_path` says.
pub fn join_path(parent: &str, child: &str) -> (r: String)
    ensures
        r@ == spec_join_path(parent@, child@),
{
    let child_starts_absolute = if child.is_empty() {
        false
    } else {
        child.get_char(0) == '/'
    };
    if child_starts_absolute {
        let mut r = String::new();
        append_str(&mut r, child);
        assert(r@ =~= spec_join_path(parent@, child@));
        r
    } else if parent.is_empty() {
        let mut r = String::new();
        append_str(&mut r, child);
        assert(r@ =~= spec_join_path(parent@, child@));
        r
    } else {
        let mut r = String::new();
        append_str(&mut r, parent);
        append_char(&mut r, '/');
        append_str(&mut r, child);
        assert(r@ =~= spec_join_path(parent@, child@));
        r
    }
}

} // verus!
