//! Host and tag normalization: ASCII case folding and port stripping.
//!
//! A routing key is the inbound host identifier with any trailing `:port`
//! removed, compared case-insensitively against configured sources. Protocol
//! tags are compared case-insensitively as well. Nothing here allocates a
//! normalized copy; comparisons fold case on the fly.

use vstd::prelude::*;
use vstd::string::*;

verus! {

/// ASCII-lowercases one character; every other character is unchanged.
pub open spec fn lower_char(c: char) -> char {
    if 65 <= c as u32 && c as u32 <= 90 {
        ((c as u32 + 32) as u8) as char
    } else {
        c
    }
}

/// ASCII-lowercases a whole character sequence.
pub open spec fn lower(s: Seq<char>) -> Seq<char> {
    s.map_values(|c: char| lower_char(c))
}

/// The index of the last `:` in `s`, or `-1` if there is none.
pub open spec fn last_colon(s: Seq<char>) -> int
    decreases s.len(),
{
    if s.len() == 0 {
        -1
    } else if s.last() == ':' {
        s.len() - 1
    } else {
        last_colon(s.drop_last())
    }
}

/// `s` with everything from its last `:` on removed; `s` itself if it has no `:`.
pub open spec fn strip_port(s: Seq<char>) -> Seq<char> {
    if last_colon(s) >= 0 {
        s.take(last_colon(s))
    } else {
        s
    }
}

/// The routing key of an inbound host identifier: port stripped, case folded.
pub open spec fn host_key_of(h: Seq<char>) -> Seq<char> {
    lower(strip_port(h))
}

proof fn lemma_last_colon_at(s: Seq<char>, k: int)
    requires
        0 <= k < s.len(),
        s[k] == ':',
        forall|j: int| k < j < s.len() ==> s[j] != ':',
    ensures
        last_colon(s) == k,
    decreases s.len(),
{
    if k == s.len() - 1 {
        assert(s.last() == ':');
    } else {
        assert(s.last() != ':');
        assert(s.drop_last()[k] == ':');
        lemma_last_colon_at(s.drop_last(), k);
    }
}

proof fn lemma_no_colon(s: Seq<char>)
    requires
        forall|j: int| 0 <= j < s.len() ==> s[j] != ':',
    ensures
        last_colon(s) == -1,
    decreases s.len(),
{
    if s.len() > 0 {
        lemma_no_colon(s.drop_last());
    }
}

/// ASCII-lowercases one character at run time.
pub fn lower_char_exec(c: char) -> (r: char)
    ensures
        r == lower_char(c),
{
    let u = c as u32;
    if 65 <= u && u <= 90 {
        ((u + 32) as u8) as char
    } else {
        c
    }
}

/// True iff the two strings are equal after ASCII case folding.
pub fn eq_ignore_case(a: &str, b: &str) -> (r: bool)
    ensures
        r == (lower(a@) == lower(b@)),
{
    let alen = a.unicode_len();
    let blen = b.unicode_len();
    if alen != blen {
        assert(lower(a@).len() != lower(b@).len());
        return false;
    }
    let mut i: usize = 0;
    while i < alen
        invariant
            i <= alen,
            alen == a@.len(),
            alen == b@.len(),
            forall|j: int| 0 <= j < i ==> lower_char(a@[j]) == lower_char(b@[j]),
        decreases alen - i,
    {
        let ca = lower_char_exec(a.get_char(i));
        let cb = lower_char_exec(b.get_char(i));
        if ca != cb {
            assert(lower(a@)[i as int] != lower(b@)[i as int]);
            return false;
        }
        i += 1;
    }
    assert(lower(a@) =~= lower(b@));
    true
}

/// Removes a trailing `:port` suffix: everything from the last `:` on.
pub fn strip_port_exec(h: &str) -> (r: &str)
    ensures
        r@ == strip_port(h@),
{
    let len = h.unicode_len();
    let mut i: usize = len;
    while i > 0
        invariant
            i <= len,
            len == h@.len(),
            forall|j: int| i <= j < len ==> h@[j] != ':',
        decreases i,
    {
        if h.get_char(i - 1) == ':' {
            proof {
                lemma_last_colon_at(h@, i - 1);
            }
            return h.substring_char(0, i - 1);
        }
        i -= 1;
    }
    proof {
        lemma_no_colon(h@);
    }
    h
}

/// Compares two strings for exact equality without an early exit on the
/// first mismatching character, so that the time taken does not depend on
/// how long a matching prefix is. (A length mismatch still returns at once.)
pub fn eq_no_early_exit(a: &str, b: &str) -> (r: bool)
    ensures
        r == (a@ == b@),
{
    let alen = a.unicode_len();
    let blen = b.unicode_len();
    if alen != blen {
        assert(a@.len() != b@.len());
        return false;
    }
    let mut ok = true;
    let mut i: usize = 0;
    while i < alen
        invariant
            i <= alen,
            alen == a@.len(),
            alen == b@.len(),
            ok == (forall|j: int| 0 <= j < i ==> a@[j] == b@[j]),
        decreases alen - i,
    {
        let ca = a.get_char(i);
        let cb = b.get_char(i);
        if ca != cb {
            ok = false;
        }
        i += 1;
    }
    proof {
        if ok {
            assert(a@ =~= b@);
        }
    }
    ok
}

} // verus!
