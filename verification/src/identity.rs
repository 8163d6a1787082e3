//! Test identity resolver: derive the name the host framework uses for the
//! currently executing test from a fully qualified symbol path.
//!
//! A participating test body obtains the qualified path of a marker function
//! nested directly inside itself, for example `my_crate::my_test::f`. The
//! trailing path segment is the fixed marker scope (always three characters,
//! `::` and the marker's one-letter name); dropping it and everything up to
//! and including the first `::` of what remains yields the name the host
//! framework addresses the test by, such as `my_test` or `tests::it_works`.

use vstd::prelude::*;
use vstd::string::*;

verus! {

/// The position of the first `::` at or after `i`, if any.
pub open spec fn spec_find_sep(s: Seq<char>, i: int) -> Option<int>
    decreases s.len() - i,
{
    if i < 0 || i + 2 > s.len() {
        None
    } else if s[i] == ':' && s[i + 1] == ':' {
        Some(i)
    } else {
        spec_find_sep(s, i + 1)
    }
}

/// The test name carried by a qualified marker symbol: drop the last three
/// characters (the marker scope), then everything up to and including the
/// first `::`. A symbol too short to carry the marker scope, or without a
/// `::` once it is dropped, resolves to nothing.
pub open spec fn spec_test_name(sym: Seq<char>) -> Option<Seq<char>> {
    if sym.len() < 3 {
        None
    } else {
        let trimmed = sym.subrange(0, sym.len() - 3);
        match spec_find_sep(trimmed, 0) {
            None => None,
            Some(i) => Some(trimmed.subrange(i + 2, trimmed.len() as int)),
        }
    }
}

/// Resolve the enclosing test's name from the qualified symbol path of its
/// call-site-local marker. `None` marks a programming-contract violation:
/// the symbol did not come from a marker nested directly inside a test.
pub fn test_name_from_symbol(sym: &str) -> (r: Option<String>)
    ensures
        match r {
            Some(name) => spec_test_name(sym@) == Some(name@),
            None => spec_test_name(sym@) is None,
        },
{
    let n = sym.unicode_len();
    if n < 3 {
        return None;
    }
    let m = n - 3;
    let ghost trimmed = sym@.subrange(0, m as int);
    let mut i: usize = 0;
    while i + 2 <= m
        invariant
            m + 3 == sym@.len(),
            m <= usize::MAX - 3,
            i <= m,
            trimmed == sym@.subrange(0, m as int),
            spec_find_sep(trimmed, 0) == spec_find_sep(trimmed, i as int),
        decreases m - i,
    {
        let c0 = sym.get_char(i);
        let c1 = sym.get_char(i + 1);
        proof {
            assert(trimmed[i as int] == sym@[i as int]);
            assert(trimmed[i as int + 1] == sym@[i as int + 1]);
        }
        if c0 == ':' && c1 == ':' {
            assert(spec_find_sep(trimmed, i as int) == Some(i as int));
            let tail = sym.substring_char(i + 2, m);
            proof {
                assert(tail@ =~= trimmed.subrange(i as int + 2, trimmed.len() as int));
            }
            return Some(tail.to_owned());
        }
        i = i + 1;
    }
    assert(spec_find_sep(trimmed, i as int) is None);
    None
}

} // verus!
