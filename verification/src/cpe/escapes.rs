//! Backslash escapes in a literal attribute text, as both bindings read them.

use vstd::prelude::*;

verus! {

/// Whether the text ends in a backslash that has nothing to escape: reading
/// from the left, a backslash and the character behind it together, the last
/// character is a backslash that begins a pair. Behind such a text, the next
/// character would be escaped.
pub open spec fn ends_in_open_escape(s: Seq<char>) -> bool
    decreases s.len(),
{
    if s.len() == 0 {
        false
    } else if s[0] != '\\' {
        ends_in_open_escape(s.skip(1))
    } else if s.len() == 1 {
        true
    } else {
        ends_in_open_escape(s.skip(2))
    }
}

/// Tells whether `s` ends in a backslash that has nothing to escape.
pub fn has_open_escape(s: &Vec<char>) -> (open: bool)
    ensures
        open == ends_in_open_escape(s@),
{
    let mut i: usize = 0;
    proof {
        assert(s@.skip(0) =~= s@);
    }
    while i < s.len()
        invariant
            i <= s.len(),
            ends_in_open_escape(s@.skip(i as int)) == ends_in_open_escape(s@),
        decreases s.len() - i,
    {
        let ghost rest = s@.skip(i as int);
        if s[i] != '\\' {
            proof {
                assert(rest.skip(1) =~= s@.skip(i + 1));
            }
            i += 1;
        } else if i + 1 == s.len() {
            return true;
        } else {
            proof {
                assert(rest.skip(2) =~= s@.skip(i + 2));
            }
            i += 2;
        }
    }
    false
}

} // verus!
