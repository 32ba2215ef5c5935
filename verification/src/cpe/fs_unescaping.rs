//! Treatment of backslash escapes in a literal attribute text for the
//! formatted-string binding.
//!
//! The formatted string keeps escapes as they are, with three exceptions: an
//! escaped dot, hyphen or underscore is written without its backslash.

use vstd::prelude::*;

verus! {

/// The characters that the formatted string writes without a backslash even
/// where the literal escapes them.
pub open spec fn is_plain_when_escaped(c: char) -> bool {
    c == '.' || c == '-' || c == '_'
}

/// The text as the formatted string writes it, scanning from the left with
/// one character of lookahead. A backslash and the character behind it are
/// read together; a backslash with nothing behind it is left out.
pub open spec fn unescaped(s: Seq<char>) -> Seq<char>
    decreases s.len(),
{
    if s.len() == 0 {
        Seq::empty()
    } else if s[0] != '\\' {
        seq![s[0]] + unescaped(s.skip(1))
    } else if s.len() == 1 {
        Seq::empty()
    } else if is_plain_when_escaped(s[1]) {
        seq![s[1]] + unescaped(s.skip(2))
    } else {
        seq!['\\', s[1]] + unescaped(s.skip(2))
    }
}

/// Rewrites the escapes of `s` for the formatted string.
pub fn unescape(s: &Vec<char>) -> (out: Vec<char>)
    ensures
        out@ == unescaped(s@),
{
    let mut out: Vec<char> = Vec::new();
    let mut i: usize = 0;
    proof {
        assert(s@.skip(0) =~= s@);
        assert(out@ + unescaped(s@) =~= unescaped(s@));
    }
    while i < s.len()
        invariant
            i <= s.len(),
            out@ + unescaped(s@.skip(i as int)) == unescaped(s@),
        decreases s.len() - i,
    {
        let ghost rest = s@.skip(i as int);
        let ghost done = out@;
        let c = s[i];
        let mut consumed: usize = 1;
        if c != '\\' {
            out.push(c);
            proof {
                let tail = unescaped(rest.skip(1));
                assert(out@ + tail =~= done + (seq![c] + tail));
            }
        } else if i + 1 < s.len() {
            let next = s[i + 1];
            consumed = 2;
            if next == '.' || next == '-' || next == '_' {
                out.push(next);
                proof {
                    let tail = unescaped(rest.skip(2));
                    assert(out@ + tail =~= done + (seq![next] + tail));
                }
            } else {
                out.push('\\');
                out.push(next);
                proof {
                    let tail = unescaped(rest.skip(2));
                    assert(out@ + tail =~= done + (seq!['\\', next] + tail));
                }
            }
        } else {
            proof {
                assert(rest.len() == 1);
                assert(rest.skip(1) =~= Seq::<char>::empty());
                assert(out@ + unescaped(rest.skip(1)) =~= done + unescaped(rest));
            }
        }
        proof {
            assert(rest.skip(consumed as int) =~= s@.skip(i + consumed));
        }
        i += consumed;
    }
    proof {
        assert(s@.skip(i as int) =~= Seq::<char>::empty());
        assert(out@ =~= out@ + unescaped(s@.skip(i as int)));
    }
    out
}

} // verus!
