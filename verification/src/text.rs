//! Conversions between `String` and the character sequences that the rest of
//! the crate computes on.

use vstd::prelude::*;
use vstd::string::*;
use vstd::std_specs::iter::IteratorSpec;

verus! {

/// The characters of `s`, in order.
pub fn chars_of(s: &str) -> (out: Vec<char>)
    ensures
        out@ == s@,
{
    broadcast use group_string_axioms;
    let mut out: Vec<char> = Vec::new();
    let mut it = s.chars();
    loop
        invariant
            out@ + it.remaining() == s@,
            it.obeys_prophetic_iter_laws(),
            it.decrease() is Some,
        ensures
            out@ == s@,
        decreases it.decrease()->0,
    {
        match it.next() {
            Some(c) => {
                out.push(c);
            },
            None => {
                assert(out@ =~= out@ + it.remaining());
                break;
            },
        }
    }
    out
}

/// `String::push` of the standard library: the character is appended at the
/// end of the string, and nothing else in it changes.
pub assume_specification[ String::push ](s: &mut String, ch: char)
    ensures
        final(s)@ == old(s)@.push(ch),
;

/// A `String` holding exactly the characters of `chars`, in order.
pub fn string_of(chars: &Vec<char>) -> (out: String)
    ensures
        out@ == chars@,
{
    let mut out = String::new();
    let mut i: usize = 0;
    while i < chars.len()
        invariant
            i <= chars.len(),
            out@ == chars@.subrange(0, i as int),
        decreases chars.len() - i,
    {
        out.push(chars[i]);
        i += 1;
    }
    out
}

/// The texts of a list of strings.
pub open spec fn texts(strings: Seq<String>) -> Seq<Seq<char>> {
    Seq::new(strings.len(), |i: int| strings[i]@)
}

/// The text with every occurrence of the character `from` replaced by the
/// text `to`.
pub open spec fn replaced(s: Seq<char>, from: char, to: Seq<char>) -> Seq<char>
    decreases s.len(),
{
    if s.len() == 0 {
        Seq::empty()
    } else {
        (if s[0] == from {
            to
        } else {
            seq![s[0]]
        }) + replaced(s.skip(1), from, to)
    }
}

/// Replaces every occurrence of `from` in `s` by `to`.
pub fn replace_char(s: &Vec<char>, from: char, to: &Vec<char>) -> (out: Vec<char>)
    ensures
        out@ == replaced(s@, from, to@),
{
    let mut out: Vec<char> = Vec::new();
    let mut i: usize = 0;
    proof {
        assert(s@.skip(0) =~= s@);
        assert(out@ + replaced(s@, from, to@) =~= replaced(s@, from, to@));
    }
    while i < s.len()
        invariant
            i <= s.len(),
            out@ + replaced(s@.skip(i as int), from, to@) == replaced(s@, from, to@),
        decreases s.len() - i,
    {
        let ghost rest = s@.skip(i as int);
        let ghost done = out@;
        let c = s[i];
        if c == from {
            let mut j: usize = 0;
            while j < to.len()
                invariant
                    j <= to.len(),
                    out@ == done + to@.subrange(0, j as int),
                decreases to.len() - j,
            {
                out.push(to[j]);
                proof {
                    assert(to@.subrange(0, j + 1) =~= to@.subrange(0, j as int).push(to@[j as int]));
                }
                j += 1;
            }
            proof {
                assert(to@.subrange(0, j as int) =~= to@);
            }
        } else {
            out.push(c);
        }
        proof {
            let piece = if c == from {
                to@
            } else {
                seq![c]
            };
            let tail = replaced(rest.skip(1), from, to@);
            assert(rest.skip(1) =~= s@.skip(i + 1));
            assert(out@ =~= done + piece);
            assert(out@ + tail =~= done + (piece + tail));
        }
        i += 1;
    }
    proof {
        assert(s@.skip(i as int) =~= Seq::<char>::empty());
        assert(out@ =~= out@ + replaced(s@.skip(i as int), from, to@));
    }
    out
}

/// Replacing a character works piece by piece.
pub proof fn lemma_replaced_concat(a: Seq<char>, b: Seq<char>, from: char, to: Seq<char>)
    ensures
        replaced(a + b, from, to) == replaced(a, from, to) + replaced(b, from, to),
    decreases a.len(),
{
    if a.len() == 0 {
        assert(a + b =~= b);
        assert(replaced(a, from, to) + replaced(b, from, to) =~= replaced(b, from, to));
    } else {
        assert((a + b).skip(1) =~= a.skip(1) + b);
        lemma_replaced_concat(a.skip(1), b, from, to);
        let head = if a[0] == from {
            to
        } else {
            seq![a[0]]
        };
        assert(head + (replaced(a.skip(1), from, to) + replaced(b, from, to)) =~= (head + replaced(
            a.skip(1),
            from,
            to,
        )) + replaced(b, from, to));
    }
}

/// A text that does not hold a character is left as it is when that
/// character is replaced.
pub proof fn lemma_replaced_absent(s: Seq<char>, from: char, to: Seq<char>)
    requires
        !s.contains(from),
    ensures
        replaced(s, from, to) == s,
    decreases s.len(),
{
    if s.len() == 0 {
        assert(replaced(s, from, to) =~= s);
    } else {
        assert(s[0] != from);
        assert forall|j: int| 0 <= j < s.skip(1).len() implies s.skip(1)[j] != from by {
            assert(s.skip(1)[j] == s[j + 1]);
        }
        lemma_replaced_absent(s.skip(1), from, to);
        assert(seq![s[0]] + s.skip(1) =~= s);
    }
}

/// Replacing a character in a text of one character.
pub proof fn lemma_replaced_single(c: char, from: char, to: Seq<char>)
    ensures
        replaced(seq![c], from, to) == if c == from {
            to
        } else {
            seq![c]
        },
{
    let rest = seq![c].skip(1);
    assert(rest.len() == 0);
    assert(replaced(rest, from, to) =~= Seq::<char>::empty());
    let head = if c == from {
        to
    } else {
        seq![c]
    };
    assert(head + Seq::<char>::empty() =~= head);
}

/// How often `c` occurs in the text.
pub open spec fn occurrences(s: Seq<char>, c: char) -> nat
    decreases s.len(),
{
    if s.len() == 0 {
        0
    } else {
        (if s[0] == c {
            1nat
        } else {
            0nat
        }) + occurrences(s.skip(1), c)
    }
}

/// The occurrences in two texts add up in their concatenation.
pub proof fn lemma_occurrences_concat(a: Seq<char>, b: Seq<char>, c: char)
    ensures
        occurrences(a + b, c) == occurrences(a, c) + occurrences(b, c),
    decreases a.len(),
{
    if a.len() == 0 {
        assert(a + b =~= b);
    } else {
        assert((a + b).skip(1) =~= a.skip(1) + b);
        lemma_occurrences_concat(a.skip(1), b, c);
    }
}

/// The occurrences in a text of one character.
pub proof fn lemma_occurrences_single(x: char, c: char)
    ensures
        occurrences(seq![x], c) == if x == c {
            1nat
        } else {
            0nat
        },
{
    let rest = seq![x].skip(1);
    assert(rest.len() == 0);
    assert(occurrences(rest, c) == 0);
}

/// The index of the first occurrence of `c` in the text, or the length of
/// the text where `c` does not occur.
pub open spec fn first_index_of(s: Seq<char>, c: char) -> int
    decreases s.len(),
{
    if s.len() == 0 {
        0
    } else if s[0] == c {
        0
    } else {
        1 + first_index_of(s.skip(1), c)
    }
}

/// `first_index_of` is the least index that holds `c`, and the length where
/// there is none.
pub proof fn lemma_first_index_of(s: Seq<char>, c: char)
    ensures
        0 <= first_index_of(s, c) <= s.len(),
        forall|j: int| 0 <= j < first_index_of(s, c) ==> s[j] != c,
        first_index_of(s, c) < s.len() ==> s[first_index_of(s, c)] == c,
        first_index_of(s, c) < s.len() <==> s.contains(c),
    decreases s.len(),
{
    if s.len() == 0 {
    } else if s[0] == c {
        assert(s.contains(c));
    } else {
        let rest = s.skip(1);
        lemma_first_index_of(rest, c);
        let k = first_index_of(rest, c);
        assert forall|j: int| 0 <= j < 1 + k implies s[j] != c by {
            if j > 0 {
                assert(rest[j - 1] == s[j]);
            }
        }
        if k < rest.len() {
            assert(rest[k] == s[k + 1]);
            assert(s.contains(c));
        } else {
            if s.contains(c) {
                let j = choose|j: int| 0 <= j < s.len() && s[j] == c;
                assert(rest[j - 1] == c);
                assert(rest.contains(c));
            }
        }
    }
}

/// The text before the first occurrence of `sep`; the whole text where `sep`
/// does not occur.
pub open spec fn before_first(s: Seq<char>, sep: char) -> Seq<char> {
    s.take(first_index_of(s, sep))
}

/// The text behind the first occurrence of `sep`; nothing where `sep` does
/// not occur.
pub open spec fn after_first(s: Seq<char>, sep: char) -> Seq<char> {
    if first_index_of(s, sep) < s.len() {
        s.skip(first_index_of(s, sep) + 1)
    } else {
        Seq::empty()
    }
}

/// The index of the first occurrence of `c` in `s` at or behind `from`, or
/// the length of `s` where there is none.
pub fn find_from(s: &Vec<char>, c: char, from: usize) -> (at: usize)
    requires
        from <= s.len(),
    ensures
        at == from + first_index_of(s@.skip(from as int), c),
        from <= at <= s.len(),
{
    let mut i: usize = from;
    proof {
        lemma_first_index_of(s@.skip(from as int), c);
    }
    while i < s.len() && s[i] != c
        invariant
            from <= i <= s.len(),
            from + first_index_of(s@.skip(from as int), c) == i + first_index_of(
                s@.skip(i as int),
                c,
            ),
        decreases s.len() - i,
    {
        proof {
            assert(s@.skip(i as int).skip(1) =~= s@.skip(i + 1));
        }
        i += 1;
    }
    proof {
        let rest = s@.skip(i as int);
        if i < s.len() {
            assert(rest[0] == c);
        }
    }
    i
}

/// Whether `c` occurs in `s`.
pub fn holds_char(s: &str, c: char) -> (found: bool)
    ensures
        found == s@.contains(c),
{
    let chars = chars_of(s);
    proof {
        assert(chars@.skip(0) =~= chars@);
        lemma_first_index_of(chars@, c);
    }
    find_from(&chars, c, 0) < chars.len()
}

/// The characters of `s` from `from` up to `to`.
pub fn slice_of(s: &Vec<char>, from: usize, to: usize) -> (out: Vec<char>)
    requires
        from <= to <= s.len(),
    ensures
        out@ == s@.subrange(from as int, to as int),
{
    let mut out: Vec<char> = Vec::new();
    let mut i: usize = from;
    while i < to
        invariant
            from <= i <= to,
            to <= s.len(),
            out@ == s@.subrange(from as int, i as int),
        decreases to - i,
    {
        out.push(s[i]);
        proof {
            assert(s@.subrange(from as int, i + 1) =~= s@.subrange(from as int, i as int).push(
                s@[i as int],
            ));
        }
        i += 1;
    }
    out
}

} // verus!
