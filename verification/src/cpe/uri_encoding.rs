//! Percent-encoding of a literal attribute text for the URI binding.
//!
//! The encoding is two substitutions, one after the other. The first resolves
//! backslash escapes: an escaped reserved character becomes its percent code
//! and an escaped dot becomes a plain dot. The second replaces the wildcards
//! that are still there, which are exactly the unescaped ones, by their
//! sentinel codes.

use vstd::prelude::*;

verus! {

/// The two hexadecimal digits of the percent code of a reserved punctuation
/// character, `None` for every other character.
pub open spec fn reserved_code(c: char) -> Option<(char, char)> {
    match c {
        '!' => Some(('2', '1')),
        '"' => Some(('2', '2')),
        '#' => Some(('2', '3')),
        '$' => Some(('2', '4')),
        '%' => Some(('2', '5')),
        '&' => Some(('2', '6')),
        '\'' => Some(('2', '7')),
        '(' => Some(('2', '8')),
        ')' => Some(('2', '9')),
        '*' => Some(('2', 'a')),
        '+' => Some(('2', 'b')),
        ',' => Some(('2', 'c')),
        '/' => Some(('2', 'f')),
        ':' => Some(('3', 'a')),
        ';' => Some(('3', 'b')),
        '<' => Some(('3', 'c')),
        '=' => Some(('3', 'd')),
        '>' => Some(('3', 'e')),
        '?' => Some(('3', 'f')),
        '@' => Some(('4', '0')),
        '[' => Some(('5', 'b')),
        '\\' => Some(('5', 'c')),
        ']' => Some(('5', 'd')),
        '^' => Some(('5', 'e')),
        '`' => Some(('6', '0')),
        '{' => Some(('7', 'b')),
        '|' => Some(('7', 'c')),
        '}' => Some(('7', 'd')),
        '~' => Some(('7', 'e')),
        _ => None,
    }
}

/// Looks a character up in the table of reserved punctuation.
pub fn lookup_reserved_code(c: char) -> (code: Option<(char, char)>)
    ensures
        code == reserved_code(c),
{
    match c {
        '!' => Some(('2', '1')),
        '"' => Some(('2', '2')),
        '#' => Some(('2', '3')),
        '$' => Some(('2', '4')),
        '%' => Some(('2', '5')),
        '&' => Some(('2', '6')),
        '\'' => Some(('2', '7')),
        '(' => Some(('2', '8')),
        ')' => Some(('2', '9')),
        '*' => Some(('2', 'a')),
        '+' => Some(('2', 'b')),
        ',' => Some(('2', 'c')),
        '/' => Some(('2', 'f')),
        ':' => Some(('3', 'a')),
        ';' => Some(('3', 'b')),
        '<' => Some(('3', 'c')),
        '=' => Some(('3', 'd')),
        '>' => Some(('3', 'e')),
        '?' => Some(('3', 'f')),
        '@' => Some(('4', '0')),
        '[' => Some(('5', 'b')),
        '\\' => Some(('5', 'c')),
        ']' => Some(('5', 'd')),
        '^' => Some(('5', 'e')),
        '`' => Some(('6', '0')),
        '{' => Some(('7', 'b')),
        '|' => Some(('7', 'c')),
        '}' => Some(('7', 'd')),
        '~' => Some(('7', 'e')),
        _ => None,
    }
}

/// What an escape, a backslash followed by `c`, turns into: `Some` of the
/// replacement where the pair is consumed, `None` where the backslash is an
/// ordinary character and `c` is read on its own.
pub open spec fn escape_replacement(c: char) -> Option<Seq<char>> {
    if c == '.' {
        Some(seq!['.'])
    } else {
        match reserved_code(c) {
            Some((high, low)) => Some(seq!['%', high, low]),
            None => None,
        }
    }
}

/// The text with every escape resolved, scanning from the left.
pub open spec fn escapes_encoded(s: Seq<char>) -> Seq<char>
    decreases s.len(),
{
    if s.len() == 0 {
        Seq::empty()
    } else if s[0] == '\\' && s.len() >= 2 && escape_replacement(s[1]) is Some {
        escape_replacement(s[1])->0 + escapes_encoded(s.skip(2))
    } else {
        seq![s[0]] + escapes_encoded(s.skip(1))
    }
}

/// The sentinel of a wildcard character: `%02` for `*`, `%01` for `?`, and
/// `None` for a character that is no wildcard.
pub open spec fn wildcard_sentinel(c: char) -> Option<Seq<char>> {
    if c == '*' {
        Some(seq!['%', '0', '2'])
    } else if c == '?' {
        Some(seq!['%', '0', '1'])
    } else {
        None
    }
}

/// One character after the wildcard substitution.
pub open spec fn wildcard_encoded_char(c: char) -> Seq<char> {
    match wildcard_sentinel(c) {
        Some(code) => code,
        None => seq![c],
    }
}

/// The text with every `*` and `?` replaced by its sentinel.
pub open spec fn wildcards_encoded(s: Seq<char>) -> Seq<char>
    decreases s.len(),
{
    if s.len() == 0 {
        Seq::empty()
    } else {
        wildcard_encoded_char(s[0]) + wildcards_encoded(s.skip(1))
    }
}

/// The percent-encoding of a literal attribute text: escapes first, then
/// wildcards.
pub open spec fn percent_encoded(s: Seq<char>) -> Seq<char> {
    wildcards_encoded(escapes_encoded(s))
}

/// Resolves the escapes of `s`.
pub fn encode_escapes(s: &Vec<char>) -> (out: Vec<char>)
    ensures
        out@ == escapes_encoded(s@),
{
    let mut out: Vec<char> = Vec::new();
    let mut i: usize = 0;
    proof {
        assert(s@.skip(0) =~= s@);
        assert(out@ + escapes_encoded(s@) =~= escapes_encoded(s@));
    }
    while i < s.len()
        invariant
            i <= s.len(),
            out@ + escapes_encoded(s@.skip(i as int)) == escapes_encoded(s@),
        decreases s.len() - i,
    {
        let ghost rest = s@.skip(i as int);
        let ghost done = out@;
        let c = s[i];
        let mut consumed: usize = 1;
        if c == '\\' && i + 1 < s.len() {
            let next = s[i + 1];
            if next == '.' {
                out.push('.');
                consumed = 2;
            } else {
                match lookup_reserved_code(next) {
                    Some((high, low)) => {
                        out.push('%');
                        out.push(high);
                        out.push(low);
                        consumed = 2;
                    },
                    None => {
                        out.push(c);
                    },
                }
            }
        } else {
            out.push(c);
        }
        proof {
            let tail = escapes_encoded(rest.skip(consumed as int));
            assert(rest.skip(consumed as int) =~= s@.skip(i + consumed));
            if consumed == 2 {
                let piece = escape_replacement(rest[1])->0;
                assert(out@ =~= done + piece);
                assert(out@ + tail =~= done + (piece + tail));
            } else {
                assert(out@ + tail =~= done + (seq![c] + tail));
            }
        }
        i += consumed;
    }
    proof {
        assert(s@.skip(i as int) =~= Seq::<char>::empty());
        assert(out@ =~= out@ + escapes_encoded(s@.skip(i as int)));
    }
    out
}

/// Replaces the wildcards of `s` by their sentinels.
pub fn encode_wildcards(s: &Vec<char>) -> (out: Vec<char>)
    ensures
        out@ == wildcards_encoded(s@),
{
    let mut out: Vec<char> = Vec::new();
    let mut i: usize = 0;
    proof {
        assert(s@.skip(0) =~= s@);
        assert(out@ + wildcards_encoded(s@) =~= wildcards_encoded(s@));
    }
    while i < s.len()
        invariant
            i <= s.len(),
            out@ + wildcards_encoded(s@.skip(i as int)) == wildcards_encoded(s@),
        decreases s.len() - i,
    {
        let ghost rest = s@.skip(i as int);
        let ghost done = out@;
        let c = s[i];
        if c == '*' {
            out.push('%');
            out.push('0');
            out.push('2');
        } else if c == '?' {
            out.push('%');
            out.push('0');
            out.push('1');
        } else {
            out.push(c);
        }
        proof {
            let tail = wildcards_encoded(rest.skip(1));
            assert(rest.skip(1) =~= s@.skip(i + 1));
            assert(out@ =~= done + wildcard_encoded_char(c));
            assert(out@ + tail =~= done + (wildcard_encoded_char(c) + tail));
        }
        i += 1;
    }
    proof {
        assert(s@.skip(i as int) =~= Seq::<char>::empty());
        assert(out@ =~= out@ + wildcards_encoded(s@.skip(i as int)));
    }
    out
}

/// Percent-encodes a literal attribute text.
pub fn percent_encode(s: &Vec<char>) -> (out: Vec<char>)
    ensures
        out@ == percent_encoded(s@),
{
    let resolved = encode_escapes(s);
    encode_wildcards(&resolved)
}

} // verus!
