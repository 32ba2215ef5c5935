//! What holds of the URI binding for every well-formed name.

use vstd::prelude::*;
use crate::cpe::escapes::ends_in_open_escape;
use crate::cpe::uri_encoding::{
    escape_replacement,
    escapes_encoded,
    percent_encoded,
    reserved_code,
    wildcard_encoded_char,
    wildcard_sentinel,
    wildcards_encoded,
};
use crate::cpe::wfn::{Attribute, Wfn};
use crate::text::{lemma_occurrences_concat, lemma_occurrences_single, occurrences};

verus! {

/// The number that a lower-case hexadecimal digit stands for.
pub open spec fn hex_digit_value(c: char) -> int {
    if '0' <= c && c <= '9' {
        c as int - '0' as int
    } else {
        10 + c as int - 'a' as int
    }
}

/// Whether `c` is a lower-case hexadecimal digit.
pub open spec fn is_hex_digit(c: char) -> bool {
    ('0' <= c && c <= '9') || ('a' <= c && c <= 'f')
}

/// The percent code of a reserved character is its code point, written with
/// two lower-case hexadecimal digits.
pub proof fn lemma_reserved_code_is_code_point(c: char)
    ensures
        reserved_code(c) matches Some((high, low)) ==> is_hex_digit(high) && is_hex_digit(low)
            && 16 * hex_digit_value(high) + hex_digit_value(low) == c as int,
{
}

/// No reserved character has the percent code of a wildcard sentinel: the codes
/// `%01` and `%02` come from unescaped wildcards alone.
pub proof fn lemma_sentinels_differ_from_reserved_codes(wildcard: char, escaped: char)
    requires
        wildcard_sentinel(wildcard) is Some,
        escape_replacement(escaped) is Some,
    ensures
        wildcard_sentinel(wildcard)->0 != escape_replacement(escaped)->0,
{
    let sentinel = wildcard_sentinel(wildcard)->0;
    let replacement = escape_replacement(escaped)->0;
    if escaped == '.' {
        assert(replacement.len() == 1);
        assert(sentinel.len() == 3);
    } else {
        assert(sentinel[1] == '0');
        assert(replacement[1] != '0');
    }
}

/// Behind a text that leaves no escape open, the resolution of escapes starts
/// afresh.
pub proof fn lemma_escapes_encoded_concat(a: Seq<char>, b: Seq<char>)
    requires
        !ends_in_open_escape(a),
    ensures
        escapes_encoded(a + b) == escapes_encoded(a) + escapes_encoded(b),
    decreases a.len(),
{
    if a.len() == 0 {
        assert(a + b =~= b);
        assert(escapes_encoded(a) + escapes_encoded(b) =~= escapes_encoded(b));
    } else if a[0] == '\\' && a.len() >= 2 && escape_replacement(a[1]) is Some {
        let piece = escape_replacement(a[1])->0;
        assert((a + b).skip(2) =~= a.skip(2) + b);
        assert((a + b)[1] == a[1]);
        lemma_escapes_encoded_concat(a.skip(2), b);
        assert(piece + (escapes_encoded(a.skip(2)) + escapes_encoded(b)) =~= (piece
            + escapes_encoded(a.skip(2))) + escapes_encoded(b));
    } else {
        assert((a + b).skip(1) =~= a.skip(1) + b);
        assert((a + b)[0] == a[0]);
        if a[0] == '\\' {
            // The backslash escapes a character that the table does not know,
            // which is no backslash: it is read on its own, and so is what
            // follows.
            assert(a.len() >= 2);
            assert((a + b)[1] == a[1]);
            assert(a[1] != '\\');
            assert(a.skip(1)[0] == a[1]);
            assert(a.skip(1).skip(1) =~= a.skip(2));
        }
        lemma_escapes_encoded_concat(a.skip(1), b);
        assert(seq![a[0]] + (escapes_encoded(a.skip(1)) + escapes_encoded(b)) =~= (seq![a[0]]
            + escapes_encoded(a.skip(1))) + escapes_encoded(b));
    }
}

/// The wildcard substitution works character by character.
pub proof fn lemma_wildcards_encoded_concat(a: Seq<char>, b: Seq<char>)
    ensures
        wildcards_encoded(a + b) == wildcards_encoded(a) + wildcards_encoded(b),
    decreases a.len(),
{
    if a.len() == 0 {
        assert(a + b =~= b);
        assert(wildcards_encoded(a) + wildcards_encoded(b) =~= wildcards_encoded(b));
    } else {
        assert((a + b).skip(1) =~= a.skip(1) + b);
        lemma_wildcards_encoded_concat(a.skip(1), b);
        let head = wildcard_encoded_char(a[0]);
        assert(head + (wildcards_encoded(a.skip(1)) + wildcards_encoded(b)) =~= (head
            + wildcards_encoded(a.skip(1))) + wildcards_encoded(b));
    }
}

/// The wildcard substitution of a single character.
pub proof fn lemma_wildcards_encoded_single(c: char)
    ensures
        wildcards_encoded(seq![c]) == wildcard_encoded_char(c),
{
    let s = seq![c];
    assert(s.skip(1) =~= Seq::<char>::empty());
    assert(wildcards_encoded(s.skip(1)) =~= Seq::<char>::empty());
    assert(wildcard_encoded_char(c) + Seq::<char>::empty() =~= wildcard_encoded_char(c));
}

/// The wildcard substitution leaves what an escape was replaced by as it is.
pub proof fn lemma_wildcards_keep_replacement(escaped: char)
    requires
        escape_replacement(escaped) is Some,
    ensures
        wildcards_encoded(escape_replacement(escaped)->0) == escape_replacement(escaped)->0,
{
    let piece = escape_replacement(escaped)->0;
    if escaped == '.' {
        lemma_wildcards_encoded_single('.');
    } else {
        let (high, low) = reserved_code(escaped)->0;
        lemma_reserved_code_is_code_point(escaped);
        assert(piece =~= seq!['%'] + seq![high] + seq![low]);
        lemma_wildcards_encoded_concat(seq!['%'] + seq![high], seq![low]);
        lemma_wildcards_encoded_concat(seq!['%'], seq![high]);
        lemma_wildcards_encoded_single('%');
        lemma_wildcards_encoded_single(high);
        lemma_wildcards_encoded_single(low);
    }
}

/// An unescaped wildcard is always written as its sentinel: `*` as `%02` and
/// `?` as `%01`, whatever stands before and behind it.
pub proof fn lemma_unescaped_wildcard_becomes_sentinel(
    before: Seq<char>,
    wildcard: char,
    behind: Seq<char>,
)
    requires
        wildcard == '*' || wildcard == '?',
        !ends_in_open_escape(before),
    ensures
        percent_encoded(before + seq![wildcard] + behind) == percent_encoded(before)
            + wildcard_sentinel(wildcard)->0 + percent_encoded(behind),
{
    let rest = seq![wildcard] + behind;
    assert(before + seq![wildcard] + behind =~= before + rest);
    lemma_escapes_encoded_concat(before, rest);
    assert(rest.skip(1) =~= behind);
    assert(escapes_encoded(rest) == seq![wildcard] + escapes_encoded(behind));
    let a = escapes_encoded(before);
    let b = escapes_encoded(behind);
    assert(a + (seq![wildcard] + b) =~= (a + seq![wildcard]) + b);
    lemma_wildcards_encoded_concat(a + seq![wildcard], b);
    lemma_wildcards_encoded_concat(a, seq![wildcard]);
    lemma_wildcards_encoded_single(wildcard);
}

/// An escaped character that the table knows is always written as its
/// replacement: a reserved character as its percent code, a dot as a dot. In
/// particular an escaped `*` or `?` is never taken for a wildcard.
pub proof fn lemma_escaped_character_becomes_replacement(
    before: Seq<char>,
    escaped: char,
    behind: Seq<char>,
)
    requires
        escape_replacement(escaped) is Some,
        !ends_in_open_escape(before),
    ensures
        percent_encoded(before + seq!['\\', escaped] + behind) == percent_encoded(before)
            + escape_replacement(escaped)->0 + percent_encoded(behind),
{
    let piece = escape_replacement(escaped)->0;
    let rest = seq!['\\', escaped] + behind;
    assert(before + seq!['\\', escaped] + behind =~= before + rest);
    lemma_escapes_encoded_concat(before, rest);
    assert(rest.skip(2) =~= behind);
    assert(rest[1] == escaped);
    assert(escapes_encoded(rest) == piece + escapes_encoded(behind));
    let a = escapes_encoded(before);
    let b = escapes_encoded(behind);
    assert(a + (piece + b) =~= (a + piece) + b);
    lemma_wildcards_encoded_concat(a + piece, b);
    lemma_wildcards_encoded_concat(a, piece);
    lemma_wildcards_keep_replacement(escaped);
}

/// The encoding of a text is empty only where the text is.
pub proof fn lemma_percent_encoded_empty(s: Seq<char>)
    ensures
        percent_encoded(s).len() == 0 <==> s.len() == 0,
{
    if s.len() > 0 {
        let resolved = escapes_encoded(s);
        if s[0] == '\\' && s.len() >= 2 && escape_replacement(s[1]) is Some {
            assert(resolved.len() >= escape_replacement(s[1])->0.len());
        } else {
            assert(resolved.len() >= 1);
        }
        assert(resolved.len() > 0);
        assert(wildcards_encoded(resolved).len() >= wildcard_encoded_char(resolved[0]).len());
    } else {
        assert(escapes_encoded(s) =~= Seq::<char>::empty());
    }
}

/// An attribute is written as nothing in the URI exactly where it is unset.
pub proof fn lemma_uri_value_empty(attribute: Attribute)
    ensures
        attribute.uri_value().len() == 0 <==> attribute.is_unset(),
{
    match attribute {
        Attribute::Literal(text) => {
            lemma_percent_encoded_empty(text);
        },
        _ => {},
    }
}

/// Where the four extended attributes are all `Any`, the last component of
/// the URI is the edition as it is bound, with no tilde added.
pub proof fn lemma_edition_stands_alone(wfn: Wfn)
    requires
        wfn.sw_edition == Attribute::Any,
        wfn.target_sw == Attribute::Any,
        wfn.target_hw == Attribute::Any,
        wfn.other == Attribute::Any,
    ensures
        wfn.edition_block() == wfn.edition.uri_value(),
{
}

/// What an escape is replaced by holds no tilde.
proof fn lemma_replacement_has_no_tilde(escaped: char)
    requires
        escape_replacement(escaped) is Some,
    ensures
        occurrences(escape_replacement(escaped)->0, '~') == 0,
{
    let piece = escape_replacement(escaped)->0;
    if escaped == '.' {
        lemma_occurrences_single('.', '~');
    } else {
        let (high, low) = reserved_code(escaped)->0;
        lemma_reserved_code_is_code_point(escaped);
        assert(piece =~= seq!['%'] + seq![high] + seq![low]);
        lemma_occurrences_concat(seq!['%'] + seq![high], seq![low], '~');
        lemma_occurrences_concat(seq!['%'], seq![high], '~');
        lemma_occurrences_single('%', '~');
        lemma_occurrences_single(high, '~');
        lemma_occurrences_single(low, '~');
    }
}

/// Resolving the escapes adds no tilde to a text.
pub proof fn lemma_escapes_add_no_tilde(s: Seq<char>)
    ensures
        occurrences(escapes_encoded(s), '~') <= occurrences(s, '~'),
    decreases s.len(),
{
    if s.len() == 0 {
    } else if s[0] == '\\' && s.len() >= 2 && escape_replacement(s[1]) is Some {
        let piece = escape_replacement(s[1])->0;
        lemma_replacement_has_no_tilde(s[1]);
        lemma_escapes_add_no_tilde(s.skip(2));
        lemma_occurrences_concat(piece, escapes_encoded(s.skip(2)), '~');
        assert(s.skip(1).skip(1) =~= s.skip(2));
        assert(occurrences(s, '~') >= occurrences(s.skip(1), '~'));
        assert(occurrences(s.skip(1), '~') >= occurrences(s.skip(2), '~'));
    } else {
        lemma_escapes_add_no_tilde(s.skip(1));
        lemma_occurrences_concat(seq![s[0]], escapes_encoded(s.skip(1)), '~');
        lemma_occurrences_single(s[0], '~');
    }
}

/// The wildcard substitution neither adds nor removes a tilde.
pub proof fn lemma_wildcards_keep_tildes(s: Seq<char>)
    ensures
        occurrences(wildcards_encoded(s), '~') == occurrences(s, '~'),
    decreases s.len(),
{
    if s.len() == 0 {
    } else {
        let head = wildcard_encoded_char(s[0]);
        lemma_wildcards_keep_tildes(s.skip(1));
        lemma_occurrences_concat(head, wildcards_encoded(s.skip(1)), '~');
        if wildcard_sentinel(s[0]) is Some {
            let last = head[2];
            assert(head =~= seq!['%'] + seq!['0'] + seq![last]);
            lemma_occurrences_concat(seq!['%'] + seq!['0'], seq![last], '~');
            lemma_occurrences_concat(seq!['%'], seq!['0'], '~');
            lemma_occurrences_single('%', '~');
            lemma_occurrences_single('0', '~');
            lemma_occurrences_single(last, '~');
        } else {
            lemma_occurrences_single(s[0], '~');
        }
    }
}

/// The percent-encoding adds no tilde to a text.
pub proof fn lemma_percent_encoded_adds_no_tilde(s: Seq<char>)
    ensures
        occurrences(percent_encoded(s), '~') <= occurrences(s, '~'),
{
    lemma_escapes_add_no_tilde(s);
    lemma_wildcards_keep_tildes(escapes_encoded(s));
}

impl Attribute {
    /// How many tildes the text of the attribute holds; none where it has no
    /// text.
    pub open spec fn tildes(self) -> nat {
        match self {
            Attribute::Literal(text) => occurrences(text, '~'),
            _ => 0,
        }
    }
}

/// Where the four extended attributes are all `Any` and the edition holds no
/// tilde of its own, there is no tilde in the last component of the URI.
pub proof fn lemma_edition_alone_has_no_tilde(wfn: Wfn)
    requires
        wfn.sw_edition == Attribute::Any,
        wfn.target_sw == Attribute::Any,
        wfn.target_hw == Attribute::Any,
        wfn.other == Attribute::Any,
        wfn.edition.tildes() == 0,
    ensures
        occurrences(wfn.edition_block(), '~') == 0,
{
    match wfn.edition {
        Attribute::Literal(text) => {
            lemma_percent_encoded_adds_no_tilde(text);
        },
        Attribute::NotApplicable => {
            lemma_occurrences_single('-', '~');
        },
        Attribute::Any => {},
    }
}

/// Where one of the four extended attributes is set, the last component of
/// the URI holds all five values, each behind a tilde.
pub proof fn lemma_edition_is_packed(wfn: Wfn)
    requires
        !wfn.has_plain_edition(),
    ensures
        wfn.edition_block().len() == 5 + wfn.edition.uri_value().len()
            + wfn.sw_edition.uri_value().len() + wfn.target_sw.uri_value().len()
            + wfn.target_hw.uri_value().len() + wfn.other.uri_value().len(),
        wfn.edition_block()[0] == '~',
{
}

/// The wildcard substitution leaves no wildcard in a text.
pub proof fn lemma_wildcards_encoded_hold_no_wildcard(s: Seq<char>, wildcard: char)
    requires
        wildcard == '*' || wildcard == '?',
    ensures
        occurrences(wildcards_encoded(s), wildcard) == 0,
    decreases s.len(),
{
    if s.len() > 0 {
        let head = wildcard_encoded_char(s[0]);
        lemma_wildcards_encoded_hold_no_wildcard(s.skip(1), wildcard);
        lemma_occurrences_concat(head, wildcards_encoded(s.skip(1)), wildcard);
        if wildcard_sentinel(s[0]) is Some {
            let last = head[2];
            assert(head =~= seq!['%'] + seq!['0'] + seq![last]);
            lemma_occurrences_concat(seq!['%'] + seq!['0'], seq![last], wildcard);
            lemma_occurrences_concat(seq!['%'], seq!['0'], wildcard);
            lemma_occurrences_single('%', wildcard);
            lemma_occurrences_single('0', wildcard);
            lemma_occurrences_single(last, wildcard);
        } else {
            lemma_occurrences_single(s[0], wildcard);
        }
    }
}

/// No attribute is written with a `*` or a `?` in the URI.
pub proof fn lemma_uri_value_holds_no_wildcard(attribute: Attribute, wildcard: char)
    requires
        wildcard == '*' || wildcard == '?',
    ensures
        occurrences(attribute.uri_value(), wildcard) == 0,
{
    match attribute {
        Attribute::Any => {},
        Attribute::NotApplicable => {
            lemma_occurrences_single('-', wildcard);
        },
        Attribute::Literal(text) => {
            lemma_wildcards_encoded_hold_no_wildcard(escapes_encoded(text), wildcard);
        },
    }
}

/// A separator and an attribute behind a text without wildcards give a text
/// without wildcards.
proof fn lemma_field_holds_no_wildcard(
    text: Seq<char>,
    separator: char,
    attribute: Attribute,
    wildcard: char,
)
    requires
        wildcard == '*' || wildcard == '?',
        separator == ':' || separator == '~',
        occurrences(text, wildcard) == 0,
    ensures
        occurrences(text + seq![separator] + attribute.uri_value(), wildcard) == 0,
{
    lemma_occurrences_concat(text + seq![separator], attribute.uri_value(), wildcard);
    lemma_occurrences_concat(text, seq![separator], wildcard);
    lemma_occurrences_single(separator, wildcard);
    lemma_uri_value_holds_no_wildcard(attribute, wildcard);
}

/// The last component of the URI holds no `*` and no `?`.
pub proof fn lemma_edition_block_holds_no_wildcard(wfn: Wfn, wildcard: char)
    requires
        wildcard == '*' || wildcard == '?',
    ensures
        occurrences(wfn.edition_block(), wildcard) == 0,
{
    if wfn.has_plain_edition() {
        lemma_uri_value_holds_no_wildcard(wfn.edition, wildcard);
    } else {
        let t0 = Seq::<char>::empty();
        let t1 = t0 + seq!['~'] + wfn.edition.uri_value();
        let t2 = t1 + seq!['~'] + wfn.sw_edition.uri_value();
        let t3 = t2 + seq!['~'] + wfn.target_sw.uri_value();
        let t4 = t3 + seq!['~'] + wfn.target_hw.uri_value();
        let t5 = t4 + seq!['~'] + wfn.other.uri_value();
        lemma_field_holds_no_wildcard(t0, '~', wfn.edition, wildcard);
        lemma_field_holds_no_wildcard(t1, '~', wfn.sw_edition, wildcard);
        lemma_field_holds_no_wildcard(t2, '~', wfn.target_sw, wildcard);
        lemma_field_holds_no_wildcard(t3, '~', wfn.target_hw, wildcard);
        lemma_field_holds_no_wildcard(t4, '~', wfn.other, wildcard);
        assert(t0 + seq!['~'] =~= seq!['~']);
        assert(wfn.edition_block() == t5);
    }
}

/// The URI holds no `*` and no `?`: every wildcard of a literal has become
/// its sentinel, and every escaped one its percent code.
pub proof fn lemma_uri_holds_no_wildcard(wfn: Wfn, wildcard: char)
    requires
        wildcard == '*' || wildcard == '?',
    ensures
        occurrences(wfn.uri_binding(), wildcard) == 0,
{
    let scheme = seq!['c', 'p', 'e', ':', '/'];
    let t0 = scheme + seq![wfn.part.letter()];
    assert(occurrences(t0, wildcard) == 0) by {
        let upto_c = seq!['c'];
        let upto_p = upto_c + seq!['p'];
        let upto_e = upto_p + seq!['e'];
        let upto_colon = upto_e + seq![':'];
        let upto_slash = upto_colon + seq!['/'];
        assert(scheme =~= upto_slash);
        lemma_occurrences_single('c', wildcard);
        lemma_occurrences_single('p', wildcard);
        lemma_occurrences_single('e', wildcard);
        lemma_occurrences_single(':', wildcard);
        lemma_occurrences_single('/', wildcard);
        lemma_occurrences_single(wfn.part.letter(), wildcard);
        lemma_occurrences_concat(upto_c, seq!['p'], wildcard);
        lemma_occurrences_concat(upto_p, seq!['e'], wildcard);
        lemma_occurrences_concat(upto_e, seq![':'], wildcard);
        lemma_occurrences_concat(upto_colon, seq!['/'], wildcard);
        lemma_occurrences_concat(upto_slash, seq![wfn.part.letter()], wildcard);
    }
    let t1 = t0 + seq![':'] + wfn.vendor.uri_value();
    let t2 = t1 + seq![':'] + wfn.product.uri_value();
    let t3 = t2 + seq![':'] + wfn.version.uri_value();
    let t4 = t3 + seq![':'] + wfn.update.uri_value();
    let t5 = t4 + seq![':'] + wfn.edition_block();
    lemma_field_holds_no_wildcard(t0, ':', wfn.vendor, wildcard);
    lemma_field_holds_no_wildcard(t1, ':', wfn.product, wildcard);
    lemma_field_holds_no_wildcard(t2, ':', wfn.version, wildcard);
    lemma_field_holds_no_wildcard(t3, ':', wfn.update, wildcard);
    lemma_edition_block_holds_no_wildcard(wfn, wildcard);
    lemma_occurrences_concat(t4 + seq![':'], wfn.edition_block(), wildcard);
    lemma_occurrences_concat(t4, seq![':'], wildcard);
    lemma_occurrences_single(':', wildcard);
    assert(wfn.uri_assembled() == t5);
    if t5.len() > 0 && t5.last() == ':' {
        assert(t5 =~= t5.drop_last() + seq![':']);
        lemma_occurrences_concat(t5.drop_last(), seq![':'], wildcard);
    }
}

/// Whether the text ends with a colon.
pub open spec fn ends_with_colon(s: Seq<char>) -> bool {
    s.len() > 0 && s.last() == ':'
}

/// Whether the last two characters of the text are colons.
pub open spec fn ends_with_two_colons(s: Seq<char>) -> bool {
    s.len() >= 2 && s[s.len() - 1] == ':' && s[s.len() - 2] == ':'
}

/// The URI does not end with a colon, unless the assembled components end
/// with two of them: one colon is taken off, and no more.
pub proof fn lemma_uri_has_no_trailing_colon(wfn: Wfn)
    requires
        !ends_with_two_colons(wfn.uri_assembled()),
    ensures
        !ends_with_colon(wfn.uri_binding()),
{
}

/// The URI ends with a colon exactly where the assembled components end with
/// two.
pub proof fn lemma_uri_trailing_colon(wfn: Wfn)
    ensures
        ends_with_colon(wfn.uri_binding()) <==> ends_with_two_colons(wfn.uri_assembled()),
{
}

} // verus!
