//! What holds of the formatted-string binding for every well-formed name.

use vstd::prelude::*;
use crate::cpe::escapes::ends_in_open_escape;
use crate::cpe::fs_unescaping::{is_plain_when_escaped, unescaped};
use crate::cpe::wfn::{Attribute, Wfn};
use crate::text::{lemma_occurrences_concat, lemma_occurrences_single, occurrences};

verus! {

/// Behind a text that leaves no escape open, the scan starts afresh.
pub proof fn lemma_unescaped_concat(a: Seq<char>, b: Seq<char>)
    requires
        !ends_in_open_escape(a),
    ensures
        unescaped(a + b) == unescaped(a) + unescaped(b),
    decreases a.len(),
{
    if a.len() == 0 {
        assert(a + b =~= b);
        assert(unescaped(a) + unescaped(b) =~= unescaped(b));
    } else if a[0] != '\\' {
        assert((a + b).skip(1) =~= a.skip(1) + b);
        lemma_unescaped_concat(a.skip(1), b);
        assert(seq![a[0]] + (unescaped(a.skip(1)) + unescaped(b)) =~= (seq![a[0]] + unescaped(
            a.skip(1),
        )) + unescaped(b));
    } else {
        assert((a + b).skip(2) =~= a.skip(2) + b);
        assert((a + b)[1] == a[1]);
        lemma_unescaped_concat(a.skip(2), b);
        let head = if is_plain_when_escaped(a[1]) {
            seq![a[1]]
        } else {
            seq!['\\', a[1]]
        };
        assert(head + (unescaped(a.skip(2)) + unescaped(b)) =~= (head + unescaped(a.skip(2)))
            + unescaped(b));
    }
}

/// An escaped dot, hyphen or underscore is always written without its
/// backslash, whatever stands before and behind it.
pub proof fn lemma_plain_escape_loses_backslash(
    before: Seq<char>,
    escaped: char,
    behind: Seq<char>,
)
    requires
        is_plain_when_escaped(escaped),
        !ends_in_open_escape(before),
    ensures
        unescaped(before + seq!['\\', escaped] + behind) == unescaped(before) + seq![escaped]
            + unescaped(behind),
{
    let rest = seq!['\\', escaped] + behind;
    assert(before + seq!['\\', escaped] + behind =~= before + rest);
    lemma_unescaped_concat(before, rest);
    assert(rest.skip(2) =~= behind);
    assert(rest[1] == escaped);
    assert(unescaped(before) + (seq![escaped] + unescaped(behind)) =~= unescaped(before)
        + seq![escaped] + unescaped(behind));
}

/// Every other escape is always written as it stands, backslash included.
pub proof fn lemma_other_escape_stays(before: Seq<char>, escaped: char, behind: Seq<char>)
    requires
        !is_plain_when_escaped(escaped),
        !ends_in_open_escape(before),
    ensures
        unescaped(before + seq!['\\', escaped] + behind) == unescaped(before) + seq![
            '\\',
            escaped,
        ] + unescaped(behind),
{
    let rest = seq!['\\', escaped] + behind;
    assert(before + seq!['\\', escaped] + behind =~= before + rest);
    lemma_unescaped_concat(before, rest);
    assert(rest.skip(2) =~= behind);
    assert(rest[1] == escaped);
    assert(unescaped(before) + (seq!['\\', escaped] + unescaped(behind)) =~= unescaped(before)
        + seq!['\\', escaped] + unescaped(behind));
}

/// A character that is no backslash and is not escaped is always written as
/// it stands.
pub proof fn lemma_plain_character_stays(before: Seq<char>, c: char, behind: Seq<char>)
    requires
        c != '\\',
        !ends_in_open_escape(before),
    ensures
        unescaped(before + seq![c] + behind) == unescaped(before) + seq![c] + unescaped(behind),
{
    let rest = seq![c] + behind;
    assert(before + seq![c] + behind =~= before + rest);
    lemma_unescaped_concat(before, rest);
    assert(rest.skip(1) =~= behind);
    assert(unescaped(before) + (seq![c] + unescaped(behind)) =~= unescaped(before) + seq![c]
        + unescaped(behind));
}

/// A backslash at the very end, with nothing to escape, is left out.
pub proof fn lemma_lone_backslash_is_dropped(before: Seq<char>)
    requires
        !ends_in_open_escape(before),
    ensures
        unescaped(before + seq!['\\']) == unescaped(before),
{
    lemma_unescaped_concat(before, seq!['\\']);
    assert(unescaped(before) + unescaped(seq!['\\']) =~= unescaped(before));
}

/// Rewriting the escapes a second time changes nothing.
pub proof fn lemma_unescaped_idempotent(s: Seq<char>)
    ensures
        unescaped(unescaped(s)) == unescaped(s),
    decreases s.len(),
{
    if s.len() == 0 {
    } else if s[0] != '\\' {
        let tail = unescaped(s.skip(1));
        lemma_unescaped_idempotent(s.skip(1));
        assert((seq![s[0]] + tail).skip(1) =~= tail);
    } else if s.len() == 1 {
    } else if is_plain_when_escaped(s[1]) {
        let tail = unescaped(s.skip(2));
        lemma_unescaped_idempotent(s.skip(2));
        assert((seq![s[1]] + tail).skip(1) =~= tail);
    } else {
        let tail = unescaped(s.skip(2));
        lemma_unescaped_idempotent(s.skip(2));
        let once = seq!['\\', s[1]] + tail;
        assert(once.skip(2) =~= tail);
        assert(once[1] == s[1]);
    }
}

/// Rewriting the escapes neither adds nor removes a colon.
pub proof fn lemma_unescaped_keeps_colons(s: Seq<char>)
    ensures
        occurrences(unescaped(s), ':') == occurrences(s, ':'),
    decreases s.len(),
{
    if s.len() == 0 {
    } else if s[0] != '\\' {
        lemma_unescaped_keeps_colons(s.skip(1));
        lemma_occurrences_concat(seq![s[0]], unescaped(s.skip(1)), ':');
        lemma_occurrences_single(s[0], ':');
    } else if s.len() == 1 {
        assert(s.skip(1).len() == 0);
        assert(occurrences(s.skip(1), ':') == 0);
        assert(unescaped(s).len() == 0);
    } else {
        let rest = s.skip(1);
        assert(rest.skip(1) =~= s.skip(2));
        assert(rest[0] == s[1]);
        assert(occurrences(s, ':') == occurrences(rest, ':'));
        assert(occurrences(rest, ':') == (if s[1] == ':' {
            1nat
        } else {
            0nat
        }) + occurrences(s.skip(2), ':'));
        lemma_unescaped_keeps_colons(s.skip(2));
        if is_plain_when_escaped(s[1]) {
            lemma_occurrences_concat(seq![s[1]], unescaped(s.skip(2)), ':');
            lemma_occurrences_single(s[1], ':');
        } else {
            assert(seq!['\\', s[1]] =~= seq!['\\'] + seq![s[1]]);
            lemma_occurrences_concat(seq!['\\', s[1]], unescaped(s.skip(2)), ':');
            lemma_occurrences_concat(seq!['\\'], seq![s[1]], ':');
            lemma_occurrences_single('\\', ':');
            lemma_occurrences_single(s[1], ':');
        }
    }
}

impl Attribute {
    /// How many colons the text of the attribute holds; none where it has no
    /// text.
    pub open spec fn colons(self) -> nat {
        match self {
            Attribute::Literal(text) => occurrences(text, ':'),
            _ => 0,
        }
    }
}

/// An attribute is written with as many colons as its text holds.
pub proof fn lemma_fs_value_keeps_colons(attribute: Attribute)
    ensures
        occurrences(attribute.fs_value(), ':') == attribute.colons(),
{
    match attribute {
        Attribute::Any => {
            lemma_occurrences_single('*', ':');
        },
        Attribute::NotApplicable => {
            lemma_occurrences_single('-', ':');
        },
        Attribute::Literal(text) => {
            if text.len() == 0 {
                lemma_occurrences_single('*', ':');
            } else {
                lemma_unescaped_keeps_colons(text);
            }
        },
    }
}

/// A field added to a text adds the separating colon and the colons of the
/// field.
proof fn lemma_field_colons(text: Seq<char>, attribute: Attribute)
    ensures
        occurrences(text + seq![':'] + attribute.fs_value(), ':') == occurrences(text, ':') + 1
            + attribute.colons(),
{
    lemma_occurrences_concat(text + seq![':'], attribute.fs_value(), ':');
    lemma_occurrences_concat(text, seq![':'], ':');
    lemma_occurrences_single(':', ':');
    lemma_fs_value_keeps_colons(attribute);
}

impl Wfn {
    /// How many colons the texts of the ten attributes hold together.
    pub open spec fn colons(self) -> nat {
        self.vendor.colons() + self.product.colons() + self.version.colons()
            + self.update.colons() + self.edition.colons() + self.language.colons()
            + self.sw_edition.colons() + self.target_sw.colons() + self.target_hw.colons()
            + self.other.colons()
    }
}

/// The formatted string holds twelve separating colons, two in `cpe:2.3:` and
/// one before each of the ten attributes, besides the colons of the
/// attributes' own texts.
pub proof fn lemma_fs_colons(wfn: Wfn)
    ensures
        occurrences(wfn.fs_binding(), ':') == 12 + wfn.colons(),
{
    let prefix = seq!['c', 'p', 'e', ':', '2', '.', '3', ':'];
    let t0 = prefix + seq![wfn.part.letter()];
    assert(occurrences(t0, ':') == 2) by {
        assert(t0 =~= seq!['c'] + seq!['p'] + seq!['e'] + seq![':'] + seq!['2'] + seq!['.']
            + seq!['3'] + seq![':'] + seq![wfn.part.letter()]);
        let upto_c = seq!['c'];
        let upto_p = upto_c + seq!['p'];
        let upto_e = upto_p + seq!['e'];
        let upto_colon = upto_e + seq![':'];
        let upto_two = upto_colon + seq!['2'];
        let upto_dot = upto_two + seq!['.'];
        let upto_three = upto_dot + seq!['3'];
        let prefix_again = upto_three + seq![':'];
        lemma_occurrences_single('c', ':');
        lemma_occurrences_single('p', ':');
        lemma_occurrences_single('e', ':');
        lemma_occurrences_single(':', ':');
        lemma_occurrences_single('2', ':');
        lemma_occurrences_single('.', ':');
        lemma_occurrences_single('3', ':');
        lemma_occurrences_single(wfn.part.letter(), ':');
        lemma_occurrences_concat(upto_c, seq!['p'], ':');
        lemma_occurrences_concat(upto_p, seq!['e'], ':');
        lemma_occurrences_concat(upto_e, seq![':'], ':');
        lemma_occurrences_concat(upto_colon, seq!['2'], ':');
        lemma_occurrences_concat(upto_two, seq!['.'], ':');
        lemma_occurrences_concat(upto_dot, seq!['3'], ':');
        lemma_occurrences_concat(upto_three, seq![':'], ':');
        lemma_occurrences_concat(prefix_again, seq![wfn.part.letter()], ':');
    }
    let t1 = t0 + seq![':'] + wfn.vendor.fs_value();
    let t2 = t1 + seq![':'] + wfn.product.fs_value();
    let t3 = t2 + seq![':'] + wfn.version.fs_value();
    let t4 = t3 + seq![':'] + wfn.update.fs_value();
    let t5 = t4 + seq![':'] + wfn.edition.fs_value();
    let t6 = t5 + seq![':'] + wfn.language.fs_value();
    let t7 = t6 + seq![':'] + wfn.sw_edition.fs_value();
    let t8 = t7 + seq![':'] + wfn.target_sw.fs_value();
    let t9 = t8 + seq![':'] + wfn.target_hw.fs_value();
    let t10 = t9 + seq![':'] + wfn.other.fs_value();
    lemma_field_colons(t0, wfn.vendor);
    lemma_field_colons(t1, wfn.product);
    lemma_field_colons(t2, wfn.version);
    lemma_field_colons(t3, wfn.update);
    lemma_field_colons(t4, wfn.edition);
    lemma_field_colons(t5, wfn.language);
    lemma_field_colons(t6, wfn.sw_edition);
    lemma_field_colons(t7, wfn.target_sw);
    lemma_field_colons(t8, wfn.target_hw);
    lemma_field_colons(t9, wfn.other);
    assert(wfn.fs_binding() == t10);
}

/// The number of tokens that the colons of a text separate.
pub open spec fn token_count(s: Seq<char>) -> nat {
    occurrences(s, ':') + 1
}

/// Where no attribute holds a colon in its text, the formatted string has
/// thirteen tokens between its colons: `cpe`, `2.3`, the part and the ten
/// attributes. That is twelve fields behind the leading `cpe`.
pub proof fn lemma_fs_field_count(wfn: Wfn)
    requires
        wfn.colons() == 0,
    ensures
        token_count(wfn.fs_binding()) == 13,
{
    lemma_fs_colons(wfn);
}

} // verus!
