//! Well-formed names and their attributes.

use vstd::prelude::*;
use crate::cpe::escapes::{ends_in_open_escape, has_open_escape};
use crate::cpe::fs_unescaping::{unescape, unescaped};
use crate::cpe::uri_encoding::{percent_encode, percent_encoded};
use crate::text::{chars_of, string_of};

verus! {

/// The class of platform that a name identifies.
#[derive(Clone, Copy, Debug, PartialEq, Eq, Structural)]
pub enum CpePart {
    Application,
    OperatingSystem,
    HardwareDevice,
}

impl CpePart {
    /// The single letter that stands for the part in both bindings.
    pub open spec fn letter(self) -> char {
        match self {
            CpePart::Application => 'a',
            CpePart::OperatingSystem => 'o',
            CpePart::HardwareDevice => 'h',
        }
    }

    /// The part's letter.
    pub fn to_char(&self) -> (c: char)
        ensures
            c == self.letter(),
    {
        match self {
            CpePart::Application => 'a',
            CpePart::OperatingSystem => 'o',
            CpePart::HardwareDevice => 'h',
        }
    }

    /// The part's letter as a string of its own.
    pub fn to_string(&self) -> (s: String)
        ensures
            s@ == seq![self.letter()],
    {
        let mut chars: Vec<char> = Vec::new();
        chars.push(self.to_char());
        proof {
            assert(chars@ =~= seq![self.letter()]);
        }
        string_of(&chars)
    }
}

/// The value of one attribute of a well-formed name.
#[derive(Clone, Debug)]
pub enum AttributeValue {
    /// The attribute is unconstrained.
    Any,
    /// The attribute does not apply to the platform.
    NotApplicable,
    /// A concrete value. Reserved punctuation in it is escaped by a backslash;
    /// an unescaped `*` or `?` is a wildcard.
    Literal(String),
}

/// An attribute value as the contracts see it.
pub enum Attribute {
    Any,
    NotApplicable,
    Literal(Seq<char>),
}

impl View for AttributeValue {
    type V = Attribute;

    open spec fn view(&self) -> Attribute {
        match self {
            AttributeValue::Any => Attribute::Any,
            AttributeValue::NotApplicable => Attribute::NotApplicable,
            AttributeValue::Literal(text) => Attribute::Literal(text@),
        }
    }
}

impl Attribute {
    /// Whether nothing was said of the attribute: it is `Any`, or a literal
    /// without text, which counts as the same state.
    pub open spec fn is_unset(self) -> bool {
        match self {
            Attribute::Any => true,
            Attribute::NotApplicable => false,
            Attribute::Literal(text) => text.len() == 0,
        }
    }

    /// Whether the attribute is a literal that ends in a backslash with
    /// nothing to escape. The formatted-string binding leaves such a backslash
    /// out.
    pub open spec fn has_open_escape(self) -> bool {
        match self {
            Attribute::Literal(text) => ends_in_open_escape(text),
            _ => false,
        }
    }

    /// The attribute as the URI binding writes it.
    pub open spec fn uri_value(self) -> Seq<char> {
        match self {
            Attribute::Any => Seq::empty(),
            Attribute::NotApplicable => seq!['-'],
            Attribute::Literal(text) => percent_encoded(text),
        }
    }

    /// The attribute as the formatted-string binding writes it.
    pub open spec fn fs_value(self) -> Seq<char> {
        match self {
            Attribute::Any => seq!['*'],
            Attribute::NotApplicable => seq!['-'],
            Attribute::Literal(text) => if text.len() == 0 {
                seq!['*']
            } else {
                unescaped(text)
            },
        }
    }
}

/// The attribute that a text denotes by the convention of the logical values:
/// no text and `ANY` stand for `Any`, `NA` for `NotApplicable`, and every other
/// text for itself.
pub open spec fn classified(text: Seq<char>) -> Attribute {
    if text.len() == 0 || text == seq!['A', 'N', 'Y'] {
        Attribute::Any
    } else if text == seq!['N', 'A'] {
        Attribute::NotApplicable
    } else {
        Attribute::Literal(text)
    }
}

impl AttributeValue {
    /// Classifies a text as `Any`, `NotApplicable` or a literal.
    pub fn from_text(text: String) -> (value: AttributeValue)
        ensures
            value@ == classified(text@),
    {
        let chars = chars_of(text.as_str());
        let n = chars.len();
        if n == 0 {
            AttributeValue::Any
        } else if n == 3 && chars[0] == 'A' && chars[1] == 'N' && chars[2] == 'Y' {
            proof {
                assert(text@ =~= seq!['A', 'N', 'Y']);
            }
            AttributeValue::Any
        } else if n == 2 && chars[0] == 'N' && chars[1] == 'A' {
            proof {
                assert(text@ =~= seq!['N', 'A']);
            }
            AttributeValue::NotApplicable
        } else {
            proof {
                let any = seq!['A', 'N', 'Y'];
                let na = seq!['N', 'A'];
                if text@ == any {
                    assert(any[0] == 'A' && any[1] == 'N' && any[2] == 'Y');
                }
                if text@ == na {
                    assert(na[0] == 'N' && na[1] == 'A');
                }
            }
            AttributeValue::Literal(text)
        }
    }

    /// Whether the attribute is unset.
    pub fn is_unset(&self) -> (unset: bool)
        ensures
            unset == self@.is_unset(),
    {
        match self {
            AttributeValue::Any => true,
            AttributeValue::NotApplicable => false,
            AttributeValue::Literal(text) => text.as_str().is_empty(),
        }
    }

    /// Whether the attribute is a literal that ends in a backslash with
    /// nothing to escape, which the formatted-string binding would leave out
    /// without a word. A caller who takes literals from others asks this
    /// before binding.
    pub fn has_open_escape(&self) -> (open: bool)
        ensures
            open == self@.has_open_escape(),
    {
        match self {
            AttributeValue::Literal(text) => {
                let chars = chars_of(text.as_str());
                has_open_escape(&chars)
            },
            _ => false,
        }
    }

    /// The attribute as the URI binding writes it: nothing for `Any`, a
    /// hyphen for `NotApplicable`, and a literal percent-encoded.
    pub fn bind_for_uri(&self) -> (bound: String)
        ensures
            bound@ == self@.uri_value(),
    {
        string_of(&self.uri_chars())
    }

    /// The attribute as the formatted-string binding writes it: an asterisk
    /// where it is unset, a hyphen for `NotApplicable`, and a literal with its
    /// escapes rewritten.
    pub fn bind_for_fs(&self) -> (bound: String)
        ensures
            bound@ == self@.fs_value(),
    {
        string_of(&self.fs_chars())
    }

    /// The characters that the URI binding writes for the attribute.
    pub fn uri_chars(&self) -> (out: Vec<char>)
        ensures
            out@ == self@.uri_value(),
    {
        match self {
            AttributeValue::Any => Vec::new(),
            AttributeValue::NotApplicable => {
                let mut out: Vec<char> = Vec::new();
                out.push('-');
                proof {
                    assert(out@ =~= seq!['-']);
                }
                out
            },
            AttributeValue::Literal(text) => {
                let chars = chars_of(text.as_str());
                percent_encode(&chars)
            },
        }
    }

    /// The characters that the formatted-string binding writes for the
    /// attribute.
    pub fn fs_chars(&self) -> (out: Vec<char>)
        ensures
            out@ == self@.fs_value(),
    {
        match self {
            AttributeValue::Any => {
                let mut out: Vec<char> = Vec::new();
                out.push('*');
                proof {
                    assert(out@ =~= seq!['*']);
                }
                out
            },
            AttributeValue::NotApplicable => {
                let mut out: Vec<char> = Vec::new();
                out.push('-');
                proof {
                    assert(out@ =~= seq!['-']);
                }
                out
            },
            AttributeValue::Literal(text) => {
                let chars = chars_of(text.as_str());
                if chars.len() == 0 {
                    let mut out: Vec<char> = Vec::new();
                    out.push('*');
                    proof {
                        assert(out@ =~= seq!['*']);
                    }
                    out
                } else {
                    unescape(&chars)
                }
            },
        }
    }
}

/// A well-formed name: the part and ten attributes.
#[derive(Clone, Debug)]
pub struct CpeWfn {
    pub part: CpePart,
    pub vendor: AttributeValue,
    pub product: AttributeValue,
    pub version: AttributeValue,
    pub update: AttributeValue,
    pub edition: AttributeValue,
    pub language: AttributeValue,
    pub sw_edition: AttributeValue,
    pub target_sw: AttributeValue,
    pub target_hw: AttributeValue,
    pub other: AttributeValue,
}

/// A well-formed name as the contracts see it.
pub struct Wfn {
    pub part: CpePart,
    pub vendor: Attribute,
    pub product: Attribute,
    pub version: Attribute,
    pub update: Attribute,
    pub edition: Attribute,
    pub language: Attribute,
    pub sw_edition: Attribute,
    pub target_sw: Attribute,
    pub target_hw: Attribute,
    pub other: Attribute,
}

impl View for CpeWfn {
    type V = Wfn;

    open spec fn view(&self) -> Wfn {
        Wfn {
            part: self.part,
            vendor: self.vendor@,
            product: self.product@,
            version: self.version@,
            update: self.update@,
            edition: self.edition@,
            language: self.language@,
            sw_edition: self.sw_edition@,
            target_sw: self.target_sw@,
            target_hw: self.target_hw@,
            other: self.other@,
        }
    }
}

impl Wfn {
    /// Whether the four attributes that CPE 2.2 has no component for are all
    /// unset, so that the edition stands alone in the URI.
    pub open spec fn has_plain_edition(self) -> bool {
        self.sw_edition.is_unset() && self.target_sw.is_unset() && self.target_hw.is_unset()
            && self.other.is_unset()
    }

    /// Whether one of the ten attributes is a literal that ends in a backslash
    /// with nothing to escape.
    pub open spec fn has_open_escape(self) -> bool {
        self.vendor.has_open_escape() || self.product.has_open_escape()
            || self.version.has_open_escape() || self.update.has_open_escape()
            || self.edition.has_open_escape() || self.language.has_open_escape()
            || self.sw_edition.has_open_escape() || self.target_sw.has_open_escape()
            || self.target_hw.has_open_escape() || self.other.has_open_escape()
    }

    /// The last component of the URI: the edition alone, or the edition and
    /// the four extended attributes, each behind a tilde.
    pub open spec fn edition_block(self) -> Seq<char> {
        if self.has_plain_edition() {
            self.edition.uri_value()
        } else {
            seq!['~'] + self.edition.uri_value() + seq!['~'] + self.sw_edition.uri_value()
                + seq!['~'] + self.target_sw.uri_value() + seq!['~']
                + self.target_hw.uri_value() + seq!['~'] + self.other.uri_value()
        }
    }

    /// The URI with all of its seven components, before the trailing colon is
    /// looked at.
    pub open spec fn uri_assembled(self) -> Seq<char> {
        seq!['c', 'p', 'e', ':', '/'] + seq![self.part.letter()] + seq![':']
            + self.vendor.uri_value() + seq![':'] + self.product.uri_value() + seq![':']
            + self.version.uri_value() + seq![':'] + self.update.uri_value() + seq![':']
            + self.edition_block()
    }

    /// The URI binding of the name.
    pub open spec fn uri_binding(self) -> Seq<char> {
        without_trailing_colon(self.uri_assembled())
    }

    /// The formatted-string binding of the name.
    pub open spec fn fs_binding(self) -> Seq<char> {
        seq!['c', 'p', 'e', ':', '2', '.', '3', ':'] + seq![self.part.letter()] + seq![':']
            + self.vendor.fs_value() + seq![':'] + self.product.fs_value() + seq![':']
            + self.version.fs_value() + seq![':'] + self.update.fs_value() + seq![':']
            + self.edition.fs_value() + seq![':'] + self.language.fs_value() + seq![':']
            + self.sw_edition.fs_value() + seq![':'] + self.target_sw.fs_value() + seq![':']
            + self.target_hw.fs_value() + seq![':'] + self.other.fs_value()
    }
}

/// The text without its last character where that is a colon, and the text
/// itself otherwise.
pub open spec fn without_trailing_colon(s: Seq<char>) -> Seq<char> {
    if s.len() > 0 && s.last() == ':' {
        s.drop_last()
    } else {
        s
    }
}

/// Appends `c` and then the characters of `piece` to `out`.
fn push_field(out: &mut Vec<char>, c: char, piece: Vec<char>)
    ensures
        final(out)@ == old(out)@ + seq![c] + piece@,
{
    let mut piece = piece;
    out.push(c);
    out.append(&mut piece);
    proof {
        assert(old(out)@.push(c) =~= old(out)@ + seq![c]);
    }
}

impl CpeWfn {
    /// A name with the given part, vendor, product and version, each text read
    /// by the convention of `classified`, and every other attribute `Any`.
    pub fn new(part: CpePart, vendor: String, product: String, version: String) -> (wfn: CpeWfn)
        ensures
            wfn@ == (Wfn {
                part,
                vendor: classified(vendor@),
                product: classified(product@),
                version: classified(version@),
                update: Attribute::Any,
                edition: Attribute::Any,
                language: Attribute::Any,
                sw_edition: Attribute::Any,
                target_sw: Attribute::Any,
                target_hw: Attribute::Any,
                other: Attribute::Any,
            }),
    {
        CpeWfn {
            part,
            vendor: AttributeValue::from_text(vendor),
            product: AttributeValue::from_text(product),
            version: AttributeValue::from_text(version),
            update: AttributeValue::Any,
            edition: AttributeValue::Any,
            language: AttributeValue::Any,
            sw_edition: AttributeValue::Any,
            target_sw: AttributeValue::Any,
            target_hw: AttributeValue::Any,
            other: AttributeValue::Any,
        }
    }

    /// Whether one of the attributes ends in a backslash with nothing to
    /// escape, so that the formatted string would not hold all of the name.
    pub fn has_open_escape(&self) -> (open: bool)
        ensures
            open == self@.has_open_escape(),
    {
        self.vendor.has_open_escape() || self.product.has_open_escape()
            || self.version.has_open_escape() || self.update.has_open_escape()
            || self.edition.has_open_escape() || self.language.has_open_escape()
            || self.sw_edition.has_open_escape() || self.target_sw.has_open_escape()
            || self.target_hw.has_open_escape() || self.other.has_open_escape()
    }

    /// The characters of the last component of the URI.
    fn edition_block_chars(&self) -> (out: Vec<char>)
        ensures
            out@ == self@.edition_block(),
    {
        if self.sw_edition.is_unset() && self.target_sw.is_unset() && self.target_hw.is_unset()
            && self.other.is_unset() {
            self.edition.uri_chars()
        } else {
            let mut out: Vec<char> = Vec::new();
            push_field(&mut out, '~', self.edition.uri_chars());
            push_field(&mut out, '~', self.sw_edition.uri_chars());
            push_field(&mut out, '~', self.target_sw.uri_chars());
            push_field(&mut out, '~', self.target_hw.uri_chars());
            push_field(&mut out, '~', self.other.uri_chars());
            proof {
                assert(Seq::<char>::empty() + seq!['~'] =~= seq!['~']);
            }
            out
        }
    }

    /// Binds the name to a URI of CPE 2.2.
    pub fn bind_to_uri_2_2(&self) -> (uri: String)
        ensures
            uri@ == self@.uri_binding(),
    {
        let mut out: Vec<char> = Vec::new();
        out.push('c');
        out.push('p');
        out.push('e');
        out.push(':');
        out.push('/');
        out.push(self.part.to_char());
        proof {
            assert(out@ =~= seq!['c', 'p', 'e', ':', '/'] + seq![self.part.letter()]);
        }
        push_field(&mut out, ':', self.vendor.uri_chars());
        push_field(&mut out, ':', self.product.uri_chars());
        push_field(&mut out, ':', self.version.uri_chars());
        push_field(&mut out, ':', self.update.uri_chars());
        push_field(&mut out, ':', self.edition_block_chars());
        let n = out.len();
        if n > 0 && out[n - 1] == ':' {
            out.pop();
        }
        string_of(&out)
    }

    /// Binds the name to a formatted string of CPE 2.3.
    pub fn bind_to_fs_2_3(&self) -> (fs: String)
        ensures
            fs@ == self@.fs_binding(),
    {
        let mut out: Vec<char> = Vec::new();
        out.push('c');
        out.push('p');
        out.push('e');
        out.push(':');
        out.push('2');
        out.push('.');
        out.push('3');
        out.push(':');
        out.push(self.part.to_char());
        proof {
            assert(out@ =~= seq!['c', 'p', 'e', ':', '2', '.', '3', ':'] + seq![
                self.part.letter(),
            ]);
        }
        push_field(&mut out, ':', self.vendor.fs_chars());
        push_field(&mut out, ':', self.product.fs_chars());
        push_field(&mut out, ':', self.version.fs_chars());
        push_field(&mut out, ':', self.update.fs_chars());
        push_field(&mut out, ':', self.edition.fs_chars());
        push_field(&mut out, ':', self.language.fs_chars());
        push_field(&mut out, ':', self.sw_edition.fs_chars());
        push_field(&mut out, ':', self.target_sw.fs_chars());
        push_field(&mut out, ':', self.target_hw.fs_chars());
        push_field(&mut out, ':', self.other.fs_chars());
        string_of(&out)
    }
}

} // verus!
