//! Package URLs: `scheme:type/namespace/name@version`.

use vstd::prelude::*;
use vstd::string::*;
use crate::text::{
    chars_of,
    lemma_replaced_absent,
    lemma_replaced_concat,
    lemma_replaced_single,
    replaced,
    string_of,
};

verus! {

/// A package URL, held by its components.
pub struct PackageUrl {
    scheme: String,
    package_type: String,
    namespace: String,
    name: String,
    version: String,
}

/// A package URL as the contracts see it.
pub struct Purl {
    pub scheme: Seq<char>,
    pub package_type: Seq<char>,
    pub namespace: Seq<char>,
    pub name: Seq<char>,
    pub version: Seq<char>,
}

impl View for PackageUrl {
    type V = Purl;

    closed spec fn view(&self) -> Purl {
        Purl {
            scheme: self.scheme@,
            package_type: self.package_type@,
            namespace: self.namespace@,
            name: self.name@,
            version: self.version@,
        }
    }
}

/// One character of a version as the URL writes it: the three characters of
/// version ranges that a URL cannot hold are percent-encoded.
pub open spec fn version_char_encoded(c: char) -> Seq<char> {
    if c == '[' {
        seq!['%', '5', 'B']
    } else if c == ',' {
        seq!['%', '2', 'C']
    } else if c == ')' {
        seq!['%', '2', '9']
    } else {
        seq![c]
    }
}

/// A version as the URL writes it.
pub open spec fn version_encoded(s: Seq<char>) -> Seq<char>
    decreases s.len(),
{
    if s.len() == 0 {
        Seq::empty()
    } else {
        version_char_encoded(s[0]) + version_encoded(s.skip(1))
    }
}

impl Purl {
    /// The namespace with the slash behind it, or nothing where there is no
    /// namespace.
    pub open spec fn namespace_part(self) -> Seq<char> {
        if self.namespace.len() > 0 {
            self.namespace + seq!['/']
        } else {
            Seq::empty()
        }
    }

    /// The version with the `@` before it, or nothing where there is no
    /// version.
    pub open spec fn version_part(self) -> Seq<char> {
        if self.version.len() > 0 {
            seq!['@'] + version_encoded(self.version)
        } else {
            Seq::empty()
        }
    }

    /// The URL as text.
    pub open spec fn url(self) -> Seq<char> {
        self.scheme + seq![':'] + self.package_type + seq!['/'] + self.namespace_part()
            + self.name + self.version_part()
    }
}

/// The encoding of a version is what three replacements give, one after the
/// other: `[` by `%5B`, then `,` by `%2C`, then `)` by `%29`.
pub proof fn lemma_version_encoded_by_replacements(s: Seq<char>)
    ensures
        version_encoded(s) == replaced(
            replaced(replaced(s, '[', seq!['%', '5', 'B']), ',', seq!['%', '2', 'C']),
            ')',
            seq!['%', '2', '9'],
        ),
    decreases s.len(),
{
    let open = seq!['%', '5', 'B'];
    let comma = seq!['%', '2', 'C'];
    let close = seq!['%', '2', '9'];
    if s.len() == 0 {
        assert(replaced(s, '[', open) =~= Seq::<char>::empty());
        assert(replaced(Seq::<char>::empty(), ',', comma) =~= Seq::<char>::empty());
        assert(replaced(Seq::<char>::empty(), ')', close) =~= Seq::<char>::empty());
    } else {
        lemma_version_encoded_by_replacements(s.skip(1));
        let head1 = if s[0] == '[' {
            open
        } else {
            seq![s[0]]
        };
        let tail1 = replaced(s.skip(1), '[', open);
        lemma_replaced_concat(head1, tail1, ',', comma);
        let head2 = replaced(head1, ',', comma);
        let tail2 = replaced(tail1, ',', comma);
        lemma_replaced_concat(head2, tail2, ')', close);
        assert(replaced(head2, ')', close) == version_char_encoded(s[0])) by {
            if s[0] == '[' {
                lemma_replaced_absent(open, ',', comma);
                lemma_replaced_absent(open, ')', close);
            } else if s[0] == ',' {
                lemma_replaced_single(',', ',', comma);
                lemma_replaced_absent(comma, ')', close);
            } else if s[0] == ')' {
                lemma_replaced_single(')', ',', comma);
                lemma_replaced_single(')', ')', close);
            } else {
                lemma_replaced_single(s[0], ',', comma);
                lemma_replaced_single(s[0], ')', close);
            }
        }
    }
}

/// Encodes a version for the URL.
pub fn encode_version(s: &Vec<char>) -> (out: Vec<char>)
    ensures
        out@ == version_encoded(s@),
{
    let mut out: Vec<char> = Vec::new();
    let mut i: usize = 0;
    proof {
        assert(s@.skip(0) =~= s@);
        assert(out@ + version_encoded(s@) =~= version_encoded(s@));
    }
    while i < s.len()
        invariant
            i <= s.len(),
            out@ + version_encoded(s@.skip(i as int)) == version_encoded(s@),
        decreases s.len() - i,
    {
        let ghost rest = s@.skip(i as int);
        let ghost done = out@;
        let c = s[i];
        if c == '[' {
            out.push('%');
            out.push('5');
            out.push('B');
        } else if c == ',' {
            out.push('%');
            out.push('2');
            out.push('C');
        } else if c == ')' {
            out.push('%');
            out.push('2');
            out.push('9');
        } else {
            out.push(c);
        }
        proof {
            let tail = version_encoded(rest.skip(1));
            assert(rest.skip(1) =~= s@.skip(i + 1));
            assert(out@ =~= done + version_char_encoded(c));
            assert(out@ + tail =~= done + (version_char_encoded(c) + tail));
        }
        i += 1;
    }
    proof {
        assert(s@.skip(i as int) =~= Seq::<char>::empty());
        assert(out@ =~= out@ + version_encoded(s@.skip(i as int)));
    }
    out
}

impl PackageUrl {
    /// A package URL of scheme `pkg` without a namespace.
    pub fn new(package_type: String, name: String, version: String) -> (purl: PackageUrl)
        ensures
            purl@ == (Purl {
                scheme: seq!['p', 'k', 'g'],
                package_type: package_type@,
                namespace: Seq::empty(),
                name: name@,
                version: version@,
            }),
    {
        let scheme = String::from_str("pkg");
        proof {
            reveal_strlit("pkg");
            assert(scheme@ =~= seq!['p', 'k', 'g']);
        }
        PackageUrl { scheme, package_type, namespace: String::new(), name, version }
    }

    /// The URL as text: `scheme:type/`, the namespace and a slash where there
    /// is a namespace, the name, and `@` with the encoded version where there
    /// is a version.
    pub fn build_purl(&self) -> (url: String)
        ensures
            url@ == self@.url(),
    {
        let mut out = chars_of(self.scheme.as_str());
        out.push(':');
        let mut package_type = chars_of(self.package_type.as_str());
        out.append(&mut package_type);
        out.push('/');
        let mut namespace = chars_of(self.namespace.as_str());
        if namespace.len() > 0 {
            out.append(&mut namespace);
            out.push('/');
        }
        let mut name = chars_of(self.name.as_str());
        out.append(&mut name);
        let version = chars_of(self.version.as_str());
        if version.len() > 0 {
            out.push('@');
            let mut encoded = encode_version(&version);
            out.append(&mut encoded);
        }
        proof {
            assert(out@ =~= self@.url());
        }
        string_of(&out)
    }
}

} // verus!
