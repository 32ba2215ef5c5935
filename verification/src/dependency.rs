//! The record of a dependency that an analyser finds.

use vstd::prelude::*;
use vstd::string::*;
use crate::purl::{PackageUrl, Purl};
use crate::text::{
    after_first,
    before_first,
    chars_of,
    find_from,
    lemma_first_index_of,
    slice_of,
    string_of,
};

verus! {

/// A dependency of a scanned project. The records of its vulnerabilities are
/// the caller's: the library carries them and never looks into one.
pub struct Dependency<V> {
    pub name: String,
    pub version: String,
    pub package_url: String,
    pub cpe: String,
    /// Transitive dependencies.
    pub dependencies: Vec<Dependency<V>>,
    pub vulnerabilities: Vec<V>,
}

/// The name in an entry `name<sep>version`: what stands before the first
/// separator.
pub open spec fn entry_name(entry: Seq<char>, sep: char) -> Seq<char> {
    before_first(entry, sep)
}

/// The version in an entry `name<sep>version`: what stands between the first
/// separator and the second, or the end where there is no second.
pub open spec fn entry_version(entry: Seq<char>, sep: char) -> Seq<char> {
    before_first(after_first(entry, sep), sep)
}

/// The package URL of the package that an entry names.
pub open spec fn entry_purl(entry: Seq<char>, sep: char, package_type: Seq<char>) -> Seq<char> {
    (Purl {
        scheme: seq!['p', 'k', 'g'],
        package_type,
        namespace: Seq::empty(),
        name: entry_name(entry, sep),
        version: entry_version(entry, sep),
    }).url()
}

impl<V> Dependency<V> {
    /// Whether this is the dependency that an analyser reports for an entry:
    /// name, version and package URL as the entry gives them, and nothing
    /// else known yet.
    pub open spec fn is_from_entry(self, entry: Seq<char>, sep: char, package_type: Seq<char>) -> bool {
        &&& self.name@ == entry_name(entry, sep)
        &&& self.version@ == entry_version(entry, sep)
        &&& self.package_url@ == entry_purl(entry, sep, package_type)
        &&& self.cpe@.len() == 0
        &&& self.dependencies@.len() == 0
        &&& self.vulnerabilities@.len() == 0
    }

    /// The dependency that an entry `name<sep>version` of a lock file names,
    /// with the package URL of the given type.
    pub fn from_entry(entry: &str, sep: char, package_type: &str) -> (dependency: Dependency<V>)
        requires
            entry@.contains(sep),
        ensures
            dependency.is_from_entry(entry@, sep, package_type@),
    {
        let chars = chars_of(entry);
        proof {
            assert(chars@.skip(0) =~= chars@);
            lemma_first_index_of(chars@, sep);
        }
        let cut = find_from(&chars, sep, 0);
        let end = find_from(&chars, sep, cut + 1);
        let name = string_of(&slice_of(&chars, 0, cut));
        let version = string_of(&slice_of(&chars, cut + 1, end));
        proof {
            let rest = after_first(entry@, sep);
            lemma_first_index_of(rest, sep);
            assert(name@ =~= entry_name(entry@, sep));
            assert(version@ =~= entry_version(entry@, sep));
        }
        let purl = PackageUrl::new(String::from_str(package_type), name.clone(), version.clone());
        Dependency {
            name,
            version,
            package_url: purl.build_purl(),
            cpe: String::new(),
            dependencies: Vec::new(),
            vulnerabilities: Vec::new(),
        }
    }

    /// The dependencies that the entries of a lock file name, the last entry
    /// first.
    pub fn from_entries(packages: Vec<String>, sep: char, package_type: &str) -> (found: Vec<
        Dependency<V>,
    >)
        requires
            forall|i: int| 0 <= i < packages.len() ==> (#[trigger] packages[i])@.contains(sep),
        ensures
            found.len() == packages.len(),
            forall|i: int|
                0 <= i < found.len() ==> (#[trigger] found[i]).is_from_entry(
                    packages[packages.len() - 1 - i]@,
                    sep,
                    package_type@,
                ),
    {
        let mut packages = packages;
        let ghost all = packages@;
        let mut found: Vec<Dependency<V>> = Vec::new();
        while packages.len() > 0
            invariant
                packages@ == all.subrange(0, packages.len() as int),
                packages.len() + found.len() == all.len(),
                forall|i: int| 0 <= i < all.len() ==> (#[trigger] all[i])@.contains(sep),
                forall|i: int|
                    0 <= i < found.len() ==> (#[trigger] found[i]).is_from_entry(
                        all[all.len() - 1 - i]@,
                        sep,
                        package_type@,
                    ),
            decreases packages.len(),
        {
            let ghost before = packages@;
            let entry = packages.pop().unwrap();
            proof {
                assert(entry == all[before.len() - 1]);
                assert(packages@ =~= all.subrange(0, packages.len() as int));
            }
            let dependency = Dependency::from_entry(entry.as_str(), sep, package_type);
            found.push(dependency);
        }
        found
    }
}

} // verus!
