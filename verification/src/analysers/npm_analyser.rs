//! npm packages, as `package-lock.json` lists them: `name@version`.

use vstd::prelude::*;
use vstd::string::*;
use crate::dependency::Dependency;
use crate::text::{chars_of, replace_char, replaced, string_of, texts};

verus! {

/// The analyser of npm projects.
pub struct NpmAnalyser;

/// The name of the file that lists the packages of an npm project.
pub const PACKAGE_LOCK_FILE_NAME: &'static str = "package-lock.json";

/// A package by name, with a version or a range of versions.
pub struct PackageRef {
    pub name: String,
    pub version: String,
}

/// A package that the lock file pins, with the packages nested under it and
/// those that it requires.
pub struct LockedPackage {
    pub name: String,
    pub version: String,
    pub dependencies: Vec<PackageRef>,
    pub requires: Vec<PackageRef>,
}

/// What the analyser reads of a `package-lock.json`. Packages stand in the
/// order in which they are to be walked.
pub struct PackageLock {
    pub name: String,
    pub version: String,
    pub dependencies: Vec<LockedPackage>,
}

/// The entry of a package: name and version with an `@` between them. An `@`
/// in the name, as a scoped package has it, is percent-encoded.
pub open spec fn package_entry_text(name: Seq<char>, version: Seq<char>) -> Seq<char> {
    replaced(name, '@', seq!['%', '4', '0']) + seq!['@'] + version
}

/// The entries of a list of packages.
pub open spec fn ref_entries(packages: Seq<PackageRef>) -> Seq<Seq<char>> {
    Seq::new(packages.len(), |i: int| package_entry_text(packages[i].name@, packages[i].version@))
}

/// The entries that a pinned package gives: its own, then those of the
/// packages nested under it, then those of the packages that it requires.
pub open spec fn locked_entries(package: LockedPackage) -> Seq<Seq<char>> {
    seq![package_entry_text(package.name@, package.version@)] + ref_entries(
        package.dependencies@,
    ) + ref_entries(package.requires@)
}

/// The entries of a list of pinned packages, one package after the other.
pub open spec fn lock_entries(packages: Seq<LockedPackage>) -> Seq<Seq<char>>
    decreases packages.len(),
{
    if packages.len() == 0 {
        Seq::empty()
    } else {
        lock_entries(packages.drop_last()) + locked_entries(packages.last())
    }
}

/// An entry always holds the `@` that parts name and version.
pub proof fn lemma_entry_holds_separator(name: Seq<char>, version: Seq<char>)
    ensures
        package_entry_text(name, version).contains('@'),
{
    let entry = package_entry_text(name, version);
    let at = replaced(name, '@', seq!['%', '4', '0']).len() as int;
    assert(entry[at] == '@');
}

/// Every entry of a lock file holds an `@`.
pub proof fn lemma_entries_hold_separator(packages: Seq<LockedPackage>, at: int)
    requires
        0 <= at < lock_entries(packages).len(),
    ensures
        lock_entries(packages)[at].contains('@'),
    decreases packages.len(),
{
    let before = lock_entries(packages.drop_last());
    if at < before.len() {
        lemma_entries_hold_separator(packages.drop_last(), at);
    } else {
        let package = packages.last();
        let k = at - before.len();
        let nested = package.dependencies@;
        let required = package.requires@;
        if k == 0 {
            lemma_entry_holds_separator(package.name@, package.version@);
        } else if k <= nested.len() {
            lemma_entry_holds_separator(nested[k - 1].name@, nested[k - 1].version@);
        } else {
            let r = k - 1 - nested.len();
            lemma_entry_holds_separator(required[r].name@, required[r].version@);
        }
    }
}

impl NpmAnalyser {
    /// Whether a file of this name is one that the analyser reads.
    pub fn accepts(&self, file_name: &str) -> (accepted: bool)
        ensures
            accepted == (file_name@ == PACKAGE_LOCK_FILE_NAME@),
    {
        String::from_str(file_name) == String::from_str(PACKAGE_LOCK_FILE_NAME)
    }

    /// The entry of a package, of which the file gives the name and the
    /// version.
    pub fn package_entry(name: &str, version: &str) -> (entry: String)
        ensures
            entry@ == package_entry_text(name@, version@),
    {
        let mut code: Vec<char> = Vec::new();
        code.push('%');
        code.push('4');
        code.push('0');
        proof {
            assert(code@ =~= seq!['%', '4', '0']);
        }
        let mut out = replace_char(&chars_of(name), '@', &code);
        out.push('@');
        let mut rest = chars_of(version);
        out.append(&mut rest);
        proof {
            assert(out@ =~= package_entry_text(name@, version@));
        }
        string_of(&out)
    }

    /// Adds the entries of a list of packages to `out`.
    fn push_ref_entries(out: &mut Vec<String>, packages: &Vec<PackageRef>)
        ensures
            texts(final(out)@) == texts(old(out)@) + ref_entries(packages@),
    {
        let ghost all = ref_entries(packages@);
        let mut i: usize = 0;
        proof {
            assert(texts(out@) =~= texts(old(out)@) + all.take(0));
        }
        while i < packages.len()
            invariant
                i <= packages.len(),
                all == ref_entries(packages@),
                texts(out@) == texts(old(out)@) + all.take(i as int),
            decreases packages.len() - i,
        {
            let ghost before = out@;
            let package = &packages[i];
            out.push(NpmAnalyser::package_entry(package.name.as_str(), package.version.as_str()));
            proof {
                assert(texts(out@) =~= texts(before).push(all[i as int]));
                assert(all.take(i + 1) =~= all.take(i as int).push(all[i as int]));
            }
            i += 1;
        }
        proof {
            assert(all.take(i as int) =~= all);
        }
    }

    /// Adds the entries of one pinned package to `out`.
    fn push_locked_entries(out: &mut Vec<String>, package: &LockedPackage)
        ensures
            texts(final(out)@) == texts(old(out)@) + locked_entries(*package),
    {
        out.push(NpmAnalyser::package_entry(package.name.as_str(), package.version.as_str()));
        proof {
            assert(texts(out@) =~= texts(old(out)@) + seq![
                package_entry_text(package.name@, package.version@),
            ]);
        }
        NpmAnalyser::push_ref_entries(out, &package.dependencies);
        NpmAnalyser::push_ref_entries(out, &package.requires);
        proof {
            assert(texts(out@) =~= texts(old(out)@) + locked_entries(*package));
        }
    }

    /// The entries of the file: for each pinned package its own entry, then
    /// one for each package nested under it, then one for each package that
    /// it requires.
    pub fn read_project_assets(lock: &PackageLock) -> (packages: Vec<String>)
        ensures
            texts(packages@) == lock_entries(lock.dependencies@),
    {
        let mut out: Vec<String> = Vec::new();
        let mut i: usize = 0;
        proof {
            assert(lock.dependencies@.take(0) =~= Seq::empty());
            assert(texts(out@) =~= Seq::empty());
        }
        while i < lock.dependencies.len()
            invariant
                i <= lock.dependencies.len(),
                texts(out@) == lock_entries(lock.dependencies@.take(i as int)),
            decreases lock.dependencies.len() - i,
        {
            NpmAnalyser::push_locked_entries(&mut out, &lock.dependencies[i]);
            proof {
                let taken = lock.dependencies@.take(i + 1);
                assert(taken.drop_last() =~= lock.dependencies@.take(i as int));
                assert(taken.last() == lock.dependencies@[i as int]);
            }
            i += 1;
        }
        proof {
            assert(lock.dependencies@.take(i as int) =~= lock.dependencies@);
        }
        out
    }

    /// The dependencies that the entries of a file name, the last entry
    /// first, each with its package URL of type `npm`.
    pub fn dependencies<V>(&self, packages: Vec<String>) -> (found: Vec<Dependency<V>>)
        requires
            forall|i: int| 0 <= i < packages.len() ==> (#[trigger] packages[i])@.contains('@'),
        ensures
            found.len() == packages.len(),
            forall|i: int|
                0 <= i < found.len() ==> (#[trigger] found[i]).is_from_entry(
                    packages[packages.len() - 1 - i]@,
                    '@',
                    "npm"@,
                ),
    {
        Dependency::from_entries(packages, '@', "npm")
    }

    /// The dependencies of an npm project, from what its file lists: one for
    /// each entry, the last entry first.
    pub fn analyse<V>(&self, lock: &PackageLock) -> (found: Vec<Dependency<V>>)
        ensures
            found.len() == lock_entries(lock.dependencies@).len(),
            forall|i: int|
                0 <= i < found.len() ==> (#[trigger] found[i]).is_from_entry(
                    lock_entries(lock.dependencies@)[found.len() - 1 - i],
                    '@',
                    "npm"@,
                ),
    {
        let packages = NpmAnalyser::read_project_assets(lock);
        proof {
            let entries = lock_entries(lock.dependencies@);
            assert forall|i: int| 0 <= i < packages.len() implies (
            #[trigger] packages[i])@.contains('@') by {
                assert(texts(packages@)[i] == packages[i]@);
                lemma_entries_hold_separator(lock.dependencies@, i);
            }
            assert forall|i: int| 0 <= i < packages.len() implies (#[trigger] packages[i])@
                == entries[i] by {
                assert(texts(packages@)[i] == packages[i]@);
            }
        }
        self.dependencies(packages)
    }
}

} // verus!
