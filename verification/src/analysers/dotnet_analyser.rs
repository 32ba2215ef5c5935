//! NuGet packages, as `project.assets.json` lists them: `name/version`.

use vstd::prelude::*;
use vstd::string::*;
use crate::dependency::Dependency;
use crate::text::{chars_of, holds_char, replace_char, replaced, string_of, texts};

verus! {

/// The analyser of .NET projects.
pub struct DotNetAnalyser;

/// The name of the file that lists the packages of a .NET project.
pub const PROJECT_ASSETS_FILE_NAME: &'static str = "project.assets.json";

/// A package that another one depends on, with the range of versions that
/// it asks for.
pub struct Requirement {
    pub name: String,
    pub version: String,
}

/// A package of a target, under its key `name/version`.
pub struct Package {
    pub key: String,
    pub kind: String,
    pub dependencies: Vec<Requirement>,
}

/// The packages that are resolved for one target framework.
pub struct Target {
    pub name: String,
    pub packages: Vec<Package>,
}

/// What the analyser reads of a `project.assets.json`. Targets, packages and
/// requirements stand in the order in which they are to be walked.
pub struct ProjectAssets {
    pub version: u16,
    pub targets: Vec<Target>,
}

/// The entry of a required package: name and version with a slash between
/// them, the version without its spaces.
pub open spec fn package_entry_text(name: Seq<char>, version: Seq<char>) -> Seq<char> {
    name + seq!['/'] + replaced(version, ' ', Seq::empty())
}

/// The entries of the packages that a package requires.
pub open spec fn requirement_entries(requirements: Seq<Requirement>) -> Seq<Seq<char>> {
    Seq::new(
        requirements.len(),
        |i: int| package_entry_text(requirements[i].name@, requirements[i].version@),
    )
}

/// The entries that a package gives: its key, then what it requires.
pub open spec fn package_entries(package: Package) -> Seq<Seq<char>> {
    seq![package.key@] + requirement_entries(package.dependencies@)
}

/// The entries of a list of packages, one package after the other.
pub open spec fn packages_entries(packages: Seq<Package>) -> Seq<Seq<char>>
    decreases packages.len(),
{
    if packages.len() == 0 {
        Seq::empty()
    } else {
        packages_entries(packages.drop_last()) + package_entries(packages.last())
    }
}

/// The entries of a list of targets, one target after the other.
pub open spec fn targets_entries(targets: Seq<Target>) -> Seq<Seq<char>>
    decreases targets.len(),
{
    if targets.len() == 0 {
        Seq::empty()
    } else {
        targets_entries(targets.drop_last()) + packages_entries(targets.last().packages@)
    }
}

/// Whether every package of every target has a key of the form
/// `name/version`.
pub open spec fn has_keyed_packages(targets: Seq<Target>) -> bool {
    forall|t: int, p: int|
        0 <= t < targets.len() && 0 <= p < targets[t].packages@.len() ==> (
        #[trigger] targets[t].packages@[p]).key@.contains('/')
}

/// Every entry of well-keyed targets holds a slash.
pub proof fn lemma_entries_hold_separator(targets: Seq<Target>, at: int)
    requires
        has_keyed_packages(targets),
        0 <= at < targets_entries(targets).len(),
    ensures
        targets_entries(targets)[at].contains('/'),
    decreases targets.len(),
{
    let before = targets_entries(targets.drop_last());
    if at < before.len() {
        assert forall|t: int, p: int|
            0 <= t < targets.drop_last().len() && 0 <= p < targets.drop_last()[t].packages@.len()
            implies (#[trigger] targets.drop_last()[t].packages@[p]).key@.contains('/') by {
            assert(targets.drop_last()[t] == targets[t]);
        }
        lemma_entries_hold_separator(targets.drop_last(), at);
    } else {
        let last = targets.len() - 1;
        assert forall|p: int| 0 <= p < targets[last].packages@.len() implies (
        #[trigger] targets[last].packages@[p]).key@.contains('/') by {}
        lemma_packages_entries_hold_separator(targets.last().packages@, at - before.len());
    }
}

/// Every entry of well-keyed packages holds a slash.
pub proof fn lemma_packages_entries_hold_separator(packages: Seq<Package>, at: int)
    requires
        forall|p: int| 0 <= p < packages.len() ==> (#[trigger] packages[p]).key@.contains('/'),
        0 <= at < packages_entries(packages).len(),
    ensures
        packages_entries(packages)[at].contains('/'),
    decreases packages.len(),
{
    let before = packages_entries(packages.drop_last());
    if at < before.len() {
        assert forall|p: int| 0 <= p < packages.drop_last().len() implies (
        #[trigger] packages.drop_last()[p]).key@.contains('/') by {
            assert(packages.drop_last()[p] == packages[p]);
        }
        lemma_packages_entries_hold_separator(packages.drop_last(), at);
    } else {
        let package = packages.last();
        let k = at - before.len();
        assert(packages[packages.len() - 1].key@.contains('/'));
        if k > 0 {
            let requirement = package.dependencies@[k - 1];
            let entry = package_entry_text(requirement.name@, requirement.version@);
            assert(entry[requirement.name@.len() as int] == '/');
        }
    }
}

impl DotNetAnalyser {
    /// Whether a file of this name is one that the analyser reads.
    pub fn accepts(&self, file_name: &str) -> (accepted: bool)
        ensures
            accepted == (file_name@ == PROJECT_ASSETS_FILE_NAME@),
    {
        String::from_str(file_name) == String::from_str(PROJECT_ASSETS_FILE_NAME)
    }

    /// Whether every package of every target has a key of the form
    /// `name/version`, as `analyse` asks.
    pub fn has_keyed_packages(assets: &ProjectAssets) -> (keyed: bool)
        ensures
            keyed == has_keyed_packages(assets.targets@),
    {
        let mut t: usize = 0;
        while t < assets.targets.len()
            invariant
                t <= assets.targets.len(),
                forall|u: int, p: int|
                    0 <= u < t && 0 <= p < assets.targets@[u].packages@.len() ==> (
                    #[trigger] assets.targets@[u].packages@[p]).key@.contains('/'),
            decreases assets.targets.len() - t,
        {
            let target = &assets.targets[t];
            let mut p: usize = 0;
            while p < target.packages.len()
                invariant
                    p <= target.packages.len(),
                    *target == assets.targets@[t as int],
                    t < assets.targets.len(),
                    forall|q: int| 0 <= q < p ==> (#[trigger] target.packages@[q]).key@.contains('/'),
                decreases target.packages.len() - p,
            {
                if !holds_char(target.packages[p].key.as_str(), '/') {
                    return false;
                }
                p += 1;
            }
            t += 1;
        }
        true
    }

    /// The entry of a required package, of which the file gives the name and
    /// a version that may hold spaces.
    pub fn package_entry(name: &str, version: &str) -> (entry: String)
        ensures
            entry@ == package_entry_text(name@, version@),
    {
        let mut out = chars_of(name);
        out.push('/');
        let nothing: Vec<char> = Vec::new();
        let mut stripped = replace_char(&chars_of(version), ' ', &nothing);
        out.append(&mut stripped);
        proof {
            assert(out@ =~= package_entry_text(name@, version@));
        }
        string_of(&out)
    }

    /// Adds the entries of one package to `out`.
    fn push_package_entries(out: &mut Vec<String>, package: &Package)
        ensures
            texts(final(out)@) == texts(old(out)@) + package_entries(*package),
    {
        out.push(package.key.clone());
        let ghost keyed = texts(out@);
        proof {
            assert(keyed =~= texts(old(out)@) + seq![package.key@]);
        }
        let mut i: usize = 0;
        while i < package.dependencies.len()
            invariant
                i <= package.dependencies.len(),
                texts(out@) == keyed + requirement_entries(package.dependencies@).take(i as int),
            decreases package.dependencies.len() - i,
        {
            let ghost before = out@;
            let requirement = &package.dependencies[i];
            out.push(
                DotNetAnalyser::package_entry(
                    requirement.name.as_str(),
                    requirement.version.as_str(),
                ),
            );
            proof {
                let all = requirement_entries(package.dependencies@);
                assert(texts(out@) =~= texts(before).push(all[i as int]));
                assert(all.take(i + 1) =~= all.take(i as int).push(all[i as int]));
            }
            i += 1;
        }
        proof {
            let all = requirement_entries(package.dependencies@);
            assert(all.take(i as int) =~= all);
            assert(keyed + all =~= texts(old(out)@) + package_entries(*package));
        }
    }

    /// Adds the entries of the packages of one target to `out`.
    fn push_target_entries(out: &mut Vec<String>, target: &Target)
        ensures
            texts(final(out)@) == texts(old(out)@) + packages_entries(target.packages@),
    {
        let mut i: usize = 0;
        proof {
            assert(target.packages@.take(0) =~= Seq::empty());
            assert(texts(out@) =~= texts(old(out)@) + packages_entries(target.packages@.take(0)));
        }
        while i < target.packages.len()
            invariant
                i <= target.packages.len(),
                texts(out@) == texts(old(out)@) + packages_entries(
                    target.packages@.take(i as int),
                ),
            decreases target.packages.len() - i,
        {
            let ghost before = texts(out@);
            DotNetAnalyser::push_package_entries(out, &target.packages[i]);
            proof {
                let taken = target.packages@.take(i + 1);
                assert(taken.drop_last() =~= target.packages@.take(i as int));
                assert(taken.last() == target.packages@[i as int]);
                let done = packages_entries(target.packages@.take(i as int));
                let added = package_entries(target.packages@[i as int]);
                assert((texts(old(out)@) + done) + added =~= texts(old(out)@) + (done + added));
            }
            i += 1;
        }
        proof {
            assert(target.packages@.take(i as int) =~= target.packages@);
        }
    }

    /// The entries of the file: for each target and each of its packages the
    /// key of the package, then an entry for each package that it requires.
    pub fn read_project_assets(assets: &ProjectAssets) -> (packages: Vec<String>)
        ensures
            texts(packages@) == targets_entries(assets.targets@),
    {
        let mut out: Vec<String> = Vec::new();
        let mut i: usize = 0;
        proof {
            assert(assets.targets@.take(0) =~= Seq::empty());
            assert(texts(out@) =~= Seq::empty());
        }
        while i < assets.targets.len()
            invariant
                i <= assets.targets.len(),
                texts(out@) == targets_entries(assets.targets@.take(i as int)),
            decreases assets.targets.len() - i,
        {
            DotNetAnalyser::push_target_entries(&mut out, &assets.targets[i]);
            proof {
                let taken = assets.targets@.take(i + 1);
                assert(taken.drop_last() =~= assets.targets@.take(i as int));
                assert(taken.last() == assets.targets@[i as int]);
            }
            i += 1;
        }
        proof {
            assert(assets.targets@.take(i as int) =~= assets.targets@);
        }
        out
    }

    /// The dependencies that the entries of a file name, the last entry
    /// first, each with its package URL of type `nuget`.
    pub fn dependencies<V>(&self, packages: Vec<String>) -> (found: Vec<Dependency<V>>)
        requires
            forall|i: int| 0 <= i < packages.len() ==> (#[trigger] packages[i])@.contains('/'),
        ensures
            found.len() == packages.len(),
            forall|i: int|
                0 <= i < found.len() ==> (#[trigger] found[i]).is_from_entry(
                    packages[packages.len() - 1 - i]@,
                    '/',
                    "nuget"@,
                ),
    {
        Dependency::from_entries(packages, '/', "nuget")
    }

    /// The dependencies of a .NET project, from what its file lists: one for
    /// each entry, the last entry first.
    pub fn analyse<V>(&self, assets: &ProjectAssets) -> (found: Vec<Dependency<V>>)
        requires
            has_keyed_packages(assets.targets@),
        ensures
            found.len() == targets_entries(assets.targets@).len(),
            forall|i: int|
                0 <= i < found.len() ==> (#[trigger] found[i]).is_from_entry(
                    targets_entries(assets.targets@)[found.len() - 1 - i],
                    '/',
                    "nuget"@,
                ),
    {
        let packages = DotNetAnalyser::read_project_assets(assets);
        proof {
            let entries = targets_entries(assets.targets@);
            assert forall|i: int| 0 <= i < packages.len() implies (
            #[trigger] packages[i])@.contains('/') by {
                assert(texts(packages@)[i] == packages[i]@);
                lemma_entries_hold_separator(assets.targets@, i);
            }
            assert forall|i: int| 0 <= i < packages.len() implies (#[trigger] packages[i])@
                == entries[i] by {
                assert(texts(packages@)[i] == packages[i]@);
            }
        }
        self.dependencies(packages)
    }
}

} // verus!
