//! The decisions of a vulnerability search: which package URLs are asked
//! for, and which report answers for a dependency.

use vstd::prelude::*;
use crate::dependency::Dependency;
use crate::ossindex::ComponentReport;
use crate::text::texts;

verus! {

/// The package URLs of the dependencies that have one, in their order.
pub open spec fn known_package_urls<V>(dependencies: Seq<Dependency<V>>) -> Seq<Seq<char>>
    decreases dependencies.len(),
{
    if dependencies.len() == 0 {
        Seq::empty()
    } else {
        let before = known_package_urls(dependencies.drop_last());
        let url = dependencies.last().package_url@;
        if url.len() > 0 {
            before.push(url)
        } else {
            before
        }
    }
}

/// Collects the package URLs to ask for: those of the dependencies that have
/// one.
pub fn package_urls<V>(dependencies: &Vec<Dependency<V>>) -> (urls: Vec<String>)
    ensures
        texts(urls@) == known_package_urls(dependencies@),
{
    let mut urls: Vec<String> = Vec::new();
    let mut i: usize = 0;
    proof {
        assert(dependencies@.take(0) =~= Seq::empty());
        assert(texts(urls@) =~= Seq::empty());
    }
    while i < dependencies.len()
        invariant
            i <= dependencies.len(),
            texts(urls@) == known_package_urls(dependencies@.take(i as int)),
        decreases dependencies.len() - i,
    {
        let ghost before = urls@;
        let url = &dependencies[i].package_url;
        if !url.as_str().is_empty() {
            urls.push(url.clone());
            proof {
                assert(texts(urls@) =~= texts(before).push(url@));
            }
        }
        proof {
            let taken = dependencies@.take(i + 1);
            assert(taken.drop_last() =~= dependencies@.take(i as int));
            assert(taken.last() == dependencies@[i as int]);
        }
        i += 1;
    }
    proof {
        assert(dependencies@.take(i as int) =~= dependencies@);
    }
    urls
}

/// Whether a report answers for a package URL: it is the report on that
/// URL, and it holds a vulnerability.
pub open spec fn answers_for<V>(report: ComponentReport<V>, package_url: Seq<char>) -> bool {
    report.vulnerabilities@.len() > 0 && report.coordinates@ == package_url
}

/// Finds the first report that answers for a package URL.
pub fn find_report<V>(reports: &Vec<ComponentReport<V>>, package_url: &String) -> (found: Option<
    usize,
>)
    ensures
        match found {
            Some(at) => at < reports.len() && answers_for(reports[at as int], package_url@)
                && forall|j: int| 0 <= j < at ==> !answers_for(#[trigger] reports[j], package_url@),
            None => forall|j: int|
                0 <= j < reports.len() ==> !answers_for(#[trigger] reports[j], package_url@),
        },
{
    let mut i: usize = 0;
    while i < reports.len()
        invariant
            i <= reports.len(),
            forall|j: int| 0 <= j < i ==> !answers_for(#[trigger] reports[j], package_url@),
        decreases reports.len() - i,
    {
        if reports[i].vulnerabilities.len() > 0 && reports[i].coordinates == *package_url {
            return Some(i);
        }
        i += 1;
    }
    None
}

} // verus!
