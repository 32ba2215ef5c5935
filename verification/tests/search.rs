use audit::dependency::Dependency;
use audit::ossindex::{
    classify_status, request_batches, ComponentReport, ResponseKind, MAX_COMPONENTS_PER_REQUEST,
};
use audit::search::{find_report, package_urls};

fn dependency(name: &str, url: &str) -> Dependency<u8> {
    Dependency {
        name: name.to_string(),
        version: "1".to_string(),
        package_url: url.to_string(),
        cpe: String::new(),
        dependencies: Vec::new(),
        vulnerabilities: Vec::new(),
    }
}

fn report(coordinates: &str, vulnerabilities: Vec<u8>) -> ComponentReport<u8> {
    ComponentReport {
        coordinates: coordinates.to_string(),
        description: String::new(),
        reference: String::new(),
        vulnerabilities,
    }
}

#[test]
fn status_codes_are_classified() {
    assert_eq!(ResponseKind::Reports, classify_status(200));
    assert_eq!(ResponseKind::BadRequest, classify_status(400));
    assert_eq!(ResponseKind::TooManyRequests, classify_status(429));
    for status in [0, 100, 199, 201, 204, 301, 399, 401, 404, 428, 430, 500, 503, u16::MAX] {
        assert_eq!(ResponseKind::Unknown, classify_status(status));
    }
}

fn urls(n: usize) -> Vec<String> {
    (0..n).map(|i| format!("pkg:npm/p{}@1", i)).collect()
}

#[test]
fn batches_hold_at_most_128() {
    assert_eq!(128, MAX_COMPONENTS_PER_REQUEST);
    for n in [0usize, 1, 2, 127, 128, 129, 255, 256, 257, 300, 1000] {
        let purls = urls(n);
        let batches = request_batches(&purls);
        let expected: Vec<Vec<String>> = purls.chunks(128).map(|c| c.to_vec()).collect();
        assert_eq!(expected, batches);
        assert_eq!((n + 127) / 128, batches.len());
        assert!(batches.iter().all(|b| !b.is_empty() && b.len() <= 128));
        assert_eq!(purls, batches.concat());
    }
}

#[test]
fn batch_sizes_of_300() {
    let sizes: Vec<usize> = request_batches(&urls(300)).iter().map(|b| b.len()).collect();
    assert_eq!(vec![128, 128, 44], sizes);
}

#[test]
fn package_urls_skip_dependencies_without_one() {
    let dependencies = vec![
        dependency("a", "pkg:npm/a@1"),
        dependency("b", ""),
        dependency("c", "pkg:npm/c@1"),
        dependency("d", "pkg:npm/a@1"),
        dependency("e", ""),
    ];
    assert_eq!(vec!["pkg:npm/a@1", "pkg:npm/c@1", "pkg:npm/a@1"], package_urls(&dependencies));
    let none: Vec<Dependency<u8>> = Vec::new();
    assert!(package_urls(&none).is_empty());
    assert!(package_urls(&vec![dependency("b", "")]).is_empty());
}

#[test]
fn first_report_with_a_vulnerability_answers() {
    let reports = vec![
        report("pkg:npm/a@1", Vec::new()),
        report("pkg:npm/b@1", vec![1]),
        report("pkg:npm/a@1", vec![2, 3]),
        report("pkg:npm/a@1", vec![4]),
        report("", vec![5]),
    ];
    assert_eq!(Some(2), find_report(&reports, &"pkg:npm/a@1".to_string()));
    assert_eq!(Some(1), find_report(&reports, &"pkg:npm/b@1".to_string()));
    assert_eq!(None, find_report(&reports, &"pkg:npm/c@1".to_string()));
    assert_eq!(None, find_report(&reports, &"pkg:npm/a".to_string()));
    assert_eq!(Some(4), find_report(&reports, &String::new()));
    let none: Vec<ComponentReport<u8>> = Vec::new();
    assert_eq!(None, find_report(&none, &"pkg:npm/a@1".to_string()));
}

#[test]
fn report_without_vulnerabilities_answers_for_nothing() {
    let reports = vec![report("pkg:npm/a@1", Vec::new())];
    assert_eq!(None, find_report(&reports, &"pkg:npm/a@1".to_string()));
}
