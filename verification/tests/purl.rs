use audit::purl::{encode_version, PackageUrl};

#[test]
fn create_purl_success() {
    let p = PackageUrl::new(
        "nuget".to_string(),
        "IdentityServer4".to_string(),
        "2.4.0".to_string(),
    );

    assert_eq!("pkg:nuget/IdentityServer4@2.4.0", p.build_purl());
}

#[test]
fn purl_without_version_has_no_at() {
    let p = PackageUrl::new("npm".to_string(), "left-pad".to_string(), String::new());
    assert_eq!("pkg:npm/left-pad", p.build_purl());
}

#[test]
fn purl_encodes_version_ranges() {
    let p = PackageUrl::new("nuget".to_string(), "A".to_string(), "[1.0.0,2.0.0)".to_string());
    assert_eq!("pkg:nuget/A@%5B1.0.0%2C2.0.0%29", p.build_purl());
}

#[test]
fn purl_leaves_name_and_type_as_they_are() {
    let p = PackageUrl::new("[t]".to_string(), "n,(m)".to_string(), "1".to_string());
    assert_eq!("pkg:[t]/n,(m)@1", p.build_purl());
    let p = PackageUrl::new(String::new(), String::new(), String::new());
    assert_eq!("pkg:/", p.build_purl());
}

#[test]
fn version_encoding_is_three_replacements() {
    for version in ["", "1.2.3", "[1,2)", "(1,2]", "[[,,))", ")[,", "%5B", "ünï[code"] {
        let chars: Vec<char> = version.chars().collect();
        let encoded: String = encode_version(&chars).into_iter().collect();
        let replaced = version.replace("[", "%5B").replace(",", "%2C").replace(")", "%29");
        assert_eq!(replaced, encoded);
    }
}
