use audit::analysers::dotnet_analyser::{
    DotNetAnalyser, Package, ProjectAssets, Requirement, Target, PROJECT_ASSETS_FILE_NAME,
};
use audit::analysers::npm_analyser::{
    LockedPackage, NpmAnalyser, PackageLock, PackageRef, PACKAGE_LOCK_FILE_NAME,
};
use audit::dependency::Dependency;

fn summary(found: &[Dependency<u8>]) -> Vec<(String, String, String)> {
    found
        .iter()
        .map(|d| {
            assert_eq!("", d.cpe);
            assert!(d.dependencies.is_empty());
            assert!(d.vulnerabilities.is_empty());
            (d.name.clone(), d.version.clone(), d.package_url.clone())
        })
        .collect()
}

fn triple(name: &str, version: &str, url: &str) -> (String, String, String) {
    (name.to_string(), version.to_string(), url.to_string())
}

fn requirement(name: &str, version: &str) -> Requirement {
    Requirement { name: name.to_string(), version: version.to_string() }
}

fn package_ref(name: &str, version: &str) -> PackageRef {
    PackageRef { name: name.to_string(), version: version.to_string() }
}

#[test]
fn analysers_accept_their_lock_file_only() {
    assert_eq!("project.assets.json", PROJECT_ASSETS_FILE_NAME);
    assert_eq!("package-lock.json", PACKAGE_LOCK_FILE_NAME);
    assert!(DotNetAnalyser.accepts("project.assets.json"));
    assert!(!DotNetAnalyser.accepts("package-lock.json"));
    assert!(!DotNetAnalyser.accepts("Project.assets.json"));
    assert!(!DotNetAnalyser.accepts("obj/project.assets.json"));
    assert!(!DotNetAnalyser.accepts(""));
    assert!(NpmAnalyser.accepts("package-lock.json"));
    assert!(!NpmAnalyser.accepts("project.assets.json"));
    assert!(!NpmAnalyser.accepts("package-lock.json "));
    assert!(!NpmAnalyser.accepts(""));
}

#[test]
fn dotnet_entry_strips_spaces_of_the_version() {
    assert_eq!("A/1.0.0", DotNetAnalyser::package_entry("A", "1.0.0"));
    assert_eq!("A/[1.0.0,)", DotNetAnalyser::package_entry("A", "[1.0.0, )"));
    assert_eq!("A B/1", DotNetAnalyser::package_entry("A B", " 1 "));
    assert_eq!("/", DotNetAnalyser::package_entry("", ""));
}

#[test]
fn npm_entry_encodes_the_at_of_the_name() {
    assert_eq!("left-pad@1.3.0", NpmAnalyser::package_entry("left-pad", "1.3.0"));
    assert_eq!("%40babel/core@7.0.0", NpmAnalyser::package_entry("@babel/core", "7.0.0"));
    assert_eq!("%40a%40b@^1 || @2", NpmAnalyser::package_entry("@a@b", "^1 || @2"));
    assert_eq!("@", NpmAnalyser::package_entry("", ""));
}

#[test]
fn dependency_from_an_entry() {
    let d: Dependency<u8> = Dependency::from_entry("IdentityServer4/2.4.0", '/', "nuget");
    assert_eq!("IdentityServer4", d.name);
    assert_eq!("2.4.0", d.version);
    assert_eq!("pkg:nuget/IdentityServer4@2.4.0", d.package_url);
    assert_eq!("", d.cpe);
    assert!(d.dependencies.is_empty());
    assert!(d.vulnerabilities.is_empty());
}

#[test]
fn dependency_from_an_entry_reads_the_first_two_fields() {
    let d: Dependency<u8> = Dependency::from_entry("a/b/c", '/', "nuget");
    assert_eq!(("a", "b"), (d.name.as_str(), d.version.as_str()));
    assert_eq!("pkg:nuget/a@b", d.package_url);
    let d: Dependency<u8> = Dependency::from_entry("a/", '/', "nuget");
    assert_eq!(("a", ""), (d.name.as_str(), d.version.as_str()));
    assert_eq!("pkg:nuget/a", d.package_url);
    let d: Dependency<u8> = Dependency::from_entry("/b", '/', "nuget");
    assert_eq!(("", "b"), (d.name.as_str(), d.version.as_str()));
    assert_eq!("pkg:nuget/@b", d.package_url);
    let d: Dependency<u8> = Dependency::from_entry("A/[1.0,2.0)", '/', "nuget");
    assert_eq!("pkg:nuget/A@%5B1.0%2C2.0%29", d.package_url);
}

#[test]
fn dependencies_come_last_entry_first() {
    let packages = vec!["a/1".to_string(), "b/2".to_string(), "c/3".to_string()];
    let found: Vec<Dependency<u8>> = DotNetAnalyser.dependencies(packages);
    assert_eq!(
        vec![
            triple("c", "3", "pkg:nuget/c@3"),
            triple("b", "2", "pkg:nuget/b@2"),
            triple("a", "1", "pkg:nuget/a@1"),
        ],
        summary(&found)
    );
    let packages = vec!["a@1".to_string(), "%40s/b@2".to_string()];
    let found: Vec<Dependency<u8>> = NpmAnalyser.dependencies(packages);
    assert_eq!(
        vec![triple("%40s/b", "2", "pkg:npm/%40s/b@2"), triple("a", "1", "pkg:npm/a@1")],
        summary(&found)
    );
    let found: Vec<Dependency<u8>> = NpmAnalyser.dependencies(Vec::new());
    assert!(found.is_empty());
}

fn assets() -> ProjectAssets {
    ProjectAssets {
        version: 3,
        targets: vec![
            Target {
                name: ".NETCoreApp,Version=v2.2".to_string(),
                packages: vec![
                    Package {
                        key: "IdentityServer4/2.4.0".to_string(),
                        kind: "package".to_string(),
                        dependencies: vec![
                            requirement("IdentityModel", "3.10.6"),
                            requirement("Newtonsoft.Json", "[11.0.2, )"),
                        ],
                    },
                    Package {
                        key: "IdentityModel/3.10.6".to_string(),
                        kind: "package".to_string(),
                        dependencies: Vec::new(),
                    },
                ],
            },
            Target { name: "empty".to_string(), packages: Vec::new() },
            Target {
                name: ".NETStandard,Version=v2.0".to_string(),
                packages: vec![Package {
                    key: "Serilog/2.8.0".to_string(),
                    kind: "package".to_string(),
                    dependencies: vec![requirement("System.Collections", "4.3.0")],
                }],
            },
        ],
    }
}

#[test]
fn dotnet_entries_in_walking_order() {
    assert_eq!(
        vec![
            "IdentityServer4/2.4.0",
            "IdentityModel/3.10.6",
            "Newtonsoft.Json/[11.0.2,)",
            "IdentityModel/3.10.6",
            "Serilog/2.8.0",
            "System.Collections/4.3.0",
        ],
        DotNetAnalyser::read_project_assets(&assets())
    );
    let none = ProjectAssets { version: 3, targets: Vec::new() };
    assert!(DotNetAnalyser::read_project_assets(&none).is_empty());
}

#[test]
fn dotnet_analyse_gives_one_dependency_for_each_entry() {
    let assets = assets();
    assert!(DotNetAnalyser::has_keyed_packages(&assets));
    let found: Vec<Dependency<u8>> = DotNetAnalyser.analyse(&assets);
    assert_eq!(
        vec![
            triple("System.Collections", "4.3.0", "pkg:nuget/System.Collections@4.3.0"),
            triple("Serilog", "2.8.0", "pkg:nuget/Serilog@2.8.0"),
            triple("IdentityModel", "3.10.6", "pkg:nuget/IdentityModel@3.10.6"),
            triple("Newtonsoft.Json", "[11.0.2,)", "pkg:nuget/Newtonsoft.Json@%5B11.0.2%2C%29"),
            triple("IdentityModel", "3.10.6", "pkg:nuget/IdentityModel@3.10.6"),
            triple("IdentityServer4", "2.4.0", "pkg:nuget/IdentityServer4@2.4.0"),
        ],
        summary(&found)
    );
}

#[test]
fn dotnet_keys_without_slash_are_told() {
    let mut assets = assets();
    assets.targets[2].packages[0].key = "Serilog".to_string();
    assert!(!DotNetAnalyser::has_keyed_packages(&assets));
    assets.targets[2].packages[0].key = "/".to_string();
    assert!(DotNetAnalyser::has_keyed_packages(&assets));
    let none = ProjectAssets { version: 3, targets: Vec::new() };
    assert!(DotNetAnalyser::has_keyed_packages(&none));
}

fn lock() -> PackageLock {
    PackageLock {
        name: "app".to_string(),
        version: "1.0.0".to_string(),
        dependencies: vec![
            LockedPackage {
                name: "@babel/core".to_string(),
                version: "7.4.0".to_string(),
                dependencies: vec![package_ref("semver", "5.7.0")],
                requires: vec![package_ref("@babel/types", "^7.4.0"), package_ref("json5", "^2.1.0")],
            },
            LockedPackage {
                name: "json5".to_string(),
                version: "2.1.0".to_string(),
                dependencies: Vec::new(),
                requires: Vec::new(),
            },
        ],
    }
}

#[test]
fn npm_entries_in_walking_order() {
    assert_eq!(
        vec![
            "%40babel/core@7.4.0",
            "semver@5.7.0",
            "%40babel/types@^7.4.0",
            "json5@^2.1.0",
            "json5@2.1.0",
        ],
        NpmAnalyser::read_project_assets(&lock())
    );
}

#[test]
fn npm_analyse_gives_one_dependency_for_each_entry() {
    let found: Vec<Dependency<u8>> = NpmAnalyser.analyse(&lock());
    assert_eq!(
        vec![
            triple("json5", "2.1.0", "pkg:npm/json5@2.1.0"),
            triple("json5", "^2.1.0", "pkg:npm/json5@^2.1.0"),
            triple("%40babel/types", "^7.4.0", "pkg:npm/%40babel/types@^7.4.0"),
            triple("semver", "5.7.0", "pkg:npm/semver@5.7.0"),
            triple("%40babel/core", "7.4.0", "pkg:npm/%40babel/core@7.4.0"),
        ],
        summary(&found)
    );
    let none = PackageLock { name: String::new(), version: String::new(), dependencies: Vec::new() };
    let found: Vec<Dependency<u8>> = NpmAnalyser.analyse(&none);
    assert!(found.is_empty());
}
