use std::collections::BTreeMap;

use pact::manifest::{
    validate_package_name, validate_version, Manifest, ManifestError, RawManifest, RawPackage,
    RawPacts, RawSeal,
};

fn raw(name: Option<&str>, version: Option<&str>) -> RawManifest {
    RawManifest {
        package: Some(RawPackage {
            name: name.map(|s| s.to_string()),
            version: version.map(|s| s.to_string()),
            authors: vec![],
            license: None,
            description: None,
        }),
        dependencies: BTreeMap::new(),
        pacts: RawPacts::default(),
        seal: None,
    }
}

fn missing_field(r: Result<Manifest, ManifestError>) -> String {
    match r {
        Err(ManifestError::MissingField(f)) => f,
        Err(e) => panic!("unexpected error: {e:?}"),
        Ok(m) => panic!("unexpected success: {m:?}"),
    }
}

#[test]
fn validate_complete_raw_manifest() {
    let mut deps = BTreeMap::new();
    deps.insert("http-client".to_string(), "1.2.0".to_string());
    deps.insert("json".to_string(), "0.8.0".to_string());
    let raw = RawManifest {
        package: Some(RawPackage {
            name: Some("weather-agent".to_string()),
            version: Some("0.1.0".to_string()),
            authors: vec!["you@example.com".to_string()],
            license: Some("MIT".to_string()),
            description: Some("A weather-aware scheduling agent".to_string()),
        }),
        dependencies: deps.clone(),
        pacts: RawPacts {
            required: vec!["Http".to_string(), "Console".to_string(), "ToolRegistry".to_string()],
            optional: vec!["FileSystem".to_string()],
        },
        seal: Some(RawSeal {
            max_memory: Some("256mb".to_string()),
            max_duration: Some("30s".to_string()),
            allowed_hosts: vec!["api.openweathermap.org".to_string()],
        }),
    };
    let m = raw.validate().expect("should validate");
    assert_eq!(m.package.name, "weather-agent");
    assert_eq!(m.package.version, "0.1.0");
    assert_eq!(m.package.authors, vec!["you@example.com".to_string()]);
    assert_eq!(m.package.license.as_deref(), Some("MIT"));
    assert_eq!(m.package.description.as_deref(), Some("A weather-aware scheduling agent"));
    assert_eq!(m.dependencies, deps);
    assert_eq!(m.pacts.required.len(), 3);
    assert_eq!(m.pacts.optional, vec!["FileSystem".to_string()]);
    let seal = m.seal.expect("seal kept");
    assert_eq!(seal.max_memory.as_deref(), Some("256mb"));
    assert_eq!(seal.max_duration.as_deref(), Some("30s"));
    assert_eq!(seal.allowed_hosts, vec!["api.openweathermap.org".to_string()]);
}

#[test]
fn validate_minimal_raw_manifest() {
    let m = raw(Some("my-app"), Some("1.0.0")).validate().expect("should validate minimal");
    assert_eq!(m.package.name, "my-app");
    assert_eq!(m.package.version, "1.0.0");
    assert!(m.package.authors.is_empty());
    assert!(m.package.license.is_none());
    assert!(m.package.description.is_none());
    assert!(m.dependencies.is_empty());
    assert!(m.pacts.required.is_empty());
    assert!(m.pacts.optional.is_empty());
    assert!(m.seal.is_none());
}

#[test]
fn validate_reports_missing_package() {
    let r = RawManifest {
        package: None,
        dependencies: BTreeMap::new(),
        pacts: RawPacts::default(),
        seal: None,
    };
    assert_eq!(missing_field(r.validate()), "package");
}

#[test]
fn validate_reports_missing_name() {
    assert_eq!(missing_field(raw(None, Some("0.1.0")).validate()), "package.name");
}

#[test]
fn validate_reports_missing_version() {
    assert_eq!(missing_field(raw(Some("my-app"), None).validate()), "package.version");
}

#[test]
fn validate_name_checked_before_version() {
    assert_eq!(missing_field(raw(Some("Bad"), None).validate()), "package.name");
}

#[test]
fn validate_reports_bad_names() {
    for bad in ["", "my app", "MyApp", "a_b", "a.b"] {
        assert_eq!(missing_field(raw(Some(bad), Some("0.1.0")).validate()), "package.name", "{bad:?}");
    }
}

#[test]
fn validate_reports_bad_versions() {
    for bad in ["1.0", "v1.0.0", "1.0.0.0", "latest", "", "1..0", ".1.0", "1.0.", "-1.0.0"] {
        assert_eq!(missing_field(raw(Some("a"), Some(bad)).validate()), "package.version", "{bad:?}");
    }
}

#[test]
fn validate_accepts_version_suffixes() {
    for good in ["1.0.0-alpha.1", "1.0.0+build.42", "1.0.0-rc.1+meta", "10.20.30", "0.0.0"] {
        let m = raw(Some("a"), Some(good)).validate().expect(good);
        assert_eq!(m.package.version, good);
    }
}

#[test]
fn package_name_rules() {
    assert!(validate_package_name("a").is_ok());
    assert!(validate_package_name("-a-").is_ok());
    assert!(validate_package_name("1abc").is_ok());
    assert!(validate_package_name("").is_err());
    assert!(validate_package_name("é").is_err());
}

#[test]
fn version_rules() {
    assert!(validate_version("1.2.3").is_ok());
    assert!(validate_version("1.2.3+x-y").is_ok());
    assert!(validate_version("1.2.3-x+y").is_ok());
    assert!(validate_version("1.2-3.4").is_err());
    assert!(validate_version("1.2.3a").is_err());
    assert!(validate_version("+1.2.3").is_err());
}
