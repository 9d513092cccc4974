use hypanel_core::java::JavaInfo;
use hypanel_core::java::choose_java;
use hypanel_core::java::extract_vendor;
use hypanel_core::java::extract_version;
use hypanel_core::java::find_java_25_installation;
use hypanel_core::java::major_version_of;
use hypanel_core::java::parse_java_version_output;

#[test]
fn version_token_after_marker() {
    assert_eq!(
        extract_version("openjdk 25.0.1 2025-09-16").as_deref(),
        Some("25.0.1")
    );
    assert_eq!(extract_version("java 17.0.2 2022-01-18 LTS").as_deref(), Some("17.0.2"));
}

#[test]
fn version_token_by_fallback() {
    assert_eq!(extract_version("jdk build 1.8.0 hotspot").as_deref(), Some("1.8.0"));
    assert_eq!(extract_version("no digits anywhere"), None);
    assert_eq!(extract_version(""), None);
}

#[test]
fn marker_without_digit_is_skipped() {
    assert_eq!(extract_version("java version 21.0.3").as_deref(), Some("21.0.3"));
}

#[test]
fn vendors_are_normalised() {
    assert_eq!(
        extract_vendor("OpenJDK Runtime Environment Temurin-25+36"),
        "Eclipse Temurin (Adoptium)"
    );
    assert_eq!(extract_vendor("Oracle GraalVM 25"), "Oracle");
    assert_eq!(extract_vendor("GraalVM CE"), "GraalVM");
    assert_eq!(extract_vendor("Amazon.com Inc."), "Amazon Corretto");
    assert_eq!(extract_vendor("Corretto-25"), "Amazon Corretto");
    assert_eq!(extract_vendor("Zulu25.28+85-CA"), "Azul Zulu");
    assert_eq!(extract_vendor("OpenJDK 64-Bit Server VM"), "OpenJDK");
    assert_eq!(extract_vendor("Something Else"), "Something Else");
}

#[test]
fn major_versions() {
    assert_eq!(major_version_of("25.0.1"), Some(25));
    assert_eq!(major_version_of("17"), Some(17));
    assert_eq!(major_version_of("abc"), None);
    assert_eq!(major_version_of(""), None);
    assert_eq!(major_version_of(".5"), None);
}

#[test]
fn valid_installation_report() {
    let info = parse_java_version_output(
        "openjdk 25.0.1 2025-09-16",
        Some("OpenJDK Runtime Environment Temurin-25+36"),
        "/usr/bin/java",
    );
    assert!(info.installed);
    assert!(info.is_valid);
    assert_eq!(info.version.as_deref(), Some("25.0.1"));
    assert_eq!(info.major_version, Some(25));
    assert_eq!(info.vendor.as_deref(), Some("Eclipse Temurin (Adoptium)"));
    assert_eq!(info.java_path.as_deref(), Some("/usr/bin/java"));
    assert_eq!(info.error, None);
}

#[test]
fn old_installation_is_reported_invalid() {
    let info = parse_java_version_output("openjdk 17.0.2 2022-01-18", None, "java");
    assert!(info.installed);
    assert!(!info.is_valid);
    assert_eq!(info.major_version, Some(17));
    assert_eq!(
        info.error.as_deref(),
        Some("Java 25 or higher is required. Found version: 17")
    );
}

#[test]
fn unreadable_version_is_reported_invalid() {
    let info = parse_java_version_output("gibberish output", None, "java");
    assert!(!info.is_valid);
    assert_eq!(info.major_version, None);
    assert_eq!(
        info.error.as_deref(),
        Some("Java 25 or higher is required. Found version: 0")
    );
}

fn candidate(path: &str, valid: bool) -> JavaInfo {
    JavaInfo {
        installed: true,
        version: None,
        major_version: None,
        vendor: None,
        is_valid: valid,
        java_path: Some(String::from(path)),
        error: None,
    }
}

#[test]
fn first_valid_candidate_wins() {
    let found = find_java_25_installation(vec![
        candidate("/a", false),
        candidate("/b", true),
        candidate("/c", true),
    ])
    .expect("a valid candidate exists");
    assert_eq!(found.java_path.as_deref(), Some("/b"));
    assert!(find_java_25_installation(vec![candidate("/a", false)]).is_none());
    assert!(find_java_25_installation(Vec::new()).is_none());
}

#[test]
fn discovery_prefers_a_valid_path_java() {
    let valid = candidate("/path", true);
    let invalid = candidate("/path", false);
    let scanned = candidate("/scan", true);
    assert_eq!(
        choose_java(Some(valid.clone()), Some(scanned.clone())).java_path.as_deref(),
        Some("/path")
    );
    assert_eq!(
        choose_java(Some(invalid.clone()), Some(scanned.clone())).java_path.as_deref(),
        Some("/scan")
    );
    assert_eq!(
        choose_java(Some(invalid.clone()), None).java_path.as_deref(),
        Some("/path")
    );
    let none = choose_java(None, None);
    assert!(!none.installed);
    assert_eq!(
        none.error.as_deref(),
        Some("Java not found. Please install Java 25 or higher.")
    );
}
