use mecha_launcher::classpath::{
    build_classpath_entries, classpath_candidates, native_archive_candidates, should_extract_native_entry,
};
use mecha_launcher::error::LauncherError;
use mecha_launcher::manifest::{Library, LibraryDownload, LibraryExtract};
use mecha_launcher::rules::{Rule, RuleAction, RuleOs, RuntimeEnvironment};

fn linux() -> RuntimeEnvironment {
    RuntimeEnvironment::from_host("linux", "x86_64", true)
}

fn library(name: &str) -> Library {
    Library {
        name: Some(name.to_string()),
        artifact: None,
        classifiers: Vec::new(),
        classifies: Vec::new(),
        downloads: None,
        rules: Vec::new(),
        natives: Vec::new(),
        extract: None,
    }
}

#[test]
fn classpath_keeps_each_jar_once_then_the_version_jar() {
    let libs = vec![library("com.example:demo:1.0.0"), library("com.example:demo:1.0.0"), library("net.minecraft:launchwrapper:1.7")];
    let (candidates, failure) = classpath_candidates(&libs, "/mc/libraries", &linux());
    assert!(failure.is_none());
    assert_eq!(candidates.len(), 3);
    let found = candidates.into_iter().map(|c| (c, true)).collect::<Vec<_>>();
    let entries = build_classpath_entries("/mc/versions/demo/demo.jar".to_string(), true, found, None).unwrap();
    assert_eq!(
        entries,
        vec![
            "/mc/libraries/com/example/demo/1.0.0/demo-1.0.0.jar",
            "/mc/libraries/net/minecraft/launchwrapper/1.7/launchwrapper-1.7.jar",
            "/mc/versions/demo/demo.jar"
        ]
    );
}

#[test]
fn missing_jars_are_reported_in_order() {
    let found = vec![("a.jar".to_string(), true), ("b.jar".to_string(), false)];
    let error = build_classpath_entries("v.jar".to_string(), true, found, Some(LauncherError::new("later".to_string())));
    assert_eq!(error.err().unwrap().0, "Missing library jar: b.jar");
    let error = build_classpath_entries("v.jar".to_string(), false, Vec::new(), None);
    assert_eq!(error.err().unwrap().0, "The selected version jar does not exist: v.jar");
    let error = build_classpath_entries("v.jar".to_string(), true, Vec::new(), Some(LauncherError::new("later".to_string())));
    assert_eq!(error.err().unwrap().0, "later");
}

#[test]
fn disallowed_and_native_only_libraries_stay_off_the_classpath() {
    let mut mac_only = library("com.example:mac:1.0");
    mac_only.rules = vec![Rule {
        action: RuleAction::Allow,
        os: Some(RuleOs { name: Some("osx".to_string()), arch: None, version: None }),
        features: Vec::new(),
    }];
    let mut natives = library("org.lwjgl.lwjgl:lwjgl-platform:2.9.4-nightly-20150209");
    natives.natives = vec![("linux".to_string(), "natives-linux".to_string())];
    natives.extract = Some(LibraryExtract { exclude: vec!["META-INF/".to_string(), "x/".to_string()] });
    let libs = vec![mac_only, natives];
    let (candidates, failure) = classpath_candidates(&libs, "/mc/libraries", &linux());
    assert!(candidates.is_empty());
    assert!(failure.is_none());

    let (archives, failure) = native_archive_candidates(&libs, "/mc/libraries", &linux());
    assert!(failure.is_none());
    assert_eq!(archives.len(), 1);
    assert_eq!(
        archives[0].0,
        "/mc/libraries/org/lwjgl/lwjgl/lwjgl-platform/2.9.4-nightly-20150209/lwjgl-platform-2.9.4-nightly-20150209-natives-linux.jar"
    );
    assert_eq!(archives[0].1, vec!["META-INF/", "x/"]);
}

#[test]
fn unresolvable_native_archives_are_errors() {
    let mut natives = library("bad");
    natives.name = None;
    natives.natives = vec![("linux".to_string(), "natives-linux".to_string())];
    let (archives, failure) = native_archive_candidates(&vec![natives], "/mc/libraries", &linux());
    assert!(archives.is_empty());
    assert_eq!(
        failure.unwrap().0,
        "The manifest references native classifier natives-linux but no archive could be resolved."
    );
    let mut broken = library("x");
    broken.artifact = Some(LibraryDownload { path: None });
    let (_, failure) = classpath_candidates(&vec![broken], "/mc/libraries", &linux());
    assert_eq!(failure.unwrap().0, "A library artifact entry is missing its path.");
}

#[test]
fn native_entries_skip_meta_inf_and_excluded_prefixes() {
    let excludes = vec!["org/".to_string()];
    assert!(should_extract_native_entry("liblwjgl.so", &excludes));
    assert!(!should_extract_native_entry("META-INF/MANIFEST.MF", &excludes));
    assert!(!should_extract_native_entry("META-INF\\x.sig", &excludes));
    assert!(!should_extract_native_entry("org/lwjgl/x.class", &excludes));
}
