use mecha_launcher::java::{check_installer_java, parse_java_major, resolve_installer_java, resolve_java_executable};
use mecha_launcher::manifest::JavaVersion;

#[test]
fn parses_java_8_version_output() {
    let output = r#"java version "1.8.0_291""#;
    assert_eq!(parse_java_major(output), Some(8));
}

#[test]
fn parses_modern_java_version_output() {
    assert_eq!(parse_java_major("openjdk version \"21.0.2\" 2024-01-16\nOpenJDK Runtime"), Some(21));
    assert_eq!(parse_java_major("command not found"), None);
}

fn delta() -> JavaVersion {
    JavaVersion { component: "java-runtime-delta".to_string(), major_version: 21 }
}

#[test]
fn declared_runtime_is_used_and_never_replaced_by_path() {
    let version = delta();
    let found = resolve_java_executable(Some(&version), None, Some("/mc/runtime/bin/java".to_string()), Some(21), false);
    assert_eq!(found.unwrap(), "/mc/runtime/bin/java");
    let missing = resolve_java_executable(Some(&version), None, None, Some(21), false).err().unwrap();
    assert!(missing.0.contains("requires Java 21"));
}

#[test]
fn system_java_must_report_the_required_major() {
    assert_eq!(resolve_java_executable(None, None, None, Some(8), false).unwrap(), "java");
    assert_eq!(resolve_java_executable(None, None, None, Some(8), true).unwrap(), "java.exe");
    assert_eq!(
        resolve_java_executable(None, Some(17), None, Some(8), false).err().unwrap().0,
        "The system Java runtime reports major version 8, but the selected version requires Java 17."
    );
    assert_eq!(
        resolve_java_executable(None, Some(17), None, None, true).err().unwrap().0,
        "Unable to find a compatible Java runtime in .minecraft/runtime or in PATH."
    );
}

#[test]
fn optifine_installer_needs_java_11() {
    assert!(resolve_installer_java(None, false).is_err());
    assert_eq!(resolve_installer_java(Some(8), false).unwrap(), "java");
    assert_eq!(resolve_installer_java(Some(8), true).unwrap(), "java.exe");
    assert_eq!(check_installer_java(Some(17)).unwrap(), 17);
    assert_eq!(
        check_installer_java(Some(8)).err().unwrap().0,
        "The OptiFine installer needs Java 11 or newer, but PATH reports Java 8."
    );
    assert!(check_installer_java(None).is_err());
}
