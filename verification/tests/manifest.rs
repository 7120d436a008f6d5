use mecha_launcher::launch::LaunchVariables;
use mecha_launcher::manifest::{
    advance_inheritance_walk, check_inheritance_step, collect_launch_arguments, load_merged_manifest,
    split_legacy_arguments, ArgumentEntry,
    ArgumentsBlock, AssetIndexRef, Library, LibraryDownload, MavenCoordinates, RawManifest, ResolvedManifest,
};
use mecha_launcher::rules::RuntimeEnvironment;

fn linux() -> RuntimeEnvironment {
    RuntimeEnvironment::from_host("linux", "x86_64", true)
}

#[test]
fn split_legacy_arguments_keeps_quoted_values() {
    let parsed = split_legacy_arguments(r#"--username "Test Player" --demo"#);
    assert_eq!(parsed, vec!["--username", "Test Player", "--demo"]);
}

fn legacy_manifest() -> ResolvedManifest {
    ResolvedManifest {
        id: "test".to_string(),
        main_class: "net.minecraft.Main".to_string(),
        asset_index_id: Some("1.8".to_string()),
        asset_index_url: None,
        asset_index_sha1: None,
        asset_index_size: None,
        java_version: None,
        version_type: "release".to_string(),
        game_directory: None,
        source_kind: None,
        libraries: Vec::new(),
        modern_arguments: None,
        legacy_minecraft_arguments: Some(
            "--username ${auth_player_name} --version ${version_name}".to_string(),
        ),
    }
}

#[test]
fn collect_launch_arguments_supports_legacy_profiles() {
    let manifest = legacy_manifest();

    let variables = LaunchVariables::new(&manifest, "Player", "C:/minecraft", "C:/minecraft", "C:/minecraft/natives", &Vec::new(), false)
        .expect("launch variables should resolve");

    let arguments = collect_launch_arguments(&manifest, &variables, &linux())
        .expect("legacy arguments should resolve");

    assert!(arguments.jvm_arguments.iter().any(|value| value == "-cp"));
    assert_eq!(
        arguments.game_arguments,
        vec!["--username", "Player", "--version", "test"]
    );
}

#[test]
fn unknown_placeholders_and_missing_arguments_are_errors() {
    let mut manifest = legacy_manifest();
    manifest.legacy_minecraft_arguments = Some("--x ${nope}".to_string());
    let variables = LaunchVariables::new(&manifest, "Player", "/mc", "/mc", "/mc/natives", &Vec::new(), false).unwrap();
    let error = collect_launch_arguments(&manifest, &variables, &linux()).err().unwrap();
    assert_eq!(error.0, "Unsupported placeholder: ${nope}");

    manifest.legacy_minecraft_arguments = None;
    let error = collect_launch_arguments(&manifest, &variables, &linux()).err().unwrap();
    assert_eq!(error.0, "The selected version manifest does not expose launch arguments.");

    manifest.asset_index_id = None;
    let error = LaunchVariables::new(&manifest, "Player", "/mc", "/mc", "/mc/natives", &Vec::new(), false).err().unwrap();
    assert_eq!(error.0, "The selected version is missing an asset index.");
}

fn library(name: &str) -> Library {
    Library {
        name: Some(name.to_string()),
        artifact: None,
        classifiers: Vec::new(),
        classifies: Vec::new(),
        downloads: None,
        rules: Vec::new(),
        natives: Vec::new(),
        extract: None,
    }
}

#[test]
fn classifier_path_supports_legacy_classifies_by_os_key() {
    let mut library = library("org.lwjgl.lwjgl:lwjgl-platform:2.9.4");
    library.classifies = vec![(
        "windows".to_string(),
        LibraryDownload {
            path: Some(
                "org/lwjgl/lwjgl/lwjgl-platform/2.9.4/lwjgl-platform-2.9.4-natives-windows.jar".to_string(),
            ),
        },
    )];

    let path = library
        .classifier_path("C:/minecraft/libraries", "natives-windows")
        .expect("classifier should resolve")
        .expect("classifier path should exist");

    assert_eq!(
        path,
        "C:/minecraft/libraries/org/lwjgl/lwjgl/lwjgl-platform/2.9.4/lwjgl-platform-2.9.4-natives-windows.jar"
    );
}

#[test]
fn artifact_paths_follow_maven_layout() {
    let lib = library("com.example:demo:1.0.0");
    assert_eq!(
        lib.artifact_path("/mc/libraries").unwrap().unwrap(),
        "/mc/libraries/com/example/demo/1.0.0/demo-1.0.0.jar"
    );
    let bad = library("not-a-coordinate");
    assert_eq!(bad.artifact_path("/mc/libraries").err().unwrap().0, "Invalid Maven coordinate: not-a-coordinate");
    let parsed = MavenCoordinates::parse("a.b:c:1@zip").unwrap();
    assert_eq!(parsed.artifact_path("/l", Some("x")), "/l/a/b/c/1/c-1-x.zip");
    let mut native_only = library("org.lwjgl.lwjgl:lwjgl-platform:2.9.4");
    native_only.natives = vec![("linux".to_string(), "natives-linux".to_string())];
    assert_eq!(native_only.artifact_path("/mc/libraries").unwrap(), None);
    assert_eq!(native_only.native_classifier(&linux()).as_deref(), Some("natives-linux"));
}

fn raw(id: &str, parent: Option<&str>, main_class: Option<&str>, libraries: Vec<Library>, game: &[&str]) -> RawManifest {
    RawManifest {
        id: Some(id.to_string()),
        inherits_from: parent.map(|p| p.to_string()),
        main_class: main_class.map(|m| m.to_string()),
        asset_index: if parent.is_none() {
            Some(AssetIndexRef { id: Some("base-assets".to_string()), url: None, sha1: None, size: None })
        } else {
            None
        },
        java_version: None,
        libraries,
        arguments: Some(ArgumentsBlock {
            game: game.iter().map(|g| ArgumentEntry::String(g.to_string())).collect(),
            jvm: vec![ArgumentEntry::String("-cp".to_string())],
        }),
        minecraft_arguments: None,
        version_type: None,
        mecha: None,
    }
}

#[test]
fn merged_manifest_keeps_child_values_and_last_library_of_each_key() {
    let child = raw("child", Some("base"), Some("com.example.Child"), vec![library("com.example:other:1.0")], &["--child"]);
    let base = raw(
        "base",
        None,
        Some("com.example.Base"),
        vec![library("com.example:lib:1.0"), library("com.example:other:1.0")],
        &["--base"],
    );
    let resolved = load_merged_manifest("child", vec![child, base]).expect("manifest should resolve");
    assert_eq!(resolved.id, "child");
    assert_eq!(resolved.main_class, "com.example.Child");
    assert_eq!(resolved.version_type, "release");
    assert_eq!(resolved.asset_index_id.as_deref(), Some("base-assets"));
    let arguments = resolved.modern_arguments.expect("arguments should exist");
    assert_eq!(arguments.game.len(), 2);
    assert_eq!(arguments.jvm.len(), 2);
    let names = resolved.libraries.iter().map(|l| l.name.clone().unwrap()).collect::<Vec<_>>();
    assert_eq!(names, vec!["com.example:lib:1.0", "com.example:other:1.0"]);
}

#[test]
fn manifest_without_main_class_and_cycles_are_errors() {
    let lone = raw("x", None, None, Vec::new(), &[]);
    let error = load_merged_manifest("x", vec![lone]).err().unwrap();
    assert_eq!(error.0, "The selected version manifest does not define a main class: x");

    let visited = vec!["a".to_string(), "b".to_string()];
    assert!(check_inheritance_step(&visited, "c").is_ok());
    assert_eq!(
        check_inheritance_step(&visited, "a").err().unwrap().0,
        "Version inheritance cycle detected at a."
    );
}

#[test]
fn unquoted_legacy_arguments_are_split_on_blanks() {
    assert_eq!(
        split_legacy_arguments("  --username\t\t${auth_player_name}  --demo "),
        vec!["--username", "${auth_player_name}", "--demo"]
    );
    assert!(split_legacy_arguments(" \t ").is_empty());
}

#[test]
fn native_maps_read_the_same_in_any_order() {
    let mut forward = library("org.lwjgl.lwjgl:lwjgl-platform:2.9.4");
    forward.natives = vec![
        ("windows".to_string(), "natives-windows".to_string()),
        ("linux".to_string(), "natives-linux".to_string()),
    ];
    let mut backward = library("org.lwjgl.lwjgl:lwjgl-platform:2.9.4");
    backward.natives = vec![
        ("linux".to_string(), "natives-linux".to_string()),
        ("windows".to_string(), "natives-windows".to_string()),
    ];
    assert_eq!(forward.native_classifier(&linux()), backward.native_classifier(&linux()));
    assert_eq!(forward.native_classifier(&linux()).as_deref(), Some("natives-linux"));
}

#[test]
fn inheritance_walk_follows_parents_and_stops_at_cycles() {
    let mut visited = Vec::new();
    assert_eq!(advance_inheritance_walk(&mut visited, "child", Some("parent")).unwrap().as_deref(), Some("parent"));
    assert_eq!(advance_inheritance_walk(&mut visited, "parent", Some("child")).err().unwrap().0,
        "Version inheritance cycle detected at child.");
    assert_eq!(visited, vec!["child".to_string(), "parent".to_string()]);
    let mut single = Vec::new();
    assert!(advance_inheritance_walk(&mut single, "base", None).unwrap().is_none());
    assert_eq!(single, vec!["base".to_string()]);
}
