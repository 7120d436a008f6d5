use mecha_launcher::discovery::{
    default_minecraft_dir_for, list_versions, resolve_asset_index_path, resolve_version_artifact_paths,
    validate_minecraft_directory, version_artifact_paths, ArtifactProbe, MinecraftDirProbe,
    MinecraftVersionSummary,
};
use mecha_launcher::manifest::ResolvedManifest;

#[test]
fn windows_default_uses_appdata() {
    let result = default_minecraft_dir_for(
        "windows",
        Some("C:/Users/example"),
        Some("C:/Users/example/AppData/Roaming"),
    )
    .expect("windows default should resolve");

    assert_eq!(result, "C:/Users/example/AppData/Roaming/.minecraft");
}

#[test]
fn macos_default_uses_application_support() {
    let result = default_minecraft_dir_for("macos", Some("/Users/example"), None)
        .expect("macos default should resolve");

    assert_eq!(result, "/Users/example/Library/Application Support/minecraft");
}

#[test]
fn linux_default_uses_home_hidden_folder() {
    let result = default_minecraft_dir_for("linux", Some("/home/example"), None)
        .expect("linux default should resolve");

    assert_eq!(result, "/home/example/.minecraft");
}

#[test]
fn windows_default_falls_back_to_home_roaming() {
    let result = default_minecraft_dir_for("windows", Some("C:/Users/example"), None);
    assert_eq!(result.as_deref(), Some("C:/Users/example/AppData/Roaming/.minecraft"));
    assert_eq!(default_minecraft_dir_for("linux", None, Some("/x")), None);
}

fn probe(exists: bool, is_dir: bool, versions: bool, libraries: bool, assets: bool) -> MinecraftDirProbe {
    MinecraftDirProbe {
        exists,
        is_dir,
        versions_is_dir: versions,
        libraries_is_dir: libraries,
        assets_is_dir: assets,
    }
}

#[test]
fn minecraft_directory_checks_come_in_order() {
    let dir = "/home/example/.minecraft";
    assert!(validate_minecraft_directory(dir, &probe(true, true, true, true, true)).is_ok());
    assert_eq!(
        validate_minecraft_directory(dir, &probe(false, false, false, false, false)).unwrap_err().0,
        "Minecraft directory does not exist: /home/example/.minecraft"
    );
    assert_eq!(
        validate_minecraft_directory(dir, &probe(true, false, true, true, true)).unwrap_err().0,
        "Minecraft path is not a directory: /home/example/.minecraft"
    );
    assert_eq!(
        validate_minecraft_directory(dir, &probe(true, true, true, false, false)).unwrap_err().0,
        "Missing required Minecraft directory: /home/example/.minecraft/libraries"
    );
}

#[test]
fn version_artifacts_are_checked_in_order() {
    let paths = version_artifact_paths("/mc", "1.20.1");
    assert_eq!(paths.version_dir, "/mc/versions/1.20.1");
    assert_eq!(paths.manifest_file, "/mc/versions/1.20.1/1.20.1.json");
    assert_eq!(paths.version_jar, "/mc/versions/1.20.1/1.20.1.jar");

    let all = ArtifactProbe { version_dir_is_dir: true, manifest_is_file: true, jar_is_file: true };
    assert!(resolve_version_artifact_paths("/mc", "1.20.1", &all).is_ok());
    let no_jar = ArtifactProbe { version_dir_is_dir: true, manifest_is_file: true, jar_is_file: false };
    assert_eq!(
        resolve_version_artifact_paths("/mc", "1.20.1", &no_jar).err().unwrap().0,
        "Missing version jar file: /mc/versions/1.20.1/1.20.1.jar"
    );
}

fn manifest(asset_index_id: Option<&str>) -> ResolvedManifest {
    ResolvedManifest {
        id: "demo".to_string(),
        main_class: "net.minecraft.Main".to_string(),
        asset_index_id: asset_index_id.map(|s| s.to_string()),
        asset_index_url: None,
        asset_index_sha1: None,
        asset_index_size: None,
        java_version: None,
        version_type: "release".to_string(),
        game_directory: None,
        source_kind: None,
        libraries: Vec::new(),
        modern_arguments: None,
        legacy_minecraft_arguments: None,
    }
}

#[test]
fn asset_index_path_needs_an_asset_index() {
    assert_eq!(
        resolve_asset_index_path("/mc", &manifest(Some("17"))).ok().unwrap(),
        "/mc/assets/indexes/17.json"
    );
    assert_eq!(
        resolve_asset_index_path("/mc", &manifest(None)).err().unwrap().0,
        "The selected manifest does not declare an asset index."
    );
}

fn summary(folder: &str) -> MinecraftVersionSummary {
    MinecraftVersionSummary {
        id: folder.to_string(),
        folder_name: folder.to_string(),
        jar_path: String::new(),
        manifest_path: String::new(),
        java_component: None,
        java_major_version: None,
        game_directory: None,
        source_kind: None,
    }
}

#[test]
fn versions_are_sorted_by_lowercase_folder_name_stably() {
    let versions = vec![summary("b"), summary("B-2"), summary("a"), summary("Zeta"), summary("A")];
    let sorted = list_versions(versions);
    let names = sorted.iter().map(|v| v.folder_name.as_str()).collect::<Vec<_>>();
    assert_eq!(names, vec!["a", "A", "b", "B-2", "Zeta"]);
}

#[test]
fn list_versions_only_returns_complete_version_directories() {
    let minecraft_dir = "/tmp/example/.minecraft";
    let found = vec![
        ("valid", ArtifactProbe { version_dir_is_dir: true, manifest_is_file: true, jar_is_file: true }),
        ("missing-jar", ArtifactProbe { version_dir_is_dir: true, manifest_is_file: true, jar_is_file: false }),
    ];
    let mut complete = Vec::new();
    for (folder, probe) in &found {
        if let Ok(paths) = resolve_version_artifact_paths(minecraft_dir, folder, probe) {
            let mut s = summary(folder);
            s.jar_path = paths.version_jar;
            s.manifest_path = paths.manifest_file;
            complete.push(s);
        }
    }

    let versions = list_versions(complete);

    assert_eq!(versions.len(), 1);
    assert_eq!(versions[0].id, "valid");
    assert_eq!(versions[0].jar_path, "/tmp/example/.minecraft/versions/valid/valid.jar");
}
