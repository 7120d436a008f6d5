use mecha_launcher::install::{
    asset_object_location, build_redux_manifest, part_file_name, default_mods_subdir, launcher_profiles_update,
    redux_manifest_from_edit, JsonEdit, file_matches, installer_poll_step, launcher_profiles_action, redux_version_fields,
    InstallerPoll, ProfilesFileAction,
    collect_required_libraries, ensure_trailing_slash, fallback_library_artifact, find_redux_pack,
    find_version_url, installer_output_details, is_mod_jar, is_redux_pack_dir_name, java_runtime_platform_key,
    list_redux_install_options, maven_artifact_path, recommended_java_for_minecraft, should_emit_progress,
    validate_bytes, vanilla_releases, verify_optifine_install, DownloadArtifact, GameLibrary,
    GameLibraryDownloads, ReduxPackManifest, VersionManifestEntry,
};
use mecha_launcher::paths::{check_delete_target, path_starts_with, safe_join};
use mecha_launcher::rules::RuntimeEnvironment;
use mecha_launcher::runtime::{
    find_runtime_entry, runtime_entries_of_kind, RuntimeComponent, RuntimeFile, RuntimeManifestRef, RuntimePlatform,
};

#[test]
fn builds_maven_artifact_paths() {
    assert_eq!(
        maven_artifact_path("net.minecraft:launchwrapper:1.12", None),
        Some("net/minecraft/launchwrapper/1.12/launchwrapper-1.12.jar".to_string())
    );
    assert_eq!(
        maven_artifact_path("org.lwjgl.lwjgl:lwjgl-platform:2.9.4", Some("natives-linux")),
        Some("org/lwjgl/lwjgl/lwjgl-platform/2.9.4/lwjgl-platform-2.9.4-natives-linux.jar".to_string())
    );
}

fn linux() -> RuntimeEnvironment {
    RuntimeEnvironment {
        os_name: "linux".to_string(),
        os_arch: "x86_64".to_string(),
        arch_bits: "64".to_string(),
        os_version: None,
        features: Vec::new(),
    }
}

#[test]
fn required_libraries_skip_native_only_base_artifact() {
    let classifiers = vec![(
        "natives-linux".to_string(),
        DownloadArtifact {
            path: Some("net/java/jinput/jinput-platform/2.0.5/jinput-platform-2.0.5-natives-linux.jar".to_string()),
            sha1: None,
            size: None,
            url: "https://libraries.minecraft.net/net/java/jinput/jinput-platform/2.0.5/jinput-platform-2.0.5-natives-linux.jar"
                .to_string(),
        },
    )];
    let natives = vec![("linux".to_string(), "natives-linux".to_string())];
    let environment = linux();

    let artifacts = collect_required_libraries(
        &environment,
        &vec![GameLibrary {
            name: Some("net.java.jinput:jinput-platform:2.0.5".to_string()),
            url: None,
            downloads: Some(GameLibraryDownloads { artifact: None, classifiers }),
            natives,
            rules: Vec::new(),
        }],
    )
    .expect("libraries should resolve");

    assert_eq!(artifacts.len(), 1);
    assert!(artifacts[0]
        .path
        .as_ref()
        .expect("path should exist")
        .ends_with("jinput-platform-2.0.5-natives-linux.jar"));
}

#[test]
fn libraries_without_downloads_fall_back_to_maven_urls() {
    let library = GameLibrary {
        name: Some("net.minecraft:launchwrapper:1.12".to_string()),
        url: Some("https://maven.example.org".to_string()),
        downloads: None,
        natives: Vec::new(),
        rules: Vec::new(),
    };
    let fallback = fallback_library_artifact(&library).unwrap();
    assert_eq!(
        fallback.url,
        "https://maven.example.org/net/minecraft/launchwrapper/1.12/launchwrapper-1.12.jar"
    );
    assert_eq!(fallback.sha1, None);
    let natives = GameLibrary {
        name: Some("org.lwjgl.lwjgl:lwjgl-platform:2.9.4".to_string()),
        url: None,
        downloads: None,
        natives: vec![("linux".to_string(), "natives-${arch}".to_string())],
        rules: Vec::new(),
    };
    let artifacts = collect_required_libraries(&linux(), &vec![natives]).unwrap();
    assert_eq!(artifacts.len(), 1);
    assert_eq!(
        artifacts[0].url,
        "https://libraries.minecraft.net/org/lwjgl/lwjgl/lwjgl-platform/2.9.4/lwjgl-platform-2.9.4-natives-64.jar"
    );
    assert_eq!(ensure_trailing_slash("a/"), "a/");
    assert_eq!(ensure_trailing_slash("a"), "a/");
}

#[test]
fn safe_join_rejects_path_traversal() {
    for windows in [false, true] {
        assert!(safe_join("/tmp/root", "../escape", windows).is_err());
        assert!(safe_join("/tmp/root", "libraries/demo.jar", windows).is_ok());
    }
}

#[test]
fn safe_join_keeps_relative_paths_under_the_base() {
    for windows in [false, true] {
        assert_eq!(
            safe_join("/tmp/root", "libraries/demo.jar", windows).unwrap(),
            "/tmp/root/libraries/demo.jar"
        );
        assert!(safe_join("/tmp/root", "/etc/passwd", windows).is_err());
        assert!(safe_join("/tmp/root", "a/../../b", windows).is_err());
        assert!(safe_join("/tmp/root", "a/..b/c", windows).is_ok());
    }
    assert_eq!(
        safe_join("/tmp/root", "/etc/passwd", false).err().unwrap().0,
        "Refusing to write absolute path from manifest: /etc/passwd"
    );
}

#[test]
fn safe_join_reads_backslashes_and_prefixes_only_on_windows() {
    assert_eq!(
        safe_join("/tmp/root", "..\\escape", true).err().unwrap().0,
        "Refusing unsafe manifest path: ..\\escape"
    );
    assert!(safe_join("/tmp/root", "a\\..\\..\\b", true).is_err());
    assert_eq!(safe_join("/tmp/root", "C:x", true).err().unwrap().0, "Refusing unsafe manifest path: C:x");
    assert_eq!(
        safe_join("/tmp/root", "c:\\windows", true).err().unwrap().0,
        "Refusing to write absolute path from manifest: c:\\windows"
    );
    assert_eq!(
        safe_join("/tmp/root", "\\\\server\\share", true).err().unwrap().0,
        "Refusing to write absolute path from manifest: \\\\server\\share"
    );
    assert_eq!(
        safe_join("/tmp/root", "/etc/passwd", true).err().unwrap().0,
        "Refusing unsafe manifest path: /etc/passwd"
    );
    assert!(safe_join("/tmp/root", "a\\..b\\c.jar", true).is_ok());

    assert_eq!(safe_join("/tmp/root", "a\\..\\b", false).unwrap(), "/tmp/root/a\\..\\b");
    assert_eq!(safe_join("/tmp/root", "..\\escape", false).unwrap(), "/tmp/root/..\\escape");
    assert_eq!(safe_join("/tmp/root", "C:x", false).unwrap(), "/tmp/root/C:x");
    assert!(safe_join("/tmp/root", "\\\\server\\share", false).is_ok());
}

#[test]
fn installer_output_details_is_bounded_to_tail() {
    let stdout = (0..120).map(|line| format!("line {line}")).collect::<Vec<_>>().join("\n");

    let details = installer_output_details(&stdout, "root cause");

    assert!(details.contains("last 80 lines"));
    assert!(!details.contains("line 0"));
    assert!(details.contains("line 119"));
    assert!(details.contains("root cause"));
}

#[test]
fn installer_output_details_is_empty_without_output_and_capped_in_length() {
    assert_eq!(installer_output_details("  \n", "\t"), "");
    assert_eq!(installer_output_details("one\r\ntwo", ""), "\n\nInstaller output:\none\ntwo");
    let long = "x".repeat(20000);
    let details = installer_output_details(&long, "");
    assert_eq!(details.chars().count(), "\n\nInstaller output:\n".len() + 12000);
}

#[test]
fn recommended_java_follows_the_minor_version() {
    assert_eq!(recommended_java_for_minecraft("1.8.9"), 8);
    assert_eq!(recommended_java_for_minecraft("1.16.5"), 8);
    assert_eq!(recommended_java_for_minecraft("1.17"), 16);
    assert_eq!(recommended_java_for_minecraft("1.18.2"), 17);
    assert_eq!(recommended_java_for_minecraft("1.20.4"), 17);
    assert_eq!(recommended_java_for_minecraft("1.21"), 21);
    assert_eq!(recommended_java_for_minecraft("snapshot"), 8);
}

#[test]
fn downloads_are_checked_by_size_then_sha1() {
    assert!(validate_bytes(b"abc", Some("a9993e364706816aba3e25717850c26c9cd0d89d"), Some(3), "u").is_ok());
    assert_eq!(
        validate_bytes(b"abc", None, Some(4), "u").err().unwrap().0,
        "Downloaded size mismatch for u: expected 4, got 3."
    );
    assert_eq!(
        validate_bytes(b"abc", Some("00"), None, "u").err().unwrap().0,
        "Downloaded SHA-1 mismatch for u: expected 00, got a9993e364706816aba3e25717850c26c9cd0d89d."
    );
}

#[test]
fn progress_and_platform_keys() {
    assert!(should_emit_progress(1, 100));
    assert!(should_emit_progress(50, 100));
    assert!(should_emit_progress(100, 100));
    assert!(!should_emit_progress(7, 100));
    assert_eq!(java_runtime_platform_key("linux", "x86_64").as_deref(), Some("linux"));
    assert_eq!(java_runtime_platform_key("macos", "x86_64").as_deref(), Some("mac-os"));
    assert_eq!(java_runtime_platform_key("macos", "aarch64").as_deref(), Some("mac-os-arm64"));
    assert_eq!(java_runtime_platform_key("freebsd", "x86_64"), None);
}

fn entry(id: &str, kind: &str) -> VersionManifestEntry {
    VersionManifestEntry {
        id: id.to_string(),
        kind: kind.to_string(),
        url: format!("https://example.org/{id}.json"),
        release_time: None,
    }
}

#[test]
fn vanilla_releases_keep_mojang_order() {
    let entries = vec![entry("24w10a", "snapshot"), entry("1.20.4", "release"), entry("1.9", "release")];
    let releases = vanilla_releases(&entries);
    let ids = releases.iter().map(|r| r.id.as_str()).collect::<Vec<_>>();
    assert_eq!(ids, vec!["1.20.4", "1.9"]);
    assert_eq!(find_version_url(&entries, "1.9").unwrap(), "https://example.org/1.9.json");
    assert_eq!(
        find_version_url(&entries, "2.0").err().unwrap().0,
        "Minecraft 2.0 was not found in Mojang's version manifest."
    );
}

fn pack(id: &str) -> ReduxPackManifest {
    ReduxPackManifest {
        id: id.to_string(),
        title: "Minecraft 1.16.5 Redux".to_string(),
        minecraft_version: "1.16.5".to_string(),
        fabric_loader_version: "0.16.10".to_string(),
        mods_subdir: ".".to_string(),
        recommended_java_major: 8,
    }
}

#[test]
fn list_redux_install_options_reads_pack_manifest() {
    let options = list_redux_install_options(&vec![pack("1.16.5-redux")]);

    assert_eq!(options.len(), 1);
    assert_eq!(options[0].id, "1.16.5-redux");
    assert_eq!(options[0].minecraft_version, "1.16.5");
    assert_eq!(options[0].fabric_loader_version, "0.16.10");
}

#[test]
fn redux_options_are_sorted_and_found_by_id() {
    let packs = vec![pack("b-redux"), pack("a-redux")];
    let options = list_redux_install_options(&packs);
    assert_eq!(options[0].id, "a-redux");
    assert_eq!(options[0].summary, "Fabric 0.16.10 con mods curados para Minecraft 1.16.5.");
    assert_eq!(find_redux_pack(&packs, "a-redux").unwrap(), 1);
    assert_eq!(find_redux_pack(&packs, "x").err().unwrap().0, "Unknown redux install option: x");
    assert!(is_redux_pack_dir_name("minecraft-1.16.5-redux"));
    assert!(!is_redux_pack_dir_name("minecraft-1.16.5"));
    assert!(is_mod_jar("fabric-api.JAR"));
    assert!(!is_mod_jar("README.txt"));
    assert!(!is_mod_jar(".jar"));
}

#[test]
fn optifine_install_reports_the_first_missing_file() {
    let found = vec![("a.json".to_string(), true), ("a.jar".to_string(), false), ("lib.jar".to_string(), false)];
    assert_eq!(
        verify_optifine_install(&found).err().unwrap().0,
        "OptiFine installer did not create required file: a.jar"
    );
    assert!(verify_optifine_install(&vec![("a.json".to_string(), true)]).is_ok());
}

#[test]
fn existing_files_are_kept_only_when_they_match() {
    let sha = "a9993e364706816aba3e25717850c26c9cd0d89d";
    assert!(!file_matches(false, 3, b"abc", Some(sha), Some(3)));
    assert!(file_matches(true, 3, b"abc", Some(sha), Some(3)));
    assert!(!file_matches(true, 4, b"abc", Some(sha), Some(3)));
    assert!(!file_matches(true, 3, b"abd", Some(sha), None));
    assert!(file_matches(true, 1, b"", None, None));
    assert!(!file_matches(true, 0, b"", None, None));
}

#[test]
fn versions_are_deleted_only_inside_the_versions_directory() {
    use_paths();
}

fn use_paths() {
    assert!(path_starts_with("/mc/versions/1.8.9", "/mc/versions"));
    assert!(path_starts_with("/mc/versions//1.8.9/", "/mc/versions/"));
    assert!(!path_starts_with("/mc/versions-old/x", "/mc/versions"));
    assert!(!path_starts_with("/mc", "/mc/versions"));
    assert!(path_starts_with("./a/b", "./a"));
    assert_eq!(check_delete_target("/mc/versions/x", "/mc/versions", true, true), Ok(true));
    assert_eq!(check_delete_target("/mc/versions/x", "/mc/versions", false, false), Ok(false));
    assert_eq!(
        check_delete_target("/etc", "/mc/versions", true, true),
        Err("Refusing to delete version outside versions directory.".to_string())
    );
    assert_eq!(
        check_delete_target("/mc/versions/x", "/mc/versions", true, false),
        Err("Target version path is not a directory.".to_string())
    );
}

#[test]
fn the_versions_directory_itself_is_never_deleted() {
    for target in ["/mc/versions", "/mc/versions/", "/mc/versions/."] {
        assert_eq!(
            check_delete_target(target, "/mc/versions", true, true),
            Err("Refusing to delete the versions directory itself.".to_string())
        );
    }
}

#[test]
fn asset_objects_are_keyed_by_their_hash_prefix() {
    let (path, url) = asset_object_location("/mc", "ab12cd").unwrap();
    assert_eq!(path, "/mc/assets/objects/ab/ab12cd");
    assert_eq!(url, "https://resources.download.minecraft.net/ab/ab12cd");
    assert_eq!(asset_object_location("/mc", "a").err().unwrap().0, "Asset hash is too short.");
}

#[test]
fn installer_poll_takes_the_exit_before_the_time_limit() {
    assert_eq!(installer_poll_step(Some(true), 999_999), InstallerPoll::Succeeded);
    assert_eq!(installer_poll_step(Some(false), 0), InstallerPoll::Failed);
    assert_eq!(installer_poll_step(None, 300_000), InstallerPoll::Wait);
    assert_eq!(installer_poll_step(None, 300_001), InstallerPoll::TimedOut);
}

fn runtime_ref(url: &str) -> RuntimeManifestRef {
    RuntimeManifestRef { url: url.to_string(), sha1: None, size: None }
}

#[test]
fn java_runtime_is_the_first_build_of_the_component_on_the_platform() {
    let index = vec![
        RuntimePlatform {
            platform: "windows-x64".to_string(),
            components: vec![RuntimeComponent { component: "jre-legacy".to_string(), entries: vec![runtime_ref("w")] }],
        },
        RuntimePlatform {
            platform: "linux".to_string(),
            components: vec![
                RuntimeComponent { component: "jre-legacy".to_string(), entries: vec![] },
                RuntimeComponent {
                    component: "java-runtime-delta".to_string(),
                    entries: vec![runtime_ref("first"), runtime_ref("second")],
                },
            ],
        },
    ];
    let (p, c) = find_runtime_entry(&index, "linux", "java-runtime-delta").unwrap();
    assert_eq!(index[p].components[c].entries[0].url, "first");
    assert_eq!(
        find_runtime_entry(&index, "linux", "jre-legacy").err().unwrap().0,
        "Mojang does not publish jre-legacy for platform linux."
    );
    assert!(find_runtime_entry(&index, "mac-os", "jre-legacy").is_err());
}

#[test]
fn runtime_manifest_entries_are_picked_by_type_in_order() {
    let entry = |path: &str, kind: &str| RuntimeFile {
        path: path.to_string(),
        file_type: kind.to_string(),
        raw: None,
        executable: false,
        target: None,
    };
    let files = vec![entry("bin", "directory"), entry("bin/java", "file"), entry("lib/x", "link"), entry("README", "file")];
    assert_eq!(runtime_entries_of_kind(&files, "file"), vec![1, 3]);
    assert_eq!(runtime_entries_of_kind(&files, "directory"), vec![0]);
    assert_eq!(runtime_entries_of_kind(&files, "link"), vec![2]);
}

#[test]
fn redux_versions_set_their_id_parent_and_game_directory() {
    let pack = ReduxPackManifest {
        id: "mecha-redux".to_string(),
        title: "Redux".to_string(),
        minecraft_version: "1.21.1".to_string(),
        fabric_loader_version: "0.16.0".to_string(),
        mods_subdir: "mods".to_string(),
        recommended_java_major: 21,
    };
    let fields = redux_version_fields(&pack, "/mc/instances/mecha-redux");
    assert_eq!(fields.id, "mecha-redux");
    assert_eq!(fields.inherits_from, "1.21.1");
    assert_eq!(fields.version_type, "release");
    assert_eq!(fields.game_directory, "/mc/instances/mecha-redux");
    assert_eq!(fields.source_kind, "redux");
}

#[test]
fn launcher_profiles_file_is_created_or_repaired() {
    assert_eq!(launcher_profiles_action(false, false, false), ProfilesFileAction::CreateMinimal);
    assert_eq!(launcher_profiles_action(true, false, false), ProfilesFileAction::NotAnObject);
    assert_eq!(launcher_profiles_action(true, true, false), ProfilesFileAction::AddProfiles);
    assert_eq!(launcher_profiles_action(true, true, true), ProfilesFileAction::Keep);
}

#[test]
fn build_redux_manifest_sets_id_inherits_and_mecha_metadata() {
    let manifest = ReduxPackManifest {
        id: "1.16.5-redux".to_string(),
        title: "Minecraft 1.16.5 Redux".to_string(),
        minecraft_version: "1.16.5".to_string(),
        fabric_loader_version: "0.16.10".to_string(),
        mods_subdir: default_mods_subdir(),
        recommended_java_major: 8,
    };

    let rendered = build_redux_manifest(
        r#"{"id":"fabric-loader-0.16.10-1.16.5","mainClass":"net.fabricmc.loader.impl.launch.knot.KnotClient"}"#,
        &manifest,
        "/tmp/.minecraft/mecha-instances/1.16.5-redux",
    )
    .expect("redux manifest should render");
    let parsed = serde_json::from_str::<serde_json::Value>(&rendered).expect("manifest should parse");

    assert_eq!(parsed["id"], "1.16.5-redux");
    assert_eq!(parsed["inheritsFrom"], "1.16.5");
    assert_eq!(parsed["mecha"]["sourceKind"], serde_json::Value::String("redux".to_string()));
    assert_eq!(parsed["mecha"]["gameDirectory"], "/tmp/.minecraft/mecha-instances/1.16.5-redux");
    assert_eq!(parsed["type"], "release");
    assert_eq!(parsed["mainClass"], "net.fabricmc.loader.impl.launch.knot.KnotClient");

    assert_eq!(
        build_redux_manifest("[1, 2]", &manifest, "/g").err().unwrap().0,
        "Fabric profile manifest did not contain a JSON object."
    );
    assert!(build_redux_manifest("{not json", &manifest, "/g")
        .err()
        .unwrap()
        .0
        .starts_with("Invalid Fabric profile manifest: "));
    assert_eq!(redux_manifest_from_edit(JsonEdit::Edited("{}".to_string())).unwrap(), "{}");
    assert_eq!(
        redux_manifest_from_edit(JsonEdit::Unserializable("x".to_string())).err().unwrap().0,
        "Failed to serialize redux manifest: x"
    );
}

#[test]
fn ensure_launcher_profiles_json_creates_minimal_profile_file() {
    let contents = launcher_profiles_update("/mc/launcher_profiles.json", None)
        .expect("launcher profiles should be created")
        .expect("a new file should be written");
    let parsed = serde_json::from_str::<serde_json::Value>(&contents).expect("profile file should be valid JSON");

    assert!(parsed.get("profiles").and_then(|profiles| profiles.as_object()).is_some());
    assert_eq!(parsed["selectedProfile"], "OptiFine");
}

#[test]
fn launcher_profiles_are_repaired_kept_or_refused() {
    let path = "/mc/launcher_profiles.json";
    let repaired = launcher_profiles_update(path, Some(r#"{"profiles": 3, "other": true}"#)).unwrap().unwrap();
    let parsed = serde_json::from_str::<serde_json::Value>(&repaired).unwrap();
    assert!(parsed["profiles"].as_object().unwrap().is_empty());
    assert_eq!(parsed["other"], true);
    assert!(launcher_profiles_update(path, Some(r#"{"profiles": {"a": {}}}"#)).unwrap().is_none());
    assert_eq!(
        launcher_profiles_update(path, Some("[]")).err().unwrap().0,
        "Invalid launcher profile file /mc/launcher_profiles.json: expected a JSON object."
    );
    assert!(launcher_profiles_update(path, Some("{oops"))
        .err()
        .unwrap()
        .0
        .starts_with("Invalid launcher profile file /mc/launcher_profiles.json: "));
}

#[test]
fn partial_downloads_are_hidden_with_a_part_suffix() {
    assert_eq!(part_file_name(Some("demo-1.0.jar")), ".demo-1.0.jar.part");
    assert_eq!(part_file_name(None), ".download.part");
}

#[test]
fn asset_prefix_is_the_first_two_bytes_of_the_hash() {
    let (path, url) = asset_object_location("/mc", "é").unwrap();
    assert_eq!(path, "/mc/assets/objects/é/é");
    assert_eq!(url, "https://resources.download.minecraft.net/é/é");
    assert_eq!(asset_object_location("/mc", "aé").err().unwrap().0, "Asset hash is too short.");
    assert_eq!(asset_object_location("/mc", "€x").err().unwrap().0, "Asset hash is too short.");
    assert_eq!(asset_object_location("/mc", "").err().unwrap().0, "Asset hash is too short.");
}
