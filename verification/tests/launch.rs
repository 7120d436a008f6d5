use mecha_launcher::hash::{offline_uuid, uuid_hyphenated};
use mecha_launcher::launch::{
    launch_jvm_arguments, launch_username, prepare_launch_plan, LaunchPlan, LaunchRequest, LaunchVariables,
    LauncherLogEvent, LauncherLogSource, LauncherStatusEvent, LauncherStatusState,
};
use mecha_launcher::classpath::{
    build_classpath_entries, classpath_candidates, native_archive_candidates, require_native_archive,
};
use mecha_launcher::discovery::{require_asset_index_file, resolve_asset_index_path};
use mecha_launcher::java::resolve_java_executable;
use mecha_launcher::manifest::{
    ArgumentEntry, ArgumentValue, ArgumentsBlock, ConditionalArgument, JavaVersion, Library, LibraryDownload,
    LibraryDownloads, ResolvedManifest,
};
use mecha_launcher::rules::RuntimeEnvironment;
use mecha_launcher::state::LaunchTracker;

fn manifest() -> ResolvedManifest {
    ResolvedManifest {
        id: "1.8.9".to_string(),
        main_class: "net.minecraft.client.main.Main".to_string(),
        asset_index_id: Some("1.8".to_string()),
        asset_index_url: None,
        asset_index_sha1: None,
        asset_index_size: None,
        java_version: None,
        version_type: "release".to_string(),
        game_directory: None,
        source_kind: None,
        libraries: Vec::new(),
        modern_arguments: None,
        legacy_minecraft_arguments: Some(
            "--username ${auth_player_name} --uuid ${auth_uuid} --gameDir ${game_directory} --userType ${user_type}"
                .to_string(),
        ),
    }
}

fn request(username: &str, max_memory_mb: Option<u32>) -> LaunchRequest {
    LaunchRequest {
        minecraft_dir: "/mc".to_string(),
        version_id: "1.8.9".to_string(),
        username: username.to_string(),
        required_java_major: None,
        max_memory_mb,
    }
}

#[test]
fn offline_uuid_is_name_based_version_3() {
    let bytes = offline_uuid("Player");
    assert_eq!(uuid_hyphenated(&bytes), "a01e3843-e521-3998-958a-f459800e4d11");
    assert_eq!(bytes[6] >> 4, 3);
    assert_eq!(bytes[8] >> 6, 2);
    assert_eq!(offline_uuid("Player"), bytes);
}

#[test]
fn launch_plan_uses_offline_defaults_and_memory_bounds() {
    let plan = prepare_launch_plan(
        "launch-1".to_string(),
        &request("   ", Some(24000)),
        manifest(),
        "/mc".to_string(),
        "/mc/natives",
        vec!["/mc/libraries/a.jar".to_string(), "/mc/versions/1.8.9/1.8.9.jar".to_string()],
        "java".to_string(),
        Some(16384),
        &RuntimeEnvironment::from_host("linux", "x86_64", true),
    )
    .expect("plan should build");
    assert_eq!(plan.launch_id, "launch-1");
    assert_eq!(plan.game_directory, "/mc");
    assert_eq!(plan.jvm_args[0], "-Xms1024M");
    assert_eq!(plan.jvm_args[1], "-Xmx12288M");
    assert_eq!(plan.jvm_args[2], "-Dminecraft.api.auth.host=https://nope.invalid");
    assert!(plan.jvm_args.iter().any(|a| a == "-cp"));
    assert_eq!(
        plan.game_args,
        vec![
            "--username",
            "Player",
            "--uuid",
            "a01e3843-e521-3998-958a-f459800e4d11",
            "--gameDir",
            "/mc",
            "--userType",
            "legacy"
        ]
    );
    let command = plan.command_arguments();
    assert_eq!(command.len(), plan.jvm_args.len() + 1 + plan.game_args.len());
    assert_eq!(command[plan.jvm_args.len()], "net.minecraft.client.main.Main");
}

#[test]
fn username_is_trimmed_and_defaults_to_player() {
    assert_eq!(launch_username("  Steve "), "Steve");
    assert_eq!(launch_username(""), "Player");
    assert_eq!(
        launch_jvm_arguments(512, 1024, vec!["-Dx=1".to_string()]),
        vec![
            "-Xms512M",
            "-Xmx1024M",
            "-Dminecraft.api.auth.host=https://nope.invalid",
            "-Dminecraft.api.account.host=https://nope.invalid",
            "-Dminecraft.api.session.host=https://nope.invalid",
            "-Dminecraft.api.services.host=https://nope.invalid",
            "-Dx=1"
        ]
    );
}

#[test]
fn launch_variables_resolve_offline_placeholders() {
    let variables = LaunchVariables::new(&manifest(), "Player", "/mc", "/mc", "/mc/natives", &vec!["a.jar".to_string()], false).unwrap();
    assert_eq!(variables.replace_placeholders("${clientid}|${auth_xuid}").unwrap(), "offline-client-id|0");
    assert_eq!(variables.replace_placeholders("${assets_root}").unwrap(), "/mc/assets");
    assert_eq!(variables.replace_placeholders("${quickPlayPath}").unwrap(), "");
    assert_eq!(
        variables.replace_placeholders("${missing}").err().unwrap().0,
        "Unsupported placeholder: ${missing}"
    );
}

#[test]
fn events_carry_what_they_are_given() {
    let status = LauncherStatusEvent::new("l".to_string(), LauncherStatusState::Error, Some("boom".to_string()));
    assert!(status.state == LauncherStatusState::Error);
    assert_eq!(status.message.as_deref(), Some("boom"));
    let log = LauncherLogEvent::new("l".to_string(), LauncherLogSource::Stdout, "hello".to_string());
    assert!(log.source == LauncherLogSource::Stdout);
    assert_eq!(log.line, "hello");
    let plan = LaunchPlan {
        launch_id: "l".to_string(),
        minecraft_dir: "/mc".to_string(),
        game_directory: "/mc".to_string(),
        version_id: "v".to_string(),
        java_executable: "java".to_string(),
        main_class: "Main".to_string(),
        jvm_args: vec!["-a".to_string()],
        game_args: vec!["--b".to_string(), "c".to_string()],
        classpath_entries: Vec::new(),
    };
    assert_eq!(plan.command_arguments(), vec!["-a", "Main", "--b", "c"]);
}

#[test]
fn only_one_launch_holds_the_tracker() {
    let mut tracker = LaunchTracker::new();
    assert!(tracker.try_acquire("first".to_string()));
    assert!(!tracker.try_acquire("second".to_string()));
    tracker.clear_if_matches("second");
    assert!(!tracker.try_acquire("third".to_string()));
    tracker.clear_if_matches("first");
    assert!(tracker.try_acquire("fourth".to_string()));
}

#[test]
fn game_directory_is_the_one_the_caller_passes() {
    let classpath = vec!["/mc/libraries/a.jar".to_string(), "/mc/versions/1.8.9/1.8.9.jar".to_string()];
    let unix = LaunchVariables::new(&manifest(), "Steve", "/mc", "/mc/inst/a", "/tmp/nat", &classpath, false).unwrap();
    assert_eq!(
        unix.replace_placeholders("${game_directory}|${assets_root}|${library_directory}|${natives_directory}|${classpath}")
            .unwrap(),
        "/mc/inst/a|/mc/assets|/mc/libraries|/tmp/nat|/mc/libraries/a.jar:/mc/versions/1.8.9/1.8.9.jar"
    );
    let windows = LaunchVariables::new(&manifest(), "Steve", "/mc", "/mc/inst/a", "/tmp/nat", &classpath, true).unwrap();
    assert_eq!(
        windows.replace_placeholders("${classpath}|${classpath_separator}").unwrap(),
        "/mc/libraries/a.jar;/mc/versions/1.8.9/1.8.9.jar|;"
    );
}

fn demo_library(name: &str, path: &str) -> Library {
    Library {
        name: Some(name.to_string()),
        artifact: None,
        classifiers: Vec::new(),
        classifies: Vec::new(),
        downloads: Some(LibraryDownloads {
            artifact: Some(LibraryDownload { path: Some(path.to_string()) }),
            classifiers: Vec::new(),
        }),
        rules: Vec::new(),
        natives: Vec::new(),
        extract: None,
    }
}

fn version_manifest(id: &str, asset_index: &str, component: &str, major: u32, libraries: Vec<Library>) -> ResolvedManifest {
    ResolvedManifest {
        id: id.to_string(),
        main_class: "net.minecraft.client.main.Main".to_string(),
        asset_index_id: Some(asset_index.to_string()),
        asset_index_url: None,
        asset_index_sha1: None,
        asset_index_size: None,
        java_version: Some(JavaVersion { component: component.to_string(), major_version: major }),
        version_type: "release".to_string(),
        game_directory: None,
        source_kind: None,
        libraries,
        modern_arguments: None,
        legacy_minecraft_arguments: None,
    }
}

fn plain(values: &[&str]) -> Vec<ArgumentEntry> {
    values.iter().map(|value| ArgumentEntry::String(value.to_string())).collect()
}

fn linux() -> RuntimeEnvironment {
    RuntimeEnvironment::from_host("linux", "x86_64", true)
}

/// The classpath of a version whose jar and libraries are all present.
fn present_classpath(manifest: &ResolvedManifest, version_id: &str) -> Vec<String> {
    let (candidates, failure) = classpath_candidates(&manifest.libraries, "/mc/libraries", &linux());
    let found = candidates.into_iter().map(|path| (path, true)).collect();
    build_classpath_entries(format!("/mc/versions/{version_id}/{version_id}.jar"), true, found, failure).unwrap()
}

fn plan_for(manifest: ResolvedManifest, version_id: &str, launch_id: &str) -> LaunchPlan {
    let classpath = present_classpath(&manifest, version_id);
    let java = resolve_java_executable(
        manifest.java_version.as_ref(),
        manifest.java_version.as_ref().map(|version| version.major_version),
        Some(format!("/mc/runtime/{}/linux/bin/java", manifest.java_version.as_ref().unwrap().component)),
        None,
        false,
    )
    .unwrap();
    let mut launch = request("Player", None);
    launch.version_id = version_id.to_string();
    prepare_launch_plan(
        launch_id.to_string(),
        &launch,
        manifest,
        "/mc".to_string(),
        "/mc/natives",
        classpath,
        java,
        Some(8192),
        &linux(),
    )
    .unwrap()
}

#[test]
fn prepare_launch_supports_modern_and_legacy_manifests() {
    let demo = || vec![demo_library("com.example:demo:1.0.0", "com/example/demo/1.0.0/demo-1.0.0.jar")];
    let mut modern = version_manifest("modern", "1.20", "java-runtime-delta", 21, demo());
    modern.modern_arguments = Some(ArgumentsBlock {
        jvm: plain(&["-Djava.library.path=${natives_directory}", "-cp", "${classpath}"]),
        game: plain(&[
            "--username",
            "${auth_player_name}",
            "--version",
            "${version_name}",
            "--gameDir",
            "${game_directory}",
            "--assetsDir",
            "${assets_root}",
            "--assetIndex",
            "${assets_index_name}",
        ]),
    });
    let mut legacy = version_manifest("legacy", "1.8", "jre-legacy", 8, demo());
    legacy.legacy_minecraft_arguments =
        Some("--username ${auth_player_name} --version ${version_name} --gameDir ${game_directory}".to_string());

    let modern_plan = plan_for(modern, "modern", "modern-launch");
    assert!(modern_plan.jvm_args.iter().any(|value| value == "-cp"));
    assert!(modern_plan.game_args.windows(2).any(|pair| pair == ["--version", "modern"]));
    assert!(modern_plan.command_arguments().join(" ").contains("Player"));

    let legacy_plan = plan_for(legacy, "legacy", "legacy-launch");
    assert!(legacy_plan.jvm_args.iter().any(|value| value == "-cp"));
    assert!(legacy_plan.game_args.windows(2).any(|pair| pair == ["--version", "legacy"]));
}

#[test]
fn prepare_launch_supports_values_alias_and_offline_placeholders() {
    let values = |items: &[&str]| {
        vec![ArgumentEntry::Conditional(ConditionalArgument {
            rules: Vec::new(),
            value: ArgumentValue::Strings(items.iter().map(|value| value.to_string()).collect()),
        })]
    };
    let mut manifest = version_manifest(
        "modern-values",
        "1.21",
        "java-runtime-delta",
        21,
        vec![demo_library("com.example:demo:1.0.0", "com/example/demo/1.0.0/demo-1.0.0.jar")],
    );
    manifest.modern_arguments = Some(ArgumentsBlock {
        jvm: values(&["-Djava.library.path=${natives_directory}", "-cp", "${classpath}"]),
        game: values(&["--username", "${auth_player_name}", "--clientId", "${clientid}", "--xuid", "${auth_xuid}"]),
    });

    let plan = plan_for(manifest, "modern-values", "modern-values-launch");

    assert!(plan.jvm_args.iter().any(|value| value == "-cp"));
    assert!(plan.game_args.windows(2).any(|pair| pair == ["--clientId", "offline-client-id"]));
    assert!(plan.game_args.windows(2).any(|pair| pair == ["--xuid", "0"]));
}

#[test]
fn prepare_launch_reports_actionable_missing_inputs() {
    let demo = || vec![demo_library("com.example:demo:1.0.0", "com/example/demo/1.0.0/demo-1.0.0.jar")];

    let missing_runtime = version_manifest("missing-runtime", "assets-ok", "java-runtime-delta", 21, demo());
    let runtime_error = resolve_java_executable(
        missing_runtime.java_version.as_ref(),
        Some(21),
        None,
        Some(21),
        false,
    )
    .err()
    .unwrap();
    assert!(runtime_error.0.contains("requires Java 21"));

    let missing_library = version_manifest(
        "missing-library",
        "assets-ok",
        "jre-legacy",
        8,
        vec![demo_library("com.example:missing:1.0.0", "com/example/missing/1.0.0/missing-1.0.0.jar")],
    );
    let (candidates, failure) = classpath_candidates(&missing_library.libraries, "/mc/libraries", &linux());
    let found = candidates.into_iter().map(|path| (path, false)).collect();
    let library_error = build_classpath_entries(
        "/mc/versions/missing-library/missing-library.jar".to_string(),
        true,
        found,
        failure,
    )
    .err()
    .unwrap();
    assert!(library_error.0.contains("Missing library jar"));

    let missing_assets = version_manifest("missing-assets", "assets-missing", "jre-legacy", 8, Vec::new());
    let index_path = resolve_asset_index_path("/mc", &missing_assets).unwrap();
    let assets_error = require_asset_index_file(&index_path, false).err().unwrap();
    assert!(assets_error.0.contains("Missing asset index file"));

    let mut natives_library = demo_library("com.example:demo:1.0.0", "com/example/demo/1.0.0/demo-1.0.0.jar");
    natives_library.downloads.as_mut().unwrap().classifiers = vec![(
        "natives-linux".to_string(),
        LibraryDownload { path: Some("com/example/demo/1.0.0/demo-1.0.0-natives-linux.jar".to_string()) },
    )];
    natives_library.natives = vec![("linux".to_string(), "natives-linux".to_string())];
    let missing_natives = version_manifest("missing-natives", "assets-ok", "jre-legacy", 8, vec![natives_library]);
    let (archives, failure) = native_archive_candidates(&missing_natives.libraries, "/mc/libraries", &linux());
    assert!(failure.is_none());
    assert_eq!(archives.len(), 1);
    let natives_error = require_native_archive(&archives[0].0, false).err().unwrap();
    assert!(natives_error.0.contains("Missing native archive"));
}
