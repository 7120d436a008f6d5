use mecha_launcher::dependencies::{
    check_xrandr_output, distro_flags, elevated_arguments, graphics_dependency_status, java_dependency_status, required_java_major,
    linux_auto_install_plan, linux_graphics_auto_install_plan, manifest_needs_legacy_lwjgl_linux_graphics,
    parse_os_release_value, suggested_linux_graphics_install_commands, suggested_linux_java_install_commands,
    suggested_windows_java_links, validate_legacy_lwjgl_linux_graphics, windows_auto_install_plan,
    winget_install_result, winget_java_install_output_means_already_current, DistroFlags, PackageTools, XrandrRun,
};
use mecha_launcher::manifest::{Library, ResolvedManifest};

const UBUNTU: &str = "NAME=\"Ubuntu\"\n# comment\nID=ubuntu\r\nID_LIKE=debian\nPRETTY_NAME=\"Ubuntu 22.04\"\n";

#[test]
fn os_release_values_are_unquoted() {
    assert_eq!(parse_os_release_value(UBUNTU, "NAME").as_deref(), Some("Ubuntu"));
    assert_eq!(parse_os_release_value(UBUNTU, "ID").as_deref(), Some("ubuntu"));
    assert_eq!(parse_os_release_value(UBUNTU, "PRETTY_NAME").as_deref(), Some("Ubuntu 22.04"));
    assert_eq!(parse_os_release_value(UBUNTU, "VERSION_ID"), None);
    assert_eq!(parse_os_release_value(" KEY = \"\" ", "KEY").as_deref(), Some(""));
}

#[test]
fn distributions_pick_their_package_manager() {
    let ubuntu = distro_flags(UBUNTU);
    assert!(ubuntu.debian && !ubuntu.fedora && !ubuntu.arch);
    let fedora = distro_flags("ID=fedora\n");
    assert!(fedora.fedora);
    let manjaro = distro_flags("ID=manjaro\nID_LIKE=Arch\n");
    assert!(manjaro.arch);
    assert_eq!(
        suggested_linux_java_install_commands(&ubuntu),
        vec!["sudo apt update", "sudo apt install -y openjdk-21-jre", "java -version"]
    );
    assert_eq!(
        suggested_linux_graphics_install_commands(&manjaro),
        vec!["sudo pacman -Syu --noconfirm xorg-xrandr", "xrandr -q"]
    );
    let none = DistroFlags { fedora: false, debian: false, arch: false };
    assert_eq!(suggested_linux_java_install_commands(&none)[0], "java -version");
}

#[test]
fn install_plans_need_the_package_manager() {
    let ubuntu = distro_flags(UBUNTU);
    let tools = PackageTools { dnf: false, apt: true, pacman: false };
    let plan = linux_auto_install_plan(&ubuntu, &tools).unwrap();
    assert_eq!(plan.0, "sh");
    assert_eq!(plan.1, vec!["-lc", "apt update && apt install -y openjdk-21-jre"]);
    let no_tools = PackageTools { dnf: false, apt: false, pacman: false };
    assert!(linux_auto_install_plan(&ubuntu, &no_tools).is_none());
    assert_eq!(linux_graphics_auto_install_plan(&ubuntu, &tools).unwrap().1[1], "apt update && apt install -y x11-xserver-utils");
    assert!(windows_auto_install_plan(false).is_none());
    assert_eq!(windows_auto_install_plan(true).unwrap().0, "winget");
    assert_eq!(suggested_windows_java_links().len(), 2);
    assert_eq!(
        elevated_arguments("dnf".to_string(), vec!["install".to_string(), "-y".to_string()]),
        vec!["dnf", "install", "-y"]
    );
}

#[test]
fn winget_already_current_output_counts_as_success() {
    assert!(winget_java_install_output_means_already_current("No available upgrade found.\n"));
    assert!(winget_java_install_output_means_already_current(
        "Found an existing package already installed. Trying to upgrade"
    ));
    assert!(!winget_java_install_output_means_already_current("Successfully installed"));
    let result = winget_install_result(false, Some(-1978335189), "No newer package versions are available".to_string(), String::new());
    assert!(result.ok && result.already_present);
    assert!(result.stdout.is_empty());
    let failed = winget_install_result(false, Some(1), "boom".to_string(), "err".to_string());
    assert!(!failed.ok && !failed.already_present);
    assert_eq!(failed.stdout, "boom");
}

#[test]
fn java_status_offers_help_only_below_java_21() {
    let old = java_dependency_status(
        21,
        Some("java version \"1.8.0_291\"\n".to_string()),
        Some("hint".to_string()),
        Some(vec!["java -version".to_string()]),
        None,
    );
    assert!(old.installed);
    assert_eq!(old.detected_major, Some(8));
    assert!(old.can_auto_install);
    assert_eq!(old.detected_raw.as_deref(), Some("java version \"1.8.0_291\""));
    let current =
        java_dependency_status(21, Some("openjdk version \"21\"".to_string()), Some("hint".to_string()), None, None);
    assert!(!current.can_auto_install);
    assert!(current.auto_install_hint.is_none());
    let missing = java_dependency_status(21, None, None, None, None);
    assert!(!missing.installed);
    assert_eq!(missing.recommended_major, 21);
}

#[test]
fn java_status_follows_the_selected_version() {
    let required = required_java_major(None, Some("1.8.9"));
    assert_eq!(required, 8);
    let java8 = java_dependency_status(
        required,
        Some("java version \"1.8.0_291\"\n".to_string()),
        Some("hint".to_string()),
        Some(vec!["java -version".to_string()]),
        None,
    );
    assert_eq!(java8.recommended_major, 8);
    assert!(!java8.can_auto_install);
    assert!(java8.suggested_linux_commands.is_none());
    assert_eq!(required_java_major(Some(17), Some("1.8.9")), 17);
    assert_eq!(required_java_major(None, None), 21);
    let needs17 = java_dependency_status(
        required_java_major(Some(17), None),
        Some("java version \"1.8.0_291\"\n".to_string()),
        Some("hint".to_string()),
        None,
        None,
    );
    assert!(needs17.can_auto_install);
    assert_eq!(needs17.recommended_major, 17);
}

#[test]
fn graphics_status_reads_xrandr() {
    let off_linux = graphics_dependency_status(false, false, None, None, None);
    assert!(off_linux.installed && off_linux.usable);
    let run = XrandrRun { success: true, stdout: "HDMI-1 connected 1920x1080".to_string(), stderr: String::new() };
    let ok = graphics_dependency_status(true, true, Some(run), Some("hint".to_string()), None);
    assert!(ok.usable && !ok.can_auto_install);
    assert_eq!(ok.detected_raw.as_deref(), Some("HDMI-1 connected 1920x1080"));
    let missing = graphics_dependency_status(true, false, None, Some("hint".to_string()), Some(vec!["xrandr -q".to_string()]));
    assert!(!missing.usable && missing.can_auto_install);
}

#[test]
fn legacy_lwjgl_needs_a_connected_display_on_linux() {
    let mut lib = Library {
        name: Some("org.lwjgl.lwjgl:lwjgl:2.9.4-nightly-20150209".to_string()),
        artifact: None,
        classifiers: Vec::new(),
        classifies: Vec::new(),
        downloads: None,
        rules: Vec::new(),
        natives: Vec::new(),
        extract: None,
    };
    let manifest = |libraries: Vec<Library>| ResolvedManifest {
        id: "1.8.9".to_string(),
        main_class: "Main".to_string(),
        asset_index_id: None,
        asset_index_url: None,
        asset_index_sha1: None,
        asset_index_size: None,
        java_version: None,
        version_type: "release".to_string(),
        game_directory: None,
        source_kind: None,
        libraries,
        modern_arguments: None,
        legacy_minecraft_arguments: None,
    };
    assert!(manifest_needs_legacy_lwjgl_linux_graphics(&manifest(vec![]), true) == false);
    lib.name = Some("org.lwjgl.lwjgl:lwjgl:2.9.4".to_string());
    let legacy = manifest(vec![lib]);
    assert!(manifest_needs_legacy_lwjgl_linux_graphics(&legacy, true));
    assert!(!manifest_needs_legacy_lwjgl_linux_graphics(&legacy, false));
    assert_eq!(validate_legacy_lwjgl_linux_graphics(false, false).unwrap(), false);
    assert_eq!(validate_legacy_lwjgl_linux_graphics(true, true).unwrap(), true);
    assert!(validate_legacy_lwjgl_linux_graphics(true, false).is_err());
    assert!(check_xrandr_output(Ok((true, "DP-1 connected".to_string()))).is_ok());
    assert!(check_xrandr_output(Ok((true, "DP-1 disconnected".to_string()))).is_err());
    assert_eq!(
        check_xrandr_output(Err("no such file".to_string())).err().unwrap().0,
        "Failed to run xrandr while validating display availability: no such file"
    );
}
