use mecha_launcher::optifine::{
    extract_optifine_download_path, find_optifine_option, optifine_edition_rank, parse_optifine_downloads_html,
    rank_less, OptifineInstallOption,
};

#[test]
fn parses_latest_optifine_per_minecraft_version() {
    let html = r#"
      <a href="adloadx?f=OptiFine_1.20.4_HD_U_I7.jar">Download</a>
      <a href="adloadx?f=OptiFine_1.20.4_HD_U_I6.jar">Older</a>
      <a href="adloadx?f=OptiFine_1.16.5_HD_U_G8.jar">Download</a>
    "#;
    let options = parse_optifine_downloads_html(html);
    let ids = options.iter().map(|option| option.version_id.as_str()).collect::<Vec<_>>();

    assert_eq!(ids, vec!["1.20.4-OptiFine_HD_U_I7", "1.16.5-OptiFine_HD_U_G8"]);
}

#[test]
fn prefers_stable_optifine_builds_over_prereleases_for_same_branch() {
    let html = r#"
      <a href="adloadx?f=OptiFine_1.20.4_HD_U_I7_pre2.jar">Preview</a>
      <a href="adloadx?f=OptiFine_1.20.4_HD_U_I7.jar">Stable</a>
      <a href="adloadx?f=OptiFine_1.20.4_HD_U_I6.jar">Older</a>
    "#;

    let options = parse_optifine_downloads_html(html);

    assert_eq!(options.len(), 1);
    assert_eq!(options[0].edition, "HD_U_I7");
    assert_eq!(options[0].release_kind, "Stable");
}

#[test]
fn extracts_official_optifine_mirror_path() {
    let html = r#"<a href='downloadx?f=OptiFine_1.16.5_HD_U_G8.jar&amp;x=abc'>Download</a>"#;
    let path = extract_optifine_download_path(html, "OptiFine_1.16.5_HD_U_G8.jar").expect("path should parse");

    assert_eq!(path, "downloadx?f=OptiFine_1.16.5_HD_U_G8.jar&x=abc");
}

#[test]
fn missing_mirror_link_is_an_error() {
    let html = r#"<a href='downloadx?f=OptiFine_1.12.2_HD_U_G5.jar'>Download</a>"#;
    let error = extract_optifine_download_path(html, "OptiFine_1.16.5_HD_U_G8.jar").err().unwrap();
    assert_eq!(error.0, "Could not find the official OptiFine mirror link for OptiFine_1.16.5_HD_U_G8.jar.");
}

#[test]
fn option_fields_and_version_order() {
    let html = "OptiFine_1.9.4_HD_U_E2.jar OptiFine_1.12.2_HD_U_G5.jar OptiFine_1.21_HD_U_J1_pre3.jar";
    let options = parse_optifine_downloads_html(html);
    let versions = options.iter().map(|o| o.minecraft_version.as_str()).collect::<Vec<_>>();
    assert_eq!(versions, vec!["1.9.4", "1.21", "1.12.2"]);
    let newest = &options[1];
    assert_eq!(newest.id, "OptiFine_1.21_HD_U_J1_pre3.jar");
    assert_eq!(newest.optifine_version, "OptiFine_1.21_HD_U_J1_pre3");
    assert_eq!(newest.title, "Minecraft 1.21");
    assert_eq!(newest.summary, "Best available OptiFine build for Minecraft 1.21.");
    assert_eq!(newest.release_kind, "Preview");
    assert_eq!(newest.recommended_java_major, 21);
    assert_eq!(newest.source_url, "https://optifine.net/adloadx?f=OptiFine_1.21_HD_U_J1_pre3.jar");
    assert!(parse_optifine_downloads_html("nothing here").is_empty());
}

#[test]
fn edition_ranks_order_branch_number_then_stability() {
    let i7 = optifine_edition_rank("HD_U_I7");
    assert_eq!(i7, ("I".to_string(), 7, true, 0, "I7".to_string()));
    let pre = optifine_edition_rank("HD_U_I7_pre2");
    assert_eq!(pre, ("I".to_string(), 7, false, 2, "I7_pre2".to_string()));
    let i6 = optifine_edition_rank("HD_U_I6");
    let h9 = optifine_edition_rank("HD_U_H9");
    assert!(rank_less(&pre, &i7));
    assert!(rank_less(&i6, &pre));
    assert!(rank_less(&h9, &i6));
    assert!(!rank_less(&i7, &i7));
}

fn option(id: &str) -> OptifineInstallOption {
    OptifineInstallOption {
        id: id.to_string(),
        minecraft_version: "1.8.9".to_string(),
        optifine_version: "HD_U_M5".to_string(),
        edition: "HD_U_M5".to_string(),
        file_name: format!("{id}.jar"),
        version_id: format!("{id}-version"),
        title: id.to_string(),
        summary: String::new(),
        release_kind: "stable".to_string(),
        recommended_java_major: 8,
        source_url: String::new(),
    }
}

#[test]
fn optifine_options_are_found_by_id() {
    let options = vec![option("a"), option("b"), option("b")];
    assert_eq!(find_optifine_option(&options, "b").unwrap(), 1);
    assert_eq!(find_optifine_option(&options, "a").unwrap(), 0);
    assert_eq!(
        find_optifine_option(&options, "zz").err().unwrap().0,
        "Unknown OptiFine install option: zz"
    );
}
