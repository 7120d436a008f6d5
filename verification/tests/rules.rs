use mecha_launcher::error::LauncherError;
use mecha_launcher::rules::{replace_placeholders, rules_allow, Rule, RuleAction, RuleOs, RuntimeEnvironment};

fn windows() -> RuntimeEnvironment {
    RuntimeEnvironment {
        os_name: "windows".to_string(),
        os_arch: "x86_64".to_string(),
        arch_bits: "64".to_string(),
        os_version: None,
        features: Vec::new(),
    }
}

fn windows_rule(action: RuleAction) -> Rule {
    Rule {
        action,
        os: Some(RuleOs {
            name: Some("windows".to_string()),
            arch: None,
            version: None,
        }),
        features: Vec::new(),
    }
}

#[test]
fn allow_rule_matches_current_os() {
    let environment = windows();
    let rules = vec![windows_rule(RuleAction::Allow)];

    assert!(rules_allow(&rules, &environment).expect("rules should evaluate"));
}

#[test]
fn disallow_rule_overrides_allow() {
    let environment = windows();
    let rules = vec![windows_rule(RuleAction::Allow), windows_rule(RuleAction::Disallow)];

    assert!(!rules_allow(&rules, &environment).expect("rules should evaluate"));
}

#[test]
fn empty_rules_allow_and_unmatched_rules_disallow() {
    let environment = windows();
    assert!(rules_allow(&Vec::new(), &environment).unwrap());
    let linux_only = Rule {
        action: RuleAction::Allow,
        os: Some(RuleOs { name: Some("linux".to_string()), arch: None, version: None }),
        features: Vec::new(),
    };
    assert!(!rules_allow(&vec![linux_only], &environment).unwrap());
    let later_allow = vec![windows_rule(RuleAction::Disallow), windows_rule(RuleAction::Allow)];
    assert!(rules_allow(&later_allow, &environment).unwrap());
}

#[test]
fn os_version_rules_use_the_regex() {
    let mut environment = windows();
    environment.os_version = Some("10.0".to_string());
    let rule = Rule {
        action: RuleAction::Allow,
        os: Some(RuleOs { name: None, arch: None, version: Some("^10\\.".to_string()) }),
        features: Vec::new(),
    };
    assert!(rules_allow(&vec![rule], &environment).unwrap());
    let bad = Rule {
        action: RuleAction::Allow,
        os: Some(RuleOs { name: None, arch: None, version: Some("(".to_string()) }),
        features: Vec::new(),
    };
    let error = rules_allow(&vec![bad], &environment).err().unwrap();
    assert!(error.0.starts_with("Invalid OS version rule regex: "));
}

#[test]
fn replace_placeholders_resolves_every_value() {
    let value = replace_placeholders(
        "--gameDir ${game_directory} --version ${version_name}",
        |placeholder: &str| {
            Ok(match placeholder {
                "game_directory" => "C:/Users/example/.minecraft".to_string(),
                "version_name" => "1.20.1".to_string(),
                _ => unreachable!("test placeholder"),
            })
        },
    )
    .expect("placeholders should resolve");

    assert_eq!(
        value,
        "--gameDir C:/Users/example/.minecraft --version 1.20.1"
    );
}

#[test]
fn replace_placeholders_reports_the_resolver_error() {
    let result = replace_placeholders("a ${x} b", |_placeholder: &str| {
        Err(LauncherError::new("no value".to_string()))
    });
    assert_eq!(result.err().unwrap().0, "no value");
    let plain = replace_placeholders("no placeholders here", |_p: &str| Ok(String::new())).unwrap();
    assert_eq!(plain, "no placeholders here");
}
