use minecraft_launcher_core::artifact::Artifact;
use minecraft_launcher_core::library::{DownloadInfo, ExtractRules, Library, LibraryDownloadInfo};
use minecraft_launcher_core::rule::{evaluate_rules, Environment, OperatingSystem, OsRule, Rule, RuleAction};
use minecraft_launcher_core::download::Downloadable;

fn env(os: OperatingSystem) -> Environment {
    Environment {
        os,
        os_version: "10.0".to_string(),
        arch: "x86_64".to_string(),
        is_demo_user: false,
        has_custom_resolution: true,
    }
}

fn lib(name: &str) -> Library {
    Library {
        name: Artifact::parse(name).unwrap(),
        rules: vec![],
        natives: vec![],
        extract: None,
        url: None,
        downloads: None,
    }
}

#[test]
fn artifact_parse_plain() {
    let a = Artifact::parse("net.minecraft:client:1.20.1").unwrap();
    assert_eq!(a.group, "net.minecraft");
    assert_eq!(a.name, "client");
    assert_eq!(a.version, "1.20.1");
    assert_eq!(a.classifier, None);
    assert_eq!(a.extension, "jar");
    assert_eq!(a.get_path_string(), "net/minecraft/client/1.20.1/client-1.20.1.jar");
    assert_eq!(a.to_string(), "net.minecraft:client:1.20.1");
}

#[test]
fn artifact_parse_classifier_and_extension() {
    let a = Artifact::parse("org.lwjgl:lwjgl:3.3.1:natives-linux@zip").unwrap();
    assert_eq!(a.classifier, Some("natives-linux".to_string()));
    assert_eq!(a.extension, "zip");
    assert_eq!(a.get_path_string(), "org/lwjgl/lwjgl/3.3.1/lwjgl-3.3.1-natives-linux.zip");
    assert_eq!(a.to_string(), "org.lwjgl:lwjgl:3.3.1:natives-linux@zip");
}

#[test]
fn artifact_round_trip_concrete() {
    for text in ["a.b:c:1", "a.b:c:1:x", "a.b:c:1@pom", "a.b:c:1:x@zip"] {
        let a = Artifact::parse(text).unwrap();
        let b = Artifact::parse(&a.to_string()).unwrap();
        assert_eq!(a.to_string(), text);
        assert_eq!((a.group, a.name, a.version, a.classifier, a.extension), (b.group, b.name, b.version, b.classifier, b.extension));
    }
}

#[test]
fn artifact_rejects_bad_shapes() {
    assert!(Artifact::parse("a:b").is_none());
    assert!(Artifact::parse("a::c").is_none());
    assert!(Artifact::parse("a:b:c:d:e").is_none());
    assert!(Artifact::parse("a:b:c@x@y").is_none());
    assert!(Artifact::parse("a:b:c@").is_none());
    assert!(Artifact::parse("").is_none());
}

#[test]
fn rules_empty_list_allows() {
    assert_eq!(evaluate_rules(&vec![], &env(OperatingSystem::Linux)), RuleAction::Allow);
}

#[test]
fn rules_last_match_wins() {
    let rules = vec![
        Rule { action: RuleAction::Allow, os: None, features: vec![] },
        Rule {
            action: RuleAction::Disallow,
            os: Some(OsRule { name: Some(OperatingSystem::Osx), version: None, arch: None }),
            features: vec![],
        },
    ];
    assert_eq!(evaluate_rules(&rules, &env(OperatingSystem::Linux)), RuleAction::Allow);
    assert_eq!(evaluate_rules(&rules, &env(OperatingSystem::Osx)), RuleAction::Disallow);
}

#[test]
fn rules_no_match_disallows() {
    let rules = vec![Rule {
        action: RuleAction::Allow,
        os: Some(OsRule { name: Some(OperatingSystem::Windows), version: None, arch: None }),
        features: vec![],
    }];
    assert_eq!(evaluate_rules(&rules, &env(OperatingSystem::Linux)), RuleAction::Disallow);
    assert_eq!(evaluate_rules(&rules, &env(OperatingSystem::Windows)), RuleAction::Allow);
}

#[test]
fn rules_os_version_regex_is_anchored() {
    let rule = |v: &str| Rule {
        action: RuleAction::Allow,
        os: Some(OsRule { name: None, version: Some(v.to_string()), arch: None }),
        features: vec![],
    };
    let e = env(OperatingSystem::Windows);
    assert_eq!(evaluate_rules(&vec![rule("^10\\.")], &e), RuleAction::Allow);
    assert_eq!(evaluate_rules(&vec![rule("10\\.0")], &e), RuleAction::Allow);
    assert_eq!(evaluate_rules(&vec![rule("0")], &e), RuleAction::Disallow);
    assert_eq!(evaluate_rules(&vec![rule("(")], &e), RuleAction::Disallow);
}

#[test]
fn rules_features() {
    let rule = |k: &str| Rule { action: RuleAction::Allow, os: None, features: vec![(k.to_string(), true)] };
    let e = env(OperatingSystem::Linux);
    assert_eq!(evaluate_rules(&vec![rule("has_custom_resolution")], &e), RuleAction::Allow);
    assert_eq!(evaluate_rules(&vec![rule("is_demo_user")], &e), RuleAction::Disallow);
    assert_eq!(evaluate_rules(&vec![rule("is_quick_play_multiplayer")], &e), RuleAction::Disallow);
    assert!(e.has_feature("unknown_feature", false));
}

#[test]
fn rules_same_inputs_same_outcome() {
    let rules = vec![Rule { action: RuleAction::Allow, os: Some(OsRule { name: Some(OperatingSystem::Linux), version: None, arch: Some("x86_64".to_string()) }), features: vec![] }];
    let a = evaluate_rules(&rules, &env(OperatingSystem::Linux));
    let b = evaluate_rules(&rules, &env(OperatingSystem::Linux));
    assert_eq!(a, b);
    assert_eq!(a, RuleAction::Allow);
}

#[test]
fn extract_rules_exclude_prefixes() {
    let x = ExtractRules { exclude: vec!["META-INF/".to_string()] };
    assert!(!x.should_extract("META-INF/MANIFEST.MF"));
    assert!(x.should_extract("liblwjgl.so"));
    assert!(ExtractRules { exclude: vec![] }.should_extract("META-INF/x"));
}

#[test]
fn library_applies_and_path() {
    let mut l = lib("org.lwjgl:lwjgl:3.3.1");
    assert!(l.applies_to_current_environment(&env(OperatingSystem::Linux)));
    assert_eq!(l.get_artifact_path(None), "org/lwjgl/lwjgl/3.3.1/lwjgl-3.3.1.jar");
    assert_eq!(l.get_artifact_path(Some("natives-linux")), "org/lwjgl/lwjgl/3.3.1/lwjgl-3.3.1-natives-linux.jar");
    l.rules = vec![Rule { action: RuleAction::Allow, os: Some(OsRule { name: Some(OperatingSystem::Osx), version: None, arch: None }), features: vec![] }];
    assert!(!l.applies_to_current_environment(&env(OperatingSystem::Linux)));
}

#[test]
fn library_native_classifier_expands_arch() {
    let mut l = lib("tv.twitch:twitch-platform:5.16");
    l.natives = vec![(OperatingSystem::Windows, "natives-windows-${arch}".to_string())];
    assert_eq!(l.native_classifier(OperatingSystem::Windows, true), Some("natives-windows-64".to_string()));
    assert_eq!(l.native_classifier(OperatingSystem::Windows, false), Some("natives-windows-32".to_string()));
    assert_eq!(l.native_classifier(OperatingSystem::Linux, true), None);
}

fn info(url: &str, sha1: &str) -> DownloadInfo {
    DownloadInfo { url: url.to_string(), sha1: sha1.to_string(), size: 1 }
}

#[test]
fn library_download_info_lookup() {
    let d = LibraryDownloadInfo {
        artifact: info("https://x/a.jar", "aa"),
        classifiers: vec![("natives-linux".to_string(), info("https://x/n.jar", "bb"))],
    };
    assert_eq!(d.get_download_info(None).unwrap().url, "https://x/a.jar");
    assert_eq!(d.get_download_info(Some("natives-linux")).unwrap().sha1, "bb");
    assert!(d.get_download_info(Some("natives-osx")).is_none());
}

#[test]
fn library_create_download_variants() {
    let l = lib("com.mojang:brigadier:1.0.18");
    let path = l.get_artifact_path(None);
    match l.create_download(&path, "/g/libraries/x.jar", false, None) {
        Some(Downloadable::Checksummed { url, target, force }) => {
            assert_eq!(url, "https://libraries.minecraft.net/com/mojang/brigadier/1.0.18/brigadier-1.0.18.jar");
            assert_eq!(target, "/g/libraries/x.jar");
            assert!(!force);
        }
        _ => panic!("expected a checksummed download"),
    }
    let mut custom = lib("net.minecraftforge:forge:47.2.0");
    custom.url = Some("https://maven.minecraftforge.net/some/where/".to_string());
    match custom.create_download("ignored", "t", true, None) {
        Some(Downloadable::Checksummed { url, force, .. }) => {
            assert_eq!(url, "https://maven.minecraftforge.net/net/minecraftforge/forge/47.2.0/forge-47.2.0.jar");
            assert!(force);
        }
        _ => panic!("expected a checksummed download"),
    }
    let mut bad = lib("a:b:c");
    bad.url = Some("not a url".to_string());
    assert!(bad.create_download("p", "t", false, None).is_none());
    let mut listed = lib("a:b:c");
    listed.downloads = Some(LibraryDownloadInfo { artifact: info("https://x/a.jar", "aa"), classifiers: vec![] });
    match listed.create_download("p", "t", false, None) {
        Some(Downloadable::PreHashed { url, sha1, .. }) => {
            assert_eq!(url, "https://x/a.jar");
            assert_eq!(sha1, "aa");
        }
        _ => panic!("expected a pre-hashed download"),
    }
    assert!(listed.create_download("p", "t", false, Some("natives-linux")).is_none());
}
