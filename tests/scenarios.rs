use minecraft_launcher_core::artifact::Artifact;
use minecraft_launcher_core::download::Downloadable;
use minecraft_launcher_core::launch::{Authentication, GameOptions, MinecraftGameRunner, Platform};
use minecraft_launcher_core::library::{DownloadInfo, Library, LibraryDownloadInfo};
use minecraft_launcher_core::remote::{is_up_to_date, local_manifest_usable, RemoteVersionInfo};
use minecraft_launcher_core::rule::{OperatingSystem, Rule, RuleAction, OsRule};
use minecraft_launcher_core::version::{construct_classpath, AssetIndexInfo, ArgumentEntry, Arguments, LocalVersionInfo};

const GOOD: &str = "a94a8fe5ccb19ba61c4c0873d391e987982fbbd3";

fn options() -> GameOptions {
    GameOptions {
        game_dir: "/g".to_string(),
        version: "1.20.1".to_string(),
        java_path: "/usr/bin/java".to_string(),
        jvm_args: None,
        proxy: None,
        resolution: None,
        is_demo_user: false,
        authentication: Authentication {
            player_name: "MonkeyKiller_".to_string(),
            uuid: "u".to_string(),
            access_token: "tok".to_string(),
            session: "s".to_string(),
            user_type: "msa".to_string(),
            extra_substitutions: vec![],
        },
        launcher_options: None,
        max_concurrent_downloads: 16,
        max_download_attempts: 5,
        substitutor_overrides: vec![("language".to_string(), "de-de".to_string())],
    }
}

fn library(name: &str, sha1: &str) -> Library {
    let a = Artifact::parse(name).unwrap();
    let url = format!("https://libraries.minecraft.net/{}", a.get_path_string());
    Library {
        name: a,
        rules: vec![],
        natives: vec![],
        extract: None,
        url: None,
        downloads: Some(LibraryDownloadInfo { artifact: DownloadInfo { url, sha1: sha1.to_string(), size: 4 }, classifiers: vec![] }),
    }
}

fn modern_version() -> LocalVersionInfo {
    LocalVersionInfo {
        id: "1.20.1".to_string(),
        release_type: "release".to_string(),
        release_time: "t".to_string(),
        updated_time: "t".to_string(),
        main_class: Some("net.minecraft.client.main.Main".to_string()),
        minecraft_arguments: None,
        arguments: Some(Arguments {
            jvm: vec![
                ArgumentEntry::Conditional {
                    rules: vec![Rule { action: RuleAction::Allow, os: Some(OsRule { name: Some(OperatingSystem::Osx), version: None, arch: None }), features: vec![] }],
                    values: vec!["-XstartOnFirstThread".to_string()],
                },
                ArgumentEntry::Literal("-Djava.library.path=${natives_directory}".to_string()),
                ArgumentEntry::Literal("-cp".to_string()),
                ArgumentEntry::Literal("${classpath}".to_string()),
            ],
            game: vec![
                ArgumentEntry::Literal("--username".to_string()),
                ArgumentEntry::Literal("${auth_player_name}".to_string()),
                ArgumentEntry::Literal("--lang".to_string()),
                ArgumentEntry::Literal("${language}".to_string()),
                ArgumentEntry::Conditional {
                    rules: vec![Rule { action: RuleAction::Allow, os: None, features: vec![("is_demo_user".to_string(), true)] }],
                    values: vec!["--demo".to_string()],
                },
            ],
        }),
        inherits_from: None,
        libraries: vec![library("com.mojang:brigadier:1.1.8", GOOD), library("org.joml:joml:1.10.5", GOOD)],
        asset_index: None,
        client_download: Some(DownloadInfo { url: "https://piston-data.mojang.com/client.jar".to_string(), sha1: GOOD.to_string(), size: 1 }),
        jar: None,
        compatibility_rules: vec![],
    }
}

fn linux() -> Platform {
    Platform { os: OperatingSystem::Linux, os_version: "6.1".to_string(), arch: "x86_64".to_string(), is_64_bit: true, is_windows_10: false }
}

#[test]
fn modern_vanilla_command_line() {
    let mut r = MinecraftGameRunner::new(options(), linux());
    let natives = r.natives_dir_for(7);
    r.set_prepared(modern_version(), natives, "/g/assets/virtual/legacy".to_string());
    let v = r.local_version.as_ref().unwrap();
    let paths = v.get_classpath(OperatingSystem::Linux, "/g", &r.feature_matcher);
    let present = vec![true; paths.len()];
    let cp = construct_classpath(&paths, &present, OperatingSystem::Linux).unwrap();
    assert_eq!(cp, "/g/libraries/com/mojang/brigadier/1.1.8/brigadier-1.1.8.jar:/g/libraries/org/joml/joml/1.10.5/joml-1.10.5.jar:/g/versions/1.20.1/1.20.1.jar");
    let s = r.create_arguments_substitutor(&cp, &vec![]);
    let args = r.launch_arguments(&s);
    assert_eq!(args[0], "-Xmx2G");
    assert_eq!(args.len(), 7 + 3 + 1 + 4);
    assert_eq!(args[7], "-Djava.library.path=/g/versions/1.20.1/1.20.1-natives-7");
    assert_eq!(args[8], "-cp");
    assert_eq!(args[9], cp);
    assert_eq!(args[10], "net.minecraft.client.main.Main");
    assert_eq!(&args[11..], &["--username", "MonkeyKiller_", "--lang", "de-de"]);
    match r.client_download() {
        Some(Downloadable::PreHashed { target, sha1, .. }) => {
            assert_eq!(target, "/g/versions/1.20.1/1.20.1.jar");
            assert_eq!(sha1, GOOD);
        }
        _ => panic!("expected the client jar"),
    }
}

#[test]
fn corrupt_library_is_refetched() {
    let r = MinecraftGameRunner::new(options(), linux());
    let v = modern_version();
    let items: Vec<Downloadable> = v.libraries.iter().map(|l| r.library_download(l).unwrap()).collect();
    let local = [Some("0000000000000000000000000000000000000000"), Some(GOOD)];
    let fetch: Vec<bool> = items.iter().zip(local.iter()).map(|(d, h)| d.must_fetch(*h, None)).collect();
    assert_eq!(fetch, vec![true, false]);
    assert!(items[0].check_fetched(GOOD, None).is_ok());
    match &items[0] {
        Downloadable::PreHashed { target, .. } => assert_eq!(target, "/g/libraries/com/mojang/brigadier/1.1.8/brigadier-1.1.8.jar"),
        _ => panic!("expected a pre-hashed download"),
    }
}

#[test]
fn offline_rerun_needs_nothing() {
    let r = MinecraftGameRunner::new(options(), linux());
    let v = modern_version();
    for l in &v.libraries {
        assert!(!r.library_download(l).unwrap().must_fetch(Some(GOOD), None));
    }
    let empty: Vec<RemoteVersionInfo> = vec![];
    assert!(is_up_to_date(&empty, "1.20.1", GOOD));
    assert!(local_manifest_usable(None, "1.20.1", GOOD, Some(GOOD)));
    assert!(!local_manifest_usable(None, "1.20.1", GOOD, Some("0000")));
    assert!(!local_manifest_usable(None, "1.20.1", GOOD, None));
    assert!(local_manifest_usable(Some(&empty), "1.20.1", GOOD, None));
}

#[test]
fn native_archive_path_for_platform() {
    let r = MinecraftGameRunner::new(options(), linux());
    let mut l = library("org.lwjgl:lwjgl:3.3.1", GOOD);
    assert_eq!(r.native_archive(&l), None);
    l.natives = vec![(OperatingSystem::Linux, "natives-linux".to_string())];
    assert_eq!(r.native_archive(&l), Some("/g/libraries/org/lwjgl/lwjgl/3.3.1/lwjgl-3.3.1-natives-linux.jar".to_string()));
    assert_eq!(r.virtual_root("legacy", false), "/g/assets/virtual/legacy");
    assert_eq!(r.virtual_root("pre-1.6", true), "/g/resources");
}

#[test]
fn asset_index_download_target() {
    let mut r = MinecraftGameRunner::new(options(), linux());
    let mut v = modern_version();
    v.asset_index = Some(AssetIndexInfo { id: "5".to_string(), url: "https://piston-meta.mojang.com/5.json".to_string(), sha1: GOOD.to_string(), size: 1, total_size: 2 });
    r.set_prepared(v, "/n".to_string(), "/v".to_string());
    match r.asset_index_download() {
        Some(Downloadable::PreHashed { url, target, force, sha1 }) => {
            assert_eq!(url, "https://piston-meta.mojang.com/5.json");
            assert_eq!(target, "/g/assets/indexes/5.json");
            assert!(!force);
            assert_eq!(sha1, GOOD);
        }
        _ => panic!("expected the asset index"),
    }
}
