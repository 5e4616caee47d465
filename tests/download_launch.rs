use minecraft_launcher_core::progress::ProgressReporter;
use minecraft_launcher_core::artifact::Artifact;
use minecraft_launcher_core::download::{job_succeeded, next_step, DownloadFailure, Downloadable, RetryStep};
use minecraft_launcher_core::error::ErrorKind;
use minecraft_launcher_core::launch::{
    get_asset_object_path, get_asset_object_url, has_unresolved_placeholder, redact_command_line, AssetObject, Authentication, GameOptions,
    LauncherOptions, MinecraftGameRunner, Platform, ProxyConfig, Resolution,
};
use minecraft_launcher_core::library::Library;
use minecraft_launcher_core::prepare::{asset_copy_plan, asset_downloads, native_entry_target, select_expired_natives};
use minecraft_launcher_core::remote::{is_up_to_date, ReleaseType, RemoteVersionInfo};
use minecraft_launcher_core::rule::OperatingSystem;
use minecraft_launcher_core::text::{decimal, replace_str, split_str};
use minecraft_launcher_core::version::LocalVersionInfo;

const SHA: &str = "0123456789abcdef0123456789abcdef01234567";

fn pre(force: bool) -> Downloadable {
    Downloadable::PreHashed { url: "u".to_string(), target: "t".to_string(), force, sha1: SHA.to_string() }
}

#[test]
fn download_skips_present_matching_file() {
    assert!(!pre(false).must_fetch(Some(SHA), None));
    assert!(pre(false).must_fetch(Some("ffff"), None));
    assert!(pre(false).must_fetch(None, None));
    assert!(pre(true).must_fetch(Some(SHA), None));
    let plain = Downloadable::Plain { url: "u".to_string(), target: "t".to_string(), force: false };
    assert!(!plain.must_fetch(Some("anything"), None));
    let remote = Downloadable::Checksummed { url: "u".to_string(), target: "t".to_string(), force: false };
    assert!(remote.must_fetch(Some("aa"), Some("bb")));
    assert!(!remote.must_fetch(Some("aa"), Some("aa")));
}

#[test]
fn download_checks_fetched_digest() {
    assert!(pre(false).check_fetched(SHA, None).is_ok());
    assert_eq!(pre(false).check_fetched("ffff", None), Err(DownloadFailure::ChecksumMismatch));
    let remote = Downloadable::Checksummed { url: "u".to_string(), target: "t".to_string(), force: false };
    assert!(remote.check_fetched("aa", None).is_ok());
    assert_eq!(remote.check_fetched("aa", Some("bb")), Err(DownloadFailure::ChecksumMismatch));
}

#[test]
fn download_second_run_fetches_nothing() {
    let d = pre(false);
    assert!(d.check_fetched(SHA, None).is_ok());
    assert!(!d.must_fetch(Some(SHA), None));
}

#[test]
fn retry_policy() {
    assert_eq!(next_step(1, 5, DownloadFailure::Network, 0), RetryStep::Retry { delay_ms: 125 });
    assert_eq!(next_step(2, 5, DownloadFailure::Status(503), 0), RetryStep::Retry { delay_ms: 250 });
    assert_eq!(next_step(4, 5, DownloadFailure::ChecksumMismatch, 1000000), RetryStep::Retry { delay_ms: 1000 + 1000000 % 1001 });
    assert_eq!(next_step(5, 5, DownloadFailure::Network, 0), RetryStep::GiveUp);
    assert_eq!(next_step(1, 5, DownloadFailure::Status(404), 0), RetryStep::GiveUp);
    assert_eq!(next_step(1, 5, DownloadFailure::Status(429), 0), RetryStep::Retry { delay_ms: 125 });
    assert_eq!(next_step(1, 5, DownloadFailure::Status(408), 0), RetryStep::Retry { delay_ms: 125 });
    match next_step(30, 100, DownloadFailure::Network, u64::MAX) {
        RetryStep::Retry { delay_ms } => assert!(delay_ms <= 4000 && delay_ms >= 2000),
        RetryStep::GiveUp => panic!("expected a retry"),
    }
}

#[test]
fn job_fails_only_on_required_items() {
    assert!(job_succeeded(&vec![true, false], &vec![false, true]));
    assert!(!job_succeeded(&vec![true, false], &vec![false, false]));
    assert!(job_succeeded(&vec![], &vec![]));
}

#[test]
fn text_helpers() {
    assert_eq!(decimal(0), "0");
    assert_eq!(decimal(1920), "1920");
    assert_eq!(split_str("a b  c", ' '), vec!["a", "b", "", "c"]);
    assert_eq!(replace_str("aaa", "aa", "b"), "ba");
}

#[test]
fn asset_paths() {
    assert_eq!(get_asset_object_path("/g/assets", SHA), format!("/g/assets/objects/01/{SHA}"));
    assert_eq!(get_asset_object_url(SHA), format!("https://resources.download.minecraft.net/01/{SHA}"));
    let objs = vec![AssetObject { name: "icons/icon_16x16.png".to_string(), hash: SHA.to_string(), size: 3 }];
    let d = asset_downloads(&objs, "/g/assets");
    match &d[0] {
        Downloadable::PreHashed { url, target, force, sha1 } => {
            assert_eq!(url, &format!("https://resources.download.minecraft.net/01/{SHA}"));
            assert_eq!(target, &format!("/g/assets/objects/01/{SHA}"));
            assert!(!force);
            assert_eq!(sha1, SHA);
        }
        _ => panic!("expected a pre-hashed download"),
    }
    let plan = asset_copy_plan(&objs, &vec![None], "/g/assets", "/g/assets/virtual/legacy");
    assert_eq!(plan, vec![(format!("/g/assets/objects/01/{SHA}"), "/g/assets/virtual/legacy/icons/icon_16x16.png".to_string())]);
    assert!(asset_copy_plan(&objs, &vec![Some(SHA.to_string())], "/g/assets", "/r").is_empty());
    assert_eq!(asset_copy_plan(&objs, &vec![Some("bad".to_string())], "/g/assets", "/r").len(), 1);
}

#[test]
fn natives_housekeeping() {
    let dirs = vec![
        ("1.20.1-natives-5".to_string(), 0u64),
        ("1.20.1-natives-6".to_string(), 3_000_000u64),
        ("other".to_string(), 0u64),
    ];
    assert!(select_expired_natives("1.20.1", &dirs, 3_600_000).is_empty());
    assert_eq!(select_expired_natives("1.20.1", &dirs, 3_600_001), vec!["1.20.1-natives-5"]);
    assert_eq!(native_entry_target("/n", "liblwjgl.so", false, &None), Some("/n/liblwjgl.so".to_string()));
    assert_eq!(native_entry_target("/n", "META-INF/", true, &None), None);
}

#[test]
fn remote_index_checks() {
    let entry = RemoteVersionInfo {
        id: "1.20.1".to_string(),
        release_type: ReleaseType::Release,
        url: "https://piston-meta.mojang.com/v1/packages/x/1.20.1.json".to_string(),
        updated_time: "t".to_string(),
        release_time: "t".to_string(),
        sha1: SHA.to_string(),
        compliance_level: 1,
    };
    assert_eq!(entry.get_compliance_level(), 1);
    assert_eq!(entry.get_url(), "https://piston-meta.mojang.com/v1/packages/x/1.20.1.json");
    assert!(entry.check_fetched(SHA).is_ok());
    assert_eq!(entry.check_fetched("bad").unwrap_err().kind, ErrorKind::ChecksumMismatch);
    let index = vec![entry];
    assert!(is_up_to_date(&index, "1.20.1", SHA));
    assert!(!is_up_to_date(&index, "1.20.1", "bad"));
    assert!(is_up_to_date(&index, "custom", "bad"));
}

fn options(jvm: Option<Vec<String>>) -> GameOptions {
    GameOptions {
        game_dir: "/g".to_string(),
        version: "1.8.9".to_string(),
        java_path: "/usr/bin/java".to_string(),
        jvm_args: jvm,
        proxy: None,
        resolution: Some(Resolution { width: 854, height: 480 }),
        is_demo_user: false,
        authentication: Authentication {
            player_name: "MonkeyKiller_".to_string(),
            uuid: "uuid-1".to_string(),
            access_token: "SECRETTOKEN".to_string(),
            session: "token:SECRETTOKEN".to_string(),
            user_type: "legacy".to_string(),
            extra_substitutions: vec![],
        },
        launcher_options: Some(LauncherOptions { launcher_name: "Test Launcher".to_string(), launcher_version: "v1.0.0".to_string() }),
        max_concurrent_downloads: 16,
        max_download_attempts: 5,
        substitutor_overrides: vec![],
    }
}

fn platform(os: OperatingSystem, win10: bool) -> Platform {
    Platform { os, os_version: "10.0".to_string(), arch: "x86_64".to_string(), is_64_bit: true, is_windows_10: win10 }
}

fn legacy_version() -> LocalVersionInfo {
    LocalVersionInfo {
        id: "1.8.9".to_string(),
        release_type: "release".to_string(),
        release_time: "t".to_string(),
        updated_time: "t".to_string(),
        main_class: Some("net.minecraft.client.main.Main".to_string()),
        minecraft_arguments: Some("--username ${auth_player_name} --accessToken ${auth_access_token}".to_string()),
        arguments: None,
        inherits_from: None,
        libraries: vec![Library { name: Artifact::parse("a:b:1").unwrap(), rules: vec![], natives: vec![], extract: None, url: None, downloads: None }],
        asset_index: None,
        client_download: None,
        jar: None,
        compatibility_rules: vec![],
    }
}

#[test]
fn legacy_command_line() {
    let mut r = MinecraftGameRunner::new(options(None), platform(OperatingSystem::Windows, true));
    let natives = r.natives_dir_for(42);
    assert_eq!(natives, "/g/versions/1.8.9/1.8.9-natives-42");
    r.set_prepared(legacy_version(), natives, "/g/assets/virtual/legacy".to_string());
    let s = r.create_arguments_substitutor("/g/cp.jar", &vec![]);
    let args = r.launch_arguments(&s);
    assert_eq!(args[0], "-Xmx2G");
    assert_eq!(args[6], "-XX:G1HeapRegionSize=32M");
    assert!(args.contains(&"-Djava.library.path=/g/versions/1.8.9/1.8.9-natives-42".to_string()));
    assert!(args.contains(&"-Dos.name=Windows 10".to_string()));
    assert!(args.contains(&"-Dminecraft.launcher.brand=Test Launcher".to_string()));
    let cp = args.iter().position(|a| a == "-cp").unwrap();
    assert_eq!(args[cp + 1], "/g/cp.jar");
    assert_eq!(args[cp + 2], "net.minecraft.client.main.Main");
    assert_eq!(&args[cp + 3..], &["--username", "MonkeyKiller_", "--accessToken", "SECRETTOKEN", "--width", "854", "--height", "480"]);
}

#[test]
fn user_jvm_args_and_proxy() {
    let mut o = options(Some(vec!["-Xmx4G".to_string()]));
    o.proxy = Some(ProxyConfig { host: "proxy.local".to_string(), port: 8080, user: Some("me".to_string()), pass: None });
    let mut r = MinecraftGameRunner::new(o, platform(OperatingSystem::Linux, false));
    r.set_prepared(legacy_version(), "/n".to_string(), "/v".to_string());
    let s = r.create_arguments_substitutor("/cp", &vec![]);
    let args = r.launch_arguments(&s);
    assert_eq!(args[0], "-Xmx4G");
    assert!(!args.contains(&"-Dos.name=Windows 10".to_string()));
    assert_eq!(&args[args.len() - 6..], &["--proxyHost", "proxy.local", "--proxyPort", "8080", "--proxyUser", "me"]);
}

#[test]
fn token_is_redacted() {
    let args = vec!["--accessToken".to_string(), "SECRETTOKEN".to_string(), "--session".to_string(), "token:SECRETTOKEN".to_string()];
    let line = redact_command_line(&args, "SECRETTOKEN");
    assert_eq!(line, "--accessToken ????? --session token:?????");
    assert!(!line.contains("SECRETTOKEN"));
    assert_eq!(redact_command_line(&args, ""), args.join(" "));
}

#[test]
fn asset_bindings_reach_placeholders() {
    let mut r = MinecraftGameRunner::new(options(None), platform(OperatingSystem::Osx, false));
    r.set_prepared(legacy_version(), "/n".to_string(), "/v".to_string());
    let objs = vec![AssetObject { name: "icons/minecraft.icns".to_string(), hash: SHA.to_string(), size: 1 }];
    let s = r.create_arguments_substitutor("/cp", &objs);
    let args = r.launch_arguments(&s);
    assert_eq!(args[7], format!("-Xdock:icon=/g/assets/objects/01/{SHA}"));
    assert_eq!(args[8], "-Xdock:name=Minecraft");
}

#[test]
fn progress_is_monotonic_and_debounced() {
    let mut p = ProgressReporter::new();
    p.setup("Resources", 2);
    assert!(p.publish(1000));
    p.item_finished();
    assert_eq!(p.completed, 1);
    assert!(!p.publish(1050));
    assert!(p.publish(1100));
    p.item_finished();
    p.item_finished();
    assert_eq!(p.completed, 2);
    assert!(p.is_done());
    assert!(p.publish(1101));
    p.set_status("Done");
    assert_eq!(p.status, "Done");
}

#[test]
fn unresolved_placeholders_are_found() {
    assert!(has_unresolved_placeholder("--x=${unknown}"));
    assert!(!has_unresolved_placeholder("--x=value"));
    assert!(!has_unresolved_placeholder("${}"));
}
