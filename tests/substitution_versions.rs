use minecraft_launcher_core::artifact::Artifact;
use minecraft_launcher_core::error::ErrorKind;
use minecraft_launcher_core::library::Library;
use minecraft_launcher_core::rule::{Environment, OperatingSystem, OsRule, Rule, RuleAction};
use minecraft_launcher_core::substitutor::ArgumentSubstitutorBuilder;
use minecraft_launcher_core::version::{
    construct_classpath, cycle_error, inheritance_step, merge, merge_chain, ArgumentEntry, Arguments, InheritanceStep,
    LocalVersionInfo,
};

fn lib(name: &str) -> Library {
    Library { name: Artifact::parse(name).unwrap(), rules: vec![], natives: vec![], extract: None, url: None, downloads: None }
}

fn version(id: &str, parent: Option<&str>, libs: Vec<&str>, main: Option<&str>) -> LocalVersionInfo {
    LocalVersionInfo {
        id: id.to_string(),
        release_type: "release".to_string(),
        release_time: "2023-06-12T13:25:51+00:00".to_string(),
        updated_time: "2023-06-12T13:25:51+00:00".to_string(),
        main_class: main.map(|m| m.to_string()),
        minecraft_arguments: None,
        arguments: None,
        inherits_from: parent.map(|p| p.to_string()),
        libraries: libs.into_iter().map(lib).collect(),
        asset_index: None,
        client_download: None,
        jar: None,
        compatibility_rules: vec![],
    }
}

fn linux() -> Environment {
    Environment { os: OperatingSystem::Linux, os_version: "6.1".to_string(), arch: "x86_64".to_string(), is_demo_user: false, has_custom_resolution: false }
}

#[test]
fn substitutor_replaces_every_occurrence() {
    let mut b = ArgumentSubstitutorBuilder::new();
    b.add("a", "1").add("b", "2");
    let s = b.build();
    assert_eq!(s.substitute("${a}-${b}-${a}"), "1-2-1");
    assert_eq!(s.substitute("${unknown}"), "${unknown}");
    assert_eq!(s.substitute("plain"), "plain");
}

#[test]
fn substitutor_later_binding_overrides() {
    let mut b = ArgumentSubstitutorBuilder::new();
    b.add("user", "first");
    b.add_all(vec![("user".to_string(), "second".to_string()), ("x".to_string(), "y".to_string())]);
    let s = b.build();
    assert_eq!(s.substitute("${user}:${x}"), "second:y");
}

#[test]
fn substitutor_twice_is_noop_once_settled() {
    let mut b = ArgumentSubstitutorBuilder::new();
    b.add("natives_directory", "/g/versions/1.8.9/1.8.9-natives-1");
    let s = b.build();
    let once = s.substitute("-Djava.library.path=${natives_directory}");
    assert_eq!(once, "-Djava.library.path=/g/versions/1.8.9/1.8.9-natives-1");
    assert_eq!(s.substitute(&once), once);
}

#[test]
fn forge_inheritance_merges_parent_first() {
    let child = version(
        "1.20.1-forge-47.2.0",
        Some("1.20.1"),
        vec!["net.minecraftforge:forge:47.2.0", "org.ow2.asm:asm:9.5"],
        Some("cpw.mods.bootstraplauncher.BootstrapLauncher"),
    );
    let parent = version("1.20.1", None, vec!["org.ow2.asm:asm:9.3", "com.mojang:brigadier:1.1.8"], Some("net.minecraft.client.main.Main"));
    let chain = vec![child];
    match inheritance_step(&chain) {
        InheritanceStep::Fetch(id) => assert_eq!(id, "1.20.1"),
        _ => panic!("expected the parent to be asked for"),
    }
    let mut chain = chain;
    chain.push(parent);
    assert!(matches!(inheritance_step(&chain), InheritanceStep::Complete));
    let merged = merge_chain(chain);
    let names: Vec<String> = merged.libraries.iter().map(|l| l.name.to_string()).collect();
    assert_eq!(
        names,
        vec!["org.ow2.asm:asm:9.3", "com.mojang:brigadier:1.1.8", "net.minecraftforge:forge:47.2.0", "org.ow2.asm:asm:9.5"]
    );
    assert_eq!(merged.main_class, Some("cpw.mods.bootstraplauncher.BootstrapLauncher".to_string()));
    assert_eq!(merged.id, "1.20.1-forge-47.2.0");
    assert_eq!(merged.inherits_from, None);
}

#[test]
fn inheritance_cycle_is_detected() {
    let chain = vec![version("a", Some("b"), vec![], None), version("b", Some("a"), vec![], None)];
    match inheritance_step(&chain) {
        InheritanceStep::Cycle(path) => {
            assert_eq!(path, vec!["a", "b", "a"]);
            let e = cycle_error(&path);
            assert_eq!(e.kind, ErrorKind::InheritanceCycle);
            assert_eq!(e.detail, "a -> b -> a");
        }
        _ => panic!("expected a cycle"),
    }
    let tail = vec![version("x", Some("a"), vec![], None), version("a", Some("b"), vec![], None), version("b", Some("a"), vec![], None)];
    match inheritance_step(&tail) {
        InheritanceStep::Cycle(path) => assert_eq!(path, vec!["a", "b", "a"]),
        _ => panic!("expected a cycle"),
    }
    let selfish = vec![version("a", Some("a"), vec![], None)];
    match inheritance_step(&selfish) {
        InheritanceStep::Cycle(path) => assert_eq!(path, vec!["a", "a"]),
        _ => panic!("expected a cycle"),
    }
}

#[test]
fn resolving_without_parent_is_identity() {
    let v = version("1.20.1", None, vec!["a:b:1"], Some("M"));
    assert!(matches!(inheritance_step(&vec![version("1.20.1", None, vec![], None)]), InheritanceStep::Complete));
    let r = merge_chain(vec![v]);
    assert_eq!(r.id, "1.20.1");
    assert_eq!(r.libraries.len(), 1);
    assert_eq!(r.main_class, Some("M".to_string()));
}

#[test]
fn merge_modern_arguments_win_over_legacy() {
    let mut child = version("c", Some("p"), vec![], None);
    child.arguments = Some(Arguments { jvm: vec![ArgumentEntry::Literal("-Dc".to_string())], game: vec![] });
    let mut parent = version("p", None, vec![], Some("Main"));
    parent.minecraft_arguments = Some("--username ${auth_player_name}".to_string());
    parent.arguments = Some(Arguments { jvm: vec![ArgumentEntry::Literal("-Dp".to_string())], game: vec![] });
    let m = merge(child, parent);
    assert!(m.minecraft_arguments.is_none());
    let jvm: Vec<String> = m.arguments.unwrap().jvm.into_iter().map(|e| match e {
        ArgumentEntry::Literal(s) => s,
        _ => String::new(),
    }).collect();
    assert_eq!(jvm, vec!["-Dp", "-Dc"]);
    assert_eq!(m.main_class, Some("Main".to_string()));
}

#[test]
fn classpath_order_and_separator() {
    let mut v = version("1.20.1", None, vec!["a.b:c:1", "d:e:2"], Some("M"));
    let mut native = lib("org.lwjgl:lwjgl:3.3.1");
    native.natives = vec![(OperatingSystem::Linux, "natives-linux".to_string())];
    v.libraries.push(native);
    let cp = v.get_classpath(OperatingSystem::Linux, "/g", &linux());
    assert_eq!(cp, vec!["/g/libraries/a/b/c/1/c-1.jar", "/g/libraries/d/e/2/e-2.jar", "/g/versions/1.20.1/1.20.1.jar"]);
    assert_eq!(cp, v.get_classpath(OperatingSystem::Linux, "/g", &linux()));
    let present = vec![true; cp.len()];
    assert_eq!(
        construct_classpath(&cp, &present, OperatingSystem::Linux).unwrap(),
        "/g/libraries/a/b/c/1/c-1.jar:/g/libraries/d/e/2/e-2.jar:/g/versions/1.20.1/1.20.1.jar"
    );
    assert_eq!(
        construct_classpath(&cp, &present, OperatingSystem::Windows).unwrap(),
        "/g/libraries/a/b/c/1/c-1.jar;/g/libraries/d/e/2/e-2.jar;/g/versions/1.20.1/1.20.1.jar"
    );
    let err = construct_classpath(&cp, &vec![true, false, false], OperatingSystem::Linux).unwrap_err();
    assert_eq!(err.kind, ErrorKind::ClasspathMissing);
    assert_eq!(err.detail, "/g/libraries/d/e/2/e-2.jar");
}

#[test]
fn jar_override_names_the_primary_jar() {
    let mut v = version("1.20.1-forge", None, vec![], None);
    assert_eq!(v.get_jar(), "1.20.1-forge");
    v.jar = Some("1.20.1".to_string());
    assert_eq!(v.get_jar_path("/g"), "/g/versions/1.20.1/1.20.1.jar");
}

#[test]
fn incompatible_version_is_refused() {
    let mut v = version("1.20.1", None, vec![], None);
    assert!(v.check_compatible(&linux()).is_ok());
    v.compatibility_rules = vec![Rule {
        action: RuleAction::Allow,
        os: Some(OsRule { name: Some(OperatingSystem::Windows), version: None, arch: None }),
        features: vec![],
    }];
    assert!(!v.applies_to_current_environment(&linux()));
    let e = v.check_compatible(&linux()).unwrap_err();
    assert_eq!(e.kind, ErrorKind::UnsupportedEnvironment);
    assert_eq!(e.detail, "1.20.1");
}
