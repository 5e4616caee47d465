//! Launch assembly: the runner's options, the placeholder bindings, the
//! command line, its redaction, and housekeeping of natives directories.
use vstd::prelude::*;
use crate::rule::{rules_outcome, Environment, OperatingSystem, RuleAction};
use crate::substitutor::{
    put_all, substitute_spec, ArgumentSubstitutor, ArgumentSubstitutorBuilder,
};
use crate::text::{copy_str, decimal, decimal_spec, replace_spec, replace_str, split_spec, split_str, views};
use crate::version::{ArgumentEntry, LocalVersionInfo};

verus! {

/// The JVM options used when the user gives none, separated by spaces.
pub open spec fn default_jre_arguments() -> Seq<char> {
    "-Xmx2G -XX:+UnlockExperimentalVMOptions -XX:+UseG1GC -XX:G1NewSizePercent=20 -XX:G1ReservePercent=20 -XX:MaxGCPauseMillis=50 -XX:G1HeapRegionSize=32M"@
}

/// What stands in a logged command line in place of the access token.
pub open spec fn redaction_mark() -> Seq<char> {
    "?????"@
}

/// Natives directories last changed more than this many milliseconds ago are removed.
pub const NATIVES_MAX_AGE_MS: u64 = 3600000;

/// A proxy the game is told to use.
pub struct ProxyConfig {
    pub host: String,
    pub port: u16,
    pub user: Option<String>,
    pub pass: Option<String>,
}

/// A custom window size.
pub struct Resolution {
    pub width: u32,
    pub height: u32,
}

/// What the authentication capability provides.
pub struct Authentication {
    pub player_name: String,
    pub uuid: String,
    pub access_token: String,
    pub session: String,
    pub user_type: String,
    pub extra_substitutions: Vec<(String, String)>,
}

/// The launcher's own name and version, shown to the game.
pub struct LauncherOptions {
    pub launcher_name: String,
    pub launcher_version: String,
}

/// Facts about the machine the game runs on.
pub struct Platform {
    pub os: OperatingSystem,
    pub os_version: String,
    pub arch: String,
    pub is_64_bit: bool,
    pub is_windows_10: bool,
}

/// Options of one launch.
pub struct GameOptions {
    pub game_dir: String,
    pub version: String,
    pub java_path: String,
    pub jvm_args: Option<Vec<String>>,
    pub proxy: Option<ProxyConfig>,
    pub resolution: Option<Resolution>,
    pub is_demo_user: bool,
    pub authentication: Authentication,
    pub launcher_options: Option<LauncherOptions>,
    pub max_concurrent_downloads: usize,
    pub max_download_attempts: u32,
    pub substitutor_overrides: Vec<(String, String)>,
}

/// One asset object of the index: its logical name and content hash.
pub struct AssetObject {
    pub name: String,
    pub hash: String,
    pub size: u64,
}

/// Runs one version of the game: holds the options and what launch
/// preparation produced.
pub struct MinecraftGameRunner {
    pub options: GameOptions,
    pub platform: Platform,
    pub feature_matcher: Environment,
    pub local_version: Option<LocalVersionInfo>,
    pub natives_dir: Option<String>,
    pub virtual_dir: Option<String>,
    pub progress: crate::progress::ProgressReporter,
}

/// The first two characters of a hash (the whole hash when shorter).
pub open spec fn hash_prefix(h: Seq<char>) -> Seq<char> {
    if h.len() >= 2 {
        h.subrange(0, 2)
    } else {
        h
    }
}

/// `<assetsDir>/objects/<hash[0:2]>/<hash>`.
pub open spec fn asset_object_path(assets_dir: Seq<char>, h: Seq<char>) -> Seq<char> {
    assets_dir + "/objects/"@ + hash_prefix(h) + "/"@ + h
}

/// `https://resources.download.minecraft.net/<hash[0:2]>/<hash>`.
pub open spec fn asset_object_url(h: Seq<char>) -> Seq<char> {
    "https://resources.download.minecraft.net/"@ + hash_prefix(h) + "/"@ + h
}

fn hash_prefix_str(h: &str) -> (r: &str)
    ensures
        r@ == hash_prefix(h@),
{
    if h.unicode_len() >= 2 {
        h.substring_char(0, 2)
    } else {
        h
    }
}

/// Path of an asset object under `assets_dir`.
pub fn get_asset_object_path(assets_dir: &str, hash: &str) -> (r: String)
    ensures
        r@ == asset_object_path(assets_dir@, hash@),
{
    let mut out = copy_str(assets_dir);
    out.append("/objects/");
    out.append(hash_prefix_str(hash));
    out.append("/");
    out.append(hash);
    out
}

/// Where an asset object is downloaded from.
pub fn get_asset_object_url(hash: &str) -> (r: String)
    ensures
        r@ == asset_object_url(hash@),
{
    let mut out = copy_str("https://resources.download.minecraft.net/");
    out.append(hash_prefix_str(hash));
    out.append("/");
    out.append(hash);
    out
}

/// The `asset=<name>` bindings, one per object, in index order.
pub open spec fn asset_pairs(objects: Seq<AssetObject>, assets_dir: Seq<char>) -> Seq<(Seq<char>, Seq<char>)>
    decreases objects.len(),
{
    if objects.len() == 0 {
        Seq::empty()
    } else {
        asset_pairs(objects.drop_last(), assets_dir).push(
            ("asset="@ + objects.last().name@, asset_object_path(assets_dir, objects.last().hash@)),
        )
    }
}

pub open spec fn pairs_of(v: Seq<(String, String)>) -> Seq<(Seq<char>, Seq<char>)> {
    crate::substitutor::pairs_view(v)
}

fn push_pair(v: &mut Vec<(String, String)>, key: &str, value: &str)
    ensures
        pairs_of(final(v)@) == pairs_of(old(v)@).push((key@, value@)),
{
    v.push((copy_str(key), copy_str(value)));
    assert(pairs_of(v@) =~= pairs_of(old(v)@).push((key@, value@)));
}

fn push_pairs(v: &mut Vec<(String, String)>, more: &Vec<(String, String)>)
    ensures
        pairs_of(final(v)@) == pairs_of(old(v)@) + pairs_of(more@),
{
    let mut i: usize = 0;
    while i < more.len()
        invariant
            i <= more@.len(),
            pairs_of(v@) == pairs_of(old(v)@) + pairs_of(more@.subrange(0, i as int)),
        decreases more.len() - i,
    {
        assert(pairs_of(more@.subrange(0, i + 1)) =~= pairs_of(more@.subrange(0, i as int)).push(
            (more@[i as int].0@, more@[i as int].1@),
        ));
        push_pair(v, more[i].0.as_str(), more[i].1.as_str());
        i = i + 1;
    }
    assert(more@.subrange(0, i as int) =~= more@);
}

fn push_asset_pairs(v: &mut Vec<(String, String)>, objects: &Vec<AssetObject>, assets_dir: &str)
    ensures
        pairs_of(final(v)@) == pairs_of(old(v)@) + asset_pairs(objects@, assets_dir@),
{
    let mut i: usize = 0;
    assert(objects@.subrange(0, 0) =~= Seq::<AssetObject>::empty());
    while i < objects.len()
        invariant
            i <= objects@.len(),
            pairs_of(v@) == pairs_of(old(v)@) + asset_pairs(objects@.subrange(0, i as int), assets_dir@),
        decreases objects.len() - i,
    {
        assert(objects@.subrange(0, i + 1).drop_last() =~= objects@.subrange(0, i as int));
        let mut key = copy_str("asset=");
        key.append(objects[i].name.as_str());
        let path = get_asset_object_path(assets_dir, objects[i].hash.as_str());
        push_pair(v, key.as_str(), path.as_str());
        i = i + 1;
    }
    assert(objects@.subrange(0, i as int) =~= objects@);
}

pub open spec fn text_or_empty(o: Option<String>) -> Seq<char> {
    match o {
        Some(s) => s@,
        None => Seq::empty(),
    }
}

/// `<gameDir>/versions/<version>`.
pub open spec fn version_dir_spec(o: &GameOptions) -> Seq<char> {
    o.game_dir@ + "/versions/"@ + o.version@
}

/// `<gameDir>/assets`.
pub open spec fn assets_dir_spec(o: &GameOptions) -> Seq<char> {
    o.game_dir@ + "/assets"@
}

/// `<versionDir>/<version>-natives-<timestamp>`.
pub open spec fn natives_dir_spec(o: &GameOptions, nanos: nat) -> Seq<char> {
    version_dir_spec(o) + "/"@ + o.version@ + "-natives-"@ + decimal_spec(nanos)
}

/// The placeholder bindings of a launch, in the order they are added; later
/// ones (the authentication's extras, then the user's overrides) win.
pub open spec fn substitution_pairs(
    r: &MinecraftGameRunner,
    classpath: Seq<char>,
    objects: Seq<AssetObject>,
) -> Seq<(Seq<char>, Seq<char>)> {
    let o = &r.options;
    let a = &o.authentication;
    let assets_dir = assets_dir_spec(o);
    head_pairs(r) + asset_pairs(objects, assets_dir) + tail_pairs(r, classpath) + pairs_of(
        a.extra_substitutions@,
    ) + pairs_of(o.substitutor_overrides@)
}

/// The bindings that come before the asset ones.
pub open spec fn head_pairs(r: &MinecraftGameRunner) -> Seq<(Seq<char>, Seq<char>)> {
    let o = &r.options;
    let a = &o.authentication;
    let v = r.local_version->Some_0@;
    let (w, h) = match o.resolution {
        Some(res) => (decimal_spec(res.width as nat), decimal_spec(res.height as nat)),
        None => (Seq::empty(), Seq::empty()),
    };
    let index_name = match v.asset_index {
        Some(i) => i.id@,
        None => Seq::empty(),
    };
    seq![
        ("auth_access_token"@, a.access_token@),
        ("auth_session"@, a.session@),
        ("auth_player_name"@, a.player_name@),
        ("auth_uuid"@, a.uuid@),
        ("user_type"@, a.user_type@),
        ("profile_name"@, Seq::empty()),
        ("version_name"@, o.version@),
        ("game_directory"@, o.game_dir@),
        ("game_assets"@, r.virtual_dir->Some_0@),
        ("assets_root"@, assets_dir_spec(o)),
        ("assets_index_name"@, index_name),
        ("version_type"@, v.release_type),
        ("resolution_width"@, w),
        ("resolution_height"@, h),
        ("language"@, "en-us"@),
    ]
}

/// The bindings that come after the asset ones, before the extras and overrides.
pub open spec fn tail_pairs(r: &MinecraftGameRunner, classpath: Seq<char>) -> Seq<(Seq<char>, Seq<char>)> {
    let o = &r.options;
    let v = r.local_version->Some_0@;
    let (ln, lv) = match o.launcher_options {
        Some(l) => (l.launcher_name@, l.launcher_version@),
        None => (Seq::empty(), Seq::empty()),
    };
    seq![
        ("launcher_name"@, ln),
        ("launcher_version"@, lv),
        ("natives_directory"@, r.natives_dir->Some_0@),
        ("classpath"@, classpath),
        ("classpath_separator"@, crate::version::classpath_separator(r.platform.os)),
        ("primary_jar"@, crate::version::jar_path(v, o.game_dir@)),
        ("clientid"@, Seq::empty()),
        ("auth_xuid"@, Seq::empty()),
        ("library_directory"@, o.game_dir@ + "/libraries"@),
    ]
}

impl MinecraftGameRunner {
    /// A runner for `options` on `platform`; nothing is prepared yet. The
    /// environment shows a custom resolution exactly when one is configured.
    pub fn new(options: GameOptions, platform: Platform) -> (r: Self)
        ensures
            r.options == options,
            r.platform == platform,
            r.feature_matcher.os == platform.os,
            r.feature_matcher.os_version@ == platform.os_version@,
            r.feature_matcher.arch@ == platform.arch@,
            r.feature_matcher.is_demo_user == options.is_demo_user,
            r.feature_matcher.has_custom_resolution == options.resolution is Some,
            r.local_version is None,
            r.natives_dir is None,
            r.virtual_dir is None,
            r.progress.wf(),
            r.progress.completed == 0 && r.progress.total == 0,
    {
        let feature_matcher = Environment {
            os: platform.os,
            os_version: copy_str(platform.os_version.as_str()),
            arch: copy_str(platform.arch.as_str()),
            is_demo_user: options.is_demo_user,
            has_custom_resolution: options.resolution.is_some(),
        };
        MinecraftGameRunner {
            options,
            platform,
            feature_matcher,
            local_version: None,
            natives_dir: None,
            virtual_dir: None,
            progress: crate::progress::ProgressReporter::new(),
        }
    }

    /// The progress channel of this launch.
    pub fn progress_reporter(&mut self) -> (r: &mut crate::progress::ProgressReporter)
        ensures
            *r == old(self).progress,
            final(self).progress == *final(r),
            final(self).options == old(self).options,
            final(self).platform == old(self).platform,
            final(self).feature_matcher == old(self).feature_matcher,
            final(self).local_version == old(self).local_version,
            final(self).natives_dir == old(self).natives_dir,
            final(self).virtual_dir == old(self).virtual_dir,
    {
        &mut self.progress
    }

    /// Records what launch preparation produced.
    pub fn set_prepared(&mut self, local_version: LocalVersionInfo, natives_dir: String, virtual_dir: String)
        ensures
            final(self).local_version == Some(local_version),
            final(self).natives_dir == Some(natives_dir),
            final(self).virtual_dir == Some(virtual_dir),
            final(self).options == old(self).options,
            final(self).platform == old(self).platform,
            final(self).feature_matcher == old(self).feature_matcher,
            final(self).progress == old(self).progress,
    {
        self.local_version = Some(local_version);
        self.natives_dir = Some(natives_dir);
        self.virtual_dir = Some(virtual_dir);
    }

    pub fn get_local_version(&self) -> (r: &LocalVersionInfo)
        requires
            self.local_version is Some,
        ensures
            *r == self.local_version->Some_0,
    {
        self.local_version.as_ref().unwrap()
    }

    pub fn get_natives_dir(&self) -> (r: &String)
        requires
            self.natives_dir is Some,
        ensures
            *r == self.natives_dir->Some_0,
    {
        self.natives_dir.as_ref().unwrap()
    }

    pub fn get_virtual_dir(&self) -> (r: &String)
        requires
            self.virtual_dir is Some,
        ensures
            *r == self.virtual_dir->Some_0,
    {
        self.virtual_dir.as_ref().unwrap()
    }

    /// `<gameDir>/versions/<version>`.
    pub fn get_version_dir(&self) -> (r: String)
        ensures
            r@ == version_dir_spec(&self.options),
    {
        let mut out = copy_str(self.options.game_dir.as_str());
        out.append("/versions/");
        out.append(self.options.version.as_str());
        out
    }

    /// `<gameDir>/assets`.
    pub fn get_assets_dir(&self) -> (r: String)
        ensures
            r@ == assets_dir_spec(&self.options),
    {
        let mut out = copy_str(self.options.game_dir.as_str());
        out.append("/assets");
        out
    }

    /// The natives directory of a launch started at `nanos`, unique per launch.
    pub fn natives_dir_for(&self, nanos: u64) -> (r: String)
        ensures
            r@ == natives_dir_spec(&self.options, nanos as nat),
    {
        let mut out = self.get_version_dir();
        out.append("/");
        out.append(self.options.version.as_str());
        out.append("-natives-");
        let n = decimal(nanos);
        out.append(n.as_str());
        out
    }

    /// The substitutor of this launch over `classpath` and the asset index objects.
    pub fn create_arguments_substitutor(&self, classpath: &str, objects: &Vec<AssetObject>) -> (r: ArgumentSubstitutor)
        requires
            self.local_version is Some,
            self.natives_dir is Some,
            self.virtual_dir is Some,
        ensures
            r@ == put_all(Seq::empty(), substitution_pairs(self, classpath@, objects@)),
    {
        let assets_dir = self.get_assets_dir();
        let mut pairs: Vec<(String, String)> = Vec::new();
        self.push_head_pairs(&mut pairs);
        push_asset_pairs(&mut pairs, objects, assets_dir.as_str());
        self.push_tail_pairs(&mut pairs, classpath);
        push_pairs(&mut pairs, &self.options.authentication.extra_substitutions);
        push_pairs(&mut pairs, &self.options.substitutor_overrides);
        assert(pairs_of(pairs@) =~= substitution_pairs(self, classpath@, objects@));
        let mut builder = ArgumentSubstitutorBuilder::new();
        builder.add_all(pairs);
        builder.build()
    }
}

impl MinecraftGameRunner {
    fn push_head_pairs(&self, pairs: &mut Vec<(String, String)>)
        requires
            self.local_version is Some,
            self.virtual_dir is Some,
        ensures
            pairs_of(final(pairs)@) == pairs_of(old(pairs)@) + head_pairs(self),
    {
        let o = &self.options;
        let a = &o.authentication;
        let v = self.get_local_version();
        let assets_dir = self.get_assets_dir();
        let ghost start = pairs_of(pairs@);
        push_pair(pairs, "auth_access_token", a.access_token.as_str());
        push_pair(pairs, "auth_session", a.session.as_str());
        push_pair(pairs, "auth_player_name", a.player_name.as_str());
        push_pair(pairs, "auth_uuid", a.uuid.as_str());
        push_pair(pairs, "user_type", a.user_type.as_str());
        push_pair(pairs, "profile_name", "");
        push_pair(pairs, "version_name", o.version.as_str());
        push_pair(pairs, "game_directory", o.game_dir.as_str());
        push_pair(pairs, "game_assets", self.get_virtual_dir().as_str());
        push_pair(pairs, "assets_root", assets_dir.as_str());
        match &v.asset_index {
            Some(i) => push_pair(pairs, "assets_index_name", i.id.as_str()),
            None => push_pair(pairs, "assets_index_name", ""),
        }
        push_pair(pairs, "version_type", v.release_type.as_str());
        match &o.resolution {
            Some(res) => {
                let w = decimal(res.width as u64);
                let h = decimal(res.height as u64);
                push_pair(pairs, "resolution_width", w.as_str());
                push_pair(pairs, "resolution_height", h.as_str());
            },
            None => {
                push_pair(pairs, "resolution_width", "");
                push_pair(pairs, "resolution_height", "");
            },
        }
        push_pair(pairs, "language", "en-us");
        proof {
            reveal_strlit("");
            assert(""@ =~= Seq::<char>::empty());
            assert(pairs_of(pairs@) =~= start + head_pairs(self));
        }
    }

    fn push_tail_pairs(&self, pairs: &mut Vec<(String, String)>, classpath: &str)
        requires
            self.local_version is Some,
            self.natives_dir is Some,
        ensures
            pairs_of(final(pairs)@) == pairs_of(old(pairs)@) + tail_pairs(self, classpath@),
    {
        let o = &self.options;
        let v = self.get_local_version();
        let ghost start = pairs_of(pairs@);
        match &o.launcher_options {
            Some(l) => {
                push_pair(pairs, "launcher_name", l.launcher_name.as_str());
                push_pair(pairs, "launcher_version", l.launcher_version.as_str());
            },
            None => {
                push_pair(pairs, "launcher_name", "");
                push_pair(pairs, "launcher_version", "");
            },
        }
        push_pair(pairs, "natives_directory", self.get_natives_dir().as_str());
        push_pair(pairs, "classpath", classpath);
        push_pair(pairs, "classpath_separator", crate::version::classpath_separator_str(self.platform.os));
        let jar = v.get_jar_path(o.game_dir.as_str());
        push_pair(pairs, "primary_jar", jar.as_str());
        push_pair(pairs, "clientid", "");
        push_pair(pairs, "auth_xuid", "");
        let mut libdir = copy_str(o.game_dir.as_str());
        libdir.append("/libraries");
        push_pair(pairs, "library_directory", libdir.as_str());
        proof {
            reveal_strlit("");
            assert(""@ =~= Seq::<char>::empty());
            assert(pairs_of(pairs@) =~= start + tail_pairs(self, classpath@));
        }
    }
}

/// Each token substituted.
pub open spec fn substituted(es: Seq<(Seq<char>, Seq<char>)>, toks: Seq<Seq<char>>) -> Seq<Seq<char>> {
    toks.map_values(|t: Seq<char>| substitute_spec(es, t))
}

/// The tokens of modern argument entries that the rules allow, substituted, in order.
pub open spec fn expand_entries(entries: Seq<ArgumentEntry>, env: &Environment, es: Seq<(Seq<char>, Seq<char>)>) -> Seq<
    Seq<char>,
>
    decreases entries.len(),
{
    if entries.len() == 0 {
        Seq::empty()
    } else {
        expand_entries(entries.drop_last(), env, es) + match entries.last() {
            ArgumentEntry::Literal(t) => seq![substitute_spec(es, t@)],
            ArgumentEntry::Conditional { rules, values } => if rules_outcome(rules@, env) == RuleAction::Allow {
                substituted(es, views(values@))
            } else {
                Seq::empty()
            },
        }
    }
}

/// The user's JVM options, else the default ones.
pub open spec fn jvm_base(o: &GameOptions) -> Seq<Seq<char>> {
    match o.jvm_args {
        Some(a) => views(a@),
        None => split_spec(default_jre_arguments(), ' '),
    }
}

/// The JVM options a legacy manifest implies.
pub open spec fn legacy_jvm(p: &Platform, es: Seq<(Seq<char>, Seq<char>)>) -> Seq<Seq<char>> {
    let os_part = if p.os == OperatingSystem::Windows {
        seq!["-XX:HeapDumpPath=MojangTricksIntelDriversForPerformance_javaw.exe_minecraft.exe.heapdump"@]
            + if p.is_windows_10 {
            seq!["-Dos.name=Windows 10"@, "-Dos.version=10.0"@]
        } else {
            Seq::empty()
        }
    } else if p.os == OperatingSystem::Osx {
        seq![substitute_spec(es, "-Xdock:icon=${asset=icons/minecraft.icns}"@), "-Xdock:name=Minecraft"@]
    } else {
        Seq::empty()
    };
    os_part + seq![
        substitute_spec(es, "-Djava.library.path=${natives_directory}"@),
        substitute_spec(es, "-Dminecraft.launcher.brand=${launcher_name}"@),
        substitute_spec(es, "-Dminecraft.launcher.version=${launcher_version}"@),
        substitute_spec(es, "-Dminecraft.client.jar=${primary_jar}"@),
        "-cp"@,
        substitute_spec(es, "${classpath}"@),
    ]
}

/// The game options a legacy manifest implies: its argument string split on
/// spaces and substituted, then the demo and resolution switches.
pub open spec fn legacy_game(m: Seq<char>, env: &Environment, es: Seq<(Seq<char>, Seq<char>)>) -> Seq<Seq<char>> {
    substituted(es, split_spec(m, ' ')) + (if env.is_demo_user {
        seq!["--demo"@]
    } else {
        Seq::empty()
    }) + if env.has_custom_resolution {
        seq![
            "--width"@,
            substitute_spec(es, "${resolution_width}"@),
            "--height"@,
            substitute_spec(es, "${resolution_height}"@),
        ]
    } else {
        Seq::empty()
    }
}

/// The proxy switches.
pub open spec fn proxy_args(proxy: Option<ProxyConfig>) -> Seq<Seq<char>> {
    match proxy {
        None => Seq::empty(),
        Some(p) => seq!["--proxyHost"@, p.host@, "--proxyPort"@, decimal_spec(p.port as nat)] + (match p.user {
            Some(u) => seq!["--proxyUser"@, u@],
            None => Seq::empty(),
        }) + match p.pass {
            Some(w) => seq!["--proxyPass"@, w@],
            None => Seq::empty(),
        },
    }
}

/// The full argument list after the Java executable.
pub open spec fn command_spec(r: &MinecraftGameRunner, es: Seq<(Seq<char>, Seq<char>)>) -> Seq<Seq<char>> {
    let v = r.local_version->Some_0@;
    let env = &r.feature_matcher;
    let (vjvm, vgame) = match v.arguments {
        Some((j, g)) => (expand_entries(j, env, es), expand_entries(g, env, es)),
        None => match v.minecraft_arguments {
            Some(m) => (legacy_jvm(&r.platform, es), legacy_game(m, env, es)),
            None => (Seq::empty(), Seq::empty()),
        },
    };
    let main = match v.main_class {
        Some(c) => seq![c],
        None => Seq::empty(),
    };
    jvm_base(&r.options) + vjvm + main + vgame + proxy_args(r.options.proxy)
}

/// A command line for the log: the arguments joined by spaces, with every
/// occurrence of a non-empty access token replaced by the redaction mark.
pub open spec fn redacted_spec(args: Seq<Seq<char>>, token: Seq<char>) -> Seq<char> {
    let line = crate::text::join_spec(args, " "@);
    if token.len() == 0 {
        line
    } else {
        replace_spec(line, token, redaction_mark())
    }
}

fn push_plain(out: &mut Vec<String>, tok: &str)
    ensures
        views(final(out)@) == views(old(out)@).push(tok@),
{
    out.push(copy_str(tok));
    assert(views(out@) =~= views(old(out)@).push(tok@));
}

fn push_substituted(out: &mut Vec<String>, subst: &ArgumentSubstitutor, tok: &str)
    ensures
        views(final(out)@) == views(old(out)@).push(substitute_spec(subst@, tok@)),
{
    let t = subst.substitute(tok);
    out.push(t);
    assert(views(out@) =~= views(old(out)@).push(substitute_spec(subst@, tok@)));
}

fn push_all(out: &mut Vec<String>, toks: &Vec<String>)
    ensures
        views(final(out)@) == views(old(out)@) + views(toks@),
{
    let mut i: usize = 0;
    while i < toks.len()
        invariant
            i <= toks@.len(),
            views(out@) == views(old(out)@) + views(toks@.subrange(0, i as int)),
        decreases toks.len() - i,
    {
        assert(views(toks@.subrange(0, i + 1)) =~= views(toks@.subrange(0, i as int)).push(toks@[i as int]@));
        push_plain(out, toks[i].as_str());
        i = i + 1;
    }
    assert(toks@.subrange(0, i as int) =~= toks@);
}

fn push_all_substituted(out: &mut Vec<String>, subst: &ArgumentSubstitutor, toks: &Vec<String>)
    ensures
        views(final(out)@) == views(old(out)@) + substituted(subst@, views(toks@)),
{
    let mut i: usize = 0;
    while i < toks.len()
        invariant
            i <= toks@.len(),
            views(out@) == views(old(out)@) + substituted(subst@, views(toks@.subrange(0, i as int))),
        decreases toks.len() - i,
    {
        assert(substituted(subst@, views(toks@.subrange(0, i + 1))) =~= substituted(
            subst@,
            views(toks@.subrange(0, i as int)),
        ).push(substitute_spec(subst@, toks@[i as int]@)));
        push_substituted(out, subst, toks[i].as_str());
        i = i + 1;
    }
    assert(toks@.subrange(0, i as int) =~= toks@);
}

fn push_entries(out: &mut Vec<String>, entries: &Vec<ArgumentEntry>, env: &Environment, subst: &ArgumentSubstitutor)
    ensures
        views(final(out)@) == views(old(out)@) + expand_entries(entries@, env, subst@),
{
    let mut i: usize = 0;
    assert(entries@.subrange(0, 0) =~= Seq::<ArgumentEntry>::empty());
    while i < entries.len()
        invariant
            i <= entries@.len(),
            views(out@) == views(old(out)@) + expand_entries(entries@.subrange(0, i as int), env, subst@),
        decreases entries.len() - i,
    {
        assert(entries@.subrange(0, i + 1).drop_last() =~= entries@.subrange(0, i as int));
        match &entries[i] {
            ArgumentEntry::Literal(t) => {
                push_substituted(out, subst, t.as_str());
            },
            ArgumentEntry::Conditional { rules, values } => {
                if crate::rule::evaluate_rules(rules, env) == RuleAction::Allow {
                    push_all_substituted(out, subst, values);
                }
            },
        }
        assert(views(out@) =~= views(old(out)@) + expand_entries(entries@.subrange(0, i + 1), env, subst@));
        i = i + 1;
    }
    assert(entries@.subrange(0, i as int) =~= entries@);
}

impl MinecraftGameRunner {
    fn push_legacy_jvm(&self, out: &mut Vec<String>, subst: &ArgumentSubstitutor)
        ensures
            views(final(out)@) == views(old(out)@) + legacy_jvm(&self.platform, subst@),
    {
        let ghost start = views(out@);
        if self.platform.os == OperatingSystem::Windows {
            push_plain(out, "-XX:HeapDumpPath=MojangTricksIntelDriversForPerformance_javaw.exe_minecraft.exe.heapdump");
            if self.platform.is_windows_10 {
                push_plain(out, "-Dos.name=Windows 10");
                push_plain(out, "-Dos.version=10.0");
            }
        } else if self.platform.os == OperatingSystem::Osx {
            push_substituted(out, subst, "-Xdock:icon=${asset=icons/minecraft.icns}");
            push_plain(out, "-Xdock:name=Minecraft");
        }
        push_substituted(out, subst, "-Djava.library.path=${natives_directory}");
        push_substituted(out, subst, "-Dminecraft.launcher.brand=${launcher_name}");
        push_substituted(out, subst, "-Dminecraft.launcher.version=${launcher_version}");
        push_substituted(out, subst, "-Dminecraft.client.jar=${primary_jar}");
        push_plain(out, "-cp");
        push_substituted(out, subst, "${classpath}");
        assert(views(out@) =~= start + legacy_jvm(&self.platform, subst@));
    }

    fn push_legacy_game(&self, out: &mut Vec<String>, m: &str, subst: &ArgumentSubstitutor)
        ensures
            views(final(out)@) == views(old(out)@) + legacy_game(m@, &self.feature_matcher, subst@),
    {
        let ghost start = views(out@);
        let toks = split_str(m, ' ');
        push_all_substituted(out, subst, &toks);
        if self.feature_matcher.is_demo_user {
            push_plain(out, "--demo");
        }
        if self.feature_matcher.has_custom_resolution {
            push_plain(out, "--width");
            push_substituted(out, subst, "${resolution_width}");
            push_plain(out, "--height");
            push_substituted(out, subst, "${resolution_height}");
        }
        assert(views(out@) =~= start + legacy_game(m@, &self.feature_matcher, subst@));
    }

    fn push_proxy(&self, out: &mut Vec<String>)
        ensures
            views(final(out)@) == views(old(out)@) + proxy_args(self.options.proxy),
    {
        let ghost start = views(out@);
        if let Some(p) = &self.options.proxy {
            push_plain(out, "--proxyHost");
            push_plain(out, p.host.as_str());
            push_plain(out, "--proxyPort");
            let port = decimal(p.port as u64);
            push_plain(out, port.as_str());
            if let Some(u) = &p.user {
                push_plain(out, "--proxyUser");
                push_plain(out, u.as_str());
            }
            if let Some(w) = &p.pass {
                push_plain(out, "--proxyPass");
                push_plain(out, w.as_str());
            }
        }
        assert(views(out@) =~= start + proxy_args(self.options.proxy));
    }

    /// The arguments passed to the Java executable: JVM options, the
    /// version's JVM arguments (modern or legacy), the main class, the game
    /// arguments, then the proxy switches.
    pub fn launch_arguments(&self, subst: &ArgumentSubstitutor) -> (r: Vec<String>)
        requires
            self.local_version is Some,
        ensures
            views(r@) == command_spec(self, subst@),
    {
        let v = self.get_local_version();
        let mut out: Vec<String> = Vec::new();
        assert(views(out@) =~= Seq::<Seq<char>>::empty());
        match &self.options.jvm_args {
            Some(a) => push_all(&mut out, a),
            None => {
                proof {
                    reveal_strlit("-Xmx2G -XX:+UnlockExperimentalVMOptions -XX:+UseG1GC -XX:G1NewSizePercent=20 -XX:G1ReservePercent=20 -XX:MaxGCPauseMillis=50 -XX:G1HeapRegionSize=32M");
                }
                let d = split_str("-Xmx2G -XX:+UnlockExperimentalVMOptions -XX:+UseG1GC -XX:G1NewSizePercent=20 -XX:G1ReservePercent=20 -XX:MaxGCPauseMillis=50 -XX:G1HeapRegionSize=32M", ' ');
                push_all(&mut out, &d);
            },
        }
        match &v.arguments {
            Some(args) => push_entries(&mut out, &args.jvm, &self.feature_matcher, subst),
            None => if v.minecraft_arguments.is_some() {
                self.push_legacy_jvm(&mut out, subst);
            },
        }
        if let Some(c) = &v.main_class {
            push_plain(&mut out, c.as_str());
        }
        match &v.arguments {
            Some(args) => push_entries(&mut out, &args.game, &self.feature_matcher, subst),
            None => match &v.minecraft_arguments {
                Some(m) => self.push_legacy_game(&mut out, m.as_str(), subst),
                None => {},
            },
        }
        self.push_proxy(&mut out);
        assert(views(out@) =~= command_spec(self, subst@));
        out
    }
}

/// The command line as it may be logged: joined by spaces, the access token
/// (when there is one) replaced by `?????`.
pub fn redact_command_line(args: &Vec<String>, token: &str) -> (r: String)
    ensures
        r@ == redacted_spec(views(args@), token@),
{
    let line = crate::text::join_strs(args, " ");
    if token.unicode_len() == 0 {
        line
    } else {
        proof {
            reveal_strlit("?????");
        }
        replace_str(line.as_str(), token, "?????")
    }
}

/// A logged command line never shows the access token, provided the token
/// is not empty and holds no `?` (the character of the redaction mark).
pub proof fn lemma_redaction_hides_token(args: Seq<Seq<char>>, token: Seq<char>)
    requires
        token.len() > 0,
        !token.contains('?'),
    ensures
        !crate::text::contains_spec(redacted_spec(args, token), token),
{
    reveal_strlit("?????");
    let mark = redaction_mark();
    assert forall|i: int| 0 <= i < token.len() implies !mark.contains(#[trigger] token[i]) by {
        if mark.contains(token[i]) {
            let k = choose|k: int| 0 <= k < mark.len() && mark[k] == token[i];
            assert(mark[k] == '?');
            assert(token.contains('?'));
        }
    }
    crate::text::lemma_replace_removes(crate::text::join_spec(args, " "@), token, mark);
}

/// The pattern of a placeholder that substitution left in an argument.
pub open spec fn unresolved_pattern() -> Seq<char> {
    "\\$\\{.+\\}"@
}

/// Whether an argument still holds a `${...}` placeholder, by the `regex`
/// crate's reading of the pattern above.
pub fn has_unresolved_placeholder(arg: &str) -> (r: bool)
    ensures
        r == (crate::rule::regex_match_outcome(unresolved_pattern(), arg@) == Some(true)),
{
    crate::rule::regex_is_match("\\$\\{.+\\}", arg) == Some(true)
}

/// With a legacy manifest, the JVM arguments end, just before the main
/// class, with the natives path, the launcher brand and version, the client
/// jar, and `-cp` followed by the classpath.
pub proof fn lemma_legacy_command_shape(r: &MinecraftGameRunner, es: Seq<(Seq<char>, Seq<char>)>)
    requires
        r.local_version is Some,
        r.local_version->Some_0@.arguments is None,
        r.local_version->Some_0@.minecraft_arguments is Some,
        r.local_version->Some_0@.main_class is Some,
    ensures
        ({
            let c = command_spec(r, es);
            let k = (jvm_base(&r.options).len() + legacy_jvm(&r.platform, es).len()) as int;
            &&& 6 <= k < c.len()
            &&& c.subrange(k - 6, k as int) == seq![
                substitute_spec(es, "-Djava.library.path=${natives_directory}"@),
                substitute_spec(es, "-Dminecraft.launcher.brand=${launcher_name}"@),
                substitute_spec(es, "-Dminecraft.launcher.version=${launcher_version}"@),
                substitute_spec(es, "-Dminecraft.client.jar=${primary_jar}"@),
                "-cp"@,
                substitute_spec(es, "${classpath}"@),
            ]
            &&& c[k] == r.local_version->Some_0@.main_class->Some_0
        }),
{
    let v = r.local_version->Some_0@;
    let c = command_spec(r, es);
    let base = jvm_base(&r.options);
    let lj = legacy_jvm(&r.platform, es);
    let tail6 = seq![
        substitute_spec(es, "-Djava.library.path=${natives_directory}"@),
        substitute_spec(es, "-Dminecraft.launcher.brand=${launcher_name}"@),
        substitute_spec(es, "-Dminecraft.launcher.version=${launcher_version}"@),
        substitute_spec(es, "-Dminecraft.client.jar=${primary_jar}"@),
        "-cp"@,
        substitute_spec(es, "${classpath}"@),
    ];
    let k = (base.len() + lj.len()) as int;
    let rest = seq![v.main_class->Some_0] + legacy_game(v.minecraft_arguments->Some_0, &r.feature_matcher, es)
        + proxy_args(r.options.proxy);
    assert(c =~= base + lj + rest);
    assert(lj.subrange(lj.len() - 6, lj.len() as int) =~= tail6);
    assert(c.subrange(k - 6, k as int) =~= lj.subrange(lj.len() - 6, lj.len() as int));
    assert(c[k] == rest[0]);
}

} // verus!
