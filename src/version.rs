//! Per-version manifests, the `inheritsFrom` merge, and the classpath.
use vstd::prelude::*;
use crate::artifact::artifact_path;
use crate::error::{ErrorKind, MinecraftLauncherError};
use crate::library::{natives_index, Library};
use crate::rule::{rules_outcome, Environment, OperatingSystem, Rule, RuleAction};
use crate::text::{copy_str, eq_str, join_spec, join_strs, views};

verus! {

/// One entry of the modern argument lists.
pub enum ArgumentEntry {
    /// Always present.
    Literal(String),
    /// Present when the rules allow it.
    Conditional { rules: Vec<Rule>, values: Vec<String> },
}

/// The modern argument lists.
pub struct Arguments {
    pub jvm: Vec<ArgumentEntry>,
    pub game: Vec<ArgumentEntry>,
}

/// Reference to the asset index of a version.
pub struct AssetIndexInfo {
    pub id: String,
    pub url: String,
    pub sha1: String,
    pub size: u64,
    pub total_size: u64,
}

/// A per-version manifest, as stored or as resolved.
pub struct LocalVersionInfo {
    pub id: String,
    pub release_type: String,
    pub release_time: String,
    pub updated_time: String,
    pub main_class: Option<String>,
    pub minecraft_arguments: Option<String>,
    pub arguments: Option<Arguments>,
    pub inherits_from: Option<String>,
    pub libraries: Vec<Library>,
    pub asset_index: Option<AssetIndexInfo>,
    pub client_download: Option<crate::library::DownloadInfo>,
    pub jar: Option<String>,
    /// Rules the environment must satisfy for this version to run.
    pub compatibility_rules: Vec<Rule>,
}

/// What a manifest holds; list-valued fields as sequences.
pub struct VersionModel {
    pub id: Seq<char>,
    pub release_type: Seq<char>,
    pub release_time: Seq<char>,
    pub updated_time: Seq<char>,
    pub main_class: Option<Seq<char>>,
    pub minecraft_arguments: Option<Seq<char>>,
    pub arguments: Option<(Seq<ArgumentEntry>, Seq<ArgumentEntry>)>,
    pub inherits_from: Option<Seq<char>>,
    pub libraries: Seq<Library>,
    pub asset_index: Option<AssetIndexInfo>,
    pub client_download: Option<crate::library::DownloadInfo>,
    pub jar: Option<Seq<char>>,
    pub compatibility_rules: Seq<Rule>,
}

pub open spec fn str_opt(o: Option<String>) -> Option<Seq<char>> {
    match o {
        Some(s) => Some(s@),
        None => None,
    }
}

impl View for LocalVersionInfo {
    type V = VersionModel;

    open spec fn view(&self) -> VersionModel {
        VersionModel {
            id: self.id@,
            release_type: self.release_type@,
            release_time: self.release_time@,
            updated_time: self.updated_time@,
            main_class: str_opt(self.main_class),
            minecraft_arguments: str_opt(self.minecraft_arguments),
            arguments: match self.arguments {
                Some(a) => Some((a.jvm@, a.game@)),
                None => None,
            },
            inherits_from: str_opt(self.inherits_from),
            libraries: self.libraries@,
            asset_index: self.asset_index,
            client_download: self.client_download,
            jar: str_opt(self.jar),
            compatibility_rules: self.compatibility_rules@,
        }
    }
}

pub open spec fn or_else<T>(a: Option<T>, b: Option<T>) -> Option<T> {
    match a {
        Some(x) => Some(x),
        None => b,
    }
}

/// The child merged over its parent: the child's fields win, lists are the
/// parent's followed by the child's, and the modern argument shape wins over
/// the legacy one. The compatibility rules are the child's.
pub open spec fn merge_spec(child: VersionModel, parent: VersionModel) -> VersionModel {
    let arguments = match (child.arguments, parent.arguments) {
        (Some(c), Some(p)) => Some((p.0 + c.0, p.1 + c.1)),
        (Some(c), None) => Some(c),
        (None, p) => p,
    };
    VersionModel {
        id: child.id,
        release_type: child.release_type,
        release_time: child.release_time,
        updated_time: child.updated_time,
        main_class: or_else(child.main_class, parent.main_class),
        minecraft_arguments: if arguments is Some {
            None
        } else {
            or_else(child.minecraft_arguments, parent.minecraft_arguments)
        },
        arguments,
        inherits_from: parent.inherits_from,
        libraries: parent.libraries + child.libraries,
        asset_index: or_else(child.asset_index, parent.asset_index),
        client_download: or_else(child.client_download, parent.client_download),
        jar: or_else(child.jar, parent.jar),
        compatibility_rules: child.compatibility_rules,
    }
}

/// A chain (child first, each next entry its parent) merged from the root outwards.
pub open spec fn merge_chain_spec(chain: Seq<VersionModel>) -> VersionModel
    recommends
        chain.len() >= 1,
    decreases chain.len(),
{
    if chain.len() <= 1 {
        chain[0]
    } else {
        merge_spec(chain[0], merge_chain_spec(chain.subrange(1, chain.len() as int)))
    }
}

pub open spec fn models(chain: Seq<LocalVersionInfo>) -> Seq<VersionModel> {
    chain.map_values(|v: LocalVersionInfo| v@)
}

/// What resolution needs next for a chain loaded so far.
pub enum InheritanceStep {
    /// The last manifest inherits from nothing: the chain is complete.
    Complete,
    /// The last manifest inherits from this version, which must be loaded next.
    Fetch(String),
    /// The last manifest inherits from a version already in the chain: the
    /// ids of the cycle, from that version to the last manifest, then that
    /// version again.
    Cycle(Vec<String>),
}

/// Whether some manifest of the chain has id `id`.
pub open spec fn chain_has_id(chain: Seq<VersionModel>, id: Seq<char>) -> bool {
    exists|i: int| 0 <= i < chain.len() && (#[trigger] chain[i]).id == id
}


/// Merges a child manifest over its parent.
pub fn merge(child: LocalVersionInfo, parent: LocalVersionInfo) -> (r: LocalVersionInfo)
    ensures
        r@ == merge_spec(child@, parent@),
{
    let LocalVersionInfo {
        id,
        release_type,
        release_time,
        updated_time,
        main_class,
        minecraft_arguments,
        arguments,
        inherits_from: _,
        libraries: mut child_libraries,
        asset_index,
        client_download,
        jar,
        compatibility_rules,
    } = child;
    let LocalVersionInfo {
        main_class: p_main_class,
        minecraft_arguments: p_minecraft_arguments,
        arguments: p_arguments,
        inherits_from: p_inherits_from,
        libraries: mut libraries,
        asset_index: p_asset_index,
        client_download: p_client_download,
        jar: p_jar,
        ..
    } = parent;
    libraries.append(&mut child_libraries);
    let merged_arguments = match arguments {
        Some(c) => match p_arguments {
            Some(p) => {
                let Arguments { jvm: mut c_jvm, game: mut c_game } = c;
                let Arguments { jvm: mut jvm, game: mut game } = p;
                jvm.append(&mut c_jvm);
                game.append(&mut c_game);
                Some(Arguments { jvm, game })
            },
            None => Some(c),
        },
        None => p_arguments,
    };
    let legacy = if merged_arguments.is_some() {
        None
    } else {
        match minecraft_arguments {
            Some(m) => Some(m),
            None => p_minecraft_arguments,
        }
    };
    LocalVersionInfo {
        id,
        release_type,
        release_time,
        updated_time,
        main_class: match main_class {
            Some(m) => Some(m),
            None => p_main_class,
        },
        minecraft_arguments: legacy,
        arguments: merged_arguments,
        inherits_from: p_inherits_from,
        libraries,
        asset_index: match asset_index {
            Some(a) => Some(a),
            None => p_asset_index,
        },
        client_download: match client_download {
            Some(d) => Some(d),
            None => p_client_download,
        },
        jar: match jar {
            Some(j) => Some(j),
            None => p_jar,
        },
        compatibility_rules,
    }
}

/// Consecutive manifests are linked by `inheritsFrom` and no id repeats.
pub open spec fn linked(chain: Seq<VersionModel>) -> bool {
    &&& forall|i: int| 0 <= i < chain.len() - 1 ==> (#[trigger] chain[i]).inherits_from == Some(chain[i + 1].id)
    &&& forall|i: int, j: int| 0 <= i < j < chain.len() ==> (#[trigger] chain[i]).id != (#[trigger] chain[j]).id
}

/// The ids of the manifests, in order.
pub open spec fn chain_ids(chain: Seq<VersionModel>) -> Seq<Seq<char>> {
    chain.map_values(|v: VersionModel| v.id)
}

/// The ids of `chain[start..]`, then `last`.
fn ids_from(chain: &Vec<LocalVersionInfo>, start: usize, last: &str) -> (r: Vec<String>)
    requires
        start <= chain@.len(),
    ensures
        views(r@) == chain_ids(models(chain@).subrange(start as int, chain@.len() as int)).push(last@),
{
    let mut out: Vec<String> = Vec::new();
    let mut i: usize = start;
    while i < chain.len()
        invariant
            start <= i <= chain@.len(),
            views(out@) == chain_ids(models(chain@).subrange(start as int, i as int)),
        decreases chain.len() - i,
    {
        let ghost pre = out@;
        out.push(copy_str(chain[i].id.as_str()));
        assert(views(out@) =~= views(pre).push(chain@[i as int].id@));
        assert(chain_ids(models(chain@).subrange(start as int, i + 1)) =~= chain_ids(
            models(chain@).subrange(start as int, i as int),
        ).push(chain@[i as int].id@));
        i = i + 1;
    }
    let ghost pre = out@;
    out.push(copy_str(last));
    assert(views(out@) =~= views(pre).push(last@));
    out
}

/// The error for an inheritance cycle: its ids joined by ` -> `.
pub fn cycle_error(path: &Vec<String>) -> (r: MinecraftLauncherError)
    ensures
        r.kind == ErrorKind::InheritanceCycle,
        r.detail@ == join_spec(views(path@), " -> "@),
{
    MinecraftLauncherError { kind: ErrorKind::InheritanceCycle, detail: join_strs(path, " -> ") }
}

/// Decides the next step of resolution for a chain loaded so far (child first).
pub fn inheritance_step(chain: &Vec<LocalVersionInfo>) -> (r: InheritanceStep)
    requires
        chain@.len() >= 1,
    ensures
        match chain@.last().inherits_from {
            None => r is Complete,
            Some(p) => if chain_has_id(models(chain@), p@) {
                r matches InheritanceStep::Cycle(path) && exists|j: int|
                    0 <= j < chain@.len() && (#[trigger] chain@[j]).id@ == p@ && (forall|k: int|
                        0 <= k < j ==> (#[trigger] chain@[k]).id@ != p@) && views(path@) == chain_ids(
                        models(chain@).subrange(j, chain@.len() as int),
                    ).push(p@)
            } else {
                r matches InheritanceStep::Fetch(f) && f@ == p@
            },
        },
{
    let last = &chain[chain.len() - 1];
    assert(*last == chain@.last());
    match &last.inherits_from {
        None => InheritanceStep::Complete,
        Some(p) => {
            let mut i: usize = 0;
            while i < chain.len()
                invariant
                    i <= chain@.len(),
                    chain@.len() >= 1,
                    chain@.last().inherits_from == Some(*p),
                    forall|k: int| 0 <= k < i ==> (#[trigger] chain@[k]).id@ != p@,
                decreases chain.len() - i,
            {
                if eq_str(chain[i].id.as_str(), p.as_str()) {
                    assert(models(chain@)[i as int].id == p@);
                    assert(chain_has_id(models(chain@), p@));
                    let path = ids_from(chain, i, p.as_str());
                    return InheritanceStep::Cycle(path);
                }
                i = i + 1;
            }
            assert(!chain_has_id(models(chain@), p@)) by {
                if chain_has_id(models(chain@), p@) {
                    let k = choose|k: int| 0 <= k < models(chain@).len() && (#[trigger] models(chain@)[k]).id == p@;
                    assert(chain@[k].id@ == p@);
                }
            }
            InheritanceStep::Fetch(copy_str(p.as_str()))
        },
    }
}

/// Merges a complete chain (child first, root last) into one manifest.
pub fn merge_chain(chain: Vec<LocalVersionInfo>) -> (r: LocalVersionInfo)
    requires
        chain@.len() >= 1,
    ensures
        r@ == merge_chain_spec(models(chain@)),
{
    let ghost orig = models(chain@);
    let ghost n = chain@.len();
    let mut chain = chain;
    let mut acc = chain.pop().unwrap();
    assert(orig.subrange(n - 1, n as int) =~= seq![acc@]);
    while chain.len() > 0
        invariant
            chain@.len() < n,
            n == orig.len(),
            models(chain@) == orig.subrange(0, chain@.len() as int),
            acc@ == merge_chain_spec(orig.subrange(chain@.len() as int, n as int)),
        decreases chain.len(),
    {
        let ghost k = chain@.len();
        let ghost before = chain@;
        let child = chain.pop().unwrap();
        assert(models(chain@) =~= orig.subrange(0, k - 1));
        assert(child@ == orig[k - 1]) by {
            assert(models(before)[k - 1] == orig.subrange(0, k as int)[k - 1]);
        }
        let ghost tail = orig.subrange(k - 1, n as int);
        assert(tail.subrange(1, tail.len() as int) =~= orig.subrange(k as int, n as int));
        assert(tail[0] == orig[k - 1]);
        acc = merge(child, acc);
    }
    assert(orig.subrange(0, n as int) =~= orig);
    acc
}

/// The merged manifest runs the main class of the child when the child names one.
pub proof fn lemma_child_main_class_wins(chain: Seq<VersionModel>)
    requires
        chain.len() >= 1,
        chain[0].main_class is Some,
    ensures
        merge_chain_spec(chain).main_class == chain[0].main_class,
{
}

/// A manifest that inherits from nothing resolves to itself.
pub proof fn lemma_merge_identity(v: VersionModel)
    requires
        v.inherits_from is None,
    ensures
        merge_chain_spec(seq![v]) == v,
{
}

/// Loading the parent that a step asked for keeps the chain linked and free of
/// repeated ids.
pub proof fn lemma_fetch_keeps_chain_linked(chain: Seq<VersionModel>, parent: VersionModel)
    requires
        chain.len() >= 1,
        linked(chain),
        chain.last().inherits_from == Some(parent.id),
        !chain_has_id(chain, parent.id),
    ensures
        linked(chain.push(parent)),
{
    let c = chain.push(parent);
    assert forall|i: int| 0 <= i < c.len() - 1 implies (#[trigger] c[i]).inherits_from == Some(c[i + 1].id) by {
        if i < chain.len() - 1 {
            assert(c[i] == chain[i] && c[i + 1] == chain[i + 1]);
        } else {
            assert(c[i] == chain.last());
        }
    }
    assert forall|i: int, j: int| 0 <= i < j < c.len() implies (#[trigger] c[i]).id != (#[trigger] c[j]).id by {
        if j == chain.len() {
            assert(c[i] == chain[i]);
        } else {
            assert(c[i] == chain[i] && c[j] == chain[j]);
        }
    }
}

/// Resolution ends: a linked chain drawn from a finite set of known versions
/// is no longer than that set, so a resolver that loads one parent per step
/// stops, with a complete chain or with a cycle.
pub proof fn lemma_linked_chain_bounded(chain: Seq<VersionModel>, known: Set<Seq<char>>)
    requires
        linked(chain),
        known.finite(),
        forall|i: int| 0 <= i < chain.len() ==> known.contains(#[trigger] chain[i].id),
    ensures
        chain.len() <= known.len(),
{
    let ids = chain.map_values(|v: VersionModel| v.id);
    assert(ids.no_duplicates()) by {
        assert forall|i: int, j: int| 0 <= i < ids.len() && 0 <= j < ids.len() && i != j implies ids[i] != ids[j] by {
            if i < j {
                assert(chain[i].id != chain[j].id);
            } else {
                assert(chain[j].id != chain[i].id);
            }
        }
    }
    ids.unique_seq_to_set();
    assert(ids.to_set().subset_of(known)) by {
        assert forall|x: Seq<char>| ids.to_set().contains(x) implies known.contains(x) by {
            let i = choose|i: int| 0 <= i < ids.len() && ids[i] == x;
            assert(known.contains(chain[i].id));
        }
    }
    vstd::set_lib::lemma_len_subset(ids.to_set(), known);
}

/// Local paths of the libraries on the classpath, in manifest order: those
/// the rules allow that ship no natives for `os`.
pub open spec fn library_paths(libs: Seq<Library>, env: &Environment, os: OperatingSystem, game_dir: Seq<char>) -> Seq<
    Seq<char>,
>
    decreases libs.len(),
{
    if libs.len() == 0 {
        Seq::empty()
    } else {
        let p = library_paths(libs.drop_last(), env, os, game_dir);
        let l = libs.last();
        if rules_outcome(l.rules@, env) == RuleAction::Allow && natives_index(l.natives@, os) < 0 {
            p.push(game_dir + "/libraries/"@ + artifact_path(l.name@))
        } else {
            p
        }
    }
}

/// The id of the jar a version loads: its `jar` field, else its own id.
pub open spec fn jar_id(v: VersionModel) -> Seq<char> {
    match v.jar {
        Some(j) => j,
        None => v.id,
    }
}

/// `<gameDir>/versions/<jarId>/<jarId>.jar`.
pub open spec fn jar_path(v: VersionModel, game_dir: Seq<char>) -> Seq<char> {
    game_dir + "/versions/"@ + jar_id(v) + "/"@ + jar_id(v) + ".jar"@
}

/// The classpath entries: the library paths, then the main jar.
pub open spec fn classpath_spec(v: VersionModel, env: &Environment, os: OperatingSystem, game_dir: Seq<char>) -> Seq<
    Seq<char>,
> {
    library_paths(v.libraries, env, os, game_dir).push(jar_path(v, game_dir))
}

/// The separator of classpath entries on `os`.
pub open spec fn classpath_separator(os: OperatingSystem) -> Seq<char> {
    if os == OperatingSystem::Windows {
        ";"@
    } else {
        ":"@
    }
}

pub fn classpath_separator_str(os: OperatingSystem) -> (r: &'static str)
    ensures
        r@ == classpath_separator(os),
{
    if os == OperatingSystem::Windows {
        ";"
    } else {
        ":"
    }
}

impl LocalVersionInfo {
    /// Whether the version's compatibility rules allow it under `env`.
    pub fn applies_to_current_environment(&self, env: &Environment) -> (r: bool)
        ensures
            r == (rules_outcome(self.compatibility_rules@, env) == RuleAction::Allow),
    {
        crate::rule::evaluate_rules(&self.compatibility_rules, env) == RuleAction::Allow
    }

    /// Refuses a version whose compatibility rules do not allow it under `env`.
    pub fn check_compatible(&self, env: &Environment) -> (r: Result<(), MinecraftLauncherError>)
        ensures
            r is Ok <==> rules_outcome(self.compatibility_rules@, env) == RuleAction::Allow,
            r matches Err(e) ==> e.kind == ErrorKind::UnsupportedEnvironment && e.detail@ == self.id@,
    {
        if self.applies_to_current_environment(env) {
            Ok(())
        } else {
            Err(MinecraftLauncherError { kind: ErrorKind::UnsupportedEnvironment, detail: copy_str(self.id.as_str()) })
        }
    }

    /// The id of the jar this version loads.
    pub fn get_jar(&self) -> (r: String)
        ensures
            r@ == jar_id(self@),
    {
        match &self.jar {
            Some(j) => copy_str(j.as_str()),
            None => copy_str(self.id.as_str()),
        }
    }

    /// Path of the main jar under `game_dir`.
    pub fn get_jar_path(&self, game_dir: &str) -> (r: String)
        ensures
            r@ == jar_path(self@, game_dir@),
    {
        let j = self.get_jar();
        let mut out = copy_str(game_dir);
        out.append("/versions/");
        out.append(j.as_str());
        out.append("/");
        out.append(j.as_str());
        out.append(".jar");
        out
    }

    /// The classpath entries under `game_dir`, in manifest order, main jar last.
    pub fn get_classpath(&self, os: OperatingSystem, game_dir: &str, env: &Environment) -> (r: Vec<String>)
        ensures
            views(r@) == classpath_spec(self@, env, os, game_dir@),
    {
        let mut out: Vec<String> = Vec::new();
        let mut i: usize = 0;
        assert(self.libraries@.subrange(0, 0) =~= Seq::<Library>::empty());
        assert(views(out@) =~= Seq::<Seq<char>>::empty());
        while i < self.libraries.len()
            invariant
                i <= self.libraries@.len(),
                views(out@) == library_paths(self.libraries@.subrange(0, i as int), env, os, game_dir@),
            decreases self.libraries.len() - i,
        {
            let lib = &self.libraries[i];
            assert(self.libraries@.subrange(0, i + 1).drop_last() =~= self.libraries@.subrange(0, i as int));
            assert(self.libraries@.subrange(0, i + 1).last() == *lib);
            if lib.applies_to_current_environment(env) && lib.native_classifier(os, true).is_none() {
                let mut path = copy_str(game_dir);
                path.append("/libraries/");
                let a = lib.get_artifact_path(None);
                path.append(a.as_str());
                let ghost pre = out@;
                out.push(path);
                assert(views(out@) =~= views(pre).push(path@));
            }
            i = i + 1;
        }
        assert(self.libraries@.subrange(0, i as int) =~= self.libraries@);
        let ghost pre = out@;
        out.push(self.get_jar_path(game_dir));
        assert(views(out@) =~= views(pre).push(jar_path(self@, game_dir@)));
        out
    }
}

/// Joins classpath entries with the separator of `os`, after checking that
/// each one is present on disk (`present[i]` tells for entry `i`); the first
/// missing entry fails with `ClasspathMissing`.
pub fn construct_classpath(paths: &Vec<String>, present: &Vec<bool>, os: OperatingSystem) -> (r: Result<String, MinecraftLauncherError>)
    requires
        paths@.len() == present@.len(),
    ensures
        r is Ok <==> forall|i: int| 0 <= i < present@.len() ==> #[trigger] present@[i],
        r matches Ok(s) ==> s@ == join_spec(views(paths@), classpath_separator(os)),
        r matches Err(e) ==> e.kind == ErrorKind::ClasspathMissing && exists|i: int|
            0 <= i < present@.len() && !present@[i] && e.detail@ == (#[trigger] paths@[i])@ && forall|k: int|
                0 <= k < i ==> #[trigger] present@[k],
{
    let mut i: usize = 0;
    while i < paths.len()
        invariant
            paths@.len() == present@.len(),
            i <= paths@.len(),
            forall|k: int| 0 <= k < i ==> #[trigger] present@[k],
        decreases paths.len() - i,
    {
        if !present[i] {
            return Err(MinecraftLauncherError { kind: ErrorKind::ClasspathMissing, detail: copy_str(paths[i].as_str()) });
        }
        i = i + 1;
    }
    Ok(join_strs(paths, classpath_separator_str(os)))
}

/// The classpath for a fixed manifest and environment is always the same:
/// equal manifests over equivalent environments give equal entries in equal order.
pub proof fn lemma_classpath_stable(
    v1: VersionModel,
    v2: VersionModel,
    env1: &Environment,
    env2: &Environment,
    os: OperatingSystem,
    game_dir: Seq<char>,
)
    requires
        v1 == v2,
        crate::rule::same_environment(env1, env2),
    ensures
        classpath_spec(v1, env1, os, game_dir) == classpath_spec(v2, env2, os, game_dir),
{
    lemma_library_paths_stable(v1.libraries, env1, env2, os, game_dir);
}

proof fn lemma_library_paths_stable(
    libs: Seq<Library>,
    env1: &Environment,
    env2: &Environment,
    os: OperatingSystem,
    game_dir: Seq<char>,
)
    requires
        crate::rule::same_environment(env1, env2),
    ensures
        library_paths(libs, env1, os, game_dir) == library_paths(libs, env2, os, game_dir),
    decreases libs.len(),
{
    if libs.len() > 0 {
        lemma_library_paths_stable(libs.drop_last(), env1, env2, os, game_dir);
        crate::rule::lemma_rules_deterministic(libs.last().rules@, libs.last().rules@, env1, env2);
    }
}

/// Each parent that resolution loads brings it one step closer to its end:
/// the chain stays linked, and it stays shorter than the set of known
/// versions, so `known.len() - chain.len()` drops at every load and
/// resolution stops with `Complete` or `Cycle`.
pub proof fn lemma_resolution_measure_decreases(chain: Seq<VersionModel>, parent: VersionModel, known: Set<Seq<char>>)
    requires
        chain.len() >= 1,
        linked(chain),
        known.finite(),
        forall|i: int| 0 <= i < chain.len() ==> known.contains(#[trigger] chain[i].id),
        chain.last().inherits_from == Some(parent.id),
        !chain_has_id(chain, parent.id),
        known.contains(parent.id),
    ensures
        linked(chain.push(parent)),
        chain.len() < known.len(),
{
    lemma_fetch_keeps_chain_linked(chain, parent);
    let c = chain.push(parent);
    assert forall|i: int| 0 <= i < c.len() implies known.contains(#[trigger] c[i].id) by {
        if i < chain.len() {
            assert(c[i] == chain[i]);
        }
    }
    lemma_linked_chain_bounded(c, known);
}

} // verus!
