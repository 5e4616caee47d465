//! Decisions of launch preparation: which files each library needs, where
//! native archive entries go, which virtual asset files to copy, and which
//! old natives directories to remove.
use vstd::prelude::*;
use crate::artifact::artifact_path;
use crate::download::Downloadable;
use crate::launch::{asset_object_path, get_asset_object_path, AssetObject, MinecraftGameRunner, NATIVES_MAX_AGE_MS};
use crate::library::{arch_placeholder, arch_word, classified, has_prefix, natives_index, ExtractRules, Library};
use crate::rule::{rules_outcome, RuleAction};
use crate::text::{copy_str, eq_str, replace_spec, starts_with, views};

verus! {

/// A directory is removed when it is a natives directory of the version and
/// its last change lies more than an hour before `now_ms`.
pub open spec fn is_expired_natives(version_id: Seq<char>, name: Seq<char>, modified_ms: u64, now_ms: u64) -> bool {
    &&& has_prefix(name, version_id + "-natives-"@)
    &&& modified_ms <= now_ms
    &&& now_ms - modified_ms > NATIVES_MAX_AGE_MS
}

/// Names of the expired natives directories, in the order given.
pub open spec fn expired_natives(version_id: Seq<char>, dirs: Seq<(String, u64)>, now_ms: u64) -> Seq<Seq<char>>
    decreases dirs.len(),
{
    if dirs.len() == 0 {
        Seq::empty()
    } else {
        let p = expired_natives(version_id, dirs.drop_last(), now_ms);
        if is_expired_natives(version_id, dirs.last().0@, dirs.last().1, now_ms) {
            p.push(dirs.last().0@)
        } else {
            p
        }
    }
}

/// Among the subdirectories of a version directory (name, last change in
/// milliseconds), those to delete.
pub fn select_expired_natives(version_id: &str, dirs: &Vec<(String, u64)>, now_ms: u64) -> (r: Vec<String>)
    ensures
        views(r@) == expired_natives(version_id@, dirs@, now_ms),
{
    let mut prefix = copy_str(version_id);
    prefix.append("-natives-");
    let mut out: Vec<String> = Vec::new();
    let mut i: usize = 0;
    assert(dirs@.subrange(0, 0) =~= Seq::<(String, u64)>::empty());
    assert(views(out@) =~= Seq::<Seq<char>>::empty());
    while i < dirs.len()
        invariant
            i <= dirs@.len(),
            prefix@ == version_id@ + "-natives-"@,
            views(out@) == expired_natives(version_id@, dirs@.subrange(0, i as int), now_ms),
        decreases dirs.len() - i,
    {
        assert(dirs@.subrange(0, i + 1).drop_last() =~= dirs@.subrange(0, i as int));
        let (name, modified) = (&dirs[i].0, dirs[i].1);
        if starts_with(name.as_str(), prefix.as_str()) && modified <= now_ms && now_ms - modified > NATIVES_MAX_AGE_MS {
            let ghost pre = out@;
            out.push(copy_str(name.as_str()));
            assert(views(out@) =~= views(pre).push(name@));
        }
        i = i + 1;
    }
    assert(dirs@.subrange(0, i as int) =~= dirs@);
    out
}

/// The copies that rebuild a virtual asset tree at `root`: for each object
/// whose file there is missing (`None`) or has another SHA-1, copy the stored
/// object to `<root>/<name>`.
pub open spec fn asset_copies(
    objects: Seq<AssetObject>,
    present: Seq<Option<String>>,
    assets_dir: Seq<char>,
    root: Seq<char>,
) -> Seq<(Seq<char>, Seq<char>)>
    decreases objects.len(),
{
    if objects.len() == 0 || present.len() == 0 {
        Seq::empty()
    } else {
        let p = asset_copies(objects.drop_last(), present.drop_last(), assets_dir, root);
        let o = objects.last();
        let stale = match present.last() {
            None => true,
            Some(h) => h@ != o.hash@,
        };
        if stale {
            p.push((asset_object_path(assets_dir, o.hash@), root + "/"@ + o.name@))
        } else {
            p
        }
    }
}

/// Plans the reconstruction of a virtual or resource-mapped asset tree;
/// `present[i]` is the SHA-1 of the file of object `i` under `root`, if any.
pub fn asset_copy_plan(
    objects: &Vec<AssetObject>,
    present: &Vec<Option<String>>,
    assets_dir: &str,
    root: &str,
) -> (r: Vec<(String, String)>)
    requires
        objects@.len() == present@.len(),
    ensures
        crate::substitutor::pairs_view(r@) == asset_copies(objects@, present@, assets_dir@, root@),
{
    let mut out: Vec<(String, String)> = Vec::new();
    let mut i: usize = 0;
    assert(objects@.subrange(0, 0) =~= Seq::<AssetObject>::empty());
    assert(crate::substitutor::pairs_view(out@) =~= Seq::<(Seq<char>, Seq<char>)>::empty());
    while i < objects.len()
        invariant
            objects@.len() == present@.len(),
            i <= objects@.len(),
            crate::substitutor::pairs_view(out@) == asset_copies(
                objects@.subrange(0, i as int),
                present@.subrange(0, i as int),
                assets_dir@,
                root@,
            ),
        decreases objects.len() - i,
    {
        assert(objects@.subrange(0, i + 1).drop_last() =~= objects@.subrange(0, i as int));
        assert(present@.subrange(0, i + 1).drop_last() =~= present@.subrange(0, i as int));
        let o = &objects[i];
        let stale = match &present[i] {
            None => true,
            Some(h) => !eq_str(h.as_str(), o.hash.as_str()),
        };
        if stale {
            let src = get_asset_object_path(assets_dir, o.hash.as_str());
            let mut dst = copy_str(root);
            dst.append("/");
            dst.append(o.name.as_str());
            let ghost pre = out@;
            out.push((src, dst));
            assert(crate::substitutor::pairs_view(out@) =~= crate::substitutor::pairs_view(pre).push(
                (asset_object_path(assets_dir@, o.hash@), root@ + "/"@ + o.name@),
            ));
        }
        i = i + 1;
    }
    assert(objects@.subrange(0, i as int) =~= objects@);
    assert(present@.subrange(0, i as int) =~= present@);
    out
}

/// Where a native archive entry is written: `<nativesDir>/<entry>`, unless
/// it is a directory or an excluded prefix begins its path.
pub fn native_entry_target(natives_dir: &str, entry: &str, is_dir: bool, extract: &Option<ExtractRules>) -> (r: Option<String>)
    ensures
        r is Some <==> !is_dir && (extract matches Some(x) ==> !(exists|i: int|
            0 <= i < x.exclude@.len() && has_prefix(entry@, #[trigger] x.exclude@[i]@))),
        r matches Some(p) ==> p@ == natives_dir@ + "/"@ + entry@,
{
    if is_dir {
        return None;
    }
    if let Some(x) = extract {
        if !x.should_extract(entry) {
            return None;
        }
    }
    let mut out = copy_str(natives_dir);
    out.append("/");
    out.append(entry);
    Some(out)
}

/// The classifier a relevant library needs on this platform, if it ships natives.
pub open spec fn native_classifier_spec(r: &MinecraftGameRunner, lib: &Library) -> Option<Seq<char>> {
    let i = natives_index(lib.natives@, r.platform.os);
    if i < 0 {
        None
    } else {
        Some(replace_spec(lib.natives@[i].1@, arch_placeholder(), arch_word(r.platform.is_64_bit)))
    }
}

/// `<gameDir>/libraries/<path of the library with that classifier>`.
pub open spec fn library_file(r: &MinecraftGameRunner, lib: &Library, classifier: Option<Seq<char>>) -> Seq<char> {
    r.options.game_dir@ + "/libraries/"@ + artifact_path(classified(lib.name@, classifier))
}

impl MinecraftGameRunner {
    /// Root of the reconstructed asset tree: `<gameDir>/resources` when the
    /// index maps to resources, else `<gameDir>/assets/virtual/<indexId>`.
    pub fn virtual_root(&self, index_id: &str, map_to_resources: bool) -> (r: String)
        ensures
            r@ == if map_to_resources {
                self.options.game_dir@ + "/resources"@
            } else {
                self.options.game_dir@ + "/assets"@ + "/virtual/"@ + index_id@
            },
    {
        let mut out = copy_str(self.options.game_dir.as_str());
        if map_to_resources {
            out.append("/resources");
        } else {
            out.append("/assets");
            out.append("/virtual/");
            out.append(index_id);
        }
        out
    }

    /// The natives archive to unpack for `lib`: `None` unless the rules allow
    /// the library and it ships natives for this operating system.
    pub fn native_archive(&self, lib: &Library) -> (r: Option<String>)
        ensures
            r is Some <==> rules_outcome(lib.rules@, &self.feature_matcher) == RuleAction::Allow
                && native_classifier_spec(self, lib) is Some,
            r matches Some(p) ==> p@ == library_file(self, lib, native_classifier_spec(self, lib)),
    {
        if !lib.applies_to_current_environment(&self.feature_matcher) {
            return None;
        }
        match lib.native_classifier(self.platform.os, self.platform.is_64_bit) {
            None => None,
            Some(c) => {
                let mut out = copy_str(self.options.game_dir.as_str());
                out.append("/libraries/");
                let p = lib.get_artifact_path(Some(c.as_str()));
                out.append(p.as_str());
                Some(out)
            },
        }
    }

    /// How to fetch `lib` (its natives variant where it ships natives for this
    /// system) into `<gameDir>/libraries`; `None` when the rules leave it out
    /// or no source can be named.
    pub fn library_download(&self, lib: &Library) -> (r: Option<Downloadable>)
        requires
            crate::library::download_fits(
                lib,
                artifact_path(classified(lib.name@, native_classifier_spec(self, lib))),
                native_classifier_spec(self, lib),
            ),
        ensures
            rules_outcome(lib.rules@, &self.feature_matcher) != RuleAction::Allow ==> r is None,
            rules_outcome(lib.rules@, &self.feature_matcher) == RuleAction::Allow ==> {
                let c = native_classifier_spec(self, lib);
                let target = library_file(self, lib, c);
                crate::library::download_matches(
                    lib,
                    artifact_path(classified(lib.name@, c)),
                    target,
                    false,
                    c,
                    r,
                )
            },
            r matches Some(d) ==> !d.force_spec(),
    {
        if !lib.applies_to_current_environment(&self.feature_matcher) {
            return None;
        }
        let c = lib.native_classifier(self.platform.os, self.platform.is_64_bit);
        let path = match &c {
            Some(c) => lib.get_artifact_path(Some(c.as_str())),
            None => lib.get_artifact_path(None),
        };
        let mut target = copy_str(self.options.game_dir.as_str());
        target.append("/libraries/");
        target.append(path.as_str());
        match &c {
            Some(c) => lib.create_download(path.as_str(), target.as_str(), false, Some(c.as_str())),
            None => lib.create_download(path.as_str(), target.as_str(), false, None),
        }
    }
}

/// `d` fetches the asset object with hash `h` into the object store.
pub open spec fn is_asset_download(d: Downloadable, assets_dir: Seq<char>, h: Seq<char>) -> bool {
    match d {
        Downloadable::PreHashed { url, target, force, sha1 } => url@ == crate::launch::asset_object_url(h)
            && target@ == asset_object_path(assets_dir, h) && !force && sha1@ == h,
        _ => false,
    }
}

/// One pre-hashed download per asset object, in index order.
pub fn asset_downloads(objects: &Vec<AssetObject>, assets_dir: &str) -> (r: Vec<Downloadable>)
    ensures
        r@.len() == objects@.len(),
        forall|i: int| 0 <= i < r@.len() ==> is_asset_download(#[trigger] r@[i], assets_dir@, objects@[i].hash@),
        forall|i: int| 0 <= i < r@.len() ==> !(#[trigger] r@[i]).force_spec(),
{
    let mut out: Vec<Downloadable> = Vec::new();
    let mut i: usize = 0;
    while i < objects.len()
        invariant
            i <= objects@.len(),
            out@.len() == i,
            forall|k: int| 0 <= k < i ==> is_asset_download(#[trigger] out@[k], assets_dir@, objects@[k].hash@),
        decreases objects.len() - i,
    {
        let h = objects[i].hash.as_str();
        out.push(
            Downloadable::PreHashed {
                url: crate::launch::get_asset_object_url(h),
                target: get_asset_object_path(assets_dir, h),
                force: false,
                sha1: copy_str(h),
            },
        );
        i = i + 1;
    }
    out
}

impl MinecraftGameRunner {
    /// The download of the main jar of the prepared version, with its listed hash.
    pub fn client_download(&self) -> (r: Option<Downloadable>)
        requires
            self.local_version is Some,
        ensures
            match self.local_version->Some_0.client_download {
                None => r is None,
                Some(d) => match r {
                    Some(Downloadable::PreHashed { url, target, force, sha1 }) => url@ == d.url@ && sha1@
                        == d.sha1@ && !force && target@ == crate::version::jar_path(
                        self.local_version->Some_0@,
                        self.options.game_dir@,
                    ),
                    _ => false,
                },
            },
            r matches Some(d) ==> !d.force_spec(),
    {
        let v = self.get_local_version();
        match &v.client_download {
            None => None,
            Some(d) => Some(
                Downloadable::PreHashed {
                    url: copy_str(d.url.as_str()),
                    target: v.get_jar_path(self.options.game_dir.as_str()),
                    force: false,
                    sha1: copy_str(d.sha1.as_str()),
                },
            ),
        }
    }
}

impl MinecraftGameRunner {
    /// The download of the prepared version's asset index to
    /// `<gameDir>/assets/indexes/<indexId>.json`, with its listed hash.
    pub fn asset_index_download(&self) -> (r: Option<Downloadable>)
        requires
            self.local_version is Some,
        ensures
            match self.local_version->Some_0.asset_index {
                None => r is None,
                Some(i) => match r {
                    Some(Downloadable::PreHashed { url, target, force, sha1 }) => url@ == i.url@ && sha1@
                        == i.sha1@ && !force && target@ == crate::launch::assets_dir_spec(&self.options)
                        + "/indexes/"@ + i.id@ + ".json"@,
                    _ => false,
                },
            },
            r matches Some(d) ==> !d.force_spec(),
    {
        let v = self.get_local_version();
        match &v.asset_index {
            None => None,
            Some(i) => {
                let mut target = self.get_assets_dir();
                target.append("/indexes/");
                target.append(i.id.as_str());
                target.append(".json");
                Some(
                    Downloadable::PreHashed {
                        url: copy_str(i.url.as_str()),
                        target,
                        force: false,
                        sha1: copy_str(i.sha1.as_str()),
                    },
                )
            },
        }
    }
}

} // verus!
