//! Libraries of a version: which apply, where they live, how to fetch them,
//! and which entries of a native archive to extract.
use vstd::prelude::*;
use crate::artifact::{artifact_path, Artifact, ArtifactModel};
use crate::download::Downloadable;
use crate::rule::{evaluate_rules, rules_outcome, Environment, OperatingSystem, Rule, RuleAction};
use crate::text::{copy_str, eq_str, replace_spec, replace_str, starts_with};

verus! {

/// Where one file can be fetched from and what it must hash to.
pub struct DownloadInfo {
    pub url: String,
    /// Lowercase hex SHA-1 of the file.
    pub sha1: String,
    pub size: u64,
}

pub open spec fn same_download_info(a: &DownloadInfo, b: &DownloadInfo) -> bool {
    a.url@ == b.url@ && a.sha1@ == b.sha1@ && a.size == b.size
}

impl DownloadInfo {
    pub fn copy(&self) -> (r: DownloadInfo)
        ensures
            same_download_info(&r, self),
    {
        DownloadInfo { url: copy_str(self.url.as_str()), sha1: copy_str(self.sha1.as_str()), size: self.size }
    }
}

/// The main artifact of a library and its classified variants, keyed by classifier.
pub struct LibraryDownloadInfo {
    pub artifact: DownloadInfo,
    pub classifiers: Vec<(String, DownloadInfo)>,
}

/// Index of the first entry keyed `key`, or -1.
pub open spec fn first_key_index<V>(entries: Seq<(String, V)>, key: Seq<char>) -> int
    decreases entries.len(),
{
    if entries.len() == 0 {
        -1
    } else if entries[0].0@ == key {
        0
    } else {
        let j = first_key_index(entries.subrange(1, entries.len() as int), key);
        if j < 0 {
            -1
        } else {
            j + 1
        }
    }
}

pub proof fn lemma_first_key_index<V>(entries: Seq<(String, V)>, key: Seq<char>)
    ensures
        -1 <= first_key_index(entries, key) < entries.len(),
        first_key_index(entries, key) >= 0 ==> entries[first_key_index(entries, key)].0@ == key,
        forall|k: int|
            0 <= k < entries.len() && (first_key_index(entries, key) < 0 || k < first_key_index(
                entries,
                key,
            )) ==> (#[trigger] entries[k]).0@ != key,
    decreases entries.len(),
{
    if entries.len() > 0 && entries[0].0@ != key {
        let t = entries.subrange(1, entries.len() as int);
        lemma_first_key_index(t, key);
        assert forall|k: int|
            0 <= k < entries.len() && (first_key_index(entries, key) < 0 || k < first_key_index(
                entries,
                key,
            )) implies (#[trigger] entries[k]).0@ != key by {
            if k > 0 {
                assert(entries[k] == t[k - 1]);
            }
        }
    }
}

impl LibraryDownloadInfo {
    /// The main artifact when no classifier is asked for, else the first entry
    /// for that classifier, if any.
    pub fn get_download_info(&self, classifier: Option<&str>) -> (r: Option<DownloadInfo>)
        ensures
            classifier is None ==> (r matches Some(d) && same_download_info(&d, &self.artifact)),
            classifier matches Some(c) ==> {
                let i = first_key_index(self.classifiers@, c@);
                &&& (i < 0 <==> r is None)
                &&& (r matches Some(d) ==> same_download_info(&d, &self.classifiers@[i].1))
            },
    {
        match classifier {
            None => Some(self.artifact.copy()),
            Some(c) => {
                proof {
                    lemma_first_key_index(self.classifiers@, c@);
                }
                match find_key(&self.classifiers, c) {
                    None => None,
                    Some(i) => Some(self.classifiers[i].1.copy()),
                }
            },
        }
    }
}

/// Index of the first entry keyed `key`, or -1.
pub fn find_key<V>(entries: &Vec<(String, V)>, key: &str) -> (r: Option<usize>)
    ensures
        r is None <==> first_key_index(entries@, key@) < 0,
        r matches Some(i) ==> i == first_key_index(entries@, key@),
{
    proof {
        lemma_first_key_index(entries@, key@);
    }
    let mut i: usize = 0;
    while i < entries.len()
        invariant
            i <= entries@.len(),
            -1 <= first_key_index(entries@, key@) < entries@.len(),
            first_key_index(entries@, key@) >= 0 ==> entries@[first_key_index(entries@, key@)].0@ == key@,
            forall|k: int|
                0 <= k < entries@.len() && (first_key_index(entries@, key@) < 0 || k
                    < first_key_index(entries@, key@)) ==> (#[trigger] entries@[k]).0@ != key@,
            forall|k: int| 0 <= k < i ==> (#[trigger] entries@[k]).0@ != key@,
        decreases entries.len() - i,
    {
        if eq_str(entries[i].0.as_str(), key) {
            return Some(i);
        }
        i = i + 1;
    }
    None
}

/// Entries of a native archive to leave out, by path prefix.
pub struct ExtractRules {
    pub exclude: Vec<String>,
}

pub open spec fn has_prefix(s: Seq<char>, p: Seq<char>) -> bool {
    p.len() <= s.len() && s.subrange(0, p.len() as int) == p
}

impl ExtractRules {
    /// An entry is extracted unless one of the excluded prefixes begins its path.
    pub fn should_extract(&self, zip_path: &str) -> (r: bool)
        ensures
            r == !(exists|i: int| 0 <= i < self.exclude@.len() && has_prefix(zip_path@, #[trigger] self.exclude@[i]@)),
    {
        let mut i: usize = 0;
        while i < self.exclude.len()
            invariant
                i <= self.exclude@.len(),
                forall|k: int| 0 <= k < i ==> !has_prefix(zip_path@, #[trigger] self.exclude@[k]@),
            decreases self.exclude.len() - i,
        {
            if starts_with(zip_path, self.exclude[i].as_str()) {
                return false;
            }
            i = i + 1;
        }
        true
    }
}

/// A library of a version.
pub struct Library {
    pub name: Artifact,
    pub rules: Vec<Rule>,
    /// Classifier template per operating system; it may hold `${arch}`.
    pub natives: Vec<(OperatingSystem, String)>,
    pub extract: Option<ExtractRules>,
    /// Custom repository base.
    pub url: Option<String>,
    pub downloads: Option<LibraryDownloadInfo>,
}

/// The repository the launcher fetches libraries from when none is named.
pub open spec fn default_library_base() -> Seq<char> {
    "https://libraries.minecraft.net/"@
}

/// What `reqwest::Url` gives for `base` with its path replaced by `path`:
/// `None` when `base` is no URL, else the serialised result.
pub uninterp spec fn url_with_path_outcome(base: Seq<char>, path: Seq<char>) -> Option<Seq<char>>;

/// Bound on the characters of a base URL and a path together; it keeps the
/// serialised URL within the `u32` offsets that `Url` keeps.
pub open spec fn url_text_limit() -> nat {
    100_000_000
}

/// Whether a base URL and a path are short enough to be combined.
pub open spec fn url_fits(base: Seq<char>, path: Seq<char>) -> bool {
    base.len() + path.len() <= url_text_limit()
}

/// Relies on `reqwest::Url::parse` (an error when `base` is no URL),
/// `Url::set_path` and `Url::as_str`: the result depends on the two strings alone.
/// `set_path` panics only on a URL longer than `u32::MAX` bytes, which the bound excludes.
#[verifier::external_body]
fn url_with_path(base: &str, path: &str) -> (r: Option<String>)
    requires
        url_fits(base@, path@),
    ensures
        match r {
            Some(u) => url_with_path_outcome(base@, path@) == Some(u@),
            None => url_with_path_outcome(base@, path@) is None,
        },
{
    let mut url = reqwest::Url::parse(base).ok()?;
    url.set_path(path);
    Some(url.as_str().to_string())
}

/// The coordinate with its classifier replaced when one is given.
pub open spec fn classified(a: ArtifactModel, classifier: Option<Seq<char>>) -> ArtifactModel {
    match classifier {
        Some(c) => ArtifactModel { classifier: Some(c), ..a },
        None => a,
    }
}

pub open spec fn opt_str_view(o: Option<&str>) -> Option<Seq<char>> {
    match o {
        Some(s) => Some(s@),
        None => None,
    }
}

/// Index of the natives entry for `os`, or -1.
pub open spec fn natives_index(natives: Seq<(OperatingSystem, String)>, os: OperatingSystem) -> int
    decreases natives.len(),
{
    if natives.len() == 0 {
        -1
    } else if natives.last().0 == os {
        natives.len() - 1
    } else {
        natives_index(natives.drop_last(), os)
    }
}

/// The `${arch}` placeholder of native classifier templates.
pub open spec fn arch_placeholder() -> Seq<char> {
    "${arch}"@
}

/// The word that stands for the platform's pointer width in a classifier.
pub open spec fn arch_word(is_64_bit: bool) -> Seq<char> {
    if is_64_bit {
        "64"@
    } else {
        "32"@
    }
}

/// `r` fetches from `url` with a remote checksum, or is `None` when there is no URL.
pub open spec fn checksummed_at(
    r: Option<Downloadable>,
    url: Option<Seq<char>>,
    target: Seq<char>,
    force: bool,
) -> bool {
    match url {
        None => r is None,
        Some(u) => match r {
            Some(Downloadable::Checksummed { url, target: t, force: f }) => url@ == u && t@ == target
                && f == force,
            _ => false,
        },
    }
}

/// `r` fetches `info` with its known hash.
pub open spec fn prehashed_from(r: Option<Downloadable>, info: &DownloadInfo, target: Seq<char>, force: bool) -> bool {
    match r {
        Some(Downloadable::PreHashed { url, target: t, force: f, sha1 }) => url@ == info.url@ && sha1@
            == info.sha1@ && t@ == target && f == force,
        _ => false,
    }
}

/// The URL that a download of the library would be built from is short enough.
pub open spec fn download_fits(lib: &Library, artifact_path: Seq<char>, classifier: Option<Seq<char>>) -> bool {
    match lib.url {
        Some(base) => url_fits(base@, crate::artifact::artifact_path(classified(lib.name@, classifier))),
        None => lib.downloads is None ==> url_fits(default_library_base(), artifact_path),
    }
}

/// What `create_download` hands back for a library: a remote-checksummed item
/// from its custom repository (path replaced by the artifact path) or, with
/// neither repository nor listed downloads, from the default repository; else
/// the listed download of the classifier, with its hash.
pub open spec fn download_matches(
    lib: &Library,
    artifact_path: Seq<char>,
    target: Seq<char>,
    force: bool,
    classifier: Option<Seq<char>>,
    r: Option<Downloadable>,
) -> bool {
    match lib.url {
        Some(base) => checksummed_at(
            r,
            url_with_path_outcome(base@, crate::artifact::artifact_path(classified(lib.name@, classifier))),
            target,
            force,
        ),
        None => match lib.downloads {
            None => checksummed_at(r, url_with_path_outcome(default_library_base(), artifact_path), target, force),
            Some(d) => match classifier {
                None => prehashed_from(r, &d.artifact, target, force),
                Some(c) => {
                    let i = first_key_index(d.classifiers@, c);
                    &&& (i < 0 <==> r is None)
                    &&& (i >= 0 ==> prehashed_from(r, &d.classifiers@[i].1, target, force))
                },
            },
        },
    }
}

impl Library {
    /// Whether the library's rules allow it under `env`.
    pub fn applies_to_current_environment(&self, env: &Environment) -> (r: bool)
        ensures
            r == (rules_outcome(self.rules@, env) == RuleAction::Allow),
    {
        evaluate_rules(&self.rules, env) == RuleAction::Allow
    }

    /// Repository path of the library, with `classifier` in place of its own when given.
    pub fn get_artifact_path(&self, classifier: Option<&str>) -> (r: String)
        ensures
            r@ == artifact_path(classified(self.name@, opt_str_view(classifier))),
    {
        self.name.with_classifier(classifier).get_path_string()
    }

    /// The classifier of this library's natives for `os`, with `${arch}` expanded;
    /// `None` when it ships no natives for `os`.
    pub fn native_classifier(&self, os: OperatingSystem, is_64_bit: bool) -> (r: Option<String>)
        ensures
            natives_index(self.natives@, os) < 0 <==> r is None,
            r matches Some(c) ==> c@ == replace_spec(
                self.natives@[natives_index(self.natives@, os)].1@,
                arch_placeholder(),
                arch_word(is_64_bit),
            ),
    {
        let mut i: usize = self.natives.len();
        assert(self.natives@.subrange(0, i as int) =~= self.natives@);
        while i > 0
            invariant
                i <= self.natives@.len(),
                natives_index(self.natives@, os) == natives_index(self.natives@.subrange(0, i as int), os),
            decreases i,
        {
            let ghost pre = self.natives@.subrange(0, i as int);
            assert(pre.drop_last() =~= self.natives@.subrange(0, i - 1));
            if self.natives[i - 1].0 == os {
                proof {
                    reveal_strlit("${arch}");
                }
                let word = if is_64_bit { "64" } else { "32" };
                return Some(replace_str(self.natives[i - 1].1.as_str(), "${arch}", word));
            }
            i = i - 1;
        }
        None
    }

    /// How to fetch this library (or its `classifier` variant) to `target_file`.
    /// A custom repository or the default one is asked for a checksum beside the
    /// file; listed downloads come with their hash. `None` when the repository
    /// base is no URL or the classifier is not listed.
    pub fn create_download(
        &self,
        artifact_path: &str,
        target_file: &str,
        force_download: bool,
        classifier: Option<&str>,
    ) -> (r: Option<Downloadable>)
        requires
            download_fits(self, artifact_path@, opt_str_view(classifier)),
        ensures
            download_matches(self, artifact_path@, target_file@, force_download, opt_str_view(classifier), r),
    {
        if let Some(base) = &self.url {
            let path = self.get_artifact_path(classifier);
            match url_with_path(base.as_str(), path.as_str()) {
                Some(u) => Some(
                    Downloadable::Checksummed { url: u, target: copy_str(target_file), force: force_download },
                ),
                None => None,
            }
        } else if let Some(downloads) = &self.downloads {
            match downloads.get_download_info(classifier) {
                Some(info) => Some(
                    Downloadable::PreHashed {
                        url: info.url,
                        target: copy_str(target_file),
                        force: force_download,
                        sha1: info.sha1,
                    },
                ),
                None => None,
            }
        } else {
            proof {
                reveal_strlit("https://libraries.minecraft.net/");
            }
            match url_with_path("https://libraries.minecraft.net/", artifact_path) {
                Some(u) => Some(
                    Downloadable::Checksummed { url: u, target: copy_str(target_file), force: force_download },
                ),
                None => None,
            }
        }
    }
}

} // verus!
