//! Entries of the remote version index and the checks made against them.
use vstd::prelude::*;
use crate::error::{ErrorKind, MinecraftLauncherError};
use crate::text::{copy_str, eq_str};

verus! {

/// Release channel of a version.
#[derive(PartialEq, Eq, Structural, Clone, Copy, Debug)]
pub enum ReleaseType {
    Release,
    Snapshot,
    OldBeta,
    OldAlpha,
}

/// One version listed by the remote index.
pub struct RemoteVersionInfo {
    pub id: String,
    pub release_type: ReleaseType,
    pub url: String,
    pub updated_time: String,
    pub release_time: String,
    /// Lowercase hex SHA-1 of the per-version manifest.
    pub sha1: String,
    pub compliance_level: u8,
}

impl RemoteVersionInfo {
    pub fn get_id(&self) -> (r: &String)
        ensures
            *r == self.id,
    {
        &self.id
    }

    pub fn get_type(&self) -> (r: ReleaseType)
        ensures
            r == self.release_type,
    {
        self.release_type
    }

    pub fn get_url(&self) -> (r: &str)
        ensures
            r@ == self.url@,
    {
        self.url.as_str()
    }

    pub fn get_sha1(&self) -> (r: &String)
        ensures
            *r == self.sha1,
    {
        &self.sha1
    }

    pub fn get_compliance_level(&self) -> (r: u8)
        ensures
            r == self.compliance_level,
    {
        self.compliance_level
    }

    pub fn get_updated_time(&self) -> (r: &String)
        ensures
            *r == self.updated_time,
    {
        &self.updated_time
    }

    pub fn get_release_time(&self) -> (r: &String)
        ensures
            *r == self.release_time,
    {
        &self.release_time
    }

    /// Accepts a fetched per-version manifest only when its SHA-1 is the listed one.
    pub fn check_fetched(&self, fetched_sha1: &str) -> (r: Result<(), MinecraftLauncherError>)
        ensures
            r is Ok <==> fetched_sha1@ == self.sha1@,
            r matches Err(e) ==> e.kind == ErrorKind::ChecksumMismatch && e.detail@ == self.id@,
    {
        if eq_str(fetched_sha1, self.sha1.as_str()) {
            Ok(())
        } else {
            Err(MinecraftLauncherError { kind: ErrorKind::ChecksumMismatch, detail: copy_str(self.id.as_str()) })
        }
    }
}

/// Index of the first entry listing `id`, or -1.
pub open spec fn remote_index_of(versions: Seq<RemoteVersionInfo>, id: Seq<char>) -> int
    decreases versions.len(),
{
    if versions.len() == 0 {
        -1
    } else {
        let j = remote_index_of(versions.drop_last(), id);
        if j >= 0 {
            j
        } else if versions.last().id@ == id {
            versions.len() - 1
        } else {
            -1
        }
    }
}

pub proof fn lemma_remote_index_bounds(versions: Seq<RemoteVersionInfo>, id: Seq<char>)
    ensures
        -1 <= remote_index_of(versions, id) < versions.len(),
        remote_index_of(versions, id) >= 0 ==> versions[remote_index_of(versions, id)].id@ == id,
    decreases versions.len(),
{
    if versions.len() > 0 {
        lemma_remote_index_bounds(versions.drop_last(), id);
    }
}

/// The entry of the index that lists `id`.
pub fn find_remote_version(versions: &Vec<RemoteVersionInfo>, id: &str) -> (r: Option<usize>)
    ensures
        r is None <==> remote_index_of(versions@, id@) < 0,
        r matches Some(i) ==> i == remote_index_of(versions@, id@),
{
    proof {
        lemma_remote_index_bounds(versions@, id@);
    }
    let mut i: usize = 0;
    assert(versions@.subrange(0, 0) =~= Seq::<RemoteVersionInfo>::empty());
    while i < versions.len()
        invariant
            i <= versions@.len(),
            remote_index_of(versions@.subrange(0, i as int), id@) < 0,
        decreases versions.len() - i,
    {
        assert(versions@.subrange(0, i + 1).drop_last() =~= versions@.subrange(0, i as int));
        if eq_str(versions[i].id.as_str(), id) {
            proof {
                lemma_prefix_index(versions@, id@, i + 1);
            }
            return Some(i);
        }
        i = i + 1;
    }
    assert(versions@.subrange(0, i as int) =~= versions@);
    None
}

/// A match found within a prefix is the match of the whole list.
proof fn lemma_prefix_index(versions: Seq<RemoteVersionInfo>, id: Seq<char>, k: int)
    requires
        0 <= k <= versions.len(),
        remote_index_of(versions.subrange(0, k), id) >= 0,
    ensures
        remote_index_of(versions, id) == remote_index_of(versions.subrange(0, k), id),
    decreases versions.len() - k,
{
    if k < versions.len() {
        assert(versions.subrange(0, k + 1).drop_last() =~= versions.subrange(0, k));
        lemma_prefix_index(versions, id, k + 1);
    } else {
        assert(versions.subrange(0, k) =~= versions);
    }
}

/// A local manifest is up to date when the index does not list its version
/// (a custom version) or lists it with the manifest's SHA-1.
pub fn is_up_to_date(versions: &Vec<RemoteVersionInfo>, id: &str, local_sha1: &str) -> (r: bool)
    ensures
        r == (remote_index_of(versions@, id@) < 0 || versions@[remote_index_of(versions@, id@)].sha1@
            == local_sha1@),
{
    proof {
        lemma_remote_index_bounds(versions@, id@);
    }
    match find_remote_version(versions, id) {
        None => true,
        Some(i) => eq_str(versions[i].sha1.as_str(), local_sha1),
    }
}

/// Whether a cached manifest may be used. With the index at hand, when it is
/// up to date; without it (offline), when its SHA-1 is the one recorded when
/// it was installed.
pub fn local_manifest_usable(
    index: Option<&Vec<RemoteVersionInfo>>,
    id: &str,
    local_sha1: &str,
    recorded_sha1: Option<&str>,
) -> (r: bool)
    ensures
        r == match index {
            Some(v) => remote_index_of(v@, id@) < 0 || v@[remote_index_of(v@, id@)].sha1@ == local_sha1@,
            None => match recorded_sha1 {
                Some(h) => h@ == local_sha1@,
                None => false,
            },
        },
{
    match index {
        Some(v) => is_up_to_date(v, id, local_sha1),
        None => match recorded_sha1 {
            Some(h) => eq_str(h, local_sha1),
            None => false,
        },
    }
}

} // verus!
