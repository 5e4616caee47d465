//! Downloadable items and the per-item decisions of the download engine:
//! whether a file must be fetched, whether a fetched file is accepted, and
//! what to do after a failed attempt.
use vstd::prelude::*;
use crate::text::eq_str;

verus! {

/// One file to materialise on disk.
pub enum Downloadable {
    /// The SHA-1 is known in advance.
    PreHashed { url: String, target: String, force: bool, sha1: String },
    /// The expected SHA-1 is read from `<url>.sha1`.
    Checksummed { url: String, target: String, force: bool },
    /// No checksum: a complete body is success.
    Plain { url: String, target: String, force: bool },
}

/// Why one attempt to fetch a file failed.
#[derive(PartialEq, Eq, Structural, Clone, Copy, Debug)]
pub enum DownloadFailure {
    /// The connection failed or stalled.
    Network,
    /// The server answered with this HTTP status.
    Status(u16),
    /// The fetched bytes do not hash to the expected SHA-1.
    ChecksumMismatch,
}

/// What the engine does after a failed attempt.
#[derive(PartialEq, Eq, Structural, Clone, Copy, Debug)]
pub enum RetryStep {
    Retry { delay_ms: u64 },
    GiveUp,
}

/// Attempts per item when nothing else is configured.
pub const DEFAULT_MAX_DOWNLOAD_ATTEMPTS: u32 = 5;

/// Parallel downloads per job when nothing else is configured.
pub const DEFAULT_MAX_CONCURRENT_DOWNLOADS: usize = 16;

pub const BACKOFF_BASE_MS: u64 = 250;

pub const BACKOFF_CAP_MS: u64 = 4000;

pub open spec fn opt_view(o: Option<&str>) -> Option<Seq<char>> {
    match o {
        Some(s) => Some(s@),
        None => None,
    }
}

/// Transient failures are retried: network errors, 5xx, 408, 429 and checksum mismatches.
pub open spec fn retryable(f: DownloadFailure) -> bool {
    match f {
        DownloadFailure::Network => true,
        DownloadFailure::ChecksumMismatch => true,
        DownloadFailure::Status(code) => code == 408 || code == 429 || (500 <= code && code <= 599),
    }
}

/// The backoff before retry number `attempt`: 250 ms doubled per earlier attempt, at most 4 s.
pub open spec fn backoff_ms(attempt: nat) -> nat
    decreases attempt,
{
    if attempt <= 1 {
        BACKOFF_BASE_MS as nat
    } else {
        let d = 2 * backoff_ms((attempt - 1) as nat);
        if d > BACKOFF_CAP_MS {
            BACKOFF_CAP_MS as nat
        } else {
            d
        }
    }
}

pub proof fn lemma_backoff_bounds(attempt: nat)
    ensures
        BACKOFF_BASE_MS <= backoff_ms(attempt) <= BACKOFF_CAP_MS,
    decreases attempt,
{
    if attempt > 1 {
        lemma_backoff_bounds((attempt - 1) as nat);
    }
}

/// The delay before retrying after `attempt` attempts: at least half the
/// backoff, at most the backoff, moved within that range by `jitter`.
pub open spec fn retry_delay(attempt: nat, jitter: u64) -> nat {
    let b = backoff_ms(attempt);
    b / 2 + (jitter as nat) % (b / 2 + 1)
}

/// The decision after attempt number `attempt` (counted from 1) failed.
pub open spec fn next_step_spec(attempt: u32, max_attempts: u32, failure: DownloadFailure, jitter: u64) -> RetryStep {
    if retryable(failure) && attempt < max_attempts {
        RetryStep::Retry { delay_ms: retry_delay(attempt as nat, jitter) as u64 }
    } else {
        RetryStep::GiveUp
    }
}

/// Whether failure `f` is worth another attempt.
pub fn is_retryable(f: DownloadFailure) -> (r: bool)
    ensures
        r == retryable(f),
{
    match f {
        DownloadFailure::Network => true,
        DownloadFailure::ChecksumMismatch => true,
        DownloadFailure::Status(code) => code == 408 || code == 429 || (500 <= code && code <= 599),
    }
}

/// Decides what follows a failed attempt: retry with a bounded, jittered
/// exponential backoff while the failure is transient and attempts remain.
pub fn next_step(attempt: u32, max_attempts: u32, failure: DownloadFailure, jitter: u64) -> (r: RetryStep)
    ensures
        r == next_step_spec(attempt, max_attempts, failure, jitter),
        r matches RetryStep::Retry { delay_ms } ==> delay_ms <= BACKOFF_CAP_MS,
{
    if !(is_retryable(failure) && attempt < max_attempts) {
        return RetryStep::GiveUp;
    }
    let mut b: u64 = BACKOFF_BASE_MS;
    let mut k: u32 = 1;
    while k < attempt
        invariant
            1 <= k <= attempt || (attempt == 0 && k == 1),
            b == backoff_ms(k as nat),
            BACKOFF_BASE_MS <= b <= BACKOFF_CAP_MS,
        decreases attempt - k,
    {
        b = if 2 * b > BACKOFF_CAP_MS { BACKOFF_CAP_MS } else { 2 * b };
        k = k + 1;
    }
    assert(b == backoff_ms(attempt as nat));
    let half = b / 2;
    let delay = half + jitter % (half + 1);
    RetryStep::Retry { delay_ms: delay }
}

impl Downloadable {
    pub open spec fn force_spec(&self) -> bool {
        match self {
            Downloadable::PreHashed { force, .. } => *force,
            Downloadable::Checksummed { force, .. } => *force,
            Downloadable::Plain { force, .. } => *force,
        }
    }

    /// The SHA-1 the file must have: the known one, the one read from the
    /// remote `.sha1` file (if it could be read), or none.
    pub open spec fn expected_sha1(&self, remote_sha1: Option<Seq<char>>) -> Option<Seq<char>> {
        match self {
            Downloadable::PreHashed { sha1, .. } => Some(sha1@),
            Downloadable::Checksummed { .. } => remote_sha1,
            Downloadable::Plain { .. } => None,
        }
    }

    /// A file is fetched when forced, when it is missing, or when its SHA-1
    /// differs from a known expected one.
    pub open spec fn must_fetch_spec(&self, local_sha1: Option<Seq<char>>, remote_sha1: Option<Seq<char>>) -> bool {
        self.force_spec() || match local_sha1 {
            None => true,
            Some(h) => match self.expected_sha1(remote_sha1) {
                None => false,
                Some(e) => h != e,
            },
        }
    }

    /// A fetched file is accepted when no SHA-1 is expected or its SHA-1 is the expected one.
    pub open spec fn accepts_spec(&self, fetched_sha1: Seq<char>, remote_sha1: Option<Seq<char>>) -> bool {
        match self.expected_sha1(remote_sha1) {
            None => true,
            Some(e) => fetched_sha1 == e,
        }
    }

    pub fn target(&self) -> (r: &String)
        ensures
            r == match self {
                Downloadable::PreHashed { target, .. } => target,
                Downloadable::Checksummed { target, .. } => target,
                Downloadable::Plain { target, .. } => target,
            },
    {
        match self {
            Downloadable::PreHashed { target, .. } => target,
            Downloadable::Checksummed { target, .. } => target,
            Downloadable::Plain { target, .. } => target,
        }
    }

    pub fn url(&self) -> (r: &String)
        ensures
            r == match self {
                Downloadable::PreHashed { url, .. } => url,
                Downloadable::Checksummed { url, .. } => url,
                Downloadable::Plain { url, .. } => url,
            },
    {
        match self {
            Downloadable::PreHashed { url, .. } => url,
            Downloadable::Checksummed { url, .. } => url,
            Downloadable::Plain { url, .. } => url,
        }
    }

    /// Whether the file must be fetched, given the SHA-1 of the file on disk
    /// (`None` when it is missing) and, for a remote-checksummed item, the
    /// digest read from the server.
    pub fn must_fetch(&self, local_sha1: Option<&str>, remote_sha1: Option<&str>) -> (r: bool)
        ensures
            r == self.must_fetch_spec(opt_view(local_sha1), opt_view(remote_sha1)),
    {
        let force = match self {
            Downloadable::PreHashed { force, .. } => *force,
            Downloadable::Checksummed { force, .. } => *force,
            Downloadable::Plain { force, .. } => *force,
        };
        if force {
            return true;
        }
        match local_sha1 {
            None => true,
            Some(h) => match self {
                Downloadable::PreHashed { sha1, .. } => !eq_str(h, sha1.as_str()),
                Downloadable::Checksummed { .. } => match remote_sha1 {
                    None => false,
                    Some(e) => !eq_str(h, e),
                },
                Downloadable::Plain { .. } => false,
            },
        }
    }

    /// Checks the SHA-1 of freshly fetched bytes; a mismatch fails the attempt.
    pub fn check_fetched(&self, fetched_sha1: &str, remote_sha1: Option<&str>) -> (r: Result<(), DownloadFailure>)
        ensures
            r is Ok <==> self.accepts_spec(fetched_sha1@, opt_view(remote_sha1)),
            r matches Err(f) ==> f == DownloadFailure::ChecksumMismatch,
    {
        let ok = match self {
            Downloadable::PreHashed { sha1, .. } => eq_str(fetched_sha1, sha1.as_str()),
            Downloadable::Checksummed { .. } => match remote_sha1 {
                None => true,
                Some(e) => eq_str(fetched_sha1, e),
            },
            Downloadable::Plain { .. } => true,
        };
        if ok {
            Ok(())
        } else {
            Err(DownloadFailure::ChecksumMismatch)
        }
    }
}

/// Every accepted file whose SHA-1 is known carries exactly that SHA-1.
pub proof fn lemma_accepted_has_expected_digest(
    d: Downloadable,
    fetched_sha1: Seq<char>,
    remote_sha1: Option<Seq<char>>,
)
    requires
        d.accepts_spec(fetched_sha1, remote_sha1),
    ensures
        d.expected_sha1(remote_sha1) matches Some(e) ==> fetched_sha1 == e,
{
}

/// Running a job again right after it succeeded fetches nothing: a file that
/// was accepted and written is present with its digest, so it is not fetched again
/// (unless the item forces a download).
pub proof fn lemma_second_run_fetches_nothing(
    d: Downloadable,
    written_sha1: Seq<char>,
    remote_sha1: Option<Seq<char>>,
)
    requires
        d.accepts_spec(written_sha1, remote_sha1),
        !d.force_spec(),
    ensures
        !d.must_fetch_spec(Some(written_sha1), remote_sha1),
{
}

/// Running a job again right after every item was accepted and written
/// fetches nothing, when no item forces a download.
pub proof fn lemma_job_rerun_fetches_nothing(
    items: Seq<Downloadable>,
    written: Seq<Seq<char>>,
    remote: Seq<Option<Seq<char>>>,
)
    requires
        items.len() == written.len(),
        items.len() == remote.len(),
        forall|i: int| 0 <= i < items.len() ==> !(#[trigger] items[i]).force_spec() && items[i].accepts_spec(written[i], remote[i]),
    ensures
        forall|i: int| 0 <= i < items.len() ==> !(#[trigger] items[i]).must_fetch_spec(Some(written[i]), remote[i]),
{
}

/// After a job succeeded, overwriting one file whose SHA-1 is known makes
/// that file, and only that one, be fetched again.
pub proof fn lemma_only_corrupted_refetched(
    items: Seq<Downloadable>,
    written: Seq<Seq<char>>,
    remote: Seq<Option<Seq<char>>>,
    k: int,
    corrupted: Seq<char>,
)
    requires
        items.len() == written.len(),
        items.len() == remote.len(),
        0 <= k < items.len(),
        forall|i: int| 0 <= i < items.len() ==> !(#[trigger] items[i]).force_spec() && items[i].accepts_spec(written[i], remote[i]),
        items[k].expected_sha1(remote[k]) is Some,
        corrupted != written[k],
    ensures
        forall|i: int|
            0 <= i < items.len() ==> ((#[trigger] items[i]).must_fetch_spec(
                if i == k {
                    Some(corrupted)
                } else {
                    Some(written[i])
                },
                remote[i],
            ) <==> i == k),
{
}

/// The outcome of a job: it fails exactly when some required item failed.
pub fn job_succeeded(succeeded: &Vec<bool>, optional: &Vec<bool>) -> (r: bool)
    requires
        succeeded@.len() == optional@.len(),
    ensures
        r == (forall|i: int| 0 <= i < succeeded@.len() ==> #[trigger] succeeded@[i] || optional@[i]),
{
    let mut i: usize = 0;
    while i < succeeded.len()
        invariant
            succeeded@.len() == optional@.len(),
            i <= succeeded@.len(),
            forall|k: int| 0 <= k < i ==> #[trigger] succeeded@[k] || optional@[k],
        decreases succeeded.len() - i,
    {
        if !succeeded[i] && !optional[i] {
            return false;
        }
        i = i + 1;
    }
    true
}

} // verus!
