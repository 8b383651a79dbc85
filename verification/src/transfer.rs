//! Decisions of the file transfer protocol: how transport errors are
//! reported, how many chapters are fetched at once and when that is cut
//! back, and what happens to each received item at each step.

use vstd::prelude::*;
use std::time::Duration;
use std::sync::Arc;
use vstd::hash_map::StringHashMap;
use crate::text::{contains_seq, contains_str, str_eq, concat};
use crate::checksum::{checksum_of, sha256_hex};
use crate::messages::{FileExtraHeader, FileHeader, SessionBusy, SyncDirection, EXTRA_KIND_COMIC_INFO};
use crate::text::{decimal, u64_to_string};

verus! {

/// Failures of the peer-to-peer transport.
#[derive(Debug, Clone, PartialEq, Eq)]
pub enum P2pError {
    Timeout,
    PeerDisconnected(String),
    StreamFailed(String),
    PeerNotFound(String),
    AuthDenied(String),
    Shutdown,
    IncompatibleVersion,
    StartupFailed(String),
    BlobNotFound(String),
}

/// Reason given when a file sync is refused because the peer already has
/// one running.
pub const SESSION_BUSY_REASON: &'static str = "file sync session already in progress for this peer";

/// The `error` field of a `SessionBusy` message.
pub const SESSION_BUSY_TAG: &'static str = "busy";

/// Reason given when a scoped sync starts without a recorded scope.
pub const NO_PENDING_SCOPE_REASON: &'static str = "no pending sync scope registered for this peer";

/// Stable identifier of the cause of a sync failure, for translation by the
/// user interface.
#[derive(Debug, Clone, Copy, PartialEq, Eq, Structural)]
pub enum SyncErrorCode {
    Busy,
    Timeout,
    ConnectionLost,
    PeerNotFound,
    AuthDenied,
    Shutdown,
    IncompatibleVersion,
    StartupFailed,
    BlobNotFound,
    MissingBlobHash,
    BlobFetchFailed,
    ChecksumMismatch,
    ComicDirectoryUnavailable,
    PersistFailed,
    NoPendingRequest,
    PartialSync,
}

/// The cause a transport error is reported under, if it has a known one.
pub open spec fn spec_classify(error: P2pError) -> Option<SyncErrorCode> {
    match error {
        P2pError::Timeout => Some(SyncErrorCode::Timeout),
        P2pError::PeerDisconnected(_) => Some(SyncErrorCode::ConnectionLost),
        P2pError::StreamFailed(msg) => {
            if contains_seq(msg@, SESSION_BUSY_REASON@) {
                Some(SyncErrorCode::Busy)
            } else if msg@ == NO_PENDING_SCOPE_REASON@ {
                Some(SyncErrorCode::NoPendingRequest)
            } else {
                None
            }
        },
        P2pError::PeerNotFound(_) => Some(SyncErrorCode::PeerNotFound),
        P2pError::AuthDenied(_) => Some(SyncErrorCode::AuthDenied),
        P2pError::Shutdown => Some(SyncErrorCode::Shutdown),
        P2pError::IncompatibleVersion => Some(SyncErrorCode::IncompatibleVersion),
        P2pError::StartupFailed(_) => Some(SyncErrorCode::StartupFailed),
        P2pError::BlobNotFound(_) => Some(SyncErrorCode::BlobNotFound),
    }
}

/// Classifies a transport error by its variant; a stream failure is known
/// only when it carries one of this protocol's own reasons.
pub fn classify_sync_error(error: &P2pError) -> (r: Option<SyncErrorCode>)
    ensures
        r == spec_classify(*error),
{
    match error {
        P2pError::Timeout => Some(SyncErrorCode::Timeout),
        P2pError::PeerDisconnected(_) => Some(SyncErrorCode::ConnectionLost),
        P2pError::StreamFailed(msg) => {
            if contains_str(msg.as_str(), SESSION_BUSY_REASON) {
                Some(SyncErrorCode::Busy)
            } else if str_eq(msg.as_str(), NO_PENDING_SCOPE_REASON) {
                Some(SyncErrorCode::NoPendingRequest)
            } else {
                None
            }
        },
        P2pError::PeerNotFound(_) => Some(SyncErrorCode::PeerNotFound),
        P2pError::AuthDenied(_) => Some(SyncErrorCode::AuthDenied),
        P2pError::Shutdown => Some(SyncErrorCode::Shutdown),
        P2pError::IncompatibleVersion => Some(SyncErrorCode::IncompatibleVersion),
        P2pError::StartupFailed(_) => Some(SyncErrorCode::StartupFailed),
        P2pError::BlobNotFound(_) => Some(SyncErrorCode::BlobNotFound),
    }
}

/// The name each code is reported under.
pub open spec fn spec_code_name(code: SyncErrorCode) -> Seq<char> {
    match code {
        SyncErrorCode::Busy => "busy"@,
        SyncErrorCode::Timeout => "timeout"@,
        SyncErrorCode::ConnectionLost => "connection_lost"@,
        SyncErrorCode::PeerNotFound => "peer_not_found"@,
        SyncErrorCode::AuthDenied => "auth_denied"@,
        SyncErrorCode::Shutdown => "shutdown"@,
        SyncErrorCode::IncompatibleVersion => "incompatible_version"@,
        SyncErrorCode::StartupFailed => "startup_failed"@,
        SyncErrorCode::BlobNotFound => "blob_not_found"@,
        SyncErrorCode::MissingBlobHash => "missing_blob_hash"@,
        SyncErrorCode::BlobFetchFailed => "blob_fetch_failed"@,
        SyncErrorCode::ChecksumMismatch => "checksum_mismatch"@,
        SyncErrorCode::ComicDirectoryUnavailable => "comic_directory_unavailable"@,
        SyncErrorCode::PersistFailed => "persist_failed"@,
        SyncErrorCode::NoPendingRequest => "no_pending_request"@,
        SyncErrorCode::PartialSync => "partial_sync"@,
    }
}

/// The name a code is reported under.
pub fn code_name(code: SyncErrorCode) -> (r: &'static str)
    ensures
        r@ == spec_code_name(code),
{
    match code {
        SyncErrorCode::Busy => "busy",
        SyncErrorCode::Timeout => "timeout",
        SyncErrorCode::ConnectionLost => "connection_lost",
        SyncErrorCode::PeerNotFound => "peer_not_found",
        SyncErrorCode::AuthDenied => "auth_denied",
        SyncErrorCode::Shutdown => "shutdown",
        SyncErrorCode::IncompatibleVersion => "incompatible_version",
        SyncErrorCode::StartupFailed => "startup_failed",
        SyncErrorCode::BlobNotFound => "blob_not_found",
        SyncErrorCode::MissingBlobHash => "missing_blob_hash",
        SyncErrorCode::BlobFetchFailed => "blob_fetch_failed",
        SyncErrorCode::ChecksumMismatch => "checksum_mismatch",
        SyncErrorCode::ComicDirectoryUnavailable => "comic_directory_unavailable",
        SyncErrorCode::PersistFailed => "persist_failed",
        SyncErrorCode::NoPendingRequest => "no_pending_request",
        SyncErrorCode::PartialSync => "partial_sync",
    }
}
/// Each code is reported under a name of its own.
pub proof fn code_names_are_distinct(a: SyncErrorCode, b: SyncErrorCode)
    ensures
        a != b ==> spec_code_name(a) != spec_code_name(b),
{
    reveal_strlit("busy");
    reveal_strlit("timeout");
    reveal_strlit("connection_lost");
    reveal_strlit("peer_not_found");
    reveal_strlit("auth_denied");
    reveal_strlit("shutdown");
    reveal_strlit("incompatible_version");
    reveal_strlit("startup_failed");
    reveal_strlit("blob_not_found");
    reveal_strlit("missing_blob_hash");
    reveal_strlit("blob_fetch_failed");
    reveal_strlit("checksum_mismatch");
    reveal_strlit("comic_directory_unavailable");
    reveal_strlit("persist_failed");
    reveal_strlit("no_pending_request");
    reveal_strlit("partial_sync");
    if a != b && spec_code_name(a) == spec_code_name(b) {
        assert(spec_code_name(a).len() == spec_code_name(b).len());
        assert(spec_code_name(a)[0] == spec_code_name(b)[0]);
        assert(spec_code_name(a)[1] == spec_code_name(b)[1]);
        assert(spec_code_name(a)[5] == spec_code_name(b)[5]);
    }
}


/// Chapters fetched at once for a measured round trip of `rtt_nanos`
/// nanoseconds (`None`: not measured): 2 up to 20 ms, 4 up to 200 ms, 6
/// above, and 2 when nothing was measured.
pub open spec fn spec_fetch_concurrency(rtt_nanos: Option<u128>) -> usize {
    match rtt_nanos {
        Some(n) => if n <= 20_000_000 {
            2
        } else if n <= 200_000_000 {
            4
        } else {
            6
        },
        None => 2,
    }
}

/// Chapters to fetch at once for a round trip measured in nanoseconds.
pub fn fetch_concurrency_for_rtt(rtt_nanos: Option<u128>) -> (r: usize)
    ensures
        r == spec_fetch_concurrency(rtt_nanos),
{
    match rtt_nanos {
        Some(n) => if n <= 20_000_000 {
            2
        } else if n <= 200_000_000 {
            4
        } else {
            6
        },
        None => 2,
    }
}

/// The whole nanoseconds of the duration `d`, as `Duration::as_nanos` gives
/// them.
pub uninterp spec fn duration_as_nanos(d: Duration) -> u128;

/// `Duration::as_nanos`: the whole nanoseconds of `d`, a function of `d`
/// alone, named by `duration_as_nanos`.
#[verifier::external_body]
fn duration_nanos(d: &Duration) -> (r: u128)
    ensures
        r == duration_as_nanos(*d),
{
    d.as_nanos()
}

/// Chapters to fetch at once for the round trip measured with the peer
/// (`None`: not measured).
pub fn chapter_fetch_concurrency(latency: Option<Duration>) -> (r: usize)
    ensures
        latency is None ==> r == 2,
        latency matches Some(d) ==> r == spec_fetch_concurrency(Some(duration_as_nanos(d))),
        r == 2 || r == 4 || r == 6,
{
    match latency {
        Some(d) => {
            let n = duration_nanos(&d);
            fetch_concurrency_for_rtt(Some(n))
        },
        None => fetch_concurrency_for_rtt(None),
    }
}

/// Permits to drop from a pool of `initial` the first time a fetch times
/// out: the pool is halved, but never below one permit.
pub open spec fn spec_permits_to_forget(initial: usize) -> usize {
    let keep: usize = if initial / 2 >= 1 { initial / 2 } else { 1 };
    if initial >= keep { (initial - keep) as usize } else { 0 }
}

/// Permits to drop from the fetch pool on the first timeout.
pub fn permits_to_forget(initial_permits: usize) -> (r: usize)
    ensures
        r == spec_permits_to_forget(initial_permits),
        initial_permits > 0 ==> initial_permits - r >= 1,
        r <= initial_permits,
{
    let half = initial_permits / 2;
    let keep = if half >= 1 { half } else { 1 };
    initial_permits.saturating_sub(keep)
}

/// The fetch pool of one receiving session and whether it was already cut
/// back after a timeout.
pub struct FetchBackoff {
    pub initial_permits: usize,
    pub to_forget: usize,
    pub backed_off: bool,
}

impl FetchBackoff {
    /// A pool sized for the measured round trip, not yet cut back.
    pub fn new(initial_permits: usize) -> (r: Self)
        ensures
            r.initial_permits == initial_permits,
            r.to_forget == spec_permits_to_forget(initial_permits),
            !r.backed_off,
    {
        FetchBackoff {
            initial_permits,
            to_forget: permits_to_forget(initial_permits),
            backed_off: false,
        }
    }

    /// Records the outcome of one fetch (`timed_out`: it was skipped because
    /// the fetch timed out) and returns how many permits to drop now: the
    /// cut happens once per session, on the first timeout.
    pub fn on_outcome(&mut self, timed_out: bool) -> (r: usize)
        ensures
            r == (if timed_out && !old(self).backed_off {
                old(self).to_forget
            } else {
                0
            }),
            final(self).backed_off == (old(self).backed_off || timed_out),
            final(self).initial_permits == old(self).initial_permits,
            final(self).to_forget == old(self).to_forget,
    {
        if timed_out && !self.backed_off {
            self.backed_off = true;
            self.to_forget
        } else {
            0
        }
    }
}

/// Whether the item being received is a chapter or a per-comic extra.
#[derive(Debug, Clone, Copy, PartialEq, Eq, Structural)]
pub enum ItemKind {
    Chapter,
    Extra,
}

/// The parts of a transfer header that the receiving side acts on; `item`
/// is the chapter label of a chapter or the kind of an extra.
#[derive(Debug, Clone, PartialEq, Eq)]
pub struct IncomingItem {
    pub kind: ItemKind,
    pub comic_name: String,
    pub item: String,
    pub file_name: String,
    pub size: u64,
    pub checksum: Option<String>,
    pub blob_hash: Option<String>,
}

impl IncomingItem {
    /// The incoming chapter that `header` announces.
    pub fn from_chapter_header(header: FileHeader) -> (r: Self)
        ensures
            r.kind == ItemKind::Chapter,
            r.comic_name == header.comic_name,
            r.item == header.chapter,
            r.file_name == header.file_name,
            r.size == header.size,
            r.checksum == header.checksum,
            r.blob_hash == header.blob_hash,
    {
        IncomingItem {
            kind: ItemKind::Chapter,
            comic_name: header.comic_name,
            item: header.chapter,
            file_name: header.file_name,
            size: header.size,
            checksum: header.checksum,
            blob_hash: header.blob_hash,
        }
    }

    /// The incoming extra that `header` announces.
    pub fn from_extra_header(header: FileExtraHeader) -> (r: Self)
        ensures
            r.kind == ItemKind::Extra,
            r.comic_name == header.comic_name,
            r.item == header.kind,
            r.file_name == header.file_name,
            r.size == header.size,
            r.checksum == header.checksum,
            r.blob_hash == header.blob_hash,
    {
        IncomingItem {
            kind: ItemKind::Extra,
            comic_name: header.comic_name,
            item: header.kind,
            file_name: header.file_name,
            size: header.size,
            checksum: header.checksum,
            blob_hash: header.blob_hash,
        }
    }
}

/// Why one item was not persisted: the text logged and the code reported.
#[derive(Debug, Clone, PartialEq, Eq)]
pub struct ItemFailure {
    pub message: String,
    pub code: Option<SyncErrorCode>,
}

/// How receiving one item ended.
#[derive(Debug, Clone, PartialEq, Eq)]
pub enum ReceiptEnd {
    /// The item is in place; `progress` is the label reported, and
    /// `refresh_comic_info` asks to re-read the comic's metadata.
    Persisted { progress: String, refresh_comic_info: bool },
    /// The item was skipped; `timed_out` when the cause was a fetch timeout.
    Skipped { timed_out: bool, failure: Option<ItemFailure> },
}

/// The next thing to do while receiving one item.
#[derive(Debug, Clone, PartialEq, Eq)]
pub enum ReceiptAction {
    /// Fetch the blob with this hash from the peer.
    FetchBlob(String),
    /// Read the bytes of the fetched blob.
    ReadBlob,
    /// Find the comic's directory; `checksum` and `bytes` are kept for the
    /// steps after it.
    ResolveComicDir { checksum: String, bytes: Vec<u8> },
    /// Write `bytes` to the temporary file `temp_name` in `dir`.
    WriteTemp { dir: String, temp_name: String, checksum: String, bytes: Vec<u8> },
    /// Move the temporary file in place and record it with `checksum`.
    Persist { checksum: String },
    /// Stop.
    Finish(ReceiptEnd),
}

/// An item skipped with the given message and code.
pub open spec fn skipped_with(
    action: ReceiptAction,
    timed_out: bool,
    message: Seq<char>,
    code: Option<SyncErrorCode>,
) -> bool {
    action matches ReceiptAction::Finish(ReceiptEnd::Skipped { timed_out: t, failure: Some(f) })
        && t == timed_out && f.message@ == message && f.code == code
}

fn skip(timed_out: bool, message: String, code: Option<SyncErrorCode>) -> (r: ReceiptAction)
    ensures
        skipped_with(r, timed_out, message@, code),
{
    ReceiptAction::Finish(
        ReceiptEnd::Skipped { timed_out, failure: Some(ItemFailure { message, code }) },
    )
}

/// First step for an item: an unavailable item (size 0) is skipped without
/// a report, one without a blob hash is skipped and reported, any other is
/// fetched.
pub fn begin_receipt(item: &IncomingItem) -> (r: ReceiptAction)
    ensures
        item.size == 0 ==> r == ReceiptAction::Finish(
            ReceiptEnd::Skipped { timed_out: false, failure: None },
        ),
        item.size != 0 && item.blob_hash is None ==> skipped_with(
            r,
            false,
            "missing blob hash"@,
            Some(SyncErrorCode::MissingBlobHash),
        ),
        item.size != 0 && item.blob_hash is Some ==> (r matches ReceiptAction::FetchBlob(h) && h
            == item.blob_hash.unwrap()),
{
    if item.size == 0 {
        return ReceiptAction::Finish(ReceiptEnd::Skipped { timed_out: false, failure: None });
    }
    match &item.blob_hash {
        Some(hash) => ReceiptAction::FetchBlob(hash.clone()),
        None => skip(false, "missing blob hash".to_string(), Some(SyncErrorCode::MissingBlobHash)),
    }
}

/// The code a failed blob fetch is reported under.
pub open spec fn fetch_failure_code(error: P2pError) -> SyncErrorCode {
    match spec_classify(error) {
        Some(c) => c,
        None => SyncErrorCode::BlobFetchFailed,
    }
}

/// After the fetch: on success the blob is read; on failure the item is
/// skipped, reported under the error's code (or `BlobFetchFailed`), and
/// counts as timed out only for a timeout. `error_text` is the error's text.
pub fn on_fetched(result: Result<(), P2pError>, error_text: &str) -> (r: ReceiptAction)
    ensures
        result is Ok ==> r == ReceiptAction::ReadBlob,
        result matches Err(e) ==> skipped_with(
            r,
            e is Timeout,
            "blob fetch failed: "@ + error_text@,
            Some(fetch_failure_code(e)),
        ),
{
    match result {
        Ok(()) => ReceiptAction::ReadBlob,
        Err(e) => {
            let timed_out = match e {
                P2pError::Timeout => true,
                _ => false,
            };
            let code = match classify_sync_error(&e) {
                Some(c) => c,
                None => SyncErrorCode::BlobFetchFailed,
            };
            skip(timed_out, concat("blob fetch failed: ", error_text), Some(code))
        },
    }
}

/// After reading the blob: the bytes' checksum is compared with the one
/// announced (if any); a mismatch skips the item, and so does a read
/// failure.
pub fn on_bytes_read(item: &IncomingItem, result: Result<Vec<u8>, String>) -> (r: ReceiptAction)
    ensures
        result matches Ok(bytes) ==> ((item.checksum is None || item.checksum.unwrap()@
            == checksum_of(bytes@)) ==> (r matches ReceiptAction::ResolveComicDir {
            checksum,
            bytes: b,
        } && checksum@ == checksum_of(bytes@) && b@ == bytes@)),
        result matches Ok(bytes) ==> (item.checksum is Some && item.checksum.unwrap()@
            != checksum_of(bytes@) ==> skipped_with(
            r,
            false,
            "checksum mismatch"@,
            Some(SyncErrorCode::ChecksumMismatch),
        )),
        result matches Err(t) ==> (item.kind == ItemKind::Chapter ==> skipped_with(
            r,
            false,
            "failed to read chapter blob: "@ + t@,
            None,
        )),
        result matches Err(t) ==> (item.kind == ItemKind::Extra ==> skipped_with(
            r,
            false,
            "failed to read extra blob: "@ + t@,
            None,
        )),
{
    match result {
        Ok(bytes) => {
            let computed = sha256_hex(bytes.as_slice());
            let matches = match &item.checksum {
                Some(expected) => str_eq(expected.as_str(), computed.as_str()),
                None => true,
            };
            if matches {
                ReceiptAction::ResolveComicDir { checksum: computed, bytes }
            } else {
                skip(false, "checksum mismatch".to_string(), Some(SyncErrorCode::ChecksumMismatch))
            }
        },
        Err(t) => match item.kind {
            ItemKind::Chapter => skip(false, concat("failed to read chapter blob: ", t.as_str()), None),
            ItemKind::Extra => skip(false, concat("failed to read extra blob: ", t.as_str()), None),
        },
    }
}

/// `rand::random::<u64>()`: a random number. Nothing is stated of it:
/// any value may come back.
#[verifier::external_body]
fn random_token() -> (r: u64) {
    rand::random::<u64>()
}

/// The name of the temporary file a received item is written to before it
/// is moved in place: hidden, marked `.incoming-`, made unique by `token`.
pub open spec fn spec_incoming_temp_name(token: u64) -> Seq<char> {
    ".incoming-"@ + decimal(token as nat) + ".tmp"@
}

/// The temporary file name made from `token`.
pub fn incoming_temp_name(token: u64) -> (r: String)
    ensures
        r@ == spec_incoming_temp_name(token),
{
    let digits = u64_to_string(token);
    let head = concat(".incoming-", digits.as_str());
    concat(head.as_str(), ".tmp")
}

/// After looking up the comic's directory: the bytes are written there, or
/// the item is skipped when there is no directory.
pub fn on_dir_resolved(result: Result<String, String>, checksum: String, bytes: Vec<u8>) -> (r:
    ReceiptAction)
    ensures
        result matches Ok(d) ==> (r matches ReceiptAction::WriteTemp { dir, temp_name, checksum: c, bytes: b }
            && dir@ == d@ && (exists|t: u64| temp_name@ == spec_incoming_temp_name(t)) && c@ == checksum@
            && b@ == bytes@),
        result is Err ==> skipped_with(
            r,
            false,
            "failed to resolve comic directory"@,
            Some(SyncErrorCode::ComicDirectoryUnavailable),
        ),
{
    match result {
        Ok(dir) => {
            let token = random_token();
            let temp_name = incoming_temp_name(token);
            ReceiptAction::WriteTemp { dir, temp_name, checksum, bytes }
        },
        Err(_) => skip(
            false,
            "failed to resolve comic directory".to_string(),
            Some(SyncErrorCode::ComicDirectoryUnavailable),
        ),
    }
}

/// After writing the temporary file: the item is persisted; a write failure
/// skips the item, chapter or extra alike.
pub fn on_temp_written(kind: ItemKind, result: Result<(), String>, checksum: String) -> (r:
    ReceiptAction)
    ensures
        result is Ok ==> (r matches ReceiptAction::Persist { checksum: c } && c@ == checksum@),
        result matches Err(t) ==> skipped_with(
            r,
            false,
            "failed to write temp file: "@ + t@,
            Some(SyncErrorCode::PersistFailed),
        ),
{
    match result {
        Ok(()) => ReceiptAction::Persist { checksum },
        Err(t) => skip(
            false,
            concat("failed to write temp file: ", t.as_str()),
            Some(SyncErrorCode::PersistFailed),
        ),
    }
}

/// The progress label of an item: `"<comic> - <item>"`.
pub open spec fn progress_label(comic_name: Seq<char>, item: Seq<char>) -> Seq<char> {
    comic_name + " - "@ + item
}

/// After persisting: the item is done and reported as progress (an extra
/// `ComicInfo.xml` also asks for the comic's metadata to be re-read), or it
/// is skipped when persisting failed.
pub fn on_persisted(item: &IncomingItem, result: Result<(), String>) -> (r: ReceiptAction)
    ensures
        result is Ok ==> (r matches ReceiptAction::Finish(
            ReceiptEnd::Persisted { progress, refresh_comic_info },
        ) && progress@ == progress_label(item.comic_name@, item.item@) && refresh_comic_info == (
        item.kind == ItemKind::Extra && item.item@ == EXTRA_KIND_COMIC_INFO@)),
        result matches Err(t) ==> (item.kind == ItemKind::Chapter ==> skipped_with(
            r,
            false,
            "failed to persist chapter: "@ + t@,
            Some(SyncErrorCode::PersistFailed),
        )),
        result matches Err(t) ==> (item.kind == ItemKind::Extra ==> skipped_with(
            r,
            false,
            "failed to persist extra: "@ + t@,
            Some(SyncErrorCode::PersistFailed),
        )),
{
    match result {
        Ok(()) => {
            let head = concat(item.comic_name.as_str(), " - ");
            let progress = concat(head.as_str(), item.item.as_str());
            let refresh = match item.kind {
                ItemKind::Extra => str_eq(item.item.as_str(), EXTRA_KIND_COMIC_INFO),
                ItemKind::Chapter => false,
            };
            ReceiptAction::Finish(ReceiptEnd::Persisted { progress, refresh_comic_info: refresh })
        },
        Err(t) => match item.kind {
            ItemKind::Chapter => skip(
                false,
                concat("failed to persist chapter: ", t.as_str()),
                Some(SyncErrorCode::PersistFailed),
            ),
            ItemKind::Extra => skip(
                false,
                concat("failed to persist extra: ", t.as_str()),
                Some(SyncErrorCode::PersistFailed),
            ),
        },
    }
}

/// How receiving one chapter ended, as the session counts it.
#[derive(Debug, Clone, Copy, PartialEq, Eq, Structural)]
pub enum ChapterOutcome {
    Persisted,
    Skipped { timed_out: bool },
}

/// The outcome a finished chapter receipt counts as.
pub fn chapter_outcome(end: &ReceiptEnd) -> (r: ChapterOutcome)
    ensures
        end is Persisted ==> r == ChapterOutcome::Persisted,
        *end matches ReceiptEnd::Skipped { timed_out, .. } ==> r == (ChapterOutcome::Skipped { timed_out }),
{
    match end {
        ReceiptEnd::Persisted { .. } => ChapterOutcome::Persisted,
        ReceiptEnd::Skipped { timed_out, .. } => ChapterOutcome::Skipped { timed_out: *timed_out },
    }
}

/// How many of `outcomes` are skips.
pub open spec fn count_skipped(outcomes: Seq<ChapterOutcome>) -> nat
    decreases outcomes.len(),
{
    if outcomes.len() == 0 {
        0
    } else {
        count_skipped(outcomes.drop_last()) + if outcomes.last() is Skipped {
            1nat
        } else {
            0nat
        }
    }
}

proof fn count_skipped_bounded(outcomes: Seq<ChapterOutcome>)
    ensures
        count_skipped(outcomes) <= outcomes.len(),
    decreases outcomes.len(),
{
    if outcomes.len() > 0 {
        count_skipped_bounded(outcomes.drop_last());
    }
}

/// The number of chapters of a session that were not persisted.
pub fn skipped_count(outcomes: &Vec<ChapterOutcome>) -> (r: usize)
    ensures
        r == count_skipped(outcomes@),
        r <= outcomes.len(),
{
    let mut n: usize = 0;
    let mut i: usize = 0;
    while i < outcomes.len()
        invariant
            i <= outcomes.len(),
            n == count_skipped(outcomes@.take(i as int)),
        decreases outcomes.len() - i,
    {
        proof {
            count_skipped_bounded(outcomes@.take(i as int));
            assert(outcomes@.take(i as int + 1).drop_last() =~= outcomes@.take(i as int));
        }
        match outcomes[i] {
            ChapterOutcome::Skipped { .. } => n += 1,
            ChapterOutcome::Persisted => {},
        }
        i += 1;
    }
    assert(outcomes@.take(outcomes.len() as int) =~= outcomes@);
    proof {
        count_skipped_bounded(outcomes@);
    }
    n
}

/// The items of a whole session that did not go through: the skips of the
/// chapters and extras received and of those sent.
pub fn session_skipped_total(
    received: usize,
    received_extras: usize,
    sent: usize,
    sent_extras: usize,
) -> (r: usize)
    requires
        received + received_extras + sent + sent_extras <= usize::MAX,
    ensures
        r == received + received_extras + sent + sent_extras,
{
    received + received_extras + sent + sent_extras
}

/// The header sent for a wanted chapter that no longer exists locally.
pub fn unavailable_chapter_header(comic_name: String, chapter: String) -> (r: FileHeader)
    ensures
        r.comic_name == comic_name,
        r.chapter == chapter,
        r.file_name@ == Seq::<char>::empty(),
        r.size == 0,
        r.checksum is None,
        r.blob_hash is None,
{
    FileHeader {
        comic_name,
        chapter,
        file_name: String::new(),
        size: 0,
        checksum: None,
        blob_hash: None,
    }
}

/// The header sent for a chapter published under `blob_hash`.
pub fn published_chapter_header(
    comic_name: String,
    chapter: String,
    file_name: String,
    size: u64,
    checksum: Option<String>,
    blob_hash: String,
) -> (r: FileHeader)
    ensures
        r.comic_name == comic_name,
        r.chapter == chapter,
        r.file_name == file_name,
        r.size == size,
        r.checksum == checksum,
        r.blob_hash == Some(blob_hash),
{
    FileHeader { comic_name, chapter, file_name, size, checksum, blob_hash: Some(blob_hash) }
}

/// The header sent for a wanted extra that no longer exists locally.
pub fn unavailable_extra_header(comic_name: String, kind: String) -> (r: FileExtraHeader)
    ensures
        r.comic_name == comic_name,
        r.kind == kind,
        r.file_name@ == Seq::<char>::empty(),
        r.size == 0,
        r.checksum is None,
        r.blob_hash is None,
{
    FileExtraHeader {
        comic_name,
        kind,
        file_name: String::new(),
        size: 0,
        checksum: None,
        blob_hash: None,
    }
}

/// The header sent for an extra published under `blob_hash`.
pub fn published_extra_header(
    comic_name: String,
    kind: String,
    file_name: String,
    size: u64,
    checksum: Option<String>,
    blob_hash: String,
) -> (r: FileExtraHeader)
    ensures
        r.comic_name == comic_name,
        r.kind == kind,
        r.file_name == file_name,
        r.size == size,
        r.checksum == checksum,
        r.blob_hash == Some(blob_hash),
{
    FileExtraHeader { comic_name, kind, file_name, size, checksum, blob_hash: Some(blob_hash) }
}

/// The message written in place of a manifest when a session is refused.
pub fn session_busy_message() -> (r: SessionBusy)
    ensures
        r.error@ == SESSION_BUSY_TAG@,
        r.reason@ == SESSION_BUSY_REASON@,
{
    SessionBusy { error: SESSION_BUSY_TAG.to_string(), reason: SESSION_BUSY_REASON.to_string() }
}

/// Whether the peer's first message is a busy refusal, given its `error`
/// and `reason` fields when they are strings: it is when `error` is the
/// busy tag, and then the session fails with the peer's reason (or "peer is
/// busy" when it gave none).
pub fn busy_rejection(error_tag: Option<&str>, reason: Option<&str>) -> (r: Option<P2pError>)
    ensures
        !(error_tag matches Some(t) && t@ == SESSION_BUSY_TAG@) ==> r is None,
        error_tag matches Some(t) && t@ == SESSION_BUSY_TAG@ ==> (r matches Some(
            P2pError::StreamFailed(m),
        ) && m@ == "peer busy: "@ + (match reason {
            Some(x) => x@,
            None => "peer is busy"@,
        })),
{
    let is_busy = match error_tag {
        Some(t) => str_eq(t, SESSION_BUSY_TAG),
        None => false,
    };
    if !is_busy {
        return None;
    }
    let why = match reason {
        Some(x) => x,
        None => "peer is busy",
    };
    Some(P2pError::StreamFailed(concat("peer busy: ", why)))
}

/// A sync failure as reported to the user interface.
#[derive(Debug, Clone, PartialEq, Eq)]
pub struct SyncErrorReport {
    pub peer_id: String,
    pub message: String,
    pub code: Option<SyncErrorCode>,
    pub comic_name: Option<String>,
    /// The item that failed, for a failure of one item.
    pub item: Option<String>,
    /// Set only for the failure of one item, which does not end the session.
    pub item_level: bool,
}

/// The report of a failed session.
pub fn sync_error_payload(
    peer_id: &str,
    message: &str,
    code: Option<SyncErrorCode>,
    comic_name: Option<&str>,
) -> (r: SyncErrorReport)
    ensures
        r.peer_id@ == peer_id@,
        r.message@ == message@,
        r.code == code,
        comic_name is None ==> r.comic_name is None,
        comic_name matches Some(c) ==> (r.comic_name matches Some(x) && x@ == c@),
        r.item is None,
        !r.item_level,
{
    SyncErrorReport {
        peer_id: peer_id.to_string(),
        message: message.to_string(),
        code,
        comic_name: match comic_name {
            Some(c) => Some(c.to_string()),
            None => None,
        },
        item: None,
        item_level: false,
    }
}

/// The report of one item that failed while the session goes on.
pub fn item_error_payload(
    peer_id: &str,
    message: &str,
    code: Option<SyncErrorCode>,
    comic_name: &str,
    item: &str,
) -> (r: SyncErrorReport)
    ensures
        r.peer_id@ == peer_id@,
        r.message@ == message@,
        r.code == code,
        r.comic_name matches Some(c) && c@ == comic_name@,
        r.item matches Some(i) && i@ == item@,
        r.item_level,
{
    SyncErrorReport {
        peer_id: peer_id.to_string(),
        message: message.to_string(),
        code,
        comic_name: Some(comic_name.to_string()),
        item: Some(item.to_string()),
        item_level: true,
    }
}

/// The report of a session refused because one is already running.
pub fn emit_busy(peer_id: &str) -> (r: SyncErrorReport)
    ensures
        r.peer_id@ == peer_id@,
        r.message@ == SESSION_BUSY_REASON@,
        r.code == Some(SyncErrorCode::Busy),
        r.comic_name is None,
        !r.item_level,
{
    sync_error_payload(peer_id, SESSION_BUSY_REASON, Some(SyncErrorCode::Busy), None)
}

/// Publishes and fetches chapter bytes through the blob store of a peer
/// connection `C`.
pub struct BlobChapterTransfer<C> {
    context: Arc<C>,
}

impl<C> BlobChapterTransfer<C> {
    /// The connection the transfer goes through.
    pub closed spec fn context(&self) -> Arc<C> {
        self.context
    }

    /// A transfer through `context`.
    pub fn new(context: Arc<C>) -> (r: Self)
        ensures
            r.context() == context,
    {
        BlobChapterTransfer { context }
    }
}

/// A content-addressed blob store held in memory: blobs are published under
/// their SHA-256 checksum, and a round trip can be given a simulated value.
pub struct InMemoryChapterTransfer {
    blobs: StringHashMap<Vec<u8>>,
    latency: Option<Duration>,
}

/// The text of a failed in-memory fetch.
pub open spec fn unknown_blob_message(blob_hash: Seq<char>) -> Seq<char> {
    "unknown blob hash in test transfer: "@ + blob_hash
}

impl InMemoryChapterTransfer {
    /// The published blobs, by hash.
    pub closed spec fn blobs(&self) -> Map<Seq<char>, Seq<u8>> {
        Map::new(|k: Seq<char>| self.blobs@.contains_key(k), |k: Seq<char>| self.blobs@[k]@)
    }

    /// The simulated round trip, if one was set.
    pub closed spec fn latency_setting(&self) -> Option<Duration> {
        self.latency
    }

    /// An empty store with no simulated round trip.
    pub fn new() -> (r: Self)
        ensures
            r.blobs() == Map::<Seq<char>, Seq<u8>>::empty(),
            r.latency_setting() is None,
    {
        let r = InMemoryChapterTransfer { blobs: StringHashMap::new(), latency: None };
        assert(r.blobs() =~= Map::<Seq<char>, Seq<u8>>::empty());
        r
    }

    /// Simulates a measured round trip of `latency`.
    pub fn set_latency(&mut self, latency: Duration)
        ensures
            final(self).latency_setting() == Some(latency),
            final(self).blobs() == old(self).blobs(),
    {
        self.latency = Some(latency);
    }

    /// The simulated round trip, if any.
    pub fn latency(&self) -> (r: Option<Duration>)
        ensures
            r == self.latency_setting(),
    {
        self.latency
    }

    /// Stores `bytes` under their checksum and returns it.
    pub fn publish(&mut self, bytes: Vec<u8>) -> (r: Result<String, P2pError>)
        ensures
            r matches Ok(h) && h@ == checksum_of(bytes@),
            final(self).blobs() == old(self).blobs().insert(checksum_of(bytes@), bytes@),
            final(self).latency_setting() == old(self).latency_setting(),
    {
        let hash = sha256_hex(bytes.as_slice());
        let ghost key = hash@;
        let ghost value = bytes@;
        self.blobs.insert(hash.clone(), bytes);
        assert(self.blobs() =~= old(self).blobs().insert(key, value));
        Ok(hash)
    }

    /// The bytes stored under `blob_hash`, or a stream failure naming it.
    pub fn fetch(&self, blob_hash: &str) -> (r: Result<Vec<u8>, P2pError>)
        ensures
            self.blobs().contains_key(blob_hash@) ==> (r matches Ok(b) && b@ == self.blobs()[blob_hash@]),
            !self.blobs().contains_key(blob_hash@) ==> (r matches Err(P2pError::StreamFailed(m))
                && m@ == unknown_blob_message(blob_hash@)),
    {
        match self.blobs.get(blob_hash) {
            Some(b) => {
                let out = b.clone();
                assert(out@ =~= b@);
                Ok(out)
            },
            None => Err(P2pError::StreamFailed(concat("unknown blob hash in test transfer: ", blob_hash))),
        }
    }
}

/// What is published to a content-addressed store is fetched back
/// unchanged under the hash that publishing returned, and publishing leaves
/// every other blob as it was.
pub proof fn fetch_after_publish(
    blobs: Map<Seq<char>, Seq<u8>>,
    bytes: Seq<u8>,
    other: Seq<char>,
)
    ensures
        blobs.insert(checksum_of(bytes), bytes).contains_key(checksum_of(bytes)),
        blobs.insert(checksum_of(bytes), bytes)[checksum_of(bytes)] == bytes,
        other != checksum_of(bytes) ==> (blobs.insert(checksum_of(bytes), bytes).contains_key(other)
            == blobs.contains_key(other)),
        other != checksum_of(bytes) && blobs.contains_key(other) ==> blobs.insert(
            checksum_of(bytes),
            bytes,
        )[other] == blobs[other],
{
}

/// How a finished sync session is reported and logged.
#[derive(Debug, PartialEq, Eq)]
pub struct SessionReport {
    /// The status logged: `complete` or `error`.
    pub status: String,
    /// The failure reported to the user interface, if any.
    pub failure: Option<(String, Option<SyncErrorCode>)>,
    /// What the protocol handler returns.
    pub result: Result<(), P2pError>,
}

/// The text reported when a session ends with `skipped` items missing.
pub open spec fn partial_message(skipped: nat) -> Seq<char> {
    decimal(skipped) + " chapter(s) not synced — see backend log for details"@
}

/// Reports a finished session: with nothing skipped it is complete; with
/// items skipped it fails as a partial sync; a failed session is reported
/// with its error's text (`error_text`) and the code of its cause.
pub fn session_report(result: Result<usize, P2pError>, error_text: &str) -> (r: SessionReport)
    ensures
        result == Ok::<usize, P2pError>(0) ==> r.status@ == "complete"@ && r.failure is None && r.result is Ok,
        result matches Ok(n) ==> (n > 0 ==> r.status@ == "error"@
            && (r.failure matches Some(f) && f.0@ == partial_message(n as nat) && f.1 == Some(SyncErrorCode::PartialSync))
            && (r.result matches Err(P2pError::StreamFailed(m)) && m@ == partial_message(n as nat))),
        result matches Err(e) ==> r.status@ == "error"@
            && (r.failure matches Some(f) && f.0@ == error_text@ && f.1 == spec_classify(e))
            && r.result == Err::<(), P2pError>(e),
{
    match result {
        Ok(0) => SessionReport { status: "complete".to_string(), failure: None, result: Ok(()) },
        Ok(n) => {
            let count = u64_to_string(n as u64);
            let message = concat(count.as_str(), " chapter(s) not synced — see backend log for details");
            SessionReport {
                status: "error".to_string(),
                failure: Some((message.clone(), Some(SyncErrorCode::PartialSync))),
                result: Err(P2pError::StreamFailed(message)),
            }
        },
        Err(e) => {
            let code = classify_sync_error(&e);
            SessionReport { status: "error".to_string(), failure: Some((error_text.to_string(), code)), result: Err(e) }
        },
    }
}

/// Whether the side that starts a single-comic sync only sends: it does
/// when it pushes.
pub fn outbound_is_sender(direction: SyncDirection) -> (r: bool)
    ensures
        r == (direction == SyncDirection::Push),
{
    match direction {
        SyncDirection::Push => true,
        SyncDirection::Pull => false,
    }
}

/// Whether the answering side of a single-comic sync only sends: it does
/// when the starting side pulls, the opposite role.
pub fn inbound_is_sender(direction: SyncDirection) -> (r: bool)
    ensures
        r == (direction == SyncDirection::Pull),
{
    match direction {
        SyncDirection::Push => false,
        SyncDirection::Pull => true,
    }
}

/// In a single-comic sync exactly one side sends: the starting side sends
/// when it pushes, the answering side when it is pulled from.
pub proof fn exactly_one_side_sends(direction: SyncDirection)
    ensures
        (direction == SyncDirection::Push) != (direction == SyncDirection::Pull),
{
}

/// What a side asks for: nothing when it only sends, otherwise the
/// computed want lists.
pub fn wants_for_role(
    is_sender: bool,
    wanted: Vec<(String, String)>,
    wanted_extras: Vec<(String, String)>,
) -> (r: (Vec<(String, String)>, Vec<(String, String)>))
    ensures
        is_sender ==> r.0.len() == 0 && r.1.len() == 0,
        !is_sender ==> r.0 == wanted && r.1 == wanted_extras,
{
    if is_sender {
        (Vec::new(), Vec::new())
    } else {
        (wanted, wanted_extras)
    }
}

} // verus!
