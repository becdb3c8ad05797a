//! The normalized transfer/search model shared by every backend and client.

use vstd::prelude::*;
use crate::ids::{ResultId, SearchId, TransferId};
use vstd::string::StringExecFns;

verus! {

/// Which backend owns a transfer.
#[derive(Debug, Clone, Copy, PartialEq, Eq, Structural, Hash)]
pub enum Backend {
    Torrent,
    Soulseek,
    /// User-configured external search command that returns magnet links.
    /// Search-only: magnets discovered here are pulled via the torrent backend.
    Hook,
}

pub open spec fn backend_name(b: Backend) -> Seq<char> {
    match b {
        Backend::Torrent => "torrent"@,
        Backend::Soulseek => "soulseek"@,
        Backend::Hook => "hook"@,
    }
}

impl Backend {
    pub fn as_str(&self) -> (s: &'static str)
        ensures
            s@ == backend_name(*self),
    {
        match self {
            Backend::Torrent => "torrent",
            Backend::Soulseek => "soulseek",
            Backend::Hook => "hook",
        }
    }
}

/// Normalized transfer states.
#[derive(Debug, Clone, Copy, PartialEq, Eq, Structural, Hash)]
pub enum TransferState {
    Queued,
    Resolving,
    Downloading,
    Paused,
    Verifying,
    Completed,
    Postprocessing,
    Ready,
    Failed,
    Cancelled,
    /// A transfer that exists in our database but was missing from the
    /// backend during startup reconciliation. Files are never auto-deleted.
    Orphaned,
}

pub open spec fn transfer_state_name(s: TransferState) -> Seq<char> {
    match s {
        TransferState::Queued => "queued"@,
        TransferState::Resolving => "resolving"@,
        TransferState::Downloading => "downloading"@,
        TransferState::Paused => "paused"@,
        TransferState::Verifying => "verifying"@,
        TransferState::Completed => "completed"@,
        TransferState::Postprocessing => "postprocessing"@,
        TransferState::Ready => "ready"@,
        TransferState::Failed => "failed"@,
        TransferState::Cancelled => "cancelled"@,
        TransferState::Orphaned => "orphaned"@,
    }
}

/// The states after which no further progress is expected.
pub open spec fn terminal_state(s: TransferState) -> bool {
    s == TransferState::Ready || s == TransferState::Failed || s == TransferState::Cancelled
        || s == TransferState::Orphaned
}

impl TransferState {
    pub fn as_str(&self) -> (s: &'static str)
        ensures
            s@ == transfer_state_name(*self),
    {
        match self {
            TransferState::Queued => "queued",
            TransferState::Resolving => "resolving",
            TransferState::Downloading => "downloading",
            TransferState::Paused => "paused",
            TransferState::Verifying => "verifying",
            TransferState::Completed => "completed",
            TransferState::Postprocessing => "postprocessing",
            TransferState::Ready => "ready",
            TransferState::Failed => "failed",
            TransferState::Cancelled => "cancelled",
            TransferState::Orphaned => "orphaned",
        }
    }

    /// Whether this state is terminal (no further progress expected).
    pub fn is_terminal(&self) -> (b: bool)
        ensures
            b == terminal_state(*self),
    {
        match self {
            TransferState::Ready | TransferState::Failed | TransferState::Cancelled
            | TransferState::Orphaned => true,
            _ => false,
        }
    }
}

/// Post-processing lifecycle of a transfer.
#[derive(Debug, Clone, Copy, PartialEq, Eq, Structural, Hash)]
pub enum PostprocessState {
    /// No post-processing requested or applicable.
    NotRequested,
    Pending,
    Running,
    Completed,
    Failed,
}

pub open spec fn postprocess_state_name(s: PostprocessState) -> Seq<char> {
    match s {
        PostprocessState::NotRequested => "none"@,
        PostprocessState::Pending => "pending"@,
        PostprocessState::Running => "running"@,
        PostprocessState::Completed => "completed"@,
        PostprocessState::Failed => "failed"@,
    }
}

impl PostprocessState {
    pub fn as_str(&self) -> (s: &'static str)
        ensures
            s@ == postprocess_state_name(*self),
    {
        match self {
            PostprocessState::NotRequested => "none",
            PostprocessState::Pending => "pending",
            PostprocessState::Running => "running",
            PostprocessState::Completed => "completed",
            PostprocessState::Failed => "failed",
        }
    }
}

impl Default for PostprocessState {
    fn default() -> (s: Self)
        ensures
            s == PostprocessState::NotRequested,
    {
        PostprocessState::NotRequested
    }
}

/// Lifecycle of a search.
#[derive(Debug, Clone, Copy, PartialEq, Eq, Structural, Hash)]
pub enum SearchState {
    Pending,
    Active,
    Completed,
    Failed,
    Expired,
    Stopped,
}

pub open spec fn search_state_name(s: SearchState) -> Seq<char> {
    match s {
        SearchState::Pending => "pending"@,
        SearchState::Active => "active"@,
        SearchState::Completed => "completed"@,
        SearchState::Failed => "failed"@,
        SearchState::Expired => "expired"@,
        SearchState::Stopped => "stopped"@,
    }
}

impl SearchState {
    pub fn as_str(&self) -> (s: &'static str)
        ensures
            s@ == search_state_name(*self),
    {
        match self {
            SearchState::Pending => "pending",
            SearchState::Active => "active",
            SearchState::Completed => "completed",
            SearchState::Failed => "failed",
            SearchState::Expired => "expired",
            SearchState::Stopped => "stopped",
        }
    }
}

/// Request to start a search.
#[derive(Debug, Clone)]
pub struct SearchRequest {
    pub backend: Backend,
    pub query: String,
    /// Optional Soulseek user to restrict results to.
    pub user: Option<String>,
    /// Optional extension filter, e.g. `flac`.
    pub extension: Option<String>,
    /// Minimum size in bytes.
    pub min_size: Option<u64>,
    /// Maximum results to retain.
    pub max_results: usize,
}

/// The number of results a search retains when the request names none.
pub fn default_max_results() -> (n: usize)
    ensures
        n == 1000,
{
    1000
}

/// How a magnet-search site template extracts magnet links from fetched pages.
#[derive(Debug, Clone, Copy, PartialEq, Eq, Structural)]
pub enum ExtractStrategy {
    /// Result rows contain direct `magnet:` link hrefs.
    Table,
    /// Follow the top result-page links to detail pages and take each page's
    /// first magnet link.
    Detail,
    /// Apply the user-supplied regex to the page and take group 1 (or the
    /// whole match) as magnet URIs.
    Regex,
}

impl Default for ExtractStrategy {
    fn default() -> (s: Self)
        ensures
            s == ExtractStrategy::Table,
    {
        ExtractStrategy::Table
    }
}

/// One user-configured magnet-search site template.
#[derive(Debug, Clone, Default)]
pub struct HookSearchSite {
    /// Identifier/display name, e.g. `nyaa`.
    pub domain: String,
    /// Search URL template with `{query}` substituted at search time.
    pub search: String,
    /// How magnets are extracted from the fetched pages.
    pub extract: ExtractStrategy,
    /// For detail extraction: how many detail pages to follow.
    pub max_pages: Option<usize>,
    /// For regex extraction: the literal regex to apply.
    pub pattern: Option<String>,
}

/// A single file within a transfer.
#[derive(Debug, Clone)]
pub struct TransferFile {
    /// Backend-provided file index or path; used as a stable reference.
    pub index: String,
    pub path: String,
    pub size: u64,
    /// Whether this file is selected for download.
    pub selected: bool,
    pub bytes_completed: u64,
}

/// Request to add a new transfer.
#[derive(Debug, Clone)]
pub struct AddTransferRequest {
    /// The backend that must accept this source.
    pub backend: Backend,
    /// Magnet URI, local `.torrent` path, remote `.torrent` URL, or a
    /// Soulseek search-result id.
    pub source: String,
    /// Optional destination directory; defaults to the configured download
    /// root.
    pub destination: Option<String>,
    /// Optional display name override.
    pub display_name: Option<String>,
    /// Optional per-file selection (torrent backends).
    pub file_selection: Option<Vec<FileSelection>>,
    /// Metadata to attach to the transfer: each key with its value as JSON
    /// text.
    pub metadata: Vec<(String, String)>,
}

/// A single file selection instruction for a transfer add request.
#[derive(Debug, Clone)]
pub struct FileSelection {
    /// Backend file index or path.
    pub index: String,
    pub selected: bool,
}

/// Result of adding a transfer.
#[derive(Debug, Clone)]
pub struct AddTransferResponse {
    pub transfer_id: TransferId,
}

/// Reference from a search result to a transfer request.
#[derive(Debug, Clone)]
pub struct DownloadResultRequest {
    pub search_id: SearchId,
    pub result_id: ResultId,
    pub destination: Option<String>,
}

} // verus!

verus! {

/// A machine-readable error code plus a human-readable message.
///
/// `code` is stable across releases and safe for agents to branch on;
/// `message` is informational and must never contain secrets.
#[derive(Debug, Clone)]
pub struct ApiError {
    pub code: String,
    pub message: String,
}

impl ApiError {
    pub fn new(code: &str, message: &str) -> (e: ApiError)
        ensures
            e.code@ == code@,
            e.message@ == message@,
    {
        ApiError { code: String::from_str(code), message: String::from_str(message) }
    }

    /// The error's text: its code, `: `, and its message.
    pub fn to_string(&self) -> (s: String)
        ensures
            s@ == self.code@ + ": "@ + self.message@,
    {
        let mut s = self.code.clone();
        s.append(": ");
        s.append(self.message.as_str());
        s
    }
}

/// The canonical application error type.
#[derive(Debug, Clone)]
pub enum Error {
    /// A transfer or search backend is unreachable or not running.
    BackendUnavailable,
    /// Credentials were rejected or a required credential is missing.
    AuthenticationFailed,
    /// The supplied transfer source (magnet/URL/torrent) is malformed.
    InvalidSource,
    /// A search has expired and its results are no longer available.
    SearchExpired,
    /// A search result has expired and can no longer be downloaded.
    ResultExpired,
    /// The requested transfer does not exist.
    TransferNotFound,
    /// The requested search does not exist.
    SearchNotFound,
    /// The requested result does not exist.
    ResultNotFound,
    /// The requested resource does not exist.
    NotFound,
    /// The caller is not permitted to perform this action.
    PermissionDenied,
    /// A path escaped a configured root or otherwise failed validation.
    UnsafePath,
    /// Archive extraction failed.
    ExtractionFailed,
    /// Executable launch was denied by policy.
    ProcessLaunchDenied,
    /// The managed sidecar version is unsupported.
    SidecarVersionUnsupported,
    /// The operation conflicts with the current state.
    InvalidState(String),
    /// An opaque id could not be parsed (the parser's message).
    InvalidId(String),
    /// A stored timestamp could not be parsed as RFC3339 (the parser's message).
    InvalidTimestamp(String),
    /// A persistence failure occurred.
    Database(String),
    /// The backend rejected the operation.
    Backend(String),
    /// A generic internal error.
    Internal(String),
}

pub open spec fn error_code(e: Error) -> Seq<char> {
    match e {
        Error::BackendUnavailable => "BackendUnavailable"@,
        Error::AuthenticationFailed => "AuthenticationFailed"@,
        Error::InvalidSource => "InvalidSource"@,
        Error::SearchExpired => "SearchExpired"@,
        Error::ResultExpired => "ResultExpired"@,
        Error::TransferNotFound => "TransferNotFound"@,
        Error::SearchNotFound => "SearchNotFound"@,
        Error::ResultNotFound => "ResultNotFound"@,
        Error::NotFound => "NotFound"@,
        Error::PermissionDenied => "PermissionDenied"@,
        Error::UnsafePath => "UnsafePath"@,
        Error::ExtractionFailed => "ExtractionFailed"@,
        Error::ProcessLaunchDenied => "ProcessLaunchDenied"@,
        Error::SidecarVersionUnsupported => "SidecarVersionUnsupported"@,
        Error::InvalidState(_) => "InvalidState"@,
        Error::InvalidId(_) => "InvalidId"@,
        Error::InvalidTimestamp(_) => "InvalidTimestamp"@,
        Error::Database(_) => "Database"@,
        Error::Backend(_) => "Backend"@,
        Error::Internal(_) => "Internal"@,
    }
}

/// The human-readable text of an error.
pub open spec fn error_text(e: Error) -> Seq<char> {
    match e {
        Error::BackendUnavailable => "backend unavailable"@,
        Error::AuthenticationFailed => "authentication failed"@,
        Error::InvalidSource => "invalid source"@,
        Error::SearchExpired => "search expired"@,
        Error::ResultExpired => "result expired"@,
        Error::TransferNotFound => "transfer not found"@,
        Error::SearchNotFound => "search not found"@,
        Error::ResultNotFound => "result not found"@,
        Error::NotFound => "not found"@,
        Error::PermissionDenied => "permission denied"@,
        Error::UnsafePath => "unsafe path"@,
        Error::ExtractionFailed => "extraction failed"@,
        Error::ProcessLaunchDenied => "process launch denied"@,
        Error::SidecarVersionUnsupported => "sidecar version unsupported"@,
        Error::InvalidState(s) => "invalid state: "@ + s@,
        Error::InvalidId(s) => "invalid id: "@ + s@,
        Error::InvalidTimestamp(s) => "invalid timestamp: "@ + s@,
        Error::Database(s) => "database error: "@ + s@,
        Error::Backend(s) => "backend error: "@ + s@,
        Error::Internal(s) => "internal error: "@ + s@,
    }
}

/// Errors whose detail must never reach API clients verbatim.
pub open spec fn is_internal_error(e: Error) -> bool {
    e is Database || e is Backend || e is Internal
}

fn prefixed(prefix: &str, detail: &String) -> (s: String)
    ensures
        s@ == prefix@ + detail@,
{
    let mut s = String::from_str(prefix);
    s.append(detail.as_str());
    s
}

impl Error {
    /// Stable machine-readable code for this error.
    pub fn code(&self) -> (c: &'static str)
        ensures
            c@ == error_code(*self),
    {
        match self {
            Error::BackendUnavailable => "BackendUnavailable",
            Error::AuthenticationFailed => "AuthenticationFailed",
            Error::InvalidSource => "InvalidSource",
            Error::SearchExpired => "SearchExpired",
            Error::ResultExpired => "ResultExpired",
            Error::TransferNotFound => "TransferNotFound",
            Error::SearchNotFound => "SearchNotFound",
            Error::ResultNotFound => "ResultNotFound",
            Error::NotFound => "NotFound",
            Error::PermissionDenied => "PermissionDenied",
            Error::UnsafePath => "UnsafePath",
            Error::ExtractionFailed => "ExtractionFailed",
            Error::ProcessLaunchDenied => "ProcessLaunchDenied",
            Error::SidecarVersionUnsupported => "SidecarVersionUnsupported",
            Error::InvalidState(_) => "InvalidState",
            Error::InvalidId(_) => "InvalidId",
            Error::InvalidTimestamp(_) => "InvalidTimestamp",
            Error::Database(_) => "Database",
            Error::Backend(_) => "Backend",
            Error::Internal(_) => "Internal",
        }
    }

    /// The human-readable text of this error.
    pub fn to_string(&self) -> (s: String)
        ensures
            s@ == error_text(*self),
    {
        match self {
            Error::BackendUnavailable => String::from_str("backend unavailable"),
            Error::AuthenticationFailed => String::from_str("authentication failed"),
            Error::InvalidSource => String::from_str("invalid source"),
            Error::SearchExpired => String::from_str("search expired"),
            Error::ResultExpired => String::from_str("result expired"),
            Error::TransferNotFound => String::from_str("transfer not found"),
            Error::SearchNotFound => String::from_str("search not found"),
            Error::ResultNotFound => String::from_str("result not found"),
            Error::NotFound => String::from_str("not found"),
            Error::PermissionDenied => String::from_str("permission denied"),
            Error::UnsafePath => String::from_str("unsafe path"),
            Error::ExtractionFailed => String::from_str("extraction failed"),
            Error::ProcessLaunchDenied => String::from_str("process launch denied"),
            Error::SidecarVersionUnsupported => String::from_str("sidecar version unsupported"),
            Error::InvalidState(s) => prefixed("invalid state: ", s),
            Error::InvalidId(s) => prefixed("invalid id: ", s),
            Error::InvalidTimestamp(s) => prefixed("invalid timestamp: ", s),
            Error::Database(s) => prefixed("database error: ", s),
            Error::Backend(s) => prefixed("backend error: ", s),
            Error::Internal(s) => prefixed("internal error: ", s),
        }
    }

    /// Convert into a client-safe API error, stripping internal detail:
    /// database, backend and internal errors carry only "internal error".
    pub fn into_api(self) -> (a: ApiError)
        ensures
            a.code@ == error_code(self),
            a.message@ == if is_internal_error(self) {
                "internal error"@
            } else {
                error_text(self)
            },
    {
        let code = String::from_str(self.code());
        let message = match &self {
            Error::Database(_) | Error::Backend(_) | Error::Internal(_) => String::from_str(
                "internal error",
            ),
            other => other.to_string(),
        };
        ApiError { code, message }
    }
}

} // verus!

verus! {

/// Checks a transfer destination: a blank one is an invalid source. The
/// caller resolves and creates the directory; this guards against
/// obviously invalid input.
pub fn validate_destination(path: &str) -> (r: Result<(), Error>)
    ensures
        r is Err <==> crate::text::trim(path@).len() == 0,
        r matches Err(e) ==> e is InvalidSource,
{
    if crate::text::is_blank(path) {
        return Err(Error::InvalidSource);
    }
    Ok(())
}

} // verus!
