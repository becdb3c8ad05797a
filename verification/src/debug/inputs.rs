//! The debugging server's state, the inputs of its tools and its error.

use vstd::prelude::*;
use crate::text::{chars_of, push_all, string_of};

verus! {

/// The server state: where to look for code and for logs.
pub struct DebugServer {
    pub root: String,
    pub log_dir: String,
}

impl DebugServer {
    pub fn new(root: String, log_dir: String) -> (s: DebugServer)
        ensures
            s.root == root,
            s.log_dir == log_dir,
    {
        DebugServer { root, log_dir }
    }
}

/// Input of `log_tail`.
pub struct LogTailInput {
    /// Number of last lines to inspect (default 200, at most 2000).
    pub lines: Option<usize>,
    /// Keep only lines containing this text (case-insensitively).
    pub contains: Option<String>,
    /// Keep only lines at this level (ERROR, WARN, INFO, DEBUG, TRACE).
    pub level: Option<String>,
}

/// Input of `log_search`.
pub struct LogSearchInput {
    /// Regex matched against log lines (case-insensitively).
    pub pattern: String,
    /// Lines of surrounding context per match (default 0, at most 5).
    pub context: Option<usize>,
    /// Most matches to show (default and at most 100).
    pub limit: Option<usize>,
    /// Only lines containing this text (case-insensitively) are searched.
    pub contains: Option<String>,
}

/// Input of `code_grep`.
pub struct GrepInput {
    pub pattern: String,
    /// Regex a file's relative path must match to be searched.
    pub file_pattern: Option<String>,
    pub context: Option<usize>,
    pub limit: Option<usize>,
    pub case_insensitive: bool,
}

/// Input of `code_read`.
pub struct ReadInput {
    /// Path relative to the repository root.
    pub path: String,
    /// 1-based first line (inclusive).
    pub start: Option<usize>,
    /// Number of lines to read.
    pub lines: Option<usize>,
}

/// Input of `code_files`.
pub struct FilesInput {
    /// Regex matched against relative paths.
    pub pattern: Option<String>,
    pub limit: Option<usize>,
}

/// Input of `code_symbol`.
pub struct SymbolInput {
    pub name: String,
    /// File extension to restrict to (such as "rs").
    pub lang: Option<String>,
    pub limit: Option<usize>,
}

/// Input of `git_log`.
pub struct GitLogInput {
    pub limit: Option<usize>,
}

/// Input of `git_diff`.
pub struct GitDiffInput {
    /// Restrict the diff to this path.
    pub path: Option<String>,
    /// A full diff rather than `--stat`.
    pub full: bool,
}

/// Error of the debugging tools.
pub enum DebugError {
    /// An I/O failure on a path, with the system's message.
    Io { path: String, source: String },
    /// A pattern the regex crate refused, with its message.
    Regex { pat: String, msg: String },
    Other(String),
}

/// The message of an error, as it is shown to the client.
pub open spec fn debug_error_text(e: DebugError) -> Seq<char> {
    match e {
        DebugError::Io { path, source } => "io error on "@ + path@ + ": "@ + source@,
        DebugError::Regex { pat, msg } => "invalid regex `"@ + pat@ + "`: "@ + msg@,
        DebugError::Other(m) => m@,
    }
}

impl DebugError {
    /// The error's message.
    pub fn to_string(&self) -> (s: String)
        ensures
            s@ == debug_error_text(*self),
    {
        match self {
            DebugError::Io { path, source } => {
                let mut t = chars_of("io error on ");
                let p = chars_of(path.as_str());
                push_all(&mut t, p.as_slice());
                let sep = chars_of(": ");
                push_all(&mut t, sep.as_slice());
                let m = chars_of(source.as_str());
                push_all(&mut t, m.as_slice());
                string_of(t.as_slice())
            },
            DebugError::Regex { pat, msg } => {
                let mut t = chars_of("invalid regex `");
                let p = chars_of(pat.as_str());
                push_all(&mut t, p.as_slice());
                let sep = chars_of("`: ");
                push_all(&mut t, sep.as_slice());
                let m = chars_of(msg.as_str());
                push_all(&mut t, m.as_slice());
                string_of(t.as_slice())
            },
            DebugError::Other(m) => m.clone(),
        }
    }
}

} // verus!
