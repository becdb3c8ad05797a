//! The REST client side of the MCP server: where its requests go, and the
//! inputs of its tools.

use vstd::prelude::*;
use crate::text::{chars_of, push_all, string_of};

verus! {

/// The text with every trailing `c` removed (`str::trim_end_matches`).
pub open spec fn trim_end_char(s: Seq<char>, c: char) -> Seq<char>
    decreases s.len(),
{
    if s.len() > 0 && s.last() == c {
        trim_end_char(s.drop_last(), c)
    } else {
        s
    }
}

/// What the MCP server needs to reach the agpeer API: its base URL
/// (without trailing slashes) and the bearer token.
pub struct AgpeerClient {
    base: String,
    token: String,
}

impl AgpeerClient {
    pub closed spec fn base_spec(&self) -> Seq<char> {
        self.base@
    }

    pub closed spec fn token_spec(&self) -> Seq<char> {
        self.token@
    }

    /// A client of the API at `api_base`, with or without a trailing slash.
    pub fn new(api_base: &str, token: &str) -> (c: AgpeerClient)
        ensures
            c.base_spec() == trim_end_char(api_base@, '/'),
            c.token_spec() == token@,
    {
        let b = chars_of(api_base);
        let mut n: usize = b.len();
        assert(b@.take(b@.len() as int) =~= b@);
        while n > 0 && b[n - 1] == '/'
            invariant
                n <= b@.len(),
                trim_end_char(api_base@, '/') == trim_end_char(b@.take(n as int), '/'),
                b@ == api_base@,
            decreases n,
        {
            assert(b@.take(n - 1) =~= b@.take(n as int).drop_last());
            n = n - 1;
        }
        let kept = crate::text::slice_chars(b.as_slice(), 0, n);
        proof {
            assert(kept@ =~= b@.take(n as int));
        }
        AgpeerClient { base: string_of(kept.as_slice()), token: token.to_string() }
    }

    /// The API base URL.
    pub fn base_url(&self) -> (r: &str)
        ensures
            r@ == self.base_spec(),
    {
        self.base.as_str()
    }

    /// The bearer token the requests carry.
    pub fn token(&self) -> (r: &str)
        ensures
            r@ == self.token_spec(),
    {
        self.token.as_str()
    }

    /// The URL of an API path: `{base}/api/v1{path}`.
    pub fn url(&self, path: &str) -> (r: String)
        ensures
            r@ == self.base_spec() + "/api/v1"@ + path@,
    {
        let mut u = chars_of(self.base.as_str());
        let v = chars_of("/api/v1");
        push_all(&mut u, v.as_slice());
        let p = chars_of(path);
        push_all(&mut u, p.as_slice());
        string_of(u.as_slice())
    }
}

/// A file selection of an added transfer.
pub struct FileSelectionInput {
    pub index: String,
    pub selected: bool,
}

/// A tool input naming one transfer, search or job.
pub struct IdInput {
    pub id: String,
}

/// Input of the tool that removes a transfer.
pub struct DeleteTransferInput {
    pub id: String,
    /// Delete downloaded files too.
    pub delete_data: bool,
}

/// Input of the tool that starts a search.
pub struct SearchInput {
    /// `soulseek` or `hook`.
    pub backend: String,
    pub query: String,
    pub user: Option<String>,
    pub extension: Option<String>,
    pub min_size: Option<u64>,
    pub max_results: Option<usize>,
}

/// Input of the tool that downloads a search result.
pub struct DownloadResultInput {
    pub search_id: String,
    pub result_id: String,
    pub destination: Option<String>,
}

/// Input of the tools that read or clear one setting.
pub struct KeyInput {
    pub key: String,
}

/// The API path that downloads a search result.
pub fn download_result_path(search_id: &str, result_id: &str) -> (r: String)
    ensures
        r@ == "/searches/"@ + search_id@ + "/results/"@ + result_id@ + "/download"@,
{
    let mut t = chars_of("/searches/");
    let s = chars_of(search_id);
    push_all(&mut t, s.as_slice());
    let m = chars_of("/results/");
    push_all(&mut t, m.as_slice());
    let r = chars_of(result_id);
    push_all(&mut t, r.as_slice());
    let d = chars_of("/download");
    push_all(&mut t, d.as_slice());
    string_of(t.as_slice())
}

} // verus!
