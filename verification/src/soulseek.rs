//! Soulseek transfer bookkeeping: how a native download's status, a peer's
//! refusal, or a file found on disk move a transfer, where a finished file
//! is delivered, and how a search result is named.

use vstd::prelude::*;
use crate::common::{AddTransferRequest, Backend, Error, TransferState};
use crate::ids::{ResultId, uuid_text, uuid_v5_url, uuid_v5_url_bits};
use std::collections::HashMap;
use crate::text::{chars_of, push_all, replace_char, string_of};

verus! {

/// Paths compare separator-insensitively: `\` reads as `/`.
pub open spec fn normalized(p: Seq<char>) -> Seq<char> {
    replace_char(p, '\\', '/')
}

/// A path with every `\` turned into `/`.
pub fn normalize_separators(path: &str) -> (r: String)
    ensures
        r@ == normalized(path@),
{
    let c = chars_of(path);
    let n = crate::text::replace_char_chars(c.as_slice(), '\\', '/');
    string_of(n.as_slice())
}

/// The last segment of a peer path, after its last `/` or `\` (empty
/// when the path ends with one).
pub open spec fn peer_base(f: Seq<char>) -> Seq<char>
    decreases f.len(),
{
    if f.len() == 0 {
        seq![]
    } else if f.last() == '/' || f.last() == '\\' {
        seq![]
    } else {
        peer_base(f.drop_last()).push(f.last())
    }
}

/// The file name of a peer path.
pub fn peer_basename(filename: &str) -> (r: String)
    ensures
        r@ == peer_base(filename@),
{
    let c = chars_of(filename);
    let mut start: usize = c.len();
    assert(c@.take(start as int) =~= c@);
    assert(peer_base(c@) + c@.subrange(start as int, c@.len() as int) =~= peer_base(c@));
    while start > 0 && c[start - 1] != '/' && c[start - 1] != '\\'
        invariant
            start <= c@.len(),
            peer_base(c@) == peer_base(c@.take(start as int)) + c@.subrange(start as int, c@.len() as int),
        decreases start,
    {
        let ghost t = c@.take(start as int);
        assert(c@.take(start - 1) =~= t.drop_last());
        assert(c@.subrange(start - 1, c@.len() as int) =~= seq![t.last()] + c@.subrange(
            start as int,
            c@.len() as int,
        ));
        assert(peer_base(t) == peer_base(t.drop_last()).push(t.last()));
        assert(peer_base(t.drop_last()).push(t.last()) + c@.subrange(start as int, c@.len() as int)
            =~= peer_base(t.drop_last()) + (seq![t.last()] + c@.subrange(start as int, c@.len() as int)));
        start = start - 1;
    }
    assert(peer_base(c@.take(start as int)) =~= seq![]);
    let r = crate::text::slice_chars(c.as_slice(), start, c.len());
    string_of(r.as_slice())
}

/// The position of the last `/` of a path, if any.
pub open spec fn last_slash(f: Seq<char>) -> Option<int>
    decreases f.len(),
{
    if f.len() == 0 {
        None
    } else if f.last() == '/' {
        Some(f.len() - 1)
    } else {
        last_slash(f.drop_last())
    }
}

proof fn lemma_last_slash(f: Seq<char>)
    ensures
        last_slash(f) matches Some(i) ==> 0 <= i < f.len() && f[i] == '/' && forall|j: int|
            i < j < f.len() ==> f[j] != '/',
        last_slash(f) is None ==> forall|j: int| 0 <= j < f.len() ==> f[j] != '/',
    decreases f.len(),
{
    if f.len() > 0 {
        let d = f.drop_last();
        lemma_last_slash(d);
        assert(forall|j: int| 0 <= j < d.len() ==> d[j] == f[j]);
    }
}

/// A result's remote path split at its last `/` into folder and file name;
/// a path without one lies in `/`.
pub open spec fn remote_split(f: Seq<char>) -> (Seq<char>, Seq<char>) {
    match last_slash(f) {
        Some(i) => (f.subrange(0, i), f.subrange(i + 1, f.len() as int)),
        None => ("/"@, f),
    }
}

/// The folder and file name of a result's remote path.
pub fn split_remote_path(filename: &str) -> (r: (String, String))
    ensures
        (r.0@, r.1@) == remote_split(filename@),
{
    let c = chars_of(filename);
    let mut k: usize = c.len();
    while k > 0 && c[k - 1] != '/'
        invariant
            k <= c@.len(),
            forall|j: int| k <= j < c@.len() ==> c@[j] != '/',
        decreases k,
    {
        k = k - 1;
    }
    proof {
        lemma_last_slash(c@);
    }
    if k == 0 {
        let dir = chars_of("/");
        (string_of(dir.as_slice()), filename.to_string())
    } else {
        proof {
            assert(c@[k - 1] == '/');
            assert(last_slash(c@) == Some(k - 1));
        }
        let d = crate::text::slice_chars(c.as_slice(), 0, k - 1);
        let n = crate::text::slice_chars(c.as_slice(), k, c.len());
        (string_of(d.as_slice()), string_of(n.as_slice()))
    }
}

/// The bytes a result's identifier is derived from:
/// `soulseek:{username}:{filename}`.
pub open spec fn result_key_text(username: Seq<char>, filename: Seq<char>) -> Seq<char> {
    "soulseek:"@ + username + ":"@ + filename
}

/// The application's identifier of a peer's file: the version 5 UUID (URL
/// namespace) of its key, the same every time the file is found.
pub fn result_id_for(username: &str, filename: &str) -> (r: ResultId)
    ensures
        r.0 == uuid_v5_url(vstd::utf8::encode_utf8(result_key_text(username@, filename@))),
{
    let mut k = chars_of("soulseek:");
    let u = chars_of(username);
    push_all(&mut k, u.as_slice());
    let c = chars_of(":");
    push_all(&mut k, c.as_slice());
    let f = chars_of(filename);
    push_all(&mut k, f.as_slice());
    let key = string_of(k.as_slice());
    let b = key.as_str().as_bytes();
    ResultId(uuid_v5_url_bits(b))
}

/// The Soulseek source prefix of a result download.
pub open spec fn result_source(key: Seq<char>) -> Seq<char> {
    "soulseek:result:"@ + key
}

/// The result key a Soulseek download request names: only a request for
/// the Soulseek backend whose source is `soulseek:result:{key}` is one.
pub fn requested_result(request: &AddTransferRequest) -> (r: Result<String, Error>)
    ensures
        match r {
            Ok(k) => request.backend == Backend::Soulseek && request.source@ == result_source(k@),
            Err(e) => e is InvalidSource && (request.backend != Backend::Soulseek || !crate::text::starts_with(
                request.source@,
                "soulseek:result:"@,
            )),
        },
{
    if request.backend != Backend::Soulseek {
        return Err(Error::InvalidSource);
    }
    let s = chars_of(request.source.as_str());
    let p = chars_of("soulseek:result:");
    if !crate::text::starts_with_chars(s.as_slice(), p.as_slice()) {
        return Err(Error::InvalidSource);
    }
    let k = crate::text::slice_chars(s.as_slice(), p.len(), s.len());
    assert(s@ =~= p@ + k@);
    Ok(string_of(k.as_slice()))
}

/// A download request names exactly one result: its source is never
/// refused by [`requested_result`] for a missing prefix, and the key read
/// back from it is the key it was made from.
pub proof fn law_result_source_roundtrip(key: Seq<char>, other: Seq<char>)
    ensures
        crate::text::starts_with(result_source(key), "soulseek:result:"@),
        result_source(other) == result_source(key) ==> other == key,
{
    let p = "soulseek:result:"@;
    assert(result_source(key).subrange(0, p.len() as int) =~= p);
    if result_source(other) == result_source(key) {
        assert(other =~= result_source(other).subrange(p.len() as int, result_source(other).len() as int));
        assert(key =~= result_source(key).subrange(p.len() as int, result_source(key).len() as int));
    }
}

/// A found file kept so that a later download request can name it: the
/// peer, its remote path, and its size when known.
#[derive(Debug, Clone)]
pub struct StoredResult {
    pub username: String,
    pub filename: String,
    pub size: Option<u64>,
}

/// A stored result by its texts and size.
pub open spec fn stored_view(r: StoredResult) -> (Seq<char>, Seq<char>, Option<u64>) {
    (r.username@, r.filename@, r.size)
}

impl StoredResult {
    /// A copy with the same texts and size.
    pub fn copy(&self) -> (r: StoredResult)
        ensures
            stored_view(r) == stored_view(*self),
    {
        StoredResult { username: self.username.clone(), filename: self.filename.clone(), size: self.size }
    }
}

/// The results found so far, each under its result identifier, so that a
/// download request can name one by the identifier's text.
pub struct ResultStore {
    results: HashMap<u128, StoredResult>,
}

impl ResultStore {
    /// The stored results by identifier.
    pub closed spec fn view(&self) -> Map<u128, (Seq<char>, Seq<char>, Option<u64>)> {
        Map::new(|k: u128| self.results@.contains_key(k), |k: u128| stored_view(self.results@[k]))
    }

    /// An empty store.
    pub fn new() -> (s: Self)
        ensures
            s.view() == Map::<u128, (Seq<char>, Seq<char>, Option<u64>)>::empty(),
    {
        let s = ResultStore { results: HashMap::new() };
        assert(s.view() =~= Map::<u128, (Seq<char>, Seq<char>, Option<u64>)>::empty());
        s
    }

    /// Keeps `result` under `id`, replacing any earlier one.
    pub fn insert(&mut self, id: &ResultId, result: StoredResult)
        ensures
            final(self).view() == old(self).view().insert(id.0, stored_view(result)),
    {
        broadcast use vstd::std_specs::hash::group_hash_axioms;
        let ghost r = result;
        self.results.insert(id.0, result);
        assert(self.view() =~= old(self).view().insert(id.0, stored_view(r)));
    }

    /// The result whose identifier's text is `key`, or `ResultExpired` when
    /// none is stored under it.
    pub fn lookup(&self, key: &str) -> (r: Result<StoredResult, Error>)
        ensures
            match r {
                Ok(s) => exists|id: u128|
                    #![trigger self.view()[id]]
                    uuid_text(id) == key@ && self.view().dom().contains(id) && self.view()[id] == stored_view(s),
                Err(e) => e is ResultExpired && forall|id: u128|
                    #[trigger] uuid_text(id) == key@ ==> !self.view().dom().contains(id),
            },
    {
        broadcast use vstd::std_specs::hash::group_hash_axioms;
        let id = match ResultId::parse_text(key) {
            Some(id) => id,
            None => {
                return Err(Error::ResultExpired);
            },
        };
        let text = id.to_string();
        let a = chars_of(text.as_str());
        let b = chars_of(key);
        if !crate::text::chars_eq(a.as_slice(), b.as_slice()) {
            proof {
                assert forall|x: u128| #[trigger] uuid_text(x) == key@ implies !self.view().dom().contains(x) by {
                    assert(Some(id) == Some(ResultId(x)));
                }
            }
            return Err(Error::ResultExpired);
        }
        let k: u128 = id.0;
        match self.results.get(&k) {
            Some(v) => {
                let c = v.copy();
                assert(self.view()[k] == stored_view(c));
                Ok(c)
            },
            None => {
                proof {
                    assert forall|x: u128| #[trigger] uuid_text(x) == key@ implies !self.view().dom().contains(x) by {
                        assert(Some(id) == Some(ResultId(x)));
                    }
                }
                Err(Error::ResultExpired)
            },
        }
    }
}

/// The stored result a Soulseek download request names: the request must
/// be for the Soulseek backend with a `soulseek:result:` source
/// (`InvalidSource` otherwise), and a result must be stored under the key
/// (`ResultExpired` otherwise).
pub fn requested_download(request: &AddTransferRequest, store: &ResultStore) -> (r: Result<StoredResult, Error>)
    ensures
        request.backend != Backend::Soulseek || !crate::text::starts_with(request.source@, "soulseek:result:"@)
            ==> (r matches Err(e) && e is InvalidSource),
        request.backend == Backend::Soulseek && crate::text::starts_with(request.source@, "soulseek:result:"@)
            ==> {
            let key = request.source@.subrange(16, request.source@.len() as int);
            match r {
                Ok(s) => exists|id: u128|
                    #![trigger store.view()[id]]
                    uuid_text(id) == key && store.view().dom().contains(id) && store.view()[id] == stored_view(s),
                Err(e) => e is ResultExpired && forall|id: u128|
                    #[trigger] uuid_text(id) == key ==> !store.view().dom().contains(id),
            }
        },
{
    proof {
        reveal_strlit("soulseek:result:");
    }
    match requested_result(request) {
        Err(e) => Err(e),
        Ok(key) => {
            proof {
                law_result_source_roundtrip(key@, key@);
            }
            assert(key@ =~= request.source@.subrange(16, request.source@.len() as int));
            store.lookup(key.as_str())
        },
    }
}

/// The display name of a new Soulseek transfer: the requested one, else
/// the result's remote path.
pub fn transfer_display_name(requested: &Option<String>, filename: &str) -> (r: String)
    ensures
        r@ == match requested {
            Some(d) => d@,
            None => filename@,
        },
{
    match requested {
        Some(d) => d.clone(),
        None => filename.to_string(),
    }
}

/// What the application tracks of a Soulseek transfer: its state and byte
/// counts, where it is delivered, the peer and remote path it is fetched
/// from, whether it was delivered, when it completed (milliseconds) and
/// its error.
pub struct PeerTransfer {
    pub state: TransferState,
    pub bytes_total: Option<u64>,
    pub bytes_completed: u64,
    pub destination: String,
    pub username: Option<String>,
    pub filename: Option<String>,
    pub delivered: bool,
    pub completed_at: Option<i64>,
    pub error: Option<String>,
}

/// A download just handed to the native client: queued, nothing received,
/// in the requested destination (the download directory by default),
/// fetched from the result's peer and path, with the result's size as its
/// total when known.
pub fn queued_transfer(
    destination: Option<String>,
    download_dir: &str,
    username: &str,
    filename: &str,
    size: Option<u64>,
) -> (t: PeerTransfer)
    ensures
        t.state == TransferState::Queued,
        t.bytes_total == size,
        t.bytes_completed == 0,
        t.destination@ == match destination {
            Some(d) => d@,
            None => download_dir@,
        },
        t.username matches Some(u) && u@ == username@,
        t.filename matches Some(f) && f@ == filename@,
        !t.delivered,
        t.completed_at is None,
        t.error is None,
{
    let dest = match destination {
        Some(d) => d,
        None => download_dir.to_string(),
    };
    PeerTransfer {
        state: TransferState::Queued,
        bytes_total: size,
        bytes_completed: 0,
        destination: dest,
        username: Some(username.to_string()),
        filename: Some(filename.to_string()),
        delivered: false,
        completed_at: None,
        error: None,
    }
}

/// One entry of the native client's download status.
pub struct DownloadStatus {
    pub username: String,
    pub filename: String,
    pub size: u64,
    pub offset: u64,
}

pub open spec fn meta_text(o: Option<String>) -> Seq<char> {
    match o {
        Some(s) => s@,
        None => seq![],
    }
}

/// The first status entry for the transfer's peer and remote path.
pub open spec fn status_index(st: Seq<DownloadStatus>, user: Seq<char>, file: Seq<char>) -> Option<int>
    decreases st.len(),
{
    if st.len() == 0 {
        None
    } else {
        match status_index(st.drop_last(), user, file) {
            Some(i) => Some(i),
            None => if st.last().filename@ == file && st.last().username@ == user {
                Some(st.len() - 1)
            } else {
                None
            },
        }
    }
}

/// How a transfer was reconciled.
#[derive(Debug, Clone, Copy, PartialEq, Eq)]
pub enum Reconciled {
    /// Progress and state follow the live status entry.
    FromStatus,
    /// No status entry, but the complete file is on disk.
    CompletedOnDisk,
    Unchanged,
}

/// A state the no-status check leaves alone.
pub open spec fn settled(s: TransferState) -> bool {
    s == TransferState::Completed || s == TransferState::Cancelled || s == TransferState::Failed
}

pub open spec fn completed_stamp(t: PeerTransfer, now: i64) -> Option<i64> {
    match t.completed_at {
        Some(c) => Some(c),
        None => Some(now),
    }
}

/// The transfer after reconciling it with the download status: a status
/// entry for its peer and path sets its byte counts and, once the offset
/// reaches a non-zero size, completes it (else it is downloading once bytes
/// arrived); without one, a transfer still live whose full size sits on
/// disk completes.
pub open spec fn reconciled(t: PeerTransfer, st: Seq<DownloadStatus>, disk_len: Option<u64>, now: i64) -> (
    PeerTransfer,
    Reconciled,
) {
    match status_index(st, meta_text(t.username), meta_text(t.filename)) {
        Some(i) => {
            let dl = st[i];
            let done = dl.offset >= dl.size && dl.size > 0;
            (
                PeerTransfer {
                    bytes_total: Some(dl.size),
                    bytes_completed: dl.offset,
                    state: if done {
                        TransferState::Completed
                    } else if dl.offset > 0 {
                        TransferState::Downloading
                    } else {
                        t.state
                    },
                    completed_at: if done {
                        completed_stamp(t, now)
                    } else {
                        t.completed_at
                    },
                    ..t
                },
                Reconciled::FromStatus,
            )
        },
        None => if !settled(t.state) && t.bytes_total is Some && t.bytes_total->0 > 0 && disk_len
            == t.bytes_total {
            (
                PeerTransfer {
                    bytes_completed: t.bytes_total->0,
                    state: TransferState::Completed,
                    completed_at: completed_stamp(t, now),
                    ..t
                },
                Reconciled::CompletedOnDisk,
            )
        } else {
            (t, Reconciled::Unchanged)
        },
    }
}

fn opt_text(o: &Option<String>) -> (r: Vec<char>)
    ensures
        r@ == meta_text(*o),
{
    match o {
        Some(s) => chars_of(s.as_str()),
        None => Vec::new(),
    }
}

/// Reconciles a transfer with the native client's download status;
/// `disk_len` is the size of the file named by the remote path's last
/// segment in the destination, when it exists.
pub fn reconcile(t: &mut PeerTransfer, status: &Vec<DownloadStatus>, disk_len: Option<u64>, now: i64) -> (r:
    Reconciled)
    ensures
        (*final(t), r) == reconciled(*old(t), status@, disk_len, now),
{
    let user = opt_text(&t.username);
    let file = opt_text(&t.filename);
    let mut i: usize = 0;
    let mut found: Option<usize> = None;
    while i < status.len() && found.is_none()
        invariant
            i <= status@.len(),
            found matches Some(k) ==> k < i && status_index(status@.take(i as int), user@, file@) == Some(
                k as int,
            ),
            found is None ==> status_index(status@.take(i as int), user@, file@) is None,
        decreases status.len() - i,
    {
        let s = &status[i];
        assert(status@.take(i + 1).drop_last() =~= status@.take(i as int));
        let sf = chars_of(s.filename.as_str());
        let su = chars_of(s.username.as_str());
        if crate::text::chars_eq(sf.as_slice(), file.as_slice()) && crate::text::chars_eq(
            su.as_slice(),
            user.as_slice(),
        ) {
            found = Some(i);
        }
        i = i + 1;
    }
    proof {
        lemma_status_prefix(status@, i as int, user@, file@);
    }
    match found {
        Some(k) => {
            let dl = &status[k];
            t.bytes_total = Some(dl.size);
            t.bytes_completed = dl.offset;
            if dl.offset >= dl.size && dl.size > 0 {
                t.state = TransferState::Completed;
                if t.completed_at.is_none() {
                    t.completed_at = Some(now);
                }
            } else if dl.offset > 0 {
                t.state = TransferState::Downloading;
            }
            Reconciled::FromStatus
        },
        None => {
            let live = match t.state {
                TransferState::Completed | TransferState::Cancelled | TransferState::Failed => false,
                _ => true,
            };
            if live {
                if let Some(e) = t.bytes_total {
                    if e > 0 && disk_len == Some(e) {
                        t.bytes_completed = e;
                        t.state = TransferState::Completed;
                        if t.completed_at.is_none() {
                            t.completed_at = Some(now);
                        }
                        return Reconciled::CompletedOnDisk;
                    }
                }
            }
            Reconciled::Unchanged
        },
    }
}

/// Once found in a prefix, the first matching entry stays the first.
proof fn lemma_status_prefix(st: Seq<DownloadStatus>, i: int, user: Seq<char>, file: Seq<char>)
    requires
        0 <= i <= st.len(),
        status_index(st.take(i), user, file) is Some || i == st.len(),
    ensures
        status_index(st, user, file) == status_index(st.take(i), user, file),
    decreases st.len() - i,
{
    if i == st.len() {
        assert(st.take(i) =~= st);
    } else {
        assert(st.drop_last().take(i) =~= st.take(i));
        lemma_status_prefix(st.drop_last(), i, user, file);
    }
}

/// Reconciling is idempotent: a second reconcile with the same status,
/// disk size and time changes nothing more.
pub proof fn law_reconcile_idempotent(t: PeerTransfer, st: Seq<DownloadStatus>, disk_len: Option<u64>, now: i64)
    ensures
        reconciled(reconciled(t, st, disk_len, now).0, st, disk_len, now).0 == reconciled(t, st, disk_len, now).0,
{
}

/// A transfer a refusal can fail: one still queued or downloading.
pub open spec fn refusable(s: TransferState) -> bool {
    s == TransferState::Queued || s == TransferState::Downloading
}

/// A refusal `(username, filename)` names the transfer: the same peer, and
/// the same remote path up to separators.
pub open spec fn refused_by(t: PeerTransfer, f: (String, String)) -> bool {
    &&& t.username matches Some(u) && u@ == f.0@
    &&& t.filename matches Some(p) && normalized(p@) == normalized(f.1@)
}

/// Some refusal names the transfer.
pub open spec fn any_refusal(t: PeerTransfer, fs: Seq<(String, String)>) -> bool {
    exists|k: int| 0 <= k < fs.len() && refused_by(t, #[trigger] fs[k])
}

/// The transfer after the refusals: a live one that some refusal names is
/// failed with the refusal as its error; any other is left as it was.
pub open spec fn refusal_applied(before: PeerTransfer, after: PeerTransfer, fs: Seq<(String, String)>) -> bool {
    if refusable(before.state) && any_refusal(before, fs) {
        &&& after.state == TransferState::Failed
        &&& after.error matches Some(e) && e@ == "download refused by peer"@
        &&& after == PeerTransfer { state: after.state, error: after.error, ..before }
    } else {
        after == before
    }
}

/// The number of transfers among the first `n` that the refusals fail.
pub open spec fn refused_count(ts: Seq<PeerTransfer>, fs: Seq<(String, String)>, n: int) -> int
    decreases n,
{
    if n <= 0 {
        0
    } else {
        refused_count(ts, fs, n - 1) + if refusable(ts[n - 1].state) && any_refusal(ts[n - 1], fs) {
            1int
        } else {
            0
        }
    }
}

/// Fails the live transfers that a drained peer refusal names, returning
/// how many it failed.
pub fn apply_failed_transfers(transfers: &mut Vec<PeerTransfer>, failures: &Vec<(String, String)>) -> (r:
    usize)
    ensures
        final(transfers)@.len() == old(transfers)@.len(),
        forall|i: int|
            0 <= i < old(transfers)@.len() ==> refusal_applied(
                #[trigger] old(transfers)@[i],
                final(transfers)@[i],
                failures@,
            ),
        r == refused_count(old(transfers)@, failures@, old(transfers)@.len() as int),
{
    let ghost old_t = transfers@;
    let mut marked: usize = 0;
    let mut i: usize = 0;
    while i < transfers.len()
        invariant
            i <= transfers@.len(),
            transfers@.len() == old_t.len(),
            forall|j: int| 0 <= j < i ==> refusal_applied(#[trigger] old_t[j], transfers@[j], failures@),
            forall|j: int| i <= j < transfers@.len() ==> #[trigger] transfers@[j] == old_t[j],
            marked == refused_count(old_t, failures@, i as int),
            marked <= i,
        decreases transfers.len() - i,
    {
        let live = match transfers[i].state {
            TransferState::Queued | TransferState::Downloading => true,
            _ => false,
        };
        if live {
            let mut hit = false;
            let mut k: usize = 0;
            while k < failures.len() && !hit
                invariant
                    k <= failures@.len(),
                    i < transfers@.len(),
                    transfers@[i as int] == old_t[i as int],
                    hit ==> any_refusal(old_t[i as int], failures@),
                    !hit ==> forall|q: int| 0 <= q < k ==> !refused_by(old_t[i as int], #[trigger] failures@[q]),
                decreases failures.len() - k,
            {
                let f = &failures[k];
                let user_ok = match &transfers[i].username {
                    Some(u) => {
                        let a = chars_of(u.as_str());
                        let b = chars_of(f.0.as_str());
                        crate::text::chars_eq(a.as_slice(), b.as_slice())
                    },
                    None => false,
                };
                let file_ok = match &transfers[i].filename {
                    Some(p) => {
                        let a = normalize_separators(p.as_str());
                        let b = normalize_separators(f.1.as_str());
                        let ac = chars_of(a.as_str());
                        let bc = chars_of(b.as_str());
                        crate::text::chars_eq(ac.as_slice(), bc.as_slice())
                    },
                    None => false,
                };
                if user_ok && file_ok {
                    hit = true;
                    assert(refused_by(old_t[i as int], failures@[k as int]));
                }
                k = k + 1;
            }
            if hit {
                let mut t = transfers[i].clone_transfer();
                t.state = TransferState::Failed;
                let m = chars_of("download refused by peer");
                t.error = Some(string_of(m.as_slice()));
                transfers.set(i, t);
                marked = marked + 1;
            }
        }
        i = i + 1;
    }
    marked
}

impl PeerTransfer {
    /// A field-by-field copy.
    pub fn clone_transfer(&self) -> (c: PeerTransfer)
        ensures
            c == *self,
    {
        PeerTransfer {
            state: self.state,
            bytes_total: self.bytes_total,
            bytes_completed: self.bytes_completed,
            destination: self.destination.clone(),
            username: match &self.username {
                Some(u) => Some(u.clone()),
                None => None,
            },
            filename: match &self.filename {
                Some(f) => Some(f.clone()),
                None => None,
            },
            delivered: self.delivered,
            completed_at: self.completed_at,
            error: match &self.error {
                Some(e) => Some(e.clone()),
                None => None,
            },
        }
    }
}

/// A finished download to deliver: the file name it has in the download
/// directory and in the destination, and its expected size.
pub struct DeliveryPlan {
    pub basename: String,
    pub expected: u64,
}

/// Whether and what to deliver: not yet delivered, a non-zero expected
/// size, a remote path and a destination, a destination other than the
/// download directory (up to separators), and a file name.
pub open spec fn delivery_of(t: PeerTransfer, download_dir: Seq<char>) -> Option<(Seq<char>, u64)> {
    let f = meta_text(t.filename);
    if t.delivered {
        None
    } else if !(t.bytes_total matches Some(e) && e > 0) {
        None
    } else if f.len() == 0 || t.destination@.len() == 0 {
        None
    } else if normalized(t.destination@) == normalized(download_dir) {
        None
    } else if peer_base(f).len() == 0 {
        None
    } else {
        Some((peer_base(f), t.bytes_total->0))
    }
}

/// The delivery a finished download needs, if any.
pub fn delivery_plan(t: &PeerTransfer, download_dir: &str) -> (r: Option<DeliveryPlan>)
    ensures
        match r {
            Some(p) => delivery_of(*t, download_dir@) == Some((p.basename@, p.expected)),
            None => delivery_of(*t, download_dir@) is None,
        },
{
    if t.delivered {
        return None;
    }
    let expected = match t.bytes_total {
        Some(e) => if e > 0 {
            e
        } else {
            return None;
        },
        None => {
            return None;
        },
    };
    let f = opt_text(&t.filename);
    let d = chars_of(t.destination.as_str());
    if f.len() == 0 || d.len() == 0 {
        return None;
    }
    let nd = normalize_separators(t.destination.as_str());
    let nl = normalize_separators(download_dir);
    let ndc = chars_of(nd.as_str());
    let nlc = chars_of(nl.as_str());
    if crate::text::chars_eq(ndc.as_slice(), nlc.as_slice()) {
        return None;
    }
    let fs = string_of(f.as_slice());
    let base = peer_basename(fs.as_str());
    let bc = chars_of(base.as_str());
    if bc.len() == 0 {
        return None;
    }
    Some(DeliveryPlan { basename: base, expected })
}

/// The next step of a delivery, from the sizes found on disk.
#[derive(Debug, Clone, Copy, PartialEq, Eq)]
pub enum DeliveryStep {
    /// The destination already holds the whole file: record it delivered.
    AlreadyDelivered,
    /// The download is not complete, or a different file is in the way.
    Leave,
    /// Move the downloaded file into the destination.
    Move,
}

/// The step for the sizes of the downloaded file (`src_len`) and of the
/// destination file (`dst_len`), and whether the destination path exists.
pub open spec fn delivery_step_of(expected: u64, src_len: Option<u64>, dst_len: Option<u64>, dst_exists: bool) -> DeliveryStep {
    if dst_len == Some(expected) {
        DeliveryStep::AlreadyDelivered
    } else if src_len != Some(expected) || dst_exists {
        DeliveryStep::Leave
    } else {
        DeliveryStep::Move
    }
}

pub fn delivery_step(expected: u64, src_len: Option<u64>, dst_len: Option<u64>, dst_exists: bool) -> (r:
    DeliveryStep)
    ensures
        r == delivery_step_of(expected, src_len, dst_len, dst_exists),
{
    if dst_len == Some(expected) {
        DeliveryStep::AlreadyDelivered
    } else if src_len != Some(expected) || dst_exists {
        DeliveryStep::Leave
    } else {
        DeliveryStep::Move
    }
}

} // verus!

verus! {

/// Whether a delivery run records the transfer delivered: the plan, then
/// the step for the sizes found on disk, and for a move whether the move
/// succeeded.
pub open spec fn delivers(
    t: PeerTransfer,
    download_dir: Seq<char>,
    src_len: Option<u64>,
    dst_len: Option<u64>,
    dst_exists: bool,
    move_ok: bool,
) -> bool {
    match delivery_of(t, download_dir) {
        None => false,
        Some((_, n)) => match delivery_step_of(n, src_len, dst_len, dst_exists) {
            DeliveryStep::AlreadyDelivered => true,
            DeliveryStep::Leave => false,
            DeliveryStep::Move => move_ok,
        },
    }
}

/// A delivery as a whole: nothing is delivered into the download directory
/// itself, nothing when neither the download nor the destination holds the
/// whole file, and a transfer is recorded delivered only when the
/// destination holds exactly the expected bytes (already, or by moving the
/// whole download onto a free destination).
pub proof fn law_delivery(
    t: PeerTransfer,
    download_dir: Seq<char>,
    src_len: Option<u64>,
    dst_len: Option<u64>,
    dst_exists: bool,
    move_ok: bool,
)
    ensures
        normalized(t.destination@) == normalized(download_dir) ==> !delivers(
            t,
            download_dir,
            src_len,
            dst_len,
            dst_exists,
            move_ok,
        ),
        t.delivered ==> !delivers(t, download_dir, src_len, dst_len, dst_exists, move_ok),
        (t.bytes_total matches Some(n) && src_len != Some(n) && dst_len != Some(n)) ==> !delivers(
            t,
            download_dir,
            src_len,
            dst_len,
            dst_exists,
            move_ok,
        ),
        delivers(t, download_dir, src_len, dst_len, dst_exists, move_ok) ==> (t.bytes_total matches Some(n)
            && n > 0 && (dst_len == Some(n) || (src_len == Some(n) && !dst_exists && move_ok))),
{
}

/// The failures the Soulseek client reports.
#[derive(Debug, Clone)]
pub enum SoulseekError {
    /// The network or the server cannot be reached.
    Unavailable(String),
    /// The server rejected the login.
    AuthenticationFailed,
    /// The request was invalid.
    Invalid(String),
    /// A local I/O failure.
    Io(String),
    /// A failure inside the client.
    Internal(String),
}

/// The shared error a Soulseek client failure becomes, so the rest of the
/// application only sees the shared vocabulary.
pub open spec fn mapped_error(e: SoulseekError) -> Error {
    match e {
        SoulseekError::Unavailable(_) => Error::BackendUnavailable,
        SoulseekError::AuthenticationFailed => Error::AuthenticationFailed,
        SoulseekError::Invalid(m) => Error::Backend(m),
        SoulseekError::Io(m) => Error::Backend(m),
        SoulseekError::Internal(m) => Error::Backend(m),
    }
}

/// Converts a Soulseek client failure into the shared error.
pub fn map_error(e: SoulseekError) -> (r: Error)
    ensures
        r == mapped_error(e),
{
    match e {
        SoulseekError::Unavailable(_) => Error::BackendUnavailable,
        SoulseekError::AuthenticationFailed => Error::AuthenticationFailed,
        SoulseekError::Invalid(m) => Error::Backend(m),
        SoulseekError::Io(m) => Error::Backend(m),
        SoulseekError::Internal(m) => Error::Backend(m),
    }
}

} // verus!
