//! The in-memory reference engine: it validates sources, reads `.torrent`
//! metainfo for names, sizes and the private flag, keeps the normalized
//! state of each transfer, and simulates progress at a fixed rate. Magnet
//! and URL sources get a synthetic single-file payload, marked simulated.
//!
//! Reading a `.torrent` file is outside work: [`MemoryEngine::begin_add`]
//! validates a request and says which file to read, and
//! [`MemoryEngine::finish_add`] takes the file's contents. Times are Unix
//! milliseconds.

use vstd::prelude::*;
use vstd::string::StringExecFns;
use crate::common::{AddTransferRequest, Backend, TransferFile, TransferState, backend_name, transfer_state_name};
use crate::ids::TransferId;
use crate::text::{chars_of, string_of};
use crate::torrent::bencode::{TorrentInfo, torrent_info, torrent_info_view, sp_torrent_info, files_view};
use crate::torrent::config::TorrentConfig;
use crate::torrent::error::BackendError;
use crate::torrent::normalize::{apply_file_selection, apply_selection, destination_spec, resolve_destination};
use crate::torrent::source::{SourceKind, fallback_name, fallback_name_spec, parse_source, source_class};

verus! {

/// Rate used when the configuration sets no download rate limit.
pub const DEFAULT_SIMULATED_RATE_BPS: u64 = 524288;

/// Synthetic payload size for magnet and URL sources.
pub const SIMULATED_PAYLOAD_BYTES: u64 = 104857600;

/// Where a simulated download resumed: when, from how many bytes, at what
/// rate (bytes per second).
#[derive(Debug, Clone, Copy, PartialEq, Eq, Structural)]
pub struct ResumePoint {
    pub started_ms: i64,
    pub bytes_at_start: u128,
    pub rate_bps: u64,
}

/// The engine's namespaced metadata of a transfer.
#[derive(Debug, Clone)]
pub struct EngineMeta {
    pub info_hash: Option<String>,
    pub private: bool,
    pub simulated: bool,
    pub data_deleted: bool,
}

/// Everything the engine knows about one transfer.
#[derive(Debug, Clone)]
pub struct MemoryEntry {
    pub id: TransferId,
    pub source: String,
    pub display_name: String,
    pub destination: String,
    pub state: TransferState,
    pub files: Vec<TransferFile>,
    pub created_at: i64,
    pub started_at: Option<i64>,
    pub completed_at: Option<i64>,
    pub error: Option<String>,
    pub meta: EngineMeta,
    /// The caller's metadata, kept beside the engine's own.
    pub caller_meta: Vec<(String, String)>,
    pub resume: Option<ResumePoint>,
}

/// The total size of the selected files.
pub open spec fn selected_total(files: Seq<TransferFile>) -> int
    decreases files.len(),
{
    if files.len() == 0 {
        0
    } else {
        selected_total(files.drop_last()) + if files.last().selected { files.last().size as int } else { 0 }
    }
}

/// The bytes completed of the selected files.
pub open spec fn selected_done(files: Seq<TransferFile>) -> int
    decreases files.len(),
{
    if files.len() == 0 {
        0
    } else {
        selected_done(files.drop_last()) + if files.last().selected {
            files.last().bytes_completed as int
        } else {
            0
        }
    }
}

proof fn lemma_selected_bounds(files: Seq<TransferFile>)
    ensures
        0 <= selected_total(files) <= files.len() * (u64::MAX as int),
        0 <= selected_done(files) <= files.len() * (u64::MAX as int),
    decreases files.len(),
{
    if files.len() > 0 {
        lemma_selected_bounds(files.drop_last());
    }
}

/// The total size of the selected files.
pub fn selected_bytes(files: &Vec<TransferFile>) -> (n: u128)
    ensures
        n == selected_total(files@),
{
    let mut n: u128 = 0;
    let mut i: usize = 0;
    while i < files.len()
        invariant
            i <= files@.len(),
            n == selected_total(files@.take(i as int)),
        decreases files.len() - i,
    {
        assert(files@.take(i + 1).drop_last() =~= files@.take(i as int));
        proof {
            lemma_selected_bounds(files@.take(i as int));
            assert(i * (u64::MAX as int) <= (usize::MAX as int) * (u64::MAX as int)) by (nonlinear_arith)
                requires i <= usize::MAX;
        }
        if files[i].selected {
            n = n + files[i].size as u128;
        }
        i = i + 1;
    }
    assert(files@.take(files@.len() as int) =~= files@);
    n
}

/// The bytes completed of the selected files.
pub fn selected_completed(files: &Vec<TransferFile>) -> (n: u128)
    ensures
        n == selected_done(files@),
{
    let mut n: u128 = 0;
    let mut i: usize = 0;
    while i < files.len()
        invariant
            i <= files@.len(),
            n == selected_done(files@.take(i as int)),
        decreases files.len() - i,
    {
        assert(files@.take(i + 1).drop_last() =~= files@.take(i as int));
        proof {
            lemma_selected_bounds(files@.take(i as int));
            assert(i * (u64::MAX as int) <= (usize::MAX as int) * (u64::MAX as int)) by (nonlinear_arith)
                requires i <= usize::MAX;
        }
        if files[i].selected {
            n = n + files[i].bytes_completed as u128;
        }
        i = i + 1;
    }
    assert(files@.take(files@.len() as int) =~= files@);
    n
}

/// A file of a parsed torrent: its position as index, its path and size,
/// selected, nothing downloaded.
pub open spec fn metainfo_file(f: TransferFile, i: int, path: Seq<char>, size: int) -> bool {
    &&& f.index@ == crate::text::decimal(i as nat)
    &&& f.path@ == path
    &&& f.size == size
    &&& f.selected
    &&& f.bytes_completed == 0
}

/// Build the file list for a parsed `.torrent`.
pub fn files_from_metainfo(info: &TorrentInfo) -> (r: Vec<TransferFile>)
    ensures
        r@.len() == info.files@.len(),
        forall|i: int|
            0 <= i < r@.len() ==> metainfo_file(#[trigger] r@[i], i, info.files@[i].0@, info.files@[i].1 as int),
{
    let mut r: Vec<TransferFile> = Vec::new();
    let mut i: usize = 0;
    while i < info.files.len()
        invariant
            i <= info.files@.len(),
            r@.len() == i,
            forall|k: int|
                0 <= k < i ==> metainfo_file(#[trigger] r@[k], k, info.files@[k].0@, info.files@[k].1 as int),
        decreases info.files.len() - i,
    {
        let idx = crate::text::decimal_chars(i as u64);
        r.push(
            TransferFile {
                index: string_of(idx.as_slice()),
                path: info.files[i].0.clone(),
                size: info.files[i].1,
                selected: true,
                bytes_completed: 0,
            },
        );
        i = i + 1;
    }
    r
}

/// The synthetic payload of a source with unknown metainfo: one selected
/// file `<name>.bin` of the simulated size.
pub open spec fn synthetic_file(f: TransferFile, name: Seq<char>) -> bool {
    &&& f.index@ == "0"@
    &&& f.path@ == name + ".bin"@
    &&& f.size == SIMULATED_PAYLOAD_BYTES
    &&& f.selected
    &&& f.bytes_completed == 0
}

/// Build the synthetic file list for sources with unknown metainfo.
pub fn synthetic_files(name: &str) -> (r: Vec<TransferFile>)
    ensures
        r@.len() == 1,
        synthetic_file(r@[0], name@),
{
    let mut p = chars_of(name);
    let ext = chars_of(".bin");
    crate::text::push_all(&mut p, ext.as_slice());
    let mut r: Vec<TransferFile> = Vec::new();
    r.push(
        TransferFile {
            index: String::from_str("0"),
            path: string_of(p.as_slice()),
            size: SIMULATED_PAYLOAD_BYTES,
            selected: true,
            bytes_completed: 0,
        },
    );
    r
}

} // verus!

verus! {

/// The position of the entry with this identifier, or -1.
pub open spec fn index_of(entries: Seq<MemoryEntry>, id: TransferId) -> int
    decreases entries.len(),
{
    if entries.len() == 0 {
        -1
    } else if entries.last().id == id {
        entries.len() - 1
    } else {
        index_of(entries.drop_last(), id)
    }
}

pub proof fn lemma_index_of(entries: Seq<MemoryEntry>, id: TransferId)
    ensures
        -1 <= index_of(entries, id) < entries.len(),
        index_of(entries, id) >= 0 ==> entries[index_of(entries, id)].id == id,
        index_of(entries, id) < 0 ==> forall|j: int| 0 <= j < entries.len() ==> #[trigger] entries[j].id != id,
    decreases entries.len(),
{
    if entries.len() > 0 && entries.last().id != id {
        lemma_index_of(entries.drop_last(), id);
        assert forall|j: int| 0 <= j < entries.len() && index_of(entries, id) < 0 implies #[trigger] entries[j].id
            != id by {
            if j < entries.len() - 1 {
                assert(entries[j] == entries.drop_last()[j]);
            }
        }
    }
}

/// No two entries share an identifier.
pub open spec fn distinct_ids(e: Seq<MemoryEntry>) -> bool {
    forall|a: int, b: int| 0 <= a < b < e.len() ==> #[trigger] e[a].id != #[trigger] e[b].id
}

/// The in-memory reference engine.
pub struct MemoryEngine {
    config: TorrentConfig,
    entries: Vec<MemoryEntry>,
}

/// What validating an add request found: the source's kind and the
/// destination.
#[derive(Debug, Clone)]
pub struct AddStart {
    pub kind: SourceKind,
    pub destination: String,
}

/// The entry paused.
pub open spec fn paused(e: MemoryEntry) -> MemoryEntry {
    MemoryEntry { state: TransferState::Paused, resume: None, ..e }
}

/// The entry cancelled, its files emptied when the data is deleted.
pub open spec fn cancelled(e: MemoryEntry, delete_data: bool, files: Seq<TransferFile>) -> bool {
    &&& files.len() == e.files@.len()
    &&& forall|j: int|
        0 <= j < files.len() ==> #[trigger] files[j] == if delete_data {
            TransferFile { bytes_completed: 0, ..e.files@[j] }
        } else {
            e.files@[j]
        }
}

impl MemoryEngine {
    #[verifier::type_invariant]
    spec fn inv(&self) -> bool {
        distinct_ids(self.entries@)
    }

    /// The engine's transfers.
    pub closed spec fn entries(&self) -> Seq<MemoryEntry> {
        self.entries@
    }

    /// The engine's configuration.
    pub closed spec fn config(&self) -> TorrentConfig {
        self.config
    }

    /// An engine with no transfers.
    pub fn new(config: TorrentConfig) -> (e: Self)
        ensures
            e.entries().len() == 0,
            e.config() == config,
    {
        MemoryEngine { config, entries: Vec::new() }
    }

    /// Short engine identifier.
    pub fn engine_name(&self) -> (s: &'static str)
        ensures
            s@ == "memory"@,
    {
        "memory"
    }

    /// The simulated rate: the configured download limit, or the default.
    pub fn rate_bps(&self) -> (r: u64)
        ensures
            r == match self.config().download_rate_limit {
                Some(l) => l,
                None => DEFAULT_SIMULATED_RATE_BPS,
            },
    {
        match self.config.download_rate_limit {
            Some(l) => l,
            None => DEFAULT_SIMULATED_RATE_BPS,
        }
    }

    fn position(&self, id: &TransferId) -> (r: Option<usize>)
        ensures
            match r {
                Some(i) => i as int == index_of(self.entries(), *id) && i < self.entries().len(),
                None => index_of(self.entries(), *id) < 0,
            },
    {
        proof {
            lemma_index_of(self.entries@, *id);
        }
        let mut n = self.entries.len();
        assert(self.entries@.take(n as int) =~= self.entries@);
        while n > 0
            invariant
                n <= self.entries@.len(),
                index_of(self.entries@, *id) == index_of(self.entries@.take(n as int), *id),
            decreases n,
        {
            assert(self.entries@.take(n as int).drop_last() =~= self.entries@.take(n - 1));
            if self.entries[n - 1].id.0 == id.0 {
                return Some(n - 1);
            }
            n = n - 1;
        }
        None
    }

    /// Every transfer the engine knows, in the order added.
    pub fn list(&self) -> (r: &Vec<MemoryEntry>)
        ensures
            r@ == self.entries(),
    {
        &self.entries
    }

    /// The transfer with this identifier.
    pub fn get(&self, id: &TransferId) -> (r: Result<&MemoryEntry, BackendError>)
        ensures
            match r {
                Ok(e) => index_of(self.entries(), *id) >= 0 && *e == self.entries()[index_of(self.entries(), *id)],
                Err(e) => index_of(self.entries(), *id) < 0 && e is TransferNotFound,
            },
    {
        match self.position(id) {
            Some(i) => Ok(&self.entries[i]),
            None => Err(BackendError::TransferNotFound),
        }
    }

    /// Pause a downloading transfer.
    pub fn pause(&mut self, id: &TransferId) -> (r: Result<(), BackendError>)
        ensures
            ({
                let k = index_of(old(self).entries(), *id);
                if k < 0 {
                    r matches Err(BackendError::TransferNotFound) && final(self).entries() == old(self).entries()
                } else if old(self).entries()[k].state != TransferState::Downloading {
                    (r matches Err(BackendError::InvalidState(m)) && m@ == "cannot pause "@ + transfer_state_name(
                        old(self).entries()[k].state,
                    )) && final(self).entries() == old(self).entries()
                } else {
                    r is Ok && final(self).entries() == old(self).entries().update(k, paused(old(self).entries()[k]))
                }
            }),
            final(self).config() == old(self).config(),
    {
        proof {
            use_type_invariant(&*self);
        }
        let i = match self.position(id) {
            Some(i) => i,
            None => {
                return Err(BackendError::TransferNotFound);
            },
        };
        if self.entries[i].state != TransferState::Downloading {
            let mut m = chars_of("cannot pause ");
            let st = chars_of(self.entries[i].state.as_str());
            crate::text::push_all(&mut m, st.as_slice());
            return Err(BackendError::InvalidState(string_of(m.as_slice())));
        }
        let mut e: Vec<MemoryEntry> = Vec::new();
        std::mem::swap(&mut e, &mut self.entries);
        let mut entry = e.remove(i);
        entry.state = TransferState::Paused;
        entry.resume = None;
        e.insert(i, entry);
        proof {
            assert forall|a: int, b: int| 0 <= a < b < e@.len() implies #[trigger] e@[a].id != #[trigger] e@[b].id by {
                assert(e@[a].id == old(self).entries@[a].id);
                assert(e@[b].id == old(self).entries@[b].id);
            }
        }
        self.entries = e;
        assert(self.entries@ =~= old(self).entries@.update(i as int, paused(old(self).entries@[i as int])));
        Ok(())
    }
}

} // verus!

verus! {

/// The entry resumed at `now` with this rate.
pub open spec fn resumed(e: MemoryEntry, now: i64, rate: u64) -> MemoryEntry {
    MemoryEntry {
        state: TransferState::Downloading,
        started_at: if e.started_at is None { Some(now) } else { e.started_at },
        resume: Some(
            ResumePoint { started_ms: now, bytes_at_start: selected_done(e.files@) as u128, rate_bps: rate },
        ),
        ..e
    }
}

/// What a cancel of `id` does to the engine's transfers: an unknown
/// transfer is not found, a cancelled one stays as it is, a ready or
/// orphaned one cannot be cancelled, and any other is cancelled in place
/// (its files' progress emptied when the data is deleted).
pub open spec fn cancel_post(
    before: Seq<MemoryEntry>,
    id: TransferId,
    delete_data: bool,
    r: Result<(), BackendError>,
    after: Seq<MemoryEntry>,
) -> bool {
    let k = index_of(before, id);
    if k < 0 {
        r matches Err(BackendError::TransferNotFound) && after == before
    } else {
        let o = before[k];
        if o.state == TransferState::Cancelled {
            r is Ok && after == before
        } else if o.state == TransferState::Ready || o.state == TransferState::Orphaned {
            (r matches Err(BackendError::InvalidState(m)) && m@ == "cannot cancel "@
                + transfer_state_name(o.state)) && after == before
        } else {
            let n = after[k];
            &&& r is Ok
            &&& after.len() == before.len()
            &&& forall|j: int|
                0 <= j < before.len() && j != k ==> #[trigger] after[j]
                    == before[j]
            &&& n.state == TransferState::Cancelled
            &&& n.resume is None
            &&& cancelled(o, delete_data, n.files@)
            &&& n.meta.data_deleted == (o.meta.data_deleted || delete_data)
            &&& n.id == o.id && n.source == o.source && n.display_name == o.display_name
            &&& n.destination == o.destination && n.created_at == o.created_at
            &&& n.started_at == o.started_at && n.completed_at == o.completed_at
            &&& n.error == o.error && n.meta.info_hash == o.meta.info_hash
            &&& n.meta.private == o.meta.private && n.meta.simulated == o.meta.simulated
        }
    }
}

impl MemoryEngine {
    /// Resume a paused transfer at `now`.
    pub fn resume(&mut self, id: &TransferId, now: i64) -> (r: Result<(), BackendError>)
        ensures
            ({
                let k = index_of(old(self).entries(), *id);
                let rate = match old(self).config().download_rate_limit {
                    Some(l) => l,
                    None => DEFAULT_SIMULATED_RATE_BPS,
                };
                if k < 0 {
                    r matches Err(BackendError::TransferNotFound) && final(self).entries() == old(self).entries()
                } else if old(self).entries()[k].state != TransferState::Paused {
                    (r matches Err(BackendError::InvalidState(m)) && m@ == "cannot resume "@ + transfer_state_name(
                        old(self).entries()[k].state,
                    )) && final(self).entries() == old(self).entries()
                } else {
                    r is Ok && final(self).entries() == old(self).entries().update(
                        k,
                        resumed(old(self).entries()[k], now, rate),
                    )
                }
            }),
            final(self).config() == old(self).config(),
    {
        proof {
            use_type_invariant(&*self);
        }
        let i = match self.position(id) {
            Some(i) => i,
            None => {
                return Err(BackendError::TransferNotFound);
            },
        };
        if self.entries[i].state != TransferState::Paused {
            let mut m = chars_of("cannot resume ");
            let st = chars_of(self.entries[i].state.as_str());
            crate::text::push_all(&mut m, st.as_slice());
            return Err(BackendError::InvalidState(string_of(m.as_slice())));
        }
        let rate = self.rate_bps();
        let mut e: Vec<MemoryEntry> = Vec::new();
        std::mem::swap(&mut e, &mut self.entries);
        let mut entry = e.remove(i);
        let bytes = selected_completed(&entry.files);
        if entry.started_at.is_none() {
            entry.started_at = Some(now);
        }
        entry.state = TransferState::Downloading;
        entry.resume = Some(ResumePoint { started_ms: now, bytes_at_start: bytes, rate_bps: rate });
        e.insert(i, entry);
        proof {
            assert forall|a: int, b: int| 0 <= a < b < e@.len() implies #[trigger] e@[a].id != #[trigger] e@[b].id by {
                assert(e@[a].id == old(self).entries@[a].id);
                assert(e@[b].id == old(self).entries@[b].id);
            }
        }
        self.entries = e;
        assert(self.entries@ =~= old(self).entries@.update(i as int, resumed(old(self).entries@[i as int], now, rate)));
        Ok(())
    }

    /// Cancel a transfer; a cancelled one stays cancelled, and a ready or
    /// orphaned one cannot be cancelled. Deleting the data empties the
    /// recorded progress of every file and marks the metadata.
    pub fn cancel(&mut self, id: &TransferId, delete_data: bool) -> (r: Result<(), BackendError>)
        ensures
            cancel_post(old(self).entries(), *id, delete_data, r, final(self).entries()),
            final(self).config() == old(self).config(),
    {
        proof {
            use_type_invariant(&*self);
        }
        let i = match self.position(id) {
            Some(i) => i,
            None => {
                return Err(BackendError::TransferNotFound);
            },
        };
        let st = self.entries[i].state;
        if st == TransferState::Cancelled {
            return Ok(());
        }
        if st == TransferState::Ready || st == TransferState::Orphaned {
            let mut m = chars_of("cannot cancel ");
            let sc = chars_of(st.as_str());
            crate::text::push_all(&mut m, sc.as_slice());
            return Err(BackendError::InvalidState(string_of(m.as_slice())));
        }
        let mut e: Vec<MemoryEntry> = Vec::new();
        std::mem::swap(&mut e, &mut self.entries);
        let mut entry = e.remove(i);
        let ghost o = entry;
        entry.state = TransferState::Cancelled;
        entry.resume = None;
        if delete_data {
            let mut files: Vec<TransferFile> = Vec::new();
            std::mem::swap(&mut files, &mut entry.files);
            let ghost f0 = files@;
            let mut j: usize = 0;
            while j < files.len()
                invariant
                    j <= files@.len(),
                    files@.len() == f0.len(),
                    forall|x: int| 0 <= x < j ==> #[trigger] files@[x] == (TransferFile { bytes_completed: 0, ..f0[x] }),
                    forall|x: int| j <= x < files@.len() ==> #[trigger] files@[x] == f0[x],
                decreases files.len() - j,
            {
                let f = TransferFile {
                    index: files[j].index.clone(),
                    path: files[j].path.clone(),
                    size: files[j].size,
                    selected: files[j].selected,
                    bytes_completed: 0,
                };
                files.set(j, f);
                j = j + 1;
            }
            entry.files = files;
            entry.meta.data_deleted = true;
        }
        e.insert(i, entry);
        proof {
            assert forall|a: int, b: int| 0 <= a < b < e@.len() implies #[trigger] e@[a].id != #[trigger] e@[b].id by {
                assert(e@[a].id == old(self).entries@[a].id);
                assert(e@[b].id == old(self).entries@[b].id);
            }
        }
        self.entries = e;
        Ok(())
    }

    /// Remove the transfer record without touching downloaded data.
    pub fn forget(&mut self, id: &TransferId) -> (r: Result<(), BackendError>)
        ensures
            r is Ok,
            ({
                let k = index_of(old(self).entries(), *id);
                if k < 0 {
                    final(self).entries() == old(self).entries()
                } else {
                    final(self).entries() == old(self).entries().remove(k)
                }
            }),
            final(self).config() == old(self).config(),
    {
        proof {
            use_type_invariant(&*self);
        }
        if let Some(i) = self.position(id) {
            let mut e: Vec<MemoryEntry> = Vec::new();
            std::mem::swap(&mut e, &mut self.entries);
            let ghost e0 = e@;
            e.remove(i);
            proof {
                assert forall|a: int, b: int| 0 <= a < b < e@.len() implies #[trigger] e@[a].id != #[trigger] e@[b].id by {
                    let a0 = if a < i { a } else { a + 1 };
                    let b0 = if b < i { b } else { b + 1 };
                    assert(e@[a] == e0[a0]);
                    assert(e@[b] == e0[b0]);
                }
            }
            self.entries = e;
        }
        Ok(())
    }
}

} // verus!

verus! {

/// The entries after forgetting a transfer.
pub open spec fn forgotten(entries: Seq<MemoryEntry>, id: TransferId) -> Seq<MemoryEntry> {
    let k = index_of(entries, id);
    if k < 0 {
        entries
    } else {
        entries.remove(k)
    }
}

/// A forgotten transfer is gone for good: with identifiers unique, no entry
/// carries its identifier any more, so a later lookup does not find it and
/// the sync cannot re-import it.
pub proof fn law_forget_removes(entries: Seq<MemoryEntry>, id: TransferId)
    requires
        distinct_ids(entries),
    ensures
        index_of(forgotten(entries, id), id) < 0,
{
    lemma_index_of(entries, id);
    let k = index_of(entries, id);
    let f = forgotten(entries, id);
    lemma_index_of(f, id);
    if k >= 0 {
        assert forall|j: int| 0 <= j < f.len() implies #[trigger] f[j].id != id by {
            let j0 = if j < k { j } else { j + 1 };
            assert(f[j] == entries[j0]);
            if j0 != k {
                if j0 < k {
                    assert(entries[j0].id != entries[k].id);
                } else {
                    assert(entries[k].id != entries[j0].id);
                }
            }
        }
    }
}

/// Entries with the same identifiers, position by position, find a
/// transfer at the same position.
pub proof fn lemma_index_of_same_ids(a: Seq<MemoryEntry>, b: Seq<MemoryEntry>, id: TransferId)
    requires
        a.len() == b.len(),
        forall|j: int| 0 <= j < a.len() ==> #[trigger] a[j].id == b[j].id,
    ensures
        index_of(a, id) == index_of(b, id),
    decreases a.len(),
{
    if a.len() > 0 {
        assert(a.last().id == b.last().id);
        let a1 = a.drop_last();
        let b1 = b.drop_last();
        assert forall|j: int| 0 <= j < a1.len() implies #[trigger] a1[j].id == b1[j].id by {
            assert(a1[j] == a[j]);
            assert(b1[j] == b[j]);
        }
        lemma_index_of_same_ids(a1, b1, id);
    }
}

/// Cancelling is idempotent: once a cancel of a transfer succeeded,
/// cancelling it again succeeds and changes nothing, whether or not either
/// cancel asked to delete the data.
pub proof fn law_cancel_idempotent(
    e0: Seq<MemoryEntry>,
    e1: Seq<MemoryEntry>,
    e2: Seq<MemoryEntry>,
    id: TransferId,
    d1: bool,
    d2: bool,
    r1: Result<(), BackendError>,
    r2: Result<(), BackendError>,
)
    requires
        cancel_post(e0, id, d1, r1, e1),
        r1 is Ok,
        cancel_post(e1, id, d2, r2, e2),
    ensures
        r2 is Ok,
        e2 == e1,
{
    let k = index_of(e0, id);
    lemma_index_of(e0, id);
    if e1 != e0 {
        assert forall|j: int| 0 <= j < e0.len() implies #[trigger] e0[j].id == e1[j].id by {
            if j != k {
                assert(e1[j] == e0[j]);
            }
        }
        lemma_index_of_same_ids(e0, e1, id);
    }
}

pub open spec fn opt_text(o: Option<String>) -> Option<Seq<char>> {
    match o {
        Some(s) => Some(s@),
        None => None,
    }
}

/// What validating an add request gives: an error for another backend, an
/// invalid source or a bad destination, else the source's kind and the
/// destination.
pub open spec fn begin_ok(
    request: AddTransferRequest,
    is_file: bool,
    root: String,
    r: Result<AddStart, BackendError>,
) -> bool {
    if request.backend != Backend::Torrent {
        r matches Err(BackendError::Unsupported(m)) && m@ == "unexpected backend: "@ + backend_name(
            request.backend,
        )
    } else if source_class(request.source@, is_file) is None {
        r matches Err(BackendError::InvalidSource)
    } else {
        match destination_spec(request.destination, root) {
            Err(e) => r == Err::<AddStart, BackendError>(e),
            Ok(d) => r matches Ok(s) && crate::torrent::source::parsed_kind(request.source@, is_file, s.kind)
                && s.destination == d,
        }
    }
}

/// The parts of a new entry that do not depend on its payload: the
/// request's source, the destination, the state the selected total gives,
/// the display name (the request's, else `parsed`, the name the payload
/// gives), and the creation time.
pub open spec fn fresh_entry(
    n: MemoryEntry,
    request: AddTransferRequest,
    start: AddStart,
    parsed: Seq<char>,
    id: TransferId,
    now: i64,
    rate: u64,
) -> bool {
    let total = selected_total(n.files@);
    &&& n.id == id
    &&& n.source == request.source
    &&& n.destination == start.destination
    &&& n.display_name@ == match request.display_name {
        Some(d) => d@,
        None => parsed,
    }
    &&& n.created_at == now
    &&& crate::completion::pair_views(n.caller_meta@) == crate::torrent::normalize::without_key(
        crate::completion::pair_views(request.metadata@),
        "torrent"@,
    )
    &&& n.completed_at is None
    &&& n.error is None
    &&& !n.meta.data_deleted
    &&& if total == 0 {
        n.state == TransferState::Queued && n.started_at is None && n.resume is None
    } else {
        n.state == TransferState::Downloading && n.started_at == Some(now) && n.resume == Some(
            ResumePoint { started_ms: now, bytes_at_start: 0, rate_bps: rate },
        )
    }
}

/// The selection the request makes.
pub open spec fn selection_of(request: AddTransferRequest) -> Option<Seq<crate::common::FileSelection>> {
    match request.file_selection {
        Some(v) => Some(v@),
        None => None,
    }
}

pub open spec fn selected(base: Seq<TransferFile>, request: AddTransferRequest) -> Seq<TransferFile> {
    match selection_of(request) {
        Some(s) => apply_selection(base, s),
        None => base,
    }
}

/// A new entry for a magnet or URL: the synthetic payload named after the
/// source, simulated, not private; a magnet's info hash is kept.
pub open spec fn simulated_entry(n: MemoryEntry, request: AddTransferRequest, start: AddStart) -> bool {
    let name = fallback_name_spec(start.kind);
    &&& exists|base: Seq<TransferFile>|
        base.len() == 1 && synthetic_file(#[trigger] base[0], name) && n.files@ == selected(base, request)
    &&& n.meta.simulated
    &&& !n.meta.private
    &&& opt_text(n.meta.info_hash) == match start.kind {
        SourceKind::Magnet { info_hash, .. } => opt_text(info_hash),
        _ => None,
    }
}

/// A new entry for a `.torrent` file with metainfo `t`: its files,
/// not simulated, private as the metainfo says.
pub open spec fn metainfo_entry(n: MemoryEntry, request: AddTransferRequest, t: crate::torrent::bencode::TorrentMeta) -> bool {
    &&& exists|base: Seq<TransferFile>|
        base.len() == t.files.len() && (forall|i: int|
            0 <= i < base.len() ==> metainfo_file(#[trigger] base[i], i, t.files[i].0, t.files[i].1))
            && n.files@ == selected(base, request)
    &&& !n.meta.simulated
    &&& n.meta.private == t.private
    &&& n.meta.info_hash is None
}

impl MemoryEngine {
    /// Validates an add request: the backend, the source (with whether it
    /// names an existing file) and the destination.
    pub fn begin_add(&self, request: &AddTransferRequest, source_is_file: bool) -> (r: Result<AddStart, BackendError>)
        ensures
            begin_ok(*request, source_is_file, self.config().download_root, r),
    {
        if request.backend != Backend::Torrent {
            let mut m = chars_of("unexpected backend: ");
            let b = chars_of(request.backend.as_str());
            crate::text::push_all(&mut m, b.as_slice());
            return Err(BackendError::Unsupported(string_of(m.as_slice())));
        }
        let kind = parse_source(request.source.as_str(), source_is_file)?;
        let destination = resolve_destination(request, &self.config)?;
        Ok(AddStart { kind, destination })
    }

    fn store(&mut self, entry: MemoryEntry)
        ensures
            ({
                let k = index_of(old(self).entries(), entry.id);
                final(self).entries() == if k < 0 {
                    old(self).entries().push(entry)
                } else {
                    old(self).entries().remove(k).push(entry)
                }
            }),
            final(self).config() == old(self).config(),
    {
        proof {
            use_type_invariant(&*self);
        }
        let pos = self.position(&entry.id);
        let mut e: Vec<MemoryEntry> = Vec::new();
        std::mem::swap(&mut e, &mut self.entries);
        let ghost e0 = e@;
        proof {
            lemma_index_of(e0, entry.id);
        }
        if let Some(i) = pos {
            e.remove(i);
            proof {
                assert forall|a: int, b: int| 0 <= a < b < e@.len() implies #[trigger] e@[a].id != #[trigger] e@[b].id by {
                    let a0 = if a < i { a } else { a + 1 };
                    let b0 = if b < i { b } else { b + 1 };
                    assert(e@[a] == e0[a0]);
                    assert(e@[b] == e0[b0]);
                }
                assert forall|a: int| 0 <= a < e@.len() implies #[trigger] e@[a].id != entry.id by {
                    let a0 = if a < i { a } else { a + 1 };
                    assert(e@[a] == e0[a0]);
                    if e0[a0].id == entry.id {
                        if a0 < i {
                            assert(e0[a0].id != e0[i as int].id);
                        } else {
                            assert(e0[i as int].id != e0[a0].id);
                        }
                    }
                }
            }
        } else {
            proof {
                lemma_index_of(e0, entry.id);
            }
        }
        let ghost e1 = e@;
        e.push(entry);
        proof {
            assert forall|a: int, b: int| 0 <= a < b < e@.len() implies #[trigger] e@[a].id != #[trigger] e@[b].id by {
                if b == e@.len() - 1 {
                    assert(e@[a] == e1[a]);
                } else {
                    assert(e@[a] == e1[a] && e@[b] == e1[b]);
                }
            }
        }
        self.entries = e;
    }
}

} // verus!

verus! {

/// The entries after adding `n`: it replaces an entry with its identifier,
/// else it is appended.
pub open spec fn stored(after: Seq<MemoryEntry>, before: Seq<MemoryEntry>, n: MemoryEntry) -> bool {
    let k = index_of(before, n.id);
    after == if k < 0 {
        before.push(n)
    } else {
        before.remove(k).push(n)
    }
}

impl MemoryEngine {
    /// Adds a validated request as transfer `id` at `now`. For a `.torrent`
    /// file, `contents` is what reading it gave: a read error is an I/O
    /// error, and contents that are no metainfo are an invalid source.
    pub fn finish_add(
        &mut self,
        request: &AddTransferRequest,
        start: AddStart,
        contents: Option<Result<Vec<u8>, String>>,
        id: TransferId,
        now: i64,
    ) -> (r: Result<TransferId, BackendError>)
        requires
            start.kind is TorrentFile ==> contents is Some,
        ensures
            final(self).config() == old(self).config(),
            ({
                let rate = match old(self).config().download_rate_limit {
                    Some(l) => l,
                    None => DEFAULT_SIMULATED_RATE_BPS,
                };
                let n = final(self).entries().last();
                match start.kind {
                    SourceKind::TorrentFile(_) => match contents {
                        Some(Err(m)) => r matches Err(BackendError::Io(x)) && x == m && final(self).entries() == old(self).entries(),
                        Some(Ok(b)) => match sp_torrent_info(b@) {
                            None => r matches Err(BackendError::InvalidSource) && final(self).entries() == old(self).entries(),
                            Some(t) => r == Ok::<TransferId, BackendError>(id) && final(self).entries().len() > 0
                                && stored(final(self).entries(), old(self).entries(), n)
                                && fresh_entry(n, *request, start, t.name, id, now, rate)
                                && metainfo_entry(n, *request, t),
                        },
                        None => false,
                    },
                    _ => r == Ok::<TransferId, BackendError>(id) && final(self).entries().len() > 0
                        && stored(final(self).entries(), old(self).entries(), n)
                        && fresh_entry(n, *request, start, fallback_name_spec(start.kind), id, now, rate)
                        && simulated_entry(n, *request, start),
                }
            }),
    {
        let rate = self.rate_bps();
        let ghost mut tinfo: Option<crate::torrent::bencode::TorrentMeta> = None;
        let (mut files, parsed_name, info_hash, private, simulated) = match &start.kind {
            SourceKind::Magnet { info_hash, .. } => {
                let fallback = fallback_name(&start.kind);
                let files = synthetic_files(fallback.as_str());
                let hash = match info_hash {
                    Some(h) => Some(h.clone()),
                    None => None,
                };
                (files, fallback, hash, false, true)
            },
            SourceKind::TorrentUrl(_) => {
                let fallback = fallback_name(&start.kind);
                let files = synthetic_files(fallback.as_str());
                (files, fallback, None, false, true)
            },
            SourceKind::TorrentFile(_) => {
                let bytes = match contents {
                    Some(Ok(b)) => b,
                    Some(Err(m)) => {
                        return Err(BackendError::Io(m));
                    },
                    None => {
                        return Err(BackendError::InvalidSource);
                    },
                };
                let info = match torrent_info(bytes.as_slice()) {
                    Some(info) => info,
                    None => {
                        return Err(BackendError::InvalidSource);
                    },
                };
                let files = files_from_metainfo(&info);
                proof {
                    tinfo = Some(torrent_info_view(info));
                }
                (files, info.name, None, info.private, false)
            },
        };
        let ghost base = files@;
        apply_file_selection(&mut files, request.file_selection.as_ref());
        assert(files@ == selected(base, *request));
        let total = selected_bytes(&files);
        let (state, started_at, resume) = if total == 0 {
            (TransferState::Queued, None, None)
        } else {
            (
                TransferState::Downloading,
                Some(now),
                Some(ResumePoint { started_ms: now, bytes_at_start: 0, rate_bps: rate }),
            )
        };
        let display_name = match &request.display_name {
            Some(d) => d.clone(),
            None => parsed_name,
        };
        let entry = MemoryEntry {
            id,
            source: request.source.clone(),
            display_name,
            destination: start.destination.clone(),
            state,
            files,
            created_at: now,
            started_at,
            completed_at: None,
            error: None,
            meta: EngineMeta { info_hash, private, simulated, data_deleted: false },
            caller_meta: crate::torrent::normalize::caller_metadata(&request.metadata),
            resume,
        };
        let ghost n = entry;
        self.store(entry);
        proof {
            assert(self.entries().last() == n);
            match start.kind {
                SourceKind::TorrentFile(_) => {
                    let t = tinfo->0;
                    assert(base.len() == t.files.len());
                    assert(forall|i: int| 0 <= i < base.len() ==> metainfo_file(#[trigger] base[i], i, t.files[i].0, t.files[i].1));
                    assert(n.files@ == selected(base, *request));
                },
                _ => {
                    assert(synthetic_file(base[0], fallback_name_spec(start.kind)));
                    assert(n.files@ == selected(base, *request));
                },
            }
        }
        Ok(id)
    }
}

} // verus!

verus! {

/// The selected bytes a downloading entry has at `now`: what it had when
/// it resumed plus the rate times the time since, at most the total.
pub open spec fn done_at(e: MemoryEntry, now: i64) -> int {
    let r = e.resume->0;
    let total = selected_total(e.files@);
    let elapsed = if now > r.started_ms { now - r.started_ms } else { 0 };
    let d = r.bytes_at_start + elapsed * (r.rate_bps as int) / 1000;
    if d < total { d } else { total }
}

/// A selected file's share of the done bytes, at most its size.
pub open spec fn file_done(f: TransferFile, done: int, total: int) -> int {
    let b = done * (f.size as int) / total;
    if b < f.size { b } else { f.size as int }
}

/// The entry with the simulated clock advanced to `now`: a downloading
/// entry's selected files get their share of the done bytes, and once all
/// are done the entry completes.
pub open spec fn advanced(n: MemoryEntry, e: MemoryEntry, now: i64) -> bool {
    let total = selected_total(e.files@);
    if e.state != TransferState::Downloading || e.resume is None || total == 0 {
        n == e
    } else {
        let done = done_at(e, now);
        &&& n.files@.len() == e.files@.len()
        &&& forall|j: int|
            0 <= j < e.files@.len() ==> #[trigger] n.files@[j] == if !e.files@[j].selected {
                e.files@[j]
            } else if done >= total {
                TransferFile { bytes_completed: e.files@[j].size, ..e.files@[j] }
            } else {
                TransferFile { bytes_completed: file_done(e.files@[j], done, total) as u64, ..e.files@[j] }
            }
        &&& if done >= total {
            n.state == TransferState::Completed && n.completed_at == Some(now) && n.resume is None
        } else {
            n.state == e.state && n.completed_at == e.completed_at && n.resume == e.resume
        }
        &&& n.id == e.id && n.source == e.source && n.display_name == e.display_name
        &&& n.destination == e.destination && n.created_at == e.created_at && n.started_at == e.started_at
        &&& n.error == e.error && n.meta.info_hash == e.meta.info_hash && n.meta.private == e.meta.private
        &&& n.meta.simulated == e.meta.simulated && n.meta.data_deleted == e.meta.data_deleted
    }
}

/// Progress freezes while paused: advancing the clock leaves a paused
/// transfer exactly as it was.
pub proof fn law_paused_progress_frozen(e: MemoryEntry, n: MemoryEntry, now: i64)
    requires
        advanced(n, paused(e), now),
    ensures
        n == paused(e),
{
}

/// Pausing a downloading transfer and resuming it brings it back to
/// downloading with its files and progress as they were, the simulated
/// clock restarting at the resume time from the bytes already done.
pub proof fn law_pause_then_resume(e: MemoryEntry, now: i64, rate: u64)
    requires
        e.state == TransferState::Downloading,
    ensures
        ({
            let n = resumed(paused(e), now, rate);
            &&& paused(e).state == TransferState::Paused
            &&& n.state == TransferState::Downloading
            &&& n.files == e.files
            &&& n.id == e.id && n.destination == e.destination && n.meta == e.meta
            &&& n.resume == Some(
                ResumePoint { started_ms: now, bytes_at_start: selected_done(e.files@) as u128, rate_bps: rate },
            )
        }),
{
}

proof fn lemma_total_ge_size(files: Seq<TransferFile>, j: int)
    requires
        0 <= j < files.len(),
        files[j].selected,
    ensures
        files[j].size <= selected_total(files),
    decreases files.len(),
{
    lemma_selected_bounds(files);
    lemma_selected_bounds(files.drop_last());
    if j < files.len() - 1 {
        assert(files[j] == files.drop_last()[j]);
        lemma_total_ge_size(files.drop_last(), j);
    }
}

fn advance_entry(entry: MemoryEntry, now: i64) -> (n: MemoryEntry)
    requires
        selected_total(entry.files@) < 0x1_0000_0000_0000_0000,
    ensures
        advanced(n, entry, now),
        n.id == entry.id,
{
    if entry.state != TransferState::Downloading || entry.resume.is_none() {
        return entry;
    }
    let total = selected_bytes(&entry.files);
    if total == 0 {
        return entry;
    }
    let r = entry.resume.unwrap();
    let elapsed: u128 = if now > r.started_ms { (now as i128 - r.started_ms as i128) as u128 } else { 0 };
    assert(elapsed < 0x1_0000_0000_0000_0000);
    assert(elapsed * (r.rate_bps as int) < 0x1_0000_0000_0000_0000 * 0x1_0000_0000_0000_0000) by (nonlinear_arith)
        requires elapsed < 0x1_0000_0000_0000_0000, r.rate_bps < 0x1_0000_0000_0000_0000;
    let progressed: u128 = elapsed * (r.rate_bps as u128) / 1000;
    let done: u128 = if r.bytes_at_start >= total {
        total
    } else if progressed >= total - r.bytes_at_start {
        total
    } else {
        r.bytes_at_start + progressed
    };
    assert(done == done_at(entry, now));
    let mut e = entry;
    let mut files: Vec<TransferFile> = Vec::new();
    std::mem::swap(&mut files, &mut e.files);
    let ghost f0 = files@;
    let mut j: usize = 0;
    while j < files.len()
        invariant
            j <= files@.len(),
            files@.len() == f0.len(),
            total == selected_total(f0),
            0 < total < 0x1_0000_0000_0000_0000,
            done <= total,
            forall|x: int| j <= x < files@.len() ==> #[trigger] files@[x] == f0[x],
            forall|x: int|
                0 <= x < j ==> #[trigger] files@[x] == if !f0[x].selected {
                    f0[x]
                } else if done >= total {
                    TransferFile { bytes_completed: f0[x].size, ..f0[x] }
                } else {
                    TransferFile { bytes_completed: file_done(f0[x], done as int, total as int) as u64, ..f0[x] }
                },
        decreases files.len() - j,
    {
        if files[j].selected {
            let size = files[j].size;
            let b: u64 = if done >= total {
                size
            } else {
                proof {
                    lemma_total_ge_size(f0, j as int);
                    assert(done * (size as int) <= total * total) by (nonlinear_arith)
                        requires done <= total, size <= total;
                    assert(total * total < 0x1_0000_0000_0000_0000 * 0x1_0000_0000_0000_0000) by (nonlinear_arith)
                        requires total < 0x1_0000_0000_0000_0000;
                }
                let share = done * (size as u128) / total;
                if share < size as u128 { share as u64 } else { size }
            };
            let f = TransferFile {
                index: files[j].index.clone(),
                path: files[j].path.clone(),
                size,
                selected: true,
                bytes_completed: b,
            };
            files.set(j, f);
        }
        j = j + 1;
    }
    e.files = files;
    if done >= total {
        e.state = TransferState::Completed;
        e.completed_at = Some(now);
        e.resume = None;
    }
    e
}

impl MemoryEngine {
    /// Advances the simulated clock of the transfer `id` to `now`.
    pub fn advance(&mut self, id: &TransferId, now: i64)
        requires
            forall|j: int| 0 <= j < old(self).entries().len() ==> selected_total(#[trigger] old(self).entries()[j].files@)
                < 0x1_0000_0000_0000_0000,
        ensures
            final(self).config() == old(self).config(),
            final(self).entries().len() == old(self).entries().len(),
            ({
                let k = index_of(old(self).entries(), *id);
                forall|j: int|
                    0 <= j < old(self).entries().len() ==> if j == k {
                        advanced(#[trigger] final(self).entries()[j], old(self).entries()[j], now)
                    } else {
                        final(self).entries()[j] == old(self).entries()[j]
                    }
            }),
    {
        proof {
            use_type_invariant(&*self);
        }
        if let Some(i) = self.position(id) {
            let mut e: Vec<MemoryEntry> = Vec::new();
            std::mem::swap(&mut e, &mut self.entries);
            let ghost e0 = e@;
            let entry = e.remove(i);
            let n = advance_entry(entry, now);
            e.insert(i, n);
            proof {
                assert forall|a: int, b: int| 0 <= a < b < e@.len() implies #[trigger] e@[a].id != #[trigger] e@[b].id by {
                    assert(e@[a].id == e0[a].id);
                    assert(e@[b].id == e0[b].id);
                }
            }
            self.entries = e;
        }
    }
}

} // verus!
