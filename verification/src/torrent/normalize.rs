//! Normalization shared by the engines: destination resolution and
//! file-selection application.

use vstd::prelude::*;
use vstd::string::StringExecFns;
use crate::common::{AddTransferRequest, FileSelection, TransferFile};
use crate::torrent::config::TorrentConfig;
use crate::torrent::error::BackendError;
use crate::text::trim;

verus! {

/// A path is absolute in either POSIX or Windows form: it starts with `/`
/// or `\`, or with a drive letter and a colon.
pub open spec fn absolute_text(s: Seq<char>) -> bool {
    ||| (s.len() > 0 && (s[0] == '/' || s[0] == '\\'))
    ||| (s.len() > 1 && crate::text::is_ascii_alpha(s[0]) && s[1] == ':')
}

fn absolute_text_exec(s: &str) -> (b: bool)
    ensures
        b == absolute_text(s@),
{
    let c = crate::text::chars_of(s);
    (c.len() > 0 && (c[0] == '/' || c[0] == '\\')) || (c.len() > 1 && (('a' <= c[0] && c[0] <= 'z')
        || ('A' <= c[0] && c[0] <= 'Z')) && c[1] == ':')
}

/// The destination of a request: a given destination must not be blank
/// (`InvalidSource`) and must be absolute (`UnsafePath`); without one the
/// configured download root is used.
pub open spec fn destination_spec(d: Option<String>, root: String) -> Result<String, BackendError> {
    match d {
        Some(t) => if trim(t@).len() == 0 {
            Err(BackendError::InvalidSource)
        } else if !absolute_text(t@) {
            Err(BackendError::UnsafePath)
        } else {
            Ok(t)
        },
        None => Ok(root),
    }
}

/// Resolve the destination directory for a request.
pub fn resolve_destination(request: &AddTransferRequest, config: &TorrentConfig) -> (r: Result<
    String,
    BackendError,
>)
    ensures
        r == destination_spec(request.destination, config.download_root),
{
    match &request.destination {
        Some(d) => {
            if crate::text::is_blank(d.as_str()) {
                return Err(BackendError::InvalidSource);
            }
            if !absolute_text_exec(d.as_str()) {
                return Err(BackendError::UnsafePath);
            }
            Ok(d.clone())
        },
        None => Ok(config.download_root.clone()),
    }
}

/// The position of the first file whose index is `index`, or the length.
pub open spec fn file_pos(files: Seq<TransferFile>, index: Seq<char>, i: int) -> int
    decreases files.len() - i,
{
    if i < 0 || i >= files.len() {
        files.len() as int
    } else if files[i].index@ == index {
        i
    } else {
        file_pos(files, index, i + 1)
    }
}

/// One selection entry applied: the first file with its index takes its
/// `selected` flag; an entry matching no file changes nothing.
pub open spec fn apply_one(files: Seq<TransferFile>, item: FileSelection) -> Seq<TransferFile> {
    let k = file_pos(files, item.index@, 0);
    if k < files.len() {
        files.update(k, TransferFile { selected: item.selected, ..files[k] })
    } else {
        files
    }
}

/// The selection entries applied in order.
pub open spec fn apply_selection(files: Seq<TransferFile>, sel: Seq<FileSelection>) -> Seq<TransferFile>
    decreases sel.len(),
{
    if sel.len() == 0 {
        files
    } else {
        apply_one(apply_selection(files, sel.drop_last()), sel.last())
    }
}

proof fn lemma_file_pos_range(files: Seq<TransferFile>, index: Seq<char>, i: int)
    requires
        0 <= i <= files.len(),
    ensures
        i <= file_pos(files, index, i) <= files.len(),
        file_pos(files, index, i) < files.len() ==> files[file_pos(files, index, i)].index@ == index,
    decreases files.len() - i,
{
    if i < files.len() && files[i].index@ != index {
        lemma_file_pos_range(files, index, i + 1);
    }
}

fn find_file(files: &Vec<TransferFile>, index: &String) -> (j: usize)
    ensures
        j as int == file_pos(files@, index@, 0),
{
    let ic = crate::text::chars_of(index.as_str());
    let mut j: usize = 0;
    loop
        invariant
            j <= files@.len(),
            ic@ == index@,
            file_pos(files@, index@, 0) == file_pos(files@, index@, j as int),
        decreases files.len() - j,
    {
        if j >= files.len() {
            return j;
        }
        let fc = crate::text::chars_of(files[j].index.as_str());
        if crate::text::chars_eq(fc.as_slice(), ic.as_slice()) {
            return j;
        }
        j = j + 1;
    }
}

/// Apply the request's per-file selection to the torrent's file list.
pub fn apply_file_selection(files: &mut Vec<TransferFile>, selection: Option<&Vec<FileSelection>>)
    ensures
        final(files)@ == match selection {
            Some(sel) => apply_selection(old(files)@, sel@),
            None => old(files)@,
        },
{
    let sel = match selection {
        Some(s) => s,
        None => {
            return;
        },
    };
    let mut k: usize = 0;
    while k < sel.len()
        invariant
            k <= sel@.len(),
            files@ == apply_selection(old(files)@, sel@.take(k as int)),
        decreases sel.len() - k,
    {
        let ghost before = files@;
        let j = find_file(files, &sel[k].index);
        proof {
            lemma_file_pos_range(before, sel@[k as int].index@, 0);
        }
        if j < files.len() {
            let f = TransferFile {
                index: files[j].index.clone(),
                path: files[j].path.clone(),
                size: files[j].size,
                selected: sel[k].selected,
                bytes_completed: files[j].bytes_completed,
            };
            files.set(j, f);
        }
        assert(sel@.take(k + 1).drop_last() =~= sel@.take(k as int));
        k = k + 1;
    }
    assert(sel@.take(sel@.len() as int) =~= sel@);
}

/// Applying a selection keeps every file, and every field but `selected`.
pub proof fn law_selection_keeps_files(files: Seq<TransferFile>, sel: Seq<FileSelection>)
    ensures
        apply_selection(files, sel).len() == files.len(),
        forall|j: int|
            0 <= j < files.len() ==> {
                let f = #[trigger] apply_selection(files, sel)[j];
                &&& f.index == files[j].index
                &&& f.path == files[j].path
                &&& f.size == files[j].size
                &&& f.bytes_completed == files[j].bytes_completed
            },
    decreases sel.len(),
{
    if sel.len() > 0 {
        law_selection_keeps_files(files, sel.drop_last());
        lemma_file_pos_range(apply_selection(files, sel.drop_last()), sel.last().index@, 0);
    }
}

/// The indices of the selected files (in selection order), or `None` when
/// one of them is no decimal index.
pub open spec fn selected_indices(sel: Seq<FileSelection>) -> Option<Seq<usize>>
    decreases sel.len(),
{
    if sel.len() == 0 {
        Some(seq![])
    } else {
        match selected_indices(sel.drop_last()) {
            None => None,
            Some(v) => if !sel.last().selected {
                Some(v)
            } else {
                match crate::text::parse_usize_spec(sel.last().index@) {
                    Some(i) => Some(v.push(i)),
                    None => None,
                }
            },
        }
    }
}

/// The files an engine is told to download: every file when the request
/// selects none, else the selected indices; an index that is no number
/// makes the request an invalid source.
pub fn only_files(selection: &Option<Vec<FileSelection>>) -> (r: Result<Option<Vec<usize>>, BackendError>)
    ensures
        match selection {
            None => r matches Ok(None),
            Some(sel) => match selected_indices(sel@) {
                Some(v) => r matches Ok(Some(w)) && w@ == v,
                None => r matches Err(BackendError::InvalidSource),
            },
        },
{
    let sel = match selection {
        None => {
            return Ok(None);
        },
        Some(s) => s,
    };
    let mut out: Vec<usize> = Vec::new();
    let mut i: usize = 0;
    while i < sel.len()
        invariant
            i <= sel@.len(),
            selected_indices(sel@.take(i as int)) == Some(out@),
            selection == Some(*sel),
        decreases sel.len() - i,
    {
        assert(sel@.take(i + 1).drop_last() =~= sel@.take(i as int));
        if sel[i].selected {
            match crate::text::parse_usize(sel[i].index.as_str()) {
                Some(n) => {
                    out.push(n);
                },
                None => {
                    proof {
                        lemma_indices_fail(sel@, i + 1);
                    }
                    return Err(BackendError::InvalidSource);
                },
            }
        }
        i = i + 1;
    }
    assert(sel@.take(sel@.len() as int) =~= sel@);
    Ok(Some(out))
}

/// Once an index fails, the whole selection fails.
proof fn lemma_indices_fail(sel: Seq<FileSelection>, n: int)
    requires
        0 <= n <= sel.len(),
        selected_indices(sel.take(n)) is None,
    ensures
        selected_indices(sel) is None,
    decreases sel.len() - n,
{
    if n < sel.len() {
        assert(sel.drop_last().take(n) =~= sel.take(n));
        lemma_indices_fail(sel.drop_last(), n);
    } else {
        assert(sel.take(n) =~= sel);
    }
}

/// A value of the engine's namespaced metadata.
#[derive(Debug, Clone, PartialEq, Eq)]
pub enum MetaValue {
    Text(String),
    Flag(bool),
}

/// The engine's namespaced metadata of a transfer, as key/value entries in
/// key order: the engine's name, the info hash when known, and `private`
/// only when the torrent is private.
pub fn torrent_metadata(engine: &str, info_hash: Option<&str>, private: bool) -> (r: Vec<(String, MetaValue)>)
    ensures
        r@.len() == 1 + (if info_hash is Some { 1int } else { 0 }) + (if private { 1int } else { 0 }),
        r@[0].0@ == "engine"@,
        r@[0].1 matches MetaValue::Text(t) && t@ == engine@,
        info_hash matches Some(h) ==> r@[1].0@ == "info_hash"@ && (r@[1].1 matches MetaValue::Text(t) && t@ == h@),
        private ==> r@.last().0@ == "private"@ && r@.last().1 == MetaValue::Flag(true),
{
    let mut r: Vec<(String, MetaValue)> = Vec::new();
    r.push((String::from_str("engine"), MetaValue::Text(String::from_str(engine))));
    if let Some(h) = info_hash {
        r.push((String::from_str("info_hash"), MetaValue::Text(String::from_str(h))));
    }
    if private {
        r.push((String::from_str("private"), MetaValue::Flag(true)));
    }
    r
}

/// The entries whose key is not `k`, in order.
pub open spec fn without_key(s: Seq<(Seq<char>, Seq<char>)>, k: Seq<char>) -> Seq<(Seq<char>, Seq<char>)>
    decreases s.len(),
{
    if s.len() == 0 {
        seq![]
    } else {
        let r = without_key(s.drop_last(), k);
        if s.last().0 == k {
            r
        } else {
            r.push(s.last())
        }
    }
}

/// The caller's metadata as a transfer keeps it beside the engine's own
/// entry, which goes under `torrent`: every caller entry but one named
/// `torrent`.
pub fn caller_metadata(caller: &Vec<(String, String)>) -> (r: Vec<(String, String)>)
    ensures
        crate::completion::pair_views(r@) == without_key(crate::completion::pair_views(caller@), "torrent"@),
{
    let mut r: Vec<(String, String)> = Vec::new();
    let mut i: usize = 0;
    while i < caller.len()
        invariant
            i <= caller@.len(),
            crate::completion::pair_views(r@) == without_key(
                crate::completion::pair_views(caller@).take(i as int),
                "torrent"@,
            ),
        decreases caller.len() - i,
    {
        let ghost all = crate::completion::pair_views(caller@);
        assert(all.take(i + 1).drop_last() =~= all.take(i as int));
        assert(all.take(i + 1).last() == (caller@[i as int].0@, caller@[i as int].1@));
        let k = crate::text::chars_of(caller[i].0.as_str());
        if !crate::text::eq_lit(k.as_slice(), "torrent") {
            let ghost before = crate::completion::pair_views(r@);
            r.push((caller[i].0.clone(), caller[i].1.clone()));
            assert(crate::completion::pair_views(r@) =~= before.push((caller@[i as int].0@, caller@[i as int].1@)));
        }
        i = i + 1;
    }
    assert(crate::completion::pair_views(caller@).take(caller@.len() as int) =~= crate::completion::pair_views(caller@));
    r
}

} // verus!
