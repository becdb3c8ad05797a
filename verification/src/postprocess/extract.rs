//! Archive support checks and safe extraction paths.

use vstd::prelude::*;
use vstd::string::StringExecFns;
use crate::common::Error;
use crate::text::{chars_of, contains_chars, ends_with_chars, eq_lit, lower, lower_chars, string_of, replace_char, replace_char_chars, contains_at_least_once, ends_with};
use crate::paths::{extension, extension_of, file_name, file_name_of, join, join_chars, last_dot};

verus! {

/// The 7-Zip command-line extractor.
#[derive(Debug, Clone)]
pub struct SevenZipExtractor {
    pub binary: String,
}

/// Archive extensions the 7-Zip extractor handles.
pub open spec fn archive_ext(e: Seq<char>) -> bool {
    e == "zip"@ || e == "rar"@ || e == "7z"@ || e == "tar"@ || e == "gz"@ || e == "tgz"@ || e
        == "bz2"@ || e == "xz"@
}

impl SevenZipExtractor {
    /// The extractor that runs `7z` from the search path.
    pub fn new() -> (x: Self)
        ensures
            x.binary@ == "7z"@,
    {
        SevenZipExtractor { binary: String::from_str("7z") }
    }

    /// Whether the archive's extension (ASCII case-insensitive) is one 7-Zip
    /// extracts.
    pub fn supports(&self, archive: &str) -> (b: bool)
        ensures
            b == (extension(archive@) matches Some(e) && archive_ext(lower(e))),
    {
        let p = chars_of(archive);
        match extension_of(p.as_slice()) {
            Some(e) => {
                let l = lower_chars(e.as_slice());
                let e = l.as_slice();
                eq_lit(e, "zip") || eq_lit(e, "rar") || eq_lit(e, "7z") || eq_lit(e, "tar")
                    || eq_lit(e, "gz") || eq_lit(e, "tgz") || eq_lit(e, "bz2") || eq_lit(e, "xz")
            },
            None => false,
        }
    }
}

/// `..` appears as a `/`-separated component of `s`.
pub open spec fn has_parent_component(s: Seq<char>) -> bool {
    exists|i: int| parent_component_at(s, i)
}

/// A `..` component starts at `i`.
pub open spec fn parent_component_at(s: Seq<char>, i: int) -> bool {
    0 <= i && i + 2 <= s.len() && s[i] == '.' && s[i + 1] == '.' && (i == 0 || s[i - 1] == '/')
        && (i + 2 == s.len() || s[i + 2] == '/')
}

/// An archive entry name is unsafe when it is empty, holds a NUL, is
/// absolute (after reading `\` as `/`), starts with a drive letter and
/// colon, or has a `..` component.
pub open spec fn unsafe_entry(entry: Seq<char>) -> bool {
    let n = replace_char(entry, '\\', '/');
    ||| entry.len() == 0
    ||| entry.contains('\0')
    ||| (n.len() > 0 && n[0] == '/')
    ||| (n.len() >= 2 && n[1] == ':' && crate::text::is_ascii_alpha(n[0]))
    ||| has_parent_component(n)
}

/// Archive contents are hostile, yet an accepted entry cannot escape the
/// extraction directory: its target begins with the directory, and what
/// follows is a non-empty relative path with no `..` component.
pub proof fn law_entry_stays_inside(entry: Seq<char>, dest: Seq<char>)
    requires
        !unsafe_entry(entry),
    ensures
        crate::text::starts_with(join(dest, replace_char(entry, '\\', '/')), dest),
        ({
            let n = replace_char(entry, '\\', '/');
            &&& n.len() > 0
            &&& n[0] != '/'
            &&& !has_parent_component(n)
        }),
{
    crate::paths::lemma_join_extends(dest, replace_char(entry, '\\', '/'));
    assert(replace_char(entry, '\\', '/').len() == entry.len());
}

fn has_parent_component_exec(s: &[char]) -> (b: bool)
    ensures
        b == has_parent_component(s@),
{
    if s.len() < 2 {
        return false;
    }
    let mut i: usize = 0;
    while i <= s.len() - 2
        invariant
            s.len() >= 2,
            i <= s.len() - 1,
            forall|j: int| 0 <= j < i ==> !#[trigger] parent_component_at(s@, j),
        decreases s.len() - i,
    {
        if s[i] == '.' && s[i + 1] == '.' && (i == 0 || s[i - 1] == '/') && (i + 2 == s.len()
            || s[i + 2] == '/') {
            assert(parent_component_at(s@, i as int));
            return true;
        }
        i = i + 1;
    }
    assert forall|j: int| !#[trigger] parent_component_at(s@, j) by {
        if 0 <= j < i {
        }
    }
    false
}

/// The extraction target for an archive entry: `dest` joined with the entry
/// (read with `/` separators), or `UnsafePath` for an entry that could
/// escape `dest`.
pub fn sanitize_entry_path(entry: &str, dest: &str) -> (r: Result<String, Error>)
    ensures
        match r {
            Ok(p) => !unsafe_entry(entry@) && p@ == join(dest@, replace_char(entry@, '\\', '/')),
            Err(e) => unsafe_entry(entry@) && e is UnsafePath,
        },
{
    let e = chars_of(entry);
    let mut has_nul = false;
    let mut i: usize = 0;
    while i < e.len()
        invariant
            i <= e.len(),
            has_nul == exists|j: int| 0 <= j < i && e@[j] == '\0',
        decreases e.len() - i,
    {
        if e[i] == '\0' {
            has_nul = true;
        }
        i = i + 1;
    }
    assert(has_nul == e@.contains('\0'));
    if e.len() == 0 || has_nul {
        return Err(Error::UnsafePath);
    }
    let n = replace_char_chars(e.as_slice(), '\\', '/');
    if n.len() > 0 && n[0] == '/' {
        return Err(Error::UnsafePath);
    }
    if n.len() >= 2 && n[1] == ':' && (('a' <= n[0] && n[0] <= 'z') || ('A' <= n[0] && n[0] <= 'Z')) {
        return Err(Error::UnsafePath);
    }
    if has_parent_component_exec(n.as_slice()) {
        return Err(Error::UnsafePath);
    }
    let d = chars_of(dest);
    let j = join_chars(d.as_slice(), n.as_slice());
    Ok(string_of(j.as_slice()))
}

/// The text after the last `.` of a name, or the whole name.
pub open spec fn last_segment_after_dot(name: Seq<char>) -> Seq<char> {
    if last_dot(name) < 0 {
        name
    } else {
        name.subrange(last_dot(name) + 1, name.len() as int)
    }
}

/// A multi-volume archive part: `.rNN` volumes, `.partN.rar` sets, and
/// `.7z.NNN` split volumes (name read ASCII case-insensitively).
pub open spec fn multipart_name(name: Seq<char>) -> bool {
    let ext = last_segment_after_dot(name);
    ||| (ext.len() == 3 && ext[0] == 'r' && crate::text::is_ascii_digit(ext[1])
        && crate::text::is_ascii_digit(ext[2]))
    ||| (contains_at_least_once(name, ".part"@) && ends_with(name, ".rar"@))
    ||| (ext.len() == 3 && crate::text::is_ascii_digit(ext[0]) && crate::text::is_ascii_digit(
        ext[1],
    ) && crate::text::is_ascii_digit(ext[2]) && contains_at_least_once(name, ".7z."@))
}

pub open spec fn multipart_spec(archive: Seq<char>) -> bool {
    match file_name(archive) {
        Some(n) => n.len() > 0 && multipart_name(lower(n)),
        None => false,
    }
}

/// Whether the archive is one volume of a multi-part set.
pub fn is_multipart(archive: &str) -> (b: bool)
    ensures
        b == multipart_spec(archive@),
{
    let p = chars_of(archive);
    let name = match file_name_of(p.as_slice()) {
        Some(n) => lower_chars(n.as_slice()),
        None => {
            return false;
        },
    };
    if name.len() == 0 {
        return false;
    }
    let ext = match crate::paths::last_dot_exec(name.as_slice()) {
        Some(d) => crate::text::slice_chars(name.as_slice(), d + 1, name.len()),
        None => crate::text::slice_chars(name.as_slice(), 0, name.len()),
    };
    assert(name@.subrange(0, name@.len() as int) =~= name@);
    if ext.len() == 3 && ext[0] == 'r' && '0' <= ext[1] && ext[1] <= '9' && '0' <= ext[2] && ext[2] <= '9' {
        return true;
    }
    let part = chars_of(".part");
    let rar = chars_of(".rar");
    if contains_chars(name.as_slice(), part.as_slice()) && ends_with_chars(name.as_slice(), rar.as_slice()) {
        return true;
    }
    let sz = chars_of(".7z.");
    if ext.len() == 3 && '0' <= ext[0] && ext[0] <= '9' && '0' <= ext[1] && ext[1] <= '9' && '0' <= ext[2]
        && ext[2] <= '9' && contains_chars(name.as_slice(), sz.as_slice()) {
        return true;
    }
    false
}

} // verus!
