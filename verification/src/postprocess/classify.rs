//! File classification by extension.

use vstd::prelude::*;
use vstd::string::StringExecFns;
use crate::text::{chars_of, eq_lit};
use crate::paths::{extension, extension_of};

verus! {

#[derive(Debug, Clone, Copy, PartialEq, Eq, Structural, Hash)]
pub enum Category {
    Audio,
    Video,
    Image,
    Archive,
    Document,
    Software,
    Unknown,
}

pub open spec fn category_name(c: Category) -> Seq<char> {
    match c {
        Category::Audio => "audio"@,
        Category::Video => "video"@,
        Category::Image => "image"@,
        Category::Archive => "archive"@,
        Category::Document => "document"@,
        Category::Software => "software"@,
        Category::Unknown => "unknown"@,
    }
}

impl Category {
    /// The category's name, as its text form shows it.
    pub fn to_string(&self) -> (s: String)
        ensures
            s@ == category_name(*self),
    {
        match self {
            Category::Audio => String::from_str("audio"),
            Category::Video => String::from_str("video"),
            Category::Image => String::from_str("image"),
            Category::Archive => String::from_str("archive"),
            Category::Document => String::from_str("document"),
            Category::Software => String::from_str("software"),
            Category::Unknown => String::from_str("unknown"),
        }
    }
}

/// `str::to_lowercase` of one character as far as matching against ASCII
/// text goes: ASCII letters fold, and the Kelvin sign folds to `k`; no other
/// character lower-cases to a single ASCII character.
pub open spec fn fold_char(c: char) -> char {
    if c == '\u{212a}' {
        'k'
    } else {
        crate::text::lower_char(c)
    }
}

pub open spec fn fold(s: Seq<char>) -> Seq<char> {
    Seq::new(s.len(), |i: int| fold_char(s[i]))
}

/// The category of a lower-cased extension.
pub open spec fn category_of_ext(e: Seq<char>) -> Category {
    if e == "zip"@ || e == "rar"@ || e == "7z"@ || e == "tar"@ || e == "gz"@ || e == "tgz"@
        || e == "bz2"@ || e == "xz"@ {
        Category::Archive
    } else if e == "mp3"@ || e == "flac"@ || e == "wav"@ || e == "ogg"@ || e == "m4a"@ || e
        == "aac"@ || e == "opus"@ || e == "wma"@ {
        Category::Audio
    } else if e == "mp4"@ || e == "mkv"@ || e == "avi"@ || e == "mov"@ || e == "webm"@ || e
        == "m4v"@ || e == "ts"@ {
        Category::Video
    } else if e == "jpg"@ || e == "jpeg"@ || e == "png"@ || e == "gif"@ || e == "webp"@ || e
        == "bmp"@ || e == "tiff"@ || e == "svg"@ || e == "heic"@ {
        Category::Image
    } else if e == "pdf"@ || e == "epub"@ || e == "mobi"@ || e == "doc"@ || e == "docx"@ || e
        == "xls"@ || e == "xlsx"@ || e == "ppt"@ || e == "pptx"@ || e == "txt"@ || e == "md"@
        || e == "rtf"@ {
        Category::Document
    } else if e == "exe"@ || e == "msi"@ || e == "apk"@ || e == "dmg"@ || e == "deb"@ || e
        == "rpm"@ || e == "appimage"@ {
        Category::Software
    } else {
        Category::Unknown
    }
}

/// The category of a path: by its lower-cased extension; no extension is
/// unknown.
pub open spec fn classify_spec(path: Seq<char>) -> Category {
    match extension(path) {
        Some(e) => category_of_ext(fold(e)),
        None => Category::Unknown,
    }
}

fn fold_chars(s: &[char]) -> (r: Vec<char>)
    ensures
        r@ == fold(s@),
{
    let mut r: Vec<char> = Vec::new();
    let mut i: usize = 0;
    while i < s.len()
        invariant
            i <= s.len(),
            r@ == fold(s@).take(i as int),
        decreases s.len() - i,
    {
        let c = s[i];
        let l = if c == '\u{212a}' {
            'k'
        } else if 'A' <= c && c <= 'Z' {
            ((c as u8) + 32) as char
        } else {
            c
        };
        r.push(l);
        i = i + 1;
        assert(r@ =~= fold(s@).take(i as int));
    }
    assert(r@ =~= fold(s@));
    r
}

fn category_of_ext_exec(e: &[char]) -> (c: Category)
    ensures
        c == category_of_ext(e@),
{
    if eq_lit(e, "zip") || eq_lit(e, "rar") || eq_lit(e, "7z") || eq_lit(e, "tar") || eq_lit(e, "gz")
        || eq_lit(e, "tgz") || eq_lit(e, "bz2") || eq_lit(e, "xz") {
        Category::Archive
    } else if eq_lit(e, "mp3") || eq_lit(e, "flac") || eq_lit(e, "wav") || eq_lit(e, "ogg")
        || eq_lit(e, "m4a") || eq_lit(e, "aac") || eq_lit(e, "opus") || eq_lit(e, "wma") {
        Category::Audio
    } else if eq_lit(e, "mp4") || eq_lit(e, "mkv") || eq_lit(e, "avi") || eq_lit(e, "mov")
        || eq_lit(e, "webm") || eq_lit(e, "m4v") || eq_lit(e, "ts") {
        Category::Video
    } else if eq_lit(e, "jpg") || eq_lit(e, "jpeg") || eq_lit(e, "png") || eq_lit(e, "gif")
        || eq_lit(e, "webp") || eq_lit(e, "bmp") || eq_lit(e, "tiff") || eq_lit(e, "svg")
        || eq_lit(e, "heic") {
        Category::Image
    } else if eq_lit(e, "pdf") || eq_lit(e, "epub") || eq_lit(e, "mobi") || eq_lit(e, "doc")
        || eq_lit(e, "docx") || eq_lit(e, "xls") || eq_lit(e, "xlsx") || eq_lit(e, "ppt")
        || eq_lit(e, "pptx") || eq_lit(e, "txt") || eq_lit(e, "md") || eq_lit(e, "rtf") {
        Category::Document
    } else if eq_lit(e, "exe") || eq_lit(e, "msi") || eq_lit(e, "apk") || eq_lit(e, "dmg")
        || eq_lit(e, "deb") || eq_lit(e, "rpm") || eq_lit(e, "appimage") {
        Category::Software
    } else {
        Category::Unknown
    }
}

/// The category of a file, by its case-insensitive extension.
pub fn classify(path: &str) -> (c: Category)
    ensures
        c == classify_spec(path@),
{
    let p = chars_of(path);
    match extension_of(p.as_slice()) {
        Some(e) => {
            let f = fold_chars(e.as_slice());
            category_of_ext_exec(f.as_slice())
        },
        None => Category::Unknown,
    }
}


/// What category a file gets, by its extension lower-cased (`x`):
/// zip rar 7z tar gz tgz bz2 xz are archives; mp3 flac wav ogg m4a aac opus
/// wma audio; mp4 mkv avi mov webm m4v ts video; jpg jpeg png gif webp bmp
/// tiff svg heic images; pdf epub mobi doc docx xls xlsx ppt pptx txt md rtf
/// documents; exe msi apk dmg deb rpm appimage software; a path without an
/// extension is unknown.
pub proof fn law_classify_table(path: Seq<char>, e: Seq<char>, x: Seq<char>)
    requires
        extension(path) == Some(e),
        x == crate::text::lower(e),
    ensures
        (x == "zip"@ || x == "rar"@ || x == "7z"@ || x == "tar"@ || x == "gz"@ || x == "tgz"@ || x == "bz2"@ || x == "xz"@) ==> classify_spec(path) == Category::Archive,
        (x == "mp3"@ || x == "flac"@ || x == "wav"@ || x == "ogg"@ || x == "m4a"@ || x == "aac"@ || x == "opus"@ || x == "wma"@) ==> classify_spec(path) == Category::Audio,
        (x == "mp4"@ || x == "mkv"@ || x == "avi"@ || x == "mov"@ || x == "webm"@ || x == "m4v"@ || x == "ts"@) ==> classify_spec(path) == Category::Video,
        (x == "jpg"@ || x == "jpeg"@ || x == "png"@ || x == "gif"@ || x == "webp"@ || x == "bmp"@ || x == "tiff"@ || x == "svg"@ || x == "heic"@) ==> classify_spec(path) == Category::Image,
        (x == "pdf"@ || x == "epub"@ || x == "mobi"@ || x == "doc"@ || x == "docx"@ || x == "xls"@ || x == "xlsx"@ || x == "ppt"@ || x == "pptx"@ || x == "txt"@ || x == "md"@ || x == "rtf"@) ==> classify_spec(path) == Category::Document,
        (x == "exe"@ || x == "msi"@ || x == "apk"@ || x == "dmg"@ || x == "deb"@ || x == "rpm"@ || x == "appimage"@) ==> classify_spec(path) == Category::Software,
{
    lemma_ext_archive(e, x);
    lemma_ext_audio(e, x);
    lemma_ext_video(e, x);
    lemma_ext_image(e, x);
    lemma_ext_document(e, x);
    lemma_ext_software(e, x);
}

/// A path without an extension is of unknown category.
pub proof fn law_classify_no_extension(path: Seq<char>)
    requires
        extension(path) is None,
    ensures
        classify_spec(path) == Category::Unknown,
{
}

/// An extension that lower-cases to a text without the Kelvin sign folds to
/// that text.
proof fn lemma_fold_lower(e: Seq<char>, x: Seq<char>)
    requires
        x == crate::text::lower(e),
        forall|i: int| 0 <= i < x.len() ==> #[trigger] x[i] != '\u{212a}',
    ensures
        fold(e) == x,
{
    assert forall|i: int| 0 <= i < e.len() implies #[trigger] fold(e)[i] == x[i] by {
        assert(x[i] == crate::text::lower_char(e[i]));
    }
    assert(fold(e) =~= x);
}

proof fn lemma_ext_archive(e: Seq<char>, x: Seq<char>)
    requires
        x == crate::text::lower(e),
    ensures
        (x == "zip"@ || x == "rar"@ || x == "7z"@ || x == "tar"@ || x == "gz"@ || x == "tgz"@ || x == "bz2"@ || x == "xz"@) ==> category_of_ext(fold(e)) == Category::Archive,
{
    reveal_strlit("zip");
    reveal_strlit("rar");
    reveal_strlit("7z");
    reveal_strlit("tar");
    reveal_strlit("gz");
    reveal_strlit("tgz");
    reveal_strlit("bz2");
    reveal_strlit("xz");
    if x == "zip"@ {
        lemma_fold_lower(e, x);
    }
    if x == "rar"@ {
        lemma_fold_lower(e, x);
    }
    if x == "7z"@ {
        lemma_fold_lower(e, x);
    }
    if x == "tar"@ {
        lemma_fold_lower(e, x);
    }
    if x == "gz"@ {
        lemma_fold_lower(e, x);
    }
    if x == "tgz"@ {
        lemma_fold_lower(e, x);
    }
    if x == "bz2"@ {
        lemma_fold_lower(e, x);
    }
    if x == "xz"@ {
        lemma_fold_lower(e, x);
    }
}

proof fn lemma_ext_audio(e: Seq<char>, x: Seq<char>)
    requires
        x == crate::text::lower(e),
    ensures
        (x == "mp3"@ || x == "flac"@ || x == "wav"@ || x == "ogg"@ || x == "m4a"@ || x == "aac"@ || x == "opus"@ || x == "wma"@) ==> category_of_ext(fold(e)) == Category::Audio,
{
    reveal_strlit("zip");
    reveal_strlit("rar");
    reveal_strlit("7z");
    reveal_strlit("tar");
    reveal_strlit("gz");
    reveal_strlit("tgz");
    reveal_strlit("bz2");
    reveal_strlit("xz");
    reveal_strlit("mp3");
    reveal_strlit("flac");
    reveal_strlit("wav");
    reveal_strlit("ogg");
    reveal_strlit("m4a");
    reveal_strlit("aac");
    reveal_strlit("opus");
    reveal_strlit("wma");
    if x == "mp3"@ {
        assert(x[0] != "zip"@[0]);
        assert(x[0] != "rar"@[0]);
        assert(x.len() != "7z"@.len());
        assert(x[0] != "tar"@[0]);
        assert(x.len() != "gz"@.len());
        assert(x[0] != "tgz"@[0]);
        assert(x[0] != "bz2"@[0]);
        assert(x.len() != "xz"@.len());
        lemma_fold_lower(e, x);
    }
    if x == "flac"@ {
        assert(x.len() != "zip"@.len());
        assert(x.len() != "rar"@.len());
        assert(x.len() != "7z"@.len());
        assert(x.len() != "tar"@.len());
        assert(x.len() != "gz"@.len());
        assert(x.len() != "tgz"@.len());
        assert(x.len() != "bz2"@.len());
        assert(x.len() != "xz"@.len());
        lemma_fold_lower(e, x);
    }
    if x == "wav"@ {
        assert(x[0] != "zip"@[0]);
        assert(x[0] != "rar"@[0]);
        assert(x.len() != "7z"@.len());
        assert(x[0] != "tar"@[0]);
        assert(x.len() != "gz"@.len());
        assert(x[0] != "tgz"@[0]);
        assert(x[0] != "bz2"@[0]);
        assert(x.len() != "xz"@.len());
        lemma_fold_lower(e, x);
    }
    if x == "ogg"@ {
        assert(x[0] != "zip"@[0]);
        assert(x[0] != "rar"@[0]);
        assert(x.len() != "7z"@.len());
        assert(x[0] != "tar"@[0]);
        assert(x.len() != "gz"@.len());
        assert(x[0] != "tgz"@[0]);
        assert(x[0] != "bz2"@[0]);
        assert(x.len() != "xz"@.len());
        lemma_fold_lower(e, x);
    }
    if x == "m4a"@ {
        assert(x[0] != "zip"@[0]);
        assert(x[0] != "rar"@[0]);
        assert(x.len() != "7z"@.len());
        assert(x[0] != "tar"@[0]);
        assert(x.len() != "gz"@.len());
        assert(x[0] != "tgz"@[0]);
        assert(x[0] != "bz2"@[0]);
        assert(x.len() != "xz"@.len());
        lemma_fold_lower(e, x);
    }
    if x == "aac"@ {
        assert(x[0] != "zip"@[0]);
        assert(x[0] != "rar"@[0]);
        assert(x.len() != "7z"@.len());
        assert(x[0] != "tar"@[0]);
        assert(x.len() != "gz"@.len());
        assert(x[0] != "tgz"@[0]);
        assert(x[0] != "bz2"@[0]);
        assert(x.len() != "xz"@.len());
        lemma_fold_lower(e, x);
    }
    if x == "opus"@ {
        assert(x.len() != "zip"@.len());
        assert(x.len() != "rar"@.len());
        assert(x.len() != "7z"@.len());
        assert(x.len() != "tar"@.len());
        assert(x.len() != "gz"@.len());
        assert(x.len() != "tgz"@.len());
        assert(x.len() != "bz2"@.len());
        assert(x.len() != "xz"@.len());
        lemma_fold_lower(e, x);
    }
    if x == "wma"@ {
        assert(x[0] != "zip"@[0]);
        assert(x[0] != "rar"@[0]);
        assert(x.len() != "7z"@.len());
        assert(x[0] != "tar"@[0]);
        assert(x.len() != "gz"@.len());
        assert(x[0] != "tgz"@[0]);
        assert(x[0] != "bz2"@[0]);
        assert(x.len() != "xz"@.len());
        lemma_fold_lower(e, x);
    }
}

proof fn lemma_ext_video(e: Seq<char>, x: Seq<char>)
    requires
        x == crate::text::lower(e),
    ensures
        (x == "mp4"@ || x == "mkv"@ || x == "avi"@ || x == "mov"@ || x == "webm"@ || x == "m4v"@ || x == "ts"@) ==> category_of_ext(fold(e)) == Category::Video,
{
    reveal_strlit("zip");
    reveal_strlit("rar");
    reveal_strlit("7z");
    reveal_strlit("tar");
    reveal_strlit("gz");
    reveal_strlit("tgz");
    reveal_strlit("bz2");
    reveal_strlit("xz");
    reveal_strlit("mp3");
    reveal_strlit("flac");
    reveal_strlit("wav");
    reveal_strlit("ogg");
    reveal_strlit("m4a");
    reveal_strlit("aac");
    reveal_strlit("opus");
    reveal_strlit("wma");
    reveal_strlit("mp4");
    reveal_strlit("mkv");
    reveal_strlit("avi");
    reveal_strlit("mov");
    reveal_strlit("webm");
    reveal_strlit("m4v");
    reveal_strlit("ts");
    if x == "mp4"@ {
        assert(x[0] != "zip"@[0]);
        assert(x[0] != "rar"@[0]);
        assert(x.len() != "7z"@.len());
        assert(x[0] != "tar"@[0]);
        assert(x.len() != "gz"@.len());
        assert(x[0] != "tgz"@[0]);
        assert(x[0] != "bz2"@[0]);
        assert(x.len() != "xz"@.len());
        assert(x[2] != "mp3"@[2]);
        assert(x.len() != "flac"@.len());
        assert(x[0] != "wav"@[0]);
        assert(x[0] != "ogg"@[0]);
        assert(x[1] != "m4a"@[1]);
        assert(x[0] != "aac"@[0]);
        assert(x.len() != "opus"@.len());
        assert(x[0] != "wma"@[0]);
        lemma_fold_lower(e, x);
    }
    if x == "mkv"@ {
        assert(x[0] != "zip"@[0]);
        assert(x[0] != "rar"@[0]);
        assert(x.len() != "7z"@.len());
        assert(x[0] != "tar"@[0]);
        assert(x.len() != "gz"@.len());
        assert(x[0] != "tgz"@[0]);
        assert(x[0] != "bz2"@[0]);
        assert(x.len() != "xz"@.len());
        assert(x[1] != "mp3"@[1]);
        assert(x.len() != "flac"@.len());
        assert(x[0] != "wav"@[0]);
        assert(x[0] != "ogg"@[0]);
        assert(x[1] != "m4a"@[1]);
        assert(x[0] != "aac"@[0]);
        assert(x.len() != "opus"@.len());
        assert(x[0] != "wma"@[0]);
        lemma_fold_lower(e, x);
    }
    if x == "avi"@ {
        assert(x[0] != "zip"@[0]);
        assert(x[0] != "rar"@[0]);
        assert(x.len() != "7z"@.len());
        assert(x[0] != "tar"@[0]);
        assert(x.len() != "gz"@.len());
        assert(x[0] != "tgz"@[0]);
        assert(x[0] != "bz2"@[0]);
        assert(x.len() != "xz"@.len());
        assert(x[0] != "mp3"@[0]);
        assert(x.len() != "flac"@.len());
        assert(x[0] != "wav"@[0]);
        assert(x[0] != "ogg"@[0]);
        assert(x[0] != "m4a"@[0]);
        assert(x[1] != "aac"@[1]);
        assert(x.len() != "opus"@.len());
        assert(x[0] != "wma"@[0]);
        lemma_fold_lower(e, x);
    }
    if x == "mov"@ {
        assert(x[0] != "zip"@[0]);
        assert(x[0] != "rar"@[0]);
        assert(x.len() != "7z"@.len());
        assert(x[0] != "tar"@[0]);
        assert(x.len() != "gz"@.len());
        assert(x[0] != "tgz"@[0]);
        assert(x[0] != "bz2"@[0]);
        assert(x.len() != "xz"@.len());
        assert(x[1] != "mp3"@[1]);
        assert(x.len() != "flac"@.len());
        assert(x[0] != "wav"@[0]);
        assert(x[0] != "ogg"@[0]);
        assert(x[1] != "m4a"@[1]);
        assert(x[0] != "aac"@[0]);
        assert(x.len() != "opus"@.len());
        assert(x[0] != "wma"@[0]);
        lemma_fold_lower(e, x);
    }
    if x == "webm"@ {
        assert(x.len() != "zip"@.len());
        assert(x.len() != "rar"@.len());
        assert(x.len() != "7z"@.len());
        assert(x.len() != "tar"@.len());
        assert(x.len() != "gz"@.len());
        assert(x.len() != "tgz"@.len());
        assert(x.len() != "bz2"@.len());
        assert(x.len() != "xz"@.len());
        assert(x.len() != "mp3"@.len());
        assert(x[0] != "flac"@[0]);
        assert(x.len() != "wav"@.len());
        assert(x.len() != "ogg"@.len());
        assert(x.len() != "m4a"@.len());
        assert(x.len() != "aac"@.len());
        assert(x[0] != "opus"@[0]);
        assert(x.len() != "wma"@.len());
        lemma_fold_lower(e, x);
    }
    if x == "m4v"@ {
        assert(x[0] != "zip"@[0]);
        assert(x[0] != "rar"@[0]);
        assert(x.len() != "7z"@.len());
        assert(x[0] != "tar"@[0]);
        assert(x.len() != "gz"@.len());
        assert(x[0] != "tgz"@[0]);
        assert(x[0] != "bz2"@[0]);
        assert(x.len() != "xz"@.len());
        assert(x[1] != "mp3"@[1]);
        assert(x.len() != "flac"@.len());
        assert(x[0] != "wav"@[0]);
        assert(x[0] != "ogg"@[0]);
        assert(x[2] != "m4a"@[2]);
        assert(x[0] != "aac"@[0]);
        assert(x.len() != "opus"@.len());
        assert(x[0] != "wma"@[0]);
        lemma_fold_lower(e, x);
    }
    if x == "ts"@ {
        assert(x.len() != "zip"@.len());
        assert(x.len() != "rar"@.len());
        assert(x[0] != "7z"@[0]);
        assert(x.len() != "tar"@.len());
        assert(x[0] != "gz"@[0]);
        assert(x.len() != "tgz"@.len());
        assert(x.len() != "bz2"@.len());
        assert(x[0] != "xz"@[0]);
        assert(x.len() != "mp3"@.len());
        assert(x.len() != "flac"@.len());
        assert(x.len() != "wav"@.len());
        assert(x.len() != "ogg"@.len());
        assert(x.len() != "m4a"@.len());
        assert(x.len() != "aac"@.len());
        assert(x.len() != "opus"@.len());
        assert(x.len() != "wma"@.len());
        lemma_fold_lower(e, x);
    }
}

proof fn lemma_ext_image(e: Seq<char>, x: Seq<char>)
    requires
        x == crate::text::lower(e),
    ensures
        (x == "jpg"@ || x == "jpeg"@ || x == "png"@ || x == "gif"@ || x == "webp"@ || x == "bmp"@ || x == "tiff"@ || x == "svg"@ || x == "heic"@) ==> category_of_ext(fold(e)) == Category::Image,
{
    reveal_strlit("zip");
    reveal_strlit("rar");
    reveal_strlit("7z");
    reveal_strlit("tar");
    reveal_strlit("gz");
    reveal_strlit("tgz");
    reveal_strlit("bz2");
    reveal_strlit("xz");
    reveal_strlit("mp3");
    reveal_strlit("flac");
    reveal_strlit("wav");
    reveal_strlit("ogg");
    reveal_strlit("m4a");
    reveal_strlit("aac");
    reveal_strlit("opus");
    reveal_strlit("wma");
    reveal_strlit("mp4");
    reveal_strlit("mkv");
    reveal_strlit("avi");
    reveal_strlit("mov");
    reveal_strlit("webm");
    reveal_strlit("m4v");
    reveal_strlit("ts");
    reveal_strlit("jpg");
    reveal_strlit("jpeg");
    reveal_strlit("png");
    reveal_strlit("gif");
    reveal_strlit("webp");
    reveal_strlit("bmp");
    reveal_strlit("tiff");
    reveal_strlit("svg");
    reveal_strlit("heic");
    if x == "jpg"@ {
        assert(x[0] != "zip"@[0]);
        assert(x[0] != "rar"@[0]);
        assert(x.len() != "7z"@.len());
        assert(x[0] != "tar"@[0]);
        assert(x.len() != "gz"@.len());
        assert(x[0] != "tgz"@[0]);
        assert(x[0] != "bz2"@[0]);
        assert(x.len() != "xz"@.len());
        assert(x[0] != "mp3"@[0]);
        assert(x.len() != "flac"@.len());
        assert(x[0] != "wav"@[0]);
        assert(x[0] != "ogg"@[0]);
        assert(x[0] != "m4a"@[0]);
        assert(x[0] != "aac"@[0]);
        assert(x.len() != "opus"@.len());
        assert(x[0] != "wma"@[0]);
        assert(x[0] != "mp4"@[0]);
        assert(x[0] != "mkv"@[0]);
        assert(x[0] != "avi"@[0]);
        assert(x[0] != "mov"@[0]);
        assert(x.len() != "webm"@.len());
        assert(x[0] != "m4v"@[0]);
        assert(x.len() != "ts"@.len());
        lemma_fold_lower(e, x);
    }
    if x == "jpeg"@ {
        assert(x.len() != "zip"@.len());
        assert(x.len() != "rar"@.len());
        assert(x.len() != "7z"@.len());
        assert(x.len() != "tar"@.len());
        assert(x.len() != "gz"@.len());
        assert(x.len() != "tgz"@.len());
        assert(x.len() != "bz2"@.len());
        assert(x.len() != "xz"@.len());
        assert(x.len() != "mp3"@.len());
        assert(x[0] != "flac"@[0]);
        assert(x.len() != "wav"@.len());
        assert(x.len() != "ogg"@.len());
        assert(x.len() != "m4a"@.len());
        assert(x.len() != "aac"@.len());
        assert(x[0] != "opus"@[0]);
        assert(x.len() != "wma"@.len());
        assert(x.len() != "mp4"@.len());
        assert(x.len() != "mkv"@.len());
        assert(x.len() != "avi"@.len());
        assert(x.len() != "mov"@.len());
        assert(x[0] != "webm"@[0]);
        assert(x.len() != "m4v"@.len());
        assert(x.len() != "ts"@.len());
        lemma_fold_lower(e, x);
    }
    if x == "png"@ {
        assert(x[0] != "zip"@[0]);
        assert(x[0] != "rar"@[0]);
        assert(x.len() != "7z"@.len());
        assert(x[0] != "tar"@[0]);
        assert(x.len() != "gz"@.len());
        assert(x[0] != "tgz"@[0]);
        assert(x[0] != "bz2"@[0]);
        assert(x.len() != "xz"@.len());
        assert(x[0] != "mp3"@[0]);
        assert(x.len() != "flac"@.len());
        assert(x[0] != "wav"@[0]);
        assert(x[0] != "ogg"@[0]);
        assert(x[0] != "m4a"@[0]);
        assert(x[0] != "aac"@[0]);
        assert(x.len() != "opus"@.len());
        assert(x[0] != "wma"@[0]);
        assert(x[0] != "mp4"@[0]);
        assert(x[0] != "mkv"@[0]);
        assert(x[0] != "avi"@[0]);
        assert(x[0] != "mov"@[0]);
        assert(x.len() != "webm"@.len());
        assert(x[0] != "m4v"@[0]);
        assert(x.len() != "ts"@.len());
        lemma_fold_lower(e, x);
    }
    if x == "gif"@ {
        assert(x[0] != "zip"@[0]);
        assert(x[0] != "rar"@[0]);
        assert(x.len() != "7z"@.len());
        assert(x[0] != "tar"@[0]);
        assert(x.len() != "gz"@.len());
        assert(x[0] != "tgz"@[0]);
        assert(x[0] != "bz2"@[0]);
        assert(x.len() != "xz"@.len());
        assert(x[0] != "mp3"@[0]);
        assert(x.len() != "flac"@.len());
        assert(x[0] != "wav"@[0]);
        assert(x[0] != "ogg"@[0]);
        assert(x[0] != "m4a"@[0]);
        assert(x[0] != "aac"@[0]);
        assert(x.len() != "opus"@.len());
        assert(x[0] != "wma"@[0]);
        assert(x[0] != "mp4"@[0]);
        assert(x[0] != "mkv"@[0]);
        assert(x[0] != "avi"@[0]);
        assert(x[0] != "mov"@[0]);
        assert(x.len() != "webm"@.len());
        assert(x[0] != "m4v"@[0]);
        assert(x.len() != "ts"@.len());
        lemma_fold_lower(e, x);
    }
    if x == "webp"@ {
        assert(x.len() != "zip"@.len());
        assert(x.len() != "rar"@.len());
        assert(x.len() != "7z"@.len());
        assert(x.len() != "tar"@.len());
        assert(x.len() != "gz"@.len());
        assert(x.len() != "tgz"@.len());
        assert(x.len() != "bz2"@.len());
        assert(x.len() != "xz"@.len());
        assert(x.len() != "mp3"@.len());
        assert(x[0] != "flac"@[0]);
        assert(x.len() != "wav"@.len());
        assert(x.len() != "ogg"@.len());
        assert(x.len() != "m4a"@.len());
        assert(x.len() != "aac"@.len());
        assert(x[0] != "opus"@[0]);
        assert(x.len() != "wma"@.len());
        assert(x.len() != "mp4"@.len());
        assert(x.len() != "mkv"@.len());
        assert(x.len() != "avi"@.len());
        assert(x.len() != "mov"@.len());
        assert(x[3] != "webm"@[3]);
        assert(x.len() != "m4v"@.len());
        assert(x.len() != "ts"@.len());
        lemma_fold_lower(e, x);
    }
    if x == "bmp"@ {
        assert(x[0] != "zip"@[0]);
        assert(x[0] != "rar"@[0]);
        assert(x.len() != "7z"@.len());
        assert(x[0] != "tar"@[0]);
        assert(x.len() != "gz"@.len());
        assert(x[0] != "tgz"@[0]);
        assert(x[1] != "bz2"@[1]);
        assert(x.len() != "xz"@.len());
        assert(x[0] != "mp3"@[0]);
        assert(x.len() != "flac"@.len());
        assert(x[0] != "wav"@[0]);
        assert(x[0] != "ogg"@[0]);
        assert(x[0] != "m4a"@[0]);
        assert(x[0] != "aac"@[0]);
        assert(x.len() != "opus"@.len());
        assert(x[0] != "wma"@[0]);
        assert(x[0] != "mp4"@[0]);
        assert(x[0] != "mkv"@[0]);
        assert(x[0] != "avi"@[0]);
        assert(x[0] != "mov"@[0]);
        assert(x.len() != "webm"@.len());
        assert(x[0] != "m4v"@[0]);
        assert(x.len() != "ts"@.len());
        lemma_fold_lower(e, x);
    }
    if x == "tiff"@ {
        assert(x.len() != "zip"@.len());
        assert(x.len() != "rar"@.len());
        assert(x.len() != "7z"@.len());
        assert(x.len() != "tar"@.len());
        assert(x.len() != "gz"@.len());
        assert(x.len() != "tgz"@.len());
        assert(x.len() != "bz2"@.len());
        assert(x.len() != "xz"@.len());
        assert(x.len() != "mp3"@.len());
        assert(x[0] != "flac"@[0]);
        assert(x.len() != "wav"@.len());
        assert(x.len() != "ogg"@.len());
        assert(x.len() != "m4a"@.len());
        assert(x.len() != "aac"@.len());
        assert(x[0] != "opus"@[0]);
        assert(x.len() != "wma"@.len());
        assert(x.len() != "mp4"@.len());
        assert(x.len() != "mkv"@.len());
        assert(x.len() != "avi"@.len());
        assert(x.len() != "mov"@.len());
        assert(x[0] != "webm"@[0]);
        assert(x.len() != "m4v"@.len());
        assert(x.len() != "ts"@.len());
        lemma_fold_lower(e, x);
    }
    if x == "svg"@ {
        assert(x[0] != "zip"@[0]);
        assert(x[0] != "rar"@[0]);
        assert(x.len() != "7z"@.len());
        assert(x[0] != "tar"@[0]);
        assert(x.len() != "gz"@.len());
        assert(x[0] != "tgz"@[0]);
        assert(x[0] != "bz2"@[0]);
        assert(x.len() != "xz"@.len());
        assert(x[0] != "mp3"@[0]);
        assert(x.len() != "flac"@.len());
        assert(x[0] != "wav"@[0]);
        assert(x[0] != "ogg"@[0]);
        assert(x[0] != "m4a"@[0]);
        assert(x[0] != "aac"@[0]);
        assert(x.len() != "opus"@.len());
        assert(x[0] != "wma"@[0]);
        assert(x[0] != "mp4"@[0]);
        assert(x[0] != "mkv"@[0]);
        assert(x[0] != "avi"@[0]);
        assert(x[0] != "mov"@[0]);
        assert(x.len() != "webm"@.len());
        assert(x[0] != "m4v"@[0]);
        assert(x.len() != "ts"@.len());
        lemma_fold_lower(e, x);
    }
    if x == "heic"@ {
        assert(x.len() != "zip"@.len());
        assert(x.len() != "rar"@.len());
        assert(x.len() != "7z"@.len());
        assert(x.len() != "tar"@.len());
        assert(x.len() != "gz"@.len());
        assert(x.len() != "tgz"@.len());
        assert(x.len() != "bz2"@.len());
        assert(x.len() != "xz"@.len());
        assert(x.len() != "mp3"@.len());
        assert(x[0] != "flac"@[0]);
        assert(x.len() != "wav"@.len());
        assert(x.len() != "ogg"@.len());
        assert(x.len() != "m4a"@.len());
        assert(x.len() != "aac"@.len());
        assert(x[0] != "opus"@[0]);
        assert(x.len() != "wma"@.len());
        assert(x.len() != "mp4"@.len());
        assert(x.len() != "mkv"@.len());
        assert(x.len() != "avi"@.len());
        assert(x.len() != "mov"@.len());
        assert(x[0] != "webm"@[0]);
        assert(x.len() != "m4v"@.len());
        assert(x.len() != "ts"@.len());
        lemma_fold_lower(e, x);
    }
}

proof fn lemma_ext_document(e: Seq<char>, x: Seq<char>)
    requires
        x == crate::text::lower(e),
    ensures
        (x == "pdf"@ || x == "epub"@ || x == "mobi"@ || x == "doc"@ || x == "docx"@ || x == "xls"@ || x == "xlsx"@ || x == "ppt"@ || x == "pptx"@ || x == "txt"@ || x == "md"@ || x == "rtf"@) ==> category_of_ext(fold(e)) == Category::Document,
{
    reveal_strlit("zip");
    reveal_strlit("rar");
    reveal_strlit("7z");
    reveal_strlit("tar");
    reveal_strlit("gz");
    reveal_strlit("tgz");
    reveal_strlit("bz2");
    reveal_strlit("xz");
    reveal_strlit("mp3");
    reveal_strlit("flac");
    reveal_strlit("wav");
    reveal_strlit("ogg");
    reveal_strlit("m4a");
    reveal_strlit("aac");
    reveal_strlit("opus");
    reveal_strlit("wma");
    reveal_strlit("mp4");
    reveal_strlit("mkv");
    reveal_strlit("avi");
    reveal_strlit("mov");
    reveal_strlit("webm");
    reveal_strlit("m4v");
    reveal_strlit("ts");
    reveal_strlit("jpg");
    reveal_strlit("jpeg");
    reveal_strlit("png");
    reveal_strlit("gif");
    reveal_strlit("webp");
    reveal_strlit("bmp");
    reveal_strlit("tiff");
    reveal_strlit("svg");
    reveal_strlit("heic");
    reveal_strlit("pdf");
    reveal_strlit("epub");
    reveal_strlit("mobi");
    reveal_strlit("doc");
    reveal_strlit("docx");
    reveal_strlit("xls");
    reveal_strlit("xlsx");
    reveal_strlit("ppt");
    reveal_strlit("pptx");
    reveal_strlit("txt");
    reveal_strlit("md");
    reveal_strlit("rtf");
    if x == "pdf"@ {
        assert(x[0] != "zip"@[0]);
        assert(x[0] != "rar"@[0]);
        assert(x.len() != "7z"@.len());
        assert(x[0] != "tar"@[0]);
        assert(x.len() != "gz"@.len());
        assert(x[0] != "tgz"@[0]);
        assert(x[0] != "bz2"@[0]);
        assert(x.len() != "xz"@.len());
        assert(x[0] != "mp3"@[0]);
        assert(x.len() != "flac"@.len());
        assert(x[0] != "wav"@[0]);
        assert(x[0] != "ogg"@[0]);
        assert(x[0] != "m4a"@[0]);
        assert(x[0] != "aac"@[0]);
        assert(x.len() != "opus"@.len());
        assert(x[0] != "wma"@[0]);
        assert(x[0] != "mp4"@[0]);
        assert(x[0] != "mkv"@[0]);
        assert(x[0] != "avi"@[0]);
        assert(x[0] != "mov"@[0]);
        assert(x.len() != "webm"@.len());
        assert(x[0] != "m4v"@[0]);
        assert(x.len() != "ts"@.len());
        assert(x[0] != "jpg"@[0]);
        assert(x.len() != "jpeg"@.len());
        assert(x[1] != "png"@[1]);
        assert(x[0] != "gif"@[0]);
        assert(x.len() != "webp"@.len());
        assert(x[0] != "bmp"@[0]);
        assert(x.len() != "tiff"@.len());
        assert(x[0] != "svg"@[0]);
        assert(x.len() != "heic"@.len());
        lemma_fold_lower(e, x);
    }
    if x == "epub"@ {
        assert(x.len() != "zip"@.len());
        assert(x.len() != "rar"@.len());
        assert(x.len() != "7z"@.len());
        assert(x.len() != "tar"@.len());
        assert(x.len() != "gz"@.len());
        assert(x.len() != "tgz"@.len());
        assert(x.len() != "bz2"@.len());
        assert(x.len() != "xz"@.len());
        assert(x.len() != "mp3"@.len());
        assert(x[0] != "flac"@[0]);
        assert(x.len() != "wav"@.len());
        assert(x.len() != "ogg"@.len());
        assert(x.len() != "m4a"@.len());
        assert(x.len() != "aac"@.len());
        assert(x[0] != "opus"@[0]);
        assert(x.len() != "wma"@.len());
        assert(x.len() != "mp4"@.len());
        assert(x.len() != "mkv"@.len());
        assert(x.len() != "avi"@.len());
        assert(x.len() != "mov"@.len());
        assert(x[0] != "webm"@[0]);
        assert(x.len() != "m4v"@.len());
        assert(x.len() != "ts"@.len());
        assert(x.len() != "jpg"@.len());
        assert(x[0] != "jpeg"@[0]);
        assert(x.len() != "png"@.len());
        assert(x.len() != "gif"@.len());
        assert(x[0] != "webp"@[0]);
        assert(x.len() != "bmp"@.len());
        assert(x[0] != "tiff"@[0]);
        assert(x.len() != "svg"@.len());
        assert(x[0] != "heic"@[0]);
        lemma_fold_lower(e, x);
    }
    if x == "mobi"@ {
        assert(x.len() != "zip"@.len());
        assert(x.len() != "rar"@.len());
        assert(x.len() != "7z"@.len());
        assert(x.len() != "tar"@.len());
        assert(x.len() != "gz"@.len());
        assert(x.len() != "tgz"@.len());
        assert(x.len() != "bz2"@.len());
        assert(x.len() != "xz"@.len());
        assert(x.len() != "mp3"@.len());
        assert(x[0] != "flac"@[0]);
        assert(x.len() != "wav"@.len());
        assert(x.len() != "ogg"@.len());
        assert(x.len() != "m4a"@.len());
        assert(x.len() != "aac"@.len());
        assert(x[0] != "opus"@[0]);
        assert(x.len() != "wma"@.len());
        assert(x.len() != "mp4"@.len());
        assert(x.len() != "mkv"@.len());
        assert(x.len() != "avi"@.len());
        assert(x.len() != "mov"@.len());
        assert(x[0] != "webm"@[0]);
        assert(x.len() != "m4v"@.len());
        assert(x.len() != "ts"@.len());
        assert(x.len() != "jpg"@.len());
        assert(x[0] != "jpeg"@[0]);
        assert(x.len() != "png"@.len());
        assert(x.len() != "gif"@.len());
        assert(x[0] != "webp"@[0]);
        assert(x.len() != "bmp"@.len());
        assert(x[0] != "tiff"@[0]);
        assert(x.len() != "svg"@.len());
        assert(x[0] != "heic"@[0]);
        lemma_fold_lower(e, x);
    }
    if x == "doc"@ {
        assert(x[0] != "zip"@[0]);
        assert(x[0] != "rar"@[0]);
        assert(x.len() != "7z"@.len());
        assert(x[0] != "tar"@[0]);
        assert(x.len() != "gz"@.len());
        assert(x[0] != "tgz"@[0]);
        assert(x[0] != "bz2"@[0]);
        assert(x.len() != "xz"@.len());
        assert(x[0] != "mp3"@[0]);
        assert(x.len() != "flac"@.len());
        assert(x[0] != "wav"@[0]);
        assert(x[0] != "ogg"@[0]);
        assert(x[0] != "m4a"@[0]);
        assert(x[0] != "aac"@[0]);
        assert(x.len() != "opus"@.len());
        assert(x[0] != "wma"@[0]);
        assert(x[0] != "mp4"@[0]);
        assert(x[0] != "mkv"@[0]);
        assert(x[0] != "avi"@[0]);
        assert(x[0] != "mov"@[0]);
        assert(x.len() != "webm"@.len());
        assert(x[0] != "m4v"@[0]);
        assert(x.len() != "ts"@.len());
        assert(x[0] != "jpg"@[0]);
        assert(x.len() != "jpeg"@.len());
        assert(x[0] != "png"@[0]);
        assert(x[0] != "gif"@[0]);
        assert(x.len() != "webp"@.len());
        assert(x[0] != "bmp"@[0]);
        assert(x.len() != "tiff"@.len());
        assert(x[0] != "svg"@[0]);
        assert(x.len() != "heic"@.len());
        lemma_fold_lower(e, x);
    }
    if x == "docx"@ {
        assert(x.len() != "zip"@.len());
        assert(x.len() != "rar"@.len());
        assert(x.len() != "7z"@.len());
        assert(x.len() != "tar"@.len());
        assert(x.len() != "gz"@.len());
        assert(x.len() != "tgz"@.len());
        assert(x.len() != "bz2"@.len());
        assert(x.len() != "xz"@.len());
        assert(x.len() != "mp3"@.len());
        assert(x[0] != "flac"@[0]);
        assert(x.len() != "wav"@.len());
        assert(x.len() != "ogg"@.len());
        assert(x.len() != "m4a"@.len());
        assert(x.len() != "aac"@.len());
        assert(x[0] != "opus"@[0]);
        assert(x.len() != "wma"@.len());
        assert(x.len() != "mp4"@.len());
        assert(x.len() != "mkv"@.len());
        assert(x.len() != "avi"@.len());
        assert(x.len() != "mov"@.len());
        assert(x[0] != "webm"@[0]);
        assert(x.len() != "m4v"@.len());
        assert(x.len() != "ts"@.len());
        assert(x.len() != "jpg"@.len());
        assert(x[0] != "jpeg"@[0]);
        assert(x.len() != "png"@.len());
        assert(x.len() != "gif"@.len());
        assert(x[0] != "webp"@[0]);
        assert(x.len() != "bmp"@.len());
        assert(x[0] != "tiff"@[0]);
        assert(x.len() != "svg"@.len());
        assert(x[0] != "heic"@[0]);
        lemma_fold_lower(e, x);
    }
    if x == "xls"@ {
        assert(x[0] != "zip"@[0]);
        assert(x[0] != "rar"@[0]);
        assert(x.len() != "7z"@.len());
        assert(x[0] != "tar"@[0]);
        assert(x.len() != "gz"@.len());
        assert(x[0] != "tgz"@[0]);
        assert(x[0] != "bz2"@[0]);
        assert(x.len() != "xz"@.len());
        assert(x[0] != "mp3"@[0]);
        assert(x.len() != "flac"@.len());
        assert(x[0] != "wav"@[0]);
        assert(x[0] != "ogg"@[0]);
        assert(x[0] != "m4a"@[0]);
        assert(x[0] != "aac"@[0]);
        assert(x.len() != "opus"@.len());
        assert(x[0] != "wma"@[0]);
        assert(x[0] != "mp4"@[0]);
        assert(x[0] != "mkv"@[0]);
        assert(x[0] != "avi"@[0]);
        assert(x[0] != "mov"@[0]);
        assert(x.len() != "webm"@.len());
        assert(x[0] != "m4v"@[0]);
        assert(x.len() != "ts"@.len());
        assert(x[0] != "jpg"@[0]);
        assert(x.len() != "jpeg"@.len());
        assert(x[0] != "png"@[0]);
        assert(x[0] != "gif"@[0]);
        assert(x.len() != "webp"@.len());
        assert(x[0] != "bmp"@[0]);
        assert(x.len() != "tiff"@.len());
        assert(x[0] != "svg"@[0]);
        assert(x.len() != "heic"@.len());
        lemma_fold_lower(e, x);
    }
    if x == "xlsx"@ {
        assert(x.len() != "zip"@.len());
        assert(x.len() != "rar"@.len());
        assert(x.len() != "7z"@.len());
        assert(x.len() != "tar"@.len());
        assert(x.len() != "gz"@.len());
        assert(x.len() != "tgz"@.len());
        assert(x.len() != "bz2"@.len());
        assert(x.len() != "xz"@.len());
        assert(x.len() != "mp3"@.len());
        assert(x[0] != "flac"@[0]);
        assert(x.len() != "wav"@.len());
        assert(x.len() != "ogg"@.len());
        assert(x.len() != "m4a"@.len());
        assert(x.len() != "aac"@.len());
        assert(x[0] != "opus"@[0]);
        assert(x.len() != "wma"@.len());
        assert(x.len() != "mp4"@.len());
        assert(x.len() != "mkv"@.len());
        assert(x.len() != "avi"@.len());
        assert(x.len() != "mov"@.len());
        assert(x[0] != "webm"@[0]);
        assert(x.len() != "m4v"@.len());
        assert(x.len() != "ts"@.len());
        assert(x.len() != "jpg"@.len());
        assert(x[0] != "jpeg"@[0]);
        assert(x.len() != "png"@.len());
        assert(x.len() != "gif"@.len());
        assert(x[0] != "webp"@[0]);
        assert(x.len() != "bmp"@.len());
        assert(x[0] != "tiff"@[0]);
        assert(x.len() != "svg"@.len());
        assert(x[0] != "heic"@[0]);
        lemma_fold_lower(e, x);
    }
    if x == "ppt"@ {
        assert(x[0] != "zip"@[0]);
        assert(x[0] != "rar"@[0]);
        assert(x.len() != "7z"@.len());
        assert(x[0] != "tar"@[0]);
        assert(x.len() != "gz"@.len());
        assert(x[0] != "tgz"@[0]);
        assert(x[0] != "bz2"@[0]);
        assert(x.len() != "xz"@.len());
        assert(x[0] != "mp3"@[0]);
        assert(x.len() != "flac"@.len());
        assert(x[0] != "wav"@[0]);
        assert(x[0] != "ogg"@[0]);
        assert(x[0] != "m4a"@[0]);
        assert(x[0] != "aac"@[0]);
        assert(x.len() != "opus"@.len());
        assert(x[0] != "wma"@[0]);
        assert(x[0] != "mp4"@[0]);
        assert(x[0] != "mkv"@[0]);
        assert(x[0] != "avi"@[0]);
        assert(x[0] != "mov"@[0]);
        assert(x.len() != "webm"@.len());
        assert(x[0] != "m4v"@[0]);
        assert(x.len() != "ts"@.len());
        assert(x[0] != "jpg"@[0]);
        assert(x.len() != "jpeg"@.len());
        assert(x[1] != "png"@[1]);
        assert(x[0] != "gif"@[0]);
        assert(x.len() != "webp"@.len());
        assert(x[0] != "bmp"@[0]);
        assert(x.len() != "tiff"@.len());
        assert(x[0] != "svg"@[0]);
        assert(x.len() != "heic"@.len());
        lemma_fold_lower(e, x);
    }
    if x == "pptx"@ {
        assert(x.len() != "zip"@.len());
        assert(x.len() != "rar"@.len());
        assert(x.len() != "7z"@.len());
        assert(x.len() != "tar"@.len());
        assert(x.len() != "gz"@.len());
        assert(x.len() != "tgz"@.len());
        assert(x.len() != "bz2"@.len());
        assert(x.len() != "xz"@.len());
        assert(x.len() != "mp3"@.len());
        assert(x[0] != "flac"@[0]);
        assert(x.len() != "wav"@.len());
        assert(x.len() != "ogg"@.len());
        assert(x.len() != "m4a"@.len());
        assert(x.len() != "aac"@.len());
        assert(x[0] != "opus"@[0]);
        assert(x.len() != "wma"@.len());
        assert(x.len() != "mp4"@.len());
        assert(x.len() != "mkv"@.len());
        assert(x.len() != "avi"@.len());
        assert(x.len() != "mov"@.len());
        assert(x[0] != "webm"@[0]);
        assert(x.len() != "m4v"@.len());
        assert(x.len() != "ts"@.len());
        assert(x.len() != "jpg"@.len());
        assert(x[0] != "jpeg"@[0]);
        assert(x.len() != "png"@.len());
        assert(x.len() != "gif"@.len());
        assert(x[0] != "webp"@[0]);
        assert(x.len() != "bmp"@.len());
        assert(x[0] != "tiff"@[0]);
        assert(x.len() != "svg"@.len());
        assert(x[0] != "heic"@[0]);
        lemma_fold_lower(e, x);
    }
    if x == "txt"@ {
        assert(x[0] != "zip"@[0]);
        assert(x[0] != "rar"@[0]);
        assert(x.len() != "7z"@.len());
        assert(x[1] != "tar"@[1]);
        assert(x.len() != "gz"@.len());
        assert(x[1] != "tgz"@[1]);
        assert(x[0] != "bz2"@[0]);
        assert(x.len() != "xz"@.len());
        assert(x[0] != "mp3"@[0]);
        assert(x.len() != "flac"@.len());
        assert(x[0] != "wav"@[0]);
        assert(x[0] != "ogg"@[0]);
        assert(x[0] != "m4a"@[0]);
        assert(x[0] != "aac"@[0]);
        assert(x.len() != "opus"@.len());
        assert(x[0] != "wma"@[0]);
        assert(x[0] != "mp4"@[0]);
        assert(x[0] != "mkv"@[0]);
        assert(x[0] != "avi"@[0]);
        assert(x[0] != "mov"@[0]);
        assert(x.len() != "webm"@.len());
        assert(x[0] != "m4v"@[0]);
        assert(x.len() != "ts"@.len());
        assert(x[0] != "jpg"@[0]);
        assert(x.len() != "jpeg"@.len());
        assert(x[0] != "png"@[0]);
        assert(x[0] != "gif"@[0]);
        assert(x.len() != "webp"@.len());
        assert(x[0] != "bmp"@[0]);
        assert(x.len() != "tiff"@.len());
        assert(x[0] != "svg"@[0]);
        assert(x.len() != "heic"@.len());
        lemma_fold_lower(e, x);
    }
    if x == "md"@ {
        assert(x.len() != "zip"@.len());
        assert(x.len() != "rar"@.len());
        assert(x[0] != "7z"@[0]);
        assert(x.len() != "tar"@.len());
        assert(x[0] != "gz"@[0]);
        assert(x.len() != "tgz"@.len());
        assert(x.len() != "bz2"@.len());
        assert(x[0] != "xz"@[0]);
        assert(x.len() != "mp3"@.len());
        assert(x.len() != "flac"@.len());
        assert(x.len() != "wav"@.len());
        assert(x.len() != "ogg"@.len());
        assert(x.len() != "m4a"@.len());
        assert(x.len() != "aac"@.len());
        assert(x.len() != "opus"@.len());
        assert(x.len() != "wma"@.len());
        assert(x.len() != "mp4"@.len());
        assert(x.len() != "mkv"@.len());
        assert(x.len() != "avi"@.len());
        assert(x.len() != "mov"@.len());
        assert(x.len() != "webm"@.len());
        assert(x.len() != "m4v"@.len());
        assert(x[0] != "ts"@[0]);
        assert(x.len() != "jpg"@.len());
        assert(x.len() != "jpeg"@.len());
        assert(x.len() != "png"@.len());
        assert(x.len() != "gif"@.len());
        assert(x.len() != "webp"@.len());
        assert(x.len() != "bmp"@.len());
        assert(x.len() != "tiff"@.len());
        assert(x.len() != "svg"@.len());
        assert(x.len() != "heic"@.len());
        lemma_fold_lower(e, x);
    }
    if x == "rtf"@ {
        assert(x[0] != "zip"@[0]);
        assert(x[1] != "rar"@[1]);
        assert(x.len() != "7z"@.len());
        assert(x[0] != "tar"@[0]);
        assert(x.len() != "gz"@.len());
        assert(x[0] != "tgz"@[0]);
        assert(x[0] != "bz2"@[0]);
        assert(x.len() != "xz"@.len());
        assert(x[0] != "mp3"@[0]);
        assert(x.len() != "flac"@.len());
        assert(x[0] != "wav"@[0]);
        assert(x[0] != "ogg"@[0]);
        assert(x[0] != "m4a"@[0]);
        assert(x[0] != "aac"@[0]);
        assert(x.len() != "opus"@.len());
        assert(x[0] != "wma"@[0]);
        assert(x[0] != "mp4"@[0]);
        assert(x[0] != "mkv"@[0]);
        assert(x[0] != "avi"@[0]);
        assert(x[0] != "mov"@[0]);
        assert(x.len() != "webm"@.len());
        assert(x[0] != "m4v"@[0]);
        assert(x.len() != "ts"@.len());
        assert(x[0] != "jpg"@[0]);
        assert(x.len() != "jpeg"@.len());
        assert(x[0] != "png"@[0]);
        assert(x[0] != "gif"@[0]);
        assert(x.len() != "webp"@.len());
        assert(x[0] != "bmp"@[0]);
        assert(x.len() != "tiff"@.len());
        assert(x[0] != "svg"@[0]);
        assert(x.len() != "heic"@.len());
        lemma_fold_lower(e, x);
    }
}

proof fn lemma_ext_software(e: Seq<char>, x: Seq<char>)
    requires
        x == crate::text::lower(e),
    ensures
        (x == "exe"@ || x == "msi"@ || x == "apk"@ || x == "dmg"@ || x == "deb"@ || x == "rpm"@ || x == "appimage"@) ==> category_of_ext(fold(e)) == Category::Software,
{
    reveal_strlit("zip");
    reveal_strlit("rar");
    reveal_strlit("7z");
    reveal_strlit("tar");
    reveal_strlit("gz");
    reveal_strlit("tgz");
    reveal_strlit("bz2");
    reveal_strlit("xz");
    reveal_strlit("mp3");
    reveal_strlit("flac");
    reveal_strlit("wav");
    reveal_strlit("ogg");
    reveal_strlit("m4a");
    reveal_strlit("aac");
    reveal_strlit("opus");
    reveal_strlit("wma");
    reveal_strlit("mp4");
    reveal_strlit("mkv");
    reveal_strlit("avi");
    reveal_strlit("mov");
    reveal_strlit("webm");
    reveal_strlit("m4v");
    reveal_strlit("ts");
    reveal_strlit("jpg");
    reveal_strlit("jpeg");
    reveal_strlit("png");
    reveal_strlit("gif");
    reveal_strlit("webp");
    reveal_strlit("bmp");
    reveal_strlit("tiff");
    reveal_strlit("svg");
    reveal_strlit("heic");
    reveal_strlit("pdf");
    reveal_strlit("epub");
    reveal_strlit("mobi");
    reveal_strlit("doc");
    reveal_strlit("docx");
    reveal_strlit("xls");
    reveal_strlit("xlsx");
    reveal_strlit("ppt");
    reveal_strlit("pptx");
    reveal_strlit("txt");
    reveal_strlit("md");
    reveal_strlit("rtf");
    reveal_strlit("exe");
    reveal_strlit("msi");
    reveal_strlit("apk");
    reveal_strlit("dmg");
    reveal_strlit("deb");
    reveal_strlit("rpm");
    reveal_strlit("appimage");
    if x == "exe"@ {
        assert(x[0] != "zip"@[0]);
        assert(x[0] != "rar"@[0]);
        assert(x.len() != "7z"@.len());
        assert(x[0] != "tar"@[0]);
        assert(x.len() != "gz"@.len());
        assert(x[0] != "tgz"@[0]);
        assert(x[0] != "bz2"@[0]);
        assert(x.len() != "xz"@.len());
        assert(x[0] != "mp3"@[0]);
        assert(x.len() != "flac"@.len());
        assert(x[0] != "wav"@[0]);
        assert(x[0] != "ogg"@[0]);
        assert(x[0] != "m4a"@[0]);
        assert(x[0] != "aac"@[0]);
        assert(x.len() != "opus"@.len());
        assert(x[0] != "wma"@[0]);
        assert(x[0] != "mp4"@[0]);
        assert(x[0] != "mkv"@[0]);
        assert(x[0] != "avi"@[0]);
        assert(x[0] != "mov"@[0]);
        assert(x.len() != "webm"@.len());
        assert(x[0] != "m4v"@[0]);
        assert(x.len() != "ts"@.len());
        assert(x[0] != "jpg"@[0]);
        assert(x.len() != "jpeg"@.len());
        assert(x[0] != "png"@[0]);
        assert(x[0] != "gif"@[0]);
        assert(x.len() != "webp"@.len());
        assert(x[0] != "bmp"@[0]);
        assert(x.len() != "tiff"@.len());
        assert(x[0] != "svg"@[0]);
        assert(x.len() != "heic"@.len());
        assert(x[0] != "pdf"@[0]);
        assert(x.len() != "epub"@.len());
        assert(x.len() != "mobi"@.len());
        assert(x[0] != "doc"@[0]);
        assert(x.len() != "docx"@.len());
        assert(x[0] != "xls"@[0]);
        assert(x.len() != "xlsx"@.len());
        assert(x[0] != "ppt"@[0]);
        assert(x.len() != "pptx"@.len());
        assert(x[0] != "txt"@[0]);
        assert(x.len() != "md"@.len());
        assert(x[0] != "rtf"@[0]);
        lemma_fold_lower(e, x);
    }
    if x == "msi"@ {
        assert(x[0] != "zip"@[0]);
        assert(x[0] != "rar"@[0]);
        assert(x.len() != "7z"@.len());
        assert(x[0] != "tar"@[0]);
        assert(x.len() != "gz"@.len());
        assert(x[0] != "tgz"@[0]);
        assert(x[0] != "bz2"@[0]);
        assert(x.len() != "xz"@.len());
        assert(x[1] != "mp3"@[1]);
        assert(x.len() != "flac"@.len());
        assert(x[0] != "wav"@[0]);
        assert(x[0] != "ogg"@[0]);
        assert(x[1] != "m4a"@[1]);
        assert(x[0] != "aac"@[0]);
        assert(x.len() != "opus"@.len());
        assert(x[0] != "wma"@[0]);
        assert(x[1] != "mp4"@[1]);
        assert(x[1] != "mkv"@[1]);
        assert(x[0] != "avi"@[0]);
        assert(x[1] != "mov"@[1]);
        assert(x.len() != "webm"@.len());
        assert(x[1] != "m4v"@[1]);
        assert(x.len() != "ts"@.len());
        assert(x[0] != "jpg"@[0]);
        assert(x.len() != "jpeg"@.len());
        assert(x[0] != "png"@[0]);
        assert(x[0] != "gif"@[0]);
        assert(x.len() != "webp"@.len());
        assert(x[0] != "bmp"@[0]);
        assert(x.len() != "tiff"@.len());
        assert(x[0] != "svg"@[0]);
        assert(x.len() != "heic"@.len());
        assert(x[0] != "pdf"@[0]);
        assert(x.len() != "epub"@.len());
        assert(x.len() != "mobi"@.len());
        assert(x[0] != "doc"@[0]);
        assert(x.len() != "docx"@.len());
        assert(x[0] != "xls"@[0]);
        assert(x.len() != "xlsx"@.len());
        assert(x[0] != "ppt"@[0]);
        assert(x.len() != "pptx"@.len());
        assert(x[0] != "txt"@[0]);
        assert(x.len() != "md"@.len());
        assert(x[0] != "rtf"@[0]);
        lemma_fold_lower(e, x);
    }
    if x == "apk"@ {
        assert(x[0] != "zip"@[0]);
        assert(x[0] != "rar"@[0]);
        assert(x.len() != "7z"@.len());
        assert(x[0] != "tar"@[0]);
        assert(x.len() != "gz"@.len());
        assert(x[0] != "tgz"@[0]);
        assert(x[0] != "bz2"@[0]);
        assert(x.len() != "xz"@.len());
        assert(x[0] != "mp3"@[0]);
        assert(x.len() != "flac"@.len());
        assert(x[0] != "wav"@[0]);
        assert(x[0] != "ogg"@[0]);
        assert(x[0] != "m4a"@[0]);
        assert(x[1] != "aac"@[1]);
        assert(x.len() != "opus"@.len());
        assert(x[0] != "wma"@[0]);
        assert(x[0] != "mp4"@[0]);
        assert(x[0] != "mkv"@[0]);
        assert(x[1] != "avi"@[1]);
        assert(x[0] != "mov"@[0]);
        assert(x.len() != "webm"@.len());
        assert(x[0] != "m4v"@[0]);
        assert(x.len() != "ts"@.len());
        assert(x[0] != "jpg"@[0]);
        assert(x.len() != "jpeg"@.len());
        assert(x[0] != "png"@[0]);
        assert(x[0] != "gif"@[0]);
        assert(x.len() != "webp"@.len());
        assert(x[0] != "bmp"@[0]);
        assert(x.len() != "tiff"@.len());
        assert(x[0] != "svg"@[0]);
        assert(x.len() != "heic"@.len());
        assert(x[0] != "pdf"@[0]);
        assert(x.len() != "epub"@.len());
        assert(x.len() != "mobi"@.len());
        assert(x[0] != "doc"@[0]);
        assert(x.len() != "docx"@.len());
        assert(x[0] != "xls"@[0]);
        assert(x.len() != "xlsx"@.len());
        assert(x[0] != "ppt"@[0]);
        assert(x.len() != "pptx"@.len());
        assert(x[0] != "txt"@[0]);
        assert(x.len() != "md"@.len());
        assert(x[0] != "rtf"@[0]);
        lemma_fold_lower(e, x);
    }
    if x == "dmg"@ {
        assert(x[0] != "zip"@[0]);
        assert(x[0] != "rar"@[0]);
        assert(x.len() != "7z"@.len());
        assert(x[0] != "tar"@[0]);
        assert(x.len() != "gz"@.len());
        assert(x[0] != "tgz"@[0]);
        assert(x[0] != "bz2"@[0]);
        assert(x.len() != "xz"@.len());
        assert(x[0] != "mp3"@[0]);
        assert(x.len() != "flac"@.len());
        assert(x[0] != "wav"@[0]);
        assert(x[0] != "ogg"@[0]);
        assert(x[0] != "m4a"@[0]);
        assert(x[0] != "aac"@[0]);
        assert(x.len() != "opus"@.len());
        assert(x[0] != "wma"@[0]);
        assert(x[0] != "mp4"@[0]);
        assert(x[0] != "mkv"@[0]);
        assert(x[0] != "avi"@[0]);
        assert(x[0] != "mov"@[0]);
        assert(x.len() != "webm"@.len());
        assert(x[0] != "m4v"@[0]);
        assert(x.len() != "ts"@.len());
        assert(x[0] != "jpg"@[0]);
        assert(x.len() != "jpeg"@.len());
        assert(x[0] != "png"@[0]);
        assert(x[0] != "gif"@[0]);
        assert(x.len() != "webp"@.len());
        assert(x[0] != "bmp"@[0]);
        assert(x.len() != "tiff"@.len());
        assert(x[0] != "svg"@[0]);
        assert(x.len() != "heic"@.len());
        assert(x[0] != "pdf"@[0]);
        assert(x.len() != "epub"@.len());
        assert(x.len() != "mobi"@.len());
        assert(x[1] != "doc"@[1]);
        assert(x.len() != "docx"@.len());
        assert(x[0] != "xls"@[0]);
        assert(x.len() != "xlsx"@.len());
        assert(x[0] != "ppt"@[0]);
        assert(x.len() != "pptx"@.len());
        assert(x[0] != "txt"@[0]);
        assert(x.len() != "md"@.len());
        assert(x[0] != "rtf"@[0]);
        lemma_fold_lower(e, x);
    }
    if x == "deb"@ {
        assert(x[0] != "zip"@[0]);
        assert(x[0] != "rar"@[0]);
        assert(x.len() != "7z"@.len());
        assert(x[0] != "tar"@[0]);
        assert(x.len() != "gz"@.len());
        assert(x[0] != "tgz"@[0]);
        assert(x[0] != "bz2"@[0]);
        assert(x.len() != "xz"@.len());
        assert(x[0] != "mp3"@[0]);
        assert(x.len() != "flac"@.len());
        assert(x[0] != "wav"@[0]);
        assert(x[0] != "ogg"@[0]);
        assert(x[0] != "m4a"@[0]);
        assert(x[0] != "aac"@[0]);
        assert(x.len() != "opus"@.len());
        assert(x[0] != "wma"@[0]);
        assert(x[0] != "mp4"@[0]);
        assert(x[0] != "mkv"@[0]);
        assert(x[0] != "avi"@[0]);
        assert(x[0] != "mov"@[0]);
        assert(x.len() != "webm"@.len());
        assert(x[0] != "m4v"@[0]);
        assert(x.len() != "ts"@.len());
        assert(x[0] != "jpg"@[0]);
        assert(x.len() != "jpeg"@.len());
        assert(x[0] != "png"@[0]);
        assert(x[0] != "gif"@[0]);
        assert(x.len() != "webp"@.len());
        assert(x[0] != "bmp"@[0]);
        assert(x.len() != "tiff"@.len());
        assert(x[0] != "svg"@[0]);
        assert(x.len() != "heic"@.len());
        assert(x[0] != "pdf"@[0]);
        assert(x.len() != "epub"@.len());
        assert(x.len() != "mobi"@.len());
        assert(x[1] != "doc"@[1]);
        assert(x.len() != "docx"@.len());
        assert(x[0] != "xls"@[0]);
        assert(x.len() != "xlsx"@.len());
        assert(x[0] != "ppt"@[0]);
        assert(x.len() != "pptx"@.len());
        assert(x[0] != "txt"@[0]);
        assert(x.len() != "md"@.len());
        assert(x[0] != "rtf"@[0]);
        lemma_fold_lower(e, x);
    }
    if x == "rpm"@ {
        assert(x[0] != "zip"@[0]);
        assert(x[1] != "rar"@[1]);
        assert(x.len() != "7z"@.len());
        assert(x[0] != "tar"@[0]);
        assert(x.len() != "gz"@.len());
        assert(x[0] != "tgz"@[0]);
        assert(x[0] != "bz2"@[0]);
        assert(x.len() != "xz"@.len());
        assert(x[0] != "mp3"@[0]);
        assert(x.len() != "flac"@.len());
        assert(x[0] != "wav"@[0]);
        assert(x[0] != "ogg"@[0]);
        assert(x[0] != "m4a"@[0]);
        assert(x[0] != "aac"@[0]);
        assert(x.len() != "opus"@.len());
        assert(x[0] != "wma"@[0]);
        assert(x[0] != "mp4"@[0]);
        assert(x[0] != "mkv"@[0]);
        assert(x[0] != "avi"@[0]);
        assert(x[0] != "mov"@[0]);
        assert(x.len() != "webm"@.len());
        assert(x[0] != "m4v"@[0]);
        assert(x.len() != "ts"@.len());
        assert(x[0] != "jpg"@[0]);
        assert(x.len() != "jpeg"@.len());
        assert(x[0] != "png"@[0]);
        assert(x[0] != "gif"@[0]);
        assert(x.len() != "webp"@.len());
        assert(x[0] != "bmp"@[0]);
        assert(x.len() != "tiff"@.len());
        assert(x[0] != "svg"@[0]);
        assert(x.len() != "heic"@.len());
        assert(x[0] != "pdf"@[0]);
        assert(x.len() != "epub"@.len());
        assert(x.len() != "mobi"@.len());
        assert(x[0] != "doc"@[0]);
        assert(x.len() != "docx"@.len());
        assert(x[0] != "xls"@[0]);
        assert(x.len() != "xlsx"@.len());
        assert(x[0] != "ppt"@[0]);
        assert(x.len() != "pptx"@.len());
        assert(x[0] != "txt"@[0]);
        assert(x.len() != "md"@.len());
        assert(x[1] != "rtf"@[1]);
        lemma_fold_lower(e, x);
    }
    if x == "appimage"@ {
        assert(x.len() != "zip"@.len());
        assert(x.len() != "rar"@.len());
        assert(x.len() != "7z"@.len());
        assert(x.len() != "tar"@.len());
        assert(x.len() != "gz"@.len());
        assert(x.len() != "tgz"@.len());
        assert(x.len() != "bz2"@.len());
        assert(x.len() != "xz"@.len());
        assert(x.len() != "mp3"@.len());
        assert(x.len() != "flac"@.len());
        assert(x.len() != "wav"@.len());
        assert(x.len() != "ogg"@.len());
        assert(x.len() != "m4a"@.len());
        assert(x.len() != "aac"@.len());
        assert(x.len() != "opus"@.len());
        assert(x.len() != "wma"@.len());
        assert(x.len() != "mp4"@.len());
        assert(x.len() != "mkv"@.len());
        assert(x.len() != "avi"@.len());
        assert(x.len() != "mov"@.len());
        assert(x.len() != "webm"@.len());
        assert(x.len() != "m4v"@.len());
        assert(x.len() != "ts"@.len());
        assert(x.len() != "jpg"@.len());
        assert(x.len() != "jpeg"@.len());
        assert(x.len() != "png"@.len());
        assert(x.len() != "gif"@.len());
        assert(x.len() != "webp"@.len());
        assert(x.len() != "bmp"@.len());
        assert(x.len() != "tiff"@.len());
        assert(x.len() != "svg"@.len());
        assert(x.len() != "heic"@.len());
        assert(x.len() != "pdf"@.len());
        assert(x.len() != "epub"@.len());
        assert(x.len() != "mobi"@.len());
        assert(x.len() != "doc"@.len());
        assert(x.len() != "docx"@.len());
        assert(x.len() != "xls"@.len());
        assert(x.len() != "xlsx"@.len());
        assert(x.len() != "ppt"@.len());
        assert(x.len() != "pptx"@.len());
        assert(x.len() != "txt"@.len());
        assert(x.len() != "md"@.len());
        assert(x.len() != "rtf"@.len());
        lemma_fold_lower(e, x);
    }
}

} // verus!
