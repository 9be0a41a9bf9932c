//! Peek: what kind of file a path names, how its size reads, the text shown
//! for text files and directories, and the file paths a clipboard holds.

use vstd::prelude::*;
use vstd::utf8::{encode_utf8, is_continuation_byte};
use vstd::string::StringSliceAdditionalSpecFns;

use crate::numbers::{parse_u32, unsigned_of};
use crate::text::{
    chars_of, decimal, find_char, index_of, join, line_spans, lines, push_all, push_char, push_decimal, push_joined,
    same_text, span_views, string_of, trim, trim_range, views, words, words_in, lowercase,
    to_lowercase, utf8_lossy, string_from_utf8_lossy,
};

verus! {

// ---------------------------------------------------------------------------
// Settings and the module
// ---------------------------------------------------------------------------

/// How much of a file Peek shows: lines of a text file, entries of a
/// directory.
#[derive(Debug, Clone, Copy, PartialEq, Eq, Structural)]
pub struct PeekConfig {
    pub max_preview_lines: usize,
    pub max_dir_entries: usize,
}

/// The default number of lines shown of a text file.
pub fn default_max_preview_lines() -> (n: usize)
    ensures
        n == 50,
{
    50
}

/// The default number of entries shown of a directory.
pub fn default_max_dir_entries() -> (n: usize)
    ensures
        n == 20,
{
    20
}

impl PeekConfig {
    /// The default settings: 50 lines, 20 directory entries.
    pub fn default_config() -> (c: PeekConfig)
        ensures
            c.max_preview_lines == 50,
            c.max_dir_entries == 20,
    {
        PeekConfig {
            max_preview_lines: default_max_preview_lines(),
            max_dir_entries: default_max_dir_entries(),
        }
    }
}

/// The Peek module: whether it runs, and its settings.
#[derive(Debug)]
pub struct Peek {
    running: bool,
    config: PeekConfig,
}

impl Peek {
    /// A stopped Peek with the given settings.
    pub fn new(config: PeekConfig) -> (p: Peek)
        ensures
            !p.is_running_spec(),
            p.config_spec() == config,
    {
        Peek { running: false, config }
    }

    /// Whether the module runs.
    pub closed spec fn is_running_spec(&self) -> bool {
        self.running
    }

    /// The module's settings.
    pub closed spec fn config_spec(&self) -> PeekConfig {
        self.config
    }

    /// The module's settings.
    pub fn config(&self) -> (c: &PeekConfig)
        ensures
            *c == self.config_spec(),
    {
        &self.config
    }

    /// Starts the module.
    pub fn start(&mut self)
        ensures
            final(self).is_running_spec(),
            final(self).config_spec() == old(self).config_spec(),
    {
        self.running = true;
    }

    /// Stops the module.
    pub fn stop(&mut self)
        ensures
            !final(self).is_running_spec(),
            final(self).config_spec() == old(self).config_spec(),
    {
        self.running = false;
    }

    /// Whether the module runs.
    pub fn is_running(&self) -> (b: bool)
        ensures
            b == self.is_running_spec(),
    {
        self.running
    }
}

// ---------------------------------------------------------------------------
// File kinds
// ---------------------------------------------------------------------------

/// Supported file categories for preview.
#[derive(Debug, Clone, Copy, PartialEq, Eq, Structural)]
pub enum FileKind {
    Text,
    Image,
    Pdf,
    Audio,
    Video,
    Directory,
    Unknown,
}

/// The name of a file kind.
pub open spec fn kind_name(k: FileKind) -> Seq<char> {
    match k {
        FileKind::Text => "Text"@,
        FileKind::Image => "Image"@,
        FileKind::Pdf => "PDF"@,
        FileKind::Audio => "Audio"@,
        FileKind::Video => "Video"@,
        FileKind::Directory => "Directory"@,
        FileKind::Unknown => "Unknown"@,
    }
}

impl FileKind {
    /// The kind's name, as Peek shows it.
    pub fn to_string(&self) -> (s: String)
        ensures
            s@ == kind_name(*self),
    {
        let name: &str = match self {
            FileKind::Text => "Text",
            FileKind::Image => "Image",
            FileKind::Pdf => "PDF",
            FileKind::Audio => "Audio",
            FileKind::Video => "Video",
            FileKind::Directory => "Directory",
            FileKind::Unknown => "Unknown",
        };
        crate::text::owned(name)
    }
}

/// Metadata and preview data for a file.
#[derive(Debug, Clone)]
pub struct FilePreview {
    pub path: String,
    pub kind: FileKind,
    pub size_bytes: u64,
    pub mime_type: Option<String>,
    pub preview_text: Option<String>,
    pub dimensions: Option<(u32, u32)>,
    pub duration: Option<String>,
}

// ---------------------------------------------------------------------------
// Paths
// ---------------------------------------------------------------------------

/// The position just after the last `c` in `s[0..end]`, or 0 when there is
/// none.
pub open spec fn after_last(s: Seq<char>, c: char, end: int) -> int
    decreases end,
{
    if end <= 0 {
        0
    } else if s[end - 1] == c {
        end
    } else {
        after_last(s, c, end - 1)
    }
}

pub proof fn lemma_after_last_le(s: Seq<char>, c: char, end: int)
    ensures
        0 <= after_last(s, c, end),
        end > 0 ==> after_last(s, c, end) <= end,
    decreases end,
{
    if end > 0 {
        lemma_after_last_le(s, c, end - 1);
    }
}

/// The file name of `p[0..end]`: its last component that is neither empty
/// nor `.`; none when that component is `..` or there is none
/// (`Path::file_name`).
pub open spec fn file_name_upto(p: Seq<char>, end: int) -> Option<Seq<char>>
    decreases end,
{
    if end <= 0 {
        None
    } else {
        let st = after_last(p, '/', end);
        let seg = p.subrange(st, end);
        if seg.len() == 0 || seg == seq!['.'] {
            if st <= 0 {
                None
            } else {
                proof {
                    lemma_after_last_le(p, '/', end);
                }
                file_name_upto(p, st - 1)
            }
        } else if seg == seq!['.', '.'] {
            None
        } else {
            Some(seg)
        }
    }
}

/// The extension of a file name: what follows its last `.`, unless that dot
/// is the name's first character or there is none (`Path::extension`).
pub open spec fn extension_of(name: Seq<char>) -> Option<Seq<char>> {
    let k = after_last(name, '.', name.len() as int);
    if k <= 1 {
        None
    } else {
        Some(name.subrange(k, name.len() as int))
    }
}

/// The extension of a path, empty when it has none.
pub open spec fn path_extension(p: Seq<char>) -> Seq<char> {
    match file_name_upto(p, p.len() as int) {
        Some(n) => match extension_of(n) {
            Some(e) => e,
            None => seq![],
        },
        None => seq![],
    }
}

pub fn after_last_in(v: &Vec<char>, c: char, end: usize) -> (k: usize)
    requires
        end <= v.len(),
    ensures
        k == after_last(v@, c, end as int),
        k <= end,
{
    let mut i = end;
    while i > 0
        invariant
            i <= end <= v.len(),
            after_last(v@, c, end as int) == after_last(v@, c, i as int),
        decreases i,
    {
        if v[i - 1] == c {
            return i;
        }
        i -= 1;
    }
    0
}

/// The file name of a path (`Path::file_name`).
pub fn file_name(path: &str) -> (r: Option<String>)
    ensures
        match file_name_upto(path@, path@.len() as int) {
            Some(n) => r is Some && r->0@ == n,
            None => r is None,
        },
{
    let v = chars_of(path);
    let mut end = v.len();
    loop
        invariant
            end <= v.len(),
            v@ == path@,
            file_name_upto(v@, v.len() as int) == file_name_upto(v@, end as int),
        decreases end,
    {
        if end == 0 {
            return None;
        }
        let st = after_last_in(&v, '/', end);
        let ghost seg = v@.subrange(st as int, end as int);
        let n = end - st;
        if n == 0 || (n == 1 && v[st] == '.') {
            proof {
                if n == 1 && v@[st as int] == '.' {
                    assert(seg =~= seq!['.']);
                }
            }
            if st == 0 {
                return None;
            }
            end = st - 1;
        } else if n == 2 && v[st] == '.' && v[st + 1] == '.' {
            assert(seg =~= seq!['.', '.']);
            return None;
        } else {
            proof {
                if seg == seq!['.'] {
                    assert(seg[0] == v@[st as int]);
                }
                if seg == seq!['.', '.'] {
                    assert(seg[0] == v@[st as int]);
                    assert(seg[1] == v@[st + 1]);
                }
                assert(seg.len() == n);
                assert(after_last(v@, '/', end as int) == st);
                assert(file_name_upto(v@, end as int) == Some(seg));
            }
            return Some(string_of(&v, st, end));
        }
    }
}

/// The extension of a file name (`Path::extension`).
pub fn extension(name: &str) -> (r: Option<String>)
    ensures
        match extension_of(name@) {
            Some(e) => r is Some && r->0@ == e,
            None => r is None,
        },
{
    let v = chars_of(name);
    let k = after_last_in(&v, '.', v.len());
    if k <= 1 {
        None
    } else {
        Some(string_of(&v, k, v.len()))
    }
}

// ---------------------------------------------------------------------------
// Kinds of files
// ---------------------------------------------------------------------------

/// The extensions of text files.
pub open spec fn is_text_ext(e: Seq<char>) -> bool {
    e == "txt"@ || e == "md"@ || e == "rs"@ || e == "py"@ || e == "js"@ || e == "ts"@ || e == "json"@ || e == "toml"@ || e == "yaml"@ || e == "yml"@ || e == "xml"@ || e == "html"@ || e == "css"@ || e == "sh"@ || e == "bash"@ || e == "zsh"@ || e == "c"@ || e == "cpp"@ || e == "h"@ || e == "hpp"@ || e == "java"@ || e == "go"@ || e == "rb"@ || e == "lua"@ || e == "sql"@ || e == "csv"@ || e == "log"@ || e == "conf"@ || e == "cfg"@ || e == "ini"@ || e == "env"@ || e == "dockerfile"@ || e == "makefile"@
}

fn text_ext(e: &str) -> (b: bool)
    ensures
        b == is_text_ext(e@),
{
    same_text(e, "txt") || same_text(e, "md") || same_text(e, "rs") || same_text(e, "py") || same_text(e, "js") || same_text(e, "ts") || same_text(e, "json") || same_text(e, "toml") || same_text(e, "yaml") || same_text(e, "yml") || same_text(e, "xml") || same_text(e, "html") || same_text(e, "css") || same_text(e, "sh") || same_text(e, "bash") || same_text(e, "zsh") || same_text(e, "c") || same_text(e, "cpp") || same_text(e, "h") || same_text(e, "hpp") || same_text(e, "java") || same_text(e, "go") || same_text(e, "rb") || same_text(e, "lua") || same_text(e, "sql") || same_text(e, "csv") || same_text(e, "log") || same_text(e, "conf") || same_text(e, "cfg") || same_text(e, "ini") || same_text(e, "env") || same_text(e, "dockerfile") || same_text(e, "makefile")
}

/// The extensions of image files.
pub open spec fn is_image_ext(e: Seq<char>) -> bool {
    e == "png"@ || e == "jpg"@ || e == "jpeg"@ || e == "gif"@ || e == "bmp"@ || e == "svg"@ || e == "webp"@ || e == "ico"@ || e == "tiff"@ || e == "tif"@
}

fn image_ext(e: &str) -> (b: bool)
    ensures
        b == is_image_ext(e@),
{
    same_text(e, "png") || same_text(e, "jpg") || same_text(e, "jpeg") || same_text(e, "gif") || same_text(e, "bmp") || same_text(e, "svg") || same_text(e, "webp") || same_text(e, "ico") || same_text(e, "tiff") || same_text(e, "tif")
}

/// The extensions of pdf files.
pub open spec fn is_pdf_ext(e: Seq<char>) -> bool {
    e == "pdf"@
}

fn pdf_ext(e: &str) -> (b: bool)
    ensures
        b == is_pdf_ext(e@),
{
    same_text(e, "pdf")
}

/// The extensions of audio files.
pub open spec fn is_audio_ext(e: Seq<char>) -> bool {
    e == "mp3"@ || e == "wav"@ || e == "flac"@ || e == "ogg"@ || e == "m4a"@ || e == "aac"@ || e == "wma"@ || e == "opus"@
}

fn audio_ext(e: &str) -> (b: bool)
    ensures
        b == is_audio_ext(e@),
{
    same_text(e, "mp3") || same_text(e, "wav") || same_text(e, "flac") || same_text(e, "ogg") || same_text(e, "m4a") || same_text(e, "aac") || same_text(e, "wma") || same_text(e, "opus")
}

/// The extensions of video files.
pub open spec fn is_video_ext(e: Seq<char>) -> bool {
    e == "mp4"@ || e == "mkv"@ || e == "avi"@ || e == "mov"@ || e == "webm"@ || e == "wmv"@ || e == "flv"@ || e == "m4v"@
}

fn video_ext(e: &str) -> (b: bool)
    ensures
        b == is_video_ext(e@),
{
    same_text(e, "mp4") || same_text(e, "mkv") || same_text(e, "avi") || same_text(e, "mov") || same_text(e, "webm") || same_text(e, "wmv") || same_text(e, "flv") || same_text(e, "m4v")
}

/// The extension names, character by character.
proof fn lemma_extension_texts()
    ensures
        "txt"@ == seq!['t', 'x', 't'],
        "md"@ == seq!['m', 'd'],
        "rs"@ == seq!['r', 's'],
        "py"@ == seq!['p', 'y'],
        "js"@ == seq!['j', 's'],
        "ts"@ == seq!['t', 's'],
        "json"@ == seq!['j', 's', 'o', 'n'],
        "toml"@ == seq!['t', 'o', 'm', 'l'],
        "yaml"@ == seq!['y', 'a', 'm', 'l'],
        "yml"@ == seq!['y', 'm', 'l'],
        "xml"@ == seq!['x', 'm', 'l'],
        "html"@ == seq!['h', 't', 'm', 'l'],
        "css"@ == seq!['c', 's', 's'],
        "sh"@ == seq!['s', 'h'],
        "bash"@ == seq!['b', 'a', 's', 'h'],
        "zsh"@ == seq!['z', 's', 'h'],
        "c"@ == seq!['c'],
        "cpp"@ == seq!['c', 'p', 'p'],
        "h"@ == seq!['h'],
        "hpp"@ == seq!['h', 'p', 'p'],
        "java"@ == seq!['j', 'a', 'v', 'a'],
        "go"@ == seq!['g', 'o'],
        "rb"@ == seq!['r', 'b'],
        "lua"@ == seq!['l', 'u', 'a'],
        "sql"@ == seq!['s', 'q', 'l'],
        "csv"@ == seq!['c', 's', 'v'],
        "log"@ == seq!['l', 'o', 'g'],
        "conf"@ == seq!['c', 'o', 'n', 'f'],
        "cfg"@ == seq!['c', 'f', 'g'],
        "ini"@ == seq!['i', 'n', 'i'],
        "env"@ == seq!['e', 'n', 'v'],
        "dockerfile"@ == seq!['d', 'o', 'c', 'k', 'e', 'r', 'f', 'i', 'l', 'e'],
        "makefile"@ == seq!['m', 'a', 'k', 'e', 'f', 'i', 'l', 'e'],
        "png"@ == seq!['p', 'n', 'g'],
        "jpg"@ == seq!['j', 'p', 'g'],
        "jpeg"@ == seq!['j', 'p', 'e', 'g'],
        "gif"@ == seq!['g', 'i', 'f'],
        "bmp"@ == seq!['b', 'm', 'p'],
        "svg"@ == seq!['s', 'v', 'g'],
        "webp"@ == seq!['w', 'e', 'b', 'p'],
        "ico"@ == seq!['i', 'c', 'o'],
        "tiff"@ == seq!['t', 'i', 'f', 'f'],
        "tif"@ == seq!['t', 'i', 'f'],
        "pdf"@ == seq!['p', 'd', 'f'],
        "mp3"@ == seq!['m', 'p', '3'],
        "wav"@ == seq!['w', 'a', 'v'],
        "flac"@ == seq!['f', 'l', 'a', 'c'],
        "ogg"@ == seq!['o', 'g', 'g'],
        "m4a"@ == seq!['m', '4', 'a'],
        "aac"@ == seq!['a', 'a', 'c'],
        "wma"@ == seq!['w', 'm', 'a'],
        "opus"@ == seq!['o', 'p', 'u', 's'],
        "mp4"@ == seq!['m', 'p', '4'],
        "mkv"@ == seq!['m', 'k', 'v'],
        "avi"@ == seq!['a', 'v', 'i'],
        "mov"@ == seq!['m', 'o', 'v'],
        "webm"@ == seq!['w', 'e', 'b', 'm'],
        "wmv"@ == seq!['w', 'm', 'v'],
        "flv"@ == seq!['f', 'l', 'v'],
        "m4v"@ == seq!['m', '4', 'v'],
{
    reveal_strlit("txt");
    assert("txt"@ =~= seq!['t', 'x', 't']);
    reveal_strlit("md");
    assert("md"@ =~= seq!['m', 'd']);
    reveal_strlit("rs");
    assert("rs"@ =~= seq!['r', 's']);
    reveal_strlit("py");
    assert("py"@ =~= seq!['p', 'y']);
    reveal_strlit("js");
    assert("js"@ =~= seq!['j', 's']);
    reveal_strlit("ts");
    assert("ts"@ =~= seq!['t', 's']);
    reveal_strlit("json");
    assert("json"@ =~= seq!['j', 's', 'o', 'n']);
    reveal_strlit("toml");
    assert("toml"@ =~= seq!['t', 'o', 'm', 'l']);
    reveal_strlit("yaml");
    assert("yaml"@ =~= seq!['y', 'a', 'm', 'l']);
    reveal_strlit("yml");
    assert("yml"@ =~= seq!['y', 'm', 'l']);
    reveal_strlit("xml");
    assert("xml"@ =~= seq!['x', 'm', 'l']);
    reveal_strlit("html");
    assert("html"@ =~= seq!['h', 't', 'm', 'l']);
    reveal_strlit("css");
    assert("css"@ =~= seq!['c', 's', 's']);
    reveal_strlit("sh");
    assert("sh"@ =~= seq!['s', 'h']);
    reveal_strlit("bash");
    assert("bash"@ =~= seq!['b', 'a', 's', 'h']);
    reveal_strlit("zsh");
    assert("zsh"@ =~= seq!['z', 's', 'h']);
    reveal_strlit("c");
    assert("c"@ =~= seq!['c']);
    reveal_strlit("cpp");
    assert("cpp"@ =~= seq!['c', 'p', 'p']);
    reveal_strlit("h");
    assert("h"@ =~= seq!['h']);
    reveal_strlit("hpp");
    assert("hpp"@ =~= seq!['h', 'p', 'p']);
    reveal_strlit("java");
    assert("java"@ =~= seq!['j', 'a', 'v', 'a']);
    reveal_strlit("go");
    assert("go"@ =~= seq!['g', 'o']);
    reveal_strlit("rb");
    assert("rb"@ =~= seq!['r', 'b']);
    reveal_strlit("lua");
    assert("lua"@ =~= seq!['l', 'u', 'a']);
    reveal_strlit("sql");
    assert("sql"@ =~= seq!['s', 'q', 'l']);
    reveal_strlit("csv");
    assert("csv"@ =~= seq!['c', 's', 'v']);
    reveal_strlit("log");
    assert("log"@ =~= seq!['l', 'o', 'g']);
    reveal_strlit("conf");
    assert("conf"@ =~= seq!['c', 'o', 'n', 'f']);
    reveal_strlit("cfg");
    assert("cfg"@ =~= seq!['c', 'f', 'g']);
    reveal_strlit("ini");
    assert("ini"@ =~= seq!['i', 'n', 'i']);
    reveal_strlit("env");
    assert("env"@ =~= seq!['e', 'n', 'v']);
    reveal_strlit("dockerfile");
    assert("dockerfile"@ =~= seq!['d', 'o', 'c', 'k', 'e', 'r', 'f', 'i', 'l', 'e']);
    reveal_strlit("makefile");
    assert("makefile"@ =~= seq!['m', 'a', 'k', 'e', 'f', 'i', 'l', 'e']);
    reveal_strlit("png");
    assert("png"@ =~= seq!['p', 'n', 'g']);
    reveal_strlit("jpg");
    assert("jpg"@ =~= seq!['j', 'p', 'g']);
    reveal_strlit("jpeg");
    assert("jpeg"@ =~= seq!['j', 'p', 'e', 'g']);
    reveal_strlit("gif");
    assert("gif"@ =~= seq!['g', 'i', 'f']);
    reveal_strlit("bmp");
    assert("bmp"@ =~= seq!['b', 'm', 'p']);
    reveal_strlit("svg");
    assert("svg"@ =~= seq!['s', 'v', 'g']);
    reveal_strlit("webp");
    assert("webp"@ =~= seq!['w', 'e', 'b', 'p']);
    reveal_strlit("ico");
    assert("ico"@ =~= seq!['i', 'c', 'o']);
    reveal_strlit("tiff");
    assert("tiff"@ =~= seq!['t', 'i', 'f', 'f']);
    reveal_strlit("tif");
    assert("tif"@ =~= seq!['t', 'i', 'f']);
    reveal_strlit("pdf");
    assert("pdf"@ =~= seq!['p', 'd', 'f']);
    reveal_strlit("mp3");
    assert("mp3"@ =~= seq!['m', 'p', '3']);
    reveal_strlit("wav");
    assert("wav"@ =~= seq!['w', 'a', 'v']);
    reveal_strlit("flac");
    assert("flac"@ =~= seq!['f', 'l', 'a', 'c']);
    reveal_strlit("ogg");
    assert("ogg"@ =~= seq!['o', 'g', 'g']);
    reveal_strlit("m4a");
    assert("m4a"@ =~= seq!['m', '4', 'a']);
    reveal_strlit("aac");
    assert("aac"@ =~= seq!['a', 'a', 'c']);
    reveal_strlit("wma");
    assert("wma"@ =~= seq!['w', 'm', 'a']);
    reveal_strlit("opus");
    assert("opus"@ =~= seq!['o', 'p', 'u', 's']);
    reveal_strlit("mp4");
    assert("mp4"@ =~= seq!['m', 'p', '4']);
    reveal_strlit("mkv");
    assert("mkv"@ =~= seq!['m', 'k', 'v']);
    reveal_strlit("avi");
    assert("avi"@ =~= seq!['a', 'v', 'i']);
    reveal_strlit("mov");
    assert("mov"@ =~= seq!['m', 'o', 'v']);
    reveal_strlit("webm");
    assert("webm"@ =~= seq!['w', 'e', 'b', 'm']);
    reveal_strlit("wmv");
    assert("wmv"@ =~= seq!['w', 'm', 'v']);
    reveal_strlit("flv");
    assert("flv"@ =~= seq!['f', 'l', 'v']);
    reveal_strlit("m4v");
    assert("m4v"@ =~= seq!['m', '4', 'v']);
}

/// Each of the extensions txt, md, rs, py, js, ts, json, toml, yaml, yml, xml, html, css, sh, bash, zsh, c, cpp, h, hpp, java, go, rb, lua, sql, csv, log, conf, cfg, ini, env, dockerfile, makefile names a file of kind Text.
pub proof fn law_text_extensions()
    ensures
        ext_kind(seq!['t', 'x', 't']) == FileKind::Text,
        ext_kind(seq!['m', 'd']) == FileKind::Text,
        ext_kind(seq!['r', 's']) == FileKind::Text,
        ext_kind(seq!['p', 'y']) == FileKind::Text,
        ext_kind(seq!['j', 's']) == FileKind::Text,
        ext_kind(seq!['t', 's']) == FileKind::Text,
        ext_kind(seq!['j', 's', 'o', 'n']) == FileKind::Text,
        ext_kind(seq!['t', 'o', 'm', 'l']) == FileKind::Text,
        ext_kind(seq!['y', 'a', 'm', 'l']) == FileKind::Text,
        ext_kind(seq!['y', 'm', 'l']) == FileKind::Text,
        ext_kind(seq!['x', 'm', 'l']) == FileKind::Text,
        ext_kind(seq!['h', 't', 'm', 'l']) == FileKind::Text,
        ext_kind(seq!['c', 's', 's']) == FileKind::Text,
        ext_kind(seq!['s', 'h']) == FileKind::Text,
        ext_kind(seq!['b', 'a', 's', 'h']) == FileKind::Text,
        ext_kind(seq!['z', 's', 'h']) == FileKind::Text,
        ext_kind(seq!['c']) == FileKind::Text,
        ext_kind(seq!['c', 'p', 'p']) == FileKind::Text,
        ext_kind(seq!['h']) == FileKind::Text,
        ext_kind(seq!['h', 'p', 'p']) == FileKind::Text,
        ext_kind(seq!['j', 'a', 'v', 'a']) == FileKind::Text,
        ext_kind(seq!['g', 'o']) == FileKind::Text,
        ext_kind(seq!['r', 'b']) == FileKind::Text,
        ext_kind(seq!['l', 'u', 'a']) == FileKind::Text,
        ext_kind(seq!['s', 'q', 'l']) == FileKind::Text,
        ext_kind(seq!['c', 's', 'v']) == FileKind::Text,
        ext_kind(seq!['l', 'o', 'g']) == FileKind::Text,
        ext_kind(seq!['c', 'o', 'n', 'f']) == FileKind::Text,
        ext_kind(seq!['c', 'f', 'g']) == FileKind::Text,
        ext_kind(seq!['i', 'n', 'i']) == FileKind::Text,
        ext_kind(seq!['e', 'n', 'v']) == FileKind::Text,
        ext_kind(seq!['d', 'o', 'c', 'k', 'e', 'r', 'f', 'i', 'l', 'e']) == FileKind::Text,
        ext_kind(seq!['m', 'a', 'k', 'e', 'f', 'i', 'l', 'e']) == FileKind::Text,
{
    lemma_extension_texts();
}

/// Each of the extensions png, jpg, jpeg, gif, bmp, svg, webp, ico, tiff, tif names a file of kind Image.
pub proof fn law_image_extensions()
    ensures
        ext_kind(seq!['p', 'n', 'g']) == FileKind::Image,
        ext_kind(seq!['j', 'p', 'g']) == FileKind::Image,
        ext_kind(seq!['j', 'p', 'e', 'g']) == FileKind::Image,
        ext_kind(seq!['g', 'i', 'f']) == FileKind::Image,
        ext_kind(seq!['b', 'm', 'p']) == FileKind::Image,
        ext_kind(seq!['s', 'v', 'g']) == FileKind::Image,
        ext_kind(seq!['w', 'e', 'b', 'p']) == FileKind::Image,
        ext_kind(seq!['i', 'c', 'o']) == FileKind::Image,
        ext_kind(seq!['t', 'i', 'f', 'f']) == FileKind::Image,
        ext_kind(seq!['t', 'i', 'f']) == FileKind::Image,
{
    lemma_extension_texts();
}

/// Each of the extensions pdf names a file of kind Pdf.
pub proof fn law_pdf_extensions()
    ensures
        ext_kind(seq!['p', 'd', 'f']) == FileKind::Pdf,
{
    lemma_extension_texts();
}

/// Each of the extensions mp3, wav, flac, ogg, m4a, aac, wma, opus names a file of kind Audio.
pub proof fn law_audio_extensions()
    ensures
        ext_kind(seq!['m', 'p', '3']) == FileKind::Audio,
        ext_kind(seq!['w', 'a', 'v']) == FileKind::Audio,
        ext_kind(seq!['f', 'l', 'a', 'c']) == FileKind::Audio,
        ext_kind(seq!['o', 'g', 'g']) == FileKind::Audio,
        ext_kind(seq!['m', '4', 'a']) == FileKind::Audio,
        ext_kind(seq!['a', 'a', 'c']) == FileKind::Audio,
        ext_kind(seq!['w', 'm', 'a']) == FileKind::Audio,
        ext_kind(seq!['o', 'p', 'u', 's']) == FileKind::Audio,
{
    lemma_extension_texts();
}

/// Each of the extensions mp4, mkv, avi, mov, webm, wmv, flv, m4v names a file of kind Video.
pub proof fn law_video_extensions()
    ensures
        ext_kind(seq!['m', 'p', '4']) == FileKind::Video,
        ext_kind(seq!['m', 'k', 'v']) == FileKind::Video,
        ext_kind(seq!['a', 'v', 'i']) == FileKind::Video,
        ext_kind(seq!['m', 'o', 'v']) == FileKind::Video,
        ext_kind(seq!['w', 'e', 'b', 'm']) == FileKind::Video,
        ext_kind(seq!['w', 'm', 'v']) == FileKind::Video,
        ext_kind(seq!['f', 'l', 'v']) == FileKind::Video,
        ext_kind(seq!['m', '4', 'v']) == FileKind::Video,
{
    lemma_extension_texts();
}

/// Any other extension names a file of unknown kind.
pub proof fn law_other_extensions(e: Seq<char>)
    requires
        e != seq!['t', 'x', 't'],
        e != seq!['m', 'd'],
        e != seq!['r', 's'],
        e != seq!['p', 'y'],
        e != seq!['j', 's'],
        e != seq!['t', 's'],
        e != seq!['j', 's', 'o', 'n'],
        e != seq!['t', 'o', 'm', 'l'],
        e != seq!['y', 'a', 'm', 'l'],
        e != seq!['y', 'm', 'l'],
        e != seq!['x', 'm', 'l'],
        e != seq!['h', 't', 'm', 'l'],
        e != seq!['c', 's', 's'],
        e != seq!['s', 'h'],
        e != seq!['b', 'a', 's', 'h'],
        e != seq!['z', 's', 'h'],
        e != seq!['c'],
        e != seq!['c', 'p', 'p'],
        e != seq!['h'],
        e != seq!['h', 'p', 'p'],
        e != seq!['j', 'a', 'v', 'a'],
        e != seq!['g', 'o'],
        e != seq!['r', 'b'],
        e != seq!['l', 'u', 'a'],
        e != seq!['s', 'q', 'l'],
        e != seq!['c', 's', 'v'],
        e != seq!['l', 'o', 'g'],
        e != seq!['c', 'o', 'n', 'f'],
        e != seq!['c', 'f', 'g'],
        e != seq!['i', 'n', 'i'],
        e != seq!['e', 'n', 'v'],
        e != seq!['d', 'o', 'c', 'k', 'e', 'r', 'f', 'i', 'l', 'e'],
        e != seq!['m', 'a', 'k', 'e', 'f', 'i', 'l', 'e'],
        e != seq!['p', 'n', 'g'],
        e != seq!['j', 'p', 'g'],
        e != seq!['j', 'p', 'e', 'g'],
        e != seq!['g', 'i', 'f'],
        e != seq!['b', 'm', 'p'],
        e != seq!['s', 'v', 'g'],
        e != seq!['w', 'e', 'b', 'p'],
        e != seq!['i', 'c', 'o'],
        e != seq!['t', 'i', 'f', 'f'],
        e != seq!['t', 'i', 'f'],
        e != seq!['p', 'd', 'f'],
        e != seq!['m', 'p', '3'],
        e != seq!['w', 'a', 'v'],
        e != seq!['f', 'l', 'a', 'c'],
        e != seq!['o', 'g', 'g'],
        e != seq!['m', '4', 'a'],
        e != seq!['a', 'a', 'c'],
        e != seq!['w', 'm', 'a'],
        e != seq!['o', 'p', 'u', 's'],
        e != seq!['m', 'p', '4'],
        e != seq!['m', 'k', 'v'],
        e != seq!['a', 'v', 'i'],
        e != seq!['m', 'o', 'v'],
        e != seq!['w', 'e', 'b', 'm'],
        e != seq!['w', 'm', 'v'],
        e != seq!['f', 'l', 'v'],
        e != seq!['m', '4', 'v'],
    ensures
        ext_kind(e) == FileKind::Unknown,
{
    lemma_extension_texts();
}

/// The kind of a file with a given lower-case extension.
pub open spec fn ext_kind(e: Seq<char>) -> FileKind {
    if is_text_ext(e) {
        FileKind::Text
    } else if is_image_ext(e) {
        FileKind::Image
    } else if is_pdf_ext(e) {
        FileKind::Pdf
    } else if is_audio_ext(e) {
        FileKind::Audio
    } else if is_video_ext(e) {
        FileKind::Video
    } else {
        FileKind::Unknown
    }
}

/// The kind of file a path names: a directory, or the kind its extension,
/// in lower case, gives.
pub open spec fn kind_of_path(path: Seq<char>, is_dir: bool) -> FileKind {
    if is_dir {
        FileKind::Directory
    } else {
        ext_kind(lowercase(path_extension(path)))
    }
}

/// The kind of a file by its extension, already in lower case.
pub fn kind_of_extension(e: &str) -> (k: FileKind)
    ensures
        k == ext_kind(e@),
{
    if text_ext(e) {
        FileKind::Text
    } else if image_ext(e) {
        FileKind::Image
    } else if pdf_ext(e) {
        FileKind::Pdf
    } else if audio_ext(e) {
        FileKind::Audio
    } else if video_ext(e) {
        FileKind::Video
    } else {
        FileKind::Unknown
    }
}

/// Detect what kind of file `path` is: a directory when `is_dir` (what the
/// file system says of the path), else by its extension in lower case.
pub fn detect_kind(path: &str, is_dir: bool) -> (k: FileKind)
    ensures
        k == kind_of_path(path@, is_dir),
{
    if is_dir {
        return FileKind::Directory;
    }
    let ext: String = match file_name(path) {
        Some(n) => match extension(n.as_str()) {
            Some(e) => e,
            None => String::new(),
        },
        None => String::new(),
    };
    assert(ext@ == path_extension(path@));
    let lower = to_lowercase(ext.as_str());
    kind_of_extension(lower.as_str())
}

// ---------------------------------------------------------------------------
// Sizes
// ---------------------------------------------------------------------------

/// 2^53: below it every whole number is a double.
pub open spec fn two53() -> nat {
    0x20_0000_0000_0000
}

/// The spacing of doubles around `n`: the least power of two `p` with
/// `n / p < 2^53`.
pub open spec fn double_step(n: nat) -> nat
    decreases n,
{
    if n < two53() {
        1
    } else {
        2 * double_step(n / 2)
    }
}

/// `a / d` rounded to the nearest whole number, ties to the even one.
pub open spec fn div_round_even(a: nat, d: nat) -> nat {
    let q = a / d;
    let r = a % d;
    if 2 * r > d || (2 * r == d && q % 2 == 1) {
        q + 1
    } else {
        q
    }
}

/// The double nearest to `n` (`n as f64`).
pub open spec fn as_double(n: nat) -> nat {
    let p = double_step(n);
    div_round_even(n, p) * p
}

/// `bytes` in tenths of `unit`, rounded to the nearest tenth, ties to even
/// (`{:.1}` of `bytes as f64 / unit as f64` for a power-of-two unit).
pub open spec fn tenths_of(bytes: nat, unit: nat) -> nat {
    div_round_even(10 * as_double(bytes), unit)
}

/// A number of tenths written with one decimal.
pub open spec fn one_decimal(t: nat) -> Seq<char> {
    decimal(t / 10) + "."@ + decimal(t % 10)
}

/// A size in bytes for people: bytes below a kibibyte, else kibi-, mebi- or
/// gibibytes with one decimal.
pub open spec fn size_text(bytes: nat) -> Seq<char> {
    if bytes >= 0x4000_0000 {
        one_decimal(tenths_of(bytes, 0x4000_0000)) + " GB"@
    } else if bytes >= 0x10_0000 {
        one_decimal(tenths_of(bytes, 0x10_0000)) + " MB"@
    } else if bytes >= 0x400 {
        one_decimal(tenths_of(bytes, 0x400)) + " KB"@
    } else {
        decimal(bytes) + " B"@
    }
}

fn as_double_exec(n: u64) -> (r: u128)
    ensures
        r == as_double(n as nat),
        r <= 0x1_0000_0000_0000_1000,
{
    let mut p: u128 = 1;
    let mut m: u64 = n;
    while m >= 0x20_0000_0000_0000
        invariant
            1 <= p <= 0x1000,
            m == n as nat / p as nat,
            double_step(n as nat) == p * double_step(m as nat),
        decreases m,
    {
        proof {
            vstd::arithmetic::div_mod::lemma_div_denominator(n as int, p as int, 2);
            vstd::arithmetic::div_mod::lemma_fundamental_div_mod(n as int, p as int);
            let q = n as int / p as int;
            assert(p * q <= n);
            assert(p < 0x800) by (nonlinear_arith)
                requires
                    p * q <= n,
                    q >= 0x20_0000_0000_0000,
                    n <= 0xffff_ffff_ffff_ffff,
                    p >= 1,
            ;
            let x = double_step(m as nat / 2);
            assert(double_step(m as nat) == 2 * x);
            assert(p * (2 * x) == (p * 2) * x) by (nonlinear_arith);
        }
        m = m / 2;
        p = p * 2;
    }
    let q: u128 = (n as u128) / p;
    let r: u128 = (n as u128) % p;
    let rounded: u128 = if 2 * r > p || (2 * r == p && q % 2 == 1) {
        q + 1
    } else {
        q
    };
    proof {
        assert(double_step(m as nat) == 1);
        assert(p * double_step(m as nat) == p) by (nonlinear_arith)
            requires
                double_step(m as nat) == 1,
        ;
        vstd::arithmetic::div_mod::lemma_fundamental_div_mod(n as int, p as int);
        assert(rounded * p <= 0x1_0000_0000_0000_1000) by (nonlinear_arith)
            requires
                p * q <= n,
                rounded <= q + 1,
                p >= 1,
                p <= 0x1000,
                n <= 0xffff_ffff_ffff_ffff,
        ;
    }
    rounded * p
}

fn push_one_decimal(s: &mut String, t: u128)
    requires
        t <= 0xffff_ffff_ffff_ffff,
    ensures
        final(s)@ == old(s)@ + one_decimal(t as nat),
{
    push_decimal(s, (t / 10) as u64);
    push_char(s, '.');
    push_decimal(s, (t % 10) as u64);
    proof {
        reveal_strlit(".");
    assert("."@ =~= seq!['.']);
        assert(final(s)@ =~= old(s)@ + one_decimal(t as nat));
    }
}

/// Format file size in human-readable form.
pub fn format_size(bytes: u64) -> (s: String)
    ensures
        s@ == size_text(bytes as nat),
{
    let mut s = String::new();
    if bytes < 0x400 {
        push_decimal(&mut s, bytes);
        push_all(&mut s, " B");
        return s;
    }
    let (unit, suffix): (u128, &str) = if bytes >= 0x4000_0000 {
        (0x4000_0000, " GB")
    } else if bytes >= 0x10_0000 {
        (0x10_0000, " MB")
    } else {
        (0x400, " KB")
    };
    let d = as_double_exec(bytes);
    let a: u128 = 10 * d;
    let q: u128 = a / unit;
    let r: u128 = a % unit;
    let t: u128 = if 2 * r > unit || (2 * r == unit && q % 2 == 1) {
        q + 1
    } else {
        q
    };
    assert(t <= 0xffff_ffff_ffff_ffff) by (nonlinear_arith)
        requires
            a <= 10 * 0x1_0000_0000_0000_1000,
            unit >= 0x400,
            q == a / unit,
            t <= q + 1,
    ;
    push_one_decimal(&mut s, t);
    push_all(&mut s, suffix);
    s
}

// ---------------------------------------------------------------------------
// Text shown for text files and directories
// ---------------------------------------------------------------------------

/// The first `max` lines of a text, and how many lines follow.
pub open spec fn text_preview_of(content: Seq<char>, max: nat) -> Seq<char> {
    let ls = lines(content);
    if ls.len() > max {
        join(ls.take(max as int), seq!['\n']) + "\n... ("@ + decimal((ls.len() - max) as nat)
            + " more lines)"@
    } else {
        join(ls, seq!['\n'])
    }
}

/// The text shown for a text file: its first `max_lines` lines, and a last
/// line saying how many more there are.
pub fn text_preview(content: &str, max_lines: usize) -> (s: String)
    ensures
        s@ == text_preview_of(content@, max_lines as nat),
{
    let v = chars_of(content);
    let sp = line_spans(&v);
    let n = sp.len();
    let shown = if n > max_lines {
        max_lines
    } else {
        n
    };
    let ghost ls = lines(v@);
    let mut parts: Vec<String> = Vec::new();
    let mut i: usize = 0;
    while i < shown
        invariant
            shown <= n == sp.len(),
            spans_ok_for(sp@, v@.len() as int),
            ls == span_views(v@, sp@),
            views(parts@) == ls.take(i as int),
            i <= shown,
        decreases shown - i,
    {
        let (a, b) = sp[i];
        assert(sp@[i as int].0 <= sp@[i as int].1 <= v@.len());
        let line = string_of(&v, a, b);
        proof {
            crate::text::lemma_views_push(parts@, line);
            assert(ls.take(i + 1) =~= ls.take(i as int).push(ls[i as int]));
        }
        parts.push(line);
        i += 1;
    }
    let mut s = String::new();
    push_joined(&mut s, &parts, '\n');
    if n > max_lines {
        push_all(&mut s, "\n... (");
        push_decimal(&mut s, (n - max_lines) as u64);
        push_all(&mut s, " more lines)");
        assert(s@ =~= text_preview_of(content@, max_lines as nat));
    } else {
        assert(ls.take(n as int) =~= ls);
        assert(s@ =~= text_preview_of(content@, max_lines as nat));
    }
    s
}

/// Spans that lie within `0..n`.
pub open spec fn spans_ok_for(sp: Seq<(usize, usize)>, n: int) -> bool {
    crate::text::spans_ok(sp, n)
}

/// One line of a directory listing.
pub open spec fn entry_line(name: Seq<char>, is_dir: bool) -> Seq<char> {
    "["@ + (if is_dir {
        "dir"@
    } else {
        "file"@
    }) + "] "@ + name
}

/// The lines of the first `max` entries.
pub open spec fn entry_lines(entries: Seq<(String, bool)>) -> Seq<Seq<char>> {
    entries.map_values(|e: (String, bool)| entry_line(e.0@, e.1))
}

/// A directory listing: the first `max` entries, one per line, and a last
/// line saying how many more there are.
pub open spec fn listing_of(entries: Seq<(String, bool)>, max: nat) -> Seq<char> {
    if entries.len() > max {
        join(entry_lines(entries.take(max as int)), seq!['\n']) + "\n... ("@ + decimal(
            (entries.len() - max) as nat,
        ) + " more entries)"@
    } else {
        join(entry_lines(entries), seq!['\n'])
    }
}

/// The text shown for a directory, from its entries (name, and whether the
/// entry is a directory) in the order the file system lists them.
pub fn directory_listing(entries: &Vec<(String, bool)>, max_entries: usize) -> (s: String)
    ensures
        s@ == listing_of(entries@, max_entries as nat),
{
    let n = entries.len();
    let shown = if n > max_entries {
        max_entries
    } else {
        n
    };
    let mut parts: Vec<String> = Vec::new();
    let mut i: usize = 0;
    while i < shown
        invariant
            shown <= n == entries.len(),
            i <= shown,
            views(parts@) == entry_lines(entries@.take(i as int)),
        decreases shown - i,
    {
        let mut line = String::new();
        push_char(&mut line, '[');
        if entries[i].1 {
            push_all(&mut line, "dir");
        } else {
            push_all(&mut line, "file");
        }
        push_all(&mut line, "] ");
        push_all(&mut line, entries[i].0.as_str());
        proof {
            reveal_strlit("[");
    assert("["@ =~= seq!['[']);
            assert(line@ =~= entry_line(entries@[i as int].0@, entries@[i as int].1));
            crate::text::lemma_views_push(parts@, line);
            assert(entry_lines(entries@.take(i + 1)) =~= entry_lines(entries@.take(i as int)).push(
                line@,
            ));
        }
        parts.push(line);
        i += 1;
    }
    let mut s = String::new();
    push_joined(&mut s, &parts, '\n');
    if n > max_entries {
        push_all(&mut s, "\n... (");
        push_decimal(&mut s, (n - max_entries) as u64);
        push_all(&mut s, " more entries)");
        assert(s@ =~= listing_of(entries@, max_entries as nat));
    } else {
        assert(entries@.take(n as int) =~= entries@);
        assert(s@ =~= listing_of(entries@, max_entries as nat));
    }
    s
}

// ---------------------------------------------------------------------------
// Image dimensions
// ---------------------------------------------------------------------------

/// The width and height ImageMagick's `identify -format "%w %h"` prints:
/// the first two words of its output, both whole numbers.
pub open spec fn identify_dimensions(out: Seq<char>) -> Option<(u32, u32)> {
    let ws = words(out);
    if ws.len() >= 2 {
        match (unsigned_of(ws[0], 10, u32::MAX as nat), unsigned_of(ws[1], 10, u32::MAX as nat)) {
            (Some(w), Some(h)) => Some((w as u32, h as u32)),
            _ => None,
        }
    } else {
        None
    }
}

/// Reads the dimensions from `identify`'s output.
pub fn dimensions_from_identify(out: &str) -> (r: Option<(u32, u32)>)
    ensures
        r == identify_dimensions(out@),
{
    let v = chars_of(out);
    let ws = words_in(&v, 0, v.len());
    assert(v@.subrange(0, v.len() as int) =~= out@);
    if ws.len() >= 2 {
        assert(ws@[0]@ == words(out@)[0]);
        assert(ws@[1]@ == words(out@)[1]);
        match (parse_u32(ws[0].as_str()), parse_u32(ws[1].as_str())) {
            (Some(w), Some(h)) => Some((w, h)),
            _ => None,
        }
    } else {
        None
    }
}

/// `s` with each ` x ` replaced by `x`, scanning from the left.
pub open spec fn joined_x(s: Seq<char>) -> Seq<char>
    decreases s.len(),
{
    if s.len() == 0 {
        seq![]
    } else if s.len() >= 3 && s[0] == ' ' && s[1] == 'x' && s[2] == ' ' {
        seq!['x'] + joined_x(s.skip(3))
    } else {
        seq![s[0]] + joined_x(s.skip(1))
    }
}

/// The dimensions one `, `-separated part of `file`'s output gives: the
/// whole numbers before and after its first `x` (once ` x ` is joined),
/// both between 1 and 99999.
pub open spec fn part_dimensions(p: Seq<char>) -> Option<(u32, u32)> {
    let c = joined_x(p);
    match index_of(c, 'x') {
        Some(k) => match (
            unsigned_of(trim(c.take(k)), 10, u32::MAX as nat),
            unsigned_of(trim(c.skip(k + 1)), 10, u32::MAX as nat),
        ) {
            (Some(w), Some(h)) => if 0 < w < 100000 && 0 < h < 100000 {
                Some((w as u32, h as u32))
            } else {
                None
            },
            _ => None,
        },
        None => None,
    }
}

/// A `, ` starts at `i`.
pub open spec fn sep_at(s: Seq<char>, i: int) -> bool {
    0 <= i && i + 1 < s.len() && s[i] == ',' && s[i + 1] == ' '
}

/// Where the part starting at `i` ends: the next `, `, or the end.
pub open spec fn part_end(s: Seq<char>, i: int) -> int
    decreases s.len() - i,
{
    if i >= s.len() {
        s.len() as int
    } else if sep_at(s, i) {
        i
    } else {
        part_end(s, i + 1)
    }
}

/// Where a part ends lies between its start and the text's end, at a separator
/// unless at the end, with no separator before.
pub proof fn lemma_part_end(s: Seq<char>, i: int)
    requires
        0 <= i <= s.len(),
    ensures
        i <= part_end(s, i) <= s.len(),
        part_end(s, i) < s.len() ==> sep_at(s, part_end(s, i)),
        forall|j: int| i <= j < part_end(s, i) ==> !sep_at(s, j),
    decreases s.len() - i,
{
    if i < s.len() && !sep_at(s, i) {
        lemma_part_end(s, i + 1);
    }
}

/// The first dimensions a part from `i` on gives (parts being separated by
/// `, `).
pub open spec fn dimensions_from(s: Seq<char>, i: int) -> Option<(u32, u32)>
    decreases s.len() - i,
{
    if i < 0 || i > s.len() {
        None
    } else {
        let j = part_end(s, i);
        proof {
            lemma_part_end(s, i);
        }
        match part_dimensions(s.subrange(i, j)) {
            Some(d) => Some(d),
            None => if j >= s.len() {
                None
            } else {
                dimensions_from(s, j + 2)
            },
        }
    }
}

/// The dimensions `file` prints for an image (`PNG image data, 640 x 480,
/// ...`): the first `, `-separated part that reads as `W x H`.
pub open spec fn file_output_dimensions(out: Seq<char>) -> Option<(u32, u32)> {
    dimensions_from(out, 0)
}

fn joined_x_of(v: &Vec<char>, lo: usize, hi: usize) -> (r: Vec<char>)
    requires
        lo <= hi <= v.len(),
    ensures
        r@ == joined_x(v@.subrange(lo as int, hi as int)),
{
    let mut out: Vec<char> = Vec::new();
    let mut i = lo;
    while i < hi
        invariant
            lo <= i <= hi <= v.len(),
            joined_x(v@.subrange(lo as int, hi as int)) == out@ + joined_x(v@.subrange(i as int, hi as int)),
        decreases hi - i,
    {
        let ghost rest = v@.subrange(i as int, hi as int);
        if hi - i >= 3 && v[i] == ' ' && v[i + 1] == 'x' && v[i + 2] == ' ' {
            proof {
                assert(rest.skip(3) =~= v@.subrange(i + 3, hi as int));
                assert(joined_x(rest) == seq!['x'] + joined_x(rest.skip(3)));
                assert(out@.push('x') + joined_x(rest.skip(3)) =~= out@ + (seq!['x'] + joined_x(rest.skip(3))));
            }
            out.push('x');
            i += 3;
        } else {
            proof {
                assert(rest.skip(1) =~= v@.subrange(i + 1, hi as int));
                assert(joined_x(rest) == seq![v@[i as int]] + joined_x(rest.skip(1)));
                assert(out@.push(v@[i as int]) + joined_x(rest.skip(1)) =~= out@ + (seq![v@[i as int]] + joined_x(rest.skip(1))));
            }
            out.push(v[i]);
            i += 1;
        }
    }
    assert(v@.subrange(i as int, hi as int) =~= Seq::<char>::empty());
    assert(out@ + joined_x(Seq::<char>::empty()) =~= out@);
    out
}

fn part_dimensions_of(v: &Vec<char>, lo: usize, hi: usize) -> (r: Option<(u32, u32)>)
    requires
        lo <= hi <= v.len(),
    ensures
        r == part_dimensions(v@.subrange(lo as int, hi as int)),
{
    let c = joined_x_of(v, lo, hi);
    assert(c@.subrange(0, c.len() as int) =~= c@);
    match find_char(&c, 0, c.len(), 'x') {
        Some(k) => {
            let (a, b) = trim_range(&c, 0, k);
            let (a2, b2) = trim_range(&c, k + 1, c.len());
            let ws = string_of(&c, a, b);
            let hs = string_of(&c, a2, b2);
            proof {
                assert(c@.take(k as int) =~= c@.subrange(0, k as int));
                assert(c@.skip(k + 1) =~= c@.subrange(k + 1, c.len() as int));
            }
            match (parse_u32(ws.as_str()), parse_u32(hs.as_str())) {
                (Some(w), Some(h)) => if 0 < w && w < 100000 && 0 < h && h < 100000 {
                    Some((w, h))
                } else {
                    None
                },
                _ => None,
            }
        },
        None => None,
    }
}

/// Reads the dimensions from `file`'s output.
pub fn dimensions_from_file_output(out: &str) -> (r: Option<(u32, u32)>)
    ensures
        r == file_output_dimensions(out@),
{
    let v = chars_of(out);
    let n = v.len();
    let mut i: usize = 0;
    while i <= n
        invariant
            v@ == out@,
            n == v.len(),
            dimensions_from(v@, 0) == dimensions_from(v@, i as int),
        decreases n + 1 - i,
    {
        let mut j = i;
        while j < n && !(j + 1 < n && v[j] == ',' && v[j + 1] == ' ')
            invariant
                i <= j <= n == v.len(),
                forall|q: int| i <= q < j ==> !sep_at(v@, q),
            decreases n - j,
        {
            j += 1;
        }
        proof {
            lemma_part_end(v@, i as int);
            assert(part_end(v@, i as int) == j as int) by {
                let e = part_end(v@, i as int);
                if e < j {
                    assert(sep_at(v@, e));
                }
                if j < e {
                    assert(sep_at(v@, j as int));
                }
            }
        }
        match part_dimensions_of(&v, i, j) {
            Some(d) => {
                return Some(d);
            },
            None => {},
        }
        if j >= n {
            return None;
        }
        i = j + 2;
    }
    None
}

/// The parts of the metadata line under a file's name: its size, its kind,
/// then its MIME type, dimensions (`W×H`) and duration where known.
pub open spec fn meta_parts(
    size: Seq<char>,
    kind: FileKind,
    mime: Option<Seq<char>>,
    dims: Option<(u32, u32)>,
    duration: Option<Seq<char>>,
) -> Seq<Seq<char>> {
    let a = seq![size, kind_name(kind)];
    let b = match mime {
        Some(m) => a.push(m),
        None => a,
    };
    let c = match dims {
        Some((w, h)) => b.push(decimal(w as nat) + seq!['\u{00D7}'] + decimal(h as nat)),
        None => b,
    };
    match duration {
        Some(d) => c.push(d),
        None => c,
    }
}

/// The separator of the metadata line's parts.
pub open spec fn meta_separator() -> Seq<char> {
    seq![' ', ' ', '\u{2022}', ' ', ' ']
}

/// The optional text as characters.
pub open spec fn opt_text(o: Option<String>) -> Option<Seq<char>> {
    match o {
        Some(s) => Some(s@),
        None => None,
    }
}

/// The metadata line shown under a file's name: size, kind, MIME type,
/// dimensions and duration, those known, separated by a bullet.
pub fn metadata_line(
    size_bytes: u64,
    kind: FileKind,
    mime: &Option<String>,
    dims: Option<(u32, u32)>,
    duration: &Option<String>,
) -> (s: String)
    ensures
        s@ == join(
            meta_parts(size_text(size_bytes as nat), kind, opt_text(*mime), dims, opt_text(*duration)),
            meta_separator(),
        ),
{
    let ghost sz = size_text(size_bytes as nat);
    let mut parts: Vec<String> = Vec::new();
    let f = format_size(size_bytes);
    let k = kind.to_string();
    parts.push(f);
    parts.push(k);
    let ghost a = seq![sz, kind_name(kind)];
    assert(views(parts@) =~= a);
    let ghost b = match opt_text(*mime) {
        Some(m) => a.push(m),
        None => a,
    };
    match mime {
        Some(m) => {
            let mc = m.clone();
            proof {
                crate::text::lemma_views_push(parts@, mc);
            }
            parts.push(mc);
        },
        None => {},
    }
    assert(views(parts@) =~= b);
    let ghost c = match dims {
        Some((w, h)) => b.push(decimal(w as nat) + seq!['\u{00D7}'] + decimal(h as nat)),
        None => b,
    };
    match dims {
        Some((w, h)) => {
            let mut d = crate::text::decimal_string(w as u64);
            push_char(&mut d, '\u{00D7}');
            push_decimal(&mut d, h as u64);
            assert(d@ =~= decimal(w as nat) + seq!['\u{00D7}'] + decimal(h as nat));
            proof {
                crate::text::lemma_views_push(parts@, d);
            }
            parts.push(d);
        },
        None => {},
    }
    assert(views(parts@) =~= c);
    match duration {
        Some(t) => {
            let tc = t.clone();
            proof {
                crate::text::lemma_views_push(parts@, tc);
            }
            parts.push(tc);
        },
        None => {},
    }
    assert(views(parts@) =~= meta_parts(sz, kind, opt_text(*mime), dims, opt_text(*duration)));
    let mut sep = String::new();
    push_char(&mut sep, ' ');
    push_char(&mut sep, ' ');
    push_char(&mut sep, '\u{2022}');
    push_char(&mut sep, ' ');
    push_char(&mut sep, ' ');
    assert(sep@ =~= meta_separator());
    let mut s = String::new();
    crate::text::push_joined_text(&mut s, &parts, sep.as_str());
    assert(s@ =~= join(views(parts@), meta_separator()));
    s
}

/// The position shown among a folder's files: `i/n`, counting from one.
pub fn position_label(current: usize, len: usize) -> (s: String)
    requires
        current < len,
    ensures
        s@ == decimal((current + 1) as nat) + seq!['/'] + decimal(len as nat),
{
    let mut s = crate::text::decimal_string((current + 1) as u64);
    push_char(&mut s, '/');
    push_decimal(&mut s, len as u64);
    s
}

/// The file shown after stepping `delta` files from `current` among `len`
/// files of its folder, around the ends.
pub fn navigate_index(current: usize, delta: i32, len: usize) -> (i: usize)
    requires
        0 < len <= i32::MAX,
        current < len,
        i32::MIN <= current + delta <= i32::MAX,
    ensures
        i == (current + delta) % (len as int),
        i < len,
{
    let sum: i64 = current as i64 + delta as i64;
    let n: u64 = len as u64;
    if sum >= 0 {
        let r: u64 = (sum as u64) % n;
        r as usize
    } else {
        let k: u64 = ((-sum) as u64) % n;
        let r: u64 = if k == 0 {
            0
        } else {
            n - k
        };
        proof {
            let a: int = -sum;
            let q: int = a / (n as int);
            vstd::arithmetic::div_mod::lemma_fundamental_div_mod(a, n as int);
            assert(a == (n as int) * q + k);
            if k == 0 {
                assert(sum == (-q) * (n as int) + 0) by (nonlinear_arith)
                    requires
                        a == (n as int) * q + k,
                        k == 0,
                        sum == -a,
                ;
                vstd::arithmetic::div_mod::lemma_fundamental_div_mod_converse(sum as int, n as int, -q, 0);
            } else {
                assert(sum == (-q - 1) * (n as int) + (n - k)) by (nonlinear_arith)
                    requires
                        a == (n as int) * q + k,
                        sum == -a,
                ;
                vstd::arithmetic::div_mod::lemma_fundamental_div_mod_converse(
                    sum as int,
                    n as int,
                    -q - 1,
                    n - k,
                );
            }
        }
        r as usize
    }
}

/// Stepping one file forward and one back comes back to the same file, and
/// so does stepping back then forward.
pub proof fn law_navigate_back_and_forth(current: int, len: int)
    requires
        0 <= current < len,
    ensures
        ((current + 1) % len - 1) % len == current,
        ((current - 1) % len + 1) % len == current,
{
    if current + 1 < len {
        vstd::arithmetic::div_mod::lemma_small_mod((current + 1) as nat, len as nat);
        vstd::arithmetic::div_mod::lemma_small_mod(current as nat, len as nat);
    } else {
        vstd::arithmetic::div_mod::lemma_mod_self_0(len);
        vstd::arithmetic::div_mod::lemma_fundamental_div_mod_converse(-1, len, -1, len - 1);
    }
    if current >= 1 {
        vstd::arithmetic::div_mod::lemma_small_mod((current - 1) as nat, len as nat);
        vstd::arithmetic::div_mod::lemma_small_mod(current as nat, len as nat);
    } else {
        vstd::arithmetic::div_mod::lemma_fundamental_div_mod_converse(-1, len, -1, len - 1);
        vstd::arithmetic::div_mod::lemma_mod_self_0(len);
    }
}

// ---------------------------------------------------------------------------
// File paths from the clipboard
// ---------------------------------------------------------------------------

/// The value of a hexadecimal digit byte.
pub open spec fn hex_digit(b: u8) -> Option<nat> {
    crate::numbers::digit_value(b as char, 16)
}

/// What `u8::from_str_radix` gives, in base 16, for the two bytes `b1 b2`:
/// two hex digits, or `+` and one.
pub open spec fn escape_value(b1: u8, b2: u8) -> Option<u8> {
    if b1 == 0x2b {
        match hex_digit(b2) {
            Some(v) => Some(v as u8),
            None => None,
        }
    } else {
        match (hex_digit(b1), hex_digit(b2)) {
            (Some(h), Some(l)) => Some((16 * h + l) as u8),
            _ => None,
        }
    }
}

/// The byte a `%` escape at `i` stands for, if there is one.
pub open spec fn escape_at(b: Seq<u8>, i: int) -> Option<u8> {
    if b[i] == 0x25 && i + 2 < b.len() {
        escape_value(b[i + 1], b[i + 2])
    } else {
        None
    }
}

/// Decoding from byte `i` on: a `%` escape gives its byte, any other byte
/// itself.
pub open spec fn url_decoded(b: Seq<u8>, i: int) -> Seq<u8>
    decreases b.len() - i,
{
    if i < 0 || i >= b.len() {
        seq![]
    } else {
        match escape_at(b, i) {
            Some(x) => seq![x] + url_decoded(b, i + 3),
            None => seq![b[i]] + url_decoded(b, i + 1),
        }
    }
}

/// Decoding from byte `i` on would cut a character in two: the two bytes
/// after a `%` do not start and end on character boundaries.
pub open spec fn url_panics(b: Seq<u8>, i: int) -> bool
    decreases b.len() - i,
{
    if i < 0 || i >= b.len() {
        false
    } else if b[i] == 0x25 && i + 2 < b.len() && (is_continuation_byte(b[i + 1]) || (i + 3
        < b.len() && is_continuation_byte(b[i + 3]))) {
        true
    } else {
        match escape_at(b, i) {
            Some(_) => url_panics(b, i + 3),
            None => url_panics(b, i + 1),
        }
    }
}

fn hex_digit_of(b: u8) -> (r: Option<u8>)
    ensures
        match hex_digit(b) {
            Some(v) => r == Some(v as u8),
            None => r is None,
        },
{
    match crate::numbers::digit_of_char(b as char, 16) {
        Some(v) => Some(v as u8),
        None => None,
    }
}

fn escape_value_of(b1: u8, b2: u8) -> (r: Option<u8>)
    ensures
        r == escape_value(b1, b2),
{
    if b1 == 0x2b {
        hex_digit_of(b2)
    } else {
        match (hex_digit_of(b1), hex_digit_of(b2)) {
            (Some(h), Some(l)) => Some(16 * h + l),
            _ => None,
        }
    }
}

fn is_continuation(b: u8) -> (r: bool)
    ensures
        r == is_continuation_byte(b),
{
    0x80 <= b && b <= 0xbf
}

/// Whether decoding `s` would cut a character in two (where `url_decode`
/// cannot go).
pub fn url_decode_panics(s: &str) -> (r: bool)
    ensures
        r == url_panics(s.spec_bytes(), 0),
{
    let bytes = s.as_bytes();
    let n = bytes.len();
    let mut i: usize = 0;
    while i < n
        invariant
            n == bytes@.len(),
            bytes@ == s.spec_bytes(),
            url_panics(bytes@, 0) == url_panics(bytes@, i as int),
        decreases n - i,
    {
        if bytes[i] == 0x25 && n - i > 2 {
            if is_continuation(bytes[i + 1]) || (n - i > 3 && is_continuation(bytes[i + 3])) {
                return true;
            }
            match escape_value_of(bytes[i + 1], bytes[i + 2]) {
                Some(_) => {
                    i += 3;
                },
                None => {
                    i += 1;
                },
            }
        } else {
            i += 1;
        }
    }
    false
}

/// Decoding `%` escapes for file paths: `%20`, `%C3%A9` and the like; a `%`
/// not followed by an escape stays as it is. The bytes are then read as
/// UTF-8, invalid sequences replaced.
pub fn url_decode(s: &str) -> (r: String)
    requires
        !url_panics(s.spec_bytes(), 0),
    ensures
        r@ == utf8_lossy(url_decoded(s.spec_bytes(), 0)),
        vstd::utf8::valid_utf8(url_decoded(s.spec_bytes(), 0)) ==> r@ == vstd::utf8::decode_utf8(
            url_decoded(s.spec_bytes(), 0),
        ),
{
    let bytes = s.as_bytes();
    let n = bytes.len();
    let mut out: Vec<u8> = Vec::new();
    let mut i: usize = 0;
    while i < n
        invariant
            n == bytes@.len(),
            bytes@ == s.spec_bytes(),
            !url_panics(bytes@, i as int),
            url_decoded(bytes@, 0) == out@ + url_decoded(bytes@, i as int),
        decreases n - i,
    {
        let mut decoded: Option<u8> = None;
        if bytes[i] == 0x25 && n - i > 2 {
            decoded = escape_value_of(bytes[i + 1], bytes[i + 2]);
        }
        assert(decoded == escape_at(bytes@, i as int));
        match decoded {
            Some(x) => {
                assert(url_decoded(bytes@, i as int) == seq![x] + url_decoded(bytes@, i + 3));
                out.push(x);
                assert(out@ + url_decoded(bytes@, i + 3) =~= (out@.drop_last() + seq![x])
                    + url_decoded(bytes@, i + 3));
                i += 3;
            },
            None => {
                let b = bytes[i];
                assert(url_decoded(bytes@, i as int) == seq![b] + url_decoded(bytes@, i + 1));
                out.push(b);
                assert(out@ + url_decoded(bytes@, i + 1) =~= (out@.drop_last() + seq![b])
                    + url_decoded(bytes@, i + 1));
                i += 1;
            },
        }
    }
    assert(out@ + url_decoded(bytes@, i as int) =~= out@);
    string_from_utf8_lossy(&out)
}

/// `file://`.
pub open spec fn file_scheme() -> Seq<char> {
    seq!['f', 'i', 'l', 'e', ':', '/', '/']
}

/// A clipboard line that names a file: trimmed, neither empty, a `#`
/// comment, nor a `copy`/`cut` action, and starting with `file://`.
pub open spec fn is_file_line(t: Seq<char>) -> bool {
    &&& t.len() >= 7
    &&& t.take(7) == file_scheme()
}

/// The path a trimmed clipboard line names, undecoded.
pub open spec fn line_path(t: Seq<char>) -> Seq<char> {
    t.skip(7)
}

/// The decoded paths the clipboard lines name, in order.
pub open spec fn uri_paths(ls: Seq<Seq<char>>) -> Seq<Seq<char>>
    decreases ls.len(),
{
    if ls.len() == 0 {
        seq![]
    } else {
        let t = trim(ls.last());
        let before = uri_paths(ls.drop_last());
        if is_file_line(t) {
            before.push(utf8_lossy(url_decoded(encode_utf8(line_path(t)), 0)))
        } else {
            before
        }
    }
}

/// No named path would cut a character in two when decoded.
pub open spec fn uris_decodable(ls: Seq<Seq<char>>) -> bool {
    forall|k: int|
        0 <= k < ls.len() && is_file_line(#[trigger] trim(ls[k])) ==> !url_panics(
            encode_utf8(line_path(trim(ls[k]))),
            0,
        )
}

/// Whether every path the clipboard names can be decoded.
pub fn clipboard_decodable(clipboard: &str) -> (r: bool)
    ensures
        r == uris_decodable(lines(clipboard@)),
{
    let v = chars_of(clipboard);
    let sp = line_spans(&v);
    let ghost ls = lines(v@);
    let mut i: usize = 0;
    while i < sp.len()
        invariant
            i <= sp.len(),
            crate::text::spans_ok(sp@, v@.len() as int),
            ls == span_views(v@, sp@),
            ls == lines(clipboard@),
            v@ == clipboard@,
            forall|k: int|
                0 <= k < i && is_file_line(#[trigger] trim(ls[k])) ==> !url_panics(
                    encode_utf8(line_path(trim(ls[k]))),
                    0,
                ),
        decreases sp.len() - i,
    {
        let (lo, hi) = sp[i];
        assert(sp@[i as int].0 <= sp@[i as int].1 <= v@.len());
        let (a, b) = trim_range(&v, lo, hi);
        let ghost t = trim(ls[i as int]);
        assert(v@.subrange(a as int, b as int) == t);
        if starts_with_file_scheme(&v, a, b) {
            let path = string_of(&v, a + 7, b);
            assert(path@ =~= line_path(t));
            if url_decode_panics(path.as_str()) {
                assert(is_file_line(trim(ls[i as int])));
                assert(url_panics(encode_utf8(line_path(trim(ls[i as int]))), 0));
                return false;
            }
        }
        i += 1;
    }
    true
}

fn starts_with_file_scheme(v: &Vec<char>, a: usize, b: usize) -> (r: bool)
    requires
        a <= b <= v.len(),
    ensures
        r == is_file_line(v@.subrange(a as int, b as int)),
{
    let ghost t = v@.subrange(a as int, b as int);
    if b - a < 7 {
        return false;
    }
    let r = v[a] == 'f' && v[a + 1] == 'i' && v[a + 2] == 'l' && v[a + 3] == 'e' && v[a + 4] == ':'
        && v[a + 5] == '/' && v[a + 6] == '/';
    proof {
        if r {
            assert(t.take(7) =~= file_scheme());
        } else {
            if t.take(7) == file_scheme() {
                assert(t.take(7)[0] == v@[a as int]);
                assert(t.take(7)[1] == v@[a + 1]);
                assert(t.take(7)[2] == v@[a + 2]);
                assert(t.take(7)[3] == v@[a + 3]);
                assert(t.take(7)[4] == v@[a + 4]);
                assert(t.take(7)[5] == v@[a + 5]);
                assert(t.take(7)[6] == v@[a + 6]);
            }
        }
    }
    r
}

/// The file paths a clipboard text names, decoded, in order: `file://` URIs
/// one per line, as `text/uri-list` and `x-special/gnome-copied-files` hold
/// them (comment lines and the `copy`/`cut` action line are not paths).
/// Whether each path exists is for the caller to ask the file system.
pub fn parse_file_uris(clipboard: &str) -> (paths: Vec<String>)
    requires
        uris_decodable(lines(clipboard@)),
    ensures
        views(paths@) == uri_paths(lines(clipboard@)),
{
    let v = chars_of(clipboard);
    let sp = line_spans(&v);
    let ghost ls = lines(v@);
    let mut paths: Vec<String> = Vec::new();
    let mut i: usize = 0;
    assert(ls.take(0) =~= seq![]);
    while i < sp.len()
        invariant
            i <= sp.len(),
            crate::text::spans_ok(sp@, v@.len() as int),
            ls == span_views(v@, sp@),
            v@ == clipboard@,
            uris_decodable(ls),
            views(paths@) == uri_paths(ls.take(i as int)),
        decreases sp.len() - i,
    {
        let (lo, hi) = sp[i];
        assert(sp@[i as int].0 <= sp@[i as int].1 <= v@.len());
        let (a, b) = trim_range(&v, lo, hi);
        let ghost t = trim(ls[i as int]);
        assert(v@.subrange(a as int, b as int) == t);
        assert(ls.take(i + 1).drop_last() =~= ls.take(i as int));
        assert(ls.take(i + 1).last() == ls[i as int]);
        if starts_with_file_scheme(&v, a, b) {
            let path = string_of(&v, a + 7, b);
            assert(path@ =~= line_path(t));
            assert(is_file_line(trim(ls[i as int])));
            let decoded = url_decode(path.as_str());
            proof {
                crate::text::lemma_views_push(paths@, decoded);
            }
            paths.push(decoded);
        }
        i += 1;
    }
    assert(ls.take(i as int) =~= ls);
    paths
}

} // verus!
