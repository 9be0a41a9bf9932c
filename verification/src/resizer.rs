//! Image Resizer: presets, output names, and the state of the resizing
//! window between the user's actions.

use vstd::prelude::*;

use crate::numbers::{parse_u32, unsigned_of};
use crate::peek::{after_last, after_last_in, extension, extension_of, file_name, file_name_upto};
use crate::text::{chars_of, decimal, owned, push_all, push_char, push_decimal, same_text, views};

verus! {

/// A target width.
#[derive(Debug, Clone, Copy, PartialEq, Eq, Structural)]
pub enum ResizePreset {
    Small,
    Medium,
    Large,
    Phone,
    Custom,
}

/// The format written.
#[derive(Debug, Clone, Copy, PartialEq, Eq, Structural)]
pub enum OutputFormat {
    Original,
    Png,
    Jpeg,
    Webp,
}

/// The width in pixels a preset resizes to; none for a custom width.
pub open spec fn preset_width(p: ResizePreset) -> u32 {
    match p {
        ResizePreset::Small => 640,
        ResizePreset::Medium => 1280,
        ResizePreset::Large => 1920,
        ResizePreset::Phone => 1080,
        ResizePreset::Custom => 0,
    }
}

impl ResizePreset {
    /// The largest width the preset keeps, in pixels (0 for a custom width).
    pub fn max_width(self) -> (w: u32)
        ensures
            w == preset_width(self),
    {
        match self {
            ResizePreset::Small => 640,
            ResizePreset::Medium => 1280,
            ResizePreset::Large => 1920,
            ResizePreset::Phone => 1080,
            ResizePreset::Custom => 0,
        }
    }
}

/// Whether an image `width` pixels wide is scaled down to `max_width`: only
/// when it is wider, and a width is set.
pub fn needs_resize(width: u32, max_width: u32) -> (b: bool)
    ensures
        b == (width > max_width && max_width > 0),
{
    width > max_width && max_width > 0
}

/// The Image Resizer settings.
#[derive(Debug, Clone, Copy, PartialEq, Eq, Structural)]
pub struct ImageResizerConfig {
    pub preset: ResizePreset,
    pub output_format: OutputFormat,
    pub quality: u8,
}

/// The default preset: medium.
pub fn default_preset() -> (p: ResizePreset)
    ensures
        p == ResizePreset::Medium,
{
    ResizePreset::Medium
}

/// The default format: the input's own.
pub fn default_format() -> (f: OutputFormat)
    ensures
        f == OutputFormat::Original,
{
    OutputFormat::Original
}

/// The default JPEG quality.
pub fn default_quality() -> (q: u8)
    ensures
        q == 85,
{
    85
}

impl ImageResizerConfig {
    /// The default settings: medium preset, the input's format, quality 85.
    pub fn default_config() -> (c: ImageResizerConfig)
        ensures
            c.preset == ResizePreset::Medium,
            c.output_format == OutputFormat::Original,
            c.quality == 85,
    {
        ImageResizerConfig {
            preset: default_preset(),
            output_format: default_format(),
            quality: default_quality(),
        }
    }
}

/// The Image Resizer module: whether it runs, and its settings.
#[derive(Debug)]
pub struct ImageResizer {
    running: bool,
    config: ImageResizerConfig,
}

impl ImageResizer {
    /// A stopped module with the given settings.
    pub fn new(config: ImageResizerConfig) -> (r: ImageResizer)
        ensures
            !r.is_running_spec(),
            r.config_spec() == config,
    {
        ImageResizer { running: false, config }
    }

    /// Whether the module runs.
    pub closed spec fn is_running_spec(&self) -> bool {
        self.running
    }

    /// The module's settings.
    pub closed spec fn config_spec(&self) -> ImageResizerConfig {
        self.config
    }

    /// The module's settings.
    pub fn config(&self) -> (c: &ImageResizerConfig)
        ensures
            *c == self.config_spec(),
    {
        &self.config
    }

    /// Starts the module.
    pub fn start(&mut self)
        ensures
            final(self).is_running_spec(),
            final(self).config_spec() == old(self).config_spec(),
    {
        self.running = true;
    }

    /// Stops the module.
    pub fn stop(&mut self)
        ensures
            !final(self).is_running_spec(),
            final(self).config_spec() == old(self).config_spec(),
    {
        self.running = false;
    }

    /// Whether the module runs.
    pub fn is_running(&self) -> (b: bool)
        ensures
            b == self.is_running_spec(),
    {
        self.running
    }
}

// ---------------------------------------------------------------------------
// Output names
// ---------------------------------------------------------------------------

/// The stem of a file name: all before its last `.`, unless that dot is the
/// name's first character or there is none (`Path::file_stem`).
pub open spec fn stem_of(name: Seq<char>) -> Seq<char> {
    let k = after_last(name, '.', name.len() as int);
    if k <= 1 {
        name
    } else {
        name.subrange(0, k - 1)
    }
}

/// The extension written for a format: the input's own (PNG when it has
/// none) or the format's.
pub open spec fn output_extension(input: Seq<char>, format: OutputFormat) -> Seq<char> {
    match format {
        OutputFormat::Original => match file_name_upto(input, input.len() as int) {
            Some(n) => match extension_of(n) {
                Some(e) => e,
                None => "png"@,
            },
            None => "png"@,
        },
        OutputFormat::Png => "png"@,
        OutputFormat::Jpeg => "jpg"@,
        OutputFormat::Webp => "webp"@,
    }
}

/// The name of the resized file: `{stem}_resized.{ext}`, the stem being
/// `image` for a path without a file name.
pub open spec fn output_name_of(input: Seq<char>, format: OutputFormat) -> Seq<char> {
    let stem = match file_name_upto(input, input.len() as int) {
        Some(n) => stem_of(n),
        None => "image"@,
    };
    stem + "_resized."@ + output_extension(input, format)
}

/// The stem of a file name.
pub fn file_stem(name: &str) -> (s: String)
    ensures
        s@ == stem_of(name@),
{
    let v = chars_of(name);
    let k = after_last_in(&v, '.', v.len());
    if k <= 1 {
        owned(name)
    } else {
        crate::text::string_of(&v, 0, k - 1)
    }
}

/// The file name a resized copy of `input` gets in `format`.
pub fn output_file_name(input: &str, format: OutputFormat) -> (s: String)
    ensures
        s@ == output_name_of(input@, format),
{
    let name = file_name(input);
    let mut s = match &name {
        Some(n) => file_stem(n.as_str()),
        None => owned("image"),
    };
    push_all(&mut s, "_resized.");
    match format {
        OutputFormat::Original => {
            let ext = match &name {
                Some(n) => extension(n.as_str()),
                None => None,
            };
            match ext {
                Some(e) => push_all(&mut s, e.as_str()),
                None => push_all(&mut s, "png"),
            }
        },
        OutputFormat::Png => push_all(&mut s, "png"),
        OutputFormat::Jpeg => push_all(&mut s, "jpg"),
        OutputFormat::Webp => push_all(&mut s, "webp"),
    }
    s
}

// ---------------------------------------------------------------------------
// The resizing window
// ---------------------------------------------------------------------------

/// Where the window stands: choosing files, resizing them, or showing what
/// came of it.
#[derive(Debug, Clone, Copy, PartialEq, Eq, Structural)]
pub enum ResizeStatus {
    Idle,
    Resizing,
    Done,
}

/// What a resize run is asked to do: the files, the width and the format.
#[derive(Debug)]
pub struct ResizeJob {
    pub files: Vec<String>,
    pub max_width: u32,
    pub format: OutputFormat,
    pub quality: u8,
}

/// The state of the resizing window.
#[derive(Debug)]
pub struct ImageResizerApp {
    pub files: Vec<String>,
    pub preset: ResizePreset,
    pub custom_width: String,
    pub output_format: OutputFormat,
    pub quality: u8,
    pub status: ResizeStatus,
    pub total_files: usize,
    pub frame_count: u32,
}

/// No file is listed twice.
pub open spec fn distinct(s: Seq<Seq<char>>) -> bool {
    forall|i: int, j: int| 0 <= i < j < s.len() ==> s[i] != s[j]
}

/// The files after the paths `dropped` are dropped, in order, on a window
/// listing `files`: each path not listed yet, and not dropped before, goes
/// at the end.
pub open spec fn with_dropped(files: Seq<Seq<char>>, dropped: Seq<Seq<char>>) -> Seq<Seq<char>>
    decreases dropped.len(),
{
    if dropped.len() == 0 {
        files
    } else {
        let f = with_dropped(files, dropped.drop_last());
        if f.contains(dropped.last()) {
            f
        } else {
            f.push(dropped.last())
        }
    }
}

/// Dropping keeps the files listed before, at the front and in order; the
/// list stays without repeats; a path is listed after exactly when it was
/// listed before or dropped.
pub proof fn lemma_with_dropped(files: Seq<Seq<char>>, dropped: Seq<Seq<char>>)
    requires
        distinct(files),
    ensures
        distinct(with_dropped(files, dropped)),
        with_dropped(files, dropped).len() >= files.len(),
        with_dropped(files, dropped).subrange(0, files.len() as int) == files,
        forall|p: Seq<char>| #[trigger] with_dropped(files, dropped).contains(p) <==> (files.contains(p) || dropped.contains(p)),
    decreases dropped.len(),
{
    if dropped.len() > 0 {
        let d = dropped.drop_last();
        lemma_with_dropped(files, d);
        let f = with_dropped(files, d);
        let x = dropped.last();
        if !f.contains(x) {
            let g = f.push(x);
            assert forall|i: int, j: int| 0 <= i < j < g.len() implies g[i] != g[j] by {
                if j == f.len() {
                    assert(g[i] == f[i]);
                }
            }
            assert(g.subrange(0, files.len() as int) =~= f.subrange(0, files.len() as int));
        }
        assert forall|p: Seq<char>| #[trigger] with_dropped(files, dropped).contains(p) <==> (files.contains(p) || dropped.contains(p)) by {
            if dropped.contains(p) && !d.contains(p) {
                assert(p == x) by {
                    let k = choose|k: int| 0 <= k < dropped.len() && dropped[k] == p;
                    if k < d.len() {
                        assert(d[k] == p);
                    }
                }
            }
            if d.contains(p) {
                let k = choose|k: int| 0 <= k < d.len() && d[k] == p;
                assert(dropped[k] == p);
            }
            if with_dropped(files, dropped).contains(p) && !f.contains(p) {
                assert(p == x);
                assert(dropped[dropped.len() - 1] == p);
            }
            if f.contains(p) {
                let k = choose|k: int| 0 <= k < f.len() && f[k] == p;
                if !f.contains(x) {
                    assert(f.push(x)[k] == p);
                }
            }
            if p == x && !f.contains(x) {
                assert(f.push(x)[f.len() as int] == p);
            }
        }
    }
}

/// The width a custom width text gives: the number it reads as, else 800.
pub open spec fn custom_width_of(text: Seq<char>) -> u32 {
    match unsigned_of(text, 10, u32::MAX as nat) {
        Some(v) => v as u32,
        None => 800,
    }
}

/// The ASCII digits of a text, in order.
pub open spec fn digits_only(s: Seq<char>) -> Seq<char> {
    s.filter(|c: char| '0' <= c <= '9')
}

/// A count with its noun: "1 file", "2 files".
pub open spec fn counted(n: nat, noun: Seq<char>) -> Seq<char> {
    decimal(n) + " "@ + noun + if n != 1 {
        "s"@
    } else {
        seq![]
    }
}

impl ImageResizerApp {
    /// The files are listed once each.
    pub open spec fn wf(&self) -> bool {
        distinct(views(self.files@))
    }

    /// A window with no files, the settings' preset, format and quality, and
    /// a custom width of 800.
    pub fn new(config: ImageResizerConfig) -> (app: ImageResizerApp)
        ensures
            app.wf(),
            app.files@.len() == 0,
            app.preset == config.preset,
            app.output_format == config.output_format,
            app.quality == config.quality,
            app.custom_width@ == "800"@,
            app.status == ResizeStatus::Idle,
            app.total_files == 0,
            app.frame_count == 0,
    {
        ImageResizerApp {
            files: Vec::new(),
            preset: config.preset,
            custom_width: owned("800"),
            output_format: config.output_format,
            quality: config.quality,
            status: ResizeStatus::Idle,
            total_files: 0,
            frame_count: 0,
        }
    }

    /// The width images are resized to: the preset's, or the custom width
    /// (800 when it does not read as a number).
    pub fn max_width(&self) -> (w: u32)
        ensures
            w == (match self.preset {
                ResizePreset::Custom => custom_width_of(self.custom_width@),
                p => preset_width(p),
            }),
    {
        match self.preset {
            ResizePreset::Custom => match parse_u32(self.custom_width.as_str()) {
                Some(v) => v,
                None => 800,
            },
            other => other.max_width(),
        }
    }

    /// Adds a file unless it is listed already.
    pub fn add_file(&mut self, path: String)
        requires
            old(self).wf(),
        ensures
            final(self).wf(),
            views(final(self).files@) == (if views(old(self).files@).contains(path@) {
                views(old(self).files@)
            } else {
                views(old(self).files@).push(path@)
            }),
            final(self).status == old(self).status,
            final(self).frame_count == old(self).frame_count,
            final(self).total_files == old(self).total_files,
    {
        let mut i: usize = 0;
        let ghost fs = views(self.files@);
        while i < self.files.len()
            invariant
                i <= self.files.len(),
                fs == views(self.files@),
                distinct(fs),
                forall|k: int| 0 <= k < i ==> fs[k] != path@,
            decreases self.files.len() - i,
        {
            if same_text(self.files[i].as_str(), path.as_str()) {
                assert(fs[i as int] == path@);
                return;
            }
            i += 1;
        }
        assert(!fs.contains(path@));
        proof {
            crate::text::lemma_views_push(self.files@, path);
        }
        self.files.push(path);
    }

    /// Adds the paths dropped on the window in one frame, in order: each one
    /// not listed yet goes at the end, once.
    pub fn add_dropped(&mut self, dropped: Vec<String>)
        requires
            old(self).wf(),
        ensures
            final(self).wf(),
            views(final(self).files@) == with_dropped(views(old(self).files@), views(dropped@)),
            views(final(self).files@).subrange(0, old(self).files@.len() as int) == views(old(self).files@),
            forall|p: Seq<char>| #[trigger] views(final(self).files@).contains(p) <==> (views(old(self).files@).contains(p) || views(dropped@).contains(p)),
            final(self).status == old(self).status,
            final(self).frame_count == old(self).frame_count,
            final(self).total_files == old(self).total_files,
    {
        let ghost fs0 = views(self.files@);
        let ghost ds = views(dropped@);
        let mut k: usize = 0;
        let n = dropped.len();
        while k < n
            invariant
                n == ds.len(),
                ds == views(dropped@),
                k <= n,
                self.wf(),
                views(self.files@) == with_dropped(fs0, ds.take(k as int)),
                self.status == old(self).status,
                self.frame_count == old(self).frame_count,
                self.total_files == old(self).total_files,
            decreases n - k,
        {
            let path = dropped[k].clone();
            assert(path@ == ds[k as int]);
            self.add_file(path);
            assert(ds.take(k + 1).drop_last() =~= ds.take(k as int));
            assert(ds.take(k + 1).last() == ds[k as int]);
            k += 1;
        }
        assert(ds.take(n as int) =~= ds);
        proof {
            lemma_with_dropped(fs0, ds);
        }
    }

    /// Removes the file at `i`.
    pub fn remove_file(&mut self, i: usize)
        requires
            old(self).wf(),
            i < old(self).files@.len(),
        ensures
            final(self).wf(),
            views(final(self).files@) == views(old(self).files@).remove(i as int),
            final(self).status == old(self).status,
            final(self).total_files == old(self).total_files,
            final(self).frame_count == old(self).frame_count,
    {
        let ghost before = views(self.files@);
        self.files.remove(i);
        assert(views(self.files@) =~= before.remove(i as int));
    }

    /// Removes every file.
    pub fn clear_files(&mut self)
        ensures
            final(self).wf(),
            final(self).files@.len() == 0,
            final(self).status == old(self).status,
            final(self).total_files == old(self).total_files,
            final(self).frame_count == old(self).frame_count,
    {
        self.files.clear();
        assert(views(self.files@) =~= Seq::<Seq<char>>::empty());
    }

    /// Keeps only the digits typed into the custom width.
    pub fn keep_width_digits(&mut self)
        ensures
            final(self).custom_width@ == digits_only(old(self).custom_width@),
            final(self).files@ == old(self).files@,
    {
        let v = chars_of(self.custom_width.as_str());
        let mut s = String::new();
        let mut i: usize = 0;
        proof {
            reveal(Seq::filter);
            assert(v@.take(0) =~= Seq::<char>::empty());
        }
        while i < v.len()
            invariant
                i <= v.len(),
                s@ == digits_only(v@.take(i as int)),
            decreases v.len() - i,
        {
            proof {
                reveal(Seq::filter);
                assert(v@.take(i + 1).drop_last() =~= v@.take(i as int));
                assert(v@.take(i + 1).last() == v@[i as int]);
            }
            if '0' <= v[i] && v[i] <= '9' {
                push_char(&mut s, v[i]);
            }
            i += 1;
        }
        assert(v@.take(i as int) =~= v@);
        self.custom_width = s;
    }

    /// Counts a frame, saturating.
    pub fn count_frame(&mut self)
        ensures
            final(self).frame_count == (if old(self).frame_count == u32::MAX {
                u32::MAX as int
            } else {
                old(self).frame_count + 1
            }),
            final(self).files@ == old(self).files@,
            final(self).status == old(self).status,
            final(self).total_files == old(self).total_files,
    {
        self.frame_count = self.frame_count.saturating_add(1);
    }

    /// Starts resizing the listed files, if there are any: the window waits
    /// for as many results, and the job says what to do.
    pub fn start_resize(&mut self) -> (job: Option<ResizeJob>)
        requires
            old(self).wf(),
        ensures
            final(self).wf(),
            old(self).files@.len() == 0 ==> job is None && *final(self) == *old(self),
            old(self).files@.len() > 0 ==> {
                &&& job is Some
                &&& views(job->0.files@) == views(old(self).files@)
                &&& job->0.max_width == (match old(self).preset {
                    ResizePreset::Custom => custom_width_of(old(self).custom_width@),
                    p => preset_width(p),
                })
                &&& job->0.format == old(self).output_format
                &&& job->0.quality == old(self).quality
                &&& final(self).status == ResizeStatus::Resizing
                &&& final(self).total_files == old(self).files@.len()
                &&& final(self).files@ == old(self).files@
            },
    {
        if self.files.len() == 0 {
            return None;
        }
        self.status = ResizeStatus::Resizing;
        self.total_files = self.files.len();
        let mut files: Vec<String> = Vec::new();
        let mut i: usize = 0;
        while i < self.files.len()
            invariant
                i <= self.files.len(),
                views(files@) == views(self.files@).take(i as int),
            decreases self.files.len() - i,
        {
            let f = self.files[i].clone();
            proof {
                crate::text::lemma_views_push(files@, f);
                assert(views(self.files@).take(i + 1) =~= views(self.files@).take(i as int).push(
                    self.files@[i as int]@,
                ));
            }
            files.push(f);
            i += 1;
        }
        assert(views(self.files@).take(i as int) =~= views(self.files@));
        Some(
            ResizeJob {
                files,
                max_width: self.max_width(),
                format: self.output_format,
                quality: self.quality,
            },
        )
    }

    /// Notes how many results have come in: once every file has one, the
    /// run is done.
    pub fn observe_results(&mut self, done: usize)
        ensures
            final(self).status == (if old(self).status == ResizeStatus::Resizing && done
                >= old(self).total_files {
                ResizeStatus::Done
            } else {
                old(self).status
            }),
            final(self).files@ == old(self).files@,
            final(self).total_files == old(self).total_files,
            final(self).frame_count == old(self).frame_count,
    {
        if self.status == ResizeStatus::Resizing && done >= self.total_files {
            self.status = ResizeStatus::Done;
        }
    }

    /// The start of each frame, before any button is read: the frame is
    /// counted, a resize whose `done` results reach the files waited for is
    /// done, and the paths `dropped` on the window are added in order.
    pub fn begin_frame(&mut self, done: usize, dropped: Vec<String>)
        requires
            old(self).wf(),
        ensures
            final(self).wf(),
            final(self).frame_count == (if old(self).frame_count == u32::MAX {
                u32::MAX as int
            } else {
                old(self).frame_count + 1
            }),
            final(self).status == (if old(self).status == ResizeStatus::Resizing && done
                >= old(self).total_files {
                ResizeStatus::Done
            } else {
                old(self).status
            }),
            final(self).total_files == old(self).total_files,
            views(final(self).files@) == with_dropped(views(old(self).files@), views(dropped@)),
    {
        self.count_frame();
        self.observe_results(done);
        self.add_dropped(dropped);
    }

    /// Goes back to choosing files, with none listed.
    pub fn resize_more(&mut self)
        ensures
            final(self).wf(),
            final(self).status == ResizeStatus::Idle,
            final(self).files@.len() == 0,
    {
        self.status = ResizeStatus::Idle;
        self.clear_files();
    }

    /// The file count shown above the list: "1 file", "3 files".
    pub fn files_label(&self) -> (s: String)
        ensures
            s@ == counted(self.files@.len() as nat, "file"@),
    {
        counted_text(self.files.len(), "file")
    }

    /// The label of the resize button: "Resize 2 images", or "Resize" with
    /// no files.
    pub fn action_label(&self) -> (s: String)
        ensures
            s@ == (if self.files@.len() > 0 {
                "Resize "@ + counted(self.files@.len() as nat, "image"@)
            } else {
                "Resize"@
            }),
    {
        if self.files.len() > 0 {
            let mut s = owned("Resize ");
            let c = counted_text(self.files.len(), "image");
            push_all(&mut s, c.as_str());
            s
        } else {
            owned("Resize")
        }
    }

    /// The progress text: "Resizing... 2/5".
    pub fn progress_label(&self, done: usize) -> (s: String)
        ensures
            s@ == "Resizing... "@ + decimal(done as nat) + "/"@ + decimal(self.total_files as nat),
    {
        let mut s = owned("Resizing... ");
        push_decimal(&mut s, done as u64);
        push_char(&mut s, '/');
        push_decimal(&mut s, self.total_files as u64);
        proof {
            reveal_strlit("/");
            assert(s@ =~= "Resizing... "@ + decimal(done as nat) + "/"@ + decimal(
                self.total_files as nat,
            ));
        }
        s
    }
}

/// How many of the outcomes are successes.
pub open spec fn successes(o: Seq<bool>) -> nat
    decreases o.len(),
{
    if o.len() == 0 {
        0
    } else {
        successes(o.drop_last()) + if o.last() {
            1nat
        } else {
            0nat
        }
    }
}

/// The summary shown once every file has its result: one line when all
/// succeeded, else the successes and the failures on a line each.
pub open spec fn summary_of(o: Seq<bool>) -> Seq<Seq<char>> {
    let ok = successes(o);
    let failed = (o.len() - ok) as nat;
    if failed == 0 {
        seq![seq!['\u{2713}'] + "  All "@ + decimal(ok) + " images resized successfully"@]
    } else {
        seq![seq!['\u{2713}'] + " "@ + decimal(ok) + " resized"@, seq!['\u{2715}'] + " "@ + decimal(failed) + " failed"@]
    }
}

/// The summary of a run's outcomes (`true` for each file resized).
pub fn result_summary(outcomes: &Vec<bool>) -> (v: Vec<String>)
    ensures
        views(v@) == summary_of(outcomes@),
{
    let mut ok: usize = 0;
    let mut i: usize = 0;
    while i < outcomes.len()
        invariant
            i <= outcomes.len(),
            ok == successes(outcomes@.take(i as int)),
            ok <= i,
        decreases outcomes.len() - i,
    {
        proof {
            assert(outcomes@.take(i + 1).drop_last() =~= outcomes@.take(i as int));
        }
        if outcomes[i] {
            ok += 1;
        }
        i += 1;
    }
    assert(outcomes@.take(i as int) =~= outcomes@);
    let failed = outcomes.len() - ok;
    if failed == 0 {
        let mut l = String::new();
        push_char(&mut l, '\u{2713}');
        push_all(&mut l, "  All ");
        push_decimal(&mut l, ok as u64);
        push_all(&mut l, " images resized successfully");
        let v = vec![l];
        assert(views(v@) =~= summary_of(outcomes@));
        v
    } else {
        let mut a = String::new();
        push_char(&mut a, '\u{2713}');
        push_all(&mut a, " ");
        push_decimal(&mut a, ok as u64);
        push_all(&mut a, " resized");
        let mut b = String::new();
        push_char(&mut b, '\u{2715}');
        push_all(&mut b, " ");
        push_decimal(&mut b, failed as u64);
        push_all(&mut b, " failed");
        let v = vec![a, b];
        assert(views(v@) =~= summary_of(outcomes@));
        v
    }
}

/// A count with its noun, plural unless the count is one.
fn counted_text(n: usize, noun: &str) -> (s: String)
    ensures
        s@ == counted(n as nat, noun@),
{
    let mut s = String::new();
    push_decimal(&mut s, n as u64);
    push_char(&mut s, ' ');
    push_all(&mut s, noun);
    if n != 1 {
        push_char(&mut s, 's');
    }
    proof {
        reveal_strlit(" ");
        reveal_strlit("s");
        assert(s@ =~= counted(n as nat, noun@));
    }
    s
}

/// Adding a file twice lists it once: the list holds no file twice after
/// any run of additions and removals.
pub proof fn law_add_file_idempotent(files: Seq<Seq<char>>, path: Seq<char>)
    requires
        distinct(files),
    ensures
        ({
            let once = if files.contains(path) {
                files
            } else {
                files.push(path)
            };
            let twice = if once.contains(path) {
                once
            } else {
                once.push(path)
            };
            twice == once && distinct(once)
        }),
{
    if !files.contains(path) {
        assert(files.push(path)[files.len() as int] == path);
        assert forall|i: int, j: int| 0 <= i < j < files.push(path).len() implies files.push(
            path,
        )[i] != files.push(path)[j] by {
            if j == files.len() {
                assert(files[i] == files.push(path)[i]);
            }
        }
    }
}

} // verus!
