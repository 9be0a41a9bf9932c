//! The per-module settings the Settings window edits, their defaults, and
//! what it learns of the system from `/etc/os-release`.

use vstd::prelude::*;

use crate::settings_types::PackageManager;
use crate::text::{
    chars_of, lines, line_spans, lowercase, owned, same_text, span_views, string_of, to_lowercase,
};

verus! {

/// One colour format of the colour picker, and whether it is offered.
#[derive(Debug)]
pub struct ColorFormatEntry {
    pub id: String,
    pub label: String,
    pub enabled: bool,
}

/// The colour formats in order: id, label, enabled.
pub open spec fn formats_view(v: Seq<ColorFormatEntry>) -> Seq<(Seq<char>, Seq<char>, bool)> {
    v.map_values(|e: ColorFormatEntry| (e.id@, e.label@, e.enabled))
}

/// The default formats: HEX, RGB, HSL, HSV and CMYK, all offered.
pub open spec fn default_formats_view() -> Seq<(Seq<char>, Seq<char>, bool)> {
    seq![
        ("hex"@, "HEX"@, true),
        ("rgb"@, "RGB"@, true),
        ("hsl"@, "HSL"@, true),
        ("hsv"@, "HSV"@, true),
        ("cmyk"@, "CMYK"@, true),
    ]
}

/// The colour picker offers, in order, HEX, RGB, HSL, HSV and CMYK, each
/// under its lower-case id, all enabled by default.
pub proof fn law_default_formats()
    ensures
        default_formats_view().len() == 5,
        default_formats_view()[0] == ("hex"@, "HEX"@, true),
        default_formats_view()[1] == ("rgb"@, "RGB"@, true),
        default_formats_view()[2] == ("hsl"@, "HSL"@, true),
        default_formats_view()[3] == ("hsv"@, "HSV"@, true),
        default_formats_view()[4] == ("cmyk"@, "CMYK"@, true),
{
}

fn format_entry(id: &str, label: &str) -> (e: ColorFormatEntry)
    ensures
        e.id@ == id@,
        e.label@ == label@,
        e.enabled,
{
    ColorFormatEntry { id: owned(id), label: owned(label), enabled: true }
}

/// The default colour formats.
pub fn default_formats() -> (v: Vec<ColorFormatEntry>)
    ensures
        formats_view(v@) == default_formats_view(),
{
    let v = vec![
        format_entry("hex", "HEX"),
        format_entry("rgb", "RGB"),
        format_entry("hsl", "HSL"),
        format_entry("hsv", "HSV"),
        format_entry("cmyk", "CMYK"),
    ];
    assert(formats_view(v@) =~= default_formats_view());
    v
}

/// The colour picker's settings.
#[derive(Debug)]
pub struct ColorPickerConf {
    pub format: String,
    pub behavior: String,
    pub show_color_name: bool,
    pub formats: Vec<ColorFormatEntry>,
}

impl ColorPickerConf {
    /// The defaults: HEX, pick and edit, names shown, every format.
    pub fn default_conf() -> (c: ColorPickerConf)
        ensures
            c.format@ == "hex"@,
            c.behavior@ == "pick-and-edit"@,
            c.show_color_name,
            formats_view(c.formats@) == default_formats_view(),
    {
        ColorPickerConf {
            format: owned("hex"),
            behavior: owned("pick-and-edit"),
            show_color_name: true,
            formats: default_formats(),
        }
    }

    /// Offers or withdraws the format `id` (the first with that id).
    pub fn toggle_format(&mut self, id: &str, enabled: bool)
        ensures
            final(self).format == old(self).format,
            final(self).behavior == old(self).behavior,
            final(self).show_color_name == old(self).show_color_name,
            final(self).formats@.len() == old(self).formats@.len(),
            forall|k: int|
                0 <= k < old(self).formats@.len() ==> {
                    let first = (old(self).formats@[k].id@ == id@ && forall|j: int|
                        0 <= j < k ==> old(self).formats@[j].id@ != id@);
                    &&& (#[trigger] final(self).formats@[k]).id == old(self).formats@[k].id
                    &&& final(self).formats@[k].label == old(self).formats@[k].label
                    &&& final(self).formats@[k].enabled == (if first {
                        enabled
                    } else {
                        old(self).formats@[k].enabled
                    })
                },
    {
        let mut i: usize = 0;
        while i < self.formats.len()
            invariant
                i <= self.formats.len(),
                *self == *old(self),
                forall|j: int| 0 <= j < i ==> self.formats@[j].id@ != id@,
            decreases self.formats.len() - i,
        {
            if same_text(self.formats[i].id.as_str(), id) {
                let ghost before = self.formats@;
                let mut e = self.formats.remove(i);
                e.enabled = enabled;
                self.formats.insert(i, e);
                assert(self.formats@ =~= before.update(i as int, e));
                return;
            }
            i += 1;
        }
    }
}

/// The text extractor's settings.
#[derive(Debug)]
pub struct TextExtractorConf {
    pub language: String,
}

impl TextExtractorConf {
    /// The default: English.
    pub fn default_conf() -> (c: TextExtractorConf)
        ensures
            c.language@ == "eng"@,
    {
        TextExtractorConf { language: owned("eng") }
    }
}

/// The image resizer's settings, as the Settings window keeps them.
#[derive(Debug)]
pub struct ImageResizerConf {
    pub preset: String,
    pub output_format: String,
    pub quality: u8,
}

impl ImageResizerConf {
    /// The defaults: medium preset, original format, quality 85.
    pub fn default_conf() -> (c: ImageResizerConf)
        ensures
            c.preset@ == "medium"@,
            c.output_format@ == "original"@,
            c.quality == 85,
    {
        ImageResizerConf { preset: owned("medium"), output_format: owned("original"), quality: 85 }
    }
}

/// The mouse utilities' settings, as the Settings window keeps them; the
/// spotlight's opacity is held in hundredths (50 is half).
#[derive(Debug)]
pub struct MouseUtilsConf {
    pub find_my_mouse: bool,
    pub click_highlighter: bool,
    pub crosshair: bool,
    pub spotlight_radius: u32,
    pub spotlight_color: String,
    pub spotlight_opacity_percent: u32,
}

impl MouseUtilsConf {
    /// The defaults: find-my-mouse on, the highlighter and crosshairs off, a
    /// yellow spotlight of radius 100 at half opacity.
    pub fn default_conf() -> (c: MouseUtilsConf)
        ensures
            c.find_my_mouse,
            !c.click_highlighter,
            !c.crosshair,
            c.spotlight_radius == 100,
            c.spotlight_color@ == "#FFFF00"@,
            c.spotlight_opacity_percent == 50,
    {
        MouseUtilsConf {
            find_my_mouse: true,
            click_highlighter: false,
            crosshair: false,
            spotlight_radius: 100,
            spotlight_color: owned("#FFFF00"),
            spotlight_opacity_percent: 50,
        }
    }
}

/// The light switch's settings, as the Settings window keeps them; the
/// place is held in millionths of a degree.
#[derive(Debug)]
pub struct LightSwitchConf {
    pub schedule_mode: String,
    pub latitude_micro: i64,
    pub longitude_micro: i64,
    pub sunrise_offset_min: i32,
    pub sunset_offset_min: i32,
    pub dark_mode_time: String,
    pub light_mode_time: String,
    pub apply_system: bool,
    pub apply_apps: bool,
}

impl LightSwitchConf {
    /// The defaults: no schedule, at latitude and longitude 0, no offsets,
    /// dark at 20:00 and light at 06:00, applied to the system and the apps.
    pub fn default_conf() -> (c: LightSwitchConf)
        ensures
            c.schedule_mode@ == "off"@,
            c.latitude_micro == 0,
            c.longitude_micro == 0,
            c.sunrise_offset_min == 0,
            c.sunset_offset_min == 0,
            c.dark_mode_time@ == "20:00"@,
            c.light_mode_time@ == "06:00"@,
            c.apply_system,
            c.apply_apps,
    {
        LightSwitchConf {
            schedule_mode: owned("off"),
            latitude_micro: 0,
            longitude_micro: 0,
            sunrise_offset_min: 0,
            sunset_offset_min: 0,
            dark_mode_time: owned("20:00"),
            light_mode_time: owned("06:00"),
            apply_system: true,
            apply_apps: true,
        }
    }
}

/// The app launcher's settings.
#[derive(Debug, Clone, Copy, PartialEq, Eq, Structural)]
pub struct AppLauncherConf {
    pub max_results: usize,
    pub show_calculator: bool,
}

impl AppLauncherConf {
    /// The defaults: eight results, the calculator shown.
    pub fn default_conf() -> (c: AppLauncherConf)
        ensures
            c.max_results == 8,
            c.show_calculator,
    {
        AppLauncherConf { max_results: 8, show_calculator: true }
    }
}

/// The window zones' settings.
#[derive(Debug, Clone, Copy, PartialEq, Eq, Structural)]
pub struct FancyZonesConf {
    pub active_layout: usize,
    pub zone_gap: u32,
}

impl FancyZonesConf {
    /// The defaults: the first layout, 8 pixels between zones.
    pub fn default_conf() -> (c: FancyZonesConf)
        ensures
            c.active_layout == 0,
            c.zone_gap == 8,
    {
        FancyZonesConf { active_layout: 0, zone_gap: 8 }
    }
}

/// Peek's settings, as the Settings window keeps them.
#[derive(Debug, Clone, Copy, PartialEq, Eq, Structural)]
pub struct PeekConf {
    pub max_preview_lines: usize,
    pub max_dir_entries: usize,
}

impl PeekConf {
    /// The defaults: 50 lines, 20 entries.
    pub fn default_conf() -> (c: PeekConf)
        ensures
            c.max_preview_lines == 50,
            c.max_dir_entries == 20,
    {
        PeekConf { max_preview_lines: 50, max_dir_entries: 20 }
    }
}

/// The command palette's settings.
#[derive(Debug)]
pub struct CommandPaletteConf {
    pub max_results: usize,
    pub search_engine: String,
    pub show_provider_tags: bool,
}

impl CommandPaletteConf {
    /// The defaults: eight results, Google, provider tags shown.
    pub fn default_conf() -> (c: CommandPaletteConf)
        ensures
            c.max_results == 8,
            c.search_engine@ == "google"@,
            c.show_provider_tags,
    {
        CommandPaletteConf { max_results: 8, search_engine: owned("google"), show_provider_tags: true }
    }
}

// ---------------------------------------------------------------------------
// The system
// ---------------------------------------------------------------------------

/// `s` without `"` at either end (`trim_matches('"')`).
pub open spec fn unquoted(s: Seq<char>) -> Seq<char>
    decreases s.len(),
{
    if s.len() > 0 && s[0] == '"' {
        unquoted(s.drop_first())
    } else if s.len() > 0 && s.last() == '"' {
        unquoted(s.drop_last())
    } else {
        s
    }
}

/// Removes the quotes around a value.
pub fn unquote(s: &str) -> (r: String)
    ensures
        r@ == unquoted(s@),
{
    let v = chars_of(s);
    let mut a: usize = 0;
    let mut b: usize = v.len();
    assert(v@.subrange(0, v.len() as int) =~= v@);
    while a < b && (v[a] == '"' || v[b - 1] == '"')
        invariant
            a <= b <= v.len(),
            v@ == s@,
            unquoted(s@) == unquoted(v@.subrange(a as int, b as int)),
        decreases b - a,
    {
        let ghost t = v@.subrange(a as int, b as int);
        if v[a] == '"' {
            assert(t[0] == v@[a as int]);
            assert(t.drop_first() =~= v@.subrange(a + 1, b as int));
            a += 1;
        } else {
            assert(t[0] == v@[a as int]);
            assert(t.last() == v@[b - 1]);
            assert(t.drop_last() =~= v@.subrange(a as int, b - 1));
            b -= 1;
        }
    }
    let r = string_of(&v, a, b);
    proof {
        let t = v@.subrange(a as int, b as int);
        if t.len() > 0 {
            assert(t[0] == v@[a as int]);
            assert(t.last() == v@[b - 1]);
        }
    }
    r
}

/// `s` starts with `p`.
pub open spec fn starts_with(s: Seq<char>, p: Seq<char>) -> bool {
    s.len() >= p.len() && s.take(p.len() as int) == p
}

/// The distribution's name an os-release line gives: after `PRETTY_NAME=`,
/// else after `NAME=`, unquoted.
pub open spec fn name_in_line(l: Seq<char>) -> Option<Seq<char>> {
    if starts_with(l, "PRETTY_NAME="@) {
        Some(unquoted(l.skip(12)))
    } else if starts_with(l, "NAME="@) {
        Some(unquoted(l.skip(5)))
    } else {
        None
    }
}

/// The first name the lines give.
pub open spec fn first_name(ls: Seq<Seq<char>>) -> Option<Seq<char>>
    decreases ls.len(),
{
    if ls.len() == 0 {
        None
    } else {
        match name_in_line(ls[0]) {
            Some(n) => Some(n),
            None => first_name(ls.drop_first()),
        }
    }
}

/// The distribution's name from the text of `/etc/os-release` (`Linux`
/// when it names none).
pub open spec fn distro_name_of(content: Seq<char>) -> Seq<char> {
    match first_name(lines(content)) {
        Some(n) => n,
        None => "Linux"@,
    }
}

fn prefix_rest(v: &Vec<char>, lo: usize, hi: usize, p: &str) -> (r: Option<String>)
    requires
        lo <= hi <= v.len(),
    ensures
        starts_with(v@.subrange(lo as int, hi as int), p@) ==> r is Some && r->0@ == v@.subrange(
            lo as int,
            hi as int,
        ).skip(p@.len() as int),
        !starts_with(v@.subrange(lo as int, hi as int), p@) ==> r is None,
{
    let q = chars_of(p);
    let ghost l = v@.subrange(lo as int, hi as int);
    if q.len() > hi - lo {
        return None;
    }
    let mut i: usize = 0;
    while i < q.len()
        invariant
            q.len() <= hi - lo,
            lo <= hi <= v.len(),
            q@ == p@,
            l == v@.subrange(lo as int, hi as int),
            i <= q.len(),
            forall|k: int| 0 <= k < i ==> l[k] == q@[k],
        decreases q.len() - i,
    {
        if v[lo + i] != q[i] {
            assert(l.take(q.len() as int)[i as int] != p@[i as int]);
            return None;
        }
        i += 1;
    }
    assert(l.take(q.len() as int) =~= p@);
    let rest = string_of(v, lo + q.len(), hi);
    assert(rest@ =~= l.skip(p@.len() as int));
    Some(rest)
}

/// The distribution's name from the text of `/etc/os-release`.
pub fn distro_name(content: &str) -> (name: String)
    ensures
        name@ == distro_name_of(content@),
{
    let v = chars_of(content);
    let sp = line_spans(&v);
    let ghost ls = lines(v@);
    let mut i: usize = 0;
    proof {
        reveal_strlit("PRETTY_NAME=");
        reveal_strlit("NAME=");
        assert(ls.skip(0) =~= ls);
    }
    while i < sp.len()
        invariant
            i <= sp.len(),
            crate::text::spans_ok(sp@, v@.len() as int),
            ls == span_views(v@, sp@),
            ls == lines(content@),
            first_name(ls) == first_name(ls.skip(i as int)),
            "PRETTY_NAME="@.len() == 12,
            "NAME="@.len() == 5,
        decreases sp.len() - i,
    {
        let (lo, hi) = sp[i];
        assert(sp@[i as int].0 <= sp@[i as int].1 <= v@.len());
        let ghost l = ls[i as int];
        assert(ls.skip(i as int)[0] == l);
        assert(ls.skip(i as int).drop_first() =~= ls.skip(i + 1));
        if let Some(rest) = prefix_rest(&v, lo, hi, "PRETTY_NAME=") {
            return unquote(rest.as_str());
        }
        if let Some(rest) = prefix_rest(&v, lo, hi, "NAME=") {
            return unquote(rest.as_str());
        }
        i += 1;
    }
    assert(ls.skip(i as int) =~= Seq::<Seq<char>>::empty());
    owned("Linux")
}

/// Whether `s` holds `t`.
pub open spec fn holds(s: Seq<char>, t: Seq<char>) -> bool {
    exists|i: int| 0 <= i && i + t.len() <= s.len() && #[trigger] s.subrange(i, i + t.len()) == t
}

/// Whether `s` holds `t`.
pub fn holds_text(s: &Vec<char>, t: &str) -> (b: bool)
    ensures
        b == holds(s@, t@),
{
    let q = chars_of(t);
    if q.len() > s.len() {
        assert forall|i: int| 0 <= i && i + t@.len() <= s@.len() implies #[trigger] s@.subrange(i, i + t@.len()) != t@ by {}
        return false;
    }
    let mut i: usize = 0;
    while i <= s.len() - q.len()
        invariant
            q@ == t@,
            q.len() <= s.len(),
            forall|k: int| 0 <= k < i && k + t@.len() <= s@.len() ==> #[trigger] s@.subrange(k, k + t@.len()) != t@,
        decreases s.len() - i,
    {
        let mut j: usize = 0;
        let mut ok = true;
        while j < q.len()
            invariant
                q@ == t@,
                i + q.len() <= s.len(),
                j <= q.len(),
                ok <==> forall|k: int| 0 <= k < j ==> s@[i + k] == q@[k],
            decreases q.len() - j,
        {
            if s[i + j] != q[j] {
                ok = false;
            }
            j += 1;
        }
        if ok {
            assert(s@.subrange(i as int, i + t@.len()) =~= t@);
            return true;
        }
        proof {
            let w = choose|k: int| 0 <= k < q.len() && s@[i + k] != q@[k];
            assert(s@.subrange(i as int, i + t@.len())[w] != t@[w]);
        }
        i += 1;
    }
    false
}

/// The package manager the text of `/etc/os-release`, in lower case, names
/// by its distribution; none when it names no known one.
pub open spec fn package_manager_of(lower: Seq<char>) -> Option<PackageManager> {
    if holds(lower, "id=ubuntu"@) || holds(lower, "id=debian"@) || holds(lower, "id_like=debian"@) {
        Some(PackageManager::Apt)
    } else if holds(lower, "id=arch"@) || holds(lower, "id_like=arch"@) {
        Some(PackageManager::Pacman)
    } else if holds(lower, "id=fedora"@) || holds(lower, "id=rhel"@) || holds(lower, "id=centos"@)
        || holds(lower, "id_like=\"rhel fedora\""@) {
        Some(PackageManager::Dnf)
    } else if holds(lower, "id=opensuse"@) || holds(lower, "id=sles"@) || holds(
        lower,
        "id_like=suse"@,
    ) {
        Some(PackageManager::Zypper)
    } else {
        None
    }
}

/// The os-release markers, tried in order: Ubuntu, Debian or a Debian-like
/// system use apt; otherwise Arch or an Arch-like one pacman; otherwise
/// Fedora, RHEL, CentOS or a RHEL/Fedora-like one dnf; otherwise openSUSE,
/// SLES or a SUSE-like one zypper; any other text names none.
pub proof fn law_os_release_markers(lower: Seq<char>)
    ensures
        ({
            let apt = holds(lower, "id=ubuntu"@) || holds(lower, "id=debian"@) || holds(lower, "id_like=debian"@);
            let pacman = holds(lower, "id=arch"@) || holds(lower, "id_like=arch"@);
            let dnf = holds(lower, "id=fedora"@) || holds(lower, "id=rhel"@) || holds(lower, "id=centos"@)
                || holds(lower, "id_like=\"rhel fedora\""@);
            let zypper = holds(lower, "id=opensuse"@) || holds(lower, "id=sles"@) || holds(lower, "id_like=suse"@);
            &&& apt ==> package_manager_of(lower) == Some(PackageManager::Apt)
            &&& !apt && pacman ==> package_manager_of(lower) == Some(PackageManager::Pacman)
            &&& !apt && !pacman && dnf ==> package_manager_of(lower) == Some(PackageManager::Dnf)
            &&& !apt && !pacman && !dnf && zypper ==> package_manager_of(lower) == Some(PackageManager::Zypper)
            &&& !apt && !pacman && !dnf && !zypper ==> package_manager_of(lower) is None
        }),
{
}

/// The package manager the text of `/etc/os-release` names, read in lower
/// case.
pub fn package_manager_from_os_release(os_release: &str) -> (p: Option<PackageManager>)
    ensures
        p == package_manager_of(lowercase(os_release@)),
{
    let lower = to_lowercase(os_release);
    let v = chars_of(lower.as_str());
    if holds_text(&v, "id=ubuntu") || holds_text(&v, "id=debian") || holds_text(&v, "id_like=debian") {
        Some(PackageManager::Apt)
    } else if holds_text(&v, "id=arch") || holds_text(&v, "id_like=arch") {
        Some(PackageManager::Pacman)
    } else if holds_text(&v, "id=fedora") || holds_text(&v, "id=rhel") || holds_text(&v, "id=centos")
        || holds_text(&v, "id_like=\"rhel fedora\"") {
        Some(PackageManager::Dnf)
    } else if holds_text(&v, "id=opensuse") || holds_text(&v, "id=sles") || holds_text(
        &v,
        "id_like=suse",
    ) {
        Some(PackageManager::Zypper)
    } else {
        None
    }
}

/// The package manager found among the commands installed, in order of
/// preference: apt, pacman, dnf, zypper.
pub fn package_manager_from_commands(has_apt: bool, has_pacman: bool, has_dnf: bool, has_zypper: bool) -> (p: PackageManager)
    ensures
        p == (if has_apt {
            PackageManager::Apt
        } else if has_pacman {
            PackageManager::Pacman
        } else if has_dnf {
            PackageManager::Dnf
        } else if has_zypper {
            PackageManager::Zypper
        } else {
            PackageManager::Unknown
        }),
{
    if has_apt {
        PackageManager::Apt
    } else if has_pacman {
        PackageManager::Pacman
    } else if has_dnf {
        PackageManager::Dnf
    } else if has_zypper {
        PackageManager::Zypper
    } else {
        PackageManager::Unknown
    }
}

} // verus!
