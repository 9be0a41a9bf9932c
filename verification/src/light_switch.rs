//! Light Switch: when the desktop should be dark, and the `gsettings`
//! commands that switch it.

use chrono::Timelike;
use vstd::prelude::*;

use crate::text::{owned, same_text};

verus! {

/// The desktop's colour scheme.
#[derive(Debug, Clone, Copy, PartialEq, Eq, Structural)]
pub enum SystemTheme {
    Light,
    Dark,
}

/// Whether `s` holds `t` somewhere.
pub open spec fn contains_text(s: Seq<char>, t: Seq<char>) -> bool {
    exists|i: int| 0 <= i && i + t.len() <= s.len() && #[trigger] s.subrange(i, i + t.len()) == t
}

/// The letters of "dark".
pub open spec fn dark_word() -> Seq<char> {
    seq!['d', 'a', 'r', 'k']
}

/// The theme `gsettings get org.gnome.desktop.interface color-scheme`
/// reports: dark when its output mentions "dark".
pub fn theme_from_color_scheme(output: &str) -> (t: SystemTheme)
    ensures
        t == (if contains_text(output@, dark_word()) {
            SystemTheme::Dark
        } else {
            SystemTheme::Light
        }),
{
    let v = crate::text::chars_of(output);
    if v.len() < 4 {
        assert forall|k: int| 0 <= k && k + 4 <= v.len() implies #[trigger] v@.subrange(k, k + 4)
            != dark_word() by {}
        return SystemTheme::Light;
    }
    let mut i: usize = 0;
    while i <= v.len() - 4
        invariant
            v@ == output@,
            v.len() >= 4,
            forall|k: int| 0 <= k < i && k + 4 <= v.len() ==> #[trigger] v@.subrange(k, k + 4) != dark_word(),
        decreases v.len() - i,
    {
        if v[i] == 'd' && v[i + 1] == 'a' && v[i + 2] == 'r' && v[i + 3] == 'k' {
            assert(v@.subrange(i as int, i + 4) =~= dark_word());
            return SystemTheme::Dark;
        }
        proof {
            if v@.subrange(i as int, i + 4) == dark_word() {
                assert(v@.subrange(i as int, i + 4)[0] == v@[i as int]);
                assert(v@.subrange(i as int, i + 4)[1] == v@[i + 1]);
                assert(v@.subrange(i as int, i + 4)[2] == v@[i + 2]);
                assert(v@.subrange(i as int, i + 4)[3] == v@[i + 3]);
            }
        }
        i += 1;
    }
    SystemTheme::Light
}

/// The `gsettings` argument lists that apply a theme: the colour scheme when
/// the system or the applications follow it, and the GTK theme when the
/// system does.
pub open spec fn theme_commands_of(dark: bool, apply_system: bool, apply_apps: bool) -> Seq<
    Seq<Seq<char>>,
> {
    let scheme = if dark {
        "prefer-dark"@
    } else {
        "prefer-light"@
    };
    let gtk = if dark {
        "Adwaita-dark"@
    } else {
        "Adwaita"@
    };
    let first: Seq<Seq<Seq<char>>> = if apply_system || apply_apps {
        seq![seq!["set"@, "org.gnome.desktop.interface"@, "color-scheme"@, scheme]]
    } else {
        seq![]
    };
    if apply_system {
        first.push(seq!["set"@, "org.gnome.desktop.interface"@, "gtk-theme"@, gtk])
    } else {
        first
    }
}

/// The theme is applied through `gsettings set org.gnome.desktop.interface`:
/// the colour scheme (`prefer-dark` or `prefer-light`) first, whenever the
/// system or the applications follow the theme, then, for the system, the
/// GTK theme (`Adwaita-dark` or `Adwaita`); nothing when neither follows.
pub proof fn law_theme_commands(dark: bool, apply_system: bool, apply_apps: bool)
    ensures
        ({
            let c = theme_commands_of(dark, apply_system, apply_apps);
            let scheme = seq!["set"@, "org.gnome.desktop.interface"@, "color-scheme"@, if dark {
                "prefer-dark"@
            } else {
                "prefer-light"@
            }];
            let gtk = seq!["set"@, "org.gnome.desktop.interface"@, "gtk-theme"@, if dark {
                "Adwaita-dark"@
            } else {
                "Adwaita"@
            }];
            &&& apply_system ==> c == seq![scheme, gtk]
            &&& !apply_system && apply_apps ==> c == seq![scheme]
            &&& !apply_system && !apply_apps ==> c.len() == 0
        }),
{
}

/// Argument lists as text.
pub open spec fn commands_view(c: Seq<Vec<String>>) -> Seq<Seq<Seq<char>>> {
    c.map_values(|a: Vec<String>| crate::text::views(a@))
}

fn gsettings_set(key: &str, value: &str) -> (a: Vec<String>)
    ensures
        crate::text::views(a@) == seq!["set"@, "org.gnome.desktop.interface"@, key@, value@],
{
    let a = vec![owned("set"), owned("org.gnome.desktop.interface"), owned(key), owned(value)];
    assert(crate::text::views(a@) =~= seq!["set"@, "org.gnome.desktop.interface"@, key@, value@]);
    a
}

/// The `gsettings` commands that apply a light or dark theme.
pub fn set_theme(dark: bool, apply_system: bool, apply_apps: bool) -> (c: Vec<Vec<String>>)
    ensures
        commands_view(c@) == theme_commands_of(dark, apply_system, apply_apps),
{
    let scheme = if dark {
        "prefer-dark"
    } else {
        "prefer-light"
    };
    let gtk = if dark {
        "Adwaita-dark"
    } else {
        "Adwaita"
    };
    let mut c: Vec<Vec<String>> = Vec::new();
    if apply_system || apply_apps {
        c.push(gsettings_set("color-scheme", scheme));
    }
    if apply_system {
        c.push(gsettings_set("gtk-theme", gtk));
    }
    assert(commands_view(c@) =~= theme_commands_of(dark, apply_system, apply_apps));
    c
}

/// Toggling turns a light desktop dark and a dark one light.
pub fn toggle_theme(current: SystemTheme, apply_system: bool, apply_apps: bool) -> (c: Vec<
    Vec<String>,
>)
    ensures
        commands_view(c@) == theme_commands_of(current == SystemTheme::Light, apply_system, apply_apps),
{
    let go_dark = current == SystemTheme::Light;
    set_theme(go_dark, apply_system, apply_apps)
}

// ---------------------------------------------------------------------------
// Times of day
// ---------------------------------------------------------------------------

/// A time of day: seconds past midnight, and nanoseconds within the second
/// (up to two seconds' worth during a leap second).
#[derive(Debug, Clone, Copy, PartialEq, Eq, Structural)]
pub struct DayTime {
    pub secs: u32,
    pub frac: u32,
}

/// A valid time of day.
pub open spec fn valid_time(t: DayTime) -> bool {
    t.secs < 86400 && t.frac < 2_000_000_000
}

/// `a` comes before `b`.
pub open spec fn earlier(a: DayTime, b: DayTime) -> bool {
    a.secs < b.secs || (a.secs == b.secs && a.frac < b.frac)
}

fn is_earlier(a: DayTime, b: DayTime) -> (r: bool)
    ensures
        r == earlier(a, b),
{
    a.secs < b.secs || (a.secs == b.secs && a.frac < b.frac)
}

/// A time of day at whole hours and minutes.
pub open spec fn hm(h: int, m: int) -> DayTime {
    DayTime { secs: (h * 3600 + m * 60) as u32, frac: 0 }
}

/// What `NaiveTime::parse_from_str(s, "%H:%M")` gives, as seconds past
/// midnight and nanoseconds.
pub uninterp spec fn naive_time_hm(s: Seq<char>) -> Option<(u32, u32)>;

/// `chrono::NaiveTime::parse_from_str` with the format `%H:%M`, read back as
/// seconds past midnight and nanoseconds. chrono documents the seconds as
/// below 86400 and the nanoseconds as below two seconds; which texts it
/// accepts is named, not stated.
#[verifier::external_body]
fn parse_time_of_day(s: &str) -> (r: Option<(u32, u32)>)
    ensures
        r == naive_time_hm(s@),
        r matches Some((secs, frac)) ==> secs < 86400 && frac < 2_000_000_000,
{
    match chrono::NaiveTime::parse_from_str(s, "%H:%M") {
        Ok(t) => Some((t.num_seconds_from_midnight(), t.nanosecond())),
        Err(_) => None,
    }
}

/// A time of day written `HH:MM`, or `default`.
pub open spec fn time_or(s: Seq<char>, default: DayTime) -> DayTime {
    match naive_time_hm(s) {
        Some((secs, frac)) => DayTime { secs, frac },
        None => default,
    }
}

/// Reads an `HH:MM` time of day, `default` when it does not read as one.
pub fn parse_time_or(s: &str, default: DayTime) -> (t: DayTime)
    ensures
        t == time_or(s@, default),
        valid_time(default) ==> valid_time(t),
{
    match parse_time_of_day(s) {
        Some((secs, frac)) => DayTime { secs, frac },
        None => default,
    }
}

/// `t` moved by `offset` minutes around the clock, to the whole minute.
pub open spec fn offset_of(t: DayTime, offset: int) -> DayTime {
    let total = (t.secs / 60 + offset) % 1440;
    DayTime { secs: (total * 60) as u32, frac: 0 }
}

/// A time of day moved by `offset_minutes` around the clock, to the whole
/// minute.
pub fn offset_time(time: DayTime, offset_minutes: i32) -> (t: DayTime)
    requires
        valid_time(time),
        i32::MIN <= time.secs / 60 + offset_minutes <= i32::MAX,
    ensures
        t == offset_of(time, offset_minutes as int),
        valid_time(t),
{
    let minutes: i32 = (time.secs / 60) as i32;
    let total: i32 = minutes + offset_minutes;
    let wrapped: i32 = total % 1440;
    let m: i32 = if wrapped < 0 {
        wrapped + 1440
    } else {
        wrapped
    };
    assert(m == (time.secs / 60 + offset_minutes) % 1440);
    DayTime { secs: (m as u32) * 60, frac: 0 }
}

/// Dark on a fixed schedule: from the dark time to the light time, around
/// midnight when the light time comes first.
pub open spec fn dark_fixed(now: DayTime, dark: DayTime, light: DayTime) -> bool {
    if earlier(light, dark) {
        earlier(now, light) || !earlier(now, dark)
    } else {
        !earlier(now, dark) && earlier(now, light)
    }
}

/// Dark between sunset and sunrise, both already local.
pub open spec fn dark_solar(now: DayTime, sunrise: DayTime, sunset: DayTime) -> bool {
    earlier(now, sunrise) || !earlier(now, sunset)
}

/// The schedule kinds.
#[derive(Debug, Clone, Copy, PartialEq, Eq, Structural)]
pub enum ScheduleMode {
    SunsetSunrise,
    Fixed,
    Off,
}

/// The schedule a mode name selects: anything but the two known names is no
/// schedule.
pub open spec fn mode_of(name: Seq<char>) -> ScheduleMode {
    if name == "sunset-sunrise"@ {
        ScheduleMode::SunsetSunrise
    } else if name == "fixed"@ {
        ScheduleMode::Fixed
    } else {
        ScheduleMode::Off
    }
}

/// The schedule a mode name selects.
pub fn schedule_mode(name: &str) -> (m: ScheduleMode)
    ensures
        m == mode_of(name@),
{
    if same_text(name, "sunset-sunrise") {
        ScheduleMode::SunsetSunrise
    } else if same_text(name, "fixed") {
        ScheduleMode::Fixed
    } else {
        ScheduleMode::Off
    }
}

/// The Light Switch settings (the place, in degrees, is kept beside them by
/// whoever computes the sun's times).
#[derive(Debug)]
pub struct LightSwitchConfig {
    pub schedule_mode: String,
    pub sunrise_offset_min: i32,
    pub sunset_offset_min: i32,
    pub dark_mode_time: String,
    pub light_mode_time: String,
    pub apply_system: bool,
    pub apply_apps: bool,
}

/// The default schedule: none.
pub fn default_off() -> (s: String)
    ensures
        s@ == "off"@,
{
    owned("off")
}

/// The default time dark mode starts.
pub fn default_dark_time() -> (s: String)
    ensures
        s@ == "20:00"@,
{
    owned("20:00")
}

/// The default time light mode starts.
pub fn default_light_time() -> (s: String)
    ensures
        s@ == "06:00"@,
{
    owned("06:00")
}

impl LightSwitchConfig {
    /// The default settings: no schedule, dark from 20:00 to 06:00, no
    /// offsets, system and applications both switched.
    pub fn default_config() -> (c: LightSwitchConfig)
        ensures
            c.schedule_mode@ == "off"@,
            c.sunrise_offset_min == 0,
            c.sunset_offset_min == 0,
            c.dark_mode_time@ == "20:00"@,
            c.light_mode_time@ == "06:00"@,
            c.apply_system,
            c.apply_apps,
    {
        LightSwitchConfig {
            schedule_mode: default_off(),
            sunrise_offset_min: 0,
            sunset_offset_min: 0,
            dark_mode_time: default_dark_time(),
            light_mode_time: default_light_time(),
            apply_system: true,
            apply_apps: true,
        }
    }
}

/// The offsets to local sunrise and sunset fit in minutes as `i32`.
pub open spec fn offsets_fit(cfg: LightSwitchConfig, sunrise: DayTime, sunset: DayTime, tz: i32) -> bool {
    &&& i32::MIN <= tz + cfg.sunrise_offset_min <= i32::MAX
    &&& i32::MIN <= tz + cfg.sunset_offset_min <= i32::MAX
    &&& i32::MIN <= sunrise.secs / 60 + tz + cfg.sunrise_offset_min <= i32::MAX
    &&& i32::MIN <= sunset.secs / 60 + tz + cfg.sunset_offset_min <= i32::MAX
}

/// Whether the desktop should be dark at `now` under `cfg`: `None` when no
/// schedule is set (the desktop keeps its theme). For the sun's schedule,
/// `solar` holds sunrise and sunset in UTC and `tz_offset_min` the local
/// offset from UTC in minutes.
pub open spec fn should_be_dark_at(
    cfg: LightSwitchConfig,
    now: DayTime,
    tz_offset_min: i32,
    solar: Option<(DayTime, DayTime)>,
) -> Option<bool> {
    match mode_of(cfg.schedule_mode@) {
        ScheduleMode::SunsetSunrise => {
            let (rise, set) = solar.unwrap();
            Some(
                dark_solar(
                    now,
                    offset_of(rise, tz_offset_min + cfg.sunrise_offset_min),
                    offset_of(set, tz_offset_min + cfg.sunset_offset_min),
                ),
            )
        },
        ScheduleMode::Fixed => Some(
            dark_fixed(
                now,
                time_or(cfg.dark_mode_time@, hm(20, 0)),
                time_or(cfg.light_mode_time@, hm(6, 0)),
            ),
        ),
        ScheduleMode::Off => None,
    }
}

/// The Light Switch module: whether it runs, and its settings.
#[derive(Debug)]
pub struct LightSwitch {
    running: bool,
    config: LightSwitchConfig,
}

impl LightSwitch {
    /// A stopped module with the given settings.
    pub fn new(config: LightSwitchConfig) -> (ls: LightSwitch)
        ensures
            !ls.is_running_spec(),
            ls.config_spec() == config,
    {
        LightSwitch { running: false, config }
    }

    /// Whether the module runs.
    pub closed spec fn is_running_spec(&self) -> bool {
        self.running
    }

    /// The module's settings.
    pub closed spec fn config_spec(&self) -> LightSwitchConfig {
        self.config
    }

    /// The module's settings.
    pub fn config(&self) -> (c: &LightSwitchConfig)
        ensures
            *c == self.config_spec(),
    {
        &self.config
    }

    /// Whether the desktop should be dark now: `None` when no known schedule
    /// is chosen, the desktop then keeping the theme it has.
    pub fn should_be_dark(&self, now: DayTime, tz_offset_min: i32, solar: Option<(DayTime, DayTime)>) -> (r: Option<bool>)
        requires
            mode_of(self.config_spec().schedule_mode@) == ScheduleMode::SunsetSunrise ==> (solar matches Some(
                (rise, set),
            ) && valid_time(rise) && valid_time(set) && offsets_fit(
                self.config_spec(),
                rise,
                set,
                tz_offset_min,
            )),
        ensures
            r == should_be_dark_at(self.config_spec(), now, tz_offset_min, solar),
    {
        match schedule_mode(self.config.schedule_mode.as_str()) {
            ScheduleMode::SunsetSunrise => {
                let (rise, set) = solar.unwrap();
                let sunrise = offset_time(rise, tz_offset_min + self.config.sunrise_offset_min);
                let sunset = offset_time(set, tz_offset_min + self.config.sunset_offset_min);
                Some(is_earlier(now, sunrise) || !is_earlier(now, sunset))
            },
            ScheduleMode::Fixed => {
                let dark = parse_time_or(self.config.dark_mode_time.as_str(), DayTime { secs: 72000, frac: 0 });
                let light = parse_time_or(self.config.light_mode_time.as_str(), DayTime { secs: 21600, frac: 0 });
                let d = if is_earlier(light, dark) {
                    is_earlier(now, light) || !is_earlier(now, dark)
                } else {
                    !is_earlier(now, dark) && is_earlier(now, light)
                };
                Some(d)
            },
            ScheduleMode::Off => None,
        }
    }

    /// The commands that apply the scheduled theme now: none when the
    /// schedule is `off` (any other name, known or not, applies `dark`).
    pub fn apply_scheduled_theme(&self, dark: bool) -> (c: Vec<Vec<String>>)
        ensures
            commands_view(c@) == (if self.config_spec().schedule_mode@ == "off"@ {
                seq![]
            } else {
                theme_commands_of(dark, self.config_spec().apply_system, self.config_spec().apply_apps)
            }),
    {
        if same_text(self.config.schedule_mode.as_str(), "off") {
            let c: Vec<Vec<String>> = Vec::new();
            return c;
        }
        set_theme(dark, self.config.apply_system, self.config.apply_apps)
    }

    /// The commands that toggle the theme from `current`.
    pub fn on_hotkey(&self, current: SystemTheme) -> (c: Vec<Vec<String>>)
        ensures
            commands_view(c@) == theme_commands_of(
                current == SystemTheme::Light,
                self.config_spec().apply_system,
                self.config_spec().apply_apps,
            ),
    {
        toggle_theme(current, self.config.apply_system, self.config.apply_apps)
    }

    /// Starts the module.
    pub fn start(&mut self)
        ensures
            final(self).is_running_spec(),
            final(self).config_spec() == old(self).config_spec(),
    {
        self.running = true;
    }

    /// Stops the module.
    pub fn stop(&mut self)
        ensures
            !final(self).is_running_spec(),
            final(self).config_spec() == old(self).config_spec(),
    {
        self.running = false;
    }

    /// Whether the module runs.
    pub fn is_running(&self) -> (b: bool)
        ensures
            b == self.is_running_spec(),
    {
        self.running
    }
}

/// One minute of the scheduler: given the theme it last applied and the one
/// the schedule wants now, what it remembers and whether it applies it.
pub fn scheduler_step(last_dark: Option<bool>, dark: bool) -> (r: (Option<bool>, bool))
    ensures
        r.0 == Some(dark),
        r.1 == (last_dark != Some(dark)),
{
    let apply = match last_dark {
        Some(d) => d != dark,
        None => true,
    };
    (Some(dark), apply)
}

/// The scheduler applies a theme only when it changes: after one step, a
/// second step with the same wish applies nothing.
pub proof fn law_scheduler_applies_once(last_dark: Option<bool>, dark: bool)
    ensures
        ({
            let first = (Some(dark), last_dark != Some(dark));
            let second = (Some(dark), first.0 != Some(dark));
            !second.1
        }),
{
}

/// Fixed schedules: at the dark time itself the desktop is dark, at the
/// light time itself it is light, whenever the two differ.
pub proof fn law_fixed_boundaries(dark: DayTime, light: DayTime)
    requires
        dark != light,
    ensures
        dark_fixed(dark, dark, light),
        !dark_fixed(light, dark, light),
{
}

/// A time of day as one number, in nanoseconds past midnight (a leap second
/// counted within its second).
pub open spec fn instant(t: DayTime) -> int {
    t.secs * 1_000_000_000 + t.frac
}

/// Nanosecond order agrees with the schedule's order of times of day, for
/// valid times within ordinary seconds.
proof fn lemma_instant_order(a: DayTime, b: DayTime)
    requires
        a.frac < 1_000_000_000,
        b.frac < 1_000_000_000,
    ensures
        earlier(a, b) <==> instant(a) < instant(b),
{
    if a.secs < b.secs {
        assert(instant(a) < (a.secs + 1) * 1_000_000_000);
        assert((a.secs + 1) * 1_000_000_000 <= b.secs * 1_000_000_000) by (nonlinear_arith)
            requires a.secs + 1 <= b.secs;
    } else if a.secs > b.secs {
        assert(instant(b) < (b.secs + 1) * 1_000_000_000);
        assert((b.secs + 1) * 1_000_000_000 <= a.secs * 1_000_000_000) by (nonlinear_arith)
            requires b.secs + 1 <= a.secs;
    }
}

/// On a fixed schedule the desktop is dark from the dark time up to, not
/// including, the light time: when the dark time comes first in the day,
/// exactly the times in between are dark (any time before the dark time or
/// from the light time on is light); when the light time comes first, the
/// dark stretch runs across midnight; with both equal it is never dark.
/// Times are taken to the nanosecond, within ordinary seconds.
pub proof fn law_fixed_schedule(cfg: LightSwitchConfig, now: DayTime, tz_offset_min: i32, solar: Option<(DayTime, DayTime)>)
    requires
        mode_of(cfg.schedule_mode@) == ScheduleMode::Fixed,
        now.frac < 1_000_000_000,
        time_or(cfg.dark_mode_time@, hm(20, 0)).frac < 1_000_000_000,
        time_or(cfg.light_mode_time@, hm(6, 0)).frac < 1_000_000_000,
    ensures
        ({
            let d = instant(time_or(cfg.dark_mode_time@, hm(20, 0)));
            let l = instant(time_or(cfg.light_mode_time@, hm(6, 0)));
            let t = instant(now);
            should_be_dark_at(cfg, now, tz_offset_min, solar) == Some(
                if d <= l {
                    d <= t && t < l
                } else {
                    t < l || d <= t
                },
            )
        }),
{
    let dark = time_or(cfg.dark_mode_time@, hm(20, 0));
    let light = time_or(cfg.light_mode_time@, hm(6, 0));
    lemma_instant_order(now, dark);
    lemma_instant_order(now, light);
    lemma_instant_order(light, dark);
    lemma_instant_order(dark, light);
}

/// The schedule names: "sunset-sunrise" follows the sun, "fixed" the two
/// set times, and any other name (such as "off") sets no schedule, leaving
/// the desktop's theme alone.
pub proof fn law_schedule_names(cfg: LightSwitchConfig, now: DayTime, tz_offset_min: i32, solar: Option<(DayTime, DayTime)>)
    ensures
        mode_of(seq!['s', 'u', 'n', 's', 'e', 't', '-', 's', 'u', 'n', 'r', 'i', 's', 'e']) == ScheduleMode::SunsetSunrise,
        mode_of(seq!['f', 'i', 'x', 'e', 'd']) == ScheduleMode::Fixed,
        mode_of(seq!['o', 'f', 'f']) == ScheduleMode::Off,
        cfg.schedule_mode@ != seq!['s', 'u', 'n', 's', 'e', 't', '-', 's', 'u', 'n', 'r', 'i', 's', 'e']
            && cfg.schedule_mode@ != seq!['f', 'i', 'x', 'e', 'd'] ==> should_be_dark_at(cfg, now, tz_offset_min, solar) is None,
{
    reveal_strlit("sunset-sunrise");
    reveal_strlit("fixed");
    assert("sunset-sunrise"@ =~= seq!['s', 'u', 'n', 's', 'e', 't', '-', 's', 'u', 'n', 'r', 'i', 's', 'e']);
    assert("fixed"@ =~= seq!['f', 'i', 'x', 'e', 'd']);
}

/// On the sun's schedule the desktop is dark before the (offset, local)
/// sunrise and from the (offset, local) sunset on, and light in between.
pub proof fn law_solar_schedule(cfg: LightSwitchConfig, now: DayTime, tz_offset_min: i32, rise: DayTime, set: DayTime)
    requires
        mode_of(cfg.schedule_mode@) == ScheduleMode::SunsetSunrise,
        now.frac < 1_000_000_000,
    ensures
        ({
            let r = instant(offset_of(rise, tz_offset_min + cfg.sunrise_offset_min));
            let s = instant(offset_of(set, tz_offset_min + cfg.sunset_offset_min));
            let t = instant(now);
            should_be_dark_at(cfg, now, tz_offset_min, Some((rise, set))) == Some(t < r || s <= t)
        }),
{
    lemma_instant_order(now, offset_of(rise, tz_offset_min + cfg.sunrise_offset_min));
    lemma_instant_order(now, offset_of(set, tz_offset_min + cfg.sunset_offset_min));
}

} // verus!
