//! Mouse Utilities: settings, the Find My Mouse activation, the spotlight's
//! geometry, cursor wrapping, and the keyboard grabs of Mouse Jump.

use vstd::prelude::*;

use crate::keysyms::{
    key_backspace, key_control_l, key_control_r, key_delete, key_down, key_escape, key_f1, key_f10,
    key_f11, key_f12, key_f2, key_f3, key_f4, key_f5, key_f6, key_f7, key_f8, key_f9, key_kp_delete,
    key_kp_enter, key_kp_space, key_kp_tab, key_left, key_return_key, key_right, key_space, key_tab,
    key_up,
};
use crate::numbers::{parse_unsigned, unsigned_of};
use crate::text::{chars_of, lowercase, owned, same_text, string_of, to_lowercase, trim, trim_range};

verus! {

// ---------------------------------------------------------------------------
// Settings
// ---------------------------------------------------------------------------

/// How Find My Mouse is called up.
#[derive(Debug, Clone, Copy, PartialEq, Eq, Structural)]
pub enum FindMyMouseActivation {
    LeftCtrlTwice,
    RightCtrlTwice,
    ShakeMouse,
    CustomShortcut,
}

/// How clicks are highlighted.
#[derive(Debug, Clone, Copy, PartialEq, Eq, Structural)]
pub enum HighlightMode {
    CircleHighlight,
    Spotlight,
}

/// Which crosshair lines are drawn.
#[derive(Debug, Clone, Copy, PartialEq, Eq, Structural)]
pub enum CrosshairOrientation {
    Horizontal,
    Vertical,
    Both,
}

impl FindMyMouseActivation {
    /// The default activation: the left Ctrl key pressed twice.
    pub fn default_activation() -> (a: FindMyMouseActivation)
        ensures
            a == FindMyMouseActivation::LeftCtrlTwice,
    {
        FindMyMouseActivation::LeftCtrlTwice
    }
}

impl HighlightMode {
    /// The default highlight: a circle.
    pub fn default_mode() -> (m: HighlightMode)
        ensures
            m == HighlightMode::CircleHighlight,
    {
        HighlightMode::CircleHighlight
    }
}

impl CrosshairOrientation {
    /// The default orientation: both lines.
    pub fn default_orientation() -> (o: CrosshairOrientation)
        ensures
            o == CrosshairOrientation::Both,
    {
        CrosshairOrientation::Both
    }
}

/// The default mouse travel, in pixels, that counts as a shake.
pub fn default_shake_distance() -> (d: u32)
    ensures
        d == 1000,
{
    1000
}

/// The default spotlight radius, in pixels.
pub fn default_spotlight_radius() -> (r: u32)
    ensures
        r == 100,
{
    100
}

/// The default spotlight zoom.
pub fn default_initial_zoom() -> (z: u32)
    ensures
        z == 4,
{
    4
}

/// The default spotlight animation, in milliseconds.
pub fn default_animation_ms() -> (ms: u32)
    ensures
        ms == 500,
{
    500
}

/// The default highlight radius, in pixels.
pub fn default_highlighter_radius() -> (r: u32)
    ensures
        r == 20,
{
    20
}

/// The default delay before a highlight fades, in milliseconds.
pub fn default_fade_delay() -> (ms: u32)
    ensures
        ms == 500,
{
    500
}

/// The default fade, in milliseconds.
pub fn default_fade_duration() -> (ms: u32)
    ensures
        ms == 250,
{
    250
}

/// The default crosshair centre radius, in pixels.
pub fn default_crosshair_center_radius() -> (r: u32)
    ensures
        r == 20,
{
    20
}

/// The default crosshair thickness, in pixels.
pub fn default_crosshair_thickness() -> (t: u32)
    ensures
        t == 5,
{
    5
}

/// The default fixed crosshair length, in pixels.
pub fn default_crosshair_fixed_length_px() -> (l: u32)
    ensures
        l == 400,
{
    400
}

/// The default Mouse Jump preview width, in pixels.
pub fn default_jump_width() -> (w: u32)
    ensures
        w == 400,
{
    400
}

/// The default Mouse Jump preview height, in pixels.
pub fn default_jump_height() -> (h: u32)
    ensures
        h == 300,
{
    300
}

/// The default gliding cursor travel speed.
pub fn default_gliding_travel() -> (s: u32)
    ensures
        s == 1000,
{
    1000
}

/// The default gliding cursor delay speed.
pub fn default_gliding_delay() -> (s: u32)
    ensures
        s == 500,
{
    500
}

/// The default overlay background colour.
pub fn default_bg_color() -> (s: String)
    ensures
        s@ == "#000000"@,
{
    owned("#000000")
}

/// The default spotlight colour.
pub fn default_spotlight_color() -> (s: String)
    ensures
        s@ == "#FFFFFF"@,
{
    owned("#FFFFFF")
}

/// The default shortcut of the click highlighter.
pub fn default_highlighter_shortcut() -> (s: String)
    ensures
        s@ == "Super+Shift+H"@,
{
    owned("Super+Shift+H")
}

/// The default primary highlight colour.
pub fn default_highlighter_primary() -> (s: String)
    ensures
        s@ == "#FFFF00"@,
{
    owned("#FFFF00")
}

/// The default secondary highlight colour.
pub fn default_highlighter_secondary() -> (s: String)
    ensures
        s@ == "#0000FF"@,
{
    owned("#0000FF")
}

/// The default crosshair colour.
pub fn default_crosshair_color() -> (s: String)
    ensures
        s@ == "#FF0000"@,
{
    owned("#FF0000")
}

/// The default crosshair border colour.
pub fn default_crosshair_border_color() -> (s: String)
    ensures
        s@ == "#FFFFFF"@,
{
    owned("#FFFFFF")
}

/// The default Mouse Jump shortcut.
pub fn default_jump_shortcut() -> (s: String)
    ensures
        s@ == "Super+Shift+D"@,
{
    owned("Super+Shift+D")
}

/// The default gliding cursor shortcut.
pub fn default_gliding_shortcut() -> (s: String)
    ensures
        s@ == "Super+Alt+."@,
{
    owned("Super+Alt+.")
}

// ---------------------------------------------------------------------------
// Colours
// ---------------------------------------------------------------------------

/// `s` without any leading `#` (`trim_start_matches('#')`).
pub open spec fn without_hashes(s: Seq<char>) -> Seq<char>
    decreases s.len(),
{
    if s.len() > 0 && s[0] == '#' {
        without_hashes(s.drop_first())
    } else {
        s
    }
}

/// The colour a `#RRGGBB` text gives: its hexadecimal value, `default`
/// when it does not read as one.
pub open spec fn hex_color_of(s: Seq<char>, default: u32) -> u32 {
    match unsigned_of(without_hashes(s), 16, u32::MAX as nat) {
        Some(v) => v as u32,
        None => default,
    }
}

/// Reads a `#RRGGBB` colour, `default` when it does not read (Find My
/// Mouse falls back to black, the highlighter to yellow).
pub fn parse_hex_color(hex: &str, default: u32) -> (c: u32)
    ensures
        c == hex_color_of(hex@, default),
{
    let v = chars_of(hex);
    let mut i: usize = 0;
    assert(v@.subrange(0, v.len() as int) =~= v@);
    while i < v.len() && v[i] == '#'
        invariant
            i <= v.len(),
            v@ == hex@,
            without_hashes(hex@) == without_hashes(v@.subrange(i as int, v.len() as int)),
        decreases v.len() - i,
    {
        assert(v@.subrange(i as int, v.len() as int).drop_first() =~= v@.subrange(
            i + 1,
            v.len() as int,
        ));
        i += 1;
    }
    let rest = string_of(&v, i, v.len());
    proof {
        let r = v@.subrange(i as int, v.len() as int);
        assert(without_hashes(r) == r);
    }
    match parse_unsigned(rest.as_str(), 16, 0xffff_ffff) {
        Some(x) => x as u32,
        None => default,
    }
}

// ---------------------------------------------------------------------------
// Find My Mouse
// ---------------------------------------------------------------------------

/// Find My Mouse between events: when the activation Ctrl was last pressed
/// (milliseconds), and whether the spotlight shows.
#[derive(Debug, Clone, Copy, PartialEq, Eq, Structural)]
pub struct FindMyMouseState {
    pub last_ctrl_ms: Option<u64>,
    pub spotlight_active: bool,
}

/// What Find My Mouse does after an event.
#[derive(Debug, Clone, Copy, PartialEq, Eq, Structural)]
pub enum SpotlightAction {
    Nothing,
    Show,
    Dismiss,
}

/// The Ctrl key an activation listens to.
pub open spec fn is_target_ctrl(keysym: u32, activation: FindMyMouseActivation) -> bool {
    match activation {
        FindMyMouseActivation::LeftCtrlTwice => keysym == 0xffe3,
        FindMyMouseActivation::RightCtrlTwice => keysym == 0xffe4,
        _ => false,
    }
}

/// Find My Mouse's answer to a key press at `now_ms`: any key dismisses the
/// spotlight; otherwise the activation Ctrl pressed twice within 400 ms
/// shows it.
pub open spec fn key_press_step(
    s: FindMyMouseState,
    keysym: u32,
    activation: FindMyMouseActivation,
    now_ms: u64,
) -> (FindMyMouseState, SpotlightAction) {
    if s.spotlight_active {
        (FindMyMouseState { last_ctrl_ms: s.last_ctrl_ms, spotlight_active: false }, SpotlightAction::Dismiss)
    } else if is_target_ctrl(keysym, activation) {
        match s.last_ctrl_ms {
            Some(last) if now_ms >= last && now_ms - last < 400 => (
                FindMyMouseState { last_ctrl_ms: None, spotlight_active: true },
                SpotlightAction::Show,
            ),
            Some(last) if now_ms < last => (
                FindMyMouseState { last_ctrl_ms: None, spotlight_active: true },
                SpotlightAction::Show,
            ),
            _ => (FindMyMouseState { last_ctrl_ms: Some(now_ms), spotlight_active: false }, SpotlightAction::Nothing),
        }
    } else {
        (s, SpotlightAction::Nothing)
    }
}

impl FindMyMouseState {
    /// Nothing pressed yet, no spotlight.
    pub fn new() -> (s: FindMyMouseState)
        ensures
            s.last_ctrl_ms is None,
            !s.spotlight_active,
    {
        FindMyMouseState { last_ctrl_ms: None, spotlight_active: false }
    }

    /// A key press with keysym `keysym` at `now_ms`.
    pub fn on_key_press(&mut self, keysym: u32, activation: FindMyMouseActivation, now_ms: u64) -> (a: SpotlightAction)
        ensures
            (*final(self), a) == key_press_step(*old(self), keysym, activation, now_ms),
    {
        if self.spotlight_active {
            self.spotlight_active = false;
            return SpotlightAction::Dismiss;
        }
        let target = match activation {
            FindMyMouseActivation::LeftCtrlTwice => keysym == key_control_l(),
            FindMyMouseActivation::RightCtrlTwice => keysym == key_control_r(),
            _ => false,
        };
        if target {
            if let Some(last) = self.last_ctrl_ms {
                let elapsed: u64 = if now_ms >= last {
                    now_ms - last
                } else {
                    0
                };
                if elapsed < 400 {
                    self.last_ctrl_ms = None;
                    self.spotlight_active = true;
                    return SpotlightAction::Show;
                }
            }
            self.last_ctrl_ms = Some(now_ms);
        }
        SpotlightAction::Nothing
    }

    /// A mouse button press: it dismisses the spotlight.
    pub fn on_button_press(&mut self) -> (a: SpotlightAction)
        ensures
            !final(self).spotlight_active,
            final(self).last_ctrl_ms == old(self).last_ctrl_ms,
            a == (if old(self).spotlight_active {
                SpotlightAction::Dismiss
            } else {
                SpotlightAction::Nothing
            }),
    {
        if self.spotlight_active {
            self.spotlight_active = false;
            SpotlightAction::Dismiss
        } else {
            SpotlightAction::Nothing
        }
    }
}

/// A spotlight never shows after a single press: showing it takes a press
/// recorded before, within 400 ms.
pub proof fn law_show_needs_two_presses(s: FindMyMouseState, keysym: u32, activation: FindMyMouseActivation, now_ms: u64)
    requires
        key_press_step(s, keysym, activation, now_ms).1 == SpotlightAction::Show,
    ensures
        s.last_ctrl_ms is Some,
        !s.spotlight_active,
        is_target_ctrl(keysym, activation),
{
}

/// The box of the spotlight's hole around the cursor `(cx, cy)`: the circle
/// of radius `radius` drawn as an arc in that box.
pub open spec fn spotlight_box(cx: i16, cy: i16, radius: u32) -> (int, int, int, int) {
    let r = radius as i16;
    (cx - r, cy - r, 2 * r, 2 * r)
}

/// The hole's box fits the X11 coordinate types.
pub open spec fn spotlight_fits(cx: i16, cy: i16, radius: u32) -> bool {
    let r = radius as i16;
    &&& i16::MIN <= cx - r <= i16::MAX
    &&& i16::MIN <= cy - r <= i16::MAX
    &&& 0 <= 2 * r <= i16::MAX
}

/// The box of the spotlight's hole: left, top, width and height.
pub fn spotlight_arc(cx: i16, cy: i16, radius: u32) -> (b: (i16, i16, u16, u16))
    requires
        spotlight_fits(cx, cy, radius),
    ensures
        (b.0 as int, b.1 as int, b.2 as int, b.3 as int) == spotlight_box(cx, cy, radius),
{
    let r: i16 = radius as i16;
    let d: i16 = r * 2;
    (cx - r, cy - r, d as u16, d as u16)
}

// ---------------------------------------------------------------------------
// Click highlighter and crosshairs
// ---------------------------------------------------------------------------

/// The colour a click is highlighted in: the primary colour for the left
/// button, the secondary for the right one, none for other buttons.
pub fn click_color(button: u32, primary: u32, secondary: u32) -> (c: Option<u32>)
    ensures
        c == (if button == 1 {
            Some(primary)
        } else if button == 3 {
            Some(secondary)
        } else {
            None
        }),
{
    if button == 1 {
        Some(primary)
    } else if button == 3 {
        Some(secondary)
    } else {
        None
    }
}

/// The highlight radius: at least 5 pixels.
pub fn highlight_radius(radius: u32) -> (r: u32)
    ensures
        r == (if radius > 5 {
            radius
        } else {
            5
        }),
{
    if radius > 5 {
        radius
    } else {
        5
    }
}

/// The window of a click highlight around `(cx, cy)`: left, top and side.
pub open spec fn circle_box(cx: i16, cy: i16, radius: u32) -> (int, int, int) {
    let r = radius as i16;
    (cx - r, cy - r, ((2 * radius) as u16) as int)
}

/// The highlight's window fits the X11 coordinate types.
pub open spec fn circle_fits(cx: i16, cy: i16, radius: u32) -> bool {
    let r = radius as i16;
    &&& i16::MIN <= cx - r <= i16::MAX
    &&& i16::MIN <= cy - r <= i16::MAX
    &&& 2 * radius <= u32::MAX
}

/// The window of a click highlight: left, top, and the side of its square.
pub fn circle_geometry(cx: i16, cy: i16, radius: u32) -> (g: (i16, i16, u16))
    requires
        circle_fits(cx, cy, radius),
    ensures
        (g.0 as int, g.1 as int, g.2 as int) == circle_box(cx, cy, radius),
{
    let r: i16 = radius as i16;
    let diameter: u16 = (radius * 2) as u16;
    (cx - r, cy - r, diameter)
}

/// A highlight is gone once it has lived longer than its delay and fade
/// (all in nanoseconds, the delay and fade given in milliseconds).
pub fn highlight_expired(elapsed_ns: u128, fade_delay_ms: u32, fade_duration_ms: u32) -> (b: bool)
    ensures
        b == (elapsed_ns > (fade_delay_ms + fade_duration_ms) * 1_000_000),
{
    let total: u128 = (fade_delay_ms as u128 + fade_duration_ms as u128) * 1_000_000;
    elapsed_ns > total
}

/// Which crosshair lines are drawn: horizontal unless only vertical,
/// vertical unless only horizontal.
pub fn crosshair_lines(o: CrosshairOrientation) -> (r: (bool, bool))
    ensures
        r == (o != CrosshairOrientation::Vertical, o != CrosshairOrientation::Horizontal),
{
    (o != CrosshairOrientation::Vertical, o != CrosshairOrientation::Horizontal)
}

/// Where a crosshair line runs along its own axis, the cursor at `c` on a
/// screen `screen` pixels long: the whole screen, or `len` pixels centred on
/// the cursor (not before the screen's start, and at most the screen long).
pub open spec fn crosshair_span_of(c: i16, fixed: Option<u32>, screen: u16) -> (int, int) {
    match fixed {
        Some(len) => {
            let half = (len / 2) as i16;
            let start = if c - half > 0 {
                c - half
            } else {
                0
            };
            let l = if len < screen {
                len as int
            } else {
                screen as int
            };
            (start, l)
        },
        None => (0, screen as int),
    }
}

/// Where a crosshair line runs along its own axis: start and length.
pub fn crosshair_span(c: i16, fixed: Option<u32>, screen: u16) -> (r: (i16, u16))
    requires
        fixed matches Some(len) ==> i16::MIN <= c - ((len / 2) as i16) <= i16::MAX,
    ensures
        (r.0 as int, r.1 as int) == crosshair_span_of(c, fixed, screen),
{
    match fixed {
        Some(len) => {
            let half: i16 = (len / 2) as i16;
            let d: i16 = c - half;
            let start: i16 = if d > 0 {
                d
            } else {
                0
            };
            let l: u16 = if len < screen as u32 {
                len as u16
            } else {
                screen
            };
            (start, l)
        },
        None => (0, screen),
    }
}

/// The crosshair line's place across its axis: the cursor less half the
/// thickness.
pub fn crosshair_offset(c: i16, thickness: u32) -> (o: i16)
    requires
        i16::MIN <= c - ((thickness / 2) as i16) <= i16::MAX,
    ensures
        o == c - ((thickness / 2) as i16),
{
    let half_t: i16 = (thickness / 2) as i16;
    c - half_t
}

// ---------------------------------------------------------------------------
// Cursor wrap
// ---------------------------------------------------------------------------

/// Where the cursor goes along one axis of a screen `size` pixels long:
/// from the first pixel or two to the far side, from the last ones to the
/// near side.
pub open spec fn wrap_axis(c: int, size: int) -> int {
    if c <= 1 {
        size - 3
    } else if c >= size - 2 {
        2
    } else {
        c
    }
}

fn wrap_coord(c: i16, size: i16) -> (n: i16)
    requires
        size >= i16::MIN + 3,
    ensures
        n == wrap_axis(c as int, size as int),
{
    let margin: i16 = 1;
    if c <= margin {
        size - margin - 2
    } else if c >= size - margin - 1 {
        margin + 1
    } else {
        c
    }
}

/// Where the cursor at `(cx, cy)` goes on a `sw` by `sh` screen; the same
/// place when it is not at an edge.
pub fn wrap_position(cx: i16, cy: i16, sw: i16, sh: i16) -> (p: (i16, i16))
    requires
        sw >= i16::MIN + 3,
        sh >= i16::MIN + 3,
    ensures
        p.0 == wrap_axis(cx as int, sw as int),
        p.1 == wrap_axis(cy as int, sh as int),
{
    (wrap_coord(cx, sw), wrap_coord(cy, sh))
}

/// Away from the edges the cursor stays put.
pub proof fn law_wrap_interior(c: int, size: int)
    requires
        1 < c < size - 2,
    ensures
        wrap_axis(c, size) == c,
{
}

// ---------------------------------------------------------------------------
// Keyboard grabs
// ---------------------------------------------------------------------------

/// The modifier keys of a shortcut.
#[derive(Debug, Clone, Copy, PartialEq, Eq, Structural)]
pub enum Modifier {
    Ctrl,
    Alt,
    Shift,
    Super,
}

/// The X11 mask bit of a modifier.
pub open spec fn modifier_bit(m: Modifier) -> u16 {
    match m {
        Modifier::Shift => 1,
        Modifier::Ctrl => 4,
        Modifier::Alt => 8,
        Modifier::Super => 64,
    }
}

/// The X11 mask of some modifiers: the union of their bits.
pub open spec fn modifier_mask(ms: Seq<Modifier>) -> u16
    decreases ms.len(),
{
    if ms.len() == 0 {
        0
    } else {
        modifier_mask(ms.drop_last()) | modifier_bit(ms.last())
    }
}

/// The X11 modifier mask of a shortcut's modifiers.
pub fn modifiers_to_x11(modifiers: &[Modifier]) -> (mask: u16)
    ensures
        mask == modifier_mask(modifiers@),
{
    let mut mask: u16 = 0;
    let mut i: usize = 0;
    while i < modifiers.len()
        invariant
            i <= modifiers.len(),
            mask == modifier_mask(modifiers@.take(i as int)),
        decreases modifiers.len() - i,
    {
        let bit: u16 = match modifiers[i] {
            Modifier::Shift => 1,
            Modifier::Ctrl => 4,
            Modifier::Alt => 8,
            Modifier::Super => 64,
        };
        assert(modifiers@.take(i + 1).drop_last() =~= modifiers@.take(i as int));
        mask = mask | bit;
        i += 1;
    }
    assert(modifiers@.take(i as int) =~= modifiers@);
    mask
}

/// The keyboard modifiers of an event's state, Caps Lock and Num Lock left
/// out.
pub fn normalize_mod_state(state: u16) -> (m: u16)
    ensures
        m == (state & 0x00ff) & !(2u16 | 16u16),
{
    let keyboard_mods = state & 0x00ff;
    keyboard_mods & !(2u16 | 16u16)
}

/// The masks a shortcut is grabbed with, so that it works whatever Caps
/// Lock and Num Lock are: plain, with Caps Lock, with Num Lock, with both.
pub fn lock_variants(modifiers: u16) -> (v: [u16; 4])
    ensures
        v@ == seq![modifiers, modifiers | 2, modifiers | 16, modifiers | 2 | 16],
{
    let v = [modifiers, modifiers | 2, modifiers | 16, modifiers | 2 | 16];
    assert(v@ =~= seq![modifiers, modifiers | 2, modifiers | 16, modifiers | 2 | 16]);
    v
}

/// An event matches a grab whatever the lock keys: normalizing each grabbed
/// variant of a keyboard mask gives the mask back.
pub proof fn law_lock_variants_normalize(modifiers: u16)
    requires
        modifiers & 0xff00 == 0,
        modifiers & (2u16 | 16u16) == 0,
    ensures
        ((modifiers | 2) & 0x00ff) & !(2u16 | 16u16) == modifiers,
        ((modifiers | 16) & 0x00ff) & !(2u16 | 16u16) == modifiers,
        ((modifiers | 2 | 16) & 0x00ff) & !(2u16 | 16u16) == modifiers,
        (modifiers & 0x00ff) & !(2u16 | 16u16) == modifiers,
{
    assert(((modifiers | 2) & 0x00ff) & !(2u16 | 16u16) == modifiers) by (bit_vector)
        requires
            modifiers & 0xff00 == 0,
            modifiers & (2u16 | 16u16) == 0,
    ;
    assert(((modifiers | 16) & 0x00ff) & !(2u16 | 16u16) == modifiers) by (bit_vector)
        requires
            modifiers & 0xff00 == 0,
            modifiers & (2u16 | 16u16) == 0,
    ;
    assert(((modifiers | 2 | 16) & 0x00ff) & !(2u16 | 16u16) == modifiers) by (bit_vector)
        requires
            modifiers & 0xff00 == 0,
            modifiers & (2u16 | 16u16) == 0,
    ;
    assert((modifiers & 0x00ff) & !(2u16 | 16u16) == modifiers) by (bit_vector)
        requires
            modifiers & 0xff00 == 0,
            modifiers & (2u16 | 16u16) == 0,
    ;
}


// ---------------------------------------------------------------------------
// Shortcut keys
// ---------------------------------------------------------------------------

/// The keysyms a key name stands for, in lower case.
pub open spec fn named_keysyms(name: Seq<char>) -> Seq<u32> {
    if name == "space"@ {
        seq![0x20, 0xff80]
    } else if name == "tab"@ {
        seq![0xff09, 0xff89]
    } else if name == "enter"@ {
        seq![0xff0d, 0xff8d]
    } else if name == "return"@ {
        seq![0xff0d, 0xff8d]
    } else if name == "esc"@ {
        seq![0xff1b]
    } else if name == "escape"@ {
        seq![0xff1b]
    } else if name == "backspace"@ {
        seq![0xff08]
    } else if name == "delete"@ {
        seq![0xffff, 0xff9f]
    } else if name == "del"@ {
        seq![0xffff, 0xff9f]
    } else if name == "left"@ {
        seq![0xff51]
    } else if name == "right"@ {
        seq![0xff53]
    } else if name == "up"@ {
        seq![0xff52]
    } else if name == "down"@ {
        seq![0xff54]
    } else if name == "f1"@ {
        seq![0xffbe]
    } else if name == "f2"@ {
        seq![0xffbf]
    } else if name == "f3"@ {
        seq![0xffc0]
    } else if name == "f4"@ {
        seq![0xffc1]
    } else if name == "f5"@ {
        seq![0xffc2]
    } else if name == "f6"@ {
        seq![0xffc3]
    } else if name == "f7"@ {
        seq![0xffc4]
    } else if name == "f8"@ {
        seq![0xffc5]
    } else if name == "f9"@ {
        seq![0xffc6]
    } else if name == "f10"@ {
        seq![0xffc7]
    } else if name == "f11"@ {
        seq![0xffc8]
    } else if name == "f12"@ {
        seq![0xffc9]
    } else {
        seq![]
    }
}

fn keysyms_named(name: &str) -> (v: Vec<u32>)
    ensures
        v@ == named_keysyms(name@),
{
    let v =     if same_text(name, "space") {
        vec![key_space(), key_kp_space()]
    } else if same_text(name, "tab") {
        vec![key_tab(), key_kp_tab()]
    } else if same_text(name, "enter") {
        vec![key_return_key(), key_kp_enter()]
    } else if same_text(name, "return") {
        vec![key_return_key(), key_kp_enter()]
    } else if same_text(name, "esc") {
        vec![key_escape()]
    } else if same_text(name, "escape") {
        vec![key_escape()]
    } else if same_text(name, "backspace") {
        vec![key_backspace()]
    } else if same_text(name, "delete") {
        vec![key_delete(), key_kp_delete()]
    } else if same_text(name, "del") {
        vec![key_delete(), key_kp_delete()]
    } else if same_text(name, "left") {
        vec![key_left()]
    } else if same_text(name, "right") {
        vec![key_right()]
    } else if same_text(name, "up") {
        vec![key_up()]
    } else if same_text(name, "down") {
        vec![key_down()]
    } else if same_text(name, "f1") {
        vec![key_f1()]
    } else if same_text(name, "f2") {
        vec![key_f2()]
    } else if same_text(name, "f3") {
        vec![key_f3()]
    } else if same_text(name, "f4") {
        vec![key_f4()]
    } else if same_text(name, "f5") {
        vec![key_f5()]
    } else if same_text(name, "f6") {
        vec![key_f6()]
    } else if same_text(name, "f7") {
        vec![key_f7()]
    } else if same_text(name, "f8") {
        vec![key_f8()]
    } else if same_text(name, "f9") {
        vec![key_f9()]
    } else if same_text(name, "f10") {
        vec![key_f10()]
    } else if same_text(name, "f11") {
        vec![key_f11()]
    } else if same_text(name, "f12") {
        vec![key_f12()]
    } else {
        vec![]
    };
    proof {
        assert(v@ =~= named_keysyms(name@));
    }
    v
}

/// An ASCII letter.
pub open spec fn is_ascii_letter(c: char) -> bool {
    ('a' <= c <= 'z') || ('A' <= c <= 'Z')
}

/// The upper-case form of an ASCII letter.
pub open spec fn ascii_upper(c: char) -> char {
    if 'a' <= c <= 'z' {
        ((c as u32) - 32) as char
    } else {
        c
    }
}

/// The lower-case form of an ASCII letter.
pub open spec fn ascii_lower(c: char) -> char {
    if 'A' <= c <= 'Z' {
        ((c as u32) + 32) as char
    } else {
        c
    }
}

/// The keysyms a shortcut's key stands for: an ASCII letter in both cases,
/// another single ASCII character as itself, or a key name (space, tab,
/// enter, escape, arrows, F1 to F12...) read in lower case.
pub open spec fn key_keysyms(key: Seq<char>) -> Seq<u32> {
    let t = trim(key);
    if t.len() == 0 {
        seq![]
    } else if t.len() == 1 && (t[0] as u32) < 128 {
        if is_ascii_letter(t[0]) {
            seq![ascii_upper(t[0]) as u32, ascii_lower(t[0]) as u32]
        } else {
            seq![t[0] as u32]
        }
    } else {
        named_keysyms(lowercase(t))
    }
}

/// The keysyms a shortcut's key stands for.
pub fn hotkey_key_to_keysyms(key: &str) -> (v: Vec<u32>)
    ensures
        v@ == key_keysyms(key@),
{
    let chars = chars_of(key);
    let (a, b) = trim_range(&chars, 0, chars.len());
    assert(chars@.subrange(0, chars.len() as int) =~= key@);
    let ghost t = trim(key@);
    if a == b {
        return vec![];
    }
    if b - a == 1 && (chars[a] as u32) < 128 {
        let ch = chars[a];
        assert(t[0] == ch);
        let u = ch as u32;
        if ('a' <= ch && ch <= 'z') || ('A' <= ch && ch <= 'Z') {
            let upper: u32 = if 'a' <= ch && ch <= 'z' {
                u - 32
            } else {
                u
            };
            let lower: u32 = if 'A' <= ch && ch <= 'Z' {
                u + 32
            } else {
                u
            };
            let v = vec![upper, lower];
            assert(v@ =~= key_keysyms(key@));
            return v;
        }
        let v = vec![u];
        assert(v@ =~= key_keysyms(key@));
        return v;
    }
    let trimmed = string_of(&chars, a, b);
    let lower = to_lowercase(trimmed.as_str());
    keysyms_named(lower.as_str())
}

/// The keycode of the group of keysyms at position `p`, `per` to a group.
pub open spec fn keycode_of_position(min: u8, per: nat, p: int) -> u8 {
    crate::accent_monitor::keycode_at(min, (p / per as int) as nat)
}

/// Some keysym of keycode `k`'s group is one of `targets`.
pub open spec fn keycode_matches(min: u8, per: nat, ks: Seq<u32>, targets: Seq<u32>, k: u8) -> bool {
    exists|p: int| 0 <= p < ks.len() && targets.contains(ks[p]) && #[trigger] keycode_of_position(min, per, p) == k
}

fn contains_u32(v: &Vec<u32>, x: u32) -> (b: bool)
    ensures
        b == v@.contains(x),
{
    let mut i: usize = 0;
    while i < v.len()
        invariant
            i <= v.len(),
            forall|j: int| 0 <= j < i ==> v@[j] != x,
        decreases v.len() - i,
    {
        if v[i] == x {
            assert(v@[i as int] == x);
            return true;
        }
        i += 1;
    }
    false
}

/// The keycodes whose keysyms (from the keyboard mapping: first keycode,
/// keysyms per keycode, keysyms) include one of `targets`, each once, in
/// increasing order.
pub fn keycodes_for_keysyms(min: u8, keysyms_per_keycode: u8, keysyms: &Vec<u32>, targets: &Vec<u32>) -> (r: Vec<u8>)
    ensures
        keysyms_per_keycode == 0 ==> r@.len() == 0,
        keysyms_per_keycode > 0 ==> forall|k: u8|
            r@.contains(k) <==> keycode_matches(min, keysyms_per_keycode as nat, keysyms@, targets@, k),
        forall|i: int, j: int| 0 <= i < j < r@.len() ==> r@[i] < r@[j],
{
    let mut r: Vec<u8> = Vec::new();
    if keysyms_per_keycode == 0 {
        return r;
    }
    let per: usize = keysyms_per_keycode as usize;
    let mut present: Vec<bool> = vec![false; 256];
    let mut p: usize = 0;
    while p < keysyms.len()
        invariant
            per == keysyms_per_keycode as usize,
            per > 0,
            p <= keysyms.len(),
            present@.len() == 256,
            forall|k: int|
                0 <= k < 256 ==> (#[trigger] present@[k] <==> exists|q: int|
                    0 <= q < p && targets@.contains(keysyms@[q]) && keycode_of_position(min, per as nat, q)
                        == k),
        decreases keysyms.len() - p,
    {
        if contains_u32(targets, keysyms[p]) {
            let kc = min.saturating_add((p / per) as u8);
            assert(kc == keycode_of_position(min, per as nat, p as int));
            present.set(kc as usize, true);
        }
        p += 1;
    }
    let mut k: usize = 0;
    while k < 256
        invariant
            k <= 256,
            present@.len() == 256,
            forall|x: int| 0 <= x < 256 ==> (#[trigger] present@[x] <==> keycode_matches(min, per as nat, keysyms@, targets@, x as u8)),
            forall|i: int| 0 <= i < r@.len() ==> r@[i] < k,
            forall|i: int, j: int| 0 <= i < j < r@.len() ==> r@[i] < r@[j],
            forall|x: u8| x < k ==> (r@.contains(x) <==> present@[x as int]),
            forall|x: u8| x >= k ==> !r@.contains(x),
            per == keysyms_per_keycode as usize,
        decreases 256 - k,
    {
        if present[k] {
            let ghost before = r@;
            r.push(k as u8);
            proof {
                assert forall|x: u8| x < k + 1 implies (r@.contains(x) <==> present@[x as int]) by {
                    if x == k {
                        assert(r@[r@.len() - 1] == x);
                    } else {
                        if r@.contains(x) {
                            let w = choose|w: int| 0 <= w < r@.len() && r@[w] == x;
                            if w < before.len() {
                                assert(before[w] == x);
                            }
                        }
                        if before.contains(x) {
                            let w = choose|w: int| 0 <= w < before.len() && before[w] == x;
                            assert(r@[w] == x);
                        }
                    }
                }
                assert forall|x: u8| x >= k + 1 implies !r@.contains(x) by {
                    if r@.contains(x) {
                        let w = choose|w: int| 0 <= w < r@.len() && r@[w] == x;
                        if w < before.len() {
                            assert(before[w] == x);
                        }
                    }
                }
            }
        } else {
            proof {
                assert forall|x: u8| x < k + 1 implies (r@.contains(x) <==> present@[x as int]) by {
                    if x == k {
                        assert(!r@.contains(x));
                    }
                }
            }
        }
        k += 1;
    }
    proof {
        assert forall|x: u8| r@.contains(x) <==> keycode_matches(min, keysyms_per_keycode as nat, keysyms@, targets@, x) by {
            assert(present@[x as int] <==> keycode_matches(min, per as nat, keysyms@, targets@, x as u8));
        }
    }
    r
}

// ---------------------------------------------------------------------------
// Mouse Jump's popup
// ---------------------------------------------------------------------------

/// A monitor's place on the desktop, in pixels.
#[derive(Debug, Clone, Copy, PartialEq, Eq, Structural)]
pub struct MonitorRect {
    pub x: i32,
    pub y: i32,
    pub width: u32,
    pub height: u32,
}

/// The point lies on the monitor.
pub open spec fn on_monitor(m: MonitorRect, px: int, py: int) -> bool {
    m.x <= px < m.x + m.width && m.y <= py < m.y + m.height
}

/// A monitor's far edges fit `i32`.
pub open spec fn monitor_fits(m: MonitorRect) -> bool {
    m.x + m.width <= i32::MAX && m.y + m.height <= i32::MAX
}

/// The monitor under the cursor: the first one holding it, else the first.
pub open spec fn monitor_under(ms: Seq<MonitorRect>, px: int, py: int) -> int
    decreases ms.len(),
{
    if ms.len() == 0 {
        0
    } else if on_monitor(ms.last(), px, py) && !exists|i: int| 0 <= i < ms.len() - 1 && on_monitor(#[trigger] ms[i], px, py) {
        ms.len() - 1
    } else {
        monitor_under(ms.drop_last(), px, py)
    }
}

/// The index of the monitor under the cursor: the first that holds it, or
/// the first monitor.
pub fn monitor_at(monitors: &Vec<MonitorRect>, px: i32, py: i32) -> (i: usize)
    requires
        monitors@.len() > 0,
        forall|k: int| 0 <= k < monitors@.len() ==> monitor_fits(#[trigger] monitors@[k]),
    ensures
        i < monitors@.len(),
        (exists|k: int| 0 <= k < monitors@.len() && on_monitor(#[trigger] monitors@[k], px as int, py as int)) ==> {
            &&& on_monitor(monitors@[i as int], px as int, py as int)
            &&& forall|k: int| 0 <= k < i ==> !on_monitor(#[trigger] monitors@[k], px as int, py as int)
        },
        !(exists|k: int| 0 <= k < monitors@.len() && on_monitor(#[trigger] monitors@[k], px as int, py as int)) ==> i == 0,
{
    let mut i: usize = 0;
    while i < monitors.len()
        invariant
            i <= monitors@.len(),
            forall|k: int| 0 <= k < monitors@.len() ==> monitor_fits(#[trigger] monitors@[k]),
            forall|k: int| 0 <= k < i ==> !on_monitor(#[trigger] monitors@[k], px as int, py as int),
        decreases monitors.len() - i,
    {
        let m = monitors[i];
        assert(monitor_fits(monitors@[i as int]));
        if px >= m.x && (px as i64) < (m.x as i64) + (m.width as i64) && py >= m.y && (py as i64) < (m.y as i64)
            + (m.height as i64) {
            return i;
        }
        i += 1;
    }
    0
}

/// Where a popup `size` pixels long goes along one axis: centred on the
/// cursor, then pushed inside the monitor, its far edge winning when the
/// monitor is shorter than the popup.
pub open spec fn popup_start(cursor: int, size: int, start: int, len: int) -> int {
    let centred = cursor - size / 2;
    let low = if centred > start {
        centred
    } else {
        start
    };
    let high = start + len - size;
    if low < high {
        low
    } else {
        high
    }
}

/// The popup's start along one axis.
pub fn popup_origin(cursor: i32, size: u16, start: i32, len: u32) -> (p: i32)
    requires
        len <= i32::MAX,
        start + len <= i32::MAX,
        i32::MIN <= start + len - size,
        i32::MIN <= cursor - size / 2,
    ensures
        p == popup_start(cursor as int, size as int, start as int, len as int),
{
    let centred: i32 = cursor - (size as i32) / 2;
    let low: i32 = if centred > start {
        centred
    } else {
        start
    };
    let high: i32 = start + (len as i32) - (size as i32);
    if low < high {
        low
    } else {
        high
    }
}

/// A popup that fits its monitor lies wholly on it.
pub proof fn law_popup_inside(cursor: int, size: int, start: int, len: int)
    requires
        0 <= size <= len,
    ensures
        start <= popup_start(cursor, size, start, len),
        popup_start(cursor, size, start, len) + size <= start + len,
{
}

// ---------------------------------------------------------------------------
// The module
// ---------------------------------------------------------------------------

/// The utilities that run as monitors of their own.
#[derive(Debug, Clone, Copy, PartialEq, Eq, Structural)]
pub enum MouseMonitor {
    FindMyMouse,
    Highlighter,
    Crosshairs,
    CursorWrap,
}

/// Which utilities are switched on.
#[derive(Debug, Clone, Copy, PartialEq, Eq, Structural)]
pub struct MouseFeatures {
    pub find_my_mouse: bool,
    pub click_highlighter: bool,
    pub crosshair: bool,
    pub mouse_jump: bool,
    pub cursor_wrap: bool,
    pub gliding_cursor: bool,
}

/// The monitors started for some features, in order: Find My Mouse, the
/// highlighter, the crosshairs, cursor wrap (Mouse Jump and the gliding
/// cursor have none).
pub open spec fn monitors_for(f: MouseFeatures) -> Seq<MouseMonitor> {
    let a: Seq<MouseMonitor> = if f.find_my_mouse {
        seq![MouseMonitor::FindMyMouse]
    } else {
        seq![]
    };
    let b = if f.click_highlighter {
        a.push(MouseMonitor::Highlighter)
    } else {
        a
    };
    let c = if f.crosshair {
        b.push(MouseMonitor::Crosshairs)
    } else {
        b
    };
    if f.cursor_wrap {
        c.push(MouseMonitor::CursorWrap)
    } else {
        c
    }
}

/// The Mouse Utilities module: whether it runs, and the monitors it runs.
#[derive(Debug)]
pub struct MouseUtils {
    running: bool,
    monitors: Vec<MouseMonitor>,
}

impl MouseUtils {
    /// A stopped module.
    pub fn new() -> (m: MouseUtils)
        ensures
            !m.is_running_spec(),
            m.monitors_spec().len() == 0,
    {
        MouseUtils { running: false, monitors: Vec::new() }
    }

    /// Whether the module runs.
    pub closed spec fn is_running_spec(&self) -> bool {
        self.running
    }

    /// The monitors running.
    pub closed spec fn monitors_spec(&self) -> Seq<MouseMonitor> {
        self.monitors@
    }

    /// Starts the module: the monitors to start, for the features on.
    pub fn start(&mut self, features: MouseFeatures) -> (started: Vec<MouseMonitor>)
        ensures
            final(self).is_running_spec(),
            started@ == monitors_for(features),
            final(self).monitors_spec() == old(self).monitors_spec() + monitors_for(features),
    {
        let mut started: Vec<MouseMonitor> = Vec::new();
        if features.find_my_mouse {
            started.push(MouseMonitor::FindMyMouse);
        }
        if features.click_highlighter {
            started.push(MouseMonitor::Highlighter);
        }
        if features.crosshair {
            started.push(MouseMonitor::Crosshairs);
        }
        if features.cursor_wrap {
            started.push(MouseMonitor::CursorWrap);
        }
        assert(started@ =~= monitors_for(features));
        let mut i: usize = 0;
        let ghost before = self.monitors@;
        while i < started.len()
            invariant
                i <= started.len(),
                self.monitors@ == before + started@.take(i as int),
            decreases started.len() - i,
        {
            self.monitors.push(started[i]);
            assert(started@.take(i + 1) =~= started@.take(i as int).push(started@[i as int]));
            i += 1;
        }
        assert(started@.take(i as int) =~= started@);
        self.running = true;
        started
    }

    /// Stops the module: every running monitor is stopped.
    pub fn stop(&mut self) -> (stopped: Vec<MouseMonitor>)
        ensures
            !final(self).is_running_spec(),
            final(self).monitors_spec().len() == 0,
            stopped@ == old(self).monitors_spec(),
    {
        let mut stopped: Vec<MouseMonitor> = Vec::new();
        std::mem::swap(&mut stopped, &mut self.monitors);
        self.running = false;
        stopped
    }

    /// Whether the module runs.
    pub fn is_running(&self) -> (b: bool)
        ensures
            b == self.is_running_spec(),
    {
        self.running
    }
}


} // verus!
