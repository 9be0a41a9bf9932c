//! The Settings window's vocabulary: pages, preferences, visual themes and
//! their saved form, module settings, and what the system reports.

use vstd::prelude::*;

use crate::numbers::{parse_usize, unsigned_of};
use crate::text::{
    chars_of, decimal, lines, line_spans, owned, push_all, push_decimal, span_views, string_of,
    views,
};

verus! {

// ---------------------------------------------------------------------------
// Preferences
// ---------------------------------------------------------------------------

/// The interface languages.
#[derive(Debug, Clone, Copy, PartialEq, Eq, Structural)]
pub enum Language {
    Fr,
    En,
    Es,
    Jp,
    Cn,
}

/// The pages of the window.
#[derive(Debug, Clone)]
pub enum Page {
    Dashboard,
    Module(String),
    Preferences,
    Tests,
    About,
}

/// The light or dark choice.
#[derive(Debug, Clone, Copy, PartialEq, Eq, Structural)]
pub enum ThemeMode {
    Light,
    Dark,
    System,
}

/// The text sizes.
#[derive(Debug, Clone, Copy, PartialEq, Eq, Structural)]
pub enum FontSize {
    Small,
    Medium,
    Large,
}

/// The kinds of toast.
#[derive(Debug, Clone, Copy, PartialEq, Eq, Structural)]
pub enum ToastKind {
    Success,
    Error,
}

/// The package managers the install hints know.
#[derive(Debug, Clone, Copy, PartialEq, Eq, Structural)]
pub enum PackageManager {
    Apt,
    Pacman,
    Dnf,
    Zypper,
    Unknown,
}

/// The display server of the session.
#[derive(Debug, Clone, Copy, PartialEq, Eq, Structural)]
pub enum DisplayServer {
    Wayland,
    X11,
    Unknown,
}

/// The name the window shows for a display server.
pub open spec fn display_server_name(ds: DisplayServer) -> Seq<char> {
    match ds {
        DisplayServer::Wayland => "Wayland"@,
        DisplayServer::X11 => "X11"@,
        DisplayServer::Unknown => "Unknown"@,
    }
}

/// The name of a display server, as the window shows it.
pub fn display_server_label(ds: DisplayServer) -> (s: &'static str)
    ensures
        s@ == display_server_name(ds),
{
    match ds {
        DisplayServer::Wayland => "Wayland",
        DisplayServer::X11 => "X11",
        DisplayServer::Unknown => "Unknown",
    }
}

// ---------------------------------------------------------------------------
// Visual themes
// ---------------------------------------------------------------------------

/// The window's backdrop: plain, an accent colour, a gradient, a bundled
/// picture, or a picture of the user's (by path).
#[derive(Debug, Clone)]
pub enum VisualTheme {
    Default,
    Color(usize),
    Gradient(usize),
    BuiltinImage(usize),
    CustomImage(String),
}

/// How many accent colours there are.
pub open spec fn accent_theme_count() -> nat {
    6
}

/// How many gradients there are.
pub open spec fn gradient_theme_count() -> nat {
    4
}

/// How many bundled pictures there are.
pub open spec fn builtin_background_count() -> nat {
    11
}

impl VisualTheme {
    /// Every backdrop but the plain one is drawn as glass.
    pub fn is_glass(&self) -> (b: bool)
        ensures
            b == !(*self is Default),
    {
        match self {
            VisualTheme::Default => false,
            _ => true,
        }
    }
}

/// The view of a theme: its kind, index, and picture path.
pub open spec fn theme_view(t: VisualTheme) -> (int, int, Seq<char>) {
    match t {
        VisualTheme::Default => (0, 0, seq![]),
        VisualTheme::Color(i) => (1, i as int, seq![]),
        VisualTheme::Gradient(i) => (2, i as int, seq![]),
        VisualTheme::BuiltinImage(i) => (3, i as int, seq![]),
        VisualTheme::CustomImage(p) => (4, 0, p@),
    }
}

/// `s` starts with `p`.
pub open spec fn has_prefix(s: Seq<char>, p: Seq<char>) -> bool {
    s.len() >= p.len() && s.take(p.len() as int) == p
}

/// An index read after a prefix, if below `count`.
pub open spec fn index_after(s: Seq<char>, p: Seq<char>, count: nat) -> Option<nat> {
    if has_prefix(s, p) {
        match unsigned_of(s.skip(p.len() as int), 10, usize::MAX as nat) {
            Some(i) => if i < count {
                Some(i)
            } else {
                None
            },
            None => None,
        }
    } else {
        None
    }
}

/// The backdrop a saved text names: `default` (or nothing), `color:N`,
/// `gradient:N`, `builtin:N` with N in range, or `custom:PATH`; anything
/// else is the plain backdrop.
pub open spec fn theme_of(s: Seq<char>) -> (int, int, Seq<char>) {
    if s.len() == 0 || s == "default"@ {
        (0, 0, seq![])
    } else if index_after(s, "color:"@, accent_theme_count()) is Some {
        (1, index_after(s, "color:"@, accent_theme_count()).unwrap() as int, seq![])
    } else if index_after(s, "gradient:"@, gradient_theme_count()) is Some {
        (2, index_after(s, "gradient:"@, gradient_theme_count()).unwrap() as int, seq![])
    } else if index_after(s, "builtin:"@, builtin_background_count()) is Some {
        (3, index_after(s, "builtin:"@, builtin_background_count()).unwrap() as int, seq![])
    } else if has_prefix(s, "custom:"@) {
        (4, 0, s.skip(7))
    } else {
        (0, 0, seq![])
    }
}

/// Whether `v` starts with `p`, and the rest after it.
fn strip_prefix(v: &Vec<char>, p: &str) -> (r: Option<String>)
    ensures
        has_prefix(v@, p@) ==> r is Some && r->0@ == v@.skip(p@.len() as int),
        !has_prefix(v@, p@) ==> r is None,
{
    let q = chars_of(p);
    if q.len() > v.len() {
        return None;
    }
    let mut i: usize = 0;
    while i < q.len()
        invariant
            q.len() <= v.len(),
            q@ == p@,
            i <= q.len(),
            forall|k: int| 0 <= k < i ==> v@[k] == q@[k],
        decreases q.len() - i,
    {
        if v[i] != q[i] {
            assert(v@.take(q.len() as int)[i as int] != p@[i as int]);
            return None;
        }
        i += 1;
    }
    assert(v@.take(q.len() as int) =~= p@);
    let rest = string_of(v, q.len(), v.len());
    assert(rest@ =~= v@.skip(p@.len() as int));
    Some(rest)
}

fn index_after_exec(v: &Vec<char>, p: &str, count: usize) -> (r: Option<usize>)
    ensures
        match index_after(v@, p@, count as nat) {
            Some(i) => r == Some(i as usize),
            None => r is None,
        },
{
    match strip_prefix(v, p) {
        Some(rest) => match parse_usize(rest.as_str()) {
            Some(i) => if i < count {
                Some(i)
            } else {
                None
            },
            None => None,
        },
        None => None,
    }
}

/// Reads a saved backdrop.
pub fn parse_visual_theme(s: &str) -> (t: VisualTheme)
    ensures
        theme_view(t) == theme_of(s@),
{
    let v = chars_of(s);
    proof {
        reveal_strlit("default");
    }
    if v.len() == 0 || crate::text::same_text(s, "default") {
        return VisualTheme::Default;
    }
    if let Some(i) = index_after_exec(&v, "color:", 6) {
        return VisualTheme::Color(i);
    }
    if let Some(i) = index_after_exec(&v, "gradient:", 4) {
        return VisualTheme::Gradient(i);
    }
    if let Some(i) = index_after_exec(&v, "builtin:", 11) {
        return VisualTheme::BuiltinImage(i);
    }
    proof {
        reveal_strlit("custom:");
    }
    if let Some(path) = strip_prefix(&v, "custom:") {
        return VisualTheme::CustomImage(path);
    }
    VisualTheme::Default
}

/// The saved text of a backdrop.
pub open spec fn theme_text(t: VisualTheme) -> Seq<char> {
    match t {
        VisualTheme::Default => "default"@,
        VisualTheme::Color(i) => "color:"@ + decimal(i as nat),
        VisualTheme::Gradient(i) => "gradient:"@ + decimal(i as nat),
        VisualTheme::BuiltinImage(i) => "builtin:"@ + decimal(i as nat),
        VisualTheme::CustomImage(p) => "custom:"@ + p@,
    }
}

/// Writes a backdrop as saved text.
pub fn serialize_visual_theme(theme: &VisualTheme) -> (s: String)
    ensures
        s@ == theme_text(*theme),
{
    match theme {
        VisualTheme::Default => owned("default"),
        VisualTheme::Color(i) => {
            let mut s = owned("color:");
            push_decimal(&mut s, *i as u64);
            s
        },
        VisualTheme::Gradient(i) => {
            let mut s = owned("gradient:");
            push_decimal(&mut s, *i as u64);
            s
        },
        VisualTheme::BuiltinImage(i) => {
            let mut s = owned("builtin:");
            push_decimal(&mut s, *i as u64);
            s
        },
        VisualTheme::CustomImage(p) => {
            let mut s = owned("custom:");
            push_all(&mut s, p.as_str());
            s
        },
    }
}

/// A backdrop in range: indices below the number of colours, gradients or
/// pictures.
pub open spec fn theme_in_range(t: VisualTheme) -> bool {
    match t {
        VisualTheme::Color(i) => i < accent_theme_count(),
        VisualTheme::Gradient(i) => i < gradient_theme_count(),
        VisualTheme::BuiltinImage(i) => i < builtin_background_count(),
        _ => true,
    }
}


/// A saved backdrop reads back as itself, for every backdrop in range.
pub proof fn law_visual_theme_round_trip(t: VisualTheme)
    requires
        theme_in_range(t),
    ensures
        theme_of(theme_text(t)) == theme_view(t),
{
    reveal_strlit("default");
    reveal_strlit("color:");
    reveal_strlit("gradient:");
    reveal_strlit("builtin:");
    reveal_strlit("custom:");
    let s = theme_text(t);
    match t {
        VisualTheme::Default => {},
        VisualTheme::Color(i) => {
            crate::numbers::law_unsigned_reads_decimal(i as nat, usize::MAX as nat);
            assert(s.take(6) =~= "color:"@);
            assert(s.skip(6) =~= decimal(i as nat));
            assert(s != "default"@) by {
                assert(s[0] != "default"@[0]);
            }
        },
        VisualTheme::Gradient(i) => {
            crate::numbers::law_unsigned_reads_decimal(i as nat, usize::MAX as nat);
            assert(s.take(9) =~= "gradient:"@);
            assert(s.skip(9) =~= decimal(i as nat));
            assert(s != "default"@) by {
                assert(s[0] != "default"@[0]);
            }
            assert(!has_prefix(s, "color:"@)) by {
                assert(s.take(6)[0] != "color:"@[0]);
            }
        },
        VisualTheme::BuiltinImage(i) => {
            crate::numbers::law_unsigned_reads_decimal(i as nat, usize::MAX as nat);
            assert(s.take(8) =~= "builtin:"@);
            assert(s.skip(8) =~= decimal(i as nat));
            assert(s != "default"@) by {
                assert(s[0] != "default"@[0]);
            }
            assert(!has_prefix(s, "color:"@)) by {
                assert(s.take(6)[0] != "color:"@[0]);
            }
            assert(!has_prefix(s, "gradient:"@)) by {
                assert(s.take(9)[0] != "gradient:"@[0]);
            }
        },
        VisualTheme::CustomImage(p) => {
            assert(s.take(7) =~= "custom:"@);
            assert(s.skip(7) =~= p@);
            assert(s != "default"@) by {
                assert(s[1] != "default"@[1]);
            }
            assert(!has_prefix(s, "color:"@)) by {
                assert(s.take(6)[1] != "color:"@[1]);
            }
            assert(!has_prefix(s, "gradient:"@)) by {
                if s.len() >= 9 {
                    assert(s.take(9)[0] != "gradient:"@[0]);
                }
            }
            assert(!has_prefix(s, "builtin:"@)) by {
                if s.len() >= 8 {
                    assert(s.take(8)[0] != "builtin:"@[0]);
                }
            }
        },
    }
}

} // verus!
