//! Shortcut Guide: the built-in GNOME shortcuts, the user's own, the
//! categories to hide, and the grouping the overlay shows.

use vstd::prelude::*;

use crate::text::{chars_of, lowercase, owned, same_text, string_of, to_lowercase, trim, trim_range};

verus! {

/// A shortcut entry for display in the guide.
#[derive(Debug)]
pub struct ShortcutEntry {
    pub keys: String,
    pub description: String,
    pub category: String,
}

impl ShortcutEntry {
    /// A copy of the entry.
    pub fn duplicate(&self) -> (e: ShortcutEntry)
        ensures
            e == *self,
    {
        ShortcutEntry {
            keys: self.keys.clone(),
            description: self.description.clone(),
            category: self.category.clone(),
        }
    }
}

/// An entry as text: keys, description, category.
pub open spec fn entry_view(e: ShortcutEntry) -> (Seq<char>, Seq<char>, Seq<char>) {
    (e.keys@, e.description@, e.category@)
}

/// Entries as text.
pub open spec fn entry_views(s: Seq<ShortcutEntry>) -> Seq<(Seq<char>, Seq<char>, Seq<char>)> {
    s.map_values(|e: ShortcutEntry| entry_view(e))
}

/// The built-in GNOME shortcuts: keys, description, category.
pub open spec fn gnome_list() -> Seq<(Seq<char>, Seq<char>, Seq<char>)> {
    seq![
        ("Super"@, "Activities overview"@, "System"@),
        ("Super+L"@, "Lock screen"@, "System"@),
        ("Super+D"@, "Show desktop"@, "System"@),
        ("Super+A"@, "Show all applications"@, "System"@),
        ("Super+Tab"@, "Switch applications"@, "Windows"@),
        ("Alt+Tab"@, "Switch windows"@, "Windows"@),
        ("Super+Left/Right"@, "Tile window left/right"@, "Windows"@),
        ("Super+Up"@, "Maximize window"@, "Windows"@),
        ("Super+Down"@, "Restore / minimize window"@, "Windows"@),
        ("Alt+F4"@, "Close window"@, "Windows"@),
        ("Ctrl+Alt+T"@, "Open terminal"@, "Apps"@),
        ("Print"@, "Screenshot"@, "Apps"@),
        ("Ctrl+Super+Up/Down"@, "Switch workspace"@, "Workspaces"@),
        ("Ctrl+Super+Shift+Up/Down"@, "Move window to workspace"@, "Workspaces"@),
    ]
}

/// The built-in GNOME shortcuts, in order: each description with its keys
/// and category, e.g. "Close window" on Alt+F4 among the window shortcuts.
pub proof fn law_gnome_shortcut_table()
    ensures
        gnome_list().len() == 14,
        gnome_list()[0] == ("Super"@, "Activities overview"@, "System"@),
        gnome_list()[1] == ("Super+L"@, "Lock screen"@, "System"@),
        gnome_list()[2] == ("Super+D"@, "Show desktop"@, "System"@),
        gnome_list()[3] == ("Super+A"@, "Show all applications"@, "System"@),
        gnome_list()[4] == ("Super+Tab"@, "Switch applications"@, "Windows"@),
        gnome_list()[5] == ("Alt+Tab"@, "Switch windows"@, "Windows"@),
        gnome_list()[6] == ("Super+Left/Right"@, "Tile window left/right"@, "Windows"@),
        gnome_list()[7] == ("Super+Up"@, "Maximize window"@, "Windows"@),
        gnome_list()[8] == ("Super+Down"@, "Restore / minimize window"@, "Windows"@),
        gnome_list()[9] == ("Alt+F4"@, "Close window"@, "Windows"@),
        gnome_list()[10] == ("Ctrl+Alt+T"@, "Open terminal"@, "Apps"@),
        gnome_list()[11] == ("Print"@, "Screenshot"@, "Apps"@),
        gnome_list()[12] == ("Ctrl+Super+Up/Down"@, "Switch workspace"@, "Workspaces"@),
        gnome_list()[13] == ("Ctrl+Super+Shift+Up/Down"@, "Move window to workspace"@, "Workspaces"@),
{
}

fn entry(keys: &str, description: &str, category: &str) -> (e: ShortcutEntry)
    ensures
        e.keys@ == keys@,
        e.description@ == description@,
        e.category@ == category@,
{
    ShortcutEntry { keys: owned(keys), description: owned(description), category: owned(category) }
}

/// Built-in GNOME shortcuts for the guide.
pub fn gnome_shortcuts() -> (v: Vec<ShortcutEntry>)
    ensures
        entry_views(v@) == gnome_list(),
{
    let mut v: Vec<ShortcutEntry> = Vec::new();
    v.push(entry("Super", "Activities overview", "System"));
    v.push(entry("Super+L", "Lock screen", "System"));
    v.push(entry("Super+D", "Show desktop", "System"));
    v.push(entry("Super+A", "Show all applications", "System"));
    v.push(entry("Super+Tab", "Switch applications", "Windows"));
    v.push(entry("Alt+Tab", "Switch windows", "Windows"));
    v.push(entry("Super+Left/Right", "Tile window left/right", "Windows"));
    v.push(entry("Super+Up", "Maximize window", "Windows"));
    v.push(entry("Super+Down", "Restore / minimize window", "Windows"));
    v.push(entry("Alt+F4", "Close window", "Windows"));
    v.push(entry("Ctrl+Alt+T", "Open terminal", "Apps"));
    v.push(entry("Print", "Screenshot", "Apps"));
    v.push(entry("Ctrl+Super+Up/Down", "Switch workspace", "Workspaces"));
    v.push(entry("Ctrl+Super+Shift+Up/Down", "Move window to workspace", "Workspaces"));
    assert(entry_views(v@) =~= gnome_list());
    v
}

// ---------------------------------------------------------------------------
// Grouping by category
// ---------------------------------------------------------------------------

/// The distinct texts of `s`, in order of first appearance.
pub open spec fn first_seen(s: Seq<Seq<char>>) -> Seq<Seq<char>>
    decreases s.len(),
{
    if s.len() == 0 {
        seq![]
    } else {
        let d = first_seen(s.drop_last());
        if d.contains(s.last()) {
            d
        } else {
            d.push(s.last())
        }
    }
}

/// The categories of the entries.
pub open spec fn category_list(s: Seq<ShortcutEntry>) -> Seq<Seq<char>> {
    s.map_values(|e: ShortcutEntry| e.category@)
}

/// The categories of the entries, each once, in order of first appearance.
pub open spec fn categories_of(s: Seq<ShortcutEntry>) -> Seq<Seq<char>> {
    first_seen(category_list(s))
}

/// Whether an entry belongs to category `c`.
pub open spec fn in_category(c: Seq<char>) -> spec_fn(ShortcutEntry) -> bool {
    |e: ShortcutEntry| e.category@ == c
}

/// The entries a group refers to.
pub open spec fn members(g: Seq<&ShortcutEntry>) -> Seq<ShortcutEntry> {
    g.map_values(|e: &ShortcutEntry| *e)
}

/// `r` groups `s`: one group per category in order of first appearance,
/// each with the entries of that category in their order.
pub open spec fn groups_of(r: Seq<(&str, Vec<&ShortcutEntry>)>, s: Seq<ShortcutEntry>) -> bool {
    &&& r.len() == categories_of(s).len()
    &&& forall|j: int|
        0 <= j < r.len() ==> (#[trigger] r[j]).0@ == categories_of(s)[j] && members(r[j].1@)
            == s.filter(in_category(categories_of(s)[j]))
}

proof fn lemma_first_seen_contains(s: Seq<Seq<char>>)
    ensures
        forall|k: int| 0 <= k < s.len() ==> first_seen(s).contains(#[trigger] s[k]),
        forall|k: int| 0 <= k < first_seen(s).len() ==> s.contains(#[trigger] first_seen(s)[k]),
        forall|a: int, b: int|
            0 <= a < b < first_seen(s).len() ==> first_seen(s)[a] != first_seen(s)[b],
    decreases s.len(),
{
    if s.len() > 0 {
        let p = s.drop_last();
        lemma_first_seen_contains(p);
        let d = first_seen(p);
        assert forall|k: int| 0 <= k < s.len() implies first_seen(s).contains(#[trigger] s[k]) by {
            if k < p.len() {
                assert(p[k] == s[k]);
                assert(d.contains(p[k]));
                if !d.contains(s.last()) {
                    let w = choose|w: int| 0 <= w < d.len() && d[w] == p[k];
                    assert(d.push(s.last())[w] == p[k]);
                }
            } else {
                if !d.contains(s.last()) {
                    assert(d.push(s.last())[d.len() as int] == s.last());
                }
            }
        }
        assert forall|k: int| 0 <= k < first_seen(s).len() implies s.contains(
            #[trigger] first_seen(s)[k],
        ) by {
            if k < d.len() {
                assert(p.contains(d[k]));
                let w = choose|w: int| 0 <= w < p.len() && p[w] == d[k];
                assert(s[w] == p[w]);
            } else {
                assert(s[s.len() - 1] == s.last());
            }
        }
    }
}

proof fn lemma_filter_push(s: Seq<ShortcutEntry>, e: ShortcutEntry, c: Seq<char>)
    ensures
        s.push(e).filter(in_category(c)) == (if e.category@ == c {
            s.filter(in_category(c)).push(e)
        } else {
            s.filter(in_category(c))
        }),
{
    reveal(Seq::filter);
    assert(s.push(e).drop_last() =~= s);
}

proof fn lemma_filter_none(s: Seq<ShortcutEntry>, c: Seq<char>)
    requires
        forall|k: int| 0 <= k < s.len() ==> (#[trigger] s[k]).category@ != c,
    ensures
        s.filter(in_category(c)) == Seq::<ShortcutEntry>::empty(),
    decreases s.len(),
{
    reveal(Seq::filter);
    if s.len() > 0 {
        let p = s.drop_last();
        assert forall|k: int| 0 <= k < p.len() implies (#[trigger] p[k]).category@ != c by {
            assert(p[k] == s[k]);
        }
        lemma_filter_none(p, c);
    }
}

/// Position of the group named `c`, if any.
fn find_group(groups: &Vec<(&str, Vec<&ShortcutEntry>)>, c: &str) -> (r: Option<usize>)
    ensures
        match r {
            Some(j) => j < groups.len() && groups@[j as int].0@ == c@,
            None => forall|j: int| 0 <= j < groups.len() ==> (#[trigger] groups@[j]).0@ != c@,
        },
{
    let mut j: usize = 0;
    while j < groups.len()
        invariant
            j <= groups.len(),
            forall|k: int| 0 <= k < j ==> (#[trigger] groups@[k]).0@ != c@,
        decreases groups.len() - j,
    {
        if same_text(groups[j].0, c) {
            return Some(j);
        }
        j += 1;
    }
    None
}

/// Group shortcuts by category: one group per category, in order of first
/// appearance, each holding that category's entries in their order.
pub fn group_by_category<'a>(shortcuts: &'a [ShortcutEntry]) -> (r: Vec<(&'a str, Vec<&'a ShortcutEntry>)>)
    ensures
        groups_of(r@, shortcuts@),
{
    let ghost s = shortcuts@;
    let mut groups: Vec<(&'a str, Vec<&'a ShortcutEntry>)> = Vec::new();
    let mut i: usize = 0;
    assert(s.take(0) =~= Seq::<ShortcutEntry>::empty());
    assert(category_list(s.take(0)) =~= Seq::<Seq<char>>::empty());
    while i < shortcuts.len()
        invariant
            s == shortcuts@,
            i <= shortcuts.len(),
            groups_of(groups@, s.take(i as int)),
        decreases shortcuts.len() - i,
    {
        let shortcut: &'a ShortcutEntry = &shortcuts[i];
        let ghost t = s.take(i as int);
        let ghost t2 = s.take(i + 1);
        let ghost c = shortcut.category@;
        let ghost old_groups = groups@;
        proof {
            assert(t2 =~= t.push(*shortcut));
            assert(category_list(t2).drop_last() =~= category_list(t));
            assert(category_list(t2).last() == c);
            lemma_first_seen_contains(category_list(t));
        }
        match find_group(&groups, shortcut.category.as_str()) {
            Some(j) => {
                let (name, mut members_j) = groups.remove(j);
                members_j.push(shortcut);
                groups.insert(j, (name, members_j));
                proof {
                    let cats = categories_of(t);
                    assert(cats[j as int] == c);
                    assert(cats.contains(c));
                    assert(categories_of(t2) == cats);
                    assert(groups@ =~= old_groups.update(j as int, (name, members_j)));
                    assert forall|k: int| 0 <= k < groups@.len() implies (#[trigger] groups@[k]).0@
                        == categories_of(t2)[k] && members(groups@[k].1@) == t2.filter(
                        in_category(categories_of(t2)[k]),
                    ) by {
                        lemma_filter_push(t, *shortcut, cats[k]);
                        if k == j {
                            assert(members(members_j@) =~= members(old_groups[k].1@).push(
                                *shortcut,
                            ));
                        } else {
                            assert(cats[k] != cats[j as int]);
                        }
                    }
                }
            },
            None => {
                let v: Vec<&'a ShortcutEntry> = vec![shortcut];
                groups.push((shortcut.category.as_str(), v));
                proof {
                    let cats = categories_of(t);
                    assert(!cats.contains(c)) by {
                        if cats.contains(c) {
                            let w = choose|w: int| 0 <= w < cats.len() && cats[w] == c;
                            assert(old_groups[w].0@ == c);
                        }
                    }
                    assert(categories_of(t2) == cats.push(c));
                    assert forall|k: int| 0 <= k < groups@.len() implies (#[trigger] groups@[k]).0@
                        == categories_of(t2)[k] && members(groups@[k].1@) == t2.filter(
                        in_category(categories_of(t2)[k]),
                    ) by {
                        if k < old_groups.len() {
                            assert(groups@[k] == old_groups[k]);
                            lemma_filter_push(t, *shortcut, cats[k]);
                            assert(cats[k] != c) by {
                                assert(cats.contains(cats[k]));
                            }
                        } else {
                            lemma_filter_push(t, *shortcut, c);
                            assert forall|x: int| 0 <= x < t.len() implies (
                            #[trigger] t[x]).category@ != c by {
                                assert(category_list(t)[x] == t[x].category@);
                            }
                            lemma_filter_none(t, c);
                            assert(members(v@) =~= seq![*shortcut]);
                            assert(Seq::<ShortcutEntry>::empty().push(*shortcut) =~= seq![
                                *shortcut,
                            ]);
                        }
                    }
                }
            },
        }
        i += 1;
    }
    assert(s.take(i as int) =~= s);
    groups
}

// ---------------------------------------------------------------------------
// Settings
// ---------------------------------------------------------------------------

/// Two category names that are the same in lower case.
pub open spec fn same_category_name(a: Seq<char>, b: Seq<char>) -> bool {
    lowercase(a) == lowercase(b)
}

/// Whether two category names are the same ignoring case: equal once both
/// are in lower case.
pub fn same_category(a: &str, b: &str) -> (r: bool)
    ensures
        r == same_category_name(a@, b@),
{
    let x = to_lowercase(a);
    let y = to_lowercase(b);
    same_text(x.as_str(), y.as_str())
}

/// The Shortcut Guide settings.
#[derive(Debug)]
pub struct ShortcutGuideConfig {
    /// Show the built-in GNOME shortcut list.
    pub show_gnome_shortcuts: bool,
    /// Categories to hide from the overlay (matched case-insensitively).
    pub hidden_categories: Vec<String>,
    /// User-defined shortcuts appended to the built-in ones.
    pub custom_shortcuts: Vec<ShortcutEntry>,
}

/// An entry, as text, is shown unless its category is one of `hidden`,
/// ignoring case.
pub open spec fn shown(hidden: Seq<Seq<char>>) -> spec_fn((Seq<char>, Seq<char>, Seq<char>)) -> bool {
    |e: (Seq<char>, Seq<char>, Seq<char>)|
        !exists|h: int| 0 <= h < hidden.len() && same_category_name(#[trigger] hidden[h], e.2)
}

/// The entries the guide shows: the built-in ones (if shown) and the custom
/// ones, less those of hidden categories.
pub open spec fn resolved(cfg: ShortcutGuideConfig) -> Seq<(Seq<char>, Seq<char>, Seq<char>)> {
    let base = if cfg.show_gnome_shortcuts {
        gnome_list() + entry_views(cfg.custom_shortcuts@)
    } else {
        entry_views(cfg.custom_shortcuts@)
    };
    base.filter(shown(crate::text::views(cfg.hidden_categories@)))
}

impl ShortcutGuideConfig {
    /// The default settings: the GNOME shortcuts, nothing hidden, no custom
    /// shortcuts.
    pub fn default_config() -> (c: ShortcutGuideConfig)
        ensures
            c.show_gnome_shortcuts,
            c.hidden_categories@.len() == 0,
            c.custom_shortcuts@.len() == 0,
    {
        ShortcutGuideConfig {
            show_gnome_shortcuts: true,
            hidden_categories: Vec::new(),
            custom_shortcuts: Vec::new(),
        }
    }

    fn is_hidden(&self, category: &str) -> (r: bool)
        ensures
            r == exists|h: int|
                0 <= h < self.hidden_categories@.len() && same_category_name(
                    #[trigger] self.hidden_categories@[h]@,
                    category@,
                ),
    {
        let mut k: usize = 0;
        while k < self.hidden_categories.len()
            invariant
                k <= self.hidden_categories.len(),
                forall|h: int|
                    0 <= h < k ==> !same_category_name(
                        #[trigger] self.hidden_categories@[h]@,
                        category@,
                    ),
            decreases self.hidden_categories.len() - k,
        {
            if same_category(self.hidden_categories[k].as_str(), category) {
                return true;
            }
            k += 1;
        }
        false
    }

    /// Resolve the final shortcut list: built-in (optional) + custom, minus
    /// hidden categories.
    pub fn resolve(&self) -> (out: Vec<ShortcutEntry>)
        ensures
            entry_views(out@) == resolved(*self),
    {
        let mut base: Vec<ShortcutEntry> = Vec::new();
        if self.show_gnome_shortcuts {
            base = gnome_shortcuts();
        }
        let ghost start = entry_views(base@);
        let ghost custom = entry_views(self.custom_shortcuts@);
        let mut i: usize = 0;
        assert(custom.take(0) =~= Seq::<(Seq<char>, Seq<char>, Seq<char>)>::empty());
        while i < self.custom_shortcuts.len()
            invariant
                i <= self.custom_shortcuts.len(),
                custom == entry_views(self.custom_shortcuts@),
                entry_views(base@) == start + custom.take(i as int),
            decreases self.custom_shortcuts.len() - i,
        {
            let e = self.custom_shortcuts[i].duplicate();
            proof {
                assert(entry_views(base@.push(e)) =~= entry_views(base@).push(entry_view(e)));
                assert(custom.take(i + 1) =~= custom.take(i as int).push(custom[i as int]));
            }
            base.push(e);
            i += 1;
        }
        proof {
            assert(custom.take(i as int) =~= custom);
            if !self.show_gnome_shortcuts {
                assert(start =~= Seq::<(Seq<char>, Seq<char>, Seq<char>)>::empty());
                assert(start + custom =~= custom);
            }
        }
        let ghost all = entry_views(base@);
        let ghost keep = shown(crate::text::views(self.hidden_categories@));
        let mut out: Vec<ShortcutEntry> = Vec::new();
        let mut k: usize = 0;
        proof {
            reveal(Seq::filter);
            assert(all.take(0) =~= Seq::<(Seq<char>, Seq<char>, Seq<char>)>::empty());
        }
        while k < base.len()
            invariant
                all == entry_views(base@),
                k <= base.len(),
                keep == shown(crate::text::views(self.hidden_categories@)),
                entry_views(out@) == all.take(k as int).filter(keep),
            decreases base.len() - k,
        {
            let e = &base[k];
            let hidden = self.is_hidden(e.category.as_str());
            proof {
                reveal(Seq::filter);
                assert(all.take(k + 1).drop_last() =~= all.take(k as int));
                assert(all.take(k + 1).last() == entry_view(*e));
                let hv = crate::text::views(self.hidden_categories@);
                if hidden {
                    let h = choose|h: int|
                        0 <= h < self.hidden_categories@.len() && same_category_name(
                            #[trigger] self.hidden_categories@[h]@,
                            e.category@,
                        );
                    assert(hv[h] == self.hidden_categories@[h]@);
                    assert(!keep(entry_view(*e)));
                } else {
                    assert forall|h: int| 0 <= h < hv.len() implies !same_category_name(
                        #[trigger] hv[h],
                        entry_view(*e).2,
                    ) by {
                        assert(hv[h] == self.hidden_categories@[h]@);
                    }
                    assert(keep(entry_view(*e)));
                }
            }
            if !hidden {
                let d = e.duplicate();
                proof {
                    assert(entry_views(out@.push(d)) =~= entry_views(out@).push(entry_view(d)));
                }
                out.push(d);
            }
            k += 1;
        }
        assert(all.take(k as int) =~= all);
        out
    }
}

/// No shortcut of a hidden category is shown: every resolved entry's
/// category differs, in lower case, from each hidden one.
pub proof fn law_hidden_never_shown(cfg: ShortcutGuideConfig, i: int, h: int)
    requires
        0 <= i < resolved(cfg).len(),
        0 <= h < cfg.hidden_categories@.len(),
    ensures
        !same_category_name(cfg.hidden_categories@[h]@, resolved(cfg)[i].2),
{
    let base = if cfg.show_gnome_shortcuts {
        gnome_list() + entry_views(cfg.custom_shortcuts@)
    } else {
        entry_views(cfg.custom_shortcuts@)
    };
    let hidden = crate::text::views(cfg.hidden_categories@);
    let pred = shown(hidden);
    assert(resolved(cfg) == base.filter(pred));
    assert(pred(resolved(cfg)[i])) by {
        base.lemma_filter_pred(pred, i);
    }
    assert(hidden[h] == cfg.hidden_categories@[h]@);
}

/// The pieces of `s` between the `+` signs (`str::split('+')`): one more
/// than there are signs, empty pieces included.
pub open spec fn plus_pieces(s: Seq<char>) -> Seq<Seq<char>>
    decreases s.len(),
{
    if s.len() == 0 {
        seq![seq![]]
    } else {
        let r = plus_pieces(s.drop_last());
        if s.last() == '+' {
            r.push(seq![])
        } else {
            r.update(r.len() - 1, r.last().push(s.last()))
        }
    }
}

/// There is always at least one piece.
pub proof fn lemma_plus_pieces_len(s: Seq<char>)
    ensures
        plus_pieces(s).len() >= 1,
    decreases s.len(),
{
    if s.len() > 0 {
        lemma_plus_pieces_len(s.drop_last());
    }
}

/// The keys drawn as badges for a shortcut's text: its `+`-separated
/// pieces, each trimmed.
pub open spec fn key_badges(keys: Seq<char>) -> Seq<Seq<char>> {
    plus_pieces(keys).map_values(|p: Seq<char>| trim(p))
}

/// Where the `+`-separated pieces of `v` lie: one span per piece, in order.
pub fn plus_spans(v: &Vec<char>) -> (spans: Vec<(usize, usize)>)
    ensures
        spans@.len() == plus_pieces(v@).len(),
        forall|k: int|
            0 <= k < spans@.len() ==> {
                &&& (#[trigger] spans@[k]).0 <= spans@[k].1 <= v@.len()
                &&& v@.subrange(spans@[k].0 as int, spans@[k].1 as int) == plus_pieces(v@)[k]
            },
{
    let mut spans: Vec<(usize, usize)> = Vec::new();
    let mut start: usize = 0;
    let mut i: usize = 0;
    while i < v.len()
        invariant
            i <= v.len(),
            start <= i,
            spans@.len() + 1 == plus_pieces(v@.take(i as int)).len(),
            forall|k: int| 0 <= k < spans@.len() ==> {
                &&& (#[trigger] spans@[k]).0 <= spans@[k].1 <= i
                &&& v@.subrange(spans@[k].0 as int, spans@[k].1 as int) == plus_pieces(v@.take(i as int))[k]
            },
            v@.subrange(start as int, i as int) == plus_pieces(v@.take(i as int)).last(),
        decreases v.len() - i,
    {
        proof {
            lemma_plus_pieces_len(v@.take(i as int));
            assert(v@.take(i + 1).drop_last() =~= v@.take(i as int));
            assert(v@.take(i + 1).last() == v@[i as int]);
        }
        if v[i] == '+' {
            spans.push((start, i));
            start = i + 1;
            proof {
                assert(v@.subrange(start as int, i + 1) =~= Seq::<char>::empty());
            }
        } else {
            proof {
                assert(v@.subrange(start as int, i + 1) =~= v@.subrange(start as int, i as int).push(v@[i as int]));
            }
        }
        i += 1;
    }
    assert(v@.take(v.len() as int) =~= v@);
    spans.push((start, v.len()));
    spans
}

/// The keys of a shortcut, as its badges show them.
pub fn key_parts(keys: &str) -> (parts: Vec<String>)
    ensures
        crate::text::views(parts@) == key_badges(keys@),
{
    let v = chars_of(keys);
    let spans = plus_spans(&v);
    let ghost pieces = plus_pieces(v@);
    let mut parts: Vec<String> = Vec::new();
    let mut k: usize = 0;
    while k < spans.len()
        invariant
            k <= spans.len(),
            spans@.len() == pieces.len(),
            pieces == plus_pieces(v@),
            forall|j: int| 0 <= j < spans@.len() ==> {
                &&& (#[trigger] spans@[j]).0 <= spans@[j].1 <= v@.len()
                &&& v@.subrange(spans@[j].0 as int, spans@[j].1 as int) == pieces[j]
            },
            crate::text::views(parts@) == pieces.take(k as int).map_values(|p: Seq<char>| trim(p)),
        decreases spans.len() - k,
    {
        let (a, b) = spans[k];
        let (x, y) = trim_range(&v, a, b);
        let t = string_of(&v, x, y);
        proof {
            crate::text::lemma_views_push(parts@, t);
            assert(pieces.take(k + 1).map_values(|p: Seq<char>| trim(p)) =~= pieces.take(k as int).map_values(
                |p: Seq<char>| trim(p),
            ).push(trim(pieces[k as int])));
        }
        parts.push(t);
        k += 1;
    }
    assert(pieces.take(k as int) =~= pieces);
    parts
}

/// The Shortcut Guide module: whether it runs, and its settings.
#[derive(Debug)]
pub struct ShortcutGuide {
    running: bool,
    config: ShortcutGuideConfig,
}

impl ShortcutGuide {
    /// A stopped guide with the given settings.
    pub fn new(config: ShortcutGuideConfig) -> (g: ShortcutGuide)
        ensures
            !g.is_running_spec(),
            g.config_spec() == config,
    {
        ShortcutGuide { running: false, config }
    }

    /// Whether the module runs.
    pub closed spec fn is_running_spec(&self) -> bool {
        self.running
    }

    /// The module's settings.
    pub closed spec fn config_spec(&self) -> ShortcutGuideConfig {
        self.config
    }

    /// The module's settings.
    pub fn config(&self) -> (c: &ShortcutGuideConfig)
        ensures
            *c == self.config_spec(),
    {
        &self.config
    }

    /// Starts the module.
    pub fn start(&mut self)
        ensures
            final(self).is_running_spec(),
            final(self).config_spec() == old(self).config_spec(),
    {
        self.running = true;
    }

    /// Stops the module.
    pub fn stop(&mut self)
        ensures
            !final(self).is_running_spec(),
            final(self).config_spec() == old(self).config_spec(),
    {
        self.running = false;
    }

    /// Whether the module runs.
    pub fn is_running(&self) -> (b: bool)
        ensures
            b == self.is_running_spec(),
    {
        self.running
    }
}

} // verus!
