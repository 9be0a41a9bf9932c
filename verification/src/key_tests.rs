//! The keys the Settings window's key test shows: the keys of the modules'
//! shortcuts, named the way the key listener names them, each once, in the
//! order modifiers first.

use vstd::prelude::*;

use crate::mouse::{ascii_lower, ascii_upper};
use crate::shortcuts::{first_seen, plus_pieces, plus_spans};
use crate::text::{
    chars_of, lowercase, owned, same_text, string_of, to_lowercase, trim, trim_range, views,
};

verus! {

/// A key's name as the key test shows it: trimmed; the modifier and space
/// names in their usual spelling (read in lower case); a single ASCII
/// character in upper case; any other name as written.
pub open spec fn normalized_key(raw: Seq<char>) -> Seq<char> {
    let t = trim(raw);
    let l = lowercase(t);
    if t.len() == 0 {
        seq![]
    } else if l == "control"@ || l == "ctrl"@ {
        "Ctrl"@
    } else if l == "super"@ || l == "meta"@ || l == "win"@ {
        "Super"@
    } else if l == "alt"@ {
        "Alt"@
    } else if l == "shift"@ {
        "Shift"@
    } else if l == "space"@ {
        "Space"@
    } else if t.len() == 1 && (t[0] as u32) < 128 {
        seq![ascii_upper(t[0])]
    } else {
        t
    }
}

/// A key's name as the key test shows it.
pub fn normalize_test_key(raw: &str) -> (s: String)
    ensures
        s@ == normalized_key(raw@),
{
    let v = chars_of(raw);
    let (a, b) = trim_range(&v, 0, v.len());
    assert(v@.subrange(0, v.len() as int) =~= raw@);
    if a == b {
        return String::new();
    }
    let token = string_of(&v, a, b);
    let lower = to_lowercase(token.as_str());
    let l = lower.as_str();
    if same_text(l, "control") || same_text(l, "ctrl") {
        owned("Ctrl")
    } else if same_text(l, "super") || same_text(l, "meta") || same_text(l, "win") {
        owned("Super")
    } else if same_text(l, "alt") {
        owned("Alt")
    } else if same_text(l, "shift") {
        owned("Shift")
    } else if same_text(l, "space") {
        owned("Space")
    } else if b - a == 1 && (v[a] as u32) < 128 {
        let c = v[a];
        let u: char = if 'a' <= c && c <= 'z' {
            ((c as u32 - 32) as u8) as char
        } else {
            c
        };
        let mut s = String::new();
        crate::text::push_char(&mut s, u);
        proof {
            if 'a' <= c && c <= 'z' {
                assert(((c as u32 - 32) as u8) == (c as u32) - 32);
            }
            assert(s@ =~= seq![ascii_upper(c)]);
        }
        s
    } else {
        token
    }
}

/// A shortcut held rather than pressed: `hold ` (in any ASCII case) before
/// the key.
pub open spec fn held_shortcut(t: Seq<char>) -> bool {
    &&& t.len() >= 5
    &&& ascii_lower(t[0]) == 'h'
    &&& ascii_lower(t[1]) == 'o'
    &&& ascii_lower(t[2]) == 'l'
    &&& ascii_lower(t[3]) == 'd'
    &&& t[4] == ' '
}

/// The names of a shortcut's keys, before dropping empty and repeated
/// ones: the held key, or the `+`-separated keys.
pub open spec fn raw_tokens(hotkey: Seq<char>) -> Seq<Seq<char>> {
    let t = trim(hotkey);
    if held_shortcut(t) {
        seq![normalized_key(t.skip(5))]
    } else {
        plus_pieces(t).map_values(|p: Seq<char>| normalized_key(p))
    }
}

/// The non-empty texts of `s`, each once, in order of first appearance.
pub open spec fn distinct_nonempty(s: Seq<Seq<char>>) -> Seq<Seq<char>>
    decreases s.len(),
{
    if s.len() == 0 {
        seq![]
    } else {
        let d = distinct_nonempty(s.drop_last());
        if s.last().len() == 0 || d.contains(s.last()) {
            d
        } else {
            d.push(s.last())
        }
    }
}

/// The keys of a shortcut as the key test names them, each once; none for
/// a blank shortcut.
pub open spec fn hotkey_tokens(hotkey: Seq<char>) -> Seq<Seq<char>> {
    if trim(hotkey).len() == 0 {
        seq![]
    } else {
        distinct_nonempty(raw_tokens(hotkey))
    }
}

fn contains_text(v: &Vec<String>, s: &str) -> (b: bool)
    ensures
        b == views(v@).contains(s@),
{
    let mut i: usize = 0;
    while i < v.len()
        invariant
            i <= v.len(),
            forall|k: int| 0 <= k < i ==> v@[k]@ != s@,
        decreases v.len() - i,
    {
        if same_text(v[i].as_str(), s) {
            assert(views(v@)[i as int] == s@);
            return true;
        }
        i += 1;
    }
    assert(!views(v@).contains(s@)) by {
        if views(v@).contains(s@) {
            let w = choose|w: int| 0 <= w < views(v@).len() && views(v@)[w] == s@;
            assert(v@[w]@ == s@);
        }
    }
    false
}

/// The keys of a shortcut as the key test names them, each once.
pub fn parse_hotkey_tokens(hotkey: &str) -> (r: Vec<String>)
    ensures
        views(r@) == hotkey_tokens(hotkey@),
{
    let v = chars_of(hotkey);
    let (a, b) = trim_range(&v, 0, v.len());
    assert(v@.subrange(0, v.len() as int) =~= hotkey@);
    let mut out: Vec<String> = Vec::new();
    if a == b {
        assert(out@.len() == 0);
        assert(views(out@) =~= hotkey_tokens(hotkey@));
        return out;
    }
    let tv: Vec<char> = chars_of(string_of(&v, a, b).as_str());
    let ghost t = trim(hotkey@);
    assert(tv@ == t);
    let mut parts: Vec<String> = Vec::new();
    if tv.len() >= 5 && (tv[0] == 'h' || tv[0] == 'H') && (tv[1] == 'o' || tv[1] == 'O') && (tv[2]
        == 'l' || tv[2] == 'L') && (tv[3] == 'd' || tv[3] == 'D') && tv[4] == ' ' {
        let rest = string_of(&tv, 5, tv.len());
        let k = normalize_test_key(rest.as_str());
        parts.push(k);
        proof {
            assert(held_shortcut(t));
            assert(tv@.subrange(5, tv.len() as int) =~= t.skip(5));
            assert(views(parts@) =~= raw_tokens(hotkey@));
        }
    } else {
        proof {
            assert(!held_shortcut(t));
        }
        let spans = plus_spans(&tv);
        let ghost pieces = plus_pieces(t);
        let mut k: usize = 0;
        while k < spans.len()
            invariant
                k <= spans.len(),
                tv@ == t,
                spans@.len() == pieces.len(),
                pieces == plus_pieces(t),
                forall|j: int| 0 <= j < spans@.len() ==> {
                    &&& (#[trigger] spans@[j]).0 <= spans@[j].1 <= tv@.len()
                    &&& tv@.subrange(spans@[j].0 as int, spans@[j].1 as int) == pieces[j]
                },
                views(parts@) == pieces.take(k as int).map_values(|p: Seq<char>| normalized_key(p)),
            decreases spans.len() - k,
        {
            let (x, y) = spans[k];
            let piece = string_of(&tv, x, y);
            let n = normalize_test_key(piece.as_str());
            proof {
                crate::text::lemma_views_push(parts@, n);
                assert(pieces.take(k + 1).map_values(|p: Seq<char>| normalized_key(p)) =~= pieces.take(
                    k as int,
                ).map_values(|p: Seq<char>| normalized_key(p)).push(normalized_key(pieces[k as int])));
            }
            parts.push(n);
            k += 1;
        }
        assert(pieces.take(k as int) =~= pieces);
        assert(views(parts@) == raw_tokens(hotkey@));
    }
    let ghost raw = views(parts@);
    let mut i: usize = 0;
    while i < parts.len()
        invariant
            i <= parts.len(),
            raw == views(parts@),
            views(out@) == distinct_nonempty(raw.take(i as int)),
        decreases parts.len() - i,
    {
        proof {
            assert(raw.take(i + 1).drop_last() =~= raw.take(i as int));
            assert(raw.take(i + 1).last() == parts@[i as int]@);
        }
        let p = parts[i].clone();
        if !p.as_str().is_empty() && !contains_text(&out, p.as_str()) {
            proof {
                crate::text::lemma_views_push(out@, p);
            }
            out.push(p);
        }
        i += 1;
    }
    assert(raw.take(i as int) =~= raw);
    out
}


// ---------------------------------------------------------------------------
// The keys under test, in order
// ---------------------------------------------------------------------------

/// The modifier names: whatever its case and surrounding blanks, "control"
/// or "ctrl" reads as Ctrl; "super", "meta" or "win" as Super; "alt",
/// "shift" and "space" as Alt, Shift and Space; and the key test sorts
/// Super, Ctrl, Alt, Shift first, in that order, before every other key.
pub proof fn law_key_names(raw: Seq<char>, other: Seq<char>)
    ensures
        ({
            let t = trim(raw);
            let l = lowercase(t);
            &&& t.len() > 0 && (l == "control"@ || l == "ctrl"@) ==> normalized_key(raw) == "Ctrl"@
            &&& t.len() > 0 && (l == "super"@ || l == "meta"@ || l == "win"@) ==> normalized_key(raw) == "Super"@
            &&& t.len() > 0 && l == "alt"@ ==> normalized_key(raw) == "Alt"@
            &&& t.len() > 0 && l == "shift"@ ==> normalized_key(raw) == "Shift"@
            &&& t.len() > 0 && l == "space"@ ==> normalized_key(raw) == "Space"@
            &&& t.len() == 0 ==> normalized_key(raw).len() == 0
        }),
        key_rank("Super"@) < key_rank("Ctrl"@) < key_rank("Alt"@) < key_rank("Shift"@),
        other != "Super"@ && other != "Ctrl"@ && other != "Alt"@ && other != "Shift"@ ==> key_rank("Shift"@) < key_rank(other),
{
    reveal_strlit("Super");
    reveal_strlit("Ctrl");
    reveal_strlit("Alt");
    reveal_strlit("Shift");
    assert("Super"@.len() == 5);
    assert("Ctrl"@.len() == 4);
    assert("Alt"@.len() == 3);
    assert("Shift"@.len() == 5);
    assert("Super"@ != "Shift"@) by {
        assert("Super"@[1] != "Shift"@[1]);
    }
    reveal_strlit("control");
    reveal_strlit("ctrl");
    reveal_strlit("super");
    reveal_strlit("meta");
    reveal_strlit("win");
    reveal_strlit("alt");
    reveal_strlit("shift");
    reveal_strlit("space");
    assert("control"@.len() == 7 && "ctrl"@.len() == 4 && "super"@.len() == 5 && "meta"@.len() == 4);
    assert("win"@.len() == 3 && "alt"@.len() == 3 && "shift"@.len() == 5 && "space"@.len() == 5);
    assert("ctrl"@[0] != "meta"@[0]);
    assert("win"@[0] != "alt"@[0]);
    assert("super"@[1] != "shift"@[1] && "super"@[1] != "space"@[1] && "shift"@[1] != "space"@[1]);
}

/// Where a key goes in the key test: Super, Ctrl, Alt, Shift, then the rest.
pub open spec fn key_rank(k: Seq<char>) -> int {
    if k == "Super"@ {
        0
    } else if k == "Ctrl"@ {
        1
    } else if k == "Alt"@ {
        2
    } else if k == "Shift"@ {
        3
    } else {
        10
    }
}

/// `a` comes before `b` or equals it, character by character (the order of
/// strings, which for UTF-8 text is that of their characters' code points).
pub open spec fn lex_le(a: Seq<char>, b: Seq<char>) -> bool
    decreases a.len(),
{
    if a.len() == 0 {
        true
    } else if b.len() == 0 {
        false
    } else if a[0] < b[0] {
        true
    } else if a[0] > b[0] {
        false
    } else {
        lex_le(a.drop_first(), b.drop_first())
    }
}

/// `a` goes no later than `b`: by rank, then by the lower-case name.
pub open spec fn key_le(a: Seq<char>, b: Seq<char>) -> bool {
    key_rank(a) < key_rank(b) || (key_rank(a) == key_rank(b) && lex_le(lowercase(a), lowercase(b)))
}

/// `x` put into `s` after the last key that goes no later than it, scanning
/// from the end.
pub open spec fn insert_key(s: Seq<Seq<char>>, x: Seq<char>) -> Seq<Seq<char>>
    decreases s.len(),
{
    if s.len() == 0 {
        seq![x]
    } else if key_le(s.last(), x) {
        s.push(x)
    } else {
        insert_key(s.drop_last(), x).push(s.last())
    }
}

/// The keys of `s` in key order, keys that tie keeping their order (a
/// stable sort).
pub open spec fn sort_keys(s: Seq<Seq<char>>) -> Seq<Seq<char>>
    decreases s.len(),
{
    if s.len() == 0 {
        seq![]
    } else {
        insert_key(sort_keys(s.drop_last()), s.last())
    }
}

/// The keys of the shortcuts, shortcut after shortcut.
pub open spec fn all_tokens(hotkeys: Seq<Option<String>>) -> Seq<Seq<char>>
    decreases hotkeys.len(),
{
    if hotkeys.len() == 0 {
        seq![]
    } else {
        all_tokens(hotkeys.drop_last()) + match hotkeys.last() {
            Some(h) => hotkey_tokens(h@),
            None => seq![],
        }
    }
}

/// The keys the key test shows for the modules' shortcuts (none for a
/// module without one): each once, in key order.
pub open spec fn test_keys_of(hotkeys: Seq<Option<String>>) -> Seq<Seq<char>> {
    sort_keys(first_seen(all_tokens(hotkeys)))
}

fn lex_le_of(a: &Vec<char>, b: &Vec<char>) -> (r: bool)
    ensures
        r == lex_le(a@, b@),
{
    let mut i: usize = 0;
    assert(a@.skip(0) =~= a@);
    assert(b@.skip(0) =~= b@);
    while i < a.len() && i < b.len() && a[i] == b[i]
        invariant
            i <= a.len(),
            i <= b.len(),
            lex_le(a@, b@) == lex_le(a@.skip(i as int), b@.skip(i as int)),
        decreases a.len() - i,
    {
        proof {
            let x = a@.skip(i as int);
            let y = b@.skip(i as int);
            assert(x[0] == a@[i as int] && y[0] == b@[i as int]);
            assert(x.drop_first() =~= a@.skip(i + 1));
            assert(y.drop_first() =~= b@.skip(i + 1));
            assert(lex_le(x, y) == lex_le(x.drop_first(), y.drop_first()));
        }
        i += 1;
    }
    let ghost x = a@.skip(i as int);
    let ghost y = b@.skip(i as int);
    if i >= a.len() {
        assert(x.len() == 0);
        true
    } else if i >= b.len() {
        assert(y.len() == 0 && x.len() > 0);
        false
    } else {
        assert(x[0] == a@[i as int] && y[0] == b@[i as int]);
        a[i] < b[i]
    }
}

fn rank_of(k: &str) -> (r: u8)
    ensures
        r == key_rank(k@),
{
    if same_text(k, "Super") {
        0
    } else if same_text(k, "Ctrl") {
        1
    } else if same_text(k, "Alt") {
        2
    } else if same_text(k, "Shift") {
        3
    } else {
        10
    }
}

proof fn lemma_insert_at(s: Seq<Seq<char>>, x: Seq<char>, j: int)
    requires
        0 <= j <= s.len(),
        forall|k: int| j <= k < s.len() ==> !key_le(#[trigger] s[k], x),
        j == 0 || key_le(s[j - 1], x),
    ensures
        insert_key(s, x) == s.insert(j, x),
    decreases s.len(),
{
    if s.len() == 0 {
        assert(s.insert(j, x) =~= seq![x]);
    } else if j == s.len() {
        assert(s.insert(j, x) =~= s.push(x));
    } else {
        assert(!key_le(s[s.len() - 1], x));
        let d = s.drop_last();
        assert forall|k: int| j <= k < d.len() implies !key_le(#[trigger] d[k], x) by {
            assert(d[k] == s[k]);
        }
        if j > 0 {
            assert(d[j - 1] == s[j - 1]);
        }
        lemma_insert_at(d, x, j);
        assert(s.insert(j, x) =~= d.insert(j, x).push(s.last()));
    }
}

/// The keys the key test shows for the modules' shortcuts (`None` for a
/// module without one): the keys of each shortcut, each key once, Super,
/// Ctrl, Alt and Shift first, then by name ignoring case.
pub fn collect_test_keys(hotkeys: &Vec<Option<String>>) -> (r: Vec<String>)
    ensures
        views(r@) == test_keys_of(hotkeys@),
{
    let mut keys: Vec<String> = Vec::new();
    let mut i: usize = 0;
    while i < hotkeys.len()
        invariant
            i <= hotkeys.len(),
            views(keys@) == first_seen(all_tokens(hotkeys@.take(i as int))),
        decreases hotkeys.len() - i,
    {
        let ghost before = all_tokens(hotkeys@.take(i as int));
        proof {
            assert(hotkeys@.take(i + 1).drop_last() =~= hotkeys@.take(i as int));
        }
        match &hotkeys[i] {
            Some(h) => {
                let toks = parse_hotkey_tokens(h.as_str());
                let ghost tv = views(toks@);
                assert(before + tv.take(0) =~= before);
                let mut j: usize = 0;
                while j < toks.len()
                    invariant
                        j <= toks.len(),
                        tv == views(toks@),
                        views(keys@) == first_seen(before + tv.take(j as int)),
                    decreases toks.len() - j,
                {
                    proof {
                        assert((before + tv.take(j + 1)).drop_last() =~= before + tv.take(j as int));
                        assert((before + tv.take(j + 1)).last() == toks@[j as int]@);
                    }
                    let t = toks[j].clone();
                    if !contains_text(&keys, t.as_str()) {
                        proof {
                            crate::text::lemma_views_push(keys@, t);
                        }
                        keys.push(t);
                    }
                    j += 1;
                }
                assert(tv.take(j as int) =~= tv);
                assert(all_tokens(hotkeys@.take(i + 1)) == before + tv);
            },
            None => {
                assert(all_tokens(hotkeys@.take(i + 1)) =~= before);
            },
        }
        i += 1;
    }
    assert(hotkeys@.take(i as int) =~= hotkeys@);
    let ghost ks = views(keys@);
    let mut sorted: Vec<String> = Vec::new();
    let mut lows: Vec<Vec<char>> = Vec::new();
    let mut ranks: Vec<u8> = Vec::new();
    let mut n: usize = 0;
    while n < keys.len()
        invariant
            n <= keys.len(),
            ks == views(keys@),
            views(sorted@) == sort_keys(ks.take(n as int)),
            lows@.len() == sorted@.len(),
            ranks@.len() == sorted@.len(),
            forall|k: int| 0 <= k < sorted@.len() ==> (#[trigger] lows@[k])@ == lowercase(sorted@[k]@),
            forall|k: int| 0 <= k < sorted@.len() ==> (#[trigger] ranks@[k]) == key_rank(sorted@[k]@),
        decreases keys.len() - n,
    {
        let x = keys[n].clone();
        let xl = to_lowercase(x.as_str());
        let xlow = chars_of(xl.as_str());
        let xr = rank_of(x.as_str());
        let ghost s = views(sorted@);
        let mut j: usize = sorted.len();
        while j > 0 && !(ranks[j - 1] < xr || (ranks[j - 1] == xr && lex_le_of(&lows[j - 1], &xlow)))
            invariant
                j <= sorted@.len(),
                s == views(sorted@),
                lows@.len() == sorted@.len(),
                ranks@.len() == sorted@.len(),
                forall|k: int| 0 <= k < sorted@.len() ==> (#[trigger] lows@[k])@ == lowercase(sorted@[k]@),
                forall|k: int| 0 <= k < sorted@.len() ==> (#[trigger] ranks@[k]) == key_rank(sorted@[k]@),
                xlow@ == lowercase(x@),
                xr == key_rank(x@),
                forall|k: int| j <= k < s.len() ==> !key_le(#[trigger] s[k], x@),
            decreases j,
        {
            j -= 1;
        }
        proof {
            if j > 0 {
                assert(key_le(s[j - 1], x@));
            }
            lemma_insert_at(s, x@, j as int);
            assert(ks.take(n + 1).drop_last() =~= ks.take(n as int));
            assert(ks.take(n + 1).last() == x@);
        }
        let ghost sorted0 = sorted@;
        let ghost lows0 = lows@;
        let ghost ranks0 = ranks@;
        let ghost xv = x@;
        let ghost xlv = xlow@;
        sorted.insert(j, x);
        lows.insert(j, xlow);
        ranks.insert(j, xr);
        proof {
            assert(views(sorted@) =~= s.insert(j as int, xv));
            assert forall|k: int| 0 <= k < sorted@.len() implies (#[trigger] lows@[k])@ == lowercase(sorted@[k]@) by {
                if k < j {
                    assert(lows@[k] == lows0[k] && sorted@[k] == sorted0[k]);
                } else if k > j {
                    assert(lows@[k] == lows0[k - 1] && sorted@[k] == sorted0[k - 1]);
                } else {
                    assert(lows@[k]@ == xlv && sorted@[k]@ == xv);
                }
            }
            assert forall|k: int| 0 <= k < sorted@.len() implies (#[trigger] ranks@[k]) == key_rank(sorted@[k]@) by {
                if k < j {
                    assert(ranks@[k] == ranks0[k] && sorted@[k] == sorted0[k]);
                } else if k > j {
                    assert(ranks@[k] == ranks0[k - 1] && sorted@[k] == sorted0[k - 1]);
                } else {
                    assert(sorted@[k]@ == xv);
                }
            }
        }
        n += 1;
    }
    assert(ks.take(n as int) =~= ks);
    sorted
}


// ---------------------------------------------------------------------------
// Laws of the key order
// ---------------------------------------------------------------------------

/// Keys in key order: each goes no later than every key after it.
pub open spec fn keys_in_order(s: Seq<Seq<char>>) -> bool {
    forall|i: int, j: int| 0 <= i < j < s.len() ==> key_le(#[trigger] s[i], #[trigger] s[j])
}

proof fn lemma_lex_total(a: Seq<char>, b: Seq<char>)
    ensures
        lex_le(a, b) || lex_le(b, a),
    decreases a.len(),
{
    if a.len() > 0 && b.len() > 0 && a[0] == b[0] {
        lemma_lex_total(a.drop_first(), b.drop_first());
    }
}

proof fn lemma_lex_trans(a: Seq<char>, b: Seq<char>, c: Seq<char>)
    requires
        lex_le(a, b),
        lex_le(b, c),
    ensures
        lex_le(a, c),
    decreases a.len(),
{
    if a.len() > 0 && b.len() > 0 && c.len() > 0 && a[0] == b[0] && b[0] == c[0] {
        lemma_lex_trans(a.drop_first(), b.drop_first(), c.drop_first());
    }
}

proof fn lemma_key_total(a: Seq<char>, b: Seq<char>)
    ensures
        key_le(a, b) || key_le(b, a),
{
    lemma_lex_total(lowercase(a), lowercase(b));
}

proof fn lemma_key_trans(a: Seq<char>, b: Seq<char>, c: Seq<char>)
    requires
        key_le(a, b),
        key_le(b, c),
    ensures
        key_le(a, c),
{
    if key_rank(a) == key_rank(b) && key_rank(b) == key_rank(c) {
        lemma_lex_trans(lowercase(a), lowercase(b), lowercase(c));
    }
}

proof fn lemma_insert_key(s: Seq<Seq<char>>, x: Seq<char>)
    requires
        keys_in_order(s),
    ensures
        keys_in_order(insert_key(s, x)),
        insert_key(s, x).to_multiset() == s.to_multiset().insert(x),
    decreases s.len(),
{
    broadcast use vstd::seq_lib::group_to_multiset_ensures;

    if s.len() == 0 {
        assert(seq![x] =~= Seq::<Seq<char>>::empty().push(x));
    } else if key_le(s.last(), x) {
        let r = s.push(x);
        assert forall|i: int, j: int| 0 <= i < j < r.len() implies key_le(#[trigger] r[i], #[trigger] r[j]) by {
            if j == s.len() {
                if i < s.len() - 1 {
                    lemma_key_trans(s[i], s.last(), x);
                }
            }
        }
    } else {
        let d = s.drop_last();
        let l = s.last();
        lemma_key_total(l, x);
        assert forall|i: int, j: int| 0 <= i < j < d.len() implies key_le(#[trigger] d[i], #[trigger] d[j]) by {
            assert(d[i] == s[i] && d[j] == s[j]);
        }
        lemma_insert_key(d, x);
        let m = insert_key(d, x);
        let r = m.push(l);
        assert(s =~= d.push(l));
        assert forall|i: int, j: int| 0 <= i < j < r.len() implies key_le(#[trigger] r[i], #[trigger] r[j]) by {
            if j == m.len() {
                let e = m[i];
                assert(m.to_multiset().count(e) > 0);
                assert(d.to_multiset().insert(x).count(e) > 0);
                if e != x {
                    assert(d.to_multiset().count(e) > 0);
                    assert(d.contains(e));
                    let k = choose|k: int| 0 <= k < d.len() && d[k] == e;
                    assert(s[k] == e);
                    assert(key_le(s[k], s[s.len() - 1]));
                }
            }
        }
    }
}

/// The keys come out in key order, and they are exactly the keys given,
/// each as often as given.
pub proof fn law_sort_keys(s: Seq<Seq<char>>)
    ensures
        keys_in_order(sort_keys(s)),
        sort_keys(s).to_multiset() == s.to_multiset(),
    decreases s.len(),
{
    broadcast use vstd::seq_lib::group_to_multiset_ensures;

    if s.len() > 0 {
        law_sort_keys(s.drop_last());
        lemma_insert_key(sort_keys(s.drop_last()), s.last());
        assert(s =~= s.drop_last().push(s.last()));
    }
}


proof fn lemma_first_seen_distinct(s: Seq<Seq<char>>)
    ensures
        first_seen(s).no_duplicates(),
    decreases s.len(),
{
    if s.len() > 0 {
        lemma_first_seen_distinct(s.drop_last());
    }
}

/// The key test lists the modules' keys in key order, each key once.
pub proof fn law_test_keys(hotkeys: Seq<Option<String>>)
    ensures
        keys_in_order(test_keys_of(hotkeys)),
        test_keys_of(hotkeys).no_duplicates(),
        test_keys_of(hotkeys).to_multiset() == first_seen(all_tokens(hotkeys)).to_multiset(),
{
    let u = first_seen(all_tokens(hotkeys));
    law_sort_keys(u);
    lemma_first_seen_distinct(all_tokens(hotkeys));
    assert(u.no_duplicates());
    u.lemma_multiset_has_no_duplicates();
    sort_keys(u).lemma_multiset_has_no_duplicates_conv();
}

} // verus!
