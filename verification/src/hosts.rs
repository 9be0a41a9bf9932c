//! The hosts file: a line-preserving model of `/etc/hosts` with entries that
//! can be toggled (commented out), added, edited and removed.
use vstd::prelude::*;
use crate::text_facts::lemma_first_word;
use crate::text::{
    decimal,
    chars_of, find_char, first_word, lemma_views_push, join, push_all, push_char, has_char, index_of, is_ws, is_ws_char, line_spans, lines, span_views,
    spans_ok, string_of, trim, trim_range, views, words, words_acc, words_in, push_joined,
};

verus! {

/// One host entry: an address, its names, an optional inline comment, and
/// whether it is active (a disabled entry is written commented out).
#[derive(Debug, Clone)]
pub struct HostEntry {
    pub ip: String,
    pub hostnames: Vec<String>,
    pub comment: Option<String>,
    pub enabled: bool,
}

/// One line of a hosts file.
#[derive(Debug, Clone)]
pub enum HostsLine {
    Entry(HostEntry),
    Comment(String),
    Blank,
}

/// A hosts file, line by line.
#[derive(Debug, Clone)]
pub struct HostsFile {
    pub lines: Vec<HostsLine>,
}

/// The mathematical value of a [`HostEntry`].
pub struct EntryView {
    pub ip: Seq<char>,
    pub hostnames: Seq<Seq<char>>,
    pub comment: Option<Seq<char>>,
    pub enabled: bool,
}

/// The mathematical value of a [`HostsLine`].
pub enum LineView {
    Entry(EntryView),
    Comment(Seq<char>),
    Blank,
}

pub open spec fn opt_str_view(o: Option<String>) -> Option<Seq<char>> {
    match o {
        Some(s) => Some(s@),
        None => None,
    }
}

impl View for HostEntry {
    type V = EntryView;

    open spec fn view(&self) -> EntryView {
        EntryView {
            ip: self.ip@,
            hostnames: views(self.hostnames@),
            comment: opt_str_view(self.comment),
            enabled: self.enabled,
        }
    }
}

impl View for HostsLine {
    type V = LineView;

    open spec fn view(&self) -> LineView {
        match self {
            HostsLine::Entry(e) => LineView::Entry(e@),
            HostsLine::Comment(c) => LineView::Comment(c@),
            HostsLine::Blank => LineView::Blank,
        }
    }
}

pub open spec fn line_views(ls: Seq<HostsLine>) -> Seq<LineView> {
    ls.map_values(|l: HostsLine| l@)
}

impl View for HostsFile {
    type V = Seq<LineView>;

    open spec fn view(&self) -> Seq<LineView> {
        line_views(self.lines@)
    }
}

pub open spec fn opt_entry_view(o: Option<HostEntry>) -> Option<EntryView> {
    match o {
        Some(e) => Some(e@),
        None => None,
    }
}

// ---------------------------------------------------------------------------
// Parsing, as a specification
// ---------------------------------------------------------------------------

/// The part of a line before its first `#`, and the trimmed text after it.
pub open spec fn split_comment(l: Seq<char>) -> (Seq<char>, Option<Seq<char>>) {
    match index_of(l, '#') {
        Some(p) => (l.subrange(0, p), Some(trim(l.subrange(p + 1, l.len() as int)))),
        None => (l, None),
    }
}

/// An entry read from `l`: at least an address and one name before any `#`.
pub open spec fn entry_of(l: Seq<char>) -> Option<EntryView> {
    let (main, comment) = split_comment(l);
    let parts = words(main);
    if parts.len() < 2 {
        None
    } else {
        Some(
            EntryView {
                ip: parts[0],
                hostnames: parts.subrange(1, parts.len() as int),
                comment,
                enabled: true,
            },
        )
    }
}

/// Whether `s` starts with something address-like (an IPv4 dot or IPv6 colon).
pub open spec fn looks_like_entry(s: Seq<char>) -> bool {
    has_char(first_word(s), '.') || has_char(first_word(s), ':')
}

/// The meaning of one line: blank, an entry (a commented-out entry is a
/// disabled one), or a comment kept verbatim.
pub open spec fn line_of(line: Seq<char>) -> LineView {
    let t = trim(line);
    if t.len() == 0 {
        LineView::Blank
    } else if t[0] == '#' {
        let rest = trim(t.drop_first());
        if looks_like_entry(rest) && entry_of(rest) is Some {
            let e = entry_of(rest)->Some_0;
            LineView::Entry(EntryView { enabled: false, ..e })
        } else {
            LineView::Comment(line)
        }
    } else {
        match entry_of(t) {
            Some(e) => LineView::Entry(e),
            None => LineView::Comment(line),
        }
    }
}

/// The lines of a hosts file read from `s`.
pub open spec fn file_of(s: Seq<char>) -> Seq<LineView> {
    lines_meaning(lines(s))
}

/// The meaning of each of the lines `ls`.
pub open spec fn lines_meaning(ls: Seq<Seq<char>>) -> Seq<LineView> {
    ls.map_values(|l: Seq<char>| line_of(l))
}

// ---------------------------------------------------------------------------
// Parsing, executable
// ---------------------------------------------------------------------------

/// The inline comment split off `v[lo..hi]`: the end of the part before `#`,
/// and the trimmed comment.
fn split_comment_exec(v: &Vec<char>, lo: usize, hi: usize) -> (r: (usize, Option<String>))
    requires
        lo <= hi <= v.len(),
    ensures
        lo <= r.0 <= hi,
        split_comment(v@.subrange(lo as int, hi as int)) == (
            v@.subrange(lo as int, r.0 as int),
            opt_str_view(r.1),
        ),
{
    let ghost l = v@.subrange(lo as int, hi as int);
    match find_char(v, lo, hi, '#') {
        Some(p) => {
            let (a, b) = trim_range(v, lo + p + 1, hi);
            let c = string_of(v, a, b);
            proof {
                assert(l.subrange(0, p as int) == v@.subrange(lo as int, lo + p));
                assert(l.subrange(p + 1, l.len() as int) == v@.subrange(lo + p + 1, hi as int));
            }
            (lo + p, Some(c))
        },
        None => {
            (hi, None)
        },
    }
}

/// Reads an entry from `v[lo..hi]`.
fn try_parse_entry(v: &Vec<char>, lo: usize, hi: usize) -> (r: Option<HostEntry>)
    requires
        lo <= hi <= v.len(),
    ensures
        opt_entry_view(r) == entry_of(v@.subrange(lo as int, hi as int)),
{
    let (end, comment) = split_comment_exec(v, lo, hi);
    let mut parts = words_in(v, lo, end);
    if parts.len() < 2 {
        return None;
    }
    let ghost ps = views(parts@);
    let ip = parts.remove(0);
    proof {
        assert(views(parts@) =~= ps.subrange(1, ps.len() as int));
    }
    Some(HostEntry { ip, hostnames: parts, comment, enabled: true })
}

/// Whether `v[lo..hi]` starts with something address-like.
fn looks_like_host_entry(v: &Vec<char>, lo: usize, hi: usize) -> (b: bool)
    requires
        lo <= hi <= v.len(),
    ensures
        b == looks_like_entry(v@.subrange(lo as int, hi as int)),
{
    let (a, _) = trim_range(v, lo, hi);
    let mut e = a;
    while e < hi && !is_ws_char(v[e])
        invariant
            a <= e <= hi <= v.len(),
            forall|j: int| a <= j < e ==> !is_ws(#[trigger] v@[j]),
        decreases hi - e,
    {
        e += 1;
    }
    let mut found = false;
    let mut i = a;
    while i < e
        invariant
            a <= i <= e <= hi <= v.len(),
            found == exists|j: int| a <= j < i && (v@[j] == '.' || v@[j] == ':'),
        decreases e - i,
    {
        if v[i] == '.' || v[i] == ':' {
            found = true;
        }
        i += 1;
    }
    proof {
        lemma_first_word(v@, lo as int, hi as int, a as int, e as int);
        let w = v@.subrange(a as int, e as int);
        if found {
            let j = choose|j: int| a <= j < e && (v@[j] == '.' || v@[j] == ':');
            assert(w[j - a] == v@[j]);
        } else {
            assert forall|j: int| 0 <= j < w.len() implies w[j] != '.' && w[j] != ':' by {
                assert(w[j] == v@[a + j]);
            }
        }
    }
    found
}

/// The meaning of the line `v[lo..hi]`.
fn parse_line(v: &Vec<char>, lo: usize, hi: usize) -> (r: HostsLine)
    requires
        lo <= hi <= v.len(),
    ensures
        r@ == line_of(v@.subrange(lo as int, hi as int)),
{
    let ghost line = v@.subrange(lo as int, hi as int);
    let (a, b) = trim_range(v, lo, hi);
    if a == b {
        return HostsLine::Blank;
    }
    assert(v@.subrange(a as int, b as int)[0] == v@[a as int]);
    if v[a] == '#' {
        let (c, d) = trim_range(v, a + 1, b);
        proof {
            assert(v@.subrange(a as int, b as int).drop_first() == v@.subrange(a + 1, b as int));
        }
        if looks_like_host_entry(v, c, d) {
            match try_parse_entry(v, c, d) {
                Some(e) => {
                    let mut e = e;
                    e.enabled = false;
                    return HostsLine::Entry(e);
                },
                None => {},
            }
        }
        return HostsLine::Comment(string_of(v, lo, hi));
    }
    match try_parse_entry(v, a, b) {
        Some(e) => HostsLine::Entry(e),
        None => HostsLine::Comment(string_of(v, lo, hi)),
    }
}

impl HostsFile {
    /// Reads a hosts file from its text, keeping every line.
    pub fn parse_str(content: &str) -> (f: HostsFile)
        ensures
            f@ == file_of(content@),
    {
        let v = chars_of(content);
        let sp = line_spans(&v);
        let mut out: Vec<HostsLine> = Vec::new();
        let mut k: usize = 0;
        while k < sp.len()
            invariant
                0 <= k <= sp.len(),
                spans_ok(sp@, v@.len() as int),
                span_views(v@, sp@) == lines(v@),
                line_views(out@) == lines_meaning(lines(v@).take(k as int)),
            decreases sp.len() - k,
        {
            let (lo, hi) = sp[k];
            assert(sp@[k as int].0 <= sp@[k as int].1 <= v@.len());
            let l = parse_line(&v, lo, hi);
            proof {
                assert(lines(v@)[k as int] == v@.subrange(lo as int, hi as int));
                let ls = lines(v@);
                assert(ls.take(k + 1) == ls.take(k as int).push(ls[k as int]));
                assert(lines_meaning(ls.take(k + 1)) =~= lines_meaning(ls.take(k as int)).push(
                    line_of(ls[k as int]),
                ));
                assert(line_views(out@.push(l)) =~= line_views(out@).push(l@));
            }
            out.push(l);
            k += 1;
        }
        proof {
            assert(lines(v@).take(sp@.len() as int) =~= lines(v@));
        }
        HostsFile { lines: out }
    }
}

// ---------------------------------------------------------------------------
// Entries among the lines
// ---------------------------------------------------------------------------

/// The entries among the lines `ls`, in order.
pub open spec fn entries_of(ls: Seq<LineView>) -> Seq<EntryView>
    decreases ls.len(),
{
    if ls.len() == 0 {
        seq![]
    } else {
        match ls.last() {
            LineView::Entry(e) => entries_of(ls.drop_last()).push(e),
            _ => entries_of(ls.drop_last()),
        }
    }
}

/// The line positions of the entries among `ls`, in order.
pub open spec fn entry_positions(ls: Seq<LineView>) -> Seq<int>
    decreases ls.len(),
{
    if ls.len() == 0 {
        seq![]
    } else {
        match ls.last() {
            LineView::Entry(_) => entry_positions(ls.drop_last()).push(ls.len() - 1),
            _ => entry_positions(ls.drop_last()),
        }
    }
}

/// The `k`-th entry, with its `enabled` flag flipped, in place.
pub open spec fn toggled(ls: Seq<LineView>, k: int) -> Seq<LineView> {
    let e = entries_of(ls)[k];
    ls.update(entry_positions(ls)[k], LineView::Entry(EntryView { enabled: !e.enabled, ..e }))
}

/// The `k`-th entry given a new address, names and comment; its `enabled`
/// flag and place are kept.
pub open spec fn edited(
    ls: Seq<LineView>,
    k: int,
    ip: Seq<char>,
    hostnames: Seq<Seq<char>>,
    comment: Option<Seq<char>>,
) -> Seq<LineView> {
    let e = entries_of(ls)[k];
    ls.update(entry_positions(ls)[k], LineView::Entry(EntryView { ip, hostnames, comment, ..e }))
}

/// A new, enabled entry.
pub open spec fn new_entry(ip: Seq<char>, hostnames: Seq<Seq<char>>, comment: Option<Seq<char>>) -> EntryView {
    EntryView { ip, hostnames, comment, enabled: true }
}

/// Where each entry sits among the lines, and that every entry is counted.
pub proof fn lemma_entry_positions(ls: Seq<LineView>)
    ensures
        entry_positions(ls).len() == entries_of(ls).len(),
        forall|k: int|
            0 <= k < entries_of(ls).len() ==> 0 <= #[trigger] entry_positions(ls)[k] < ls.len()
                && ls[entry_positions(ls)[k]] == LineView::Entry(entries_of(ls)[k]),
        forall|j: int, k: int|
            0 <= j < k < entries_of(ls).len() ==> #[trigger] entry_positions(ls)[j]
                < #[trigger] entry_positions(ls)[k],
        forall|i: int|
            0 <= i < ls.len() && #[trigger] ls[i] is Entry ==> exists|k: int|
                0 <= k < entries_of(ls).len() && entry_positions(ls)[k] == i,
    decreases ls.len(),
{
    if ls.len() > 0 {
        let d = ls.drop_last();
        lemma_entry_positions(d);
        assert forall|k: int| 0 <= k < entries_of(d).len() implies ls[entry_positions(d)[k]] == d[entry_positions(d)[k]] by {}
        assert forall|i: int| 0 <= i < ls.len() && #[trigger] ls[i] is Entry implies exists|k: int|
            0 <= k < entries_of(ls).len() && entry_positions(ls)[k] == i by {
            if i < ls.len() - 1 {
                assert(d[i] == ls[i]);
                let k = choose|k: int| 0 <= k < entries_of(d).len() && entry_positions(d)[k] == i;
                assert(entry_positions(ls)[k] == i);
            } else {
                let k = entries_of(d).len() as int;
                assert(entry_positions(ls)[k] == i);
            }
        }
    }
}

/// Entries and positions of a prefix of the lines are a prefix of those of
/// all the lines.
pub proof fn lemma_entries_prefix(ls: Seq<LineView>, m: int)
    requires
        0 <= m <= ls.len(),
    ensures
        entries_of(ls.take(m)).len() <= entries_of(ls).len(),
        forall|k: int|
            0 <= k < entries_of(ls.take(m)).len() ==> entries_of(ls)[k] == entries_of(
                ls.take(m),
            )[k] && entry_positions(ls)[k] == entry_positions(ls.take(m))[k],
    decreases ls.len(),
{
    lemma_entry_positions(ls);
    lemma_entry_positions(ls.take(m));
    if m == ls.len() {
        assert(ls.take(m) == ls);
    } else {
        let d = ls.drop_last();
        lemma_entries_prefix(d, m);
        assert(d.take(m) == ls.take(m));
        lemma_entry_positions(d);
    }
}

/// The entries of one more line.
proof fn lemma_entries_step(ls: Seq<LineView>, i: int)
    requires
        0 <= i < ls.len(),
    ensures
        ls.take(i + 1).drop_last() == ls.take(i),
        ls.take(i + 1).last() == ls[i],
{
    assert(ls.take(i + 1).drop_last() == ls.take(i));
}

/// A view of the entry references `v`.
pub open spec fn entry_ref_views(v: Seq<&HostEntry>) -> Seq<EntryView> {
    v.map_values(|e: &HostEntry| e@)
}

/// Why an operation on an entry was refused.
#[derive(Debug, Clone, Copy, PartialEq, Eq, Structural)]
pub enum HostsError {
    /// No entry has this index; `count` entries exist.
    EntryOutOfRange { index: usize, count: usize },
    /// No entry to remove has this index.
    NoSuchEntry { index: usize },
}

/// The text of an out-of-range error.
pub open spec fn out_of_range_text(index: nat, count: nat) -> Seq<char> {
    "entry index "@ + decimal(index) + " out of range (have "@ + decimal(count) + " entries)"@
}

impl HostsError {
    /// The error as text: `entry index I out of range (have N entries)`.
    pub fn message(&self) -> (s: String)
        ensures
            match *self {
                HostsError::EntryOutOfRange { index, count } => s@ == out_of_range_text(index as nat, count as nat),
                HostsError::NoSuchEntry { index } => s@ == "entry index "@ + decimal(index as nat) + " out of range"@,
            },
    {
        match self {
            HostsError::EntryOutOfRange { index, count } => {
                let mut s = crate::text::owned("entry index ");
                crate::text::push_decimal(&mut s, *index as u64);
                push_all(&mut s, " out of range (have ");
                crate::text::push_decimal(&mut s, *count as u64);
                push_all(&mut s, " entries)");
                s
            },
            HostsError::NoSuchEntry { index } => {
                let mut s = crate::text::owned("entry index ");
                crate::text::push_decimal(&mut s, *index as u64);
                push_all(&mut s, " out of range");
                s
            },
        }
    }
}

impl HostEntry {
    /// A copy of this entry.
    pub fn duplicate(&self) -> (r: HostEntry)
        ensures
            r@ == self@,
    {
        let mut hs: Vec<String> = Vec::new();
        let mut i: usize = 0;
        while i < self.hostnames.len()
            invariant
                0 <= i <= self.hostnames.len(),
                views(hs@) == views(self.hostnames@).take(i as int),
            decreases self.hostnames.len() - i,
        {
            let h = self.hostnames[i].clone();
            assert(h == self.hostnames@[i as int]);
            proof {
                lemma_views_push(hs@, h);
                assert(views(self.hostnames@).take(i + 1) =~= views(self.hostnames@).take(
                    i as int,
                ).push(h@));
            }
            hs.push(h);
            i += 1;
        }
        assert(views(self.hostnames@).take(i as int) =~= views(self.hostnames@));
        let comment = match &self.comment {
            Some(c) => Some(c.clone()),
            None => None,
        };
        HostEntry { ip: self.ip.clone(), hostnames: hs, comment, enabled: self.enabled }
    }
}

impl HostsFile {
    /// All host entries, enabled and disabled, in file order.
    pub fn entries(&self) -> (r: Vec<&HostEntry>)
        ensures
            entry_ref_views(r@) == entries_of(self@),
    {
        let mut r: Vec<&HostEntry> = Vec::new();
        let mut i: usize = 0;
        while i < self.lines.len()
            invariant
                0 <= i <= self.lines.len(),
                entry_ref_views(r@) == entries_of(self@.take(i as int)),
            decreases self.lines.len() - i,
        {
            proof {
                lemma_entries_step(self@, i as int);
            }
            match &self.lines[i] {
                HostsLine::Entry(e) => {
                    assert(entry_ref_views(r@.push(e)) =~= entry_ref_views(r@).push(e@));
                    r.push(e);
                },
                _ => {},
            }
            i += 1;
        }
        assert(self@.take(i as int) == self@);
        r
    }

    /// The line position of entry `entry_index` (counted among entries only).
    fn locate_entry(&self, entry_index: usize) -> (r: Result<usize, HostsError>)
        ensures
            r is Ok <==> entry_index < entries_of(self@).len(),
            r matches Ok(i) ==> i == entry_positions(self@)[entry_index as int] && i
                < self.lines.len() && self@[i as int] == LineView::Entry(
                entries_of(self@)[entry_index as int],
            ),
            r is Err ==> (r matches Err(HostsError::EntryOutOfRange { index, count }) && index == entry_index
                && count == entries_of(self@).len()),
    {
        let ghost ls = self@;
        proof {
            lemma_entry_positions(ls);
        }
        let mut count: usize = 0;
        let mut i: usize = 0;
        while i < self.lines.len()
            invariant
                0 <= i <= self.lines.len(),
                self@ == ls,
                count == entries_of(ls.take(i as int)).len(),
                count <= entry_index,
                entry_positions(ls).len() == entries_of(ls).len(),
            decreases self.lines.len() - i,
        {
            proof {
                lemma_entries_step(ls, i as int);
                lemma_entry_positions(ls.take(i as int));
            }
            if matches!(self.lines[i], HostsLine::Entry(_)) {
                proof {
                    let ev = ls[i as int]->Entry_0;
                    let t = ls.take(i + 1);
                    assert(t.last() == LineView::Entry(ev));
                    assert(entries_of(t) == entries_of(ls.take(i as int)).push(ev));
                    assert(entry_positions(t) == entry_positions(ls.take(i as int)).push(i as int));
                    lemma_entries_prefix(ls, i + 1);
                }
                if count == entry_index {
                    return Ok(i);
                }
                count += 1;
            }
            i += 1;
        }
        assert(ls.take(i as int) == ls);
        Err(HostsError::EntryOutOfRange { index: entry_index, count })
    }

    /// Flips entry `entry_index` (counted among entries only) between enabled
    /// and disabled.
    pub fn toggle_entry(&mut self, entry_index: usize) -> (r: Result<(), HostsError>)
        ensures
            r is Ok <==> entry_index < entries_of(old(self)@).len(),
            r is Ok ==> final(self)@ == toggled(old(self)@, entry_index as int),
            r is Err ==> (r matches Err(HostsError::EntryOutOfRange { index, count }) && index == entry_index
                && count == entries_of(old(self)@).len() && final(self)@ == old(self)@),
    {
        let i = match self.locate_entry(entry_index) {
            Ok(i) => i,
            Err(e) => return Err(e),
        };
        let ghost ls = self@;
        let e2 = match &self.lines[i] {
            HostsLine::Entry(e) => {
                let mut e2 = e.duplicate();
                e2.enabled = !e2.enabled;
                e2
            },
            _ => {
                assert(false);
                return Ok(());
            },
        };
        self.lines.set(i, HostsLine::Entry(e2));
        assert(self@ =~= toggled(ls, entry_index as int));
        Ok(())
    }

    /// Adds a new, enabled entry at the end of the file.
    pub fn add_entry(&mut self, ip: String, hostnames: Vec<String>, comment: Option<String>)
        ensures
            final(self)@ == old(self)@.push(
                LineView::Entry(new_entry(ip@, views(hostnames@), opt_str_view(comment))),
            ),
    {
        let ghost ls = self@;
        let line = HostsLine::Entry(HostEntry { ip, hostnames, comment, enabled: true });
        self.lines.push(line);
        assert(self@ =~= ls.push(line@));
    }

    /// Adds a new, enabled entry as the first line of the file.
    pub fn add_entry_at_top(&mut self, ip: String, hostnames: Vec<String>, comment: Option<String>)
        ensures
            final(self)@ == seq![
                LineView::Entry(new_entry(ip@, views(hostnames@), opt_str_view(comment))),
            ] + old(self)@,
    {
        let ghost ls = self@;
        let line = HostsLine::Entry(HostEntry { ip, hostnames, comment, enabled: true });
        self.lines.insert(0, line);
        assert(self@ =~= seq![line@] + ls);
    }

    /// Removes entry `entry_index` (counted among entries only).
    pub fn remove_entry(&mut self, entry_index: usize) -> (r: Result<(), HostsError>)
        ensures
            r is Ok <==> entry_index < entries_of(old(self)@).len(),
            r is Ok ==> final(self)@ == old(self)@.remove(
                entry_positions(old(self)@)[entry_index as int],
            ),
            r is Err ==> (r matches Err(HostsError::NoSuchEntry { index }) && index == entry_index
                && final(self)@ == old(self)@),
    {
        let i = match self.locate_entry(entry_index) {
            Ok(i) => i,
            Err(_) => return Err(HostsError::NoSuchEntry { index: entry_index }),
        };
        let ghost ls = self@;
        self.lines.remove(i);
        assert(self@ =~= ls.remove(i as int));
        Ok(())
    }

    /// Gives entry `entry_index` (counted among entries only) a new address,
    /// names and comment, keeping its place and its enabled flag.
    pub fn update_entry(
        &mut self,
        entry_index: usize,
        ip: String,
        hostnames: Vec<String>,
        comment: Option<String>,
    ) -> (r: Result<(), HostsError>)
        ensures
            r is Ok <==> entry_index < entries_of(old(self)@).len(),
            r is Ok ==> final(self)@ == edited(
                old(self)@,
                entry_index as int,
                ip@,
                views(hostnames@),
                opt_str_view(comment),
            ),
            r is Err ==> (r matches Err(HostsError::EntryOutOfRange { index, count }) && index == entry_index
                && count == entries_of(old(self)@).len() && final(self)@ == old(self)@),
    {
        let i = match self.locate_entry(entry_index) {
            Ok(i) => i,
            Err(e) => return Err(e),
        };
        let ghost ls = self@;
        let enabled = match &self.lines[i] {
            HostsLine::Entry(e) => e.enabled,
            _ => {
                assert(false);
                return Ok(());
            },
        };
        self.lines.set(i, HostsLine::Entry(HostEntry { ip, hostnames, comment, enabled }));
        assert(self@ =~= edited(ls, entry_index as int, ip@, views(hostnames@), opt_str_view(comment)));
        Ok(())
    }
}

// ---------------------------------------------------------------------------
// Writing back
// ---------------------------------------------------------------------------

/// The text of an entry: `ip<TAB>names`, then ` # comment` if it has one;
/// a disabled entry is prefixed with `# `.
pub open spec fn entry_text(e: EntryView) -> Seq<char> {
    let prefix: Seq<char> = if e.enabled {
        seq![]
    } else {
        seq!['#', ' ']
    };
    let body = prefix + e.ip + seq!['\t'] + join(e.hostnames, seq![' ']);
    match e.comment {
        Some(c) => body + seq![' ', '#', ' '] + c,
        None => body,
    }
}

/// The text of one line.
pub open spec fn line_text(l: LineView) -> Seq<char> {
    match l {
        LineView::Entry(e) => entry_text(e),
        LineView::Comment(c) => c,
        LineView::Blank => seq![],
    }
}

/// The texts of the lines `ls`.
pub open spec fn line_texts(ls: Seq<LineView>) -> Seq<Seq<char>> {
    ls.map_values(|l: LineView| line_text(l))
}

/// The text of a whole file: its lines joined by `\n`.
pub open spec fn file_text(ls: Seq<LineView>) -> Seq<char> {
    join(line_texts(ls), seq!['\n'])
}


/// The text of an entry.
fn format_entry(entry: &HostEntry) -> (s: String)
    ensures
        s@ == entry_text(entry@),
{
    let mut s = String::new();
    if !entry.enabled {
        push_char(&mut s, '#');
        push_char(&mut s, ' ');
    }
    push_all(&mut s, entry.ip.as_str());
    push_char(&mut s, '\t');
    push_joined(&mut s, &entry.hostnames, ' ');
    match &entry.comment {
        Some(c) => {
            push_char(&mut s, ' ');
            push_char(&mut s, '#');
            push_char(&mut s, ' ');
            push_all(&mut s, c.as_str());
        },
        None => {},
    }
    assert(s@ =~= entry_text(entry@));
    s
}

impl HostsFile {
    /// The file as text: each line written back, joined by `\n`.
    pub fn serialize(&self) -> (s: String)
        ensures
            s@ == file_text(self@),
    {
        let ghost ts = line_texts(self@);
        let mut out = String::new();
        let mut i: usize = 0;
        while i < self.lines.len()
            invariant
                0 <= i <= self.lines.len(),
                ts == line_texts(self@),
                out@ == join(ts.take(i as int), seq!['\n']),
            decreases self.lines.len() - i,
        {
            if i > 0 {
                push_char(&mut out, '\n');
            }
            match &self.lines[i] {
                HostsLine::Entry(e) => {
                    let t = format_entry(e);
                    push_all(&mut out, t.as_str());
                },
                HostsLine::Comment(c) => {
                    push_all(&mut out, c.as_str());
                },
                HostsLine::Blank => {},
            }
            proof {
                let t = ts.take(i + 1);
                assert(t.drop_last() == ts.take(i as int));
                assert(t.last() == line_text(self@[i as int]));
                if i == 0 {
                    assert(join(t, seq!['\n']) == t[0]);
                    assert(ts.take(0) =~= seq![]);
                }
                assert(out@ =~= join(t, seq!['\n']));
            }
            i += 1;
        }
        assert(ts.take(i as int) == ts);
        out
    }

    /// The file as text, as [`HostsFile::serialize`] writes it.
    pub fn to_string(&self) -> (s: String)
        ensures
            s@ == file_text(self@),
    {
        self.serialize()
    }
}

// ---------------------------------------------------------------------------
// Laws of the entry operations
// ---------------------------------------------------------------------------

/// Replacing the line of entry `k` by another entry replaces entry `k` among
/// the entries, and moves no entry.
proof fn lemma_entries_update(ls: Seq<LineView>, k: int, e2: EntryView)
    requires
        0 <= k < entries_of(ls).len(),
    ensures
        entries_of(ls.update(entry_positions(ls)[k], LineView::Entry(e2))) == entries_of(
            ls,
        ).update(k, e2),
        entry_positions(ls.update(entry_positions(ls)[k], LineView::Entry(e2)))
            == entry_positions(ls),
    decreases ls.len(),
{
    lemma_entry_positions(ls);
    let p = entry_positions(ls)[k];
    let n = ls.update(p, LineView::Entry(e2));
    let d = ls.drop_last();
    lemma_entry_positions(d);
    if p == ls.len() - 1 {
        assert(n.drop_last() == d);
        assert(k == entries_of(d).len()) by {
            if ls.last() is Entry {
                if k < entries_of(d).len() {
                    assert(entry_positions(ls)[k] == entry_positions(d)[k]);
                }
            } else {
                assert(entry_positions(ls) == entry_positions(d));
            }
        }
        assert(ls.last() is Entry);
        assert(entries_of(n) =~= entries_of(ls).update(k, e2));
        assert(entry_positions(n) =~= entry_positions(ls));
    } else {
        assert(k < entries_of(d).len() && entry_positions(d)[k] == p) by {
            if ls.last() is Entry {
                if k == entries_of(d).len() {
                    assert(entry_positions(ls)[k] == ls.len() - 1);
                }
            }
        }
        lemma_entries_update(d, k, e2);
        assert(n.drop_last() == d.update(p, LineView::Entry(e2)));
        assert(n.last() == ls.last());
        assert(entries_of(n) =~= entries_of(ls).update(k, e2));
        assert(entry_positions(n) =~= entry_positions(ls));
    }
}

/// Toggling an entry flips that entry's `enabled` flag and changes no other
/// entry.
pub proof fn law_toggle_changes_one_entry(ls: Seq<LineView>, k: int)
    requires
        0 <= k < entries_of(ls).len(),
    ensures
        entries_of(toggled(ls, k)) == entries_of(ls).update(
            k,
            EntryView { enabled: !entries_of(ls)[k].enabled, ..entries_of(ls)[k] },
        ),
{
    let e = entries_of(ls)[k];
    lemma_entries_update(ls, k, EntryView { enabled: !e.enabled, ..e });
}

/// Toggling the same entry twice gives back the same lines.
pub proof fn law_toggle_twice(ls: Seq<LineView>, k: int)
    requires
        0 <= k < entries_of(ls).len(),
    ensures
        toggled(toggled(ls, k), k) == ls,
{
    let e = entries_of(ls)[k];
    let e2 = EntryView { enabled: !e.enabled, ..e };
    lemma_entry_positions(ls);
    lemma_entries_update(ls, k, e2);
    let p = entry_positions(ls)[k];
    let t = toggled(ls, k);
    assert(entries_of(t)[k] == e2);
    assert(entry_positions(t)[k] == p);
    assert(toggled(t, k) =~= ls);
}

/// Editing an entry replaces that entry's address, names and comment, keeps
/// its flag, and changes no other entry.
pub proof fn law_edit_changes_one_entry(
    ls: Seq<LineView>,
    k: int,
    ip: Seq<char>,
    hostnames: Seq<Seq<char>>,
    comment: Option<Seq<char>>,
)
    requires
        0 <= k < entries_of(ls).len(),
    ensures
        entries_of(edited(ls, k, ip, hostnames, comment)) == entries_of(ls).update(
            k,
            EntryView { ip, hostnames, comment, ..entries_of(ls)[k] },
        ),
{
    lemma_entries_update(ls, k, EntryView { ip, hostnames, comment, ..entries_of(ls)[k] });
}

/// Editing entry `k` with the fields of `e`, then toggling it when its flag
/// differs from `e`'s, puts `e` in that entry's line and changes no other
/// line.
pub proof fn law_edit_and_flag(ls: Seq<LineView>, k: int, e: EntryView)
    requires
        0 <= k < entries_of(ls).len(),
    ensures
        ({
            let ed = edited(ls, k, e.ip, e.hostnames, e.comment);
            let fin = if entries_of(ed)[k].enabled != e.enabled {
                toggled(ed, k)
            } else {
                ed
            };
            fin == ls.update(entry_positions(ls)[k], LineView::Entry(e))
        }),
{
    lemma_entry_positions(ls);
    let p = entry_positions(ls)[k];
    let e1 = EntryView { ip: e.ip, hostnames: e.hostnames, comment: e.comment, ..entries_of(ls)[k] };
    lemma_entries_update(ls, k, e1);
    let ed = edited(ls, k, e.ip, e.hostnames, e.comment);
    assert(ed == ls.update(p, LineView::Entry(e1)));
    assert(entries_of(ed)[k] == e1);
    if e1.enabled != e.enabled {
        assert(EntryView { enabled: !e1.enabled, ..e1 } == e);
        assert(toggled(ed, k) =~= ls.update(p, LineView::Entry(e)));
    } else {
        assert(e1 == e);
    }
}

/// Removing the line of entry `k` removes exactly entry `k` from the entries.
pub proof fn law_remove_entry(ls: Seq<LineView>, k: int)
    requires
        0 <= k < entries_of(ls).len(),
    ensures
        entries_of(ls.remove(entry_positions(ls)[k])) == entries_of(ls).remove(k),
    decreases ls.len(),
{
    lemma_entry_positions(ls);
    let p = entry_positions(ls)[k];
    let n = ls.remove(p);
    let d = ls.drop_last();
    lemma_entry_positions(d);
    if p == ls.len() - 1 {
        assert(n == d);
        assert(k == entries_of(d).len()) by {
            if ls.last() is Entry {
                if k < entries_of(d).len() {
                    assert(entry_positions(ls)[k] == entry_positions(d)[k]);
                }
            } else {
                assert(entry_positions(ls) == entry_positions(d));
            }
        }
        assert(ls.last() is Entry);
        assert(entries_of(n) =~= entries_of(ls).remove(k));
    } else {
        assert(k < entries_of(d).len() && entry_positions(d)[k] == p) by {
            if ls.last() is Entry {
                if k == entries_of(d).len() {
                    assert(entry_positions(ls)[k] == ls.len() - 1);
                }
            }
        }
        law_remove_entry(d, k);
        assert(n.drop_last() == d.remove(p));
        assert(n.last() == ls.last());
        assert(entries_of(n) =~= entries_of(ls).remove(k));
    }
}

/// Adding an entry at the end appends it to the entries.
pub proof fn law_add_entry(ls: Seq<LineView>, e: EntryView)
    ensures
        entries_of(ls.push(LineView::Entry(e))) == entries_of(ls).push(e),
{
    assert(ls.push(LineView::Entry(e)).drop_last() == ls);
}

/// Adding an entry at the top puts it first among the entries.
pub proof fn law_add_entry_at_top(ls: Seq<LineView>, e: EntryView)
    ensures
        entries_of(seq![LineView::Entry(e)] + ls) == seq![e] + entries_of(ls),
    decreases ls.len(),
{
    let n = seq![LineView::Entry(e)] + ls;
    if ls.len() == 0 {
        let empty: Seq<LineView> = seq![];
        assert(n.drop_last() =~= empty);
        assert(n.last() == LineView::Entry(e));
        assert(entries_of(empty) =~= seq![]);
        assert(entries_of(n) == entries_of(empty).push(e));
        assert(entries_of(n) =~= seq![e] + entries_of(ls));
    } else {
        law_add_entry_at_top(ls.drop_last(), e);
        assert(n.drop_last() == seq![LineView::Entry(e)] + ls.drop_last());
        assert(n.last() == ls.last());
        match ls.last() {
            LineView::Entry(x) => {
                assert(entries_of(n) == entries_of(n.drop_last()).push(x));
                assert(entries_of(ls) == entries_of(ls.drop_last()).push(x));
            },
            _ => {
                assert(entries_of(n) == entries_of(n.drop_last()));
                assert(entries_of(ls) == entries_of(ls.drop_last()));
            },
        }
        assert(entries_of(n) =~= seq![e] + entries_of(ls));
    }
}

} // verus!
