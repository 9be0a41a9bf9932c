//! The hosts file's round trip: writing a file back and reading it again
//! gives the same lines, for every file read from text, but that a last
//! blank line is not read back, and but for a comment line ending in `\r`,
//! which the text itself cannot carry.
use vstd::prelude::*;
use crate::hosts::{split_comment, entry_of, entry_text, file_of, file_text, line_of, line_text, line_texts, lines_meaning, looks_like_entry, EntryView, LineView};
use crate::text::{first_word, has_char, index_of, is_ws, join, lemma_index_of, lemma_index_of_found, lemma_index_of_none, lines, strip_cr, trim, words, words_acc};
use crate::text_facts::{
    all_blank, close_word, lemma_join_avoid, lemma_join_last, lemma_lines_join,
    lemma_lines_join_newline, lemma_lines_no_newline, lemma_trim_pad, lemma_trim_result, lemma_words_acc_prefix_kept,
    lemma_words_avoid, lemma_words_blank_tail, lemma_words_join, lemma_words_token, plain_token,
    tight,
};

verus! {

/// A word of an entry: nonempty, without blanks or `#`.
pub open spec fn entry_token(w: Seq<char>) -> bool {
    plain_token(w) && !has_char(w, '#')
}

/// An entry that its own text reads back as: plain address and names, a
/// trimmed one-line comment, and, when disabled, an address-like start.
pub open spec fn entry_ok(e: EntryView) -> bool {
    &&& entry_token(e.ip)
    &&& e.hostnames.len() >= 1
    &&& forall|k: int| 0 <= k < e.hostnames.len() ==> entry_token(#[trigger] e.hostnames[k])
    &&& (e.comment matches Some(c) ==> tight(c) && !has_char(c, '\n'))
    &&& (!e.enabled ==> has_char(e.ip, '.') || has_char(e.ip, ':'))
}

/// The address, a tab and the names.
pub open spec fn entry_body(e: EntryView) -> Seq<char> {
    e.ip + seq!['\t'] + join(e.hostnames, seq![' '])
}

/// The trimmed text of an entry written as enabled.
pub open spec fn enabled_trimmed(e: EntryView) -> Seq<char> {
    match e.comment {
        Some(c) => if c.len() > 0 {
            entry_body(e) + seq![' ', '#', ' '] + c
        } else {
            entry_body(e) + seq![' ', '#']
        },
        None => entry_body(e),
    }
}

proof fn lemma_body_facts(e: EntryView)
    requires
        entry_ok(e),
    ensures
        !has_char(entry_body(e), '#'),
        !has_char(entry_body(e), '\n'),
        entry_body(e).len() > 0,
        entry_body(e)[0] == e.ip[0],
        !is_ws(entry_body(e).last()),
        forall|tail: Seq<char>| all_blank(tail) ==> words(#[trigger] (entry_body(e) + tail)) == seq![e.ip] + e.hostnames,
{
    let hs = e.hostnames;
    let j = join(hs, seq![' ']);
    let b = entry_body(e);
    assert forall|k: int| 0 <= k < hs.len() implies !has_char(#[trigger] hs[k], '#') by {
        assert(entry_token(hs[k]));
    }
    assert(!has_char(seq![' '], '#')) by {
        if has_char(seq![' '], '#') {
            let jj = choose|jj: int| 0 <= jj < 1 && seq![' '][jj] == '#';
        }
    }
    lemma_join_avoid(hs, seq![' '], '#');
    assert forall|k: int| 0 <= k < hs.len() implies !has_char(#[trigger] hs[k], '\n') by {
        assert(entry_token(hs[k]));
        if has_char(hs[k], '\n') {
            let jj = choose|jj: int| 0 <= jj < hs[k].len() && hs[k][jj] == '\n';
            assert(!is_ws(hs[k][jj]));
        }
    }
    assert(!has_char(seq![' '], '\n')) by {
        if has_char(seq![' '], '\n') {
            let jj = choose|jj: int| 0 <= jj < 1 && seq![' '][jj] == '\n';
        }
    }
    lemma_join_avoid(hs, seq![' '], '\n');
    assert(entry_token(hs.last()));
    lemma_join_last(hs, seq![' ']);
    assert(b.last() == j.last());
    assert(!is_ws(hs.last().last()));
    assert(b[0] == e.ip[0]);
    assert(!has_char(b, '#')) by {
        if has_char(b, '#') {
            let jj = choose|jj: int| 0 <= jj < b.len() && b[jj] == '#';
            if jj < e.ip.len() {
                assert(e.ip[jj] == '#');
            } else if jj > e.ip.len() {
                assert(j[jj - e.ip.len() - 1] == '#');
            }
        }
    }
    assert(!has_char(b, '\n')) by {
        if has_char(b, '\n') {
            let jj = choose|jj: int| 0 <= jj < b.len() && b[jj] == '\n';
            if jj < e.ip.len() {
                assert(e.ip[jj] == '\n');
                assert(!is_ws(e.ip[jj]));
            } else if jj > e.ip.len() {
                assert(j[jj - e.ip.len() - 1] == '\n');
            }
        }
    }
    assert forall|tail: Seq<char>| all_blank(tail) implies words(#[trigger] (entry_body(e) + tail))
        == seq![e.ip] + e.hostnames by {
        let rest = seq!['\t'] + (j + tail);
        assert(b + tail == e.ip + rest);
        lemma_words_token(e.ip, rest, seq![]);
        assert(rest[0] == '\t');
        assert(is_ws('\t'));
        assert(rest.drop_first() == j + tail);
        assert(words_acc(rest, seq![], e.ip) == words_acc(j + tail, seq![].push(e.ip), seq![]));
        assert forall|k: int| 0 <= k < hs.len() implies plain_token(#[trigger] hs[k]) by {
            assert(entry_token(hs[k]));
        }
        lemma_words_join(hs, tail, seq![].push(e.ip));
        lemma_words_blank_tail(tail, seq![].push(e.ip) + hs.drop_last(), hs.last());
        assert((seq![].push(e.ip) + hs.drop_last()).push(hs.last()) =~= seq![e.ip] + hs);
    }
}

/// The trimmed enabled text of an entry reads back as the entry, enabled.
proof fn lemma_enabled_round_trip(e: EntryView)
    requires
        entry_ok(e),
    ensures
        entry_of(enabled_trimmed(e)) == Some(EntryView { enabled: true, ..e }),
        tight(enabled_trimmed(e)),
        enabled_trimmed(e)[0] == e.ip[0],
        !has_char(enabled_trimmed(e), '\n'),
        trim(entry_text(EntryView { enabled: true, ..e })) == enabled_trimmed(e),
        exists|z: Seq<char>| all_blank(z) && entry_text(EntryView { enabled: true, ..e }) == enabled_trimmed(e) + z,
        first_word(enabled_trimmed(e)) == e.ip,
{
    lemma_body_facts(e);
    let b = entry_body(e);
    let t = enabled_trimmed(e);
    let ee = EntryView { enabled: true, ..e };
    let empty: Seq<char> = seq![];
    assert(all_blank(empty));
    assert(entry_text(ee) == match e.comment {
        Some(c) => b + seq![' ', '#', ' '] + c,
        None => b,
    });
    match e.comment {
        None => {
            lemma_index_of_none(t, '#');
            assert(b + empty == b);
            assert(words(b) == seq![e.ip] + e.hostnames);
            lemma_trim_pad(empty, b, empty);
            assert(empty + b + empty == b);
            assert(entry_text(ee) == t + empty);
            let parts = seq![e.ip] + e.hostnames;
            assert(parts.subrange(1, parts.len() as int) =~= e.hostnames);
            assert(split_comment(t) == (t, None::<Seq<char>>));
        },
        Some(c) => {
            let p = b.len() as int + 1;
            assert(t[p] == '#');
            assert forall|jj: int| 0 <= jj < p implies t[jj] != '#' by {
                if jj < b.len() {
                    assert(t[jj] == b[jj]);
                    if b[jj] == '#' {
                        assert(has_char(b, '#'));
                    }
                }
            }
            lemma_index_of_found(t, '#', p);
            let sp = seq![' '];
            assert(all_blank(sp)) by {
                assert(is_ws(' '));
            }
            assert(t.subrange(0, p) == b + sp);
            assert(words(b + sp) == seq![e.ip] + e.hostnames);
            let parts = seq![e.ip] + e.hostnames;
            assert(parts.subrange(1, parts.len() as int) =~= e.hostnames);
            if c.len() > 0 {
                assert(t.subrange(p + 1, t.len() as int) == sp + c);
                lemma_trim_pad(sp, c, empty);
                assert(sp + c + empty == sp + c);
                assert(split_comment(t) == (b + sp, Some(c)));
                assert(tight(t)) by {
                    assert(t.last() == c.last());
                }
                lemma_trim_pad(empty, t, empty);
                assert(empty + t + empty == t);
                assert(entry_text(ee) == t);
                assert(entry_text(ee) == t + empty);
                assert(!has_char(t, '\n')) by {
                    if has_char(t, '\n') {
                        let jj = choose|jj: int| 0 <= jj < t.len() && t[jj] == '\n';
                        if jj < b.len() {
                            assert(b[jj] == '\n');
                        } else if jj >= b.len() + 3 {
                            assert(c[jj - b.len() - 3] == '\n');
                        }
                    }
                }
            } else {
                assert(t.subrange(p + 1, t.len() as int) =~= empty);
                lemma_trim_pad(empty, empty, empty);
                assert(empty + empty + empty =~= empty);
                assert(c =~= empty);
                assert(split_comment(t) == (b + sp, Some(c)));
                assert(tight(t)) by {
                    assert(t.last() == '#');
                }
                assert(entry_text(ee) =~= t + sp);
                lemma_trim_pad(empty, t, sp);
                assert(empty + t + sp == t + sp);
                assert(c =~= empty);
                assert(!has_char(t, '\n')) by {
                    if has_char(t, '\n') {
                        let jj = choose|jj: int| 0 <= jj < t.len() && t[jj] == '\n';
                        if jj < b.len() {
                            assert(b[jj] == '\n');
                        }
                    }
                }
            }
        },
    }
    // the first word is the address
    let rest = t.subrange(e.ip.len() as int, t.len() as int);
    assert(t == e.ip + rest);
    assert(rest[0] == '\t');
    lemma_words_token(e.ip, rest, seq![]);
    assert(words_acc(rest, seq![], e.ip) == words_acc(rest.drop_first(), seq![].push(e.ip), seq![]));
    lemma_words_acc_prefix_kept(rest.drop_first(), seq![].push(e.ip), seq![]);
}

/// An entry in good form reads back from its own text.
pub proof fn law_entry_text_round_trip(e: EntryView)
    requires
        entry_ok(e),
    ensures
        line_of(entry_text(e)) == LineView::Entry(e),
{
    lemma_enabled_round_trip(e);
    let t = enabled_trimmed(e);
    let ee = EntryView { enabled: true, ..e };
    let empty: Seq<char> = seq![];
    if e.enabled {
        assert(ee == e);
        assert(trim(entry_text(e))[0] == e.ip[0]);
        assert(entry_token(e.ip));
        assert(e.ip[0] != '#') by {
            if e.ip[0] == '#' {
                assert(has_char(e.ip, '#'));
            }
        }
    } else {
        let z = choose|z: Seq<char>| all_blank(z) && entry_text(ee) == t + z;
        let hp = seq!['#', ' '];
        assert(entry_text(e) == hp + entry_text(ee));
        assert(entry_text(e) == empty + (hp + t) + z);
        assert(tight(hp + t)) by {
            assert((hp + t).last() == t.last());
        }
        lemma_trim_pad(empty, hp + t, z);
        let tt = trim(entry_text(e));
        assert(tt == hp + t);
        assert(tt[0] == '#');
        let sp = seq![' '];
        assert(all_blank(sp)) by {
            assert(is_ws(' '));
        }
        assert(tt.drop_first() == sp + t);
        lemma_trim_pad(sp, t, empty);
        assert(sp + t + empty == sp + t);
        assert(looks_like_entry(t));
        assert(EntryView { enabled: false, ..ee } == e);
    }
}

/// A line in good form: an entry that reads back from its text, a comment
/// kept verbatim, or a blank line.
pub open spec fn line_ok(l: LineView) -> bool {
    match l {
        LineView::Entry(e) => entry_ok(e),
        LineView::Comment(c) => line_of(c) == LineView::Comment(c) && !has_char(c, '\n'),
        LineView::Blank => true,
    }
}

/// Every line of a file read from text is in good form.
pub proof fn law_parsed_lines_ok(s: Seq<char>)
    ensures
        forall|i: int| 0 <= i < file_of(s).len() ==> line_ok(#[trigger] file_of(s)[i]),
{
    lemma_lines_no_newline(s, seq![], seq![]);
    assert forall|i: int| 0 <= i < file_of(s).len() implies line_ok(#[trigger] file_of(s)[i]) by {
        let l = lines(s)[i];
        assert(file_of(s)[i] == line_of(l));
        assert(!has_char(l, '\n'));
        lemma_line_of_ok(l);
    }
}

proof fn lemma_entry_of_ok(l: Seq<char>)
    requires
        !has_char(l, '\n'),
        entry_of(l) is Some,
    ensures
        entry_ok(EntryView { enabled: true, ..entry_of(l)->Some_0 }),
{
    let e = entry_of(l)->Some_0;
    lemma_index_of(l, '#');
    let main = match index_of(l, '#') {
        Some(p) => l.subrange(0, p),
        None => l,
    };
    assert(!has_char(main, '#')) by {
        if has_char(main, '#') {
            let jj = choose|jj: int| 0 <= jj < main.len() && main[jj] == '#';
            assert(l[jj] == '#');
        }
    }
    lemma_words_avoid(main, seq![], seq![], '#');
    let parts = words(main);
    assert(e.ip == parts[0]);
    assert(entry_token(e.ip));
    assert forall|k: int| 0 <= k < e.hostnames.len() implies entry_token(#[trigger] e.hostnames[k]) by {
        assert(e.hostnames[k] == parts[k + 1]);
    }
    match e.comment {
        Some(c) => {
            let p = index_of(l, '#')->Some_0;
            let x = l.subrange(p + 1, l.len() as int);
            assert(!has_char(x, '\n')) by {
                if has_char(x, '\n') {
                    let jj = choose|jj: int| 0 <= jj < x.len() && x[jj] == '\n';
                    assert(l[p + 1 + jj] == '\n');
                }
            }
            lemma_trim_result(x, '\n');
        },
        None => {},
    }
}

proof fn lemma_line_of_ok(l: Seq<char>)
    requires
        !has_char(l, '\n'),
    ensures
        line_ok(line_of(l)),
{
    let t = trim(l);
    lemma_trim_result(l, '\n');
    if t.len() == 0 {
    } else if t[0] == '#' {
        let rest = trim(t.drop_first());
        assert(!has_char(t.drop_first(), '\n')) by {
            if has_char(t.drop_first(), '\n') {
                let jj = choose|jj: int| 0 <= jj < t.drop_first().len() && t.drop_first()[jj] == '\n';
                assert(t[jj + 1] == '\n');
            }
        }
        lemma_trim_result(t.drop_first(), '\n');
        if looks_like_entry(rest) && entry_of(rest) is Some {
            lemma_entry_of_ok(rest);
            let e = entry_of(rest)->Some_0;
            // the first word of `rest` is the address
            lemma_first_word_is_ip(rest);
        } else {
            assert(line_of(l) == LineView::Comment(l));
        }
    } else {
        match entry_of(t) {
            Some(e) => {
                lemma_entry_of_ok(t);
                assert(EntryView { enabled: true, ..e } == e);
            },
            None => {},
        }
    }
}

/// When `l` holds an entry, its first word is the entry's address.
proof fn lemma_first_word_is_ip(l: Seq<char>)
    requires
        entry_of(l) is Some,
    ensures
        first_word(l) == entry_of(l)->Some_0.ip,
{
    lemma_index_of(l, '#');
    let main = match index_of(l, '#') {
        Some(p) => l.subrange(0, p),
        None => l,
    };
    let tail = l.subrange(main.len() as int, l.len() as int);
    assert(l == main + tail);
    crate::text_facts::lemma_words_concat(main, tail, seq![], seq![]);
    let st = crate::text_facts::words_state(main, seq![], seq![]);
    crate::text_facts::lemma_words_state_close(main, seq![], seq![]);
    assert(words(main) == close_word(st.0, st.1));
    assert(words(main).len() >= 2);
    assert(st.0.len() >= 1);
    assert(st.0[0] == words(main)[0]) by {
        if st.1.len() > 0 {
            assert(close_word(st.0, st.1) == st.0.push(st.1));
        }
    }
    lemma_words_acc_prefix_kept(tail, st.0, st.1);
    assert(words(l) == words_acc(tail, st.0, st.1));
}

/// A file whose lines are in good form, none but the last ending its text in
/// `\r`, and not ending in a blank line, reads back from its own text.
pub proof fn law_file_text_round_trip(ls: Seq<LineView>)
    requires
        forall|i: int| 0 <= i < ls.len() ==> line_ok(#[trigger] ls[i]),
        forall|i: int| 0 <= i < ls.len() - 1 ==> strip_cr(#[trigger] line_text(ls[i])) == line_text(ls[i]),
        ls.len() == 0 || !(ls.last() is Blank),
    ensures
        file_of(file_text(ls)) == ls,
{
    let ts = line_texts(ls);
    if ls.len() == 0 {
        assert(file_text(ls) =~= seq![]);
        assert(lines(seq![]) =~= seq![]);
        assert(file_of(file_text(ls)) =~= ls);
    } else {
        assert forall|k: int| 0 <= k < ts.len() implies !has_char(#[trigger] ts[k], '\n') by {
            lemma_line_text_no_newline(ls[k]);
        }
        assert forall|k: int| 0 <= k < ts.len() - 1 implies strip_cr(#[trigger] ts[k]) == ts[k] by {
            assert(ts[k] == line_text(ls[k]));
        }
        assert(ts.last().len() > 0) by {
            lemma_line_text_nonempty(ls.last());
        }
        lemma_lines_join(ts, seq![]);
        assert(lines(file_text(ls)) == seq![] + ts);
        assert(seq![] + ts == ts);
        assert forall|k: int| 0 <= k < ls.len() implies #[trigger] lines_meaning(ts)[k] == ls[k] by {
            lemma_line_round_trip(ls[k]);
        }
        assert(file_of(file_text(ls)) =~= ls);
    }
}

proof fn lemma_line_round_trip(l: LineView)
    requires
        line_ok(l),
    ensures
        line_of(line_text(l)) == l,
{
    match l {
        LineView::Entry(e) => {
            law_entry_text_round_trip(e);
        },
        LineView::Comment(c) => {},
        LineView::Blank => {
            let empty: Seq<char> = seq![];
            assert(trim(empty) =~= empty);
        },
    }
}

proof fn lemma_line_text_no_newline(l: LineView)
    requires
        line_ok(l),
    ensures
        !has_char(line_text(l), '\n'),
{
    match l {
        LineView::Entry(e) => {
            lemma_enabled_round_trip(e);
            let t = enabled_trimmed(e);
            let ee = EntryView { enabled: true, ..e };
            let z = choose|z: Seq<char>| all_blank(z) && entry_text(ee) == t + z;
            let full = if e.enabled {
                t + z
            } else {
                seq!['#', ' '] + (t + z)
            };
            assert(entry_text(e) == full);
            if has_char(full, '\n') {
                let jj = choose|jj: int| 0 <= jj < full.len() && full[jj] == '\n';
                let off: int = if e.enabled { 0 } else { 2 };
                if jj - off < t.len() {
                    assert(t[jj - off] == '\n');
                } else {
                    assert(z[jj - off - t.len()] == '\n');
                    assert(is_ws(z[jj - off - t.len()]));
                }
            }
        },
        LineView::Comment(c) => {},
        LineView::Blank => {},
    }
}

proof fn lemma_line_text_nonempty(l: LineView)
    requires
        line_ok(l),
        !(l is Blank),
    ensures
        line_text(l).len() > 0,
{
    match l {
        LineView::Entry(e) => {
            lemma_body_facts(e);
        },
        LineView::Comment(c) => {
            if c.len() == 0 {
                let empty: Seq<char> = seq![];
                assert(c =~= empty);
                assert(trim(empty) =~= empty);
            }
        },
        LineView::Blank => {},
    }
}

/// A file whose lines are in good form and end their texts in no `\r`, and
/// whose last line is blank, reads back from its own text without that last
/// blank line: writing it leaves a final line break, which ends no line.
pub proof fn law_file_text_drops_final_blank(ls: Seq<LineView>)
    requires
        ls.len() >= 1,
        ls.last() is Blank,
        forall|i: int| 0 <= i < ls.len() ==> line_ok(#[trigger] ls[i]),
        forall|i: int| 0 <= i < ls.len() - 1 ==> strip_cr(#[trigger] line_text(ls[i])) == line_text(ls[i]),
    ensures
        file_of(file_text(ls)) == ls.drop_last(),
{
    let g = ls.drop_last();
    let ts = line_texts(ls);
    let gs = line_texts(g);
    assert(ts.last() =~= Seq::<char>::empty());
    if g.len() == 0 {
        assert(ts.len() == 1);
        assert(file_text(ls) == ts[0]);
        assert(lines(Seq::<char>::empty()) =~= Seq::<Seq<char>>::empty());
        assert(file_of(file_text(ls)) =~= g);
    } else {
        assert(ts.drop_last() =~= gs);
        assert(file_text(ls) == join(gs, seq!['\n']) + seq!['\n'] + Seq::<char>::empty());
        assert(join(gs, seq!['\n']) + seq!['\n'] + Seq::<char>::empty() =~= join(gs, seq!['\n']) + seq!['\n']);
        assert forall|k: int| 0 <= k < gs.len() implies !has_char(#[trigger] gs[k], '\n') by {
            assert(gs[k] == line_text(ls[k]));
            lemma_line_text_no_newline(ls[k]);
        }
        assert forall|k: int| 0 <= k < gs.len() implies strip_cr(#[trigger] gs[k]) == gs[k] by {
            assert(gs[k] == line_text(ls[k]));
        }
        lemma_lines_join_newline(gs, seq![]);
        assert(lines(file_text(ls)) == seq![] + gs);
        assert(seq![] + gs == gs);
        assert forall|k: int| 0 <= k < g.len() implies #[trigger] lines_meaning(gs)[k] == g[k] by {
            assert(g[k] == ls[k]);
            lemma_line_round_trip(ls[k]);
        }
        assert(file_of(file_text(ls)) =~= g);
    }
}

/// What reading back the written text of the lines `f` gives: the same
/// lines, but for a last blank line, which is not read back.
pub open spec fn read_back(f: Seq<LineView>) -> Seq<LineView> {
    if f.len() > 0 && f.last() is Blank {
        f.drop_last()
    } else {
        f
    }
}

/// Reading a file from text, writing it back and reading that gives the same
/// lines, but for a last blank line, which is not read back (a final empty
/// line writes as nothing after the last line break); the entries are all
/// the same. The one exception is a comment line, not the last, that ends
/// in `\r` (read back, the `\r` before the line break is dropped).
pub proof fn law_parse_write_parse(s: Seq<char>)
    requires
        forall|i: int|
            0 <= i < file_of(s).len() - 1 ==> (#[trigger] file_of(s)[i] matches LineView::Comment(c)
                ==> strip_cr(c) == c),
    ensures
        file_of(file_text(file_of(s))) == read_back(file_of(s)),
        crate::hosts::entries_of(file_of(file_text(file_of(s)))) == crate::hosts::entries_of(file_of(s)),
{
    let f = file_of(s);
    law_parsed_lines_ok(s);
    assert forall|i: int| 0 <= i < f.len() - 1 implies strip_cr(#[trigger] line_text(f[i])) == line_text(f[i]) by {
        assert(line_ok(f[i]));
        match f[i] {
            LineView::Entry(e) => {
                lemma_enabled_round_trip(e);
                lemma_line_text_nonempty(f[i]);
                lemma_entry_text_tail(e);
            },
            LineView::Comment(c) => {},
            LineView::Blank => {},
        }
    }
    if f.len() > 0 && f.last() is Blank {
        law_file_text_drops_final_blank(f);
    } else {
        law_file_text_round_trip(f);
    }
}

/// The text of an entry in good form does not end in `\r`.
proof fn lemma_entry_text_tail(e: EntryView)
    requires
        entry_ok(e),
    ensures
        strip_cr(entry_text(e)) == entry_text(e),
{
    lemma_body_facts(e);
    let b = entry_body(e);
    let x = entry_text(e);
    let pre: Seq<char> = if e.enabled { seq![] } else { seq!['#', ' '] };
    assert(is_ws('\r'));
    match e.comment {
        Some(c) => {
            if c.len() > 0 {
                assert(x.last() == c.last());
            } else {
                assert(x.last() == ' ');
            }
        },
        None => {
            assert(x == pre + b);
            assert(x.last() == b.last());
        },
    }
}

} // verus!
