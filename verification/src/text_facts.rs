//! Facts about the text model: words, lines, trimming and searching, as the
//! parsers and their round-trip laws need them.
use vstd::prelude::*;
use crate::text::{
    first_word, has_char, index_of, is_ws, join, lemma_index_of, lemma_index_of_found, lemma_trim_end_cut,
    lemma_trim_end_prefix, lemma_trim_start_prefix, lemma_trim_start_skip, lines, lines_acc,
    strip_cr, trim, trim_end, trim_start, words, words_acc,
};

verus! {

pub proof fn lemma_words_acc_ws_prefix(s: Seq<char>, i: int, done: Seq<Seq<char>>)
    requires
        0 <= i <= s.len(),
        forall|j: int| 0 <= j < i ==> is_ws(#[trigger] s[j]),
    ensures
        words_acc(s, done, seq![]) == words_acc(s.subrange(i, s.len() as int), done, seq![]),
    decreases i,
{
    if i == 0 {
        assert(s.subrange(0, s.len() as int) == s);
    } else {
        assert(is_ws(s[0]));
        let t = s.drop_first();
        assert forall|j: int| 0 <= j < i - 1 implies is_ws(#[trigger] t[j]) by {
            assert(t[j] == s[j + 1]);
        }
        lemma_words_acc_ws_prefix(t, i - 1, done);
        assert(t.subrange(i - 1, t.len() as int) == s.subrange(i, s.len() as int));
    }
}

pub proof fn lemma_words_acc_run(s: Seq<char>, i: int, done: Seq<Seq<char>>, cur: Seq<char>)
    requires
        0 <= i <= s.len(),
        forall|j: int| 0 <= j < i ==> !is_ws(#[trigger] s[j]),
    ensures
        words_acc(s, done, cur) == words_acc(
            s.subrange(i, s.len() as int),
            done,
            cur + s.subrange(0, i),
        ),
    decreases i,
{
    if i == 0 {
        assert(s.subrange(0, s.len() as int) == s);
        assert(cur + s.subrange(0, 0) == cur);
    } else {
        assert(!is_ws(s[0]));
        let t = s.drop_first();
        assert forall|j: int| 0 <= j < i - 1 implies !is_ws(#[trigger] t[j]) by {
            assert(t[j] == s[j + 1]);
        }
        lemma_words_acc_run(t, i - 1, done, cur.push(s[0]));
        assert(t.subrange(i - 1, t.len() as int) == s.subrange(i, s.len() as int));
        assert(cur.push(s[0]) + t.subrange(0, i - 1) == cur + s.subrange(0, i));
    }
}

/// Words already found stay in place, and a word in progress is kept.
pub proof fn lemma_words_acc_prefix_kept(s: Seq<char>, done: Seq<Seq<char>>, cur: Seq<char>)
    ensures
        words_acc(s, done, cur).len() >= done.len(),
        forall|k: int| 0 <= k < done.len() ==> words_acc(s, done, cur)[k] == done[k],
        cur.len() > 0 ==> words_acc(s, done, cur).len() > done.len(),
    decreases s.len(),
{
    if s.len() > 0 {
        if is_ws(s[0]) {
            let d2 = if cur.len() == 0 {
                done
            } else {
                done.push(cur)
            };
            lemma_words_acc_prefix_kept(s.drop_first(), d2, seq![]);
            assert forall|k: int| 0 <= k < done.len() implies d2[k] == done[k] by {}
            if cur.len() > 0 {
                assert(d2[done.len() as int] == cur);
            }
        } else {
            lemma_words_acc_prefix_kept(s.drop_first(), done, cur.push(s[0]));
        }
    }
}

/// The first word of `s[lo..hi]` is `s[a..e]` when `s[lo..a]` is blank and
/// `s[a..e]` is a maximal run of non-blanks.
pub proof fn lemma_first_word(s: Seq<char>, lo: int, hi: int, a: int, e: int)
    requires
        0 <= lo <= a <= e <= hi <= s.len(),
        forall|j: int| lo <= j < a ==> is_ws(#[trigger] s[j]),
        forall|j: int| a <= j < e ==> !is_ws(#[trigger] s[j]),
        e == hi || is_ws(s[e]),
        a < e || a == hi,
    ensures
        first_word(s.subrange(lo, hi)) == s.subrange(a, e),
{
    let l = s.subrange(lo, hi);
    assert forall|j: int| 0 <= j < a - lo implies is_ws(#[trigger] l[j]) by {
        assert(l[j] == s[lo + j]);
    }
    lemma_words_acc_ws_prefix(l, a - lo, seq![]);
    let t = l.subrange(a - lo, l.len() as int);
    assert(t == s.subrange(a, hi));
    assert forall|j: int| 0 <= j < e - a implies !is_ws(#[trigger] t[j]) by {
        assert(t[j] == s[a + j]);
    }
    lemma_words_acc_run(t, e - a, seq![], seq![]);
    let rest = t.subrange(e - a, t.len() as int);
    assert(seq![] + t.subrange(0, e - a) == s.subrange(a, e));
    if e > a {
        if rest.len() > 0 {
            assert(rest[0] == s[e]);
        }
        lemma_words_acc_first(rest, s.subrange(a, e));
    } else {
        assert(rest.len() == 0);
        assert(s.subrange(a, e) =~= seq![]);
    }
}

pub proof fn lemma_words_acc_first(rest: Seq<char>, w: Seq<char>)
    requires
        w.len() > 0,
        rest.len() == 0 || is_ws(rest[0]),
    ensures
        words_acc(rest, seq![], w).len() > 0,
        words_acc(rest, seq![], w)[0] == w,
{
    let e: Seq<Seq<char>> = seq![];
    if rest.len() == 0 {
        assert(words_acc(rest, e, w) == e.push(w));
        assert(e.push(w)[0] == w);
    } else {
        assert(words_acc(rest, e, w) == words_acc(rest.drop_first(), e.push(w), seq![]));
        lemma_words_acc_prefix_kept(rest.drop_first(), e.push(w), seq![]);
        assert(e.push(w)[0] == w);
    }
}



/// A word can be closed off: `cur` is added to `done` unless it is empty.
pub open spec fn close_word(done: Seq<Seq<char>>, cur: Seq<char>) -> Seq<Seq<char>> {
    if cur.len() == 0 {
        done
    } else {
        done.push(cur)
    }
}

/// The scanning state (words found, word in progress) after reading `s`.
pub open spec fn words_state(s: Seq<char>, done: Seq<Seq<char>>, cur: Seq<char>) -> (
    Seq<Seq<char>>,
    Seq<char>,
)
    decreases s.len(),
{
    if s.len() == 0 {
        (done, cur)
    } else if is_ws(s[0]) {
        words_state(s.drop_first(), close_word(done, cur), seq![])
    } else {
        words_state(s.drop_first(), done, cur.push(s[0]))
    }
}

/// A nonempty run of non-blanks.
pub open spec fn plain_token(w: Seq<char>) -> bool {
    w.len() > 0 && forall|j: int| 0 <= j < w.len() ==> !is_ws(#[trigger] w[j])
}

/// Whether every character of `s` is blank.
pub open spec fn all_blank(s: Seq<char>) -> bool {
    forall|j: int| 0 <= j < s.len() ==> is_ws(#[trigger] s[j])
}

/// Whether `s` neither starts nor ends with a blank.
pub open spec fn tight(s: Seq<char>) -> bool {
    s.len() == 0 || (!is_ws(s[0]) && !is_ws(s.last()))
}

/// Scanning `a + b` is scanning `b` from the state after `a`.
pub proof fn lemma_words_concat(a: Seq<char>, b: Seq<char>, done: Seq<Seq<char>>, cur: Seq<char>)
    ensures
        words_acc(a + b, done, cur) == words_acc(
            b,
            words_state(a, done, cur).0,
            words_state(a, done, cur).1,
        ),
    decreases a.len(),
{
    if a.len() == 0 {
        assert(a + b == b);
    } else {
        assert((a + b).drop_first() == a.drop_first() + b);
        assert((a + b)[0] == a[0]);
        if is_ws(a[0]) {
            lemma_words_concat(a.drop_first(), b, close_word(done, cur), seq![]);
        } else {
            lemma_words_concat(a.drop_first(), b, done, cur.push(a[0]));
        }
    }
}

/// The words of `s` are the final state with its word in progress closed.
pub proof fn lemma_words_state_close(s: Seq<char>, done: Seq<Seq<char>>, cur: Seq<char>)
    ensures
        words_acc(s, done, cur) == close_word(words_state(s, done, cur).0, words_state(s, done, cur).1),
    decreases s.len(),
{
    if s.len() > 0 {
        if is_ws(s[0]) {
            lemma_words_state_close(s.drop_first(), close_word(done, cur), seq![]);
        } else {
            lemma_words_state_close(s.drop_first(), done, cur.push(s[0]));
        }
    }
}

/// The words found so far stay in the scanning state.
pub proof fn lemma_words_state_kept(s: Seq<char>, done: Seq<Seq<char>>, cur: Seq<char>)
    ensures
        words_state(s, done, cur).0.len() >= done.len(),
        forall|k: int| 0 <= k < done.len() ==> words_state(s, done, cur).0[k] == done[k],
    decreases s.len(),
{
    if s.len() > 0 {
        if is_ws(s[0]) {
            lemma_words_state_kept(s.drop_first(), close_word(done, cur), seq![]);
            assert forall|k: int| 0 <= k < done.len() implies close_word(done, cur)[k] == done[k] by {}
        } else {
            lemma_words_state_kept(s.drop_first(), done, cur.push(s[0]));
        }
    }
}

/// A plain token followed by the rest: scanning carries the token as the word
/// in progress.
pub proof fn lemma_words_token(w: Seq<char>, rest: Seq<char>, done: Seq<Seq<char>>)
    requires
        forall|j: int| 0 <= j < w.len() ==> !is_ws(#[trigger] w[j]),
    ensures
        words_acc(w + rest, done, seq![]) == words_acc(rest, done, w),
{
    let s = w + rest;
    assert forall|j: int| 0 <= j < w.len() implies !is_ws(#[trigger] s[j]) by {
        assert(s[j] == w[j]);
    }
    lemma_words_acc_run(s, w.len() as int, done, seq![]);
    assert(s.subrange(w.len() as int, s.len() as int) == rest);
    assert(seq![] + s.subrange(0, w.len() as int) == w);
}

/// Blanks after a word in progress only close it.
pub proof fn lemma_words_blank_tail(tail: Seq<char>, done: Seq<Seq<char>>, cur: Seq<char>)
    requires
        all_blank(tail),
    ensures
        tail.len() > 0 ==> words_acc(tail, done, cur) == close_word(done, cur),
        tail.len() == 0 ==> words_acc(tail, done, cur) == close_word(done, cur),
    decreases tail.len(),
{
    if tail.len() > 0 {
        assert(is_ws(tail[0]));
        let t = tail.drop_first();
        assert forall|j: int| 0 <= j < t.len() implies is_ws(#[trigger] t[j]) by {
            assert(t[j] == tail[j + 1]);
        }
        lemma_words_blank_tail(t, close_word(done, cur), seq![]);
    }
}

/// `join` seen from the front.
pub proof fn lemma_join_first(parts: Seq<Seq<char>>, sep: Seq<char>)
    requires
        parts.len() >= 2,
    ensures
        join(parts, sep) == parts[0] + sep + join(parts.drop_first(), sep),
    decreases parts.len(),
{
    let df = parts.drop_first();
    if parts.len() == 2 {
        assert(parts.drop_last().len() == 1);
        assert(join(parts.drop_last(), sep) == parts[0]);
        assert(df.len() == 1);
        assert(join(df, sep) == df[0]);
    } else {
        let dl = parts.drop_last();
        lemma_join_first(dl, sep);
        assert(dl.drop_first() == df.drop_last());
        assert(df.last() == parts.last());
        assert(join(parts, sep) =~= parts[0] + sep + join(df, sep));
    }
}

/// The words of plain tokens joined by spaces, followed by a tail that starts
/// with a blank (or is empty): all tokens but the last are found, the last is
/// in progress.
pub proof fn lemma_words_join(hs: Seq<Seq<char>>, tail: Seq<char>, done: Seq<Seq<char>>)
    requires
        hs.len() >= 1,
        forall|k: int| 0 <= k < hs.len() ==> plain_token(#[trigger] hs[k]),
    ensures
        words_acc(join(hs, seq![' ']) + tail, done, seq![]) == words_acc(
            tail,
            done + hs.drop_last(),
            hs.last(),
        ),
    decreases hs.len(),
{
    let h0 = hs[0];
    assert(plain_token(h0));
    if hs.len() == 1 {
        assert(join(hs, seq![' ']) == h0);
        lemma_words_token(h0, tail, done);
        assert(done + hs.drop_last() == done);
    } else {
        let df = hs.drop_first();
        lemma_join_first(hs, seq![' ']);
        let x = join(df, seq![' ']) + tail;
        assert(join(hs, seq![' ']) + tail == h0 + (seq![' '] + x));
        lemma_words_token(h0, seq![' '] + x, done);
        let sx = seq![' '] + x;
        assert(sx[0] == ' ');
        assert(is_ws(' '));
        assert(sx.drop_first() == x);
        assert forall|k: int| 0 <= k < df.len() implies plain_token(#[trigger] df[k]) by {
            assert(df[k] == hs[k + 1]);
        }
        lemma_words_join(df, tail, done.push(h0));
        assert(done.push(h0) + df.drop_last() == done + hs.drop_last());
        assert(df.last() == hs.last());
    }
}

/// Every word avoids the characters that `s`, the words found and the word in
/// progress avoid, and is a plain token.
pub proof fn lemma_words_avoid(s: Seq<char>, done: Seq<Seq<char>>, cur: Seq<char>, c: char)
    requires
        !has_char(s, c),
        forall|k: int| 0 <= k < done.len() ==> plain_token(#[trigger] done[k]) && !has_char(done[k], c),
        forall|j: int| 0 <= j < cur.len() ==> !is_ws(#[trigger] cur[j]) && cur[j] != c,
    ensures
        forall|k: int|
            0 <= k < words_acc(s, done, cur).len() ==> plain_token(#[trigger] words_acc(s, done, cur)[k])
                && !has_char(words_acc(s, done, cur)[k], c),
    decreases s.len(),
{
    if s.len() == 0 {
        assert(words_acc(s, done, cur) == close_word(done, cur));
        if cur.len() > 0 {
            let r = done.push(cur);
            assert forall|k: int| 0 <= k < r.len() implies plain_token(#[trigger] r[k]) && !has_char(r[k], c) by {
                if k == done.len() {
                    assert(r[k] == cur);
                }
            }
        }
    } else {
        let t = s.drop_first();
        assert(s[0] != c);
        assert(!has_char(t, c)) by {
            if has_char(t, c) {
                let j = choose|j: int| 0 <= j < t.len() && t[j] == c;
                assert(s[j + 1] == c);
            }
        }
        if is_ws(s[0]) {
            let d2 = close_word(done, cur);
            assert forall|k: int| 0 <= k < d2.len() implies plain_token(#[trigger] d2[k]) && !has_char(d2[k], c) by {
                if k == done.len() {
                    assert(d2[k] == cur);
                }
            }
            lemma_words_avoid(t, d2, seq![], c);
            assert(words_acc(s, done, cur) == words_acc(t, d2, seq![]));
        } else {
            let c2 = cur.push(s[0]);
            assert forall|j: int| 0 <= j < c2.len() implies !is_ws(#[trigger] c2[j]) && c2[j] != c by {
                if j < cur.len() {
                    assert(c2[j] == cur[j]);
                }
            }
            lemma_words_avoid(t, done, c2, c);
            assert(words_acc(s, done, cur) == words_acc(t, done, c2));
        }
    }
}

/// Scanning lines: a stretch without `\n` extends the line in progress.
pub proof fn lemma_lines_run(t: Seq<char>, x: Seq<char>, done: Seq<Seq<char>>, cur: Seq<char>)
    requires
        !has_char(t, '\n'),
    ensures
        lines_acc(t + x, done, cur) == lines_acc(x, done, cur + t),
    decreases t.len(),
{
    if t.len() == 0 {
        assert(t + x == x);
        assert(cur + t == cur);
    } else {
        assert(t[0] != '\n');
        let s = t + x;
        assert(s[0] == t[0]);
        assert(s.drop_first() == t.drop_first() + x);
        assert(!has_char(t.drop_first(), '\n')) by {
            if has_char(t.drop_first(), '\n') {
                let j = choose|j: int| 0 <= j < t.drop_first().len() && t.drop_first()[j] == '\n';
                assert(t[j + 1] == '\n');
            }
        }
        lemma_lines_run(t.drop_first(), x, done, cur.push(t[0]));
        assert(cur.push(t[0]) + t.drop_first() == cur + t);
    }
}

/// The lines of texts joined by `\n` are the texts, when none holds `\n`, none
/// but the last ends with `\r`, and the last is not empty.
pub proof fn lemma_lines_join(ts: Seq<Seq<char>>, done: Seq<Seq<char>>)
    requires
        ts.len() >= 1,
        forall|k: int| 0 <= k < ts.len() ==> !has_char(#[trigger] ts[k], '\n'),
        forall|k: int| 0 <= k < ts.len() - 1 ==> strip_cr(#[trigger] ts[k]) == ts[k],
        ts.last().len() > 0,
    ensures
        lines_acc(join(ts, seq!['\n']), done, seq![]) == done + ts,
    decreases ts.len(),
{
    let t0 = ts[0];
    assert(!has_char(t0, '\n'));
    if ts.len() == 1 {
        assert(join(ts, seq!['\n']) == t0);
        lemma_lines_run(t0, seq![], done, seq![]);
        assert(t0 + seq![] == t0);
        assert(seq![] + t0 == t0);
        assert(done + ts == done.push(t0));
    } else {
        let df = ts.drop_first();
        lemma_join_first(ts, seq!['\n']);
        let x = join(df, seq!['\n']);
        assert(join(ts, seq!['\n']) == t0 + (seq!['\n'] + x));
        lemma_lines_run(t0, seq!['\n'] + x, done, seq![]);
        assert(seq![] + t0 == t0);
        let sx = seq!['\n'] + x;
        assert(sx[0] == '\n');
        assert(sx.drop_first() == x);
        assert(strip_cr(t0) == t0);
        assert forall|k: int| 0 <= k < df.len() implies !has_char(#[trigger] df[k], '\n') by {
            assert(df[k] == ts[k + 1]);
        }
        assert forall|k: int| 0 <= k < df.len() - 1 implies strip_cr(#[trigger] df[k]) == df[k] by {
            assert(df[k] == ts[k + 1]);
        }
        lemma_lines_join(df, done.push(t0));
        assert(done.push(t0) + df == done + ts);
    }
}

/// The lines of texts joined by `\n` and ended by one more `\n` are the
/// texts, when none holds `\n` and none ends with `\r`.
pub proof fn lemma_lines_join_newline(ts: Seq<Seq<char>>, done: Seq<Seq<char>>)
    requires
        ts.len() >= 1,
        forall|k: int| 0 <= k < ts.len() ==> !has_char(#[trigger] ts[k], '\n'),
        forall|k: int| 0 <= k < ts.len() ==> strip_cr(#[trigger] ts[k]) == ts[k],
    ensures
        lines_acc(join(ts, seq!['\n']) + seq!['\n'], done, seq![]) == done + ts,
    decreases ts.len(),
{
    let t0 = ts[0];
    let nl = seq!['\n'];
    assert(!has_char(t0, '\n'));
    assert(strip_cr(t0) == t0);
    if ts.len() == 1 {
        assert(join(ts, nl) == t0);
        lemma_lines_run(t0, nl, done, seq![]);
        assert(seq![] + t0 == t0);
        assert(nl.drop_first() =~= Seq::<char>::empty());
        assert(lines_acc(nl.drop_first(), done.push(t0), seq![]) == done.push(t0));
        assert(done + ts == done.push(t0));
    } else {
        let df = ts.drop_first();
        lemma_join_first(ts, nl);
        let x = join(df, nl);
        assert(join(ts, nl) + nl == t0 + (nl + (x + nl)));
        lemma_lines_run(t0, nl + (x + nl), done, seq![]);
        assert(seq![] + t0 == t0);
        let sx = nl + (x + nl);
        assert(sx[0] == '\n');
        assert(sx.drop_first() == x + nl);
        assert forall|k: int| 0 <= k < df.len() implies !has_char(#[trigger] df[k], '\n') by {
            assert(df[k] == ts[k + 1]);
        }
        assert forall|k: int| 0 <= k < df.len() implies strip_cr(#[trigger] df[k]) == df[k] by {
            assert(df[k] == ts[k + 1]);
        }
        lemma_lines_join_newline(df, done.push(t0));
        assert(done.push(t0) + df == done + ts);
    }
}

/// No line holds `\n`.
pub proof fn lemma_lines_no_newline(s: Seq<char>, done: Seq<Seq<char>>, cur: Seq<char>)
    requires
        forall|k: int| 0 <= k < done.len() ==> !has_char(#[trigger] done[k], '\n'),
        !has_char(cur, '\n'),
    ensures
        forall|k: int| 0 <= k < lines_acc(s, done, cur).len() ==> !has_char(#[trigger] lines_acc(s, done, cur)[k], '\n'),
    decreases s.len(),
{
    if s.len() == 0 {
        assert(lines_acc(s, done, cur) == close_word(done, cur));
        if cur.len() > 0 {
            assert forall|k: int| 0 <= k < done.push(cur).len() implies !has_char(#[trigger] done.push(cur)[k], '\n') by {
                if k == done.len() {
                    assert(done.push(cur)[k] == cur);
                }
            }
        }
    } else if s[0] == '\n' {
        let l = strip_cr(cur);
        assert(!has_char(l, '\n')) by {
            if has_char(l, '\n') {
                let j = choose|j: int| 0 <= j < l.len() && l[j] == '\n';
                assert(cur[j] == '\n');
            }
        }
        assert forall|k: int| 0 <= k < done.push(l).len() implies !has_char(#[trigger] done.push(l)[k], '\n') by {
            if k == done.len() {
                assert(done.push(l)[k] == l);
            }
        }
        lemma_lines_no_newline(s.drop_first(), done.push(l), seq![]);
        assert(lines_acc(s, done, cur) == lines_acc(s.drop_first(), done.push(l), seq![]));
    } else {
        let c2 = cur.push(s[0]);
        assert(!has_char(c2, '\n')) by {
            if has_char(c2, '\n') {
                let j = choose|j: int| 0 <= j < c2.len() && c2[j] == '\n';
                if j < cur.len() {
                    assert(cur[j] == '\n');
                }
            }
        }
        lemma_lines_no_newline(s.drop_first(), done, c2);
        assert(lines_acc(s, done, cur) == lines_acc(s.drop_first(), done, c2));
    }
}

/// Trimming blanks around a tight text gives the text.
pub proof fn lemma_trim_pad(w: Seq<char>, x: Seq<char>, z: Seq<char>)
    requires
        all_blank(w),
        all_blank(z),
        tight(x),
    ensures
        trim(w + x + z) == x,
{
    let s = w + x + z;
    assert forall|j: int| 0 <= j < w.len() implies is_ws(#[trigger] s[j]) by {
        assert(s[j] == w[j]);
    }
    lemma_trim_start_skip(s, w.len() as int);
    let xz = s.subrange(w.len() as int, s.len() as int);
    assert(xz == x + z);
    if x.len() > 0 {
        assert(xz[0] == x[0]);
        assert(trim_start(xz) == xz);
        assert forall|j: int| x.len() <= j < xz.len() implies is_ws(#[trigger] xz[j]) by {
            assert(xz[j] == z[j - x.len()]);
        }
        lemma_trim_end_cut(xz, x.len() as int);
        assert(xz.subrange(0, x.len() as int) == x);
        assert(x.last() == x[x.len() - 1]);
        assert(trim_end(x) == x);
    } else {
        assert(xz == z);
        lemma_trim_start_skip(z, z.len() as int);
        assert(z.subrange(z.len() as int, z.len() as int) =~= seq![]);
        assert(trim_start(z.subrange(z.len() as int, z.len() as int)) =~= seq![]);
        assert(x =~= seq![]);
    }
}

/// A trimmed text is tight and made of characters of the text it came from.
pub proof fn lemma_trim_result(x: Seq<char>, c: char)
    ensures
        tight(trim(x)),
        !has_char(x, c) ==> !has_char(trim(x), c),
{
    lemma_trim_start_prefix(x);
    let t = trim_start(x);
    lemma_trim_end_prefix(t);
    let u = trim_end(t);
    if u.len() > 0 {
        assert(u[0] == t[0]);
    }
    let k = x.len() - t.len();
    if !has_char(x, c) && has_char(u, c) {
        let j = choose|j: int| 0 <= j < u.len() && u[j] == c;
        assert(u[j] == t[j]);
        assert(t[j] == x[k + j]);
    }
}

/// Joined parts avoid a character that the parts and the separator avoid.
pub proof fn lemma_join_avoid(parts: Seq<Seq<char>>, sep: Seq<char>, c: char)
    requires
        forall|k: int| 0 <= k < parts.len() ==> !has_char(#[trigger] parts[k], c),
        !has_char(sep, c),
    ensures
        !has_char(join(parts, sep), c),
    decreases parts.len(),
{
    if parts.len() >= 2 {
        let dl = parts.drop_last();
        assert forall|k: int| 0 <= k < dl.len() implies !has_char(#[trigger] dl[k], c) by {
            assert(dl[k] == parts[k]);
        }
        lemma_join_avoid(dl, sep, c);
        let a = join(dl, sep);
        let l = parts.last();
        assert(!has_char(l, c));
        let s = a + sep + l;
        if has_char(s, c) {
            let j = choose|j: int| 0 <= j < s.len() && s[j] == c;
            if j < a.len() {
                assert(a[j] == c);
            } else if j < a.len() + sep.len() {
                assert(sep[j - a.len()] == c);
            } else {
                assert(l[j - a.len() - sep.len()] == c);
            }
        }
    } else if parts.len() == 1 {
        assert(join(parts, sep) == parts[0]);
    }
}

/// Joined parts end with the last part.
pub proof fn lemma_join_last(parts: Seq<Seq<char>>, sep: Seq<char>)
    requires
        parts.len() >= 1,
        parts.last().len() > 0,
    ensures
        join(parts, sep).len() > 0,
        join(parts, sep).last() == parts.last().last(),
{
    if parts.len() == 1 {
        assert(join(parts, sep) == parts[0]);
    } else {
        let s = join(parts.drop_last(), sep) + sep + parts.last();
        assert(s.last() == parts.last().last());
    }
}

} // verus!
