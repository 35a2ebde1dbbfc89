//! Collapsing runs of ellipses in result snippets.
use vstd::prelude::*;
use crate::format::text_helpers::normalized_whitespace;
use crate::text::{
    chars_of, is_word, is_ws, join, join_words, lemma_words_are_words, lemma_words_of_join,
    lemma_words_state_append_word, slice_chars, split_words, string_of, vviews, words, words_state,
};

verus! {

/// What a run of `n` consecutive dots becomes: a space-padded `...` when the
/// run has three or more dots, the dots themselves otherwise.
pub open spec fn flush_dots(n: nat) -> Seq<char> {
    if n >= 3 {
        seq![' ', '.', '.', '.', ' ']
    } else {
        Seq::new(n, |i: int| '.')
    }
}

/// Scanning state after reading `s`: the output so far and the pending dot count.
pub open spec fn dots_state(s: Seq<char>) -> (Seq<char>, nat)
    decreases s.len(),
{
    if s.len() == 0 {
        (seq![], 0)
    } else {
        let (b, n) = dots_state(s.drop_last());
        let c = s.last();
        if c == '.' {
            (b, n + 1)
        } else {
            (b + flush_dots(n) + seq![c], 0)
        }
    }
}

/// `s` with every run of three or more dots replaced by ` ... `.
pub open spec fn normalize_dots(s: Seq<char>) -> Seq<char> {
    let (b, n) = dots_state(s);
    b + flush_dots(n)
}

/// The word `...`.
pub open spec fn is_ellipsis(w: Seq<char>) -> bool {
    w == seq!['.', '.', '.']
}

/// `ws` without every `...` that directly follows another `...`.
pub open spec fn dedup_ellipses(ws: Seq<Seq<char>>) -> Seq<Seq<char>>
    decreases ws.len(),
{
    if ws.len() == 0 {
        seq![]
    } else {
        let d = dedup_ellipses(ws.drop_last());
        if is_ellipsis(ws.last()) && ws.len() >= 2 && is_ellipsis(ws[ws.len() - 2]) {
            d
        } else {
            d.push(ws.last())
        }
    }
}

proof fn lemma_dedup_ends_like_input(ws: Seq<Seq<char>>)
    requires
        ws.len() > 0,
    ensures
        dedup_ellipses(ws).len() > 0,
        dedup_ellipses(ws).last() == ws.last(),
    decreases ws.len(),
{
    if ws.len() >= 2 {
        lemma_dedup_ends_like_input(ws.drop_last());
    }
}

/// After deduplication no `...` word directly follows another.
pub proof fn lemma_no_adjacent_ellipses(ws: Seq<Seq<char>>)
    ensures
        forall|i: int|
            0 <= i < dedup_ellipses(ws).len() - 1 ==> !(is_ellipsis(
                #[trigger] dedup_ellipses(ws)[i],
            ) && is_ellipsis(dedup_ellipses(ws)[i + 1])),
    decreases ws.len(),
{
    if ws.len() > 0 {
        let d = dedup_ellipses(ws.drop_last());
        lemma_no_adjacent_ellipses(ws.drop_last());
        if ws.len() >= 2 {
            lemma_dedup_ends_like_input(ws.drop_last());
            assert(ws.drop_last().last() == ws[ws.len() - 2]);
        }
        let r = dedup_ellipses(ws);
        assert forall|i: int| 0 <= i < r.len() - 1 implies !(is_ellipsis(#[trigger] r[i])
            && is_ellipsis(r[i + 1])) by {
            if r.len() > d.len() {
                assert(r == d.push(ws.last()));
                if i + 1 < d.len() {
                    assert(r[i] == d[i] && r[i + 1] == d[i + 1]);
                }
            }
        }
    }
}

/// Deduplication drops only `...` words: every other word stays, in order,
/// and their number is unchanged.
pub proof fn lemma_dedup_keeps_other_words(ws: Seq<Seq<char>>)
    ensures
        dedup_ellipses(ws).filter(|w: Seq<char>| !is_ellipsis(w)) == ws.filter(
            |w: Seq<char>| !is_ellipsis(w),
        ),
    decreases ws.len(),
{
    let f = |w: Seq<char>| !is_ellipsis(w);
    if ws.len() > 0 {
        lemma_dedup_keeps_other_words(ws.drop_last());
        let d = dedup_ellipses(ws.drop_last());
        assert(ws =~= ws.drop_last().push(ws.last()));
        ws.drop_last().lemma_filter_push(ws.last(), f);
        d.lemma_filter_push(ws.last(), f);
    }
}

/// The snippet text that `collapse_snippet_ellipses` produces: dot runs
/// normalised, whitespace collapsed to single spaces, and consecutive `...`
/// words reduced to one.
pub open spec fn collapsed(s: Seq<char>) -> Seq<char> {
    join(dedup_ellipses(words(normalize_dots(s))), seq![' '])
}

// ---------------------------------------------------------------------------
// Collapsing twice collapses nothing more
// ---------------------------------------------------------------------------

/// `w` holds no run of three dots.
pub open spec fn no_triple(w: Seq<char>) -> bool {
    forall|i: int|
        0 <= i && i + 2 < w.len() ==> !(#[trigger] w[i] == '.' && w[i + 1] == '.' && w[i + 2]
            == '.')
}

/// A word that collapsing leaves as it is: `...`, or one with no run of three dots.
pub open spec fn settled_word(w: Seq<char>) -> bool {
    is_word(w) && (is_ellipsis(w) || no_triple(w))
}

/// Every word of `ws` is settled.
pub open spec fn all_settled(ws: Seq<Seq<char>>) -> bool {
    forall|k: int| 0 <= k < ws.len() ==> settled_word(#[trigger] ws[k])
}

/// `n` dots.
pub open spec fn dots(n: nat) -> Seq<char> {
    Seq::new(n, |i: int| '.')
}

proof fn lemma_no_triple_prefix(w: Seq<char>, k: int)
    requires
        no_triple(w),
        0 <= k <= w.len(),
    ensures
        no_triple(w.take(k)),
{
    assert forall|i: int| 0 <= i && i + 2 < w.take(k).len() implies !(#[trigger] w.take(k)[i]
        == '.' && w.take(k)[i + 1] == '.' && w.take(k)[i + 2] == '.') by {
        assert(w.take(k)[i] == w[i] && w.take(k)[i + 1] == w[i + 1] && w.take(k)[i + 2] == w[i
            + 2]);
    }
}

proof fn lemma_no_triple_push(w: Seq<char>, c: char)
    requires
        no_triple(w),
        c != '.',
    ensures
        no_triple(w.push(c)),
{
    let v = w.push(c);
    assert forall|i: int| 0 <= i && i + 2 < v.len() implies !(#[trigger] v[i] == '.' && v[i + 1]
        == '.' && v[i + 2] == '.') by {
        if i + 2 < w.len() {
            assert(v[i] == w[i] && v[i + 1] == w[i + 1] && v[i + 2] == w[i + 2]);
        } else {
            assert(v[i + 2] == c);
        }
    }
}

proof fn lemma_no_triple_short_dots(w: Seq<char>, n: nat)
    requires
        no_triple(w),
        w.len() == 0 || w.last() != '.',
        n <= 2,
    ensures
        no_triple(w + dots(n)),
{
    let v = w + dots(n);
    assert forall|i: int| 0 <= i && i + 2 < v.len() implies !(#[trigger] v[i] == '.' && v[i + 1]
        == '.' && v[i + 2] == '.') by {
        if i + 2 < w.len() {
            assert(v[i] == w[i] && v[i + 1] == w[i + 1] && v[i + 2] == w[i + 2]);
        } else if i < w.len() {
            let j = w.len() - 1;
            assert(v[j] == w.last());
            assert(i <= j <= i + 2);
        }
    }
}

/// A word without a run of three dots has no dots to replace.
proof fn lemma_dots_state_no_triple(w: Seq<char>)
    requires
        no_triple(w),
    ensures
        dots_state(w).0 + dots(dots_state(w).1) == w,
        dots_state(w).1 <= 2,
    decreases w.len(),
{
    if w.len() > 0 {
        let v = w.drop_last();
        lemma_no_triple_prefix(w, w.len() - 1);
        assert(w.take(w.len() - 1) =~= v);
        lemma_dots_state_no_triple(v);
        let (b, n) = dots_state(v);
        let c = w.last();
        if c == '.' {
            if n == 2 {
                let i = w.len() - 3;
                assert(v == b + dots(2));
                assert(w[i] == v[i] && w[i + 1] == v[i + 1]);
                assert(v[i] == '.' && v[i + 1] == '.');
                assert(w[i + 2] == c);
                assert(false);
            }
            assert(b + dots(n + 1) =~= (b + dots(n)).push('.'));
            assert(w =~= v.push(c));
        } else {
            assert(flush_dots(n) =~= dots(n));
            assert(b + flush_dots(n) + seq![c] + dots(0) =~= v.push(c));
            assert(w =~= v.push(c));
        }
    }
}

proof fn lemma_normalize_dots_no_triple(w: Seq<char>)
    requires
        no_triple(w),
    ensures
        normalize_dots(w) == w,
{
    lemma_dots_state_no_triple(w);
    assert(flush_dots(dots_state(w).1) =~= dots(dots_state(w).1));
}

proof fn lemma_dots_state_append(p: Seq<char>, y: Seq<char>)
    requires
        dots_state(p).1 == 0,
    ensures
        dots_state(p + y) == (dots_state(p).0 + dots_state(y).0, dots_state(y).1),
    decreases y.len(),
{
    if y.len() == 0 {
        assert(p + y =~= p);
        assert(dots_state(p).0 + Seq::<char>::empty() =~= dots_state(p).0);
    } else {
        let z = y.drop_last();
        lemma_dots_state_append(p, z);
        assert((p + y).drop_last() =~= p + z);
        assert((p + y).last() == y.last());
        let (pb, _pn) = dots_state(p);
        let (zb, zn) = dots_state(z);
        if y.last() != '.' {
            assert(pb + zb + flush_dots(zn) + seq![y.last()] =~= pb + (zb + flush_dots(zn) + seq![
                y.last(),
            ]));
        }
    }
}

/// A space splits dot normalisation: each side is normalised on its own.
proof fn lemma_normalize_dots_split(x: Seq<char>, y: Seq<char>)
    ensures
        normalize_dots(x + seq![' '] + y) == normalize_dots(x) + seq![' '] + normalize_dots(y),
{
    let p = x + seq![' '];
    assert(p.drop_last() =~= x);
    assert(dots_state(p) == (normalize_dots(x) + seq![' '], 0nat));
    lemma_dots_state_append(p, y);
    let (yb, yn) = dots_state(y);
    assert(normalize_dots(x) + seq![' '] + yb + flush_dots(yn) =~= normalize_dots(x) + seq![' ']
        + (yb + flush_dots(yn)));
}

proof fn lemma_words_state_concat(p: Seq<char>, q: Seq<char>)
    requires
        words_state(p).1.len() == 0,
    ensures
        words_state(p + q) == (words_state(p).0 + words_state(q).0, words_state(q).1),
    decreases q.len(),
{
    if q.len() == 0 {
        assert(p + q =~= p);
        assert(words_state(p).0 + Seq::<Seq<char>>::empty() =~= words_state(p).0);
        assert(words_state(p).1 =~= Seq::<char>::empty());
    } else {
        let z = q.drop_last();
        lemma_words_state_concat(p, z);
        assert((p + q).drop_last() =~= p + z);
        assert((p + q).last() == q.last());
        let (pw, _pc) = words_state(p);
        let (zw, zc) = words_state(z);
        if is_ws(q.last()) && zc.len() > 0 {
            assert((pw + zw).push(zc) =~= pw + zw.push(zc));
        }
    }
}

proof fn lemma_words_after_space(x: Seq<char>)
    ensures
        words_state(x + seq![' ']) == (words(x), Seq::<char>::empty()),
{
    assert((x + seq![' ']).drop_last() =~= x);
    assert(is_ws(' '));
}

/// A settled word comes back alone from dot normalisation and splitting.
proof fn lemma_settled_word_words(w: Seq<char>)
    requires
        settled_word(w),
    ensures
        words(normalize_dots(w)) == seq![w],
{
    if is_ellipsis(w) {
        assert(dots_state(w) == (Seq::<char>::empty(), 3nat)) by {
            reveal_with_fuel(dots_state, 4);
            assert(w.drop_last().drop_last().drop_last() =~= Seq::<char>::empty());
            assert(w.drop_last().drop_last() =~= seq!['.']);
            assert(w.drop_last() =~= seq!['.', '.']);
        }
        let e: Seq<char> = seq!['.', '.', '.'];
        assert(normalize_dots(w) =~= seq![' '] + e + seq![' ']);
        lemma_words_after_space(Seq::<char>::empty());
        assert(Seq::<char>::empty() + seq![' '] =~= seq![' ']);
        assert(words(Seq::<char>::empty()) =~= Seq::<Seq<char>>::empty());
        assert(forall|i: int| 0 <= i < e.len() ==> !is_ws(#[trigger] e[i]));
        lemma_words_state_append_word(seq![' '], e);
        assert(Seq::<char>::empty() + e =~= e);
        lemma_words_after_space(seq![' '] + e);
        assert(Seq::<Seq<char>>::empty().push(e) =~= seq![e]);
    } else {
        lemma_normalize_dots_no_triple(w);
        lemma_words_of_join(seq![w]);
    }
}

/// Dot normalisation and splitting give back words joined by single spaces,
/// when every word is settled.
proof fn lemma_words_of_settled_join(ws: Seq<Seq<char>>)
    requires
        all_settled(ws),
    ensures
        words(normalize_dots(join(ws, seq![' ']))) == ws,
    decreases ws.len(),
{
    if ws.len() == 0 {
        assert(normalize_dots(Seq::<char>::empty()) =~= Seq::<char>::empty());
        assert(words_state(Seq::<char>::empty()) == (Seq::<Seq<char>>::empty(), Seq::<char>::empty()));
    } else if ws.len() == 1 {
        assert(settled_word(ws[0]));
        lemma_settled_word_words(ws[0]);
    } else {
        let init = ws.drop_last();
        let last = ws.last();
        assert forall|k: int| 0 <= k < init.len() implies settled_word(#[trigger] init[k]) by {
            assert(init[k] == ws[k]);
        }
        assert(settled_word(ws[ws.len() - 1]));
        lemma_words_of_settled_join(init);
        let a = join(init, seq![' ']);
        lemma_normalize_dots_split(a, last);
        let p = normalize_dots(a) + seq![' '];
        lemma_words_after_space(normalize_dots(a));
        lemma_words_state_concat(p, normalize_dots(last));
        lemma_settled_word_words(last);
        let q = normalize_dots(last);
        let (qw, qc) = words_state(q);
        if qc.len() > 0 {
            assert((init + qw).push(qc) =~= init + qw.push(qc));
        }
        assert(init + seq![last] =~= ws);
    }
}

/// Without two `...` words side by side there is nothing to deduplicate.
proof fn lemma_dedup_nothing_to_drop(ws: Seq<Seq<char>>)
    requires
        forall|i: int| 0 <= i < ws.len() - 1 ==> !(is_ellipsis(#[trigger] ws[i]) && is_ellipsis(ws[i + 1])),
    ensures
        dedup_ellipses(ws) == ws,
    decreases ws.len(),
{
    if ws.len() > 0 {
        let init = ws.drop_last();
        assert forall|i: int| 0 <= i < init.len() - 1 implies !(is_ellipsis(#[trigger] init[i])
            && is_ellipsis(init[i + 1])) by {
            assert(init[i] == ws[i] && init[i + 1] == ws[i + 1]);
        }
        lemma_dedup_nothing_to_drop(init);
        if ws.len() >= 2 {
            assert(!(is_ellipsis(ws[ws.len() - 2]) && is_ellipsis(ws[ws.len() - 2 + 1])));
        }
        assert(init.push(ws.last()) =~= ws);
    }
}

proof fn lemma_dedup_settled(ws: Seq<Seq<char>>)
    requires
        all_settled(ws),
    ensures
        all_settled(dedup_ellipses(ws)),
    decreases ws.len(),
{
    if ws.len() > 0 {
        let init = ws.drop_last();
        assert forall|k: int| 0 <= k < init.len() implies settled_word(#[trigger] init[k]) by {
            assert(init[k] == ws[k]);
        }
        lemma_dedup_settled(init);
        let d = dedup_ellipses(init);
        assert(settled_word(ws[ws.len() - 1]));
        assert forall|k: int| 0 <= k < d.push(ws.last()).len() implies settled_word(
            #[trigger] d.push(ws.last())[k],
        ) by {
            if k < d.len() {
                assert(d.push(ws.last())[k] == d[k]);
            }
        }
    }
}

/// What splitting the normalised text so far has found: settled words, and a
/// word in progress without a run of three dots that does not end in a dot.
pub open spec fn scan_settled(b: Seq<char>) -> bool {
    let (ws, cur) = words_state(b);
    &&& all_settled(ws)
    &&& no_triple(cur)
    &&& (cur.len() == 0 || cur.last() != '.')
}

/// Appending text whose words are settled: its words are pushed as they are.
proof fn lemma_scan_space(b: Seq<char>)
    requires
        scan_settled(b),
    ensures
        words_state(b + seq![' ']).1.len() == 0,
        all_settled(words_state(b + seq![' ']).0),
        words_state(b + seq![' ']).0 == words(b),
{
    lemma_words_after_space(b);
    lemma_words_are_words(b);
    let (ws, cur) = words_state(b);
    if cur.len() > 0 {
        assert(settled_word(cur));
        assert forall|k: int| 0 <= k < ws.push(cur).len() implies settled_word(
            #[trigger] ws.push(cur)[k],
        ) by {
            if k < ws.len() {
                assert(ws.push(cur)[k] == ws[k]);
            }
        }
    }
}

proof fn lemma_scan_dots_then(b: Seq<char>, n: nat, c: char)
    requires
        scan_settled(b),
        n <= 2,
        c != '.',
    ensures
        scan_settled(b + dots(n) + seq![c]),
{
    lemma_words_are_words(b);
    let (ws, cur) = words_state(b);
    let d = dots(n);
    assert(forall|i: int| 0 <= i < d.len() ==> !is_ws(#[trigger] d[i]));
    lemma_words_state_append_word(b, d);
    lemma_no_triple_short_dots(cur, n);
    let cd = cur + d;
    let t = b + d + seq![c];
    assert(t.drop_last() =~= b + d);
    assert(t.last() == c);
    if is_ws(c) {
        if cd.len() > 0 {
            assert forall|i: int| 0 <= i < cd.len() implies !is_ws(#[trigger] cd[i]) by {
                if i < cur.len() {
                    assert(cd[i] == cur[i]);
                } else {
                    assert(cd[i] == d[i - cur.len()]);
                }
            }
            assert(settled_word(cd));
            assert forall|k: int| 0 <= k < ws.push(cd).len() implies settled_word(
                #[trigger] ws.push(cd)[k],
            ) by {
                if k < ws.len() {
                    assert(ws.push(cd)[k] == ws[k]);
                }
            }
        }
        assert(words_state(t).1 =~= Seq::<char>::empty());
    } else {
        lemma_no_triple_push(cd, c);
    }
}

proof fn lemma_scan_ellipsis_then(b: Seq<char>, c: char)
    requires
        scan_settled(b),
        c != '.',
    ensures
        scan_settled(b + flush_dots(3) + seq![c]),
        all_settled(words(b + flush_dots(3))),
{
    let e: Seq<char> = seq!['.', '.', '.'];
    let b1 = b + seq![' '];
    lemma_scan_space(b);
    let w1 = words_state(b1).0;
    assert(forall|i: int| 0 <= i < e.len() ==> !is_ws(#[trigger] e[i]));
    lemma_words_state_append_word(b1, e);
    assert(words_state(b1).1 + e =~= e);
    let b2 = b1 + e;
    lemma_words_after_space(b2);
    let b3 = b2 + seq![' '];
    assert(words(b2) == w1.push(e));
    assert(settled_word(e)) by {
        assert(is_ellipsis(e));
    }
    assert forall|k: int| 0 <= k < w1.push(e).len() implies settled_word(#[trigger] w1.push(e)[k]) by {
        if k < w1.len() {
            assert(w1.push(e)[k] == w1[k]);
        }
    }
    assert(b + flush_dots(3) =~= b3);
    assert(words_state(b3).1 =~= Seq::<char>::empty());
    assert(words(b3) == w1.push(e));
    let t = b3 + seq![c];
    assert(t.drop_last() =~= b3);
    assert(b + flush_dots(3) + seq![c] =~= t);
    if !is_ws(c) {
        assert(Seq::<char>::empty().push(c) =~= seq![c]);
        assert(no_triple(seq![c]));
    }
}

/// Along dot normalisation, the text produced so far never ends in a dot and
/// splits into settled words.
proof fn lemma_dots_state_settled(s: Seq<char>)
    ensures
        scan_settled(dots_state(s).0),
        dots_state(s).0.len() == 0 || dots_state(s).0.last() != '.',
    decreases s.len(),
{
    if s.len() == 0 {
        assert(words_state(Seq::<char>::empty()) == (Seq::<Seq<char>>::empty(), Seq::<char>::empty()));
    } else {
        lemma_dots_state_settled(s.drop_last());
        let (b, n) = dots_state(s.drop_last());
        let c = s.last();
        if c != '.' {
            if n >= 3 {
                assert(flush_dots(n) == flush_dots(3));
                lemma_scan_ellipsis_then(b, c);
            } else {
                assert(flush_dots(n) =~= dots(n));
                lemma_scan_dots_then(b, n, c);
            }
        }
    }
}

/// Every word of dot-normalised text is settled.
proof fn lemma_normalized_words_settled(s: Seq<char>)
    ensures
        all_settled(words(normalize_dots(s))),
{
    lemma_dots_state_settled(s);
    let (b, n) = dots_state(s);
    if n >= 3 {
        assert(flush_dots(n) == flush_dots(3));
        lemma_scan_ellipsis_then(b, ' ');
    } else {
        lemma_words_are_words(b);
        let (ws, cur) = words_state(b);
        let d = dots(n);
        assert(flush_dots(n) =~= d);
        assert(forall|i: int| 0 <= i < d.len() ==> !is_ws(#[trigger] d[i]));
        lemma_words_state_append_word(b, d);
        lemma_no_triple_short_dots(cur, n);
        let cd = cur + d;
        if cd.len() > 0 {
            assert forall|i: int| 0 <= i < cd.len() implies !is_ws(#[trigger] cd[i]) by {
                if i < cur.len() {
                    assert(cd[i] == cur[i]);
                } else {
                    assert(cd[i] == d[i - cur.len()]);
                }
            }
            assert(settled_word(cd));
            assert forall|k: int| 0 <= k < ws.push(cd).len() implies settled_word(
                #[trigger] ws.push(cd)[k],
            ) by {
                if k < ws.len() {
                    assert(ws.push(cd)[k] == ws[k]);
                }
            }
        }
    }
}

/// Collapsing is idempotent: collapsing collapsed text changes nothing. The
/// collapsed text is its words joined by single spaces; each word is `...`
/// or holds no run of three dots, and no `...` follows another.
pub proof fn lemma_collapse_idempotent(s: Seq<char>)
    ensures
        collapsed(collapsed(s)) == collapsed(s),
        collapsed(s) == join(words(collapsed(s)), seq![' ']),
        all_settled(words(collapsed(s))),
        forall|i: int|
            0 <= i < words(collapsed(s)).len() - 1 ==> !(is_ellipsis(
                #[trigger] words(collapsed(s))[i],
            ) && is_ellipsis(words(collapsed(s))[i + 1])),
{
    let ws = words(normalize_dots(s));
    lemma_normalized_words_settled(s);
    let d = dedup_ellipses(ws);
    lemma_dedup_settled(ws);
    lemma_no_adjacent_ellipses(ws);
    lemma_words_of_settled_join(d);
    lemma_dedup_nothing_to_drop(d);
    assert forall|k: int| 0 <= k < d.len() implies is_word(#[trigger] d[k]) by {
        assert(settled_word(d[k]));
    }
    lemma_words_of_join(d);
}

proof fn lemma_words_without_dots(s: Seq<char>)
    requires
        !s.contains('.'),
    ensures
        forall|k: int| 0 <= k < words_state(s).0.len() ==> !(#[trigger] words_state(s).0[k]).contains('.'),
        !words_state(s).1.contains('.'),
        forall|k: int| 0 <= k < words(s).len() ==> !is_ellipsis(#[trigger] words(s)[k]),
    decreases s.len(),
{
    if s.len() > 0 {
        let v = s.drop_last();
        assert(!v.contains('.')) by {
            if v.contains('.') {
                let j = choose|j: int| 0 <= j < v.len() && v[j] == '.';
                assert(s[j] == '.');
            }
        }
        lemma_words_without_dots(v);
        let (ws, cur) = words_state(v);
        let c = s.last();
        assert(c != '.') by {
            assert(s[s.len() - 1] == c);
        }
        if is_ws(c) {
            if cur.len() > 0 {
                assert forall|k: int| 0 <= k < ws.push(cur).len() implies !(
                #[trigger] ws.push(cur)[k]).contains('.') by {
                    if k < ws.len() {
                        assert(ws.push(cur)[k] == ws[k]);
                    }
                }
            }
        } else {
            assert(!cur.push(c).contains('.')) by {
                if cur.push(c).contains('.') {
                    let j = choose|j: int| 0 <= j < cur.push(c).len() && cur.push(c)[j] == '.';
                    if j < cur.len() {
                        assert(cur[j] == '.');
                    }
                }
            }
        }
    }
    let (ws, cur) = words_state(s);
    let all = words(s);
    assert forall|k: int| 0 <= k < all.len() implies !is_ellipsis(#[trigger] all[k]) by {
        if is_ellipsis(all[k]) {
            assert(all[k][0] == '.');
            if k < ws.len() {
                assert(all[k] == ws[k]);
            } else {
                assert(all[k] == cur);
            }
        }
    }
}

/// Text without dots collapses like title whitespace does: to its words
/// joined by single spaces.
pub proof fn lemma_collapse_without_dots(s: Seq<char>)
    requires
        !s.contains('.'),
    ensures
        collapsed(s) == normalized_whitespace(s),
{
    assert(no_triple(s)) by {
        assert forall|i: int| 0 <= i && i + 2 < s.len() implies !(#[trigger] s[i] == '.' && s[i
            + 1] == '.' && s[i + 2] == '.') by {
            assert(s[i] != '.');
        }
    }
    lemma_normalize_dots_no_triple(s);
    lemma_words_without_dots(s);
    lemma_dedup_nothing_to_drop(words(s));
}

proof fn lemma_no_triple_subrange(s: Seq<char>, a: int, b: int)
    requires
        no_triple(s),
        0 <= a <= b <= s.len(),
    ensures
        no_triple(s.subrange(a, b)),
{
    let t = s.subrange(a, b);
    assert forall|i: int| 0 <= i && i + 2 < t.len() implies !(#[trigger] t[i] == '.' && t[i + 1]
        == '.' && t[i + 2] == '.') by {
        assert(t[i] == s[a + i] && t[i + 1] == s[a + i + 1] && t[i + 2] == s[a + i + 2]);
    }
}

proof fn lemma_words_no_triple(s: Seq<char>)
    requires
        no_triple(s),
    ensures
        forall|k: int| 0 <= k < words_state(s).0.len() ==> no_triple(#[trigger] words_state(s).0[k]),
        words_state(s).1.len() <= s.len(),
        words_state(s).1 == s.subrange(s.len() - words_state(s).1.len(), s.len() as int),
        forall|k: int| 0 <= k < words(s).len() ==> no_triple(#[trigger] words(s)[k]),
    decreases s.len(),
{
    let (ws, cur) = words_state(s);
    if s.len() == 0 {
        assert(cur =~= s.subrange(0, 0));
    } else {
        let v = s.drop_last();
        lemma_no_triple_prefix(s, s.len() - 1);
        assert(s.take(s.len() - 1) =~= v);
        lemma_words_no_triple(v);
        let (vws, vcur) = words_state(v);
        let c = s.last();
        if is_ws(c) {
            assert(cur =~= s.subrange(s.len() as int, s.len() as int));
            if vcur.len() > 0 {
                lemma_no_triple_subrange(v, v.len() - vcur.len(), v.len() as int);
                assert forall|k: int| 0 <= k < vws.push(vcur).len() implies no_triple(
                    #[trigger] vws.push(vcur)[k],
                ) by {
                    if k < vws.len() {
                        assert(vws.push(vcur)[k] == vws[k]);
                    }
                }
            }
        } else {
            assert(cur == vcur.push(c));
            assert(vcur == v.subrange(v.len() - vcur.len(), v.len() as int));
            assert(cur =~= s.subrange(s.len() - cur.len(), s.len() as int));
        }
    }
    lemma_no_triple_subrange(s, s.len() - cur.len(), s.len() as int);
    if cur.len() > 0 {
        assert forall|k: int| 0 <= k < ws.push(cur).len() implies no_triple(#[trigger] ws.push(cur)[k]) by {
            if k < ws.len() {
                assert(ws.push(cur)[k] == ws[k]);
            }
        }
    }
}

/// Runs of one or two dots are kept: text without a run of three dots keeps
/// every dot and only has its whitespace collapsed.
pub proof fn lemma_short_dot_runs_kept(s: Seq<char>)
    requires
        no_triple(s),
    ensures
        collapsed(s) == normalized_whitespace(s),
{
    lemma_normalize_dots_no_triple(s);
    lemma_words_no_triple(s);
    let ws = words(s);
    assert forall|i: int| 0 <= i < ws.len() - 1 implies !(is_ellipsis(#[trigger] ws[i])
        && is_ellipsis(ws[i + 1])) by {
        assert(no_triple(ws[i]));
        if is_ellipsis(ws[i]) {
            assert(ws[i][0] == '.' && ws[i][1] == '.' && ws[i][2] == '.');
        }
    }
    lemma_dedup_nothing_to_drop(ws);
}

fn push_dots(buf: &mut Vec<char>, n: usize)
    ensures
        final(buf)@ == old(buf)@ + flush_dots(n as nat),
{
    if n >= 3 {
        buf.push(' ');
        buf.push('.');
        buf.push('.');
        buf.push('.');
        buf.push(' ');
        assert(final(buf)@ =~= old(buf)@ + flush_dots(n as nat));
    } else {
        let mut k: usize = 0;
        while k < n
            invariant
                0 <= k <= n,
                buf@ == old(buf)@ + Seq::new(k as nat, |i: int| '.'),
            decreases n - k,
        {
            buf.push('.');
            k += 1;
            assert(buf@ =~= old(buf)@ + Seq::new(k as nat, |i: int| '.'));
        }
    }
}

fn dot_normalized(s: &Vec<char>) -> (r: Vec<char>)
    ensures
        r@ == normalize_dots(s@),
{
    let mut buf: Vec<char> = Vec::new();
    let mut dot_count: usize = 0;
    let mut i: usize = 0;
    while i < s.len()
        invariant
            0 <= i <= s.len(),
            dot_count <= i,
            (buf@, dot_count as nat) == dots_state(s@.take(i as int)),
        decreases s.len() - i,
    {
        let c = s[i];
        assert(s@.take(i + 1).drop_last() =~= s@.take(i as int));
        assert(s@.take(i + 1).last() == c);
        if c == '.' {
            dot_count += 1;
        } else {
            push_dots(&mut buf, dot_count);
            dot_count = 0;
            buf.push(c);
        }
        i += 1;
    }
    assert(s@.take(s.len() as int) =~= s@);
    push_dots(&mut buf, dot_count);
    buf
}

fn word_is_ellipsis(w: &Vec<char>) -> (b: bool)
    ensures
        b == is_ellipsis(w@),
{
    if w.len() == 3 && w[0] == '.' && w[1] == '.' && w[2] == '.' {
        assert(w@ =~= seq!['.', '.', '.']);
        true
    } else {
        false
    }
}

fn without_repeated_ellipses(ws: Vec<Vec<char>>) -> (r: Vec<Vec<char>>)
    ensures
        vviews(r@) == dedup_ellipses(vviews(ws@)),
{
    let ghost all = vviews(ws@);
    let mut kept: Vec<Vec<char>> = Vec::new();
    let mut prev_was_ellipsis = false;
    let mut i: usize = 0;
    while i < ws.len()
        invariant
            0 <= i <= ws.len(),
            all == vviews(ws@),
            vviews(kept@) == dedup_ellipses(all.take(i as int)),
            prev_was_ellipsis == (i > 0 && is_ellipsis(all[i - 1])),
        decreases ws.len() - i,
    {
        assert(all.take(i + 1).drop_last() =~= all.take(i as int));
        assert(all.take(i + 1).last() == all[i as int]);
        let w = slice_chars(&ws[i], 0, ws[i].len());
        assert(w@ =~= all[i as int]);
        let e = word_is_ellipsis(&w);
        if e {
            if !prev_was_ellipsis {
                let ghost before = vviews(kept@);
                let ghost wv = w@;
                kept.push(w);
                assert(vviews(kept@) =~= before.push(wv));
            }
            prev_was_ellipsis = true;
        } else {
            let ghost before = vviews(kept@);
            let ghost wv = w@;
            kept.push(w);
            assert(vviews(kept@) =~= before.push(wv));
            prev_was_ellipsis = false;
        }
        i += 1;
    }
    assert(all.take(ws.len() as int) =~= all);
    kept
}

/// Normalises ellipses in a snippet: runs of three or more dots become a
/// single `...` word, whitespace collapses to single spaces, and repeated
/// `...` words collapse to one.
pub fn collapse_snippet_ellipses(s: &str) -> (r: String)
    ensures
        r@ == collapsed(s@),
{
    let chars = chars_of(s);
    let normalized = dot_normalized(&chars);
    let ws = split_words(&normalized);
    let kept = without_repeated_ellipses(ws);
    let sep: Vec<char> = vec![' '];
    assert(sep@ =~= seq![' ']);
    let joined = join_words(&kept, &sep);
    string_of(&joined)
}

} // verus!
