//! Infobox properties in key order, as a JSON object lists them.
use vstd::prelude::*;
use crate::text::chars_of;

verus! {

/// `a` sorts before `b`: compared character by character by code point, a
/// proper prefix first. On UTF-8 text this is the byte order of `String`.
pub open spec fn key_lt(a: Seq<char>, b: Seq<char>) -> bool
    decreases a.len(),
{
    if a.len() == 0 {
        b.len() > 0
    } else if b.len() == 0 {
        false
    } else if a[0] != b[0] {
        (a[0] as u32) < (b[0] as u32)
    } else {
        key_lt(a.drop_first(), b.drop_first())
    }
}

/// A property as plain text: its key and its value.
pub open spec fn pair_view(p: (String, String)) -> (Seq<char>, Seq<char>) {
    (p.0@, p.1@)
}

/// `x` inserted into `s` before the first pair whose key sorts after its own.
pub open spec fn insert_by_key(
    s: Seq<(Seq<char>, Seq<char>)>,
    x: (Seq<char>, Seq<char>),
) -> Seq<(Seq<char>, Seq<char>)>
    decreases s.len(),
{
    if s.len() == 0 {
        seq![x]
    } else if key_lt(x.0, s[0].0) {
        seq![x] + s
    } else {
        seq![s[0]] + insert_by_key(s.drop_first(), x)
    }
}

/// `s` sorted by key; pairs with equal keys keep their order.
pub open spec fn sorted_by_key(s: Seq<(Seq<char>, Seq<char>)>) -> Seq<(Seq<char>, Seq<char>)>
    decreases s.len(),
{
    if s.len() == 0 {
        s
    } else {
        insert_by_key(sorted_by_key(s.drop_last()), s.last())
    }
}

/// Whether key `a` sorts before key `b`.
pub fn key_less(a: &String, b: &String) -> (r: bool)
    ensures
        r == key_lt(a@, b@),
{
    let x = chars_of(a.as_str());
    let y = chars_of(b.as_str());
    let mut i: usize = 0;
    assert(a@.skip(0) =~= a@);
    assert(b@.skip(0) =~= b@);
    while i < x.len() && i < y.len() && x[i] == y[i]
        invariant
            0 <= i <= x.len(),
            i <= y.len(),
            x@ == a@,
            y@ == b@,
            key_lt(a@, b@) == key_lt(a@.skip(i as int), b@.skip(i as int)),
        decreases x.len() - i,
    {
        assert(a@.skip(i as int).drop_first() =~= a@.skip(i + 1));
        assert(b@.skip(i as int).drop_first() =~= b@.skip(i + 1));
        i += 1;
    }
    if i == x.len() {
        i < y.len()
    } else if i == y.len() {
        false
    } else {
        assert(a@.skip(i as int)[0] == x[i as int]);
        assert(b@.skip(i as int)[0] == y[i as int]);
        (x[i] as u32) < (y[i] as u32)
    }
}

proof fn lemma_insert_at(s: Seq<(Seq<char>, Seq<char>)>, x: (Seq<char>, Seq<char>), p: int)
    requires
        0 <= p <= s.len(),
        forall|k: int| 0 <= k < p ==> !key_lt(x.0, #[trigger] s[k].0),
        p < s.len() ==> key_lt(x.0, s[p].0),
    ensures
        insert_by_key(s, x) == s.take(p) + seq![x] + s.skip(p),
    decreases s.len(),
{
    if s.len() == 0 {
        assert(s.take(p) + seq![x] + s.skip(p) =~= seq![x]);
    } else if p == 0 {
        assert(s.take(0) + seq![x] + s.skip(0) =~= seq![x] + s);
    } else {
        let t = s.drop_first();
        assert(!key_lt(x.0, s[0].0));
        assert forall|k: int| 0 <= k < p - 1 implies !key_lt(x.0, #[trigger] t[k].0) by {
            assert(t[k] == s[k + 1]);
        }
        if p < s.len() {
            assert(t[p - 1] == s[p]);
        }
        lemma_insert_at(t, x, p - 1);
        assert(s.take(p) + seq![x] + s.skip(p) =~= seq![s[0]] + (t.take(p - 1) + seq![x] + t.skip(
            p - 1,
        )));
    }
}

/// The properties sorted by key, stably.
pub fn sort_by_key(v: &Vec<(String, String)>) -> (r: Vec<(String, String)>)
    ensures
        r@.map_values(|p: (String, String)| pair_view(p)) == sorted_by_key(
            v@.map_values(|p: (String, String)| pair_view(p)),
        ),
{
    let ghost src = v@.map_values(|p: (String, String)| pair_view(p));
    let mut r: Vec<(String, String)> = Vec::new();
    let mut i: usize = 0;
    while i < v.len()
        invariant
            0 <= i <= v.len(),
            src == v@.map_values(|p: (String, String)| pair_view(p)),
            r@.map_values(|p: (String, String)| pair_view(p)) == sorted_by_key(src.take(i as int)),
        decreases v.len() - i,
    {
        let ghost before = r@.map_values(|p: (String, String)| pair_view(p));
        let x = (v[i].0.clone(), v[i].1.clone());
        let ghost xv = pair_view(x);
        assert(xv == src[i as int]);
        let mut p: usize = 0;
        while p < r.len() && !key_less(&x.0, &r[p].0)
            invariant
                0 <= p <= r.len(),
                before == r@.map_values(|q: (String, String)| pair_view(q)),
                xv == pair_view(x),
                forall|k: int| 0 <= k < p ==> !key_lt(xv.0, #[trigger] before[k].0),
            decreases r.len() - p,
        {
            assert(before[p as int] == pair_view(r@[p as int]));
            p += 1;
        }
        if p < r.len() {
            assert(before[p as int] == pair_view(r@[p as int]));
        }
        proof {
            lemma_insert_at(before, xv, p as int);
        }
        r.insert(p, x);
        assert(r@.map_values(|q: (String, String)| pair_view(q)) =~= before.take(p as int) + seq![
            xv,
        ] + before.skip(p as int));
        assert(src.take(i + 1).drop_last() =~= src.take(i as int));
        assert(src.take(i + 1).last() == xv);
        i += 1;
    }
    assert(src.take(v.len() as int) =~= src);
    r
}

proof fn lemma_key_lt_asymmetric(a: Seq<char>, b: Seq<char>)
    requires
        key_lt(a, b),
    ensures
        !key_lt(b, a),
    decreases a.len(),
{
    if a.len() > 0 && b.len() > 0 && a[0] == b[0] {
        lemma_key_lt_asymmetric(a.drop_first(), b.drop_first());
    }
}

/// No pair of `s` has a key that sorts before the key of the pair before it.
pub open spec fn in_key_order(s: Seq<(Seq<char>, Seq<char>)>) -> bool {
    forall|i: int| 0 < i < s.len() ==> !key_lt(#[trigger] s[i].0, s[i - 1].0)
}

proof fn lemma_insert_keeps_order(s: Seq<(Seq<char>, Seq<char>)>, x: (Seq<char>, Seq<char>))
    requires
        in_key_order(s),
    ensures
        in_key_order(insert_by_key(s, x)),
        insert_by_key(s, x).len() == s.len() + 1,
        s.len() > 0 ==> insert_by_key(s, x)[0] == x || insert_by_key(s, x)[0] == s[0],
    decreases s.len(),
{
    if s.len() > 0 {
        if key_lt(x.0, s[0].0) {
            lemma_key_lt_asymmetric(x.0, s[0].0);
            let r = seq![x] + s;
            assert forall|i: int| 0 < i < r.len() implies !key_lt(#[trigger] r[i].0, r[i - 1].0) by {
                if i > 1 {
                    assert(r[i] == s[i - 1] && r[i - 1] == s[i - 2]);
                }
            }
        } else {
            let t = s.drop_first();
            assert forall|i: int| 0 < i < t.len() implies !key_lt(#[trigger] t[i].0, t[i - 1].0) by {
                assert(t[i] == s[i + 1] && t[i - 1] == s[i]);
            }
            lemma_insert_keeps_order(t, x);
            let it = insert_by_key(t, x);
            let r = seq![s[0]] + it;
            if t.len() > 0 {
                assert(t[0] == s[1]);
            }
            assert forall|i: int| 0 < i < r.len() implies !key_lt(#[trigger] r[i].0, r[i - 1].0) by {
                if i > 1 {
                    assert(r[i] == it[i - 1] && r[i - 1] == it[i - 2]);
                } else {
                    assert(r[1] == it[0]);
                }
            }
        }
    }
}

/// Sorting leaves the properties in key order.
pub proof fn lemma_sorted_by_key_in_order(s: Seq<(Seq<char>, Seq<char>)>)
    ensures
        in_key_order(sorted_by_key(s)),
        sorted_by_key(s).len() == s.len(),
    decreases s.len(),
{
    if s.len() > 0 {
        lemma_sorted_by_key_in_order(s.drop_last());
        lemma_insert_keeps_order(sorted_by_key(s.drop_last()), s.last());
    }
}

} // verus!
