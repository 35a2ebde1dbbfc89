//! Keeping responses within a size budget.
use vstd::prelude::*;
use vstd::string::{StringExecFns, StringSliceAdditionalSpecFns};
use crate::text::{
    char_utf8_width, chars_of, decimal, lemma_utf8_len_monotone, lemma_utf8_len_push, push_decimal,
    slice_chars, string_of, utf8_len,
};

verus! {

/// Default maximum response size in bytes (256 KiB).
pub const DEFAULT_MAX_RESPONSE_BYTES: usize = 262144;

/// The number of characters of the longest prefix of `s` whose UTF-8
/// encoding fits in `max` bytes.
pub open spec fn truncation_point(s: Seq<char>, max: nat) -> nat
    decreases s.len(),
{
    if utf8_len(s) <= max || s.len() == 0 {
        s.len()
    } else {
        truncation_point(s.drop_last(), max)
    }
}

/// The notice appended to truncated content.
pub open spec fn truncation_notice(total: nat) -> Seq<char> {
    "\n\n_(Content truncated. Total size: "@ + decimal(total) + " bytes)_"@
}

/// The response for `content` under a budget of `max` bytes.
pub open spec fn truncated(content: Seq<char>, max: nat) -> Seq<char> {
    if utf8_len(content) <= max {
        content
    } else {
        content.take(truncation_point(content, max) as int) + truncation_notice(utf8_len(content))
    }
}

/// The truncation point is the longest fitting prefix: it fits, and one
/// more character would not.
pub proof fn lemma_truncation_point_fits(s: Seq<char>, max: nat)
    ensures
        truncation_point(s, max) <= s.len(),
        utf8_len(s.take(truncation_point(s, max) as int)) <= max,
        truncation_point(s, max) < s.len() ==> utf8_len(s.take(truncation_point(s, max) + 1int))
            > max,
    decreases s.len(),
{
    if utf8_len(s) <= max || s.len() == 0 {
        assert(s.take(s.len() as int) =~= s);
        if s.len() == 0 {
            assert(s =~= seq![]);
        }
    } else {
        let t = s.drop_last();
        lemma_truncation_point_fits(t, max);
        let k = truncation_point(t, max);
        assert(s.take(k as int) =~= t.take(k as int));
        if k < t.len() {
            assert(s.take(k + 1int) =~= t.take(k + 1int));
        } else {
            assert(s.take(k + 1int) =~= s);
        }
    }
}

proof fn lemma_truncation_point_is(s: Seq<char>, max: nat, k: int, j: int)
    requires
        0 <= k < s.len(),
        utf8_len(s.take(k)) <= max,
        utf8_len(s.take(k + 1)) > max,
        k <= j <= s.len(),
    ensures
        truncation_point(s.take(j), max) == k,
    decreases j - k,
{
    if j == k {
        assert(s.take(j).len() == k);
    } else {
        lemma_truncation_point_is(s, max, k, j - 1);
        lemma_utf8_len_monotone(s, k + 1, j);
        assert(s.take(j).drop_last() =~= s.take(j - 1));
        assert(s.take(j).len() > 0);
    }
}

/// Content that fits is returned as it is. Content that does not is cut to
/// the longest prefix whose UTF-8 encoding fits in `max` bytes (one more
/// character would not fit), followed by the notice with the full size.
pub proof fn lemma_truncated_keeps_longest_fitting_prefix(content: Seq<char>, max: nat)
    ensures
        utf8_len(content) <= max ==> truncated(content, max) == content,
        utf8_len(content) > max ==> ({
            let r = truncated(content, max);
            let n = r.len() - truncation_notice(utf8_len(content)).len();
            &&& 0 <= n <= content.len()
            &&& r == content.take(n) + truncation_notice(utf8_len(content))
            &&& utf8_len(content.take(n)) <= max
            &&& n < content.len() ==> utf8_len(content.take(n + 1)) > max
        }),
{
    lemma_truncation_point_fits(content, max);
}

/// Returns `content` unchanged when its UTF-8 encoding fits in `max_bytes`;
/// otherwise cuts it at the last character boundary within the budget and
/// appends a notice with the full size in bytes.
pub fn truncate_response(content: &str, max_bytes: usize) -> (r: String)
    ensures
        r@ == truncated(content@, max_bytes as nat),
{
    let content_bytes = content.as_bytes().len();
    assert(content_bytes == utf8_len(content@));
    if content_bytes <= max_bytes {
        return content.to_owned();
    }
    let chars = chars_of(content);
    let mut acc: usize = 0;
    let mut i: usize = 0;
    assert(chars@.take(0) =~= seq![]);
    while i < chars.len()
        invariant
            0 <= i <= chars.len(),
            chars@ == content@,
            acc == utf8_len(chars@.take(i as int)),
            acc <= max_bytes,
        ensures
            0 <= i <= chars.len(),
            acc == utf8_len(chars@.take(i as int)),
            i == chars.len() || utf8_len(chars@.take(i + 1int)) > max_bytes,
        decreases chars.len() - i,
    {
        let w = char_utf8_width(chars[i]);
        proof {
            assert(chars@.take(i + 1) =~= chars@.take(i as int).push(chars@[i as int]));
            lemma_utf8_len_push(chars@.take(i as int), chars@[i as int]);
        }
        if w > max_bytes - acc {
            break;
        }
        acc += w;
        i += 1;
    }
    proof {
        if i == chars.len() {
            assert(chars@.take(i as int) =~= content@);
            assert(false);
        }
        lemma_truncation_point_is(content@, max_bytes as nat, i as int, content@.len() as int);
        assert(content@.take(content@.len() as int) =~= content@);
    }
    let kept = slice_chars(&chars, 0, i);
    assert(kept@ =~= content@.take(i as int));
    let mut out = string_of(&kept);
    out.append("\n\n_(Content truncated. Total size: ");
    push_decimal(&mut out, content_bytes as u64);
    out.append(" bytes)_");
    assert(out@ =~= truncated(content@, max_bytes as nat));
    out
}

} // verus!
