//! Small text transformations applied to result titles, snippets and dates.
use vstd::prelude::*;
use vstd::string::StringSliceAdditionalSpecFns;
use vstd::utf8::{decode_utf8, encode_utf8, encode_utf8_decode_utf8, encode_utf8_valid_utf8, is_char_boundary_iff_not_is_continuation_byte};
use crate::text::{chars_of, join, join_words, lemma_words_are_words, lemma_words_of_join, split_words, string_of, words};

verus! {

/// The pattern that matches one HTML tag: `<`, one or more characters other
/// than `>`, then `>`.
pub open spec fn html_tag_pattern() -> Seq<char> {
    seq!['<', '[', '^', '>', ']', '+', '>']
}

/// The result of compiling `pattern` with the `regex` crate and replacing
/// every match in `haystack` by `replacement`; `None` when the pattern does
/// not compile.
pub uninterp spec fn regex_replace_all_result(
    pattern: Seq<char>,
    haystack: Seq<char>,
    replacement: Seq<char>,
) -> Option<Seq<char>>;

/// The result of `html_escape::decode_html_entities` on `text`.
pub uninterp spec fn html_entities_decoded(text: Seq<char>) -> Seq<char>;

/// The index of the first `>` in `s`, if there is one.
pub open spec fn first_close(s: Seq<char>) -> Option<int>
    decreases s.len(),
{
    if s.len() == 0 {
        None
    } else if s[0] == '>' {
        Some(0)
    } else {
        match first_close(s.drop_first()) {
            Some(j) => Some(j + 1),
            None => None,
        }
    }
}

/// `first_close` finds the first `>`, and finds none only where there is none.
pub proof fn lemma_first_close(s: Seq<char>)
    ensures
        match first_close(s) {
            Some(j) => 0 <= j < s.len() && s[j] == '>' && forall|k: int| 0 <= k < j ==> s[k] != '>',
            None => !s.contains('>'),
        },
    decreases s.len(),
{
    if s.len() > 0 && s[0] != '>' {
        let t = s.drop_first();
        lemma_first_close(t);
        match first_close(t) {
            Some(j) => {
                assert forall|k: int| 0 <= k < j + 1 implies s[k] != '>' by {
                    if k > 0 {
                        assert(s[k] == t[k - 1]);
                    }
                }
            },
            None => {
                assert forall|k: int| 0 <= k < s.len() implies s[k] != '>' by {
                    if k > 0 {
                        assert(s[k] == t[k - 1]);
                    }
                }
            },
        }
    }
}

/// `s` starts with an HTML tag: `<`, one or more characters other than `>`,
/// then `>`.
pub open spec fn starts_with_tag(s: Seq<char>) -> bool {
    &&& s.len() > 0
    &&& s[0] == '<'
    &&& first_close(s) is Some
    &&& first_close(s)->0 >= 2
}

/// `s` with its HTML tags removed, scanning from the left: a tag that starts
/// here is dropped whole and the scan goes on after its `>`; any other
/// character is kept.
pub open spec fn tags_removed(s: Seq<char>) -> Seq<char>
    decreases s.len(),
{
    if s.len() == 0 {
        s
    } else if starts_with_tag(s) {
        proof {
            lemma_first_close(s);
        }
        tags_removed(s.skip(first_close(s)->0 + 1))
    } else {
        seq![s[0]] + tags_removed(s.drop_first())
    }
}

/// Calls `regex::Regex::new(pattern)` and, when it compiles,
/// `Regex::replace_all(haystack, replacement)`. The contract claims that the
/// result is a function of the three strings, and, for the tag pattern
/// `<[^>]+>` replaced by nothing, what it is: the pattern compiles, and the
/// leftmost non-overlapping matches, each a `<`, one or more characters other
/// than `>` and the first `>` after them, are removed.
#[verifier::external_body]
fn regex_replace_all(pattern: &str, haystack: &str, replacement: &str) -> (r: Option<String>)
    ensures
        regex_replace_all_result(pattern@, haystack@, replacement@) == match r {
            Some(t) => Some(t@),
            None => None::<Seq<char>>,
        },
        pattern@ == html_tag_pattern() && replacement@ == Seq::<char>::empty() ==> r is Some
            && r->0@ == tags_removed(haystack@),
{
    match regex::Regex::new(pattern) {
        Ok(re) => Some(re.replace_all(haystack, replacement).into_owned()),
        Err(_) => None,
    }
}

/// Calls `html_escape::decode_html_entities(text)`, which never fails; the
/// contract claims that the result is a function of `text`.
#[verifier::external_body]
fn decode_html_entities(text: &str) -> (r: String)
    ensures
        html_entities_decoded(text@) == r@,
{
    html_escape::decode_html_entities(text).into_owned()
}

/// Whether `c` occurs in `s`.
pub fn str_contains_char(s: &str, c: char) -> (b: bool)
    ensures
        b == s@.contains(c),
{
    let chars = chars_of(s);
    let mut i: usize = 0;
    while i < chars.len()
        invariant
            0 <= i <= chars.len(),
            chars@ == s@,
            forall|j: int| 0 <= j < i ==> chars@[j] != c,
        decreases chars.len() - i,
    {
        if chars[i] == c {
            assert(s@[i as int] == c);
            return true;
        }
        i += 1;
    }
    false
}

fn html_tag_pattern_str() -> (r: String)
    ensures
        r@ == html_tag_pattern(),
{
    let v: Vec<char> = vec!['<', '[', '^', '>', ']', '+', '>'];
    assert(v@ =~= html_tag_pattern());
    string_of(&v)
}

/// Text without `<` has no tag to remove.
pub proof fn lemma_tags_removed_without_lt(s: Seq<char>)
    requires
        !s.contains('<'),
    ensures
        tags_removed(s) == s,
    decreases s.len(),
{
    if s.len() > 0 {
        let t = s.drop_first();
        assert(!t.contains('<')) by {
            if t.contains('<') {
                let k = choose|k: int| 0 <= k < t.len() && t[k] == '<';
                assert(s[k + 1] == '<');
            }
        }
        lemma_tags_removed_without_lt(t);
        assert(s =~= seq![s[0]] + t);
    }
}

/// No position of `s` starts a tag.
pub open spec fn tag_free(s: Seq<char>) -> bool {
    forall|i: int| 0 <= i < s.len() ==> !starts_with_tag(#[trigger] s.skip(i))
}

proof fn lemma_tag_free_unchanged(s: Seq<char>)
    requires
        tag_free(s),
    ensures
        tags_removed(s) == s,
    decreases s.len(),
{
    if s.len() > 0 {
        let t = s.drop_first();
        assert(s.skip(0) =~= s);
        assert forall|i: int| 0 <= i < t.len() implies !starts_with_tag(#[trigger] t.skip(i)) by {
            assert(t.skip(i) =~= s.skip(i + 1));
        }
        lemma_tag_free_unchanged(t);
        assert(s =~= seq![s[0]] + t);
    }
}

proof fn lemma_no_close_stays_out(s: Seq<char>)
    requires
        !s.contains('>'),
    ensures
        !tags_removed(s).contains('>'),
    decreases s.len(),
{
    lemma_first_close(s);
    if s.len() > 0 {
        let t = s.drop_first();
        assert(!t.contains('>')) by {
            if t.contains('>') {
                let k = choose|k: int| 0 <= k < t.len() && t[k] == '>';
                assert(s[k + 1] == '>');
            }
        }
        lemma_no_close_stays_out(t);
        let r = tags_removed(s);
        let rt = tags_removed(t);
        assert(r == seq![s[0]] + rt);
        assert forall|k: int| 0 <= k < r.len() implies r[k] != '>' by {
            if k > 0 {
                assert(r[k] == rt[k - 1]);
            } else {
                assert(s[0] != '>');
            }
        }
    }
}

proof fn lemma_tags_removed_tag_free(s: Seq<char>)
    ensures
        tag_free(tags_removed(s)),
    decreases s.len(),
{
    if s.len() > 0 {
        lemma_first_close(s);
        if starts_with_tag(s) {
            lemma_tags_removed_tag_free(s.skip(first_close(s)->0 + 1));
        } else {
            let t = s.drop_first();
            lemma_tags_removed_tag_free(t);
            let r = tags_removed(s);
            let rt = tags_removed(t);
            assert(r == seq![s[0]] + rt);
            assert(r.drop_first() =~= rt);
            assert forall|i: int| 0 <= i < r.len() implies !starts_with_tag(#[trigger] r.skip(i)) by {
                if i > 0 {
                    assert(r.skip(i) =~= rt.skip(i - 1));
                } else {
                    assert(r.skip(0) =~= r);
                    if s[0] == '<' {
                        lemma_first_close(t);
                        match first_close(t) {
                            None => {
                                lemma_no_close_stays_out(t);
                                lemma_first_close(rt);
                                assert(first_close(rt) is None);
                                assert(first_close(r) is None);
                            },
                            Some(j) => {
                                assert(j == 0);
                                assert(t[0] == '>');
                                assert(!starts_with_tag(t));
                                assert(rt == seq![t[0]] + tags_removed(t.drop_first()));
                                assert(rt[0] == '>');
                                assert(first_close(rt) == Some(0int));
                                assert(first_close(r) == Some(1int));
                            },
                        }
                    }
                }
            }
        }
    }
}

/// Stripping tags twice strips nothing more: what is left holds no tag.
pub proof fn lemma_strip_html_tags_idempotent(s: Seq<char>)
    ensures
        tags_removed(tags_removed(s)) == tags_removed(s),
{
    lemma_tags_removed_tag_free(s);
    lemma_tag_free_unchanged(tags_removed(s));
}

/// Removes HTML tags (`<...>`) from `s`, keeping the text between them.
/// Text without `<` comes back unchanged; otherwise every match of the tag
/// pattern `<[^>]+>` is removed by the `regex` crate.
pub fn strip_html_tags(s: &str) -> (r: String)
    ensures
        r@ == tags_removed(s@),
{
    if !str_contains_char(s, '<') {
        proof {
            lemma_tags_removed_without_lt(s@);
        }
        return s.to_owned();
    }
    let pattern = html_tag_pattern_str();
    let empty = String::new();
    proof {
        assert(empty@ =~= Seq::<char>::empty());
    }
    match regex_replace_all(pattern.as_str(), s, empty.as_str()) {
        Some(t) => t,
        None => s.to_owned(),
    }
}

/// `s` with its HTML entities decoded; text without `&` is left as it is.
pub open spec fn entities_decoded(s: Seq<char>) -> Seq<char> {
    if s.contains('&') {
        html_entities_decoded(s)
    } else {
        s
    }
}

/// Decodes HTML entities (`&amp;`, `&#39;`, ...) in `s`. Text without `&`
/// comes back unchanged; otherwise `html_escape` decodes it.
pub fn decode_entities(s: &str) -> (r: String)
    ensures
        r@ == entities_decoded(s@),
{
    if !str_contains_char(s, '&') {
        return s.to_owned();
    }
    decode_html_entities(s)
}

/// The words of `s` joined by single spaces.
pub open spec fn normalized_whitespace(s: Seq<char>) -> Seq<char> {
    join(words(s), seq![' '])
}

/// Collapses every run of whitespace to a single space and drops leading and
/// trailing whitespace.
pub fn normalize_title_whitespace(s: &str) -> (r: String)
    ensures
        r@ == normalized_whitespace(s@),
{
    let chars = chars_of(s);
    let ws = split_words(&chars);
    let sep: Vec<char> = vec![' '];
    assert(sep@ =~= seq![' ']);
    let joined = join_words(&ws, &sep);
    string_of(&joined)
}

/// Normalizing keeps the words of the text, and normalizing again changes
/// nothing.
pub proof fn lemma_normalize_title_whitespace_idempotent(s: Seq<char>)
    ensures
        words(normalized_whitespace(s)) == words(s),
        normalized_whitespace(normalized_whitespace(s)) == normalized_whitespace(s),
{
    lemma_words_are_words(s);
    lemma_words_of_join(words(s));
}

/// The UTF-8 bytes of `s` start like an ISO-8601 timestamp: a `-` at byte
/// offsets 4 and 7 and a `T` at offset 10.
pub open spec fn iso_timestamp_shaped(bytes: Seq<u8>) -> bool {
    bytes.len() >= 11 && bytes[4] == 0x2D && bytes[7] == 0x2D && bytes[10] == 0x54
}

/// The date part of an ISO-8601 timestamp (its first ten bytes); any other
/// text as it is.
pub open spec fn iso_date(s: Seq<char>) -> Seq<char> {
    if iso_timestamp_shaped(encode_utf8(s)) {
        decode_utf8(encode_utf8(s).take(10))
    } else {
        s
    }
}

/// Cuts an ISO-8601 timestamp down to its date (the first ten bytes);
/// anything else comes back unchanged.
pub fn trim_iso_date(s: &str) -> (r: String)
    ensures
        r@ == iso_date(s@),
        iso_timestamp_shaped(encode_utf8(s@)) ==> encode_utf8(r@) == encode_utf8(s@).take(10),
        !iso_timestamp_shaped(encode_utf8(s@)) ==> r@ == s@,
{
    let bytes = s.as_bytes();
    if bytes.len() >= 11 && bytes[4] == 0x2D && bytes[7] == 0x2D && bytes[10] == 0x54 {
        proof {
            encode_utf8_valid_utf8(s@);
            is_char_boundary_iff_not_is_continuation_byte(encode_utf8(s@), 10);
        }
        let (head, _tail) = s.split_at(10);
        let r = head.to_owned();
        assert(head.spec_bytes() =~= encode_utf8(s@).subrange(0, 10));
        assert(encode_utf8(r@) == head.spec_bytes());
        assert(encode_utf8(s@).subrange(0, 10) =~= encode_utf8(s@).take(10));
        proof { encode_utf8_decode_utf8(r@); }
        r
    } else {
        s.to_owned()
    }
}

} // verus!
