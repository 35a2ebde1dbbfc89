//! The pages of an `extract` call: which lists are accepted, and how they are
//! split into requests.
use vstd::prelude::*;
use vstd::string::StringExecFns;
use crate::text::{chars_of, sviews};

verus! {

/// The most pages one `extract` call takes.
pub const MAX_PAGES: usize = 10;

/// `url` starts with `https://`.
pub open spec fn is_https(url: Seq<char>) -> bool {
    url.len() >= 8 && url.take(8) == seq!['h', 't', 't', 'p', 's', ':', '/', '/']
}

/// An accepted page list: 1 to 10 HTTPS URLs.
pub open spec fn pages_valid(urls: Seq<Seq<char>>) -> bool {
    1 <= urls.len() <= MAX_PAGES && forall|i: int| 0 <= i < urls.len() ==> is_https(#[trigger] urls[i])
}

fn starts_with_https(url: &str) -> (b: bool)
    ensures
        b == is_https(url@),
{
    let chars = chars_of(url);
    if chars.len() < 8 {
        return false;
    }
    let b = chars[0] == 'h' && chars[1] == 't' && chars[2] == 't' && chars[3] == 'p' && chars[4]
        == 's' && chars[5] == ':' && chars[6] == '/' && chars[7] == '/';
    assert(b ==> chars@.take(8) =~= seq!['h', 't', 't', 'p', 's', ':', '/', '/']);
    assert(chars@.take(8) == seq!['h', 't', 't', 'p', 's', ':', '/', '/'] ==> chars@[0] == 'h'
        && chars@[1] == 't' && chars@[2] == 't' && chars@[3] == 'p' && chars@[4] == 's'
        && chars@[5] == ':' && chars@[6] == '/' && chars@[7] == '/');
    b
}

/// Checks a page list: an error names what is wrong with it.
pub fn validate_pages(urls: &[String]) -> (r: Result<(), String>)
    ensures
        r is Ok <==> pages_valid(sviews(urls@)),
{
    if urls.len() == 0 || urls.len() > MAX_PAGES {
        return Err(String::from_str("pages must hold 1 to 10 URLs"));
    }
    let ghost v = sviews(urls@);
    let mut i: usize = 0;
    while i < urls.len()
        invariant
            0 <= i <= urls.len(),
            v == sviews(urls@),
            forall|j: int| 0 <= j < i ==> is_https(#[trigger] v[j]),
        decreases urls.len() - i,
    {
        assert(v[i as int] == urls@[i as int]@);
        if !starts_with_https(urls[i].as_str()) {
            let mut e = String::from_str("not an HTTPS URL: ");
            e.append(urls[i].as_str());
            return Err(e);
        }
        i += 1;
    }
    Ok(())
}

/// The requests an extraction makes: one per page when requests are split,
/// else one for all pages (none when there are no pages).
pub fn extract_batches(urls: &[String], split: bool) -> (r: Vec<Vec<String>>)
    ensures
        split ==> r.len() == urls.len() && forall|i: int|
            0 <= i < urls.len() ==> sviews((#[trigger] r@[i])@) == seq![urls@[i]@],
        !split && urls.len() == 0 ==> r.len() == 0,
        !split && urls.len() > 0 ==> r.len() == 1 && sviews(r@[0]@) == sviews(urls@),
{
    let mut r: Vec<Vec<String>> = Vec::new();
    if split {
        let mut i: usize = 0;
        while i < urls.len()
            invariant
                0 <= i <= urls.len(),
                r.len() == i,
                forall|k: int| 0 <= k < i ==> sviews((#[trigger] r@[k])@) == seq![urls@[k]@],
            decreases urls.len() - i,
        {
            let one = vec![urls[i].clone()];
            assert(sviews(one@) =~= seq![urls@[i as int]@]);
            r.push(one);
            i += 1;
        }
    } else if urls.len() > 0 {
        let mut all: Vec<String> = Vec::new();
        let mut i: usize = 0;
        while i < urls.len()
            invariant
                0 <= i <= urls.len(),
                sviews(all@) == sviews(urls@).take(i as int),
            decreases urls.len() - i,
        {
            let ghost prev = all@;
            let u = urls[i].clone();
            assert(sviews(prev).len() == prev.len());
            all.push(u);
            assert(all@ == prev.push(u));
            assert forall|x: int| 0 <= x < i + 1 implies #[trigger] sviews(all@)[x] == sviews(
                urls@,
            )[x] by {
                assert(sviews(all@)[x] == all@[x]@);
                assert(sviews(urls@)[x] == urls@[x]@);
                if x < i {
                    assert(all@[x] == prev[x]);
                    assert(sviews(prev)[x] == prev[x]@);
                    assert(sviews(prev)[x] == sviews(urls@).take(i as int)[x]);
                }
            }
            i += 1;
            assert(sviews(all@) =~= sviews(urls@).take(i as int));
        }
        assert(sviews(urls@).take(urls.len() as int) =~= sviews(urls@));
        r.push(all);
    }
    r
}

} // verus!
