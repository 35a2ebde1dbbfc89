//! The key under which search results are grouped: the `group_id` the API
//! sends, else the registrable domain (eTLD+1) of the result's URL.
use vstd::prelude::*;
use vstd::string::StringSliceAdditionalSpecFns;
use crate::api::response::SearchResult;
use crate::text::{chars_between, chars_of};

verus! {

/// The public suffixes known to the grouping: common top-level domains and
/// well-known second-level public suffixes, in the Public Suffix List format.
pub const PSL_DATA: &'static str = "// BEGIN ICANN DOMAINS\ncom\norg\nnet\ngov\nedu\nmil\nuk\nde\njp\nfr\nau\nbr\nco.uk\norg.uk\nac.uk\ngov.uk\nme.uk\nnet.uk\nsch.uk\ncom.au\nnet.au\norg.au\nco.jp\nne.jp\nor.jp\nco.nz\nnet.nz\norg.nz\n";

/// The host of a URL as plain values.
pub enum HostView {
    Ipv4(Seq<char>),
    Ipv6(Seq<char>),
    Domain(Seq<char>),
}

/// The host of a URL: an address in its usual text form, or a domain name.
pub enum UrlHost {
    Ipv4(String),
    Ipv6(String),
    Domain(String),
}

impl View for UrlHost {
    type V = HostView;

    open spec fn view(&self) -> HostView {
        match self {
            UrlHost::Ipv4(s) => HostView::Ipv4(s@),
            UrlHost::Ipv6(s) => HostView::Ipv6(s@),
            UrlHost::Domain(s) => HostView::Domain(s@),
        }
    }
}

/// The host that the `url` crate finds in a URL, if it parses and has one.
pub uninterp spec fn url_host(url: Seq<char>) -> Option<HostView>;

/// The view of an optional host.
pub open spec fn opt_host_view(h: Option<UrlHost>) -> Option<HostView> {
    match h {
        Some(x) => Some(x@),
        None => None,
    }
}

/// `url::Url::parse` then `Url::host`: the host of `url`, with addresses
/// written by their `Display`. The result is named `url_host`; the URL
/// grammar it follows is not restated here.
#[verifier::external_body]
fn parse_url_host(url: &str) -> (r: Option<UrlHost>)
    ensures
        opt_host_view(r) == url_host(url@),
{
    let parsed = match url::Url::parse(url) {
        Ok(u) => u,
        Err(_) => return None,
    };
    match parsed.host() {
        Some(url::Host::Ipv4(a)) => Some(UrlHost::Ipv4(a.to_string())),
        Some(url::Host::Ipv6(a)) => Some(UrlHost::Ipv6(a.to_string())),
        Some(url::Host::Domain(d)) => Some(UrlHost::Domain(d.to_owned())),
        None => None,
    }
}

/// The registrable domain that `publicsuffix` finds for `host` in the list
/// written in `list`, if any.
pub uninterp spec fn psl_domain(list: Seq<u8>, host: Seq<char>) -> Option<Seq<char>>;

/// The view of an optional string.
pub open spec fn opt_str_view(o: Option<String>) -> Option<Seq<char>> {
    match o {
        Some(s) => Some(s@),
        None => None,
    }
}

/// `publicsuffix::List::from_bytes` on `list`, then `Psl::domain` on the
/// bytes of `host`. The result is named `psl_domain`; the suffix matching it
/// performs is not restated here.
#[verifier::external_body]
fn registrable_domain(list: &[u8], host: &str) -> (r: Option<String>)
    ensures
        opt_str_view(r) == psl_domain(list@, host@),
{
    let psl = match publicsuffix::List::from_bytes(list) {
        Ok(l) => l,
        Err(_) => return None,
    };
    match publicsuffix::Psl::domain(&psl, host.as_bytes()) {
        Some(d) => match std::str::from_utf8(d.as_bytes()) {
            Ok(s) => Some(s.to_owned()),
            Err(_) => None,
        },
        None => None,
    }
}

/// The text of `s` after its last `c`; all of `s` when `c` does not occur.
pub open spec fn after_last(s: Seq<char>, c: char) -> Seq<char>
    decreases s.len(),
{
    if s.len() == 0 {
        s
    } else if s.last() == c {
        seq![]
    } else {
        after_last(s.drop_last(), c).push(s.last())
    }
}

/// The text of `s` before its last `c`, when `c` occurs.
pub open spec fn before_last(s: Seq<char>, c: char) -> Option<Seq<char>>
    decreases s.len(),
{
    if s.len() == 0 {
        None
    } else if s.last() == c {
        Some(s.drop_last())
    } else {
        before_last(s.drop_last(), c)
    }
}

/// A domain cut to its last two dot-separated labels; a domain of one or two
/// labels stays whole.
pub open spec fn last_two_labels(d: Seq<char>) -> Seq<char> {
    match before_last(d, '.') {
        None => d,
        Some(p) => match before_last(p, '.') {
            None => d,
            Some(_) => after_last(p, '.') + seq!['.'] + after_last(d, '.'),
        },
    }
}

/// The grouping key of a host: an address as written; for a domain, its
/// registrable domain by the public suffix list, else its last two labels.
pub open spec fn host_key(h: HostView) -> Seq<char> {
    match h {
        HostView::Ipv4(a) => a,
        HostView::Ipv6(a) => a,
        HostView::Domain(d) => match psl_domain(PSL_DATA.spec_bytes(), d) {
            Some(r) => r,
            None => last_two_labels(d),
        },
    }
}

/// The `group_id` of a result, when the API sent a non-empty one.
pub open spec fn sent_group_id(r: SearchResult) -> Option<Seq<char>> {
    match r.props {
        Some(p) => match p.group_id {
            Some(g) => if g@.len() > 0 {
                Some(g@)
            } else {
                None
            },
            None => None,
        },
        None => None,
    }
}

/// The registrable domain of a URL's host (an address as written), when the
/// URL parses and has a host.
pub open spec fn url_key(url: Seq<char>) -> Option<Seq<char>> {
    match url_host(url) {
        Some(h) => Some(host_key(h)),
        None => None,
    }
}

/// The grouping key of a search result.
pub open spec fn group_key(r: SearchResult) -> Option<Seq<char>> {
    match sent_group_id(r) {
        Some(g) => Some(g),
        None => url_key(r.url@),
    }
}

proof fn lemma_last_char(s: Seq<char>, c: char, i: int)
    requires
        -1 <= i < s.len(),
        i >= 0 ==> s[i] == c,
        forall|k: int| i < k < s.len() ==> s[k] != c,
    ensures
        i >= 0 ==> before_last(s, c) == Some(s.take(i)) && after_last(s, c) == s.skip(i + 1),
        i == -1 ==> before_last(s, c) == Option::<Seq<char>>::None && after_last(s, c) == s,
    decreases s.len(),
{
    if s.len() > 0 && i < s.len() - 1 {
        let t = s.drop_last();
        lemma_last_char(t, c, i);
        if i >= 0 {
            assert(t.take(i) =~= s.take(i));
            assert(t.skip(i + 1).push(s.last()) =~= s.skip(i + 1));
        } else {
            assert(t.push(s.last()) =~= s);
        }
    } else if s.len() > 0 {
        assert(s.drop_last() =~= s.take(i));
        assert(s.skip(i + 1) =~= seq![]);
    }
}

/// The index of the last `c` in `chars[..end]`.
fn rfind_char(chars: &Vec<char>, end: usize, c: char) -> (r: Option<usize>)
    requires
        end <= chars.len(),
    ensures
        match r {
            Some(i) => i < end && chars@[i as int] == c && forall|k: int|
                i < k < end ==> chars@[k] != c,
            None => forall|k: int| 0 <= k < end ==> chars@[k] != c,
        },
{
    let mut i = end;
    while i > 0
        invariant
            i <= end <= chars.len(),
            forall|k: int| i <= k < end ==> chars@[k] != c,
        decreases i,
    {
        if chars[i - 1] == c {
            return Some(i - 1);
        }
        i -= 1;
    }
    None
}

/// `domain` cut to its last two labels.
fn last_two_labels_of(domain: &str) -> (r: String)
    ensures
        r@ == last_two_labels(domain@),
{
    let chars = chars_of(domain);
    let n = chars.len();
    match rfind_char(&chars, n, '.') {
        None => {
            proof {
                lemma_last_char(chars@, '.', -1);
            }
            chars_between(&chars, 0, n)
        },
        Some(i) => {
            proof {
                lemma_last_char(chars@, '.', i as int);
            }
            let ghost p = chars@.take(i as int);
            match rfind_char(&chars, i, '.') {
                None => {
                    proof {
                        assert forall|k: int| 0 <= k < p.len() implies p[k] != '.' by {}
                        lemma_last_char(p, '.', -1);
                        assert(chars@.subrange(0, n as int) =~= chars@);
                    }
                    chars_between(&chars, 0, n)
                },
                Some(j) => {
                    proof {
                        assert forall|k: int| j < k < p.len() implies p[k] != '.' by {}
                        lemma_last_char(p, '.', j as int);
                        assert(chars@.subrange(j + 1, n as int) =~= p.skip(j + 1) + seq!['.']
                            + chars@.skip(i + 1));
                    }
                    chars_between(&chars, j + 1, n)
                },
            }
        },
    }
}

/// The key under which a search result is grouped: its non-empty `group_id`
/// when the API sent one, else the registrable domain of its URL's host
/// (addresses as written). `None` when the URL does not parse or has no host.
pub fn extract_group_key(result: &SearchResult) -> (r: Option<String>)
    ensures
        opt_str_view(r) == group_key(*result),
{
    match &result.props {
        Some(p) => match &p.group_id {
            Some(g) => {
                if !g.as_str().is_empty() {
                    return Some(g.clone());
                }
            },
            None => {},
        },
        None => {},
    }
    registrable_key(result.url.as_str())
}

/// The registrable domain (eTLD+1) of the host of `url`; an address is kept
/// as written. `None` when the URL does not parse or has no host.
pub fn registrable_key(url: &str) -> (r: Option<String>)
    ensures
        opt_str_view(r) == url_key(url@),
{
    match parse_url_host(url) {
        None => None,
        Some(UrlHost::Ipv4(a)) => Some(a),
        Some(UrlHost::Ipv6(a)) => Some(a),
        Some(UrlHost::Domain(d)) => match registrable_domain(PSL_DATA.as_bytes(), d.as_str()) {
            Some(r) => Some(r),
            None => Some(last_two_labels_of(d.as_str())),
        },
    }
}

// ---------------------------------------------------------------------------
// Results per domain group
// ---------------------------------------------------------------------------

/// How many results of `rs` have the grouping key `g`.
pub open spec fn count_in_group(rs: Seq<SearchResult>, g: Seq<char>) -> nat
    decreases rs.len(),
{
    if rs.len() == 0 {
        0
    } else {
        count_in_group(rs.drop_last(), g) + if group_key(rs.last()) == Some(g) {
            1nat
        } else {
            0nat
        }
    }
}

/// The results of `rs`, in order, keeping at most `k` of each domain group;
/// a result without a grouping key is always kept.
pub open spec fn capped_per_group(rs: Seq<SearchResult>, k: nat) -> Seq<SearchResult>
    decreases rs.len(),
{
    if rs.len() == 0 {
        seq![]
    } else {
        let kept = capped_per_group(rs.drop_last(), k);
        match group_key(rs.last()) {
            Some(g) => if count_in_group(kept, g) < k {
                kept.push(rs.last())
            } else {
                kept
            },
            None => kept.push(rs.last()),
        }
    }
}

/// How many of `keys` are `g`.
pub open spec fn count_keys(keys: Seq<Option<Seq<char>>>, g: Seq<char>) -> nat
    decreases keys.len(),
{
    if keys.len() == 0 {
        0
    } else {
        count_keys(keys.drop_last(), g) + if keys.last() == Some(g) {
            1nat
        } else {
            0nat
        }
    }
}

/// The views of optional strings.
pub open spec fn opt_str_views(v: Seq<Option<String>>) -> Seq<Option<Seq<char>>> {
    v.map_values(|o: Option<String>| opt_str_view(o))
}

proof fn lemma_count_keys(kept: Seq<SearchResult>, keys: Seq<Option<Seq<char>>>, g: Seq<char>)
    requires
        kept.len() == keys.len(),
        forall|j: int| 0 <= j < keys.len() ==> keys[j] == group_key(#[trigger] kept[j]),
    ensures
        count_keys(keys, g) == count_in_group(kept, g),
    decreases kept.len(),
{
    if kept.len() > 0 {
        let k2 = kept.drop_last();
        let s2 = keys.drop_last();
        assert forall|j: int| 0 <= j < s2.len() implies s2[j] == group_key(#[trigger] k2[j]) by {
            assert(s2[j] == keys[j]);
            assert(k2[j] == kept[j]);
        }
        lemma_count_keys(k2, s2, g);
        assert(keys.last() == group_key(kept.last()));
    }
}

fn count_key(keys: &Vec<Option<String>>, key: &String) -> (n: usize)
    ensures
        n as nat == count_keys(opt_str_views(keys@), key@),
{
    let ghost all = opt_str_views(keys@);
    let mut n: usize = 0;
    let mut i: usize = 0;
    while i < keys.len()
        invariant
            0 <= i <= keys.len(),
            all == opt_str_views(keys@),
            n <= i,
            n as nat == count_keys(all.take(i as int), key@),
        decreases keys.len() - i,
    {
        proof {
            assert(all.take(i + 1).drop_last() =~= all.take(i as int));
            assert(all.take(i + 1).last() == opt_str_view(keys@[i as int]));
        }
        match &keys[i] {
            Some(k) => {
                if *k == *key {
                    n += 1;
                }
            },
            None => {},
        }
        i += 1;
    }
    assert(all.take(keys.len() as int) =~= all);
    n
}

/// Keeps, in order, at most `per_group` results of each domain group, by
/// their grouping keys; results without a key are all kept.
pub fn cap_per_group(results: Vec<SearchResult>, per_group: usize) -> (r: Vec<SearchResult>)
    ensures
        r@ == capped_per_group(results@, per_group as nat),
{
    let ghost orig = results@;
    let mut rest = results;
    let mut kept: Vec<SearchResult> = Vec::new();
    let mut keys: Vec<Option<String>> = Vec::new();
    let mut i: usize = 0;
    let n = rest.len();
    assert(orig.skip(0) =~= orig);
    while rest.len() > 0
        invariant
            n == orig.len(),
            0 <= i <= n,
            rest@ == orig.skip(i as int),
            kept@ == capped_per_group(orig.take(i as int), per_group as nat),
            kept.len() == keys.len(),
            forall|j: int|
                0 <= j < keys.len() ==> opt_str_views(keys@)[j] == group_key(#[trigger] kept@[j]),
        decreases rest.len(),
    {
        let ghost before = kept@;
        let ghost kv = opt_str_views(keys@);
        let r = rest.remove(0);
        assert(r == orig[i as int]);
        assert(rest@ =~= orig.skip(i + 1));
        assert(orig.take(i + 1).drop_last() =~= orig.take(i as int));
        assert(orig.take(i + 1).last() == r);
        let key = extract_group_key(&r);
        let keep = match &key {
            Some(g) => {
                let c = count_key(&keys, g);
                proof {
                    lemma_count_keys(before, kv, g@);
                }
                c < per_group
            },
            None => true,
        };
        if keep {
            let ghost kv_len = keys.len();
            keys.push(key);
            kept.push(r);
            proof {
                assert forall|j: int| 0 <= j < keys.len() implies opt_str_views(keys@)[j]
                    == group_key(#[trigger] kept@[j]) by {
                    if j < kv_len {
                        assert(opt_str_views(keys@)[j] == kv[j]);
                        assert(kept@[j] == before[j]);
                    }
                }
            }
        }
        i += 1;
    }
    assert(orig.take(n as int) =~= orig);
    kept
}

/// After capping, no domain group holds more than `k` results.
pub proof fn lemma_capped_per_group_bound(rs: Seq<SearchResult>, k: nat, g: Seq<char>)
    ensures
        count_in_group(capped_per_group(rs, k), g) <= k,
    decreases rs.len(),
{
    if rs.len() > 0 {
        lemma_capped_per_group_bound(rs.drop_last(), k, g);
        let kept = capped_per_group(rs.drop_last(), k);
        assert(kept.push(rs.last()).drop_last() =~= kept);
    }
}

/// Capping keeps every result that has no grouping key.
pub proof fn lemma_capped_keeps_keyless(rs: Seq<SearchResult>, k: nat, i: int)
    requires
        0 <= i < rs.len(),
        group_key(rs[i]) is None,
    ensures
        capped_per_group(rs, k).contains(rs[i]),
    decreases rs.len(),
{
    let kept = capped_per_group(rs.drop_last(), k);
    if i < rs.len() - 1 {
        assert(rs.drop_last()[i] == rs[i]);
        lemma_capped_keeps_keyless(rs.drop_last(), k, i);
        let w = choose|j: int| 0 <= j < kept.len() && kept[j] == rs[i];
        if group_key(rs.last()) is Some && count_in_group(kept, group_key(rs.last())->0) >= k {
        } else {
            assert(kept.push(rs.last())[w] == rs[i]);
        }
    } else {
        assert(kept.push(rs.last())[kept.len() as int] == rs[i]);
    }
}

/// How many results a search asks for when it caps results per domain: it
/// over-fetches by this factor so that enough remain after capping.
pub const OVER_FETCH_FACTOR: u32 = 3;

/// The result limit sent to the API when results are capped per domain.
pub fn over_fetch_limit(limit: u32) -> (r: u32)
    ensures
        r == (if limit * OVER_FETCH_FACTOR <= u32::MAX {
            limit * OVER_FETCH_FACTOR
        } else {
            u32::MAX as int
        }),
{
    if limit <= u32::MAX / OVER_FETCH_FACTOR {
        limit * OVER_FETCH_FACTOR
    } else {
        u32::MAX
    }
}

/// The results shown when they are capped per domain: at most `per_group` of
/// each domain group, in order, then at most `limit` in all.
pub open spec fn limited_per_group(rs: Seq<SearchResult>, per_group: nat, limit: nat) -> Seq<
    SearchResult,
> {
    let c = capped_per_group(rs, per_group);
    if c.len() <= limit {
        c
    } else {
        c.take(limit as int)
    }
}

/// Capping per group comes before the limit: the results shown are the first
/// results of the whole capped list, as many as the limit allows, so fewer
/// than `limit` come back only when the capped list is shorter.
pub proof fn lemma_limited_is_capped_prefix(rs: Seq<SearchResult>, per_group: nat, limit: nat)
    ensures
        limited_per_group(rs, per_group, limit).is_prefix_of(capped_per_group(rs, per_group)),
        limited_per_group(rs, per_group, limit).len() == if capped_per_group(rs, per_group).len()
            <= limit {
            capped_per_group(rs, per_group).len()
        } else {
            limit
        },
{
    let c = capped_per_group(rs, per_group);
    if c.len() > limit {
        assert(c.take(limit as int) =~= c.subrange(0, limit as int));
    } else {
        assert(c =~= c.subrange(0, c.len() as int));
    }
}

/// Caps `results` per domain group, then to `limit` results.
pub fn limit_per_domain(results: Vec<SearchResult>, per_group: usize, limit: usize) -> (r: Vec<
    SearchResult,
>)
    ensures
        r@ == limited_per_group(results@, per_group as nat, limit as nat),
{
    let mut c = cap_per_group(results, per_group);
    c.truncate(limit);
    c
}

/// Checks the `limit_per_domain` parameter: it must be at least 1.
pub fn per_domain_limit(k: u32) -> (r: Result<usize, String>)
    ensures
        k >= 1 <==> r is Ok,
        r matches Ok(n) ==> n == k,
{
    if k == 0 {
        Err("limit_per_domain must be >= 1".to_owned())
    } else {
        Ok(k as usize)
    }
}

} // verus!
