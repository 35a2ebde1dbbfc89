//! Fallback messages: what the server answers for a page whose domain has a
//! rule, instead of extracting it or in place of empty content.
use vstd::prelude::*;
use crate::api::response::ExtractData;
use crate::config::{lowercased, rule_views, to_lowercase, FallbackRule, FallbackRuleView};
use crate::domain::{registrable_key, url_key};
use crate::text::{chars_of, trim, trim_chars};

verus! {

/// The index of the first rule whose domain, lower-cased, is `key`.
pub open spec fn first_rule_matching(rules: Seq<FallbackRuleView>, key: Seq<char>) -> Option<int>
    decreases rules.len(),
{
    if rules.len() == 0 {
        None
    } else if lowercased(rules[0].domain) == key {
        Some(0)
    } else {
        match first_rule_matching(rules.drop_first(), key) {
            Some(i) => Some(i + 1),
            None => None,
        }
    }
}

/// The rule that applies to a page: the first whose domain matches, ignoring
/// case, the registrable domain of the page's host.
pub open spec fn rule_for_url(rules: Seq<FallbackRuleView>, url: Seq<char>) -> Option<int> {
    match url_key(url) {
        Some(k) => first_rule_matching(rules, lowercased(k)),
        None => None,
    }
}

proof fn lemma_first_rule_matching(rules: Seq<FallbackRuleView>, key: Seq<char>, k: int)
    requires
        0 <= k <= rules.len(),
        forall|j: int| 0 <= j < k ==> lowercased(rules[j].domain) != key,
    ensures
        k < rules.len() && lowercased(rules[k].domain) == key ==> first_rule_matching(rules, key)
            == Some(k),
        k == rules.len() ==> first_rule_matching(rules, key) == Option::<int>::None,
    decreases k,
{
    if k > 0 {
        let t = rules.drop_first();
        assert forall|j: int| 0 <= j < k - 1 implies lowercased(t[j].domain) != key by {
            assert(t[j] == rules[j + 1]);
        }
        lemma_first_rule_matching(t, key, k - 1);
        if k < rules.len() {
            assert(t[k - 1] == rules[k]);
        }
    }
}

/// The index of the rule that applies to the page at `url`, if any.
pub fn find_fallback_rule(rules: &[FallbackRule], url: &str) -> (r: Option<usize>)
    ensures
        match r {
            Some(i) => i < rules.len() && rule_for_url(rule_views(rules@), url@) == Some(i as int),
            None => rule_for_url(rule_views(rules@), url@) is None,
        },
{
    let ghost views = rule_views(rules@);
    let key = match registrable_key(url) {
        Some(k) => k,
        None => return None,
    };
    let wanted = to_lowercase(key.as_str());
    let mut i: usize = 0;
    while i < rules.len()
        invariant
            0 <= i <= rules.len(),
            views == rule_views(rules@),
            url_key(url@) == Some(key@),
            wanted@ == lowercased(key@),
            forall|j: int| 0 <= j < i ==> lowercased(views[j].domain) != wanted@,
        decreases rules.len() - i,
    {
        let domain = to_lowercase(rules[i].domain.as_str());
        assert(views[i as int] == rules@[i as int]@);
        if domain == wanted {
            proof {
                lemma_first_rule_matching(views, wanted@, i as int);
            }
            return Some(i);
        }
        i += 1;
    }
    proof {
        lemma_first_rule_matching(views, wanted@, i as int);
    }
    None
}

/// The page content is missing: absent, empty, or only whitespace.
pub open spec fn content_missing(markdown: Option<Seq<char>>) -> bool {
    match markdown {
        None => true,
        Some(m) => trim(m).len() == 0,
    }
}

/// The view of optional content.
pub open spec fn markdown_view(m: Option<String>) -> Option<Seq<char>> {
    match m {
        Some(s) => Some(s@),
        None => None,
    }
}

/// Whether the content of a page is missing.
pub fn is_content_missing(markdown: &Option<String>) -> (b: bool)
    ensures
        b == content_missing(markdown_view(*markdown)),
{
    match markdown {
        None => true,
        Some(m) => {
            let chars = chars_of(m.as_str());
            trim_chars(&chars).len() == 0
        },
    }
}

/// The page that a rule blocking its domain outright stands for: the page's
/// URL with the rule's message as content.
pub fn blocked_page(rules: &[FallbackRule], url: &str) -> (r: Option<ExtractData>)
    ensures
        match rule_for_url(rule_views(rules@), url@) {
            Some(i) => if rules@[i].always_block {
                r matches Some(d) && d.url@ == url@ && d.markdown == Some(rules@[i].message)
            } else {
                r is None
            },
            None => r is None,
        },
{
    match find_fallback_rule(rules, url) {
        Some(i) => {
            if rules[i].always_block {
                Some(ExtractData { url: url.to_owned(), markdown: Some(rules[i].message.clone()) })
            } else {
                None
            }
        },
        None => None,
    }
}

/// An extracted page after the fallback rules: where its content is missing
/// and a rule with a message applies to its URL, the message takes the
/// content's place; otherwise the page is unchanged.
pub fn with_fallback(rules: &[FallbackRule], page: ExtractData) -> (r: ExtractData)
    ensures
        r.url == page.url,
        match rule_for_url(rule_views(rules@), page.url@) {
            Some(i) => if content_missing(markdown_view(page.markdown)) && rules@[i].message@.len()
                > 0 {
                r.markdown == Some(rules@[i].message)
            } else {
                r.markdown == page.markdown
            },
            None => r.markdown == page.markdown,
        },
{
    if !is_content_missing(&page.markdown) {
        return page;
    }
    match find_fallback_rule(rules, page.url.as_str()) {
        Some(i) => {
            if rules[i].message.as_str().is_empty() {
                page
            } else {
                ExtractData { url: page.url, markdown: Some(rules[i].message.clone()) }
            }
        },
        None => page,
    }
}

} // verus!
