//! The settings that the server reads from its command line and environment:
//! the value parsers, and the merge of the fallback rules.
use vstd::prelude::*;
use vstd::string::StringExecFns;
use crate::parse::{parse_u64, parsed_u64};
use crate::text::{
    chars_of, find_char_from, lemma_split_at, slice_chars, split_at_first, string_of, trim,
    trim_chars,
};

verus! {

/// What the server answers for a domain instead of extracting it.
#[derive(Debug, Clone, PartialEq, Eq)]
pub struct FallbackRule {
    pub domain: String,
    pub message: String,
    pub always_block: bool,
}

/// A fallback rule as plain values.
pub struct FallbackRuleView {
    pub domain: Seq<char>,
    pub message: Seq<char>,
    pub always_block: bool,
}

impl View for FallbackRule {
    type V = FallbackRuleView;

    open spec fn view(&self) -> FallbackRuleView {
        FallbackRuleView {
            domain: self.domain@,
            message: self.message@,
            always_block: self.always_block,
        }
    }
}

/// The views of a sequence of rules.
pub open spec fn rule_views(v: Seq<FallbackRule>) -> Seq<FallbackRuleView> {
    v.map_values(|r: FallbackRule| r@)
}

/// How the server talks to its client.
#[derive(Debug, Clone, Copy, PartialEq, Eq)]
pub enum TransportMode {
    Stdio,
    StreamableHttp,
}

impl Default for TransportMode {
    fn default() -> (r: TransportMode)
        ensures
            r == TransportMode::Stdio,
    {
        TransportMode::Stdio
    }
}

// ---------------------------------------------------------------------------
// Value parsers
// ---------------------------------------------------------------------------

/// What `str::to_lowercase` makes of a string: the Unicode lowercase mapping of
/// each character, with the final-sigma rule.
pub uninterp spec fn lowercased(s: Seq<char>) -> Seq<char>;

/// `str::to_lowercase`. Its result is a function of the text alone, named
/// `lowercased`; the Unicode tables it follows are not restated here.
#[verifier::external_body]
pub(crate) fn to_lowercase(s: &str) -> (r: String)
    ensures
        r@ == lowercased(s@),
{
    s.to_lowercase()
}

/// The region as the API expects it: lower case.
pub fn parse_region(s: &str) -> (r: Result<String, String>)
    ensures
        r matches Ok(v) && v@ == lowercased(s@),
{
    Ok(to_lowercase(s))
}

/// The message for a cache lifetime that is no integer.
pub open spec fn not_an_integer_message(s: Seq<char>) -> Seq<char> {
    "`"@ + s + "` is not a valid integer"@
}

/// The message for a cache lifetime of zero days.
pub open spec fn zero_ttl_message() -> Seq<char> {
    "cache TTL must be positive, got 0"@
}

/// The cache lifetime in days: a positive `u64`.
pub fn parse_cache_ttl_days(s: &str) -> (r: Result<u64, String>)
    ensures
        match parsed_u64(s@) {
            None => r matches Err(e) && e@ == not_an_integer_message(s@),
            Some(v) => if v == 0 {
                r matches Err(e) && e@ == zero_ttl_message()
            } else {
                r == Ok::<u64, String>(v)
            },
        },
{
    match parse_u64(s) {
        None => {
            let mut e = String::from_str("`");
            e.append(s);
            e.append("` is not a valid integer");
            Err(e)
        },
        Some(v) => {
            if v == 0 {
                Err(String::from_str("cache TTL must be positive, got 0"))
            } else {
                Ok(v)
            }
        },
    }
}

/// The error for an empty `--fallback-message` entry.
pub open spec fn empty_entry_message() -> Seq<char> {
    "fallback message entry must not be empty"@
}

/// The error for an entry without `=`.
pub open spec fn malformed_entry_message(entry: Seq<char>) -> Seq<char> {
    "invalid fallback message format `"@ + entry + "`, expected `domain=message`"@
}

/// The error for an entry with nothing before `=`.
pub open spec fn empty_domain_message() -> Seq<char> {
    "domain must not be empty in fallback message"@
}

/// The error for an entry with nothing after `=`.
pub open spec fn empty_message_message() -> Seq<char> {
    "message must not be empty in fallback message"@
}

/// The error for an empty `--fallback-always` entry.
pub open spec fn empty_always_message() -> Seq<char> {
    "domain must not be empty in fallback always"@
}

/// What `domain=message` reads as: the trimmed entry cut at its first `=`,
/// each side trimmed, neither side empty.
pub open spec fn fallback_message_parsed(s: Seq<char>) -> Result<FallbackRuleView, Seq<char>> {
    let t = trim(s);
    if t.len() == 0 {
        Err(empty_entry_message())
    } else {
        match split_at_first(t, '=').1 {
            None => Err(malformed_entry_message(t)),
            Some(after) => {
                let domain = trim(split_at_first(t, '=').0);
                let message = trim(after);
                if domain.len() == 0 {
                    Err(empty_domain_message())
                } else if message.len() == 0 {
                    Err(empty_message_message())
                } else {
                    Ok(FallbackRuleView { domain, message, always_block: false })
                }
            },
        }
    }
}

/// The view of a parse result.
pub open spec fn rule_result_view(r: Result<FallbackRule, String>) -> Result<
    FallbackRuleView,
    Seq<char>,
> {
    match r {
        Ok(rule) => Ok(rule@),
        Err(e) => Err(e@),
    }
}

/// Parses a `--fallback-message` entry, `domain=message`.
pub fn parse_fallback_message(s: &str) -> (r: Result<FallbackRule, String>)
    ensures
        rule_result_view(r) == fallback_message_parsed(s@),
{
    let chars = chars_of(s);
    let t = trim_chars(&chars);
    if t.len() == 0 {
        return Err(String::from_str("fallback message entry must not be empty"));
    }
    let eq = find_char_from(&t, 0, '=');
    proof {
        lemma_split_at(t@, '=', eq as int);
    }
    if eq == t.len() {
        let mut e = String::from_str("invalid fallback message format `");
        let entry = string_of(&t);
        e.append(entry.as_str());
        e.append("`, expected `domain=message`");
        return Err(e);
    }
    let before = slice_chars(&t, 0, eq);
    let after = slice_chars(&t, eq + 1, t.len());
    assert(before@ =~= t@.take(eq as int));
    assert(after@ =~= t@.skip(eq + 1));
    let domain = trim_chars(&before);
    let message = trim_chars(&after);
    if domain.len() == 0 {
        return Err(String::from_str("domain must not be empty in fallback message"));
    }
    if message.len() == 0 {
        return Err(String::from_str("message must not be empty in fallback message"));
    }
    Ok(FallbackRule { domain: string_of(&domain), message: string_of(&message), always_block: false })
}

/// What a `--fallback-always` entry reads as: the trimmed domain, blocked
/// outright, with no message.
pub open spec fn fallback_always_parsed(s: Seq<char>) -> Result<FallbackRuleView, Seq<char>> {
    if trim(s).len() == 0 {
        Err(empty_always_message())
    } else {
        Ok(FallbackRuleView { domain: trim(s), message: seq![], always_block: true })
    }
}

/// Parses a `--fallback-always` entry, a bare domain.
pub fn parse_fallback_always(s: &str) -> (r: Result<FallbackRule, String>)
    ensures
        rule_result_view(r) == fallback_always_parsed(s@),
{
    let chars = chars_of(s);
    let t = trim_chars(&chars);
    if t.len() == 0 {
        return Err(String::from_str("domain must not be empty in fallback always"));
    }
    Ok(FallbackRule { domain: string_of(&t), message: String::new(), always_block: true })
}

// ---------------------------------------------------------------------------
// Merging the rules of both options
// ---------------------------------------------------------------------------

/// The index of the first rule for `domain`.
pub open spec fn first_rule_for(rules: Seq<FallbackRuleView>, domain: Seq<char>) -> Option<int>
    decreases rules.len(),
{
    if rules.len() == 0 {
        None
    } else if rules[0].domain == domain {
        Some(0)
    } else {
        match first_rule_for(rules.drop_first(), domain) {
            Some(i) => Some(i + 1),
            None => None,
        }
    }
}

/// Adds a `--fallback-message` rule: where a rule for its domain exists, the
/// first such rule takes its message; otherwise the rule is appended.
pub open spec fn merge_message(rules: Seq<FallbackRuleView>, m: FallbackRuleView) -> Seq<
    FallbackRuleView,
> {
    match first_rule_for(rules, m.domain) {
        Some(i) => rules.update(
            i,
            FallbackRuleView {
                domain: rules[i].domain,
                message: m.message,
                always_block: rules[i].always_block,
            },
        ),
        None => rules.push(m),
    }
}

/// The rules the server applies: the `--fallback-always` rules in their order,
/// then each `--fallback-message` rule merged in turn.
pub open spec fn merged_rules(always: Seq<FallbackRuleView>, messages: Seq<FallbackRuleView>) -> Seq<
    FallbackRuleView,
>
    decreases messages.len(),
{
    if messages.len() == 0 {
        always
    } else {
        merge_message(merged_rules(always, messages.drop_last()), messages.last())
    }
}

proof fn lemma_first_rule_for(rules: Seq<FallbackRuleView>, domain: Seq<char>, k: int)
    requires
        0 <= k <= rules.len(),
        forall|j: int| 0 <= j < k ==> rules[j].domain != domain,
    ensures
        k < rules.len() && rules[k].domain == domain ==> first_rule_for(rules, domain) == Some(k),
        k == rules.len() ==> first_rule_for(rules, domain) == Option::<int>::None,
    decreases k,
{
    if k > 0 {
        let t = rules.drop_first();
        assert forall|j: int| 0 <= j < k - 1 implies t[j].domain != domain by {
            assert(t[j] == rules[j + 1]);
        }
        lemma_first_rule_for(t, domain, k - 1);
        if k < rules.len() {
            assert(t[k - 1] == rules[k]);
        }
    }
}

fn copy_rule(r: &FallbackRule) -> (c: FallbackRule)
    ensures
        c@ == r@,
{
    FallbackRule { domain: r.domain.clone(), message: r.message.clone(), always_block: r.always_block }
}

/// The index of the first rule for `domain`, or `rules.len()`.
fn find_rule(rules: &Vec<FallbackRule>, domain: &String) -> (k: usize)
    ensures
        k <= rules.len(),
        forall|j: int| 0 <= j < k ==> rules@[j].domain@ != domain@,
        k < rules.len() ==> rules@[k as int].domain@ == domain@,
{
    let mut k: usize = 0;
    while k < rules.len()
        invariant
            k <= rules.len(),
            forall|j: int| 0 <= j < k ==> rules@[j].domain@ != domain@,
        decreases rules.len() - k,
    {
        if rules[k].domain == *domain {
            return k;
        }
        k += 1;
    }
    k
}

/// Combines the `--fallback-always` and `--fallback-message` rules into the
/// list the server applies.
pub fn merge_fallback_rules(always: &[FallbackRule], messages: &[FallbackRule]) -> (r: Vec<
    FallbackRule,
>)
    ensures
        rule_views(r@) == merged_rules(rule_views(always@), rule_views(messages@)),
{
    let ghost av = rule_views(always@);
    let ghost mv = rule_views(messages@);
    let mut rules: Vec<FallbackRule> = Vec::new();
    let mut i: usize = 0;
    while i < always.len()
        invariant
            0 <= i <= always.len(),
            av == rule_views(always@),
            rule_views(rules@) == av.take(i as int),
        decreases always.len() - i,
    {
        let c = copy_rule(&always[i]);
        let ghost prev = rules@;
        assert(rule_views(prev).len() == prev.len());
        assert(prev.len() == i);
        assert(c@ == av[i as int]);
        rules.push(c);
        assert(rules@ == prev.push(c));
        assert forall|x: int| 0 <= x < i + 1 implies #[trigger] rule_views(rules@)[x] == av[x] by {
            assert(rule_views(rules@)[x] == rules@[x]@);
            if x < i {
                assert(rules@[x] == prev[x]);
                assert(rule_views(prev)[x] == prev[x]@);
                assert(rule_views(prev)[x] == av.take(i as int)[x]);
            } else {
                assert(rules@[x] == c);
            }
        }
        assert(rule_views(rules@) =~= av.take(i + 1));
        i += 1;
    }
    assert(av.take(always.len() as int) =~= av);
    let mut j: usize = 0;
    while j < messages.len()
        invariant
            0 <= j <= messages.len(),
            av == rule_views(always@),
            mv == rule_views(messages@),
            rule_views(rules@) == merged_rules(av, mv.take(j as int)),
        decreases messages.len() - j,
    {
        let ghost before = rule_views(rules@);
        let m = &messages[j];
        let k = find_rule(&rules, &m.domain);
        proof {
            assert forall|x: int| 0 <= x < k implies before[x].domain != m.domain@ by {
                assert(before[x] == rules@[x]@);
            }
            if k < rules.len() {
                assert(before[k as int] == rules@[k as int]@);
            }
            lemma_first_rule_for(before, m.domain@, k as int);
            assert(mv.take(j + 1).drop_last() =~= mv.take(j as int));
            assert(mv.take(j + 1).last() == m@);
        }
        if k < rules.len() {
            let updated = FallbackRule {
                domain: rules[k].domain.clone(),
                message: m.message.clone(),
                always_block: rules[k].always_block,
            };
            rules.set(k, updated);
        } else {
            rules.push(copy_rule(m));
        }
        assert(rule_views(rules@) =~= merged_rules(av, mv.take(j + 1)));
        j += 1;
    }
    assert(mv.take(messages.len() as int) =~= mv);
    rules
}

// ---------------------------------------------------------------------------
// What the merge keeps
// ---------------------------------------------------------------------------

proof fn lemma_first_rule_found(rules: Seq<FallbackRuleView>, domain: Seq<char>)
    ensures
        match first_rule_for(rules, domain) {
            Some(i) => 0 <= i < rules.len() && rules[i].domain == domain && (forall|j: int|
                0 <= j < i ==> rules[j].domain != domain),
            None => forall|j: int| 0 <= j < rules.len() ==> rules[j].domain != domain,
        },
    decreases rules.len(),
{
    if rules.len() > 0 {
        let t = rules.drop_first();
        lemma_first_rule_found(t, domain);
        assert forall|j: int| 0 < j < rules.len() implies rules[j] == t[j - 1] by {}
    }
}

proof fn lemma_first_rule_after_push(rules: Seq<FallbackRuleView>, x: FallbackRuleView, domain: Seq<char>)
    ensures
        first_rule_for(rules.push(x), domain) == match first_rule_for(rules, domain) {
            Some(i) => Some(i),
            None => if x.domain == domain {
                Some(rules.len() as int)
            } else {
                None
            },
        },
    decreases rules.len(),
{
    if rules.len() > 0 {
        assert(rules.push(x).drop_first() =~= rules.drop_first().push(x));
        assert(rules.push(x)[0] == rules[0]);
        lemma_first_rule_after_push(rules.drop_first(), x, domain);
    } else {
        assert(rules.push(x)[0] == x);
        assert(rules.push(x).drop_first() =~= Seq::<FallbackRuleView>::empty());
        assert(first_rule_for(Seq::<FallbackRuleView>::empty(), domain) is None);
    }
}

proof fn lemma_first_rule_after_update(
    rules: Seq<FallbackRuleView>,
    i: int,
    y: FallbackRuleView,
    domain: Seq<char>,
)
    requires
        0 <= i < rules.len(),
        y.domain == rules[i].domain,
    ensures
        first_rule_for(rules.update(i, y), domain) == first_rule_for(rules, domain),
    decreases rules.len(),
{
    if i > 0 {
        assert(rules.update(i, y).drop_first() =~= rules.drop_first().update(i - 1, y));
        lemma_first_rule_after_update(rules.drop_first(), i - 1, y, domain);
    } else {
        assert(rules.update(i, y).drop_first() =~= rules.drop_first());
    }
}

proof fn lemma_merge_message_shape(rules: Seq<FallbackRuleView>, m: FallbackRuleView)
    ensures
        merge_message(rules, m).len() >= rules.len(),
        forall|i: int|
            0 <= i < rules.len() ==> (#[trigger] merge_message(rules, m)[i]).domain
                == rules[i].domain && merge_message(rules, m)[i].always_block
                == rules[i].always_block,
{
    lemma_first_rule_found(rules, m.domain);
}

/// The merge keeps every `--fallback-always` rule where it was, with its domain
/// and its blocking; a later `--fallback-message` may only give it a message.
pub proof fn lemma_merge_keeps_always_rules(
    always: Seq<FallbackRuleView>,
    messages: Seq<FallbackRuleView>,
)
    ensures
        merged_rules(always, messages).len() >= always.len(),
        forall|i: int|
            0 <= i < always.len() ==> (#[trigger] merged_rules(always, messages)[i]).domain
                == always[i].domain && merged_rules(always, messages)[i].always_block
                == always[i].always_block,
    decreases messages.len(),
{
    if messages.len() > 0 {
        let prev = merged_rules(always, messages.drop_last());
        lemma_merge_keeps_always_rules(always, messages.drop_last());
        lemma_merge_message_shape(prev, messages.last());
        assert forall|i: int| 0 <= i < always.len() implies (#[trigger] merged_rules(
            always,
            messages,
        )[i]).domain == always[i].domain && merged_rules(always, messages)[i].always_block
            == always[i].always_block by {
            assert(merged_rules(always, messages)[i] == merge_message(prev, messages.last())[i]);
            assert(prev[i].domain == always[i].domain);
        }
    }
}

/// A `--fallback-message` rule takes effect: the first rule for its domain
/// carries the message of the last `--fallback-message` rule for that domain,
/// whether that domain was blocked outright or not.
pub proof fn lemma_merge_applies_last_message(
    always: Seq<FallbackRuleView>,
    messages: Seq<FallbackRuleView>,
    j: int,
)
    requires
        0 <= j < messages.len(),
        forall|k: int| j < k < messages.len() ==> messages[k].domain != messages[j].domain,
    ensures
        match first_rule_for(merged_rules(always, messages), messages[j].domain) {
            Some(i) => merged_rules(always, messages)[i].message == messages[j].message,
            None => false,
        },
    decreases messages.len(),
{
    let d = messages[j].domain;
    let prev = merged_rules(always, messages.drop_last());
    let m = messages.last();
    let cur = merged_rules(always, messages);
    lemma_first_rule_found(prev, m.domain);
    if j == messages.len() - 1 {
        match first_rule_for(prev, d) {
            Some(i) => {
                let y = FallbackRuleView {
                    domain: prev[i].domain,
                    message: m.message,
                    always_block: prev[i].always_block,
                };
                lemma_first_rule_after_update(prev, i, y, d);
            },
            None => {
                lemma_first_rule_after_push(prev, m, d);
            },
        }
    } else {
        let shorter = messages.drop_last();
        assert(shorter[j] == messages[j]);
        assert forall|k: int| j < k < shorter.len() implies shorter[k].domain != shorter[j].domain by {
            assert(shorter[k] == messages[k]);
        }
        lemma_merge_applies_last_message(always, shorter, j);
        assert(m.domain != d);
        lemma_first_rule_found(prev, d);
        let i0 = first_rule_for(prev, d)->0;
        match first_rule_for(prev, m.domain) {
            Some(i) => {
                let y = FallbackRuleView {
                    domain: prev[i].domain,
                    message: m.message,
                    always_block: prev[i].always_block,
                };
                lemma_first_rule_after_update(prev, i, y, d);
                lemma_first_rule_found(prev, d);
                assert(i != i0);
            },
            None => {
                lemma_first_rule_after_push(prev, m, d);
            },
        }
    }
}

} // verus!
