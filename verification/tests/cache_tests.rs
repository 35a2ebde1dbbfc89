use kagi_mcp::api::request::{
    DomainKind, Filters, Lens, PersonalizationDomain, Personalizations, SearchExtractConfig,
    SearchRequest, TimeRelative,
};
use serde_json::Value;
use kagi_mcp::cache::{
    generate_cid, is_expired, needs_eviction, plan_eviction, ttl_seconds_of, ExtractCacheKey,
    SearchCacheKey, CACHE_KEY_VERSION,
};

/// A fully-populated SearchRequest used as the "base" for equality tests.
fn base_request() -> SearchRequest {
    SearchRequest::new("rust programming")
        .with_workflow("search")
        .with_page(2)
        .with_limit(20)
        .with_safe_search(false)
        .with_region("us")
        .with_filters(Filters {
            after: Some("2024-01-01".to_owned()),
            before: None,
            region: None,
        })
        .with_lens_id("my-lens")
        .with_lens(Lens {
            sites_included: Some(vec!["example.com".to_owned()]),
            sites_excluded: None,
            keywords_included: None,
            keywords_excluded: None,
            file_type: None,
            time_after: None,
            time_before: None,
            time_relative: None,
            search_region: None,
        })
        .with_personalizations(Personalizations {
            domains: Some(vec![PersonalizationDomain {
                domain: "example.com".to_owned(),
                kind: DomainKind::Raise,
            }]),
            regexes: None,
        })
}

fn key_of(r: &SearchRequest) -> SearchCacheKey {
    SearchCacheKey::from_request(r)
}

fn opt_string(v: &Option<String>) -> Value {
    match v {
        Some(s) => Value::String(s.clone()),
        None => Value::Null,
    }
}

fn opt_strings(v: &Option<Vec<String>>) -> Value {
    match v {
        Some(items) => Value::Array(items.iter().map(|s| Value::String(s.clone())).collect()),
        None => Value::Null,
    }
}

fn opt_u32(v: Option<u32>) -> Value {
    match v {
        Some(n) => Value::from(n),
        None => Value::Null,
    }
}

/// The JSON serialization of a search cache key, field by field.
fn key_json(k: &SearchCacheKey) -> Vec<u8> {
    let mut m = serde_json::Map::new();
    m.insert("query".to_owned(), Value::String(k.query.clone()));
    m.insert("workflow".to_owned(), opt_string(&k.workflow));
    m.insert("page".to_owned(), opt_u32(k.page));
    m.insert("limit".to_owned(), opt_u32(k.limit));
    m.insert("safe_search".to_owned(), k.safe_search.map(Value::Bool).unwrap_or(Value::Null));
    m.insert("region".to_owned(), opt_string(&k.region));
    let filters = match &k.filters {
        Some(f) => {
            let mut fm = serde_json::Map::new();
            fm.insert("after".to_owned(), opt_string(&f.after));
            fm.insert("before".to_owned(), opt_string(&f.before));
            fm.insert("region".to_owned(), opt_string(&f.region));
            Value::Object(fm)
        }
        None => Value::Null,
    };
    m.insert("filters".to_owned(), filters);
    m.insert("lens_id".to_owned(), opt_string(&k.lens_id));
    let lens = match &k.lens {
        Some(l) => {
            let mut lm = serde_json::Map::new();
            lm.insert("sites_included".to_owned(), opt_strings(&l.sites_included));
            lm.insert("sites_excluded".to_owned(), opt_strings(&l.sites_excluded));
            lm.insert("keywords_included".to_owned(), opt_strings(&l.keywords_included));
            lm.insert("keywords_excluded".to_owned(), opt_strings(&l.keywords_excluded));
            lm.insert("file_type".to_owned(), opt_string(&l.file_type));
            lm.insert("time_after".to_owned(), opt_string(&l.time_after));
            lm.insert("time_before".to_owned(), opt_string(&l.time_before));
            let rel = match &l.time_relative {
                Some(TimeRelative::Day) => Value::String("day".to_owned()),
                Some(TimeRelative::Week) => Value::String("week".to_owned()),
                Some(TimeRelative::Month) => Value::String("month".to_owned()),
                None => Value::Null,
            };
            lm.insert("time_relative".to_owned(), rel);
            lm.insert("search_region".to_owned(), opt_string(&l.search_region));
            Value::Object(lm)
        }
        None => Value::Null,
    };
    m.insert("lens".to_owned(), lens);
    let pers = match &k.personalizations {
        Some(p) => {
            let mut pm = serde_json::Map::new();
            let domains = match &p.domains {
                Some(ds) => Value::Array(
                    ds.iter()
                        .map(|d| {
                            let mut dm = serde_json::Map::new();
                            dm.insert("domain".to_owned(), Value::String(d.domain.clone()));
                            let kind = match d.kind {
                                DomainKind::Block => "block",
                                DomainKind::Lower => "lower",
                                DomainKind::Raise => "raise",
                                DomainKind::Pin => "pin",
                            };
                            dm.insert("type".to_owned(), Value::String(kind.to_owned()));
                            Value::Object(dm)
                        })
                        .collect(),
                ),
                None => Value::Null,
            };
            pm.insert("domains".to_owned(), domains);
            let regexes = match &p.regexes {
                Some(rs) => Value::Array(
                    rs.iter()
                        .map(|r| {
                            let mut rm = serde_json::Map::new();
                            rm.insert("regex".to_owned(), opt_string(&r.regex));
                            rm.insert("replacement".to_owned(), opt_string(&r.replacement));
                            Value::Object(rm)
                        })
                        .collect(),
                ),
                None => Value::Null,
            };
            pm.insert("regexes".to_owned(), regexes);
            Value::Object(pm)
        }
        None => Value::Null,
    };
    m.insert("personalizations".to_owned(), pers);
    serde_json::to_vec(&Value::Object(m)).unwrap()
}

/// The content ID a request is cached under.
fn cid_of_request(r: &SearchRequest) -> [u8; 16] {
    generate_cid(&key_json(&key_of(r)))
}

#[test]
fn when_same_request_then_same_cid_should_be_equal() {
    let bytes = br#"{"query":"rust programming"}"#;
    assert_eq!(generate_cid(bytes), generate_cid(bytes));
}

#[test]
fn when_different_requests_then_different_cids_should_not_be_equal() {
    let cid1 = generate_cid(br#"{"query":"rust programming"}"#);
    let cid2 = generate_cid(br#"{"query":"python programming"}"#);
    assert_ne!(cid1, cid2);
}

#[test]
fn when_generated_then_cid_length_should_be_16_bytes() {
    let cid = generate_cid(br#"{"query":"length test"}"#);
    assert_eq!(16, cid.len());
}

#[test]
fn when_salted_then_cid_should_differ_from_unsalted_hash() {
    let bytes = br#"{"query":"salt test"}"#;
    let cid = generate_cid(bytes);
    let unsalted_hash = xxhash_rust::xxh3::xxh3_128(bytes).to_le_bytes();
    assert_ne!(cid, unsalted_hash);
}

#[test]
fn when_salted_then_cid_should_be_hash_of_version_and_bytes() {
    let bytes = br#"{"url":"https://example.com"}"#;
    let mut salted = vec![CACHE_KEY_VERSION];
    salted.extend_from_slice(bytes);
    assert_eq!(generate_cid(bytes), xxhash_rust::xxh3::xxh3_128(&salted).to_le_bytes());
    assert_eq!(CACHE_KEY_VERSION, 1);
}

#[test]
fn when_called_multiple_then_deterministic_should_be_consistent() {
    let bytes = br#"{"query":"deterministic test"}"#;
    let cid = generate_cid(bytes);
    for _ in 0..100 {
        assert_eq!(cid, generate_cid(bytes));
    }
}

#[test]
fn when_format_differs_then_cache_key_should_be_equal() {
    let req1 = base_request().with_format("markdown");
    let req2 = base_request().with_format("json");
    assert_eq!(key_of(&req1), key_of(&req2));
    assert_eq!(cid_of_request(&req1), cid_of_request(&req2));
}

#[test]
fn when_timeout_differs_then_cache_key_should_be_equal() {
    let req1 = base_request().with_timeout_millis(2_000);
    let req2 = base_request().with_timeout_millis(10_000);
    assert_eq!(key_of(&req1), key_of(&req2));
    assert_eq!(cid_of_request(&req1), cid_of_request(&req2));
}

#[test]
fn when_extract_differs_then_cache_key_should_be_equal() {
    let req1 = base_request().with_extract(SearchExtractConfig { count: Some(3), timeout_millis: None });
    let req2 =
        base_request().with_extract(SearchExtractConfig { count: Some(5), timeout_millis: Some(2_000) });
    assert_eq!(key_of(&req1), key_of(&req2));
    assert_eq!(cid_of_request(&req1), cid_of_request(&req2));
}

#[test]
fn when_query_differs_then_cid_should_differ() {
    let req2 = SearchRequest::new("python programming");
    let req1 = SearchRequest::new("rust programming");
    assert_ne!(key_of(&req1), key_of(&req2));
    assert_ne!(cid_of_request(&req1), cid_of_request(&req2));
}

#[test]
fn when_workflow_differs_then_cid_should_differ() {
    assert_ne!(key_of(&base_request()), key_of(&base_request().with_workflow("news")));
    assert_ne!(cid_of_request(&base_request()), cid_of_request(&base_request().with_workflow("news")));
}

#[test]
fn when_page_differs_then_cid_should_differ() {
    assert_ne!(key_of(&base_request()), key_of(&base_request().with_page(3)));
    assert_ne!(cid_of_request(&base_request()), cid_of_request(&base_request().with_page(3)));
}

#[test]
fn when_limit_differs_then_cid_should_differ() {
    assert_ne!(key_of(&base_request()), key_of(&base_request().with_limit(10)));
    assert_ne!(cid_of_request(&base_request()), cid_of_request(&base_request().with_limit(10)));
}

#[test]
fn when_safe_search_differs_then_cid_should_differ() {
    assert_ne!(key_of(&base_request()), key_of(&base_request().with_safe_search(true)));
    assert_ne!(cid_of_request(&base_request()), cid_of_request(&base_request().with_safe_search(true)));
}

#[test]
fn when_region_differs_then_cid_should_differ() {
    assert_ne!(key_of(&base_request()), key_of(&base_request().with_region("de")));
    assert_ne!(cid_of_request(&base_request()), cid_of_request(&base_request().with_region("de")));
}

#[test]
fn when_filters_differs_then_cid_should_differ() {
    let req2 = base_request().with_filters(Filters {
        after: Some("2023-01-01".to_owned()),
        before: None,
        region: None,
    });
    assert_ne!(key_of(&base_request()), key_of(&req2));
    assert_ne!(cid_of_request(&base_request()), cid_of_request(&req2));
}

#[test]
fn when_lens_id_differs_then_cid_should_differ() {
    assert_ne!(key_of(&base_request()), key_of(&base_request().with_lens_id("other-lens")));
    assert_ne!(cid_of_request(&base_request()), cid_of_request(&base_request().with_lens_id("other-lens")));
}

#[test]
fn when_lens_differs_then_cid_should_differ() {
    let req2 = base_request().with_lens(Lens {
        sites_included: Some(vec!["other.com".to_owned()]),
        sites_excluded: None,
        keywords_included: None,
        keywords_excluded: None,
        file_type: None,
        time_after: None,
        time_before: None,
        time_relative: None,
        search_region: None,
    });
    assert_ne!(key_of(&base_request()), key_of(&req2));
    assert_ne!(cid_of_request(&base_request()), cid_of_request(&req2));
}

#[test]
fn when_personalizations_differs_then_cid_should_differ() {
    let req2 = base_request().with_personalizations(Personalizations {
        domains: Some(vec![PersonalizationDomain {
            domain: "other.com".to_owned(),
            kind: DomainKind::Lower,
        }]),
        regexes: None,
    });
    assert_ne!(key_of(&base_request()), key_of(&req2));
    assert_ne!(cid_of_request(&base_request()), cid_of_request(&req2));
}

#[test]
fn when_key_built_then_fields_should_be_copied() {
    let key = key_of(&base_request().with_format("json"));
    assert_eq!(key.query, "rust programming");
    assert_eq!(key.workflow.as_deref(), Some("search"));
    assert_eq!(key.page, Some(2));
    assert_eq!(key.limit, Some(20));
    assert_eq!(key.safe_search, Some(false));
    assert_eq!(key.region.as_deref(), Some("us"));
    assert_eq!(key.lens_id.as_deref(), Some("my-lens"));
    assert!(key.filters.is_some() && key.lens.is_some() && key.personalizations.is_some());
}

#[test]
fn when_same_url_then_extract_key_should_be_equal() {
    let key1 = ExtractCacheKey { url: "https://example.com".to_owned() };
    let key2 = ExtractCacheKey { url: "https://example.com".to_owned() };
    assert_eq!(key1, key2);
}

// ---------------------------------------------------------------------------
// Eviction
// ---------------------------------------------------------------------------

fn row(tag: u8, size: i64) -> (Vec<u8>, i64) {
    (vec![tag; 16], size)
}

#[test]
fn when_total_under_limit_then_evict_should_free_zero() {
    assert_eq!(needs_eviction(300, 500), None);
}

#[test]
fn when_total_equals_limit_then_evict_should_free_zero() {
    assert_eq!(needs_eviction(500, 500), None);
}

#[test]
fn when_over_limit_then_evict_should_remove_oldest_first() {
    let need = needs_eviction(300, 200).unwrap();
    assert_eq!(need, 100);
    let plan = plan_eviction(need, &[row(0, 100), row(1, 100), row(2, 100)]);
    assert_eq!(plan.freed, 100);
    assert_eq!(plan.deletions, vec![[0u8; 16]]);
    assert!(!plan.corrupt);
}

#[test]
fn when_over_limit_then_evict_should_free_enough_bytes() {
    let need = needs_eviction(600, 300).unwrap();
    let plan = plan_eviction(need, &[row(0, 200), row(1, 200), row(2, 200)]);
    assert!(plan.freed >= 300);
    assert_eq!(plan.freed, 400);
    assert_eq!(plan.deletions, vec![[0u8; 16], [1u8; 16]]);
}

#[test]
fn when_single_entry_exceeds_limit_then_evict_should_remove_it() {
    let need = needs_eviction(1000, 500).unwrap();
    let plan = plan_eviction(need, &[row(0, 1000)]);
    assert_eq!(plan.freed, 1000);
    assert_eq!(plan.deletions.len(), 1);
}

#[test]
fn when_store_empty_then_plan_should_delete_nothing() {
    let plan = plan_eviction(100, &[]);
    assert_eq!(plan.freed, 0);
    assert!(plan.deletions.is_empty());
    assert!(!plan.corrupt);
}

#[test]
fn when_row_id_is_not_16_bytes_then_plan_should_report_corruption() {
    let plan = plan_eviction(150, &[row(0, 100), (vec![1u8; 3], 100), row(2, 100)]);
    assert_eq!(plan.deletions, vec![[0u8; 16]]);
    assert_eq!(plan.freed, 100);
    assert!(plan.corrupt);
}

#[test]
fn when_enough_is_freed_then_a_later_corrupt_row_should_be_left_alone() {
    let plan = plan_eviction(100, &[row(0, 100), (vec![], 5), row(2, 100)]);
    assert_eq!(plan.deletions, vec![[0u8; 16]]);
    assert_eq!(plan.freed, 100);
    assert!(!plan.corrupt);
    let plan = plan_eviction(100, &[row(0, 100), row(1, 5), (vec![], 5)]);
    assert_eq!(plan.deletions.len(), 1);
    assert!(!plan.corrupt);
}

#[test]
fn when_bad_id_follows_the_last_needed_row_then_eviction_should_succeed() {
    let plan = plan_eviction(100, &[row(7, 100), (vec![9u8; 4], 250)]);
    assert_eq!(plan.deletions, vec![[7u8; 16]]);
    assert_eq!(plan.freed, 100);
    assert!(!plan.corrupt);
}

// ---------------------------------------------------------------------------
// Expiry
// ---------------------------------------------------------------------------

#[test]
fn when_entry_is_older_than_ttl_then_it_should_be_expired() {
    let ttl = ttl_seconds_of(1);
    assert_eq!(ttl, 86_400);
    assert!(is_expired(0, 1_700_000_000, ttl));
    assert!(!is_expired(1_700_000_000 - 86_400, 1_700_000_000, ttl));
    assert!(is_expired(1_700_000_000 - 86_401, 1_700_000_000, ttl));
    assert!(!is_expired(1_700_000_000, 1_700_000_000, ttl));
}

#[test]
fn when_ttl_is_huge_then_cutoff_should_saturate() {
    assert!(is_expired(i64::MIN, 0, i64::MAX as u64));
    assert!(!is_expired(i64::MIN, i64::MIN, 1));
    // A lifetime beyond i64 reads as negative, pushing the cut-off into the future.
    assert!(is_expired(0, 0, u64::MAX));
    assert!(!is_expired(100, 0, u64::MAX));
}

#[test]
fn when_same_url_then_extract_cid_should_be_equal() {
    let a = generate_cid(br#"{"url":"https://example.com"}"#);
    let b = generate_cid(br#"{"url":"https://example.com"}"#);
    assert_eq!(a, b);
}

#[test]
fn when_different_urls_then_extract_cid_should_differ() {
    let a = generate_cid(br#"{"url":"https://example.com"}"#);
    let b = generate_cid(br#"{"url":"https://other.com"}"#);
    assert_ne!(a, b);
}

#[test]
fn when_default_fields_then_explicit_and_implicit_should_be_equal() {
    let implicit = SearchRequest::new("test");
    let explicit = SearchRequest::new("test");
    assert_eq!(key_of(&implicit), key_of(&explicit));
    assert_eq!(cid_of_request(&implicit), cid_of_request(&explicit));
}
