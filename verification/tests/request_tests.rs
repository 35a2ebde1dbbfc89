use kagi_mcp::api::client_builder::{extract_endpoint, search_endpoint};
use kagi_mcp::api::request::{
    DomainKind, ExtractPage, ExtractRequest, Filters, Lens, PersonalizationRegex, Personalizations,
    SearchExtractConfig, SearchRequest, TimeRelative,
};

#[test]
fn when_minimal_search_request_then_only_query_should_be_set() {
    let request = SearchRequest::new("test");
    assert_eq!(request.query(), "test");
    assert!(request.workflow().is_none());
    assert!(request.format().is_none());
    assert!(request.timeout_millis().is_none());
    assert!(request.page().is_none());
    assert!(request.limit().is_none());
    assert!(request.safe_search().is_none());
    assert!(request.region().is_none());
    assert!(request.filters().is_none());
    assert!(request.lens_id().is_none());
    assert!(request.lens().is_none());
    assert!(request.extract().is_none());
    assert!(request.personalizations().is_none());
}

#[test]
fn when_fully_populated_search_request_then_getters_should_return_values() {
    let lens = Lens {
        sites_included: Some(vec!["example.com".to_owned()]),
        sites_excluded: None,
        keywords_included: None,
        keywords_excluded: None,
        file_type: None,
        time_after: None,
        time_before: None,
        time_relative: Some(TimeRelative::Week),
        search_region: None,
    };
    let personalizations = Personalizations {
        domains: None,
        regexes: Some(vec![PersonalizationRegex {
            regex: Some(r"^https?://.*".to_owned()),
            replacement: Some("https://example.com".to_owned()),
        }]),
    };
    let request = SearchRequest::new("rust")
        .with_workflow("search")
        .with_format("json")
        .with_timeout_millis(4_000)
        .with_page(1)
        .with_limit(10)
        .with_safe_search(true)
        .with_region("us")
        .with_filters(Filters { after: Some("2023-01-01".to_owned()), before: None, region: Some("us".to_owned()) })
        .with_lens_id("built-in-lens")
        .with_lens(lens.clone())
        .with_extract(SearchExtractConfig { count: Some(5), timeout_millis: Some(2_000) })
        .with_personalizations(personalizations.clone());
    assert_eq!(request.query(), "rust");
    assert_eq!(request.workflow(), Some("search"));
    assert_eq!(request.format(), Some("json"));
    assert_eq!(request.timeout_millis(), Some(4_000));
    assert_eq!(request.page(), Some(1));
    assert_eq!(request.limit(), Some(10));
    assert_eq!(request.safe_search(), Some(true));
    assert_eq!(request.region(), Some("us"));
    assert_eq!(request.filters().unwrap().after.as_deref(), Some("2023-01-01"));
    assert_eq!(request.lens_id(), Some("built-in-lens"));
    assert_eq!(request.lens(), Some(&lens));
    assert_eq!(request.extract().unwrap().count, Some(5));
    assert_eq!(request.personalizations(), Some(&personalizations));
}

#[test]
fn when_setter_called_twice_then_last_value_should_win() {
    let request = SearchRequest::new("q").with_page(1).with_page(2).with_region("us").with_region("de");
    assert_eq!(request.page(), Some(2));
    assert_eq!(request.region(), Some("de"));
}

#[test]
fn when_minimal_extract_request_then_only_pages_should_be_set() {
    let request = ExtractRequest::new(vec![ExtractPage { url: "https://example.com".to_owned() }]);
    assert_eq!(request.pages().len(), 1);
    assert_eq!(request.pages()[0].url, "https://example.com");
    assert!(request.format().is_none());
    assert!(request.timeout_millis().is_none());
}

#[test]
fn when_extract_request_options_set_then_getters_should_return_them() {
    let request = ExtractRequest::new(vec![ExtractPage { url: "https://example.com".to_owned() }])
        .with_format("markdown")
        .with_timeout_millis(30_000);
    assert_eq!(request.format(), Some("markdown"));
    assert_eq!(request.timeout_millis(), Some(30_000));
}

#[test]
fn when_domain_kinds_compared_then_variants_should_differ() {
    assert_ne!(DomainKind::Block, DomainKind::Pin);
    assert_eq!(DomainKind::Raise, DomainKind::Raise);
}

#[test]
fn when_endpoints_built_then_paths_should_be_appended() {
    assert_eq!(search_endpoint("https://kagi.com/api"), "https://kagi.com/api/v1/search");
    assert_eq!(extract_endpoint("https://kagi.com/api"), "https://kagi.com/api/v1/extract");
}
