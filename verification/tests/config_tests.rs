use kagi_mcp::config::{
    merge_fallback_rules, parse_cache_ttl_days, parse_fallback_always, parse_fallback_message,
    parse_region, FallbackRule, TransportMode,
};

fn rule(domain: &str, message: &str, always_block: bool) -> FallbackRule {
    FallbackRule {
        domain: domain.to_owned(),
        message: message.to_owned(),
        always_block,
    }
}

#[test]
fn when_region_is_uppercase_then_should_be_lowercased() {
    assert_eq!(parse_region("US-WEST"), Ok("us-west".to_owned()));
    assert_eq!(parse_region("us-west"), Ok("us-west".to_owned()));
}

#[test]
fn when_cache_ttl_days_valid_then_should_parse() {
    assert_eq!(parse_cache_ttl_days("7"), Ok(7));
    assert_eq!(parse_cache_ttl_days("14"), Ok(14));
    assert_eq!(parse_cache_ttl_days("+3"), Ok(3));
}

#[test]
fn when_negative_cache_ttl_days_provided_then_parse_should_fail() {
    assert_eq!(parse_cache_ttl_days("-1"), Err("`-1` is not a valid integer".to_owned()));
}

#[test]
fn when_invalid_cache_ttl_days_provided_then_parse_should_fail() {
    assert_eq!(
        parse_cache_ttl_days("not-an-integer"),
        Err("`not-an-integer` is not a valid integer".to_owned())
    );
    assert!(parse_cache_ttl_days("").is_err());
    assert!(parse_cache_ttl_days("18446744073709551616").is_err());
    assert_eq!(parse_cache_ttl_days("18446744073709551615"), Ok(u64::MAX));
}

#[test]
fn when_zero_cache_ttl_days_provided_then_parse_should_fail() {
    assert_eq!(parse_cache_ttl_days("0"), Err("cache TTL must be positive, got 0".to_owned()));
}

#[test]
fn when_single_fallback_message_then_should_parse_correctly() {
    let parsed = parse_fallback_message("github.com=Use github-mcp instead").unwrap();
    assert_eq!(parsed.domain, "github.com");
    assert_eq!(parsed.message, "Use github-mcp instead");
    assert!(!parsed.always_block);
}

#[test]
fn when_fallback_message_has_spaces_and_second_equals_then_should_trim_and_split_at_first() {
    let parsed = parse_fallback_message("  reddit.com =  Use a=b search  ").unwrap();
    assert_eq!(parsed, rule("reddit.com", "Use a=b search", false));
}

#[test]
fn when_fallback_message_malformed_then_should_fail() {
    assert_eq!(
        parse_fallback_message("just-a-domain"),
        Err("invalid fallback message format `just-a-domain`, expected `domain=message`".to_owned())
    );
}

#[test]
fn when_empty_domain_then_should_fail() {
    assert_eq!(
        parse_fallback_message("=some message"),
        Err("domain must not be empty in fallback message".to_owned())
    );
}

#[test]
fn when_empty_message_or_entry_then_should_fail() {
    assert_eq!(
        parse_fallback_message("github.com=  "),
        Err("message must not be empty in fallback message".to_owned())
    );
    assert_eq!(
        parse_fallback_message("   "),
        Err("fallback message entry must not be empty".to_owned())
    );
}

#[test]
fn when_fallback_always_then_should_set_always_block_and_default_message() {
    let parsed = parse_fallback_always(" github.com ").unwrap();
    assert_eq!(parsed, rule("github.com", "", true));
    assert_eq!(
        parse_fallback_always(""),
        Err("domain must not be empty in fallback always".to_owned())
    );
}

#[test]
fn when_always_and_message_rules_name_same_domain_then_they_should_merge() {
    let always = vec![rule("github.com", "", true)];
    let messages = vec![rule("github.com", "Use github-mcp instead", false)];
    let merged = merge_fallback_rules(&always, &messages);
    assert_eq!(merged, vec![rule("github.com", "Use github-mcp instead", true)]);
}

#[test]
fn when_multiple_fallback_messages_then_should_keep_all_in_order() {
    let messages = vec![
        rule("github.com", "Use github-mcp instead", false),
        rule("gitlab.com", "Use gitlab-mcp instead", false),
    ];
    let merged = merge_fallback_rules(&[], &messages);
    assert_eq!(merged, messages);
}

#[test]
fn when_same_domain_has_several_messages_then_last_message_should_win() {
    let always = vec![rule("a.com", "", true), rule("b.com", "", true)];
    let messages = vec![
        rule("c.com", "first c", false),
        rule("b.com", "first b", false),
        rule("c.com", "second c", false),
    ];
    let merged = merge_fallback_rules(&always, &messages);
    assert_eq!(
        merged,
        vec![rule("a.com", "", true), rule("b.com", "first b", true), rule("c.com", "second c", false)]
    );
}

#[test]
fn when_no_rules_then_merge_should_be_empty() {
    assert!(merge_fallback_rules(&[], &[]).is_empty());
}

#[test]
fn when_transport_defaults_then_should_be_stdio() {
    assert_eq!(TransportMode::default(), TransportMode::Stdio);
}
