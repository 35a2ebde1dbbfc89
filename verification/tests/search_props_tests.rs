use kagi_mcp::api::response::{Meta, ResultProps, SearchData, SearchResponse, SearchResult};
use kagi_mcp::format::search::format_search_markdown;

fn respond(data: SearchData) -> SearchResponse {
    SearchResponse {
        meta: Meta { trace: "test".to_owned(), node: None, ms: None },
        data,
    }
}

fn example(props: Option<ResultProps>) -> SearchResult {
    SearchResult {
        url: "https://example.com".to_owned(),
        title: "Example".to_owned(),
        snippet: Some("This is an example.".to_owned()),
        time: None,
        image: None,
        props,
    }
}

fn web(props: Option<ResultProps>) -> SearchResponse {
    respond(SearchData { search: Some(vec![example(props)]), ..SearchData::empty() })
}

const HEAD: &str = "## Web Results\n\n1. **[Example](https://example.com)**\n   - Snippet: This is an example.";

#[test]
fn when_search_result_has_paywalled_true_then_should_render_paywalled() {
    let props = ResultProps { paywalled: Some(true), ..ResultProps::empty() };
    assert_eq!(format_search_markdown(&web(Some(props))), format!("{HEAD}\n   - Paywalled"));
}

#[test]
fn when_search_result_has_paywalled_false_then_should_not_render_paywalled() {
    let props = ResultProps { paywalled: Some(false), ..ResultProps::empty() };
    assert_eq!(format_search_markdown(&web(Some(props))), HEAD);
}

#[test]
fn when_search_result_has_paywalled_missing_then_should_not_render_paywalled() {
    assert_eq!(format_search_markdown(&web(None)), HEAD);
}

#[test]
fn when_search_result_has_ai_generated_true_then_should_render_generated() {
    let props = ResultProps { ai_generated: Some(true), ..ResultProps::empty() };
    assert_eq!(format_search_markdown(&web(Some(props))), format!("{HEAD}\n   - AI content: generated"));
}

#[test]
fn when_search_result_has_ai_possible_true_then_should_render_possibly_ai() {
    let props = ResultProps { ai_possible: Some(true), ..ResultProps::empty() };
    assert_eq!(
        format_search_markdown(&web(Some(props))),
        format!("{HEAD}\n   - AI content: possibly AI-generated")
    );
}

#[test]
fn when_search_result_has_both_ai_flags_then_generated_takes_precedence() {
    let props = ResultProps { ai_generated: Some(true), ai_possible: Some(true), ..ResultProps::empty() };
    assert_eq!(format_search_markdown(&web(Some(props))), format!("{HEAD}\n   - AI content: generated"));
}

#[test]
fn when_podcast_has_duration_then_should_render_duration() {
    let response = respond(SearchData {
        podcast: Some(vec![SearchResult {
            url: "https://example.com/podcast".to_owned(),
            title: "Great Podcast".to_owned(),
            snippet: Some("An amazing episode.".to_owned()),
            time: None,
            image: None,
            props: Some(ResultProps { duration: Some("1:10:14".to_owned()), ..ResultProps::empty() }),
        }]),
        ..SearchData::empty()
    });
    assert_eq!(
        format_search_markdown(&response),
        "## Podcasts\n\n1. **[Great Podcast](https://example.com/podcast)**\n   - Snippet: An amazing episode.\n   - Duration: 1:10:14"
    );
}

#[test]
fn when_video_has_duration_then_should_render_duration() {
    let response = respond(SearchData {
        video: Some(vec![SearchResult {
            url: "https://example.com/video".to_owned(),
            title: "Great Video".to_owned(),
            snippet: Some("An amazing video.".to_owned()),
            time: None,
            image: None,
            props: Some(ResultProps { duration: Some("45:30".to_owned()), ..ResultProps::empty() }),
        }]),
        ..SearchData::empty()
    });
    assert_eq!(
        format_search_markdown(&response),
        "## Videos\n\n1. **[Great Video](https://example.com/video)**\n   - Snippet: An amazing video.\n   - Duration: 45:30"
    );
}

#[test]
fn when_web_result_has_duration_then_it_should_not_render() {
    let props = ResultProps { duration: Some("45:30".to_owned()), ..ResultProps::empty() };
    assert_eq!(format_search_markdown(&web(Some(props))), HEAD);
}

#[test]
fn when_search_result_has_non_english_language_then_should_render_language() {
    let props = ResultProps { language: Some("ja".to_owned()), ..ResultProps::empty() };
    assert_eq!(format_search_markdown(&web(Some(props))), format!("{HEAD}\n   - Language: ja"));
}

#[test]
fn when_search_result_has_english_language_then_should_not_render_language() {
    let props = ResultProps { language: Some("en".to_owned()), ..ResultProps::empty() };
    assert_eq!(format_search_markdown(&web(Some(props))), HEAD);
}

#[test]
fn when_search_result_has_multiple_props_then_should_render_all() {
    let props = ResultProps {
        paywalled: Some(true),
        ai_generated: Some(true),
        language: Some("fr".to_owned()),
        ..ResultProps::empty()
    };
    assert_eq!(
        format_search_markdown(&web(Some(props))),
        format!("{HEAD}\n   - Paywalled\n   - AI content: generated\n   - Language: fr")
    );
}

#[test]
fn when_news_result_has_paywalled_and_language_then_should_render_both() {
    let response = respond(SearchData {
        news: Some(vec![SearchResult {
            url: "https://example.com/story".to_owned(),
            title: "Breaking Story".to_owned(),
            snippet: Some("Latest updates.".to_owned()),
            time: Some("2024-06-01".to_owned()),
            image: None,
            props: Some(ResultProps {
                paywalled: Some(true),
                language: Some("de".to_owned()),
                ..ResultProps::empty()
            }),
        }]),
        ..SearchData::empty()
    });
    assert_eq!(
        format_search_markdown(&response),
        "## News\n\n1. **[Breaking Story](https://example.com/story)**\n   - Snippet: Latest updates.\n   - Published: 2024-06-01\n   - Paywalled\n   - Language: de"
    );
}

#[test]
fn when_format_search_with_html_entities_and_tags_in_title_then_should_clean() {
    let response = respond(SearchData {
        search: Some(vec![SearchResult {
            url: "https://example.com".to_owned(),
            title: "Rust  &amp;   Go".to_owned(),
            snippet: Some("foo ... ... bar &lt;3".to_owned()),
            time: Some("2011-06-06T10:52:26Z".to_owned()),
            image: None,
            props: None,
        }]),
        ..SearchData::empty()
    });
    assert_eq!(
        format_search_markdown(&response),
        "## Web Results\n\n1. **[Rust & Go](https://example.com)**\n   - Snippet: foo ... bar <3\n   - Published: 2011-06-06"
    );
}

#[test]
fn when_infobox_properties_arrive_unordered_then_they_should_render_in_key_order() {
    let result = SearchResult {
        url: "https://example.com/info".to_owned(),
        title: "Info".to_owned(),
        snippet: None,
        time: None,
        image: None,
        props: Some(ResultProps {
            infobox: Some(vec![
                ("population".to_owned(), "1.4B".to_owned()),
                ("Capital".to_owned(), "Beijing".to_owned()),
                ("area".to_owned(), "9.6M".to_owned()),
                ("Zone".to_owned(), "UTC+8".to_owned()),
            ]),
            ..ResultProps::empty()
        }),
    };
    let response = respond(SearchData { infobox: Some(vec![result]), ..SearchData::empty() });
    assert_eq!(
        format_search_markdown(&response),
        "## Infobox\n\n**[Info](https://example.com/info)**\n\nCapital: Beijing\nZone: UTC+8\narea: 9.6M\npopulation: 1.4B"
    );
}

#[test]
fn when_empty_category_lists_are_given_then_they_should_render_like_missing_ones() {
    let data = SearchData {
        search: Some(vec![]),
        news: Some(vec![]),
        infobox: Some(vec![]),
        weather: Some(vec![]),
        ..SearchData::empty()
    };
    assert_eq!(format_search_markdown(&respond(data)), "No results found.");
    let with_web = SearchData { news: Some(vec![]), image: Some(vec![]), ..web(None).data };
    assert_eq!(format_search_markdown(&respond(with_web)), HEAD);
}

#[test]
fn when_props_change_nothing_then_the_item_should_render_as_without_props() {
    let none = format_search_markdown(&web(None));
    let empty = format_search_markdown(&web(Some(ResultProps::empty())));
    let english = ResultProps { language: Some("en".to_owned()), paywalled: Some(false), ..ResultProps::empty() };
    assert_eq!(empty, none);
    assert_eq!(format_search_markdown(&web(Some(english))), none);
    let both = ResultProps { ai_generated: Some(true), ai_possible: Some(true), ..ResultProps::empty() };
    let generated = ResultProps { ai_generated: Some(true), ..ResultProps::empty() };
    assert_eq!(format_search_markdown(&web(Some(both))), format_search_markdown(&web(Some(generated))));
}

#[test]
fn when_several_results_have_silent_props_then_the_whole_output_should_not_change() {
    let silent = ResultProps { paywalled: Some(false), language: Some("en".to_owned()), ..ResultProps::empty() };
    let both = ResultProps { ai_generated: Some(true), ai_possible: Some(true), ..ResultProps::empty() };
    let generated = ResultProps { ai_generated: Some(true), ..ResultProps::empty() };
    let with_props = SearchData {
        search: Some(vec![example(Some(silent)), example(None)]),
        news: Some(vec![example(Some(both))]),
        ..SearchData::empty()
    };
    let plain = SearchData {
        search: Some(vec![example(None), example(None)]),
        news: Some(vec![example(Some(generated))]),
        ..SearchData::empty()
    };
    let out = format_search_markdown(&respond(with_props));
    assert_eq!(out, format_search_markdown(&respond(plain)));
    assert!(out.contains("## News") && out.contains("AI content: generated"));
}
