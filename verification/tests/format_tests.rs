use kagi_mcp::api::response::{
    ExtractData, ExtractError, ExtractResponse, Image, Meta, ResultProps, SearchData,
    SearchResponse, SearchResult,
};
use kagi_mcp::format::ellipsis::collapse_snippet_ellipses;
use kagi_mcp::format::extract::format_extract_markdown;
use kagi_mcp::format::search::format_search_markdown;
use kagi_mcp::format::text_helpers::{decode_entities, normalize_title_whitespace, trim_iso_date};

fn empty_search_data() -> SearchData {
    SearchData::empty()
}

fn make_response(data: SearchData) -> SearchResponse {
    SearchResponse {
        meta: Meta {
            trace: "test".to_owned(),
            node: None,
            ms: None,
        },
        data,
    }
}

#[test]
fn format_when_search_data_is_empty_then_should_return_no_results() {
    let response = SearchResponse {
        meta: Meta {
            trace: "test".to_owned(),
            node: None,
            ms: None,
        },
        data: SearchData {
            search: None,
            image: None,
            video: None,
            podcast: None,
            podcast_creator: None,
            news: None,
            adjacent_question: None,
            direct_answer: None,
            interesting_news: None,
            interesting_finds: None,
            infobox: None,
            code: None,
            package_tracking: None,
            public_records: None,
            weather: None,
            related_search: None,
            listicle: None,
            web_archive: None,
        },
    };

    assert_eq!(format_search_markdown(&response), "No results found.");
}

#[test]
fn format_when_search_has_web_results_then_should_format_web_section() {
    let response = SearchResponse {
        meta: Meta {
            trace: "test".to_owned(),
            node: None,
            ms: None,
        },
        data: SearchData {
            search: Some(vec![SearchResult {
                url: "https://example.com".to_owned(),
                title: "Example".to_owned(),
                snippet: Some("This is an example.".to_owned()),
                time: Some("2023-01-01".to_owned()),
                image: None,
                props: None,
            }]),
            image: None,
            video: None,
            podcast: None,
            podcast_creator: None,
            news: None,
            adjacent_question: None,
            direct_answer: None,
            interesting_news: None,
            interesting_finds: None,
            infobox: None,
            code: None,
            package_tracking: None,
            public_records: None,
            weather: None,
            related_search: None,
            listicle: None,
            web_archive: None,
        },
    };

    let expected = "## Web Results\n\n1. **[Example](https://example.com)**\n   - Snippet: This is an example.\n   - Published: 2023-01-01";
    assert_eq!(format_search_markdown(&response), expected);
}

#[test]
fn format_when_search_has_images_then_should_format_images_section() {
    let response = SearchResponse {
        meta: Meta {
            trace: "test".to_owned(),
            node: None,
            ms: None,
        },
        data: SearchData {
            search: None,
            image: Some(vec![SearchResult {
                url: "https://example.com/page".to_owned(),
                title: "Example Image".to_owned(),
                snippet: None,
                time: None,
                image: Some(Image {
                    url: "https://example.com/image.jpg".to_owned(),
                    width: Some(800),
                    height: Some(600),
                }),
                props: None,
            }]),
            video: None,
            podcast: None,
            podcast_creator: None,
            news: None,
            adjacent_question: None,
            direct_answer: None,
            interesting_news: None,
            interesting_finds: None,
            infobox: None,
            code: None,
            package_tracking: None,
            public_records: None,
            weather: None,
            related_search: None,
            listicle: None,
            web_archive: None,
        },
    };

    let expected = "## Images\n\n1. **[Example Image](https://example.com/page)**\n   - Image: https://example.com/image.jpg (800x600)";
    assert_eq!(format_search_markdown(&response), expected);
}

#[test]
fn format_when_search_result_missing_snippet_and_time_then_should_handle_gracefully() {
    let response = SearchResponse {
        meta: Meta {
            trace: "test".to_owned(),
            node: None,
            ms: None,
        },
        data: SearchData {
            search: Some(vec![SearchResult {
                url: "https://example.com".to_owned(),
                title: "Example".to_owned(),
                snippet: None,
                time: None,
                image: None,
                props: None,
            }]),
            image: None,
            video: None,
            podcast: None,
            podcast_creator: None,
            news: None,
            adjacent_question: None,
            direct_answer: None,
            interesting_news: None,
            interesting_finds: None,
            infobox: None,
            code: None,
            package_tracking: None,
            public_records: None,
            weather: None,
            related_search: None,
            listicle: None,
            web_archive: None,
        },
    };

    let expected = "## Web Results\n\n1. **[Example](https://example.com)**";
    assert_eq!(format_search_markdown(&response), expected);
}

#[test]
fn when_search_data_has_podcast_creator_then_markdown_should_include_podcast_creator_section() {
    let response = SearchResponse {
        meta: Meta {
            trace: "test".to_owned(),
            node: None,
            ms: None,
        },
        data: SearchData {
            search: None,
            image: None,
            video: None,
            podcast: None,
            podcast_creator: Some(vec![SearchResult {
                url: "https://example.com/creator1".to_owned(),
                title: "Creator One".to_owned(),
                snippet: Some("A great podcast creator.".to_owned()),
                time: Some("2024-01-15".to_owned()),
                image: None,
                props: None,
            }]),
            news: None,
            adjacent_question: None,
            direct_answer: None,
            interesting_news: None,
            interesting_finds: None,
            infobox: None,
            code: None,
            package_tracking: None,
            public_records: None,
            weather: None,
            related_search: None,
            listicle: None,
            web_archive: None,
        },
    };

    let expected = "## Podcast Creators\n\n1. **[Creator One](https://example.com/creator1)**\n   - Snippet: A great podcast creator.\n   - Published: 2024-01-15";
    assert_eq!(format_search_markdown(&response), expected);
}

#[test]
fn when_search_data_has_podcast_then_markdown_should_include_podcast_section() {
    let response = SearchResponse {
        meta: Meta {
            trace: "test".to_owned(),
            node: None,
            ms: None,
        },
        data: SearchData {
            search: None,
            image: None,
            video: None,
            podcast: Some(vec![SearchResult {
                url: "https://example.com/podcast1".to_owned(),
                title: "Podcast One".to_owned(),
                snippet: Some("A great podcast episode.".to_owned()),
                time: Some("2024-01-15".to_owned()),
                image: None,
                props: None,
            }]),
            podcast_creator: None,
            news: None,
            adjacent_question: None,
            direct_answer: None,
            interesting_news: None,
            interesting_finds: None,
            infobox: None,
            code: None,
            package_tracking: None,
            public_records: None,
            weather: None,
            related_search: None,
            listicle: None,
            web_archive: None,
        },
    };

    let expected = "## Podcasts\n\n1. **[Podcast One](https://example.com/podcast1)**\n   - Snippet: A great podcast episode.\n   - Published: 2024-01-15";
    assert_eq!(format_search_markdown(&response), expected);
}

#[test]
fn when_search_data_has_video_then_markdown_should_include_video_section() {
    let response = SearchResponse {
        meta: Meta {
            trace: "test".to_owned(),
            node: None,
            ms: None,
        },
        data: SearchData {
            search: None,
            image: None,
            video: Some(vec![SearchResult {
                url: "https://example.com/video1".to_owned(),
                title: "Video One".to_owned(),
                snippet: Some("A great video.".to_owned()),
                time: Some("2024-02-01".to_owned()),
                image: None,
                props: None,
            }]),
            podcast: None,
            podcast_creator: None,
            news: None,
            adjacent_question: None,
            direct_answer: None,
            interesting_news: None,
            interesting_finds: None,
            infobox: None,
            code: None,
            package_tracking: None,
            public_records: None,
            weather: None,
            related_search: None,
            listicle: None,
            web_archive: None,
        },
    };

    let expected = "## Videos\n\n1. **[Video One](https://example.com/video1)**\n   - Snippet: A great video.\n   - Published: 2024-02-01";
    assert_eq!(format_search_markdown(&response), expected);
}

#[test]
fn when_search_data_has_adjacent_question_then_markdown_should_include_related_questions() {
    let response = SearchResponse {
        meta: Meta {
            trace: "test".to_owned(),
            node: None,
            ms: None,
        },
        data: SearchData {
            search: None,
            image: None,
            video: None,
            podcast: None,
            podcast_creator: None,
            news: None,
            adjacent_question: Some(vec![SearchResult {
                url: "https://example.com/answer".to_owned(),
                title: "Answer Page".to_owned(),
                snippet: Some("The answer is 42.".to_owned()),
                time: None,
                image: None,
                props: Some(ResultProps {
                    question: Some("What is the meaning of life?".to_owned()),
                    ..ResultProps::empty()
                }),
            }]),
            direct_answer: None,
            interesting_news: None,
            interesting_finds: None,
            infobox: None,
            code: None,
            package_tracking: None,
            public_records: None,
            weather: None,
            related_search: None,
            listicle: None,
            web_archive: None,
        },
    };

    let expected = "## Related Questions\n\n1. **What is the meaning of life?**\n    - [Answer](https://example.com/answer): The answer is 42.";
    assert_eq!(format_search_markdown(&response), expected);
}

#[test]
fn when_search_data_has_direct_answer_then_markdown_should_include_direct_answer() {
    let response = SearchResponse {
        meta: Meta {
            trace: "test".to_owned(),
            node: None,
            ms: None,
        },
        data: SearchData {
            search: None,
            image: None,
            video: None,
            podcast: None,
            podcast_creator: None,
            news: None,
            adjacent_question: None,
            direct_answer: Some(vec![SearchResult {
                url: "https://example.com".to_owned(),
                title: "Answer".to_owned(),
                snippet: Some("The direct answer is 42.".to_owned()),
                time: None,
                image: None,
                props: None,
            }]),
            interesting_news: None,
            interesting_finds: None,
            infobox: None,
            code: None,
            package_tracking: None,
            public_records: None,
            weather: None,
            related_search: None,
            listicle: None,
            web_archive: None,
        },
    };

    let expected = "## Direct Answer\n\nThe direct answer is 42.";
    assert_eq!(format_search_markdown(&response), expected);
}

#[test]
fn when_search_data_has_infobox_then_markdown_should_include_infobox_section() {
    let response = SearchResponse {
        meta: Meta {
            trace: "test".to_owned(),
            node: None,
            ms: None,
        },
        data: SearchData {
            search: None,
            image: None,
            video: None,
            podcast: None,
            podcast_creator: None,
            news: None,
            adjacent_question: None,
            direct_answer: None,
            interesting_news: None,
            interesting_finds: None,
            infobox: Some(vec![SearchResult {
                url: "https://example.com/info".to_owned(),
                title: "Info Title".to_owned(),
                snippet: Some("Key information.".to_owned()),
                time: None,
                image: None,
                props: Some(ResultProps {
                    infobox: Some(vec![("Capital".to_owned(), "Beijing".to_owned()), ("Population".to_owned(), "1.4B".to_owned())]),
                    ..ResultProps::empty()
                }),
            }]),
            code: None,
            package_tracking: None,
            public_records: None,
            weather: None,
            related_search: None,
            listicle: None,
            web_archive: None,
        },
    };

    let markdown = format_search_markdown(&response);
    assert!(markdown.contains("## Infobox"));
    assert!(markdown.contains("**[Info Title](https://example.com/info)**"));
    assert!(markdown.contains("Population: 1.4B"));
    assert!(markdown.contains("Capital: Beijing"));
}

#[test]
fn when_search_data_has_related_search_then_markdown_should_include_related_searches() {
    let response = SearchResponse {
        meta: Meta {
            trace: "test".to_owned(),
            node: None,
            ms: None,
        },
        data: SearchData {
            search: None,
            image: None,
            video: None,
            podcast: None,
            podcast_creator: None,
            news: None,
            adjacent_question: None,
            direct_answer: None,
            interesting_news: None,
            interesting_finds: None,
            infobox: None,
            code: None,
            package_tracking: None,
            public_records: None,
            weather: None,
            related_search: Some(vec![SearchResult {
                url: "https://example.com".to_owned(),
                title: "Related Topic".to_owned(),
                snippet: None,
                time: None,
                image: None,
                props: None,
            }]),
            listicle: None,
            web_archive: None,
        },
    };

    let expected = "## Related Searches\n\n- Related Topic";
    assert_eq!(format_search_markdown(&response), expected);
}

#[test]
fn when_search_data_has_weather_then_markdown_should_include_weather_section() {
    let response = SearchResponse {
        meta: Meta {
            trace: "test".to_owned(),
            node: None,
            ms: None,
        },
        data: SearchData {
            search: None,
            image: None,
            video: None,
            podcast: None,
            podcast_creator: None,
            news: None,
            adjacent_question: None,
            direct_answer: None,
            interesting_news: None,
            interesting_finds: None,
            infobox: None,
            code: None,
            package_tracking: None,
            public_records: None,
            weather: Some(vec![SearchResult {
                url: "".to_owned(),
                title: "".to_owned(),
                snippet: Some("Sunny, 25°C".to_owned()),
                time: None,
                image: None,
                props: None,
            }]),
            related_search: None,
            listicle: None,
            web_archive: None,
        },
    };

    let expected = "## Weather\n\nSunny, 25°C";
    assert_eq!(format_search_markdown(&response), expected);
}

#[test]
fn when_search_data_has_package_tracking_then_markdown_should_include_package_tracking() {
    let response = SearchResponse {
        meta: Meta {
            trace: "test".to_owned(),
            node: None,
            ms: None,
        },
        data: SearchData {
            search: None,
            image: None,
            video: None,
            podcast: None,
            podcast_creator: None,
            news: None,
            adjacent_question: None,
            direct_answer: None,
            interesting_news: None,
            interesting_finds: None,
            infobox: None,
            code: None,
            package_tracking: Some(vec![SearchResult {
                url: "https://track.example.com/1".to_owned(),
                title: "Package".to_owned(),
                snippet: None,
                time: None,
                image: None,
                props: None,
            }]),
            public_records: None,
            weather: None,
            related_search: None,
            listicle: None,
            web_archive: None,
        },
    };

    let expected = "## Package Tracking\n\n- [Tracking Link](https://track.example.com/1)";
    assert_eq!(format_search_markdown(&response), expected);
}

#[test]
fn format_when_search_has_mixed_results_then_should_format_all_sections() {
    let response = SearchResponse {
        meta: Meta {
            trace: "test".to_owned(),
            node: None,
            ms: None,
        },
        data: SearchData {
            search: Some(vec![SearchResult {
                url: "https://example.com".to_owned(),
                title: "Example".to_owned(),
                snippet: Some("This is an example.".to_owned()),
                time: None,
                image: None,
                props: None,
            }]),
            image: None,
            video: None,
            podcast: None,
            podcast_creator: None,
            news: None,
            adjacent_question: None,
            direct_answer: None,
            interesting_news: None,
            interesting_finds: None,
            infobox: None,
            code: None,
            package_tracking: None,
            public_records: None,
            weather: Some(vec![SearchResult {
                url: "".to_owned(),
                title: "".to_owned(),
                snippet: Some("Sunny, 25C".to_owned()),
                time: None,
                image: None,
                props: None,
            }]),
            related_search: None,
            listicle: None,
            web_archive: None,
        },
    };

    let expected = "## Web Results\n\n1. **[Example](https://example.com)**\n   - Snippet: This is an example.\n\n## Weather\n\nSunny, 25C";
    assert_eq!(format_search_markdown(&response), expected);
}

#[test]
fn format_when_extract_succeeds_then_should_format_content() {
    let response = ExtractResponse {
        meta: Meta {
            trace: "test".to_owned(),
            node: None,
            ms: None,
        },
        data: Some(vec![ExtractData {
            url: "https://example.com".to_owned(),
            markdown: Some("# Hello\nWorld".to_owned()),
        }]),
        errors: None,
    };

    let expected = "## Extracted Content\n\n### https://example.com\n\n# Hello\nWorld\n\n---";
    assert_eq!(format_extract_markdown(&response), expected);
}

#[test]
fn format_when_extract_fails_then_should_format_error() {
    let response = ExtractResponse {
        meta: Meta {
            trace: "test".to_owned(),
            node: None,
            ms: None,
        },
        data: None,
        errors: Some(vec![ExtractError {
            url: "https://example.com".to_owned(),
            code: "404".to_owned(),
            message: Some("Not Found".to_owned()),
        }]),
    };

    let expected =
        "## Extracted Content\n\n### https://example.com\n\n**Extraction failed:** Not Found";
    assert_eq!(format_extract_markdown(&response), expected);
}

#[test]
fn format_when_decode_entities_with_known_entities_then_should_decode_them() {
    let result = decode_entities("foo &amp; bar &quot;baz&quot; &lt;qux&gt;");

    assert_eq!(result, "foo & bar \"baz\" <qux>");
}

#[test]
fn format_when_decode_entities_with_no_entities_then_should_return_unchanged() {
    let result = decode_entities("hello world");

    assert_eq!(result, "hello world");
}

#[test]
fn format_when_decode_entities_with_numeric_entity_then_should_decode_it() {
    let result = decode_entities("it&#39;s");

    assert_eq!(result, "it's");
}

#[test]
fn format_when_normalize_title_with_double_space_then_should_collapse_to_single() {
    let result = normalize_title_whitespace("hello   world");

    assert_eq!(result, "hello world");
}

#[test]
fn format_when_normalize_title_with_leading_trailing_whitespace_then_should_trim() {
    let result = normalize_title_whitespace("  hello world  ");

    assert_eq!(result, "hello world");
}

#[test]
fn format_when_normalize_title_with_tabs_and_newlines_then_should_collapse() {
    let result = normalize_title_whitespace("hello\t\tworld\nfoo\r\nbar");

    assert_eq!(result, "hello world foo bar");
}

#[test]
fn format_when_collapse_ellipses_with_multiple_runs_then_should_collapse_to_one() {
    let result = collapse_snippet_ellipses("foo ... ... ... bar");

    assert_eq!(result, "foo ... bar");
}

#[test]
fn format_when_collapse_ellipses_with_single_run_then_should_preserve() {
    let result = collapse_snippet_ellipses("foo ... bar");

    assert_eq!(result, "foo ... bar");
}

#[test]
fn when_collapse_ellipses_with_leading_trailing_then_should_preserve() {
    let result = collapse_snippet_ellipses("... foo");

    assert_eq!(result, "... foo");
}

#[test]
fn format_when_collapse_ellipses_with_trailing_then_should_preserve() {
    let result = collapse_snippet_ellipses("foo ...");

    assert_eq!(result, "foo ...");
}

#[test]
fn format_when_collapse_ellipses_with_directly_concatenated_then_should_collapse_to_one() {
    let result = collapse_snippet_ellipses("foo......bar");

    assert_eq!(result, "foo ... bar");
}

#[test]
fn format_when_collapse_ellipses_with_mixed_separators_then_should_collapse_to_one() {
    let result = collapse_snippet_ellipses("foo ... ...... ... bar");

    assert_eq!(result, "foo ... bar");
}

#[test]
fn format_when_trim_iso_date_with_full_timestamp_then_should_return_date_only() {
    let result = trim_iso_date("2011-06-06T10:52:26Z");

    assert_eq!(result, "2011-06-06");
}

#[test]
fn format_when_trim_iso_date_with_already_date_only_then_should_return_unchanged() {
    let result = trim_iso_date("2023-01-01");

    assert_eq!(result, "2023-01-01");
}

#[test]
fn format_when_trim_iso_date_with_non_iso_string_then_should_return_unchanged() {
    let result = trim_iso_date("not-a-date");

    assert_eq!(result, "not-a-date");
}

#[test]
fn format_when_format_search_with_html_entities_in_title_then_should_decode() {
    let response = SearchResponse {
        meta: Meta {
            trace: "test".to_owned(),
            node: None,
            ms: None,
        },
        data: SearchData {
            search: Some(vec![SearchResult {
                url: "https://example.com".to_owned(),
                title: "Foo &amp; Bar &quot;baz&quot;".to_owned(),
                snippet: None,
                time: None,
                image: None,
                props: None,
            }]),
            image: None,
            video: None,
            podcast: None,
            podcast_creator: None,
            news: None,
            adjacent_question: None,
            direct_answer: None,
            interesting_news: None,
            interesting_finds: None,
            infobox: None,
            code: None,
            package_tracking: None,
            public_records: None,
            weather: None,
            related_search: None,
            listicle: None,
            web_archive: None,
        },
    };

    let expected = "## Web Results\n\n1. **[Foo & Bar \"baz\"](https://example.com)**";
    assert_eq!(format_search_markdown(&response), expected);
}

#[test]
fn format_when_format_search_with_html_entities_in_snippet_then_should_decode() {
    let response = SearchResponse {
        meta: Meta {
            trace: "test".to_owned(),
            node: None,
            ms: None,
        },
        data: SearchData {
            search: Some(vec![SearchResult {
                url: "https://example.com".to_owned(),
                title: "Example".to_owned(),
                snippet: Some("It&#39;s great &amp; amazing.".to_owned()),
                time: None,
                image: None,
                props: None,
            }]),
            image: None,
            video: None,
            podcast: None,
            podcast_creator: None,
            news: None,
            adjacent_question: None,
            direct_answer: None,
            interesting_news: None,
            interesting_finds: None,
            infobox: None,
            code: None,
            package_tracking: None,
            public_records: None,
            weather: None,
            related_search: None,
            listicle: None,
            web_archive: None,
        },
    };

    let expected = "## Web Results\n\n1. **[Example](https://example.com)**\n   - Snippet: It's great & amazing.";
    assert_eq!(format_search_markdown(&response), expected);
}

#[test]
fn format_when_format_search_with_iso_timestamp_in_time_then_should_render_date_only() {
    let response = SearchResponse {
        meta: Meta {
            trace: "test".to_owned(),
            node: None,
            ms: None,
        },
        data: SearchData {
            search: Some(vec![SearchResult {
                url: "https://example.com".to_owned(),
                title: "Example".to_owned(),
                snippet: None,
                time: Some("2024-03-15T10:30:00Z".to_owned()),
                image: None,
                props: None,
            }]),
            image: None,
            video: None,
            podcast: None,
            podcast_creator: None,
            news: None,
            adjacent_question: None,
            direct_answer: None,
            interesting_news: None,
            interesting_finds: None,
            infobox: None,
            code: None,
            package_tracking: None,
            public_records: None,
            weather: None,
            related_search: None,
            listicle: None,
            web_archive: None,
        },
    };

    let expected =
        "## Web Results\n\n1. **[Example](https://example.com)**\n   - Published: 2024-03-15";
    assert_eq!(format_search_markdown(&response), expected);
}

#[test]
fn format_when_format_search_with_ellipsis_run_in_snippet_then_should_collapse() {
    let response = SearchResponse {
        meta: Meta {
            trace: "test".to_owned(),
            node: None,
            ms: None,
        },
        data: SearchData {
            search: Some(vec![SearchResult {
                url: "https://example.com".to_owned(),
                title: "Example".to_owned(),
                snippet: Some("foo ... ... ... bar".to_owned()),
                time: None,
                image: None,
                props: None,
            }]),
            image: None,
            video: None,
            podcast: None,
            podcast_creator: None,
            news: None,
            adjacent_question: None,
            direct_answer: None,
            interesting_news: None,
            interesting_finds: None,
            infobox: None,
            code: None,
            package_tracking: None,
            public_records: None,
            weather: None,
            related_search: None,
            listicle: None,
            web_archive: None,
        },
    };

    let expected =
        "## Web Results\n\n1. **[Example](https://example.com)**\n   - Snippet: foo ... bar";
    assert_eq!(format_search_markdown(&response), expected);
}

#[test]
fn when_format_search_has_news_then_section_header_should_be_news_not_web_results() {
    let response = SearchResponse {
        meta: Meta {
            trace: "test".to_owned(),
            node: None,
            ms: None,
        },
        data: SearchData {
            search: None,
            image: None,
            video: None,
            podcast: None,
            podcast_creator: None,
            news: Some(vec![SearchResult {
                url: "https://example.com/news".to_owned(),
                title: "News Item".to_owned(),
                snippet: Some("Breaking news.".to_owned()),
                time: None,
                image: None,
                props: None,
            }]),
            adjacent_question: None,
            direct_answer: None,
            interesting_news: None,
            interesting_finds: None,
            infobox: None,
            code: None,
            package_tracking: None,
            public_records: None,
            weather: None,
            related_search: None,
            listicle: None,
            web_archive: None,
        },
    };

    let expected =
        "## News\n\n1. **[News Item](https://example.com/news)**\n   - Snippet: Breaking news.";
    assert_eq!(format_search_markdown(&response), expected);
}

#[test]
fn when_format_search_has_code_then_section_header_should_be_code_results() {
    let response = SearchResponse {
        meta: Meta {
            trace: "test".to_owned(),
            node: None,
            ms: None,
        },
        data: SearchData {
            search: None,
            image: None,
            video: None,
            podcast: None,
            podcast_creator: None,
            news: None,
            adjacent_question: None,
            direct_answer: None,
            interesting_news: None,
            interesting_finds: None,
            infobox: None,
            code: Some(vec![SearchResult {
                url: "https://example.com/code".to_owned(),
                title: "Code Snippet".to_owned(),
                snippet: Some("fn main() {}".to_owned()),
                time: None,
                image: None,
                props: None,
            }]),
            package_tracking: None,
            public_records: None,
            weather: None,
            related_search: None,
            listicle: None,
            web_archive: None,
        },
    };

    let expected = "## Code Results\n\n1. **[Code Snippet](https://example.com/code)**\n   - Snippet: fn main() {}";
    assert_eq!(format_search_markdown(&response), expected);
}

#[test]
fn when_format_search_has_listicle_then_section_header_should_be_listicles() {
    let response = SearchResponse {
        meta: Meta {
            trace: "test".to_owned(),
            node: None,
            ms: None,
        },
        data: SearchData {
            search: None,
            image: None,
            video: None,
            podcast: None,
            podcast_creator: None,
            news: None,
            adjacent_question: None,
            direct_answer: None,
            interesting_news: None,
            interesting_finds: None,
            infobox: None,
            code: None,
            package_tracking: None,
            public_records: None,
            weather: None,
            related_search: None,
            listicle: Some(vec![SearchResult {
                url: "https://example.com/list".to_owned(),
                title: "Top 10 Things".to_owned(),
                snippet: Some("A listicle.".to_owned()),
                time: None,
                image: None,
                props: None,
            }]),
            web_archive: None,
        },
    };

    let expected = "## Listicles\n\n1. **[Top 10 Things](https://example.com/list)**\n   - Snippet: A listicle.";
    assert_eq!(format_search_markdown(&response), expected);
}

#[test]
fn when_format_search_has_all_8_web_categories_then_each_should_have_distinct_header() {
    let mk = |title: &str| SearchResult {
        url: "https://example.com".to_owned(),
        title: title.to_owned(),
        snippet: None,
        time: None,
        image: None,
        props: None,
    };

    let response = SearchResponse {
        meta: Meta {
            trace: "test".to_owned(),
            node: None,
            ms: None,
        },
        data: SearchData {
            search: Some(vec![mk("Web")]),
            image: None,
            video: None,
            podcast: None,
            podcast_creator: None,
            news: Some(vec![mk("News")]),
            adjacent_question: None,
            direct_answer: None,
            interesting_news: Some(vec![mk("Interesting News")]),
            interesting_finds: Some(vec![mk("Interesting Finds")]),
            infobox: None,
            code: Some(vec![mk("Code")]),
            package_tracking: None,
            public_records: Some(vec![mk("Public Records")]),
            weather: None,
            related_search: None,
            listicle: Some(vec![mk("Listicle")]),
            web_archive: Some(vec![mk("Web Archive")]),
        },
    };

    let markdown = format_search_markdown(&response);
    assert!(markdown.contains("## Web Results"));
    assert!(markdown.contains("## News"));
    assert!(markdown.contains("## Interesting News"));
    assert!(markdown.contains("## Interesting Finds"));
    assert!(markdown.contains("## Code Results"));
    assert!(markdown.contains("## Public Records"));
    assert!(markdown.contains("## Listicles"));
    assert!(markdown.contains("## Web Archive"));
}

#[test]
fn when_search_has_interesting_news_then_markdown_should_match_golden() {
    let response = make_response(SearchData {
        interesting_news: Some(vec![SearchResult {
            url: "https://example.com/inews".to_owned(),
            title: "Interesting News Item".to_owned(),
            snippet: Some("A noteworthy event.".to_owned()),
            time: Some("2024-07-01".to_owned()),
            image: None,
            props: None,
        }]),
        ..empty_search_data()
    });
    let expected =
        "## Interesting News\n\n1. **[Interesting News Item](https://example.com/inews)**\n   - Snippet: A noteworthy event.\n   - Published: 2024-07-01";
    assert_eq!(format_search_markdown(&response), expected);
}

#[test]
fn when_search_has_interesting_finds_then_markdown_should_match_golden() {
    let response = make_response(SearchData {
        interesting_finds: Some(vec![SearchResult {
            url: "https://example.com/find".to_owned(),
            title: "Interesting Find".to_owned(),
            snippet: Some("A curious discovery.".to_owned()),
            time: None,
            image: None,
            props: None,
        }]),
        ..empty_search_data()
    });
    let expected =
        "## Interesting Finds\n\n1. **[Interesting Find](https://example.com/find)**\n   - Snippet: A curious discovery.";
    assert_eq!(format_search_markdown(&response), expected);
}

#[test]
fn when_search_has_public_records_then_markdown_should_match_golden() {
    let response = make_response(SearchData {
        public_records: Some(vec![SearchResult {
            url: "https://example.com/record".to_owned(),
            title: "Public Record".to_owned(),
            snippet: Some("A public record entry.".to_owned()),
            time: None,
            image: None,
            props: None,
        }]),
        ..empty_search_data()
    });
    let expected =
        "## Public Records\n\n1. **[Public Record](https://example.com/record)**\n   - Snippet: A public record entry.";
    assert_eq!(format_search_markdown(&response), expected);
}

#[test]
fn when_search_has_web_archive_then_markdown_should_match_golden() {
    let response = make_response(SearchData {
        web_archive: Some(vec![SearchResult {
            url: "https://web.archive.org/web/2024/example".to_owned(),
            title: "Archived Page".to_owned(),
            snippet: Some("A snapshot of a web page.".to_owned()),
            time: None,
            image: None,
            props: None,
        }]),
        ..empty_search_data()
    });
    let expected =
        "## Web Archive\n\n1. **[Archived Page](https://web.archive.org/web/2024/example)**\n   - Snippet: A snapshot of a web page.";
    assert_eq!(format_search_markdown(&response), expected);
}

#[test]
fn when_search_has_proper_infobox_golden_then_markdown_should_match_exact() {
    let response = make_response(SearchData {
        infobox: Some(vec![SearchResult {
            url: "https://example.com/entity".to_owned(),
            title: "Entity Name".to_owned(),
            snippet: Some("A well-known entity.".to_owned()),
            time: None,
            image: None,
            props: Some(ResultProps {
                infobox: Some(vec![("Capital".to_owned(), "Beijing".to_owned()), ("Founded".to_owned(), "1949".to_owned()), ("Population".to_owned(), "1.4B".to_owned())]),
                ..ResultProps::empty()
            }),
        }]),
        ..empty_search_data()
    });
    let expected = "## Infobox\n\n**[Entity Name](https://example.com/entity)**\n\nA well-known entity.\n\nCapital: Beijing\nFounded: 1949\nPopulation: 1.4B";
    assert_eq!(format_search_markdown(&response), expected);
}

#[test]
fn when_search_has_infobox_without_snippet_then_markdown_should_skip_snippet() {
    let response = make_response(SearchData {
        infobox: Some(vec![SearchResult {
            url: "https://example.com/place".to_owned(),
            title: "Place Name".to_owned(),
            snippet: None,
            time: None,
            image: None,
            props: Some(ResultProps {
                infobox: Some(vec![("Country".to_owned(), "USA".to_owned()), ("Population".to_owned(), "8M".to_owned())]),
                ..ResultProps::empty()
            }),
        }]),
        ..empty_search_data()
    });
    let expected = "## Infobox\n\n**[Place Name](https://example.com/place)**\n\nCountry: USA\nPopulation: 8M";
    assert_eq!(format_search_markdown(&response), expected);
}

#[test]
fn when_search_has_infobox_without_infobox_props_then_markdown_should_skip_props() {
    let response = make_response(SearchData {
        infobox: Some(vec![SearchResult {
            url: "https://example.com/plain".to_owned(),
            title: "Plain Info".to_owned(),
            snippet: Some("Just text.".to_owned()),
            time: None,
            image: None,
            props: None,
        }]),
        ..empty_search_data()
    });
    let expected = "## Infobox\n\n**[Plain Info](https://example.com/plain)**\n\nJust text.";
    assert_eq!(format_search_markdown(&response), expected);
}

#[test]
fn when_search_has_image_with_missing_dimensions_then_markdown_should_use_question_mark() {
    let response = make_response(SearchData {
        image: Some(vec![SearchResult {
            url: "https://example.com/page".to_owned(),
            title: "Image No Size".to_owned(),
            snippet: None,
            time: None,
            image: Some(Image {
                url: "https://example.com/img.jpg".to_owned(),
                width: None,
                height: None,
            }),
            props: None,
        }]),
        ..empty_search_data()
    });
    let expected =
        "## Images\n\n1. **[Image No Size](https://example.com/page)**\n   - Image: https://example.com/img.jpg (?x?)";
    assert_eq!(format_search_markdown(&response), expected);
}

#[test]
fn when_search_has_direct_answer_with_multiple_results_then_markdown_should_show_all() {
    let response = make_response(SearchData {
        direct_answer: Some(vec![
            SearchResult {
                url: "https://example.com/a1".to_owned(),
                title: "Answer 1".to_owned(),
                snippet: Some("First direct answer.".to_owned()),
                time: None,
                image: None,
                props: None,
            },
            SearchResult {
                url: "https://example.com/a2".to_owned(),
                title: "Answer 2".to_owned(),
                snippet: Some("Second direct answer.".to_owned()),
                time: None,
                image: None,
                props: None,
            },
        ]),
        ..empty_search_data()
    });
    let expected = "## Direct Answer\n\nFirst direct answer.\n\nSecond direct answer.";
    assert_eq!(format_search_markdown(&response), expected);
}

#[test]
fn when_search_has_adjacent_question_without_question_prop_then_markdown_should_fallback() {
    let response = make_response(SearchData {
        adjacent_question: Some(vec![SearchResult {
            url: "https://example.com/faq".to_owned(),
            title: "FAQ Page".to_owned(),
            snippet: Some("Some answer text.".to_owned()),
            time: None,
            image: None,
            props: None,
        }]),
        ..empty_search_data()
    });
    let expected =
        "## Related Questions\n\n1. **Unknown Question**\n    - [Answer](https://example.com/faq): Some answer text.";
    assert_eq!(format_search_markdown(&response), expected);
}

#[test]
fn when_search_has_podcast_creator_with_time_then_markdown_should_show_published() {
    let response = make_response(SearchData {
        podcast_creator: Some(vec![SearchResult {
            url: "https://example.com/creator2".to_owned(),
            title: "Creator Two".to_owned(),
            snippet: Some("Another creator.".to_owned()),
            time: Some("2024-03-01T08:00:00Z".to_owned()),
            image: None,
            props: None,
        }]),
        ..empty_search_data()
    });
    let expected =
        "## Podcast Creators\n\n1. **[Creator Two](https://example.com/creator2)**\n   - Snippet: Another creator.\n   - Published: 2024-03-01";
    assert_eq!(format_search_markdown(&response), expected);
}

#[test]
fn when_search_has_code_without_snippet_then_markdown_should_skip_snippet_line() {
    let response = make_response(SearchData {
        code: Some(vec![SearchResult {
            url: "https://github.com/user/repo".to_owned(),
            title: "A Code Repository".to_owned(),
            snippet: None,
            time: None,
            image: None,
            props: None,
        }]),
        ..empty_search_data()
    });
    let expected =
        "## Code Results\n\n1. **[A Code Repository](https://github.com/user/repo)**";
    assert_eq!(format_search_markdown(&response), expected);
}

#[test]
fn when_search_has_related_searches_with_multiple_entries_then_markdown_should_show_all() {
    let response = make_response(SearchData {
        related_search: Some(vec![
            SearchResult {
                url: "".to_owned(),
                title: "Search Term One".to_owned(),
                snippet: None,
                time: None,
                image: None,
                props: None,
            },
            SearchResult {
                url: "".to_owned(),
                title: "Search Term Two".to_owned(),
                snippet: None,
                time: None,
                image: None,
                props: None,
            },
        ]),
        ..empty_search_data()
    });
    let expected = "## Related Searches\n\n- Search Term One\n- Search Term Two";
    assert_eq!(format_search_markdown(&response), expected);
}

#[test]
fn when_search_has_package_tracking_with_multiple_links_then_markdown_should_show_all() {
    let response = make_response(SearchData {
        package_tracking: Some(vec![
            SearchResult {
                url: "https://track.example.com/pkg1".to_owned(),
                title: "Package 1".to_owned(),
                snippet: None,
                time: None,
                image: None,
                props: None,
            },
            SearchResult {
                url: "https://track.example.com/pkg2".to_owned(),
                title: "Package 2".to_owned(),
                snippet: None,
                time: None,
                image: None,
                props: None,
            },
        ]),
        ..empty_search_data()
    });
    let expected =
        "## Package Tracking\n\n- [Tracking Link](https://track.example.com/pkg1)\n- [Tracking Link](https://track.example.com/pkg2)";
    assert_eq!(format_search_markdown(&response), expected);
}

#[test]
fn when_search_has_news_without_time_then_markdown_should_omit_published() {
    let response = make_response(SearchData {
        news: Some(vec![SearchResult {
            url: "https://example.com/story".to_owned(),
            title: "Breaking Story".to_owned(),
            snippet: Some("Latest updates.".to_owned()),
            time: None,
            image: None,
            props: None,
        }]),
        ..empty_search_data()
    });
    let expected =
        "## News\n\n1. **[Breaking Story](https://example.com/story)**\n   - Snippet: Latest updates.";
    assert_eq!(format_search_markdown(&response), expected);
}

#[test]
fn when_search_has_listicle_without_snippet_then_markdown_should_omit_snippet() {
    let response = make_response(SearchData {
        listicle: Some(vec![SearchResult {
            url: "https://example.com/top10".to_owned(),
            title: "Top 10 List".to_owned(),
            snippet: None,
            time: Some("2024-05-01".to_owned()),
            image: None,
            props: None,
        }]),
        ..empty_search_data()
    });
    let expected =
        "## Listicles\n\n1. **[Top 10 List](https://example.com/top10)**\n   - Published: 2024-05-01";
    assert_eq!(format_search_markdown(&response), expected);
}

#[test]
fn when_search_has_weather_with_multiple_entries_then_markdown_should_show_all() {
    let response = make_response(SearchData {
        weather: Some(vec![
            SearchResult {
                url: "".to_owned(),
                title: "".to_owned(),
                snippet: Some("Monday: Sunny, 25°C".to_owned()),
                time: None,
                image: None,
                props: None,
            },
            SearchResult {
                url: "".to_owned(),
                title: "".to_owned(),
                snippet: Some("Tuesday: Cloudy, 20°C".to_owned()),
                time: None,
                image: None,
                props: None,
            },
        ]),
        ..empty_search_data()
    });
    let expected = "## Weather\n\nMonday: Sunny, 25°C\nTuesday: Cloudy, 20°C";
    assert_eq!(format_search_markdown(&response), expected);
}

#[test]
fn when_extract_is_empty_then_markdown_should_be_no_content() {
    let response = ExtractResponse {
        meta: Meta {
            trace: "test".to_owned(),
            node: None,
            ms: None,
        },
        data: None,
        errors: None,
    };
    assert_eq!(format_extract_markdown(&response), "No content extracted.");
}

#[test]
fn when_extract_has_empty_arrays_then_markdown_should_be_no_content() {
    let response = ExtractResponse {
        meta: Meta {
            trace: "test".to_owned(),
            node: None,
            ms: None,
        },
        data: Some(vec![]),
        errors: Some(vec![]),
    };
    assert_eq!(format_extract_markdown(&response), "No content extracted.");
}

#[test]
fn when_extract_has_data_and_errors_then_markdown_should_include_both() {
    let response = ExtractResponse {
        meta: Meta {
            trace: "test".to_owned(),
            node: None,
            ms: None,
        },
        data: Some(vec![ExtractData {
            url: "https://example.com/ok".to_owned(),
            markdown: Some("Successful content.".to_owned()),
        }]),
        errors: Some(vec![ExtractError {
            url: "https://example.com/bad".to_owned(),
            code: "500".to_owned(),
            message: Some("Server Error".to_owned()),
        }]),
    };
    let expected = "## Extracted Content\n\n### https://example.com/ok\n\nSuccessful content.\n\n---\n\n### https://example.com/bad\n\n**Extraction failed:** Server Error";
    assert_eq!(format_extract_markdown(&response), expected);
}

#[test]
fn when_extract_error_without_message_then_markdown_should_use_fallback() {
    let response = ExtractResponse {
        meta: Meta {
            trace: "test".to_owned(),
            node: None,
            ms: None,
        },
        data: None,
        errors: Some(vec![ExtractError {
            url: "https://example.com/err".to_owned(),
            code: "403".to_owned(),
            message: None,
        }]),
    };
    let expected =
        "## Extracted Content\n\n### https://example.com/err\n\n**Extraction failed:** Unknown error";
    assert_eq!(format_extract_markdown(&response), expected);
}

#[test]
fn when_extract_has_multiple_data_items_then_markdown_should_show_all() {
    let response = ExtractResponse {
        meta: Meta {
            trace: "test".to_owned(),
            node: None,
            ms: None,
        },
        data: Some(vec![
            ExtractData {
                url: "https://example.com/a".to_owned(),
                markdown: Some("Content A.".to_owned()),
            },
            ExtractData {
                url: "https://example.com/b".to_owned(),
                markdown: Some("Content B.".to_owned()),
            },
        ]),
        errors: None,
    };
    let expected = "## Extracted Content\n\n### https://example.com/a\n\nContent A.\n\n---\n\n### https://example.com/b\n\nContent B.\n\n---";
    assert_eq!(format_extract_markdown(&response), expected);
}

#[test]
fn when_extract_data_has_no_markdown_then_markdown_should_skip_content() {
    let response = ExtractResponse {
        meta: Meta {
            trace: "test".to_owned(),
            node: None,
            ms: None,
        },
        data: Some(vec![ExtractData {
            url: "https://example.com/empty".to_owned(),
            markdown: None,
        }]),
        errors: None,
    };
    let expected = "## Extracted Content\n\n### https://example.com/empty\n\n---";
    assert_eq!(format_extract_markdown(&response), expected);
}
