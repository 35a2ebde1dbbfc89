//! Markdown rendering of search responses.
use vstd::prelude::*;
use vstd::string::StringExecFns;
use crate::api::response::{ResultProps, SearchData, SearchResponse, SearchResult};
use crate::format::ellipsis::{collapse_snippet_ellipses, collapsed};
use crate::format::infobox::{pair_view, sort_by_key, sorted_by_key};
use crate::format::text_helpers::{
    decode_entities, entities_decoded, iso_date, normalize_title_whitespace, normalized_whitespace,
    trim_iso_date,
};
use crate::text::{
    decimal, join, join_strings, lemma_prefix_extend, push_decimal, sviews, trim_end,
    trim_end_string,
};

verus! {

// ---------------------------------------------------------------------------
// What each piece of a result renders to
// ---------------------------------------------------------------------------

/// A title with its whitespace collapsed and its entities decoded.
pub open spec fn clean_title(t: Seq<char>) -> Seq<char> {
    entities_decoded(normalized_whitespace(t))
}

/// A snippet with its ellipses collapsed and its entities decoded.
pub open spec fn clean_snippet(s: Seq<char>) -> Seq<char> {
    entities_decoded(collapsed(s))
}

/// `prefix` followed by the text, when there is text.
pub open spec fn opt_text(prefix: Seq<char>, o: Option<Seq<char>>) -> Seq<char> {
    match o {
        Some(t) => prefix + t,
        None => seq![],
    }
}

/// The cleaned snippet of a result, if it has one.
pub open spec fn snippet_of(r: SearchResult) -> Option<Seq<char>> {
    match r.snippet {
        Some(s) => Some(clean_snippet(s@)),
        None => None,
    }
}

/// The publication date of a result, if it has one.
pub open spec fn time_of(r: SearchResult) -> Option<Seq<char>> {
    match r.time {
        Some(t) => Some(iso_date(t@)),
        None => None,
    }
}

/// The result is marked as paywalled.
pub open spec fn is_paywalled(r: SearchResult) -> bool {
    r.props matches Some(p) && p.paywalled == Some(true)
}

/// How AI involvement is reported: `generated` takes precedence over
/// `possibly AI-generated`.
pub open spec fn ai_label(r: SearchResult) -> Option<Seq<char>> {
    match r.props {
        Some(p) => if p.ai_generated == Some(true) {
            Some("generated"@)
        } else if p.ai_possible == Some(true) {
            Some("possibly AI-generated"@)
        } else {
            None
        },
        None => None,
    }
}

/// The result's language, unless it is English.
pub open spec fn language_label(r: SearchResult) -> Option<Seq<char>> {
    match r.props {
        Some(p) => match p.language {
            Some(l) => if l@ == "en"@ {
                None
            } else {
                Some(l@)
            },
            None => None,
        },
        None => None,
    }
}

/// The duration of an audio or video result.
pub open spec fn duration_label(r: SearchResult, media: bool) -> Option<Seq<char>> {
    if media {
        match r.props {
            Some(p) => match p.duration {
                Some(d) => Some(d@),
                None => None,
            },
            None => None,
        }
    } else {
        None
    }
}

/// A bold markdown link.
pub open spec fn link_heading(title: Seq<char>, url: Seq<char>) -> Seq<char> {
    "**["@ + title + "]("@ + url + ")**"@
}

/// One numbered entry of a general result section.
pub open spec fn general_item(index: nat, r: SearchResult, media: bool) -> Seq<char> {
    decimal(index) + ". "@ + link_heading(clean_title(r.title@), r.url@) + opt_text(
        "\n   - Snippet: "@,
        snippet_of(r),
    ) + opt_text("\n   - Published: "@, time_of(r)) + (if is_paywalled(r) {
        "\n   - Paywalled"@
    } else {
        seq![]
    }) + opt_text("\n   - AI content: "@, ai_label(r)) + opt_text(
        "\n   - Language: "@,
        language_label(r),
    ) + opt_text("\n   - Duration: "@, duration_label(r, media))
}

/// A dimension of an image, or `?` when unknown.
pub open spec fn dimension(o: Option<u32>) -> Seq<char> {
    match o {
        Some(n) => decimal(n as nat),
        None => "?"@,
    }
}

/// One numbered entry of the image section.
pub open spec fn image_item(index: nat, r: SearchResult) -> Seq<char> {
    let (url, w, h) = match r.image {
        Some(img) => (img.url@, img.width, img.height),
        None => (seq![], None, None),
    };
    decimal(index) + ". "@ + link_heading(clean_title(r.title@), r.url@) + "\n   - Image: "@ + url
        + " ("@ + dimension(w) + "x"@ + dimension(h) + ")"@
}

/// The question a related-question result answers.
pub open spec fn question_of(r: SearchResult) -> Seq<char> {
    match r.props {
        Some(p) => match p.question {
            Some(q) => q@,
            None => "Unknown Question"@,
        },
        None => "Unknown Question"@,
    }
}

/// One numbered entry of the related-question section.
pub open spec fn question_item(index: nat, r: SearchResult) -> Seq<char> {
    decimal(index) + ". **"@ + clean_title(question_of(r)) + "**"@ + match snippet_of(r) {
        Some(s) => "\n    - [Answer]("@ + r.url@ + "): "@ + s,
        None => "\n    - [Answer]("@ + r.url@ + ")"@,
    }
}

/// `key: value` lines for properties, in the order given.
pub open spec fn property_lines(s: Seq<(Seq<char>, Seq<char>)>) -> Seq<Seq<char>> {
    Seq::new(s.len(), |i: int| s[i].0 + ": "@ + s[i].1)
}

/// The infobox properties of a result as `key: value` lines, in key order.
pub open spec fn infobox_lines(r: SearchResult) -> Seq<Seq<char>> {
    match r.props {
        Some(p) => match p.infobox {
            Some(v) => property_lines(
                sorted_by_key(v@.map_values(|q: (String, String)| pair_view(q))),
            ),
            None => seq![],
        },
        None => seq![],
    }
}

/// One entry of the infobox section.
pub open spec fn infobox_item(r: SearchResult) -> Seq<char> {
    link_heading(clean_title(r.title@), r.url@) + opt_text("\n\n"@, snippet_of(r)) + (if infobox_lines(
        r,
    ).len() > 0 {
        "\n\n"@ + join(infobox_lines(r), "\n"@)
    } else {
        seq![]
    })
}

/// The cleaned snippets of the results that have one, in order.
pub open spec fn snippets_of(rs: Seq<SearchResult>) -> Seq<Seq<char>>
    decreases rs.len(),
{
    if rs.len() == 0 {
        seq![]
    } else {
        let rest = snippets_of(rs.drop_last());
        match snippet_of(rs.last()) {
            Some(s) => rest.push(s),
            None => rest,
        }
    }
}

// ---------------------------------------------------------------------------
// Sections
// ---------------------------------------------------------------------------

/// A result category that is present and non-empty.
pub open spec fn present(o: Option<Vec<SearchResult>>) -> bool {
    o matches Some(v) && v@.len() > 0
}

/// The results of a category.
pub open spec fn items(o: Option<Vec<SearchResult>>) -> Seq<SearchResult> {
    match o {
        Some(v) => v@,
        None => seq![],
    }
}

/// A section: a level-two heading, a blank line, then the lines.
pub open spec fn section(title: Seq<char>, lines: Seq<Seq<char>>, sep: Seq<char>) -> Seq<char> {
    "## "@ + title + "\n\n"@ + join(lines, sep)
}

/// One rendered section when `cond` holds, none otherwise.
pub open spec fn opt_section(cond: bool, s: Seq<char>) -> Seq<Seq<char>> {
    if cond {
        seq![s]
    } else {
        seq![]
    }
}

pub open spec fn general_lines(rs: Seq<SearchResult>, media: bool) -> Seq<Seq<char>> {
    Seq::new(rs.len(), |i: int| general_item((i + 1) as nat, rs[i], media))
}

pub open spec fn general_section(
    title: Seq<char>,
    o: Option<Vec<SearchResult>>,
    media: bool,
) -> Seq<Seq<char>> {
    opt_section(present(o), section(title, general_lines(items(o), media), "\n"@))
}

pub open spec fn image_section(o: Option<Vec<SearchResult>>) -> Seq<Seq<char>> {
    opt_section(
        present(o),
        section(
            "Images"@,
            Seq::new(items(o).len(), |i: int| image_item((i + 1) as nat, items(o)[i])),
            "\n"@,
        ),
    )
}

pub open spec fn question_section(o: Option<Vec<SearchResult>>) -> Seq<Seq<char>> {
    opt_section(
        present(o),
        section(
            "Related Questions"@,
            Seq::new(items(o).len(), |i: int| question_item((i + 1) as nat, items(o)[i])),
            "\n"@,
        ),
    )
}

pub open spec fn direct_answer_section(o: Option<Vec<SearchResult>>) -> Seq<Seq<char>> {
    opt_section(
        snippets_of(items(o)).len() > 0,
        section("Direct Answer"@, snippets_of(items(o)), "\n\n"@),
    )
}

pub open spec fn infobox_section(o: Option<Vec<SearchResult>>) -> Seq<Seq<char>> {
    opt_section(
        present(o),
        section(
            "Infobox"@,
            Seq::new(items(o).len(), |i: int| infobox_item(items(o)[i])),
            "\n\n"@,
        ),
    )
}

pub open spec fn related_search_section(o: Option<Vec<SearchResult>>) -> Seq<Seq<char>> {
    opt_section(
        present(o),
        section(
            "Related Searches"@,
            Seq::new(items(o).len(), |i: int| "- "@ + clean_title(items(o)[i].title@)),
            "\n"@,
        ),
    )
}

pub open spec fn weather_section(o: Option<Vec<SearchResult>>) -> Seq<Seq<char>> {
    opt_section(
        snippets_of(items(o)).len() > 0,
        section("Weather"@, snippets_of(items(o)), "\n"@),
    )
}

pub open spec fn package_tracking_section(o: Option<Vec<SearchResult>>) -> Seq<Seq<char>> {
    opt_section(
        present(o),
        section(
            "Package Tracking"@,
            Seq::new(items(o).len(), |i: int| "- [Tracking Link]("@ + items(o)[i].url@ + ")"@),
            "\n"@,
        ),
    )
}

/// The rendered sections of a search, in display order.
pub open spec fn search_sections(d: SearchData) -> Seq<Seq<char>> {
    general_section("Web Results"@, d.search, false) + general_section("News"@, d.news, false)
        + general_section("Interesting News"@, d.interesting_news, false) + general_section(
        "Interesting Finds"@,
        d.interesting_finds,
        false,
    ) + general_section("Code Results"@, d.code, false) + general_section(
        "Public Records"@,
        d.public_records,
        false,
    ) + general_section("Listicles"@, d.listicle, false) + general_section(
        "Web Archive"@,
        d.web_archive,
        false,
    ) + general_section("Videos"@, d.video, true) + general_section("Podcasts"@, d.podcast, true)
        + general_section("Podcast Creators"@, d.podcast_creator, true) + image_section(d.image)
        + question_section(d.adjacent_question) + direct_answer_section(d.direct_answer)
        + infobox_section(d.infobox) + related_search_section(d.related_search) + weather_section(
        d.weather,
    ) + package_tracking_section(d.package_tracking)
}

/// Some category of the search holds at least one result.
pub open spec fn has_results(d: SearchData) -> bool {
    present(d.search) || present(d.news) || present(d.interesting_news) || present(
        d.interesting_finds,
    ) || present(d.code) || present(d.public_records) || present(d.listicle) || present(
        d.web_archive,
    ) || present(d.video) || present(d.podcast) || present(d.podcast_creator) || present(d.image)
        || present(d.adjacent_question) || present(d.direct_answer) || present(d.infobox)
        || present(d.related_search) || present(d.weather) || present(d.package_tracking)
}

/// The markdown for a search: its sections separated by blank lines, or
/// `No results found.` when no category holds a result.
pub open spec fn search_markdown(d: SearchData) -> Seq<char> {
    if has_results(d) {
        trim_end(join(search_sections(d), "\n\n"@))
    } else {
        "No results found."@
    }
}

/// The two searches hold the same results in every category, a missing
/// list counting as an empty one.
pub open spec fn same_results(d1: SearchData, d2: SearchData) -> bool {
    &&& items(d1.search) == items(d2.search)
    &&& items(d1.image) == items(d2.image)
    &&& items(d1.video) == items(d2.video)
    &&& items(d1.podcast) == items(d2.podcast)
    &&& items(d1.podcast_creator) == items(d2.podcast_creator)
    &&& items(d1.news) == items(d2.news)
    &&& items(d1.adjacent_question) == items(d2.adjacent_question)
    &&& items(d1.direct_answer) == items(d2.direct_answer)
    &&& items(d1.interesting_news) == items(d2.interesting_news)
    &&& items(d1.interesting_finds) == items(d2.interesting_finds)
    &&& items(d1.infobox) == items(d2.infobox)
    &&& items(d1.code) == items(d2.code)
    &&& items(d1.package_tracking) == items(d2.package_tracking)
    &&& items(d1.public_records) == items(d2.public_records)
    &&& items(d1.weather) == items(d2.weather)
    &&& items(d1.related_search) == items(d2.related_search)
    &&& items(d1.listicle) == items(d2.listicle)
    &&& items(d1.web_archive) == items(d2.web_archive)
}

/// No category of the search holds a result.
pub open spec fn holds_no_result(d: SearchData) -> bool {
    &&& items(d.search).len() == 0
    &&& items(d.image).len() == 0
    &&& items(d.video).len() == 0
    &&& items(d.podcast).len() == 0
    &&& items(d.podcast_creator).len() == 0
    &&& items(d.news).len() == 0
    &&& items(d.adjacent_question).len() == 0
    &&& items(d.direct_answer).len() == 0
    &&& items(d.interesting_news).len() == 0
    &&& items(d.interesting_finds).len() == 0
    &&& items(d.infobox).len() == 0
    &&& items(d.code).len() == 0
    &&& items(d.package_tracking).len() == 0
    &&& items(d.public_records).len() == 0
    &&& items(d.weather).len() == 0
    &&& items(d.related_search).len() == 0
    &&& items(d.listicle).len() == 0
    &&& items(d.web_archive).len() == 0
}

proof fn lemma_sections_by_items(o1: Option<Vec<SearchResult>>, o2: Option<Vec<SearchResult>>)
    requires
        items(o1) == items(o2),
    ensures
        present(o1) == present(o2),
        forall|t: Seq<char>, m: bool| #[trigger] general_section(t, o1, m) == general_section(t, o2, m),
        image_section(o1) == image_section(o2),
        question_section(o1) == question_section(o2),
        direct_answer_section(o1) == direct_answer_section(o2),
        infobox_section(o1) == infobox_section(o2),
        related_search_section(o1) == related_search_section(o2),
        weather_section(o1) == weather_section(o2),
        package_tracking_section(o1) == package_tracking_section(o2),
{
}

/// A category renders by the results it holds: a missing list and an empty
/// one render alike.
pub proof fn lemma_empty_list_renders_like_missing(d1: SearchData, d2: SearchData)
    requires
        same_results(d1, d2),
    ensures
        search_markdown(d1) == search_markdown(d2),
{
    lemma_sections_by_items(d1.search, d2.search);
    lemma_sections_by_items(d1.image, d2.image);
    lemma_sections_by_items(d1.video, d2.video);
    lemma_sections_by_items(d1.podcast, d2.podcast);
    lemma_sections_by_items(d1.podcast_creator, d2.podcast_creator);
    lemma_sections_by_items(d1.news, d2.news);
    lemma_sections_by_items(d1.adjacent_question, d2.adjacent_question);
    lemma_sections_by_items(d1.direct_answer, d2.direct_answer);
    lemma_sections_by_items(d1.interesting_news, d2.interesting_news);
    lemma_sections_by_items(d1.interesting_finds, d2.interesting_finds);
    lemma_sections_by_items(d1.infobox, d2.infobox);
    lemma_sections_by_items(d1.code, d2.code);
    lemma_sections_by_items(d1.package_tracking, d2.package_tracking);
    lemma_sections_by_items(d1.public_records, d2.public_records);
    lemma_sections_by_items(d1.weather, d2.weather);
    lemma_sections_by_items(d1.related_search, d2.related_search);
    lemma_sections_by_items(d1.listicle, d2.listicle);
    lemma_sections_by_items(d1.web_archive, d2.web_archive);
    assert(has_results(d1) == has_results(d2));
    assert(search_sections(d1) == search_sections(d2));
}

/// A search whose categories are all missing or empty renders as
/// `No results found.` and holds no section.
pub proof fn lemma_no_result_renders_no_results_found(d: SearchData)
    requires
        holds_no_result(d),
    ensures
        search_markdown(d) == "No results found."@,
{
}

/// `r` with its properties replaced by `props`.
pub open spec fn with_props(r: SearchResult, props: Option<ResultProps>) -> SearchResult {
    SearchResult {
        url: r.url,
        title: r.title,
        snippet: r.snippet,
        time: r.time,
        image: r.image,
        props,
    }
}

/// The properties report nothing a result item shows: not paywalled, no AI
/// involvement, no language or English, and no duration where one would show.
pub open spec fn silent_props(p: ResultProps, media: bool) -> bool {
    &&& p.paywalled != Some(true)
    &&& p.ai_generated != Some(true)
    &&& p.ai_possible != Some(true)
    &&& (p.language matches Some(l) ==> l@ == "en"@)
    &&& (media ==> p.duration is None)
}

/// Properties that report nothing render like no properties: `paywalled`
/// false, `language` English and the like change nothing in the item.
pub proof fn lemma_silent_props_render_like_none(
    index: nat,
    r: SearchResult,
    p: ResultProps,
    media: bool,
)
    requires
        silent_props(p, media),
    ensures
        general_item(index, with_props(r, Some(p)), media) == general_item(
            index,
            with_props(r, None),
            media,
        ),
{
}

/// AI generation takes precedence: with `ai_generated` set, `ai_possible`
/// changes nothing in the item.
pub proof fn lemma_ai_generated_overrides_possible(
    index: nat,
    r: SearchResult,
    p: ResultProps,
    possible: Option<bool>,
    media: bool,
)
    requires
        p.ai_generated == Some(true),
    ensures
        general_item(index, with_props(r, Some(p)), media) == general_item(
            index,
            with_props(
                r,
                Some(
                    ResultProps {
                        question: p.question,
                        group_id: p.group_id,
                        infobox: p.infobox,
                        paywalled: p.paywalled,
                        ai_generated: p.ai_generated,
                        ai_possible: possible,
                        language: p.language,
                        duration: p.duration,
                    },
                ),
            ),
            media,
        ),
{
}

/// `r2` is `r1` with properties that change nothing in its item: silent
/// properties dropped, or `ai_possible` changed beside `ai_generated`.
pub open spec fn props_silenced(r1: SearchResult, r2: SearchResult, media: bool) -> bool {
    ||| (r1.props matches Some(p) && silent_props(p, media) && r2 == with_props(r1, None))
    ||| (r1.props matches Some(p) && p.ai_generated == Some(true) && exists|possible: Option<bool>|
        r2 == with_props(
            r1,
            Some(
                ResultProps {
                    question: p.question,
                    group_id: p.group_id,
                    infobox: p.infobox,
                    paywalled: p.paywalled,
                    ai_generated: p.ai_generated,
                    ai_possible: possible,
                    language: p.language,
                    duration: p.duration,
                },
            ),
        ))
}

/// The two lists of a general category hold the same results, except that
/// some results have had properties silenced.
pub open spec fn alike_items(
    o1: Option<Vec<SearchResult>>,
    o2: Option<Vec<SearchResult>>,
    media: bool,
) -> bool {
    &&& items(o1).len() == items(o2).len()
    &&& forall|i: int|
        0 <= i < items(o1).len() ==> items(o1)[i] == items(o2)[i] || props_silenced(
            #[trigger] items(o1)[i],
            items(o2)[i],
            media,
        )
}

proof fn lemma_general_section_alike(
    title: Seq<char>,
    o1: Option<Vec<SearchResult>>,
    o2: Option<Vec<SearchResult>>,
    media: bool,
)
    requires
        alike_items(o1, o2, media),
    ensures
        general_section(title, o1, media) == general_section(title, o2, media),
{
    let rs1 = items(o1);
    let rs2 = items(o2);
    assert forall|i: int| 0 <= i < rs1.len() implies general_item((i + 1) as nat, rs1[i], media)
        == general_item((i + 1) as nat, rs2[i], media) by {
        let r1 = rs1[i];
        if r1 != rs2[i] {
            assert(props_silenced(r1, rs2[i], media));
            let p = r1.props->0;
            assert(with_props(r1, Some(p)) == r1);
            if silent_props(p, media) && rs2[i] == with_props(r1, None) {
                lemma_silent_props_render_like_none((i + 1) as nat, r1, p, media);
            } else {
                let possible = choose|possible: Option<bool>|
                    rs2[i] == with_props(
                        r1,
                        Some(
                            ResultProps {
                                question: p.question,
                                group_id: p.group_id,
                                infobox: p.infobox,
                                paywalled: p.paywalled,
                                ai_generated: p.ai_generated,
                                ai_possible: possible,
                                language: p.language,
                                duration: p.duration,
                            },
                        ),
                    );
                lemma_ai_generated_overrides_possible((i + 1) as nat, r1, p, possible, media);
            }
        }
    }
    assert(general_lines(rs1, media) =~= general_lines(rs2, media));
}

/// Properties that change nothing in a result's item change nothing in the
/// whole rendering: two searches that hold the same results, except that in
/// the general categories some results have `paywalled` false, English as
/// language or the like where the other has no properties, or another
/// `ai_possible` beside `ai_generated`, render the same markdown.
pub proof fn lemma_silenced_props_render_alike(d1: SearchData, d2: SearchData)
    requires
        alike_items(d1.search, d2.search, false),
        alike_items(d1.news, d2.news, false),
        alike_items(d1.interesting_news, d2.interesting_news, false),
        alike_items(d1.interesting_finds, d2.interesting_finds, false),
        alike_items(d1.code, d2.code, false),
        alike_items(d1.public_records, d2.public_records, false),
        alike_items(d1.listicle, d2.listicle, false),
        alike_items(d1.web_archive, d2.web_archive, false),
        alike_items(d1.video, d2.video, true),
        alike_items(d1.podcast, d2.podcast, true),
        alike_items(d1.podcast_creator, d2.podcast_creator, true),
        items(d1.image) == items(d2.image),
        items(d1.adjacent_question) == items(d2.adjacent_question),
        items(d1.direct_answer) == items(d2.direct_answer),
        items(d1.infobox) == items(d2.infobox),
        items(d1.related_search) == items(d2.related_search),
        items(d1.weather) == items(d2.weather),
        items(d1.package_tracking) == items(d2.package_tracking),
    ensures
        search_markdown(d1) == search_markdown(d2),
{
    lemma_general_section_alike("Web Results"@, d1.search, d2.search, false);
    lemma_general_section_alike("News"@, d1.news, d2.news, false);
    lemma_general_section_alike("Interesting News"@, d1.interesting_news, d2.interesting_news, false);
    lemma_general_section_alike("Interesting Finds"@, d1.interesting_finds, d2.interesting_finds, false);
    lemma_general_section_alike("Code Results"@, d1.code, d2.code, false);
    lemma_general_section_alike("Public Records"@, d1.public_records, d2.public_records, false);
    lemma_general_section_alike("Listicles"@, d1.listicle, d2.listicle, false);
    lemma_general_section_alike("Web Archive"@, d1.web_archive, d2.web_archive, false);
    lemma_general_section_alike("Videos"@, d1.video, d2.video, true);
    lemma_general_section_alike("Podcasts"@, d1.podcast, d2.podcast, true);
    lemma_general_section_alike("Podcast Creators"@, d1.podcast_creator, d2.podcast_creator, true);
    lemma_sections_by_items(d1.image, d2.image);
    lemma_sections_by_items(d1.adjacent_question, d2.adjacent_question);
    lemma_sections_by_items(d1.direct_answer, d2.direct_answer);
    lemma_sections_by_items(d1.infobox, d2.infobox);
    lemma_sections_by_items(d1.related_search, d2.related_search);
    lemma_sections_by_items(d1.weather, d2.weather);
    lemma_sections_by_items(d1.package_tracking, d2.package_tracking);
    assert(has_results(d1) == has_results(d2));
    assert(search_sections(d1) == search_sections(d2));
}

/// The entry number that starts the `k`-th entry (from 0) of a numbered
/// section: `k + 1` in decimal, then `. `.
pub open spec fn entry_number(k: int) -> Seq<char> {
    decimal((k + 1) as nat) + ". "@
}

proof fn lemma_general_item_numbered(n: nat, r: SearchResult, media: bool)
    ensures
        (decimal(n) + ". "@).is_prefix_of(general_item(n, r, media)),
{
    let p = decimal(n) + ". "@;
    let a = general_item(n, r, media).subrange(p.len() as int, general_item(n, r, media).len() as int);
    assert(p.is_prefix_of(p + link_heading(clean_title(r.title@), r.url@))) by {
        assert((p + link_heading(clean_title(r.title@), r.url@)).subrange(0, p.len() as int) =~= p);
    }
    let s1 = p + link_heading(clean_title(r.title@), r.url@);
    let s2 = s1 + opt_text("\n   - Snippet: "@, snippet_of(r));
    lemma_prefix_extend(p, s1, opt_text("\n   - Snippet: "@, snippet_of(r)));
    let s3 = s2 + opt_text("\n   - Published: "@, time_of(r));
    lemma_prefix_extend(p, s2, opt_text("\n   - Published: "@, time_of(r)));
    let pw = if is_paywalled(r) {
        "\n   - Paywalled"@
    } else {
        seq![]
    };
    let s4 = s3 + pw;
    lemma_prefix_extend(p, s3, pw);
    let s5 = s4 + opt_text("\n   - AI content: "@, ai_label(r));
    lemma_prefix_extend(p, s4, opt_text("\n   - AI content: "@, ai_label(r)));
    let s6 = s5 + opt_text("\n   - Language: "@, language_label(r));
    lemma_prefix_extend(p, s5, opt_text("\n   - Language: "@, language_label(r)));
    lemma_prefix_extend(p, s6, opt_text("\n   - Duration: "@, duration_label(r, media)));
}

/// Web, news, video and the other general sections number their entries 1,
/// 2, 3, ... in the order of the results: the `k`-th line of the section is
/// the item of the `k`-th result and starts with `k + 1` and `. `.
pub proof fn lemma_general_entries_numbered(title: Seq<char>, o: Option<Vec<SearchResult>>, media: bool)
    ensures
        general_section(title, o, media) == opt_section(
            present(o),
            section(
                title,
                Seq::new(items(o).len(), |k: int| general_item((k + 1) as nat, items(o)[k], media)),
                "\n"@,
            ),
        ),
        forall|k: int|
            0 <= k < items(o).len() ==> entry_number(k).is_prefix_of(
                #[trigger] general_item((k + 1) as nat, items(o)[k], media),
            ),
{
    assert forall|k: int| 0 <= k < items(o).len() implies entry_number(k).is_prefix_of(
        #[trigger] general_item((k + 1) as nat, items(o)[k], media),
    ) by {
        lemma_general_item_numbered((k + 1) as nat, items(o)[k], media);
    }
}

proof fn lemma_image_item_numbered(n: nat, r: SearchResult)
    ensures
        (decimal(n) + ". "@).is_prefix_of(image_item(n, r)),
{
    let p = decimal(n) + ". "@;
    let s = image_item(n, r);
    let (url, w, h) = match r.image {
        Some(img) => (img.url@, img.width, img.height),
        None => (seq![], None, None),
    };
    let s1 = p + link_heading(clean_title(r.title@), r.url@);
    assert(p.is_prefix_of(s1)) by {
        assert(s1.subrange(0, p.len() as int) =~= p);
    }
    let rest = "\n   - Image: "@ + url + " ("@ + dimension(w) + "x"@ + dimension(h) + ")"@;
    lemma_prefix_extend(p, s1, rest);
    assert(s =~= s1 + rest);
}

/// The image section numbers its entries 1, 2, 3, ... in the order of the
/// results: the `k`-th line is the `k`-th image and starts with `k + 1` and `. `.
pub proof fn lemma_image_entries_numbered(o: Option<Vec<SearchResult>>)
    ensures
        image_section(o) == opt_section(
            present(o),
            section(
                "Images"@,
                Seq::new(items(o).len(), |k: int| image_item((k + 1) as nat, items(o)[k])),
                "\n"@,
            ),
        ),
        forall|k: int|
            0 <= k < items(o).len() ==> entry_number(k).is_prefix_of(
                #[trigger] image_item((k + 1) as nat, items(o)[k]),
            ),
{
    assert forall|k: int| 0 <= k < items(o).len() implies entry_number(k).is_prefix_of(
        #[trigger] image_item((k + 1) as nat, items(o)[k]),
    ) by {
        lemma_image_item_numbered((k + 1) as nat, items(o)[k]);
    }
}

proof fn lemma_question_item_numbered(n: nat, r: SearchResult)
    ensures
        (decimal(n) + ". **"@).is_prefix_of(question_item(n, r)),
{
    let p = decimal(n) + ". **"@;
    let s1 = p + clean_title(question_of(r));
    assert(p.is_prefix_of(s1)) by {
        assert(s1.subrange(0, p.len() as int) =~= p);
    }
    let rest = "**"@ + match snippet_of(r) {
        Some(sn) => "\n    - [Answer]("@ + r.url@ + "): "@ + sn,
        None => "\n    - [Answer]("@ + r.url@ + ")"@,
    };
    lemma_prefix_extend(p, s1, rest);
    assert(question_item(n, r) =~= s1 + rest);
}

/// The related-question section numbers its entries 1, 2, 3, ... in the
/// order of the results: the `k`-th line is the `k`-th question and starts
/// with `k + 1`, `. ` and the bold marker.
pub proof fn lemma_question_entries_numbered(o: Option<Vec<SearchResult>>)
    ensures
        question_section(o) == opt_section(
            present(o),
            section(
                "Related Questions"@,
                Seq::new(items(o).len(), |k: int| question_item((k + 1) as nat, items(o)[k])),
                "\n"@,
            ),
        ),
        forall|k: int|
            0 <= k < items(o).len() ==> (entry_number(k) + "**"@).is_prefix_of(
                #[trigger] question_item((k + 1) as nat, items(o)[k]),
            ),
{
    assert forall|k: int| 0 <= k < items(o).len() implies (entry_number(k) + "**"@).is_prefix_of(
        #[trigger] question_item((k + 1) as nat, items(o)[k]),
    ) by {
        lemma_question_item_numbered((k + 1) as nat, items(o)[k]);
        reveal_strlit(". ");
        reveal_strlit("**");
        reveal_strlit(". **");
        assert(entry_number(k) + "**"@ =~= decimal((k + 1) as nat) + ". **"@);
    }
}

// ---------------------------------------------------------------------------
// Rendering
// ---------------------------------------------------------------------------

fn clean_title_of(t: &str) -> (r: String)
    ensures
        r@ == clean_title(t@),
{
    let n = normalize_title_whitespace(t);
    decode_entities(n.as_str())
}

fn clean_snippet_of(s: &str) -> (r: String)
    ensures
        r@ == clean_snippet(s@),
{
    let c = collapse_snippet_ellipses(s);
    decode_entities(c.as_str())
}

fn push_opt_text(out: &mut String, prefix: &str, o: &Option<String>)
    ensures
        final(out)@ == old(out)@ + opt_text(
            prefix@,
            match o {
                Some(t) => Some(t@),
                None => None,
            },
        ),
{
    match o {
        Some(t) => {
            out.append(prefix);
            out.append(t.as_str());
        },
        None => {
            assert(old(out)@ + seq![] =~= old(out)@);
        },
    }
}

fn snippet_text(r: &SearchResult) -> (o: Option<String>)
    ensures
        match o {
            Some(t) => Some(t@),
            None => None,
        } == snippet_of(*r),
{
    match &r.snippet {
        Some(s) => Some(clean_snippet_of(s.as_str())),
        None => None,
    }
}

fn time_text(r: &SearchResult) -> (o: Option<String>)
    ensures
        match o {
            Some(t) => Some(t@),
            None => None,
        } == time_of(*r),
{
    match &r.time {
        Some(t) => Some(trim_iso_date(t.as_str())),
        None => None,
    }
}

fn paywalled(r: &SearchResult) -> (b: bool)
    ensures
        b == is_paywalled(*r),
{
    match &r.props {
        Some(p) => match p.paywalled {
            Some(v) => v,
            None => false,
        },
        None => false,
    }
}

fn ai_text(r: &SearchResult) -> (o: Option<String>)
    ensures
        match o {
            Some(t) => Some(t@),
            None => None,
        } == ai_label(*r),
{
    match &r.props {
        Some(p) => {
            if p.ai_generated == Some(true) {
                Some("generated".to_owned())
            } else if p.ai_possible == Some(true) {
                Some("possibly AI-generated".to_owned())
            } else {
                None
            }
        },
        None => None,
    }
}

fn language_text(r: &SearchResult) -> (o: Option<String>)
    ensures
        match o {
            Some(t) => Some(t@),
            None => None,
        } == language_label(*r),
{
    match &r.props {
        Some(p) => match &p.language {
            Some(l) => {
                let en = "en".to_owned();
                if *l == en {
                    None
                } else {
                    Some(l.clone())
                }
            },
            None => None,
        },
        None => None,
    }
}

fn duration_text(r: &SearchResult, media: bool) -> (o: Option<String>)
    ensures
        match o {
            Some(t) => Some(t@),
            None => None,
        } == duration_label(*r, media),
{
    if media {
        match &r.props {
            Some(p) => match &p.duration {
                Some(d) => Some(d.clone()),
                None => None,
            },
            None => None,
        }
    } else {
        None
    }
}

fn push_link_heading(out: &mut String, title: &str, url: &str)
    ensures
        final(out)@ == old(out)@ + link_heading(title@, url@),
{
    out.append("**[");
    out.append(title);
    out.append("](");
    out.append(url);
    out.append(")**");
    assert(final(out)@ =~= old(out)@ + link_heading(title@, url@));
}

fn general_item_text(index: usize, r: &SearchResult, media: bool) -> (s: String)
    ensures
        s@ == general_item(index as nat, *r, media),
{
    let mut s = String::new();
    push_decimal(&mut s, index as u64);
    s.append(". ");
    let title = clean_title_of(r.title.as_str());
    push_link_heading(&mut s, title.as_str(), r.url.as_str());
    push_opt_text(&mut s, "\n   - Snippet: ", &snippet_text(r));
    push_opt_text(&mut s, "\n   - Published: ", &time_text(r));
    let ghost mid = s@;
    if paywalled(r) {
        s.append("\n   - Paywalled");
    }
    let ghost mid2 = s@;
    assert(mid2 == mid + (if is_paywalled(*r) { "\n   - Paywalled"@ } else { seq![] }));
    push_opt_text(&mut s, "\n   - AI content: ", &ai_text(r));
    push_opt_text(&mut s, "\n   - Language: ", &language_text(r));
    push_opt_text(&mut s, "\n   - Duration: ", &duration_text(r, media));
    assert(s@ =~= general_item(index as nat, *r, media));
    s
}

fn general_lines_of(rs: &Vec<SearchResult>, media: bool) -> (lines: Vec<String>)
    ensures
        sviews(lines@) == general_lines(rs@, media),
{
    let mut lines: Vec<String> = Vec::new();
    let mut i: usize = 0;
    while i < rs.len()
        invariant
            0 <= i <= rs.len(),
            sviews(lines@) == Seq::new(i as nat, |j: int| general_item((j + 1) as nat, rs@[j], media)),
        decreases rs.len() - i,
    {
        let line = general_item_text(i + 1, &rs[i], media);
        let ghost before = sviews(lines@);
        let ghost lv = line@;
        lines.push(line);
        assert(sviews(lines@) =~= before.push(lv));
        i += 1;
        assert(sviews(lines@) =~= Seq::new(i as nat, |j: int| general_item((j + 1) as nat, rs@[j], media)));
    }
    lines
}

fn section_text(title: &str, lines: &Vec<String>, sep: &str) -> (s: String)
    ensures
        s@ == section(title@, sviews(lines@), sep@),
{
    let mut s = "## ".to_owned();
    s.append(title);
    s.append("\n\n");
    let body = join_strings(lines, sep);
    s.append(body.as_str());
    assert(s@ =~= section(title@, sviews(lines@), sep@));
    s
}

fn push_section(sections: &mut Vec<String>, s: String)
    ensures
        sviews(final(sections)@) == sviews(old(sections)@).push(s@),
{
    sections.push(s);
    assert(sviews(final(sections)@) =~= sviews(old(sections)@).push(s@));
}

fn is_present(o: &Option<Vec<SearchResult>>) -> (b: bool)
    ensures
        b == present(*o),
{
    match o {
        Some(v) => v.len() > 0,
        None => false,
    }
}

fn push_general_section(
    sections: &mut Vec<String>,
    title: &str,
    o: &Option<Vec<SearchResult>>,
    media: bool,
)
    ensures
        sviews(final(sections)@) == sviews(old(sections)@) + general_section(title@, *o, media),
{
    match o {
        Some(v) => {
            if v.len() > 0 {
                let lines = general_lines_of(v, media);
                let s = section_text(title, &lines, "\n");
                push_section(sections, s);
                assert(sviews(final(sections)@) =~= sviews(old(sections)@) + general_section(
                    title@,
                    *o,
                    media,
                ));
            } else {
                assert(sviews(final(sections)@) =~= sviews(old(sections)@) + general_section(
                    title@,
                    *o,
                    media,
                ));
            }
        },
        None => {
            assert(sviews(final(sections)@) =~= sviews(old(sections)@) + general_section(
                title@,
                *o,
                media,
            ));
        },
    }
}

fn dimension_text(o: Option<u32>) -> (s: String)
    ensures
        s@ == dimension(o),
{
    match o {
        Some(n) => crate::text::decimal_string(n as u64),
        None => "?".to_owned(),
    }
}

fn image_item_text(index: usize, r: &SearchResult) -> (s: String)
    ensures
        s@ == image_item(index as nat, *r),
{
    let mut s = String::new();
    push_decimal(&mut s, index as u64);
    s.append(". ");
    let title = clean_title_of(r.title.as_str());
    push_link_heading(&mut s, title.as_str(), r.url.as_str());
    s.append("\n   - Image: ");
    let (w, h) = match &r.image {
        Some(img) => {
            s.append(img.url.as_str());
            (img.width, img.height)
        },
        None => (None, None),
    };
    s.append(" (");
    let ws = dimension_text(w);
    s.append(ws.as_str());
    s.append("x");
    let hs = dimension_text(h);
    s.append(hs.as_str());
    s.append(")");
    assert(s@ =~= image_item(index as nat, *r));
    s
}

fn push_image_section(sections: &mut Vec<String>, o: &Option<Vec<SearchResult>>)
    ensures
        sviews(final(sections)@) == sviews(old(sections)@) + image_section(*o),
{
    if is_present(o) {
        let v = o.as_ref().unwrap();
        let mut lines: Vec<String> = Vec::new();
        let mut i: usize = 0;
        while i < v.len()
            invariant
                0 <= i <= v.len(),
                sviews(lines@) == Seq::new(i as nat, |j: int| image_item((j + 1) as nat, v@[j])),
            decreases v.len() - i,
        {
            let line = image_item_text(i + 1, &v[i]);
            let ghost before = sviews(lines@);
            let ghost lv = line@;
            lines.push(line);
            assert(sviews(lines@) =~= before.push(lv));
            i += 1;
            assert(sviews(lines@) =~= Seq::new(i as nat, |j: int| image_item((j + 1) as nat, v@[j])));
        }
        let s = section_text("Images", &lines, "\n");
        push_section(sections, s);
    }
    assert(sviews(final(sections)@) =~= sviews(old(sections)@) + image_section(*o));
}

fn question_item_text(index: usize, r: &SearchResult) -> (s: String)
    ensures
        s@ == question_item(index as nat, *r),
{
    let mut s = String::new();
    push_decimal(&mut s, index as u64);
    s.append(". **");
    let unknown = "Unknown Question".to_owned();
    let q: &str = match &r.props {
        Some(p) => match &p.question {
            Some(q) => q.as_str(),
            None => unknown.as_str(),
        },
        None => unknown.as_str(),
    };
    assert(q@ == question_of(*r));
    let title = clean_title_of(q);
    s.append(title.as_str());
    s.append("**");
    s.append("\n    - [Answer](");
    s.append(r.url.as_str());
    match snippet_text(r) {
        Some(t) => {
            s.append("): ");
            s.append(t.as_str());
        },
        None => {
            s.append(")");
        },
    }
    assert(s@ =~= question_item(index as nat, *r));
    s
}

fn push_question_section(sections: &mut Vec<String>, o: &Option<Vec<SearchResult>>)
    ensures
        sviews(final(sections)@) == sviews(old(sections)@) + question_section(*o),
{
    if is_present(o) {
        let v = o.as_ref().unwrap();
        let mut lines: Vec<String> = Vec::new();
        let mut i: usize = 0;
        while i < v.len()
            invariant
                0 <= i <= v.len(),
                sviews(lines@) == Seq::new(i as nat, |j: int| question_item((j + 1) as nat, v@[j])),
            decreases v.len() - i,
        {
            let line = question_item_text(i + 1, &v[i]);
            let ghost before = sviews(lines@);
            let ghost lv = line@;
            lines.push(line);
            assert(sviews(lines@) =~= before.push(lv));
            i += 1;
            assert(sviews(lines@) =~= Seq::new(
                i as nat,
                |j: int| question_item((j + 1) as nat, v@[j]),
            ));
        }
        let s = section_text("Related Questions", &lines, "\n");
        push_section(sections, s);
    }
    assert(sviews(final(sections)@) =~= sviews(old(sections)@) + question_section(*o));
}

fn snippet_lines(o: &Option<Vec<SearchResult>>) -> (lines: Vec<String>)
    ensures
        sviews(lines@) == snippets_of(items(*o)),
{
    let mut lines: Vec<String> = Vec::new();
    match o {
        Some(v) => {
            let mut i: usize = 0;
            while i < v.len()
                invariant
                    0 <= i <= v.len(),
                    sviews(lines@) == snippets_of(v@.take(i as int)),
                decreases v.len() - i,
            {
                assert(v@.take(i + 1).drop_last() =~= v@.take(i as int));
                assert(v@.take(i + 1).last() == v@[i as int]);
                match snippet_text(&v[i]) {
                    Some(t) => {
                        let ghost before = sviews(lines@);
                        let ghost tv = t@;
                        lines.push(t);
                        assert(sviews(lines@) =~= before.push(tv));
                    },
                    None => {},
                }
                i += 1;
            }
            assert(v@.take(v.len() as int) =~= v@);
        },
        None => {},
    }
    lines
}

fn push_snippet_section(
    sections: &mut Vec<String>,
    title: &str,
    o: &Option<Vec<SearchResult>>,
    sep: &str,
)
    ensures
        sviews(final(sections)@) == sviews(old(sections)@) + opt_section(
            snippets_of(items(*o)).len() > 0,
            section(title@, snippets_of(items(*o)), sep@),
        ),
{
    let lines = snippet_lines(o);
    if lines.len() > 0 {
        let s = section_text(title, &lines, sep);
        push_section(sections, s);
    }
    assert(sviews(final(sections)@) =~= sviews(old(sections)@) + opt_section(
        snippets_of(items(*o)).len() > 0,
        section(title@, snippets_of(items(*o)), sep@),
    ));
}

fn infobox_item_text(r: &SearchResult) -> (s: String)
    ensures
        s@ == infobox_item(*r),
{
    let mut s = String::new();
    let title = clean_title_of(r.title.as_str());
    push_link_heading(&mut s, title.as_str(), r.url.as_str());
    push_opt_text(&mut s, "\n\n", &snippet_text(r));
    let mut lines: Vec<String> = Vec::new();
    match &r.props {
        Some(p) => match &p.infobox {
            Some(props) => {
                let v = sort_by_key(props);
                let ghost pv = v@.map_values(|q: (String, String)| pair_view(q));
                let mut i: usize = 0;
                while i < v.len()
                    invariant
                        0 <= i <= v.len(),
                        pv == v@.map_values(|q: (String, String)| pair_view(q)),
                        sviews(lines@) == property_lines(pv).take(i as int),
                    decreases v.len() - i,
                {
                    let mut line = v[i].0.clone();
                    line.append(": ");
                    line.append(v[i].1.as_str());
                    assert(pv[i as int] == pair_view(v@[i as int]));
                    let ghost before = sviews(lines@);
                    let ghost lv = line@;
                    lines.push(line);
                    assert(sviews(lines@) =~= before.push(lv));
                    i += 1;
                    assert(sviews(lines@) =~= property_lines(pv).take(i as int));
                }
                assert(property_lines(pv).take(v.len() as int) =~= property_lines(pv));
            },
            None => {},
        },
        None => {},
    }
    assert(sviews(lines@) =~= infobox_lines(*r));
    if lines.len() > 0 {
        s.append("\n\n");
        let body = join_strings(&lines, "\n");
        s.append(body.as_str());
    }
    assert(s@ =~= infobox_item(*r));
    s
}

fn push_infobox_section(sections: &mut Vec<String>, o: &Option<Vec<SearchResult>>)
    ensures
        sviews(final(sections)@) == sviews(old(sections)@) + infobox_section(*o),
{
    if is_present(o) {
        let v = o.as_ref().unwrap();
        let mut lines: Vec<String> = Vec::new();
        let mut i: usize = 0;
        while i < v.len()
            invariant
                0 <= i <= v.len(),
                sviews(lines@) == Seq::new(i as nat, |j: int| infobox_item(v@[j])),
            decreases v.len() - i,
        {
            let line = infobox_item_text(&v[i]);
            let ghost before = sviews(lines@);
            let ghost lv = line@;
            lines.push(line);
            assert(sviews(lines@) =~= before.push(lv));
            i += 1;
            assert(sviews(lines@) =~= Seq::new(i as nat, |j: int| infobox_item(v@[j])));
        }
        let s = section_text("Infobox", &lines, "\n\n");
        push_section(sections, s);
    }
    assert(sviews(final(sections)@) =~= sviews(old(sections)@) + infobox_section(*o));
}

fn push_related_search_section(sections: &mut Vec<String>, o: &Option<Vec<SearchResult>>)
    ensures
        sviews(final(sections)@) == sviews(old(sections)@) + related_search_section(*o),
{
    if is_present(o) {
        let v = o.as_ref().unwrap();
        let mut lines: Vec<String> = Vec::new();
        let mut i: usize = 0;
        while i < v.len()
            invariant
                0 <= i <= v.len(),
                sviews(lines@) == Seq::new(i as nat, |j: int| "- "@ + clean_title(v@[j].title@)),
            decreases v.len() - i,
        {
            let mut line = "- ".to_owned();
            let title = clean_title_of(v[i].title.as_str());
            line.append(title.as_str());
            let ghost before = sviews(lines@);
            let ghost lv = line@;
            lines.push(line);
            assert(sviews(lines@) =~= before.push(lv));
            i += 1;
            assert(sviews(lines@) =~= Seq::new(
                i as nat,
                |j: int| "- "@ + clean_title(v@[j].title@),
            ));
        }
        let s = section_text("Related Searches", &lines, "\n");
        push_section(sections, s);
    }
    assert(sviews(final(sections)@) =~= sviews(old(sections)@) + related_search_section(*o));
}

fn push_package_tracking_section(sections: &mut Vec<String>, o: &Option<Vec<SearchResult>>)
    ensures
        sviews(final(sections)@) == sviews(old(sections)@) + package_tracking_section(*o),
{
    if is_present(o) {
        let v = o.as_ref().unwrap();
        let mut lines: Vec<String> = Vec::new();
        let mut i: usize = 0;
        while i < v.len()
            invariant
                0 <= i <= v.len(),
                sviews(lines@) == Seq::new(
                    i as nat,
                    |j: int| "- [Tracking Link]("@ + v@[j].url@ + ")"@,
                ),
            decreases v.len() - i,
        {
            let mut line = "- [Tracking Link](".to_owned();
            line.append(v[i].url.as_str());
            line.append(")");
            let ghost before = sviews(lines@);
            let ghost lv = line@;
            lines.push(line);
            assert(sviews(lines@) =~= before.push(lv));
            i += 1;
            assert(sviews(lines@) =~= Seq::new(
                i as nat,
                |j: int| "- [Tracking Link]("@ + v@[j].url@ + ")"@,
            ));
        }
        let s = section_text("Package Tracking", &lines, "\n");
        push_section(sections, s);
    }
    assert(sviews(final(sections)@) =~= sviews(old(sections)@) + package_tracking_section(*o));
}

fn any_results(d: &SearchData) -> (b: bool)
    ensures
        b == has_results(*d),
{
    is_present(&d.search) || is_present(&d.news) || is_present(&d.interesting_news) || is_present(
        &d.interesting_finds,
    ) || is_present(&d.code) || is_present(&d.public_records) || is_present(&d.listicle)
        || is_present(&d.web_archive) || is_present(&d.video) || is_present(&d.podcast)
        || is_present(&d.podcast_creator) || is_present(&d.image) || is_present(
        &d.adjacent_question,
    ) || is_present(&d.direct_answer) || is_present(&d.infobox) || is_present(&d.related_search)
        || is_present(&d.weather) || is_present(&d.package_tracking)
}

/// Renders a search response as markdown: one section per non-empty result
/// category (web, news, interesting news and finds, code, public records,
/// listicles, web archive, videos, podcasts and podcast creators, then
/// images, related questions, direct answers, infoboxes, related searches,
/// weather and package tracking), or `No results found.`.
#[verifier::rlimit(50)]
pub fn format_search_markdown(response: &SearchResponse) -> (r: String)
    ensures
        r@ == search_markdown(response.data),
{
    let d = &response.data;
    if !any_results(d) {
        return "No results found.".to_owned();
    }
    let mut sections: Vec<String> = Vec::new();
    push_general_section(&mut sections, "Web Results", &d.search, false);
    push_general_section(&mut sections, "News", &d.news, false);
    push_general_section(&mut sections, "Interesting News", &d.interesting_news, false);
    push_general_section(&mut sections, "Interesting Finds", &d.interesting_finds, false);
    push_general_section(&mut sections, "Code Results", &d.code, false);
    push_general_section(&mut sections, "Public Records", &d.public_records, false);
    push_general_section(&mut sections, "Listicles", &d.listicle, false);
    push_general_section(&mut sections, "Web Archive", &d.web_archive, false);
    push_general_section(&mut sections, "Videos", &d.video, true);
    push_general_section(&mut sections, "Podcasts", &d.podcast, true);
    push_general_section(&mut sections, "Podcast Creators", &d.podcast_creator, true);
    push_image_section(&mut sections, &d.image);
    push_question_section(&mut sections, &d.adjacent_question);
    push_snippet_section(&mut sections, "Direct Answer", &d.direct_answer, "\n\n");
    push_infobox_section(&mut sections, &d.infobox);
    push_related_search_section(&mut sections, &d.related_search);
    push_snippet_section(&mut sections, "Weather", &d.weather, "\n");
    push_package_tracking_section(&mut sections, &d.package_tracking);
    assert(sviews(sections@) =~= search_sections(*d));
    let joined = join_strings(&sections, "\n\n");
    trim_end_string(&joined)
}

} // verus!
