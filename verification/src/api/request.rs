//! Search and extract requests sent to the Kagi API.
use vstd::prelude::*;

verus! {

/// Copies an optional string.
pub fn copy_opt_string(o: &Option<String>) -> (r: Option<String>)
    ensures
        r.deep_view() == o.deep_view(),
{
    match o {
        Some(s) => Some(s.clone()),
        None => None,
    }
}

/// Copies a vector of strings.
pub fn copy_strings(v: &Vec<String>) -> (r: Vec<String>)
    ensures
        r.deep_view() == v.deep_view(),
{
    let mut out: Vec<String> = Vec::new();
    let mut i: usize = 0;
    while i < v.len()
        invariant
            0 <= i <= v.len(),
            out.deep_view() == v.deep_view().take(i as int),
        decreases v.len() - i,
    {
        let s = v[i].clone();
        let ghost prev = out.deep_view();
        out.push(s);
        assert(out.deep_view() =~= prev.push(v.deep_view()[i as int]));
        assert(v.deep_view().take(i + 1) =~= v.deep_view().take(i as int).push(v.deep_view()[i as int]));
        i += 1;
    }
    assert(v.deep_view().take(v.len() as int) =~= v.deep_view());
    out
}

/// Copies an optional vector of strings.
pub fn copy_opt_strings(o: &Option<Vec<String>>) -> (r: Option<Vec<String>>)
    ensures
        r.deep_view() == o.deep_view(),
{
    match o {
        Some(v) => Some(copy_strings(v)),
        None => None,
    }
}

/// Filters applied to search results.
#[derive(Debug, Clone, PartialEq, Eq)]
pub struct Filters {
    /// Filter for results published or updated after this date.
    pub after: Option<String>,
    /// Filter for results published or updated before this date.
    pub before: Option<String>,
    /// Filter results to a specific region (ISO 3166-1 Alpha-2 country code).
    pub region: Option<String>,
}

impl DeepView for Filters {
    type V = (Option<Seq<char>>, Option<Seq<char>>, Option<Seq<char>>);

    open spec fn deep_view(&self) -> Self::V {
        (self.after.deep_view(), self.before.deep_view(), self.region.deep_view())
    }
}

impl Filters {
    /// A copy of these filters.
    pub fn copy(&self) -> (r: Filters)
        ensures
            r.deep_view() == self.deep_view(),
    {
        Filters {
            after: copy_opt_string(&self.after),
            before: copy_opt_string(&self.before),
            region: copy_opt_string(&self.region),
        }
    }
}

/// A time-relative filter for search results.
#[derive(Debug, Clone, Copy, PartialEq, Eq, Structural)]
pub enum TimeRelative {
    /// Filter for the past day.
    Day,
    /// Filter for the past week.
    Week,
    /// Filter for the past month.
    Month,
}

impl DeepView for TimeRelative {
    type V = TimeRelative;

    open spec fn deep_view(&self) -> TimeRelative {
        *self
    }
}

/// Inline description of a lens to apply to the search.
#[derive(Debug, Clone, PartialEq, Eq)]
pub struct Lens {
    /// Search only these domains.
    pub sites_included: Option<Vec<String>>,
    /// Exclude these domains from the search.
    pub sites_excluded: Option<Vec<String>>,
    /// Return only results containing these keywords.
    pub keywords_included: Option<Vec<String>>,
    /// Exclude results containing these keywords.
    pub keywords_excluded: Option<Vec<String>>,
    /// A specific file type to search for (e.g. `pdf`).
    pub file_type: Option<String>,
    /// Pages updated or published after the given date.
    pub time_after: Option<String>,
    /// Pages updated or published before the given date.
    pub time_before: Option<String>,
    /// Pages updated or published in an interval relative to today.
    pub time_relative: Option<TimeRelative>,
    /// Results localised to a region (ISO-3166-1 Alpha-2 code or `no_region`).
    pub search_region: Option<String>,
}

/// The values a [`Lens`] holds.
pub struct LensView {
    pub sites_included: Option<Seq<Seq<char>>>,
    pub sites_excluded: Option<Seq<Seq<char>>>,
    pub keywords_included: Option<Seq<Seq<char>>>,
    pub keywords_excluded: Option<Seq<Seq<char>>>,
    pub file_type: Option<Seq<char>>,
    pub time_after: Option<Seq<char>>,
    pub time_before: Option<Seq<char>>,
    pub time_relative: Option<TimeRelative>,
    pub search_region: Option<Seq<char>>,
}

impl DeepView for Lens {
    type V = LensView;

    open spec fn deep_view(&self) -> LensView {
        LensView {
            sites_included: self.sites_included.deep_view(),
            sites_excluded: self.sites_excluded.deep_view(),
            keywords_included: self.keywords_included.deep_view(),
            keywords_excluded: self.keywords_excluded.deep_view(),
            file_type: self.file_type.deep_view(),
            time_after: self.time_after.deep_view(),
            time_before: self.time_before.deep_view(),
            time_relative: self.time_relative,
            search_region: self.search_region.deep_view(),
        }
    }
}

impl Lens {
    /// A copy of this lens.
    pub fn copy(&self) -> (r: Lens)
        ensures
            r.deep_view() == self.deep_view(),
    {
        Lens {
            sites_included: copy_opt_strings(&self.sites_included),
            sites_excluded: copy_opt_strings(&self.sites_excluded),
            keywords_included: copy_opt_strings(&self.keywords_included),
            keywords_excluded: copy_opt_strings(&self.keywords_excluded),
            file_type: copy_opt_string(&self.file_type),
            time_after: copy_opt_string(&self.time_after),
            time_before: copy_opt_string(&self.time_before),
            time_relative: self.time_relative,
            search_region: copy_opt_string(&self.search_region),
        }
    }
}

/// Handling mode for a domain personalization rule.
#[derive(Debug, Clone, Copy, PartialEq, Eq, Structural)]
pub enum DomainKind {
    /// Block results from this domain entirely.
    Block,
    /// Lower the ranking of results from this domain.
    Lower,
    /// Boost the ranking of results from this domain.
    Raise,
    /// Pin results from this domain to the top.
    Pin,
}

impl DeepView for DomainKind {
    type V = DomainKind;

    open spec fn deep_view(&self) -> DomainKind {
        *self
    }
}

/// A domain-level personalization rule.
#[derive(Debug, Clone, PartialEq, Eq)]
pub struct PersonalizationDomain {
    /// Domain pattern to personalise (e.g. `example.com` or `.co.uk`).
    pub domain: String,
    /// Handling mode for this domain pattern.
    pub kind: DomainKind,
}

impl DeepView for PersonalizationDomain {
    type V = (Seq<char>, DomainKind);

    open spec fn deep_view(&self) -> Self::V {
        (self.domain@, self.kind)
    }
}

/// A regex-based personalization rule.
#[derive(Debug, Clone, PartialEq, Eq)]
pub struct PersonalizationRegex {
    /// The regex pattern to match.
    pub regex: Option<String>,
    /// The replacement applied when the pattern matches.
    pub replacement: Option<String>,
}

impl DeepView for PersonalizationRegex {
    type V = (Option<Seq<char>>, Option<Seq<char>>);

    open spec fn deep_view(&self) -> Self::V {
        (self.regex.deep_view(), self.replacement.deep_view())
    }
}

/// Personalization rules that customise search result ranking.
#[derive(Debug, Clone, PartialEq, Eq)]
pub struct Personalizations {
    /// Domain-level personalization rules.
    pub domains: Option<Vec<PersonalizationDomain>>,
    /// Regex-based personalization rules.
    pub regexes: Option<Vec<PersonalizationRegex>>,
}

impl DeepView for Personalizations {
    type V = (Option<Seq<(Seq<char>, DomainKind)>>, Option<Seq<(Option<Seq<char>>, Option<Seq<char>>)>>);

    open spec fn deep_view(&self) -> Self::V {
        (self.domains.deep_view(), self.regexes.deep_view())
    }
}

fn copy_domains(v: &Vec<PersonalizationDomain>) -> (r: Vec<PersonalizationDomain>)
    ensures
        r.deep_view() == v.deep_view(),
{
    let mut out: Vec<PersonalizationDomain> = Vec::new();
    let mut i: usize = 0;
    while i < v.len()
        invariant
            0 <= i <= v.len(),
            out.deep_view() == v.deep_view().take(i as int),
        decreases v.len() - i,
    {
        let d = PersonalizationDomain { domain: v[i].domain.clone(), kind: v[i].kind };
        let ghost prev = out.deep_view();
        assert(d.deep_view() == v.deep_view()[i as int]);
        out.push(d);
        assert(out.deep_view() =~= prev.push(v.deep_view()[i as int]));
        assert(v.deep_view().take(i + 1) =~= v.deep_view().take(i as int).push(v.deep_view()[i as int]));
        i += 1;
    }
    assert(v.deep_view().take(v.len() as int) =~= v.deep_view());
    out
}

fn copy_regexes(v: &Vec<PersonalizationRegex>) -> (r: Vec<PersonalizationRegex>)
    ensures
        r.deep_view() == v.deep_view(),
{
    let mut out: Vec<PersonalizationRegex> = Vec::new();
    let mut i: usize = 0;
    while i < v.len()
        invariant
            0 <= i <= v.len(),
            out.deep_view() == v.deep_view().take(i as int),
        decreases v.len() - i,
    {
        let d = PersonalizationRegex {
            regex: copy_opt_string(&v[i].regex),
            replacement: copy_opt_string(&v[i].replacement),
        };
        let ghost prev = out.deep_view();
        assert(d.deep_view() == v.deep_view()[i as int]);
        out.push(d);
        assert(out.deep_view() =~= prev.push(v.deep_view()[i as int]));
        assert(v.deep_view().take(i + 1) =~= v.deep_view().take(i as int).push(v.deep_view()[i as int]));
        i += 1;
    }
    assert(v.deep_view().take(v.len() as int) =~= v.deep_view());
    out
}

impl Personalizations {
    /// A copy of these rules.
    pub fn copy(&self) -> (r: Personalizations)
        ensures
            r.deep_view() == self.deep_view(),
    {
        let domains = match &self.domains {
            Some(v) => Some(copy_domains(v)),
            None => None,
        };
        let regexes = match &self.regexes {
            Some(v) => Some(copy_regexes(v)),
            None => None,
        };
        Personalizations { domains, regexes }
    }
}

/// Configuration for extracting page content from search results.
#[derive(Debug, Clone, Copy, PartialEq, Eq)]
pub struct SearchExtractConfig {
    /// Number of search results to extract content from (1 to 10).
    pub count: Option<u32>,
    /// Extraction timeout per page, in milliseconds.
    pub timeout_millis: Option<u64>,
}

impl DeepView for SearchExtractConfig {
    type V = (Option<u32>, Option<u64>);

    open spec fn deep_view(&self) -> Self::V {
        (self.count, self.timeout_millis)
    }
}

/// A search request to the Kagi Search API.
#[derive(Debug, Clone, PartialEq, Eq)]
pub struct SearchRequest {
    query: String,
    workflow: Option<String>,
    format: Option<String>,
    timeout_millis: Option<u64>,
    page: Option<u32>,
    limit: Option<u32>,
    safe_search: Option<bool>,
    region: Option<String>,
    filters: Option<Filters>,
    lens_id: Option<String>,
    lens: Option<Lens>,
    extract: Option<SearchExtractConfig>,
    personalizations: Option<Personalizations>,
}

/// The values a [`SearchRequest`] holds.
pub struct SearchRequestView {
    pub query: Seq<char>,
    pub workflow: Option<Seq<char>>,
    pub format: Option<Seq<char>>,
    pub timeout_millis: Option<u64>,
    pub page: Option<u32>,
    pub limit: Option<u32>,
    pub safe_search: Option<bool>,
    pub region: Option<Seq<char>>,
    pub filters: Option<(Option<Seq<char>>, Option<Seq<char>>, Option<Seq<char>>)>,
    pub lens_id: Option<Seq<char>>,
    pub lens: Option<LensView>,
    pub extract: Option<(Option<u32>, Option<u64>)>,
    pub personalizations: Option<<Personalizations as DeepView>::V>,
}

impl DeepView for SearchRequest {
    type V = SearchRequestView;

    closed spec fn deep_view(&self) -> SearchRequestView {
        SearchRequestView {
            query: self.query@,
            workflow: self.workflow.deep_view(),
            format: self.format.deep_view(),
            timeout_millis: self.timeout_millis,
            page: self.page,
            limit: self.limit,
            safe_search: self.safe_search,
            region: self.region.deep_view(),
            filters: self.filters.deep_view(),
            lens_id: self.lens_id.deep_view(),
            lens: self.lens.deep_view(),
            extract: self.extract.deep_view(),
            personalizations: self.personalizations.deep_view(),
        }
    }
}

/// Borrows the string inside an optional string.
pub fn opt_as_str(o: &Option<String>) -> (r: Option<&str>)
    ensures
        r.deep_view() == o.deep_view(),
{
    match o {
        Some(s) => Some(s.as_str()),
        None => None,
    }
}

impl SearchRequest {
    /// A request for `query` with every optional parameter unset.
    pub fn new(query: &str) -> (r: SearchRequest)
        ensures
            r.deep_view() == (SearchRequestView {
                query: query@,
                workflow: None,
                format: None,
                timeout_millis: None,
                page: None,
                limit: None,
                safe_search: None,
                region: None,
                filters: None,
                lens_id: None,
                lens: None,
                extract: None,
                personalizations: None,
            }),
    {
        SearchRequest {
            query: query.to_owned(),
            workflow: None,
            format: None,
            timeout_millis: None,
            page: None,
            limit: None,
            safe_search: None,
            region: None,
            filters: None,
            lens_id: None,
            lens: None,
            extract: None,
            personalizations: None,
        }
    }

    /// The search query string.
    pub fn query(&self) -> (r: &str)
        ensures
            r@ == self.deep_view().query,
    {
        self.query.as_str()
    }

    /// The result type filter, if set.
    pub fn workflow(&self) -> (r: Option<&str>)
        ensures
            r.deep_view() == self.deep_view().workflow,
    {
        opt_as_str(&self.workflow)
    }

    /// The requested response format, if set.
    pub fn format(&self) -> (r: Option<&str>)
        ensures
            r.deep_view() == self.deep_view().format,
    {
        opt_as_str(&self.format)
    }

    /// The search timeout in milliseconds, if set.
    pub fn timeout_millis(&self) -> (r: Option<u64>)
        ensures
            r == self.deep_view().timeout_millis,
    {
        self.timeout_millis
    }

    /// The page number for paginated results.
    pub fn page(&self) -> (r: Option<u32>)
        ensures
            r == self.deep_view().page,
    {
        self.page
    }

    /// The maximum number of results to return.
    pub fn limit(&self) -> (r: Option<u32>)
        ensures
            r == self.deep_view().limit,
    {
        self.limit
    }

    /// Whether safe search is enabled.
    pub fn safe_search(&self) -> (r: Option<bool>)
        ensures
            r == self.deep_view().safe_search,
    {
        self.safe_search
    }

    /// The region, if set.
    pub fn region(&self) -> (r: Option<&str>)
        ensures
            r.deep_view() == self.deep_view().region,
    {
        opt_as_str(&self.region)
    }

    /// The search filters, if set.
    pub fn filters(&self) -> (r: Option<&Filters>)
        ensures
            r.deep_view() == self.deep_view().filters,
    {
        match &self.filters {
            Some(f) => Some(f),
            None => None,
        }
    }

    /// The lens ID, if set.
    pub fn lens_id(&self) -> (r: Option<&str>)
        ensures
            r.deep_view() == self.deep_view().lens_id,
    {
        opt_as_str(&self.lens_id)
    }

    /// The inline lens, if set.
    pub fn lens(&self) -> (r: Option<&Lens>)
        ensures
            r.deep_view() == self.deep_view().lens,
    {
        match &self.lens {
            Some(l) => Some(l),
            None => None,
        }
    }

    /// The extract configuration, if set.
    pub fn extract(&self) -> (r: Option<&SearchExtractConfig>)
        ensures
            r.deep_view() == self.deep_view().extract,
    {
        match &self.extract {
            Some(e) => Some(e),
            None => None,
        }
    }

    /// The personalization rules, if set.
    pub fn personalizations(&self) -> (r: Option<&Personalizations>)
        ensures
            r.deep_view() == self.deep_view().personalizations,
    {
        match &self.personalizations {
            Some(p) => Some(p),
            None => None,
        }
    }

    /// Sets the result type filter.
    pub fn with_workflow(self, workflow: &str) -> (r: SearchRequest)
        ensures
            r.deep_view() == (SearchRequestView { workflow: Some(workflow@), ..self.deep_view() }),
    {
        SearchRequest { workflow: Some(workflow.to_owned()), ..self }
    }

    /// Sets the response format.
    pub fn with_format(self, format: &str) -> (r: SearchRequest)
        ensures
            r.deep_view() == (SearchRequestView { format: Some(format@), ..self.deep_view() }),
    {
        SearchRequest { format: Some(format.to_owned()), ..self }
    }

    /// Sets the search timeout, in milliseconds.
    pub fn with_timeout_millis(self, timeout: u64) -> (r: SearchRequest)
        ensures
            r.deep_view() == (SearchRequestView {
                timeout_millis: Some(timeout),
                ..self.deep_view()
            }),
    {
        SearchRequest { timeout_millis: Some(timeout), ..self }
    }

    /// Sets the page number.
    pub fn with_page(self, page: u32) -> (r: SearchRequest)
        ensures
            r.deep_view() == (SearchRequestView { page: Some(page), ..self.deep_view() }),
    {
        SearchRequest { page: Some(page), ..self }
    }

    /// Sets the maximum number of results.
    pub fn with_limit(self, limit: u32) -> (r: SearchRequest)
        ensures
            r.deep_view() == (SearchRequestView { limit: Some(limit), ..self.deep_view() }),
    {
        SearchRequest { limit: Some(limit), ..self }
    }

    /// Enables or disables safe search.
    pub fn with_safe_search(self, safe_search: bool) -> (r: SearchRequest)
        ensures
            r.deep_view() == (SearchRequestView {
                safe_search: Some(safe_search),
                ..self.deep_view()
            }),
    {
        SearchRequest { safe_search: Some(safe_search), ..self }
    }

    /// Sets the region.
    pub fn with_region(self, region: &str) -> (r: SearchRequest)
        ensures
            r.deep_view() == (SearchRequestView { region: Some(region@), ..self.deep_view() }),
    {
        SearchRequest { region: Some(region.to_owned()), ..self }
    }

    /// Sets the search filters.
    pub fn with_filters(self, filters: Filters) -> (r: SearchRequest)
        ensures
            r.deep_view() == (SearchRequestView {
                filters: Some(filters.deep_view()),
                ..self.deep_view()
            }),
    {
        SearchRequest { filters: Some(filters), ..self }
    }

    /// Sets the lens ID.
    pub fn with_lens_id(self, lens_id: &str) -> (r: SearchRequest)
        ensures
            r.deep_view() == (SearchRequestView { lens_id: Some(lens_id@), ..self.deep_view() }),
    {
        SearchRequest { lens_id: Some(lens_id.to_owned()), ..self }
    }

    /// Sets the inline lens.
    pub fn with_lens(self, lens: Lens) -> (r: SearchRequest)
        ensures
            r.deep_view() == (SearchRequestView {
                lens: Some(lens.deep_view()),
                ..self.deep_view()
            }),
    {
        SearchRequest { lens: Some(lens), ..self }
    }

    /// Sets the extract configuration.
    pub fn with_extract(self, extract: SearchExtractConfig) -> (r: SearchRequest)
        ensures
            r.deep_view() == (SearchRequestView {
                extract: Some(extract.deep_view()),
                ..self.deep_view()
            }),
    {
        SearchRequest { extract: Some(extract), ..self }
    }

    /// Sets the personalization rules.
    pub fn with_personalizations(self, personalizations: Personalizations) -> (r: SearchRequest)
        ensures
            r.deep_view() == (SearchRequestView {
                personalizations: Some(personalizations.deep_view()),
                ..self.deep_view()
            }),
    {
        SearchRequest { personalizations: Some(personalizations), ..self }
    }
}

/// A single page to extract content from.
#[derive(Debug, Clone, PartialEq, Eq)]
pub struct ExtractPage {
    /// The HTTPS URL of the page.
    pub url: String,
}

/// An extract request to the Kagi Extract API.
#[derive(Debug, Clone, PartialEq, Eq)]
pub struct ExtractRequest {
    pages: Vec<ExtractPage>,
    format: Option<String>,
    timeout_millis: Option<u64>,
}

/// The values an [`ExtractRequest`] holds.
pub struct ExtractRequestView {
    pub pages: Seq<Seq<char>>,
    pub format: Option<Seq<char>>,
    pub timeout_millis: Option<u64>,
}

impl DeepView for ExtractRequest {
    type V = ExtractRequestView;

    closed spec fn deep_view(&self) -> ExtractRequestView {
        ExtractRequestView {
            pages: self.pages@.map_values(|p: ExtractPage| p.url@),
            format: self.format.deep_view(),
            timeout_millis: self.timeout_millis,
        }
    }
}

impl ExtractRequest {
    /// A request for `pages` with no format and no timeout.
    pub fn new(pages: Vec<ExtractPage>) -> (r: ExtractRequest)
        ensures
            r.deep_view() == (ExtractRequestView {
                pages: pages@.map_values(|p: ExtractPage| p.url@),
                format: None,
                timeout_millis: None,
            }),
    {
        ExtractRequest { pages, format: None, timeout_millis: None }
    }

    /// The pages to extract.
    pub fn pages(&self) -> (r: &[ExtractPage])
        ensures
            r@.map_values(|p: ExtractPage| p.url@) == self.deep_view().pages,
    {
        self.pages.as_slice()
    }

    /// The requested format, if set.
    pub fn format(&self) -> (r: Option<&str>)
        ensures
            r.deep_view() == self.deep_view().format,
    {
        opt_as_str(&self.format)
    }

    /// The extraction timeout in milliseconds, if set.
    pub fn timeout_millis(&self) -> (r: Option<u64>)
        ensures
            r == self.deep_view().timeout_millis,
    {
        self.timeout_millis
    }

    /// Sets the format.
    pub fn with_format(self, format: &str) -> (r: ExtractRequest)
        ensures
            r.deep_view() == (ExtractRequestView { format: Some(format@), ..self.deep_view() }),
    {
        ExtractRequest { format: Some(format.to_owned()), ..self }
    }

    /// Sets the extraction timeout, in milliseconds.
    pub fn with_timeout_millis(self, timeout: u64) -> (r: ExtractRequest)
        ensures
            r.deep_view() == (ExtractRequestView {
                timeout_millis: Some(timeout),
                ..self.deep_view()
            }),
    {
        ExtractRequest { timeout_millis: Some(timeout), ..self }
    }
}

} // verus!
