//! Settings of a Kagi API client and the builder that collects them.
use vstd::prelude::*;
use crate::api::error::KagiError;

verus! {

/// Base URL of the Kagi API.
pub const DEFAULT_BASE_URL: &'static str = "https://kagi.com/api";

/// User agent sent with every request.
pub const DEFAULT_USER_AGENT: &'static str = "kagi-api/0.1.0 (github.com/Silvenga/kagi-mcp)";

/// Request timeout, in milliseconds.
pub const DEFAULT_TIMEOUT_MILLIS: u64 = 32000;

/// Number of retries for transient failures.
pub const DEFAULT_RETRIES: u32 = 3;

/// Builder for the settings of a Kagi API client.
#[derive(Debug, Clone)]
pub struct KagiClientBuilder {
    api_key: Option<String>,
    base_url: String,
    user_agent: String,
    timeout_millis: u64,
    retries: u32,
}

/// The values a [`KagiClientBuilder`] holds.
pub struct KagiClientBuilderView {
    pub api_key: Option<Seq<char>>,
    pub base_url: Seq<char>,
    pub user_agent: Seq<char>,
    pub timeout_millis: u64,
    pub retries: u32,
}

impl DeepView for KagiClientBuilder {
    type V = KagiClientBuilderView;

    closed spec fn deep_view(&self) -> KagiClientBuilderView {
        KagiClientBuilderView {
            api_key: self.api_key.deep_view(),
            base_url: self.base_url@,
            user_agent: self.user_agent@,
            timeout_millis: self.timeout_millis,
            retries: self.retries,
        }
    }
}

/// Validated settings from which the HTTP client is built.
#[derive(Debug, Clone)]
pub struct ClientSettings {
    /// The API key sent as a bearer token.
    pub api_key: String,
    /// Base URL the endpoints are appended to.
    pub base_url: String,
    /// User agent header.
    pub user_agent: String,
    /// Request timeout, in milliseconds.
    pub timeout_millis: u64,
    /// Number of retries for transient failures.
    pub retries: u32,
}

impl KagiClientBuilder {
    /// A builder with the default base URL, user agent, timeout and retries,
    /// and no API key.
    pub fn new() -> (r: KagiClientBuilder)
        ensures
            r.deep_view() == (KagiClientBuilderView {
                api_key: None,
                base_url: DEFAULT_BASE_URL@,
                user_agent: DEFAULT_USER_AGENT@,
                timeout_millis: DEFAULT_TIMEOUT_MILLIS,
                retries: DEFAULT_RETRIES,
            }),
    {
        KagiClientBuilder {
            api_key: None,
            base_url: DEFAULT_BASE_URL.to_owned(),
            user_agent: DEFAULT_USER_AGENT.to_owned(),
            timeout_millis: DEFAULT_TIMEOUT_MILLIS,
            retries: DEFAULT_RETRIES,
        }
    }

    /// Sets the API key.
    pub fn with_api_key(self, key: &str) -> (r: KagiClientBuilder)
        ensures
            r.deep_view() == (KagiClientBuilderView { api_key: Some(key@), ..self.deep_view() }),
    {
        KagiClientBuilder { api_key: Some(key.to_owned()), ..self }
    }

    /// Sets the base URL.
    pub fn with_base_url(self, url: &str) -> (r: KagiClientBuilder)
        ensures
            r.deep_view() == (KagiClientBuilderView { base_url: url@, ..self.deep_view() }),
    {
        KagiClientBuilder { base_url: url.to_owned(), ..self }
    }

    /// Sets the user agent.
    pub fn with_user_agent(self, agent: &str) -> (r: KagiClientBuilder)
        ensures
            r.deep_view() == (KagiClientBuilderView { user_agent: agent@, ..self.deep_view() }),
    {
        KagiClientBuilder { user_agent: agent.to_owned(), ..self }
    }

    /// Sets the request timeout, in milliseconds.
    pub fn with_timeout_millis(self, millis: u64) -> (r: KagiClientBuilder)
        ensures
            r.deep_view() == (KagiClientBuilderView { timeout_millis: millis, ..self.deep_view() }),
    {
        KagiClientBuilder { timeout_millis: millis, ..self }
    }

    /// Sets the number of retries.
    pub fn with_retries(self, count: u32) -> (r: KagiClientBuilder)
        ensures
            r.deep_view() == (KagiClientBuilderView { retries: count, ..self.deep_view() }),
    {
        KagiClientBuilder { retries: count, ..self }
    }

    /// The API key, if set.
    pub fn api_key(&self) -> (r: Option<&str>)
        ensures
            r.deep_view() == self.deep_view().api_key,
    {
        crate::api::request::opt_as_str(&self.api_key)
    }

    /// The base URL.
    pub fn base_url(&self) -> (r: &str)
        ensures
            r@ == self.deep_view().base_url,
    {
        self.base_url.as_str()
    }

    /// The user agent.
    pub fn user_agent(&self) -> (r: &str)
        ensures
            r@ == self.deep_view().user_agent,
    {
        self.user_agent.as_str()
    }

    /// The request timeout, in milliseconds.
    pub fn timeout_millis(&self) -> (r: u64)
        ensures
            r == self.deep_view().timeout_millis,
    {
        self.timeout_millis
    }

    /// The number of retries.
    pub fn retries(&self) -> (r: u32)
        ensures
            r == self.deep_view().retries,
    {
        self.retries
    }

    /// The validated client settings: an error when no API key was set,
    /// otherwise the builder's values.
    pub fn build(self) -> (r: Result<ClientSettings, KagiError>)
        ensures
            self.deep_view().api_key is None <==> r is Err,
            r matches Err(e) ==> (e matches KagiError::Api { status, message } && status == 0
                && message@ == "API key is required"@),
            r matches Ok(s) ==> Some(s.api_key@) == self.deep_view().api_key && s.base_url@
                == self.deep_view().base_url && s.user_agent@ == self.deep_view().user_agent
                && s.timeout_millis == self.deep_view().timeout_millis && s.retries
                == self.deep_view().retries,
    {
        match self.api_key {
            None => Err(
                KagiError::Api { status: 0, message: "API key is required".to_owned() },
            ),
            Some(api_key) => Ok(
                ClientSettings {
                    api_key,
                    base_url: self.base_url,
                    user_agent: self.user_agent,
                    timeout_millis: self.timeout_millis,
                    retries: self.retries,
                },
            ),
        }
    }
}

impl Default for KagiClientBuilder {
    fn default() -> (r: KagiClientBuilder)
        ensures
            r.deep_view() == (KagiClientBuilderView {
                api_key: None,
                base_url: DEFAULT_BASE_URL@,
                user_agent: DEFAULT_USER_AGENT@,
                timeout_millis: DEFAULT_TIMEOUT_MILLIS,
                retries: DEFAULT_RETRIES,
            }),
    {
        KagiClientBuilder::new()
    }
}

/// The URL of the search endpoint under `base_url`.
pub fn search_endpoint(base_url: &str) -> (r: String)
    ensures
        r@ == base_url@ + "/v1/search"@,
{
    let mut s = base_url.to_owned();
    s.append("/v1/search");
    s
}

/// The URL of the extract endpoint under `base_url`.
pub fn extract_endpoint(base_url: &str) -> (r: String)
    ensures
        r@ == base_url@ + "/v1/extract"@,
{
    let mut s = base_url.to_owned();
    s.append("/v1/extract");
    s
}

} // verus!
