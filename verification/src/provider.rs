//! Model provider endpoints: how a provider is classified by name and base URL,
//! and how request URLs are built.
use crate::json::JsonValue;
use crate::text::{
    ascii_lower_chars, ascii_lower_seq, chars_contain, chars_of, contains, eq_ignore_ascii_case,
    extend_chars, owned, slice_chars, str_eq, str_eq_ignore_ascii_case, string_of,
};
use core::time::Duration;
use vstd::prelude::*;

verus! {

#[verifier::external_type_specification]
#[verifier::external_body]
#[verifier::reject_recursive_types(T)]
pub struct ExHeaderMap<T>(http::HeaderMap<T>);

#[verifier::external_type_specification]
#[verifier::external_body]
pub struct ExHeaderValue(http::HeaderValue);

#[verifier::external_type_specification]
#[verifier::external_body]
pub struct ExMethod(http::Method);

#[verifier::external_type_specification]
#[verifier::external_body]
pub struct ExUrl(url::Url);

#[verifier::external_type_specification]
#[verifier::external_body]
pub struct ExUrlParseError(url::ParseError);

/// Markers in a lower-cased base URL that identify an Azure Responses deployment.
pub open spec fn azure_markers() -> Seq<Seq<char>> {
    seq![
        "cognitiveservices.azure."@,
        "aoai.azure."@,
        "azure-api."@,
        "azurefd."@,
        "windows.net/openai"@,
    ]
}

/// Whether the provider's name is `openai`, ignoring ASCII case.
pub open spec fn spec_is_openai(name: Seq<char>) -> bool {
    eq_ignore_ascii_case(name, "openai"@)
}

/// Whether a (lower-cased) base URL carries one of the Azure markers.
pub open spec fn spec_matches_azure_responses_base_url(base: Seq<char>) -> bool {
    exists|i: int| 0 <= i < azure_markers().len() && contains(base, #[trigger] azure_markers()[i])
}

/// Whether a provider speaks the Azure Responses wire protocol: it is named `azure`, or its
/// lower-cased base URL names an Azure OpenAI host.
pub open spec fn spec_is_azure_responses_wire_base_url(
    name: Seq<char>,
    base_url: Option<Seq<char>>,
) -> bool {
    if eq_ignore_ascii_case(name, "azure"@) {
        true
    } else {
        match base_url {
            None => false,
            Some(b) => {
                let base = ascii_lower_seq(b);
                contains(base, "openai.azure."@) || spec_matches_azure_responses_base_url(base)
            },
        }
    }
}

/// The view of an optional string slice.
pub open spec fn opt_view(s: Option<&str>) -> Option<Seq<char>> {
    match s {
        Some(x) => Some(x@),
        None => None,
    }
}

fn is_openai(name: &str) -> (r: bool)
    ensures
        r == spec_is_openai(name@),
{
    str_eq_ignore_ascii_case(name, "openai")
}

/// Whether the provider supports server-side compaction: OpenAI itself, or an Azure Responses
/// deployment.
pub fn supports_remote_compaction(name: &str, base_url: Option<&str>) -> (r: bool)
    ensures
        r == (spec_is_openai(name@) || spec_is_azure_responses_wire_base_url(
            name@,
            opt_view(base_url),
        )),
{
    is_openai(name) || is_azure_responses_wire_base_url(name, base_url)
}

/// Whether request bodies may be compressed the way the ChatGPT backend accepts: only for
/// OpenAI, whatever the base URL.
pub fn supports_chatgpt_request_compression(name: &str, _base_url: Option<&str>) -> (r: bool)
    ensures
        r == spec_is_openai(name@),
{
    is_openai(name)
}

/// Whether the realtime API may fall back to the API key in the environment: only for OpenAI.
pub fn supports_realtime_env_api_key_fallback(name: &str, _base_url: Option<&str>) -> (r: bool)
    ensures
        r == spec_is_openai(name@),
{
    is_openai(name)
}

/// Whether the provider stores responses unless told otherwise: Azure Responses deployments do.
pub fn stores_responses_by_default(name: &str, base_url: Option<&str>) -> (r: bool)
    ensures
        r == spec_is_azure_responses_wire_base_url(name@, opt_view(base_url)),
{
    is_azure_responses_wire_base_url(name, base_url)
}

/// Whether the provider is an Azure Responses deployment, by name or by base URL.
pub fn is_azure_responses_wire_base_url(name: &str, base_url: Option<&str>) -> (r: bool)
    ensures
        r == spec_is_azure_responses_wire_base_url(name@, opt_view(base_url)),
{
    if str_eq_ignore_ascii_case(name, "azure") {
        return true;
    }
    match base_url {
        None => false,
        Some(b) => {
            let raw = chars_of(b);
            let base = ascii_lower_chars(raw.as_slice());
            let marker = chars_of("openai.azure.");
            chars_contain(base.as_slice(), marker.as_slice()) || matches_azure_responses_base_url(
                base.as_slice(),
            )
        },
    }
}

/// Whether a lower-cased base URL carries one of the Azure markers.
pub fn matches_azure_responses_base_url(base_url: &[char]) -> (r: bool)
    ensures
        r == spec_matches_azure_responses_base_url(base_url@),
{
    let markers: [&str; 5] = [
        "cognitiveservices.azure.",
        "aoai.azure.",
        "azure-api.",
        "azurefd.",
        "windows.net/openai",
    ];
    let ghost expected = azure_markers();
    assert(markers@.len() == 5);
    assert forall|i: int| 0 <= i < 5 implies #[trigger] markers@[i]@ == expected[i] by {}
    let mut i: usize = 0;
    while i < 5
        invariant
            i <= 5,
            markers@.len() == 5,
            expected == azure_markers(),
            forall|k: int| 0 <= k < 5 ==> #[trigger] markers@[k]@ == expected[k],
            forall|k: int| 0 <= k < i ==> !contains(base_url@, #[trigger] expected[k]),
        decreases 5 - i,
    {
        let m = chars_of(markers[i]);
        if chars_contain(base_url, m.as_slice()) {
            assert(contains(base_url@, expected[i as int]));
            return true;
        }
        i = i + 1;
    }
    false
}

/// High-level retry configuration for a provider.
pub struct RetryConfig {
    pub max_attempts: u64,
    pub base_delay: Duration,
    pub retry_429: bool,
    pub retry_5xx: bool,
    pub retry_transport: bool,
}

/// Which failures the transport retries.
pub struct RetryOn {
    pub retry_429: bool,
    pub retry_5xx: bool,
    pub retry_transport: bool,
}

/// The retry policy that drives transport-level retries.
pub struct RetryPolicy {
    pub max_attempts: u64,
    pub base_delay: Duration,
    pub retry_on: RetryOn,
}

impl RetryConfig {
    /// The transport policy carrying this configuration.
    pub fn to_policy(&self) -> (p: RetryPolicy)
        ensures
            p.max_attempts == self.max_attempts,
            p.base_delay == self.base_delay,
            p.retry_on.retry_429 == self.retry_429,
            p.retry_on.retry_5xx == self.retry_5xx,
            p.retry_on.retry_transport == self.retry_transport,
    {
        RetryPolicy {
            max_attempts: self.max_attempts,
            base_delay: self.base_delay,
            retry_on: RetryOn {
                retry_429: self.retry_429,
                retry_5xx: self.retry_5xx,
                retry_transport: self.retry_transport,
            },
        }
    }
}

/// How a request body is compressed on the wire.
pub enum RequestCompression {
    Uncompressed,
    Zstd,
}

/// A request ready for the transport.
pub struct Request {
    pub method: http::Method,
    pub url: String,
    pub headers: http::HeaderMap,
    pub body: Option<JsonValue>,
    pub compression: RequestCompression,
    pub timeout: Option<Duration>,
}

/// HTTP endpoint configuration used to talk to a concrete API deployment. Query parameters are
/// appended in the order in which they are held.
pub struct Provider {
    pub name: String,
    pub base_url: String,
    pub query_params: Option<Vec<(String, String)>>,
    pub headers: http::HeaderMap,
    pub retry: RetryConfig,
    pub stream_idle_timeout: Duration,
}

/// `s` without any trailing `c`.
pub open spec fn strip_end(s: Seq<char>, c: char) -> Seq<char>
    decreases s.len(),
{
    if s.len() > 0 && s.last() == c {
        strip_end(s.drop_last(), c)
    } else {
        s
    }
}

/// `s` without any leading `c`.
pub open spec fn strip_start(s: Seq<char>, c: char) -> Seq<char>
    decreases s.len(),
{
    if s.len() > 0 && s[0] == c {
        strip_start(s.drop_first(), c)
    } else {
        s
    }
}

/// `key=value` pairs joined by `&`.
pub open spec fn query_string(params: Seq<(Seq<char>, Seq<char>)>) -> Seq<char>
    decreases params.len(),
{
    if params.len() == 0 {
        seq![]
    } else if params.len() == 1 {
        params[0].0 + seq!['='] + params[0].1
    } else {
        query_string(params.drop_last()) + seq!['&'] + params.last().0 + seq!['='] + params.last().1
    }
}

/// The views of query parameters.
pub open spec fn params_view(params: Seq<(String, String)>) -> Seq<(Seq<char>, Seq<char>)> {
    params.map_values(|p: (String, String)| (p.0@, p.1@))
}

/// The URL for `path` under `base_url`: the base without trailing slashes, a slash, the path
/// without leading slashes (nothing when that is empty), then `?` and the query string when
/// there are parameters.
pub open spec fn spec_url_for_path(
    base_url: Seq<char>,
    path: Seq<char>,
    params: Option<Seq<(Seq<char>, Seq<char>)>>,
) -> Seq<char> {
    let base = strip_end(base_url, '/');
    let p = strip_start(path, '/');
    let url = if p.len() == 0 {
        base
    } else {
        base + seq!['/'] + p
    };
    match params {
        Some(ps) => if ps.len() > 0 {
            url + seq!['?'] + query_string(ps)
        } else {
            url
        },
        None => url,
    }
}

proof fn lemma_strip_end_prefix(s: Seq<char>, c: char, k: int)
    requires
        0 <= k <= s.len(),
        forall|j: int| k <= j < s.len() ==> s[j] == c,
        k == 0 || s[k - 1] != c,
    ensures
        strip_end(s, c) == s.subrange(0, k),
    decreases s.len() - k,
{
    if k < s.len() {
        lemma_strip_end_prefix(s.drop_last(), c, k);
        assert(s.drop_last().subrange(0, k) =~= s.subrange(0, k));
    } else {
        assert(s.subrange(0, k) =~= s);
        if k > 0 {
        }
    }
}

proof fn lemma_strip_start_suffix(s: Seq<char>, c: char, k: int)
    requires
        0 <= k <= s.len(),
        forall|j: int| 0 <= j < k ==> s[j] == c,
        k == s.len() || s[k] != c,
    ensures
        strip_start(s, c) == s.subrange(k, s.len() as int),
    decreases k,
{
    if k > 0 {
        lemma_strip_start_suffix(s.drop_first(), c, k - 1);
        assert(s.drop_first().subrange(k - 1, s.len() - 1) =~= s.subrange(k, s.len() as int));
    } else {
        assert(s.subrange(0, s.len() as int) =~= s);
    }
}

impl Provider {
    /// The URL for `path` on this provider.
    pub fn url_for_path(&self, path: &str) -> (r: String)
        ensures
            r@ == spec_url_for_path(
                self.base_url@,
                path@,
                match self.query_params {
                    Some(ps) => Some(params_view(ps@)),
                    None => None,
                },
            ),
    {
        let base_all = chars_of(self.base_url.as_str());
        let mut e = base_all.len();
        while e > 0 && base_all[e - 1] == '/'
            invariant
                e <= base_all.len(),
                forall|j: int| e <= j < base_all.len() ==> base_all@[j] == '/',
            decreases e,
        {
            e = e - 1;
        }
        proof {
            lemma_strip_end_prefix(base_all@, '/', e as int);
        }
        let path_all = chars_of(path);
        let mut s: usize = 0;
        while s < path_all.len() && path_all[s] == '/'
            invariant
                s <= path_all.len(),
                forall|j: int| 0 <= j < s ==> path_all@[j] == '/',
            decreases path_all.len() - s,
        {
            s = s + 1;
        }
        proof {
            lemma_strip_start_suffix(path_all@, '/', s as int);
        }
        let mut url = slice_chars(base_all.as_slice(), 0, e);
        if s < path_all.len() {
            url.push('/');
            let p = slice_chars(path_all.as_slice(), s, path_all.len());
            extend_chars(&mut url, p.as_slice());
        }
        let ghost before_query = url@;
        match &self.query_params {
            Some(params) => {
                if params.len() > 0 {
                    url.push('?');
                    let mut i: usize = 0;
                    while i < params.len()
                        invariant
                            0 < params.len(),
                            i <= params.len(),
                            url@ == before_query + seq!['?'] + query_string(
                                params_view(params@).take(i as int),
                            ),
                        decreases params.len() - i,
                    {
                        if i > 0 {
                            url.push('&');
                        }
                        let k = chars_of(params[i].0.as_str());
                        extend_chars(&mut url, k.as_slice());
                        url.push('=');
                        let v = chars_of(params[i].1.as_str());
                        extend_chars(&mut url, v.as_slice());
                        proof {
                            let pv = params_view(params@);
                            assert(pv.take(i + 1).drop_last() =~= pv.take(i as int));
                            assert(pv.take(i + 1).last() == pv[i as int]);
                            if i == 0 {
                                assert(query_string(pv.take(0)) =~= seq![]);
                            }
                        }
                        i = i + 1;
                    }
                    assert(params_view(params@).take(params.len() as int) =~= params_view(
                        params@,
                    ));
                }
            },
            None => {},
        }
        string_of(url.as_slice())
    }

    /// A request for `path` with this provider's headers and no body.
    pub fn build_request(&self, method: http::Method, path: &str) -> (r: Request)
        ensures
            r.method == method,
            r.url@ == spec_url_for_path(
                self.base_url@,
                path@,
                match self.query_params {
                    Some(ps) => Some(params_view(ps@)),
                    None => None,
                },
            ),
            header_entries(r.headers) == header_entries(self.headers),
            r.body is None,
            r.compression is Uncompressed,
            r.timeout is None,
    {
        Request {
            method,
            url: self.url_for_path(path),
            headers: clone_headers(&self.headers),
            body: None,
            compression: RequestCompression::Uncompressed,
            timeout: None,
        }
    }

    /// Whether this provider is an Azure Responses deployment.
    pub fn is_azure_responses_endpoint(&self) -> (r: bool)
        ensures
            r == spec_is_azure_responses_wire_base_url(self.name@, Some(self.base_url@)),
    {
        is_azure_responses_wire_base_url(self.name.as_str(), Some(self.base_url.as_str()))
    }

    /// Whether this provider stores responses by default.
    pub fn stores_responses_by_default(&self) -> (r: bool)
        ensures
            r == spec_is_azure_responses_wire_base_url(self.name@, Some(self.base_url@)),
    {
        stores_responses_by_default(self.name.as_str(), Some(self.base_url.as_str()))
    }

    /// Whether this provider accepts ChatGPT-style request compression.
    pub fn supports_chatgpt_request_compression(&self) -> (r: bool)
        ensures
            r == spec_is_openai(self.name@),
    {
        supports_chatgpt_request_compression(self.name.as_str(), Some(self.base_url.as_str()))
    }

    /// Whether this provider may fall back to the environment's API key for realtime sessions.
    pub fn supports_realtime_env_api_key_fallback(&self) -> (r: bool)
        ensures
            r == spec_is_openai(self.name@),
    {
        supports_realtime_env_api_key_fallback(self.name.as_str(), Some(self.base_url.as_str()))
    }

    /// The websocket URL for `path`: the URL of `url_for_path` with `http` turned into `ws`
    /// and `https` into `wss`; any other scheme is kept. Fails where the URL does not parse.
    pub fn websocket_url_for_path(&self, path: &str) -> (r: Result<ProviderUrl, url::ParseError>)
        ensures
            ({
                let raw = spec_url_for_path(
                    self.base_url@,
                    path@,
                    match self.query_params {
                        Some(ps) => Some(params_view(ps@)),
                        None => None,
                    },
                );
                &&& r is Ok <==> url_parse_scheme(raw) is Some
                &&& r matches Ok(u) ==> u.text@ == match url_parse_scheme(raw) {
                    Some(sch) => match spec_websocket_scheme(sch) {
                        Some(ws) => url_scheme_set_text(raw, ws),
                        None => url_parse_text(raw),
                    },
                    None => url_parse_text(raw),
                }
            }),
    {
        let raw = self.url_for_path(path);
        match parse_url(raw.as_str()) {
            Err(e) => Err(e),
            Ok((url, scheme, text)) => {
                match websocket_scheme(scheme.as_str()) {
                    Some(ws) => match parse_url_with_scheme(raw.as_str(), ws.as_str()) {
                        Ok((url, text)) => Ok(ProviderUrl { url, text }),
                        Err(e) => Err(e),
                    },
                    None => Ok(ProviderUrl { url, text }),
                }
            },
        }
    }
}

/// A parsed URL with its text (`Url::as_str`).
#[derive(Debug)]
pub struct ProviderUrl {
    pub url: url::Url,
    pub text: String,
}

impl ProviderUrl {
    /// The URL's text.
    pub fn as_str(&self) -> (r: &str)
        ensures
            r@ == self.text@,
    {
        self.text.as_str()
    }
}

/// The websocket scheme that replaces a web scheme.
pub open spec fn spec_websocket_scheme(scheme: Seq<char>) -> Option<Seq<char>> {
    if scheme == "http"@ {
        Some("ws"@)
    } else if scheme == "https"@ {
        Some("wss"@)
    } else {
        None
    }
}

/// The websocket scheme that replaces a web scheme: `ws` for `http`, `wss` for `https`, none
/// for any other.
pub fn websocket_scheme(scheme: &str) -> (r: Option<String>)
    ensures
        scheme@ == "http"@ ==> (r matches Some(s) && s@ == "ws"@),
        scheme@ == "https"@ ==> (r matches Some(s) && s@ == "wss"@),
        scheme@ != "http"@ && scheme@ != "https"@ ==> r is None,
        opt_text(r) == spec_websocket_scheme(scheme@),
{
    proof {
        reveal_strlit("http");
        reveal_strlit("https");
        assert("http"@.len() == 4);
        assert("https"@.len() == 5);
    }
    if str_eq(scheme, "http") {
        Some(owned("ws"))
    } else if str_eq(scheme, "https") {
        Some(owned("wss"))
    } else {
        None
    }
}

/// The scheme of the URL that `url::Url::parse` reads from a string, or none where it fails.
pub uninterp spec fn url_parse_scheme(s: Seq<char>) -> Option<Seq<char>>;

/// The text (`Url::as_str`) of the URL that `url::Url::parse` reads from a string.
pub uninterp spec fn url_parse_text(s: Seq<char>) -> Seq<char>;

/// The text (`Url::as_str`) of the URL that `url::Url::parse` reads from a string after
/// `Url::set_scheme` with `scheme` (which leaves the URL as it was when it refuses the scheme).
pub uninterp spec fn url_scheme_set_text(s: Seq<char>, scheme: Seq<char>) -> Seq<char>;

/// The entries of a header map, in the map's order: each name with the bytes of its value.
pub uninterp spec fn header_entries(h: http::HeaderMap) -> Seq<(Seq<char>, Seq<u8>)>;

/// Parses an absolute URL with `url::Url::parse` and reads its scheme (`Url::scheme`) and its
/// text (`Url::as_str`). The contract claims that success, the scheme and the text are
/// functions of the input; what the URL holds otherwise is not stated.
#[verifier::external_body]
fn parse_url(s: &str) -> (r: Result<(url::Url, String, String), url::ParseError>)
    ensures
        r is Ok <==> url_parse_scheme(s@) is Some,
        r matches Ok((_, scheme, text)) ==> url_parse_scheme(s@) == Some(scheme@) && text@
            == url_parse_text(s@),
{
    match url::Url::parse(s) {
        Ok(u) => {
            let scheme = u.scheme().to_string();
            let text = u.as_str().to_string();
            Ok((u, scheme, text))
        },
        Err(e) => Err(e),
    }
}

/// Parses an absolute URL with `url::Url::parse`, replaces its scheme with `Url::set_scheme`
/// (ignoring a refusal, as the caller does) and reads its text (`Url::as_str`).
#[verifier::external_body]
fn parse_url_with_scheme(s: &str, scheme: &str) -> (r: Result<(url::Url, String), url::ParseError>)
    ensures
        r is Ok <==> url_parse_scheme(s@) is Some,
        r matches Ok((_, text)) ==> text@ == url_scheme_set_text(s@, scheme@),
{
    match url::Url::parse(s) {
        Ok(mut u) => {
            let _ = u.set_scheme(scheme);
            let text = u.as_str().to_string();
            Ok((u, text))
        },
        Err(e) => Err(e),
    }
}

/// A copy of a header map (`HeaderMap::clone`, a derived clone): the copy holds the same
/// entries in the same order.
#[verifier::external_body]
fn clone_headers(h: &http::HeaderMap) -> (r: http::HeaderMap)
    ensures
        header_entries(r) == header_entries(*h),
{
    h.clone()
}

/// Which runtime behaviour a provider gets.
#[derive(Debug, Clone, Copy, PartialEq, Eq, Structural)]
pub enum ProviderRuntime {
    RemoteCompaction,
    Default,
}

/// The level of detail requested for an output image.
#[derive(Debug, Clone, Copy, PartialEq, Eq, Structural)]
pub enum ImageDetail {
    Auto,
    Low,
    High,
    Original,
}

/// The provider fields that the runtime reads.
pub struct ModelProviderInfo {
    pub name: String,
    pub base_url: Option<String>,
}

impl ProviderRuntime {
    /// Remote compaction for providers that support it, the default runtime otherwise.
    pub fn from_provider(provider: &ModelProviderInfo) -> (r: ProviderRuntime)
        ensures
            (r == ProviderRuntime::RemoteCompaction) == (spec_is_openai(provider.name@)
                || spec_is_azure_responses_wire_base_url(
                provider.name@,
                match provider.base_url {
                    Some(b) => Some(b@),
                    None => None,
                },
            )),
    {
        let base = match &provider.base_url {
            Some(b) => Some(b.as_str()),
            None => None,
        };
        if supports_remote_compaction(provider.name.as_str(), base) {
            ProviderRuntime::RemoteCompaction
        } else {
            ProviderRuntime::Default
        }
    }

    /// Whether this runtime compacts remotely.
    pub fn supports_remote_compaction(self) -> (r: bool)
        ensures
            r == (self == ProviderRuntime::RemoteCompaction),
    {
        match self {
            ProviderRuntime::RemoteCompaction => true,
            ProviderRuntime::Default => false,
        }
    }

    /// Whether original-detail images may be sent: the model's capability decides.
    pub fn supports_original_image_detail(self, model_supports_original: bool) -> (r: bool)
        ensures
            r == model_supports_original,
    {
        model_supports_original
    }
}

/// `Original` detail when the feature is on and the model supports it, none otherwise.
pub fn default_output_image_detail(
    provider: &ModelProviderInfo,
    image_detail_original_enabled: bool,
    model_supports_original: bool,
) -> (r: Option<ImageDetail>)
    ensures
        r == (if image_detail_original_enabled && model_supports_original {
            Some(ImageDetail::Original)
        } else {
            None
        }),
{
    if image_detail_original_enabled && ProviderRuntime::from_provider(
        provider,
    ).supports_original_image_detail(model_supports_original) {
        Some(ImageDetail::Original)
    } else {
        None
    }
}

/// The view of an optional string.
pub open spec fn opt_text(s: Option<String>) -> Option<Seq<char>> {
    match s {
        Some(t) => Some(t@),
        None => None,
    }
}

} // verus!
