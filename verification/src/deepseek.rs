//! DeepSeek provider rules: how the provider is described and recognized,
//! which model it offers, how it authenticates, and how its HTTP endpoints are
//! addressed and their failures reported. The HTTP exchange itself belongs to
//! the caller.

use vstd::prelude::*;
use vstd::string::StringExecFns;

use crate::text::blank;
use crate::text::is_blank;
use crate::text::is_white_space;
use crate::text::str_eq;
use crate::text::utf8_prefix;
use crate::text::utf8_prefix_of;

verus! {

/// Identifier of the DeepSeek provider.
pub const DEEPSEEK_PROVIDER_ID: &'static str = "deepseek";

/// The one model DCode uses with DeepSeek.
pub const DEEPSEEK_DEFAULT_MODEL: &'static str = "deepseek-v4-flash";

/// DeepSeek's API endpoint.
pub const DEEPSEEK_BASE_URL: &'static str = "https://api.deepseek.com";

/// Display name of the provider.
pub const DEEPSEEK_PROVIDER_NAME: &'static str = "DeepSeek";

/// Environment variable that holds the API key.
pub const DEEPSEEK_API_KEY_ENV: &'static str = "DEEPSEEK_API_KEY";

/// How to obtain an API key.
pub const DEEPSEEK_API_KEY_INSTRUCTIONS: &'static str = "Create an API key at https://platform.deepseek.com/api_keys and export it as DEEPSEEK_API_KEY.";

/// Context window of the DeepSeek model, in tokens.
pub const DEEPSEEK_CONTEXT_WINDOW: i64 = 1048576;

/// Timeout of a DeepSeek API request, in seconds.
pub const DEEPSEEK_REQUEST_TIMEOUT_SECS: u64 = 10;

/// Longest part of an error response body quoted in an error, in bytes.
pub const MAX_ERROR_BODY_BYTES: usize = 4096;

/// The wire protocol a provider speaks.
#[derive(Clone, Copy, PartialEq, Eq, Structural)]
pub enum WireApi {
    Responses,
    Chat,
}

/// The description of a model provider, as far as DCode reads it.
pub struct ModelProviderInfo {
    pub name: String,
    pub base_url: Option<String>,
    pub env_key: Option<String>,
    pub env_key_instructions: Option<String>,
    pub experimental_bearer_token: Option<String>,
    pub wire_api: WireApi,
    pub request_max_retries: Option<u64>,
    pub stream_max_retries: Option<u64>,
    pub stream_idle_timeout_ms: Option<u64>,
    pub websocket_connect_timeout_ms: Option<u64>,
    pub requires_openai_auth: bool,
    pub supports_websockets: bool,
    pub supports_standalone_web_search: bool,
}

/// The view of an optional string.
pub open spec fn opt_seq(v: Option<String>) -> Option<Seq<char>> {
    match v {
        Some(s) => Some(s@),
        None => None,
    }
}

/// The description of the DeepSeek provider.
pub open spec fn is_deepseek_description(info: ModelProviderInfo) -> bool {
    &&& info.name@ == DEEPSEEK_PROVIDER_NAME@
    &&& opt_seq(info.base_url) == Some(DEEPSEEK_BASE_URL@)
    &&& opt_seq(info.env_key) == Some(DEEPSEEK_API_KEY_ENV@)
    &&& opt_seq(info.env_key_instructions) == Some(DEEPSEEK_API_KEY_INSTRUCTIONS@)
    &&& info.experimental_bearer_token is None
    &&& info.wire_api == WireApi::Responses
    &&& info.request_max_retries is None
    &&& info.stream_max_retries is None
    &&& info.stream_idle_timeout_ms is None
    &&& info.websocket_connect_timeout_ms is None
    &&& !info.requires_openai_auth
    &&& !info.supports_websockets
    &&& !info.supports_standalone_web_search
}

/// The built-in description of the DeepSeek provider: the Responses API at
/// DeepSeek's endpoint, authenticated by an API key from `DEEPSEEK_API_KEY`.
pub fn create_deepseek_provider() -> (info: ModelProviderInfo)
    ensures
        is_deepseek_description(info),
{
    ModelProviderInfo {
        name: String::from_str(DEEPSEEK_PROVIDER_NAME),
        base_url: Some(String::from_str(DEEPSEEK_BASE_URL)),
        env_key: Some(String::from_str(DEEPSEEK_API_KEY_ENV)),
        env_key_instructions: Some(String::from_str(DEEPSEEK_API_KEY_INSTRUCTIONS)),
        experimental_bearer_token: None,
        wire_api: WireApi::Responses,
        request_max_retries: None,
        stream_max_retries: None,
        stream_idle_timeout_ms: None,
        websocket_connect_timeout_ms: None,
        requires_openai_auth: false,
        supports_websockets: false,
        supports_standalone_web_search: false,
    }
}

/// A provider is DeepSeek's when it carries DeepSeek's name and DeepSeek's
/// API-key instructions; a custom provider that only reuses the name is not.
pub open spec fn is_deepseek_spec(info: ModelProviderInfo) -> bool {
    info.name@ == DEEPSEEK_PROVIDER_NAME@ && opt_seq(info.env_key_instructions) == Some(
        DEEPSEEK_API_KEY_INSTRUCTIONS@,
    )
}

/// Whether `info` describes the DeepSeek provider.
pub fn is_deepseek_provider(info: &ModelProviderInfo) -> (r: bool)
    ensures
        r == is_deepseek_spec(*info),
{
    str_eq(info.name.as_str(), DEEPSEEK_PROVIDER_NAME) && match &info.env_key_instructions {
        Some(i) => str_eq(i.as_str(), DEEPSEEK_API_KEY_INSTRUCTIONS),
        None => false,
    }
}

/// The built-in description is recognized as DeepSeek's.
pub proof fn law_created_provider_is_recognized(info: ModelProviderInfo)
    requires
        is_deepseek_description(info),
    ensures
        is_deepseek_spec(info),
{
}

/// Whether a provider supports remote compaction.
#[derive(Clone, Copy, PartialEq, Eq, Structural)]
pub enum RemoteCompactionSupport {
    Supported,
    Unsupported,
}

/// What a provider offers beyond plain model calls.
#[derive(Clone, Copy, PartialEq, Eq, Structural)]
pub struct ProviderCapabilities {
    pub namespace_tools: bool,
    pub image_generation: bool,
    pub web_search: bool,
    pub external_web_access: bool,
    pub remote_compaction: RemoteCompactionSupport,
    pub account_balance: bool,
    pub api_key_login: bool,
}

/// How a provider's account is identified.
#[derive(Clone, Copy, PartialEq, Eq, Structural)]
pub enum ProviderAccount {
    ApiKey,
    ChatGpt,
}

/// The account state a provider reports.
#[derive(Clone, Copy, PartialEq, Eq, Structural)]
pub struct ProviderAccountState {
    pub account: Option<ProviderAccount>,
    pub requires_openai_auth: bool,
}

/// The runtime DeepSeek provider.
pub struct DeepSeekModelProvider {
    pub info: ModelProviderInfo,
}

impl DeepSeekModelProvider {
    /// The provider for `info`.
    pub fn new(info: ModelProviderInfo) -> (p: Self)
        ensures
            p.info == info,
    {
        DeepSeekModelProvider { info }
    }

    /// DeepSeek offers namespace tools, web search, balance queries and API-key
    /// login; no image generation, external web access or remote compaction.
    pub fn capabilities(&self) -> (c: ProviderCapabilities)
        ensures
            c == (ProviderCapabilities {
                namespace_tools: true,
                image_generation: false,
                web_search: true,
                external_web_access: false,
                remote_compaction: RemoteCompactionSupport::Unsupported,
                account_balance: true,
                api_key_login: true,
            }),
    {
        ProviderCapabilities {
            namespace_tools: true,
            image_generation: false,
            web_search: true,
            external_web_access: false,
            remote_compaction: RemoteCompactionSupport::Unsupported,
            account_balance: true,
            api_key_login: true,
        }
    }

    /// The model used for approval reviews.
    pub fn approval_review_preferred_model(&self) -> (m: &'static str)
        ensures
            m == DEEPSEEK_DEFAULT_MODEL,
    {
        DEEPSEEK_DEFAULT_MODEL
    }

    /// The model used for memory extraction.
    pub fn memory_extraction_preferred_model(&self) -> (m: &'static str)
        ensures
            m == DEEPSEEK_DEFAULT_MODEL,
    {
        DEEPSEEK_DEFAULT_MODEL
    }

    /// The model used for memory consolidation.
    pub fn memory_consolidation_preferred_model(&self) -> (m: &'static str)
        ensures
            m == DEEPSEEK_DEFAULT_MODEL,
    {
        DEEPSEEK_DEFAULT_MODEL
    }

    /// The account is an API key, and no OpenAI authentication is needed.
    pub fn account_state(&self) -> (s: ProviderAccountState)
        ensures
            s == (ProviderAccountState {
                account: Some(ProviderAccount::ApiKey),
                requires_openai_auth: false,
            }),
    {
        ProviderAccountState { account: Some(ProviderAccount::ApiKey), requires_openai_auth: false }
    }
}

/// Where a DeepSeek request takes its credentials from.
pub enum AuthSource {
    /// The API key found in the provider's environment variable.
    ApiKey(String),
    /// The credentials cached by the login manager.
    Cached,
    /// No credentials.
    Unauthenticated,
}

/// The contents of an `AuthSource`.
pub enum AuthChoice {
    ApiKey(Seq<char>),
    Cached,
    Unauthenticated,
}

impl View for AuthSource {
    type V = AuthChoice;

    open spec fn view(&self) -> AuthChoice {
        match self {
            AuthSource::ApiKey(k) => AuthChoice::ApiKey(k@),
            AuthSource::Cached => AuthChoice::Cached,
            AuthSource::Unauthenticated => AuthChoice::Unauthenticated,
        }
    }
}

/// The credentials rule: a non-blank API key in the provider's environment
/// variable wins (taken as is), then cached login credentials, then none.
pub open spec fn auth_source_spec(env_value: Option<Seq<char>>, has_cached_auth: bool) -> AuthChoice {
    match env_value {
        Some(v) if !is_blank(v) => AuthChoice::ApiKey(v),
        _ => if has_cached_auth {
            AuthChoice::Cached
        } else {
            AuthChoice::Unauthenticated
        },
    }
}

/// Chooses the credentials for a DeepSeek request from the value of the
/// provider's API-key variable (`None` when the provider names none or it is
/// unset) and whether cached login credentials exist.
pub fn resolve_auth_source(env_value: Option<&str>, has_cached_auth: bool) -> (a: AuthSource)
    ensures
        a@ == auth_source_spec(
            match env_value {
                Some(v) => Some(v@),
                None => None,
            },
            has_cached_auth,
        ),
{
    if let Some(v) = env_value {
        if !blank(v) {
            return AuthSource::ApiKey(String::from_str(v));
        }
    }
    if has_cached_auth {
        AuthSource::Cached
    } else {
        AuthSource::Unauthenticated
    }
}

/// A non-blank key in the provider's API-key variable is always the one used,
/// whether or not cached login credentials exist; cached credentials are used
/// only when the variable is unset or blank and they exist, and a request goes
/// unauthenticated only when neither is available.
pub proof fn law_environment_key_comes_first(
    env_value: Option<Seq<char>>,
    has_cached_auth: bool,
)
    ensures
        match env_value {
            Some(v) => (exists|i: int| 0 <= i < v.len() && !is_white_space(v[i])) ==> auth_source_spec(
                env_value,
                has_cached_auth,
            ) == AuthChoice::ApiKey(v),
            None => true,
        },
        auth_source_spec(env_value, has_cached_auth) is Cached ==> has_cached_auth && (
        env_value matches Some(v) ==> forall|i: int| 0 <= i < v.len() ==> is_white_space(v[i])),
        auth_source_spec(env_value, has_cached_auth) is Unauthenticated ==> !has_cached_auth && (
        env_value matches Some(v) ==> forall|i: int| 0 <= i < v.len() ==> is_white_space(v[i])),
        auth_source_spec(env_value, has_cached_auth) matches AuthChoice::ApiKey(k) ==> env_value
            == Some(k),
{
    if let Some(v) = env_value {
        if exists|i: int| 0 <= i < v.len() && !is_white_space(v[i]) {
            let i = choose|i: int| 0 <= i < v.len() && !is_white_space(v[i]);
            assert(!is_white_space(v[i]));
            assert(!is_blank(v));
        }
    }
}

/// Whether a DeepSeek account has funds, per currency.
pub struct ProviderBalance {
    pub is_available: bool,
    pub balance_infos: Vec<ProviderBalanceInfo>,
}

/// The balance in one currency, as DeepSeek reports it (decimal strings).
pub struct ProviderBalanceInfo {
    pub currency: String,
    pub total_balance: String,
    pub granted_balance: String,
    pub topped_up_balance: String,
}

/// A failure of a DeepSeek API call.
pub enum DeepSeekError {
    /// The request is invalid, with its description.
    InvalidRequest(String),
    /// The request could not be performed, with its description.
    Fatal(String),
}

/// The contents of a `DeepSeekError`.
pub enum DeepSeekErrorView {
    InvalidRequest(Seq<char>),
    Fatal(Seq<char>),
}

impl View for DeepSeekError {
    type V = DeepSeekErrorView;

    open spec fn view(&self) -> DeepSeekErrorView {
        match self {
            DeepSeekError::InvalidRequest(m) => DeepSeekErrorView::InvalidRequest(m@),
            DeepSeekError::Fatal(m) => DeepSeekErrorView::Fatal(m@),
        }
    }
}

/// `s` without its trailing slashes.
pub open spec fn trim_trailing_slashes(s: Seq<char>) -> Seq<char>
    decreases s.len(),
{
    if s.len() > 0 && s.last() == '/' {
        trim_trailing_slashes(s.drop_last())
    } else {
        s
    }
}

/// The URL of endpoint `path` under `base_url`: the base without trailing
/// slashes, a slash, then the path.
pub open spec fn endpoint_url_spec(base_url: Seq<char>, path: Seq<char>) -> Seq<char> {
    trim_trailing_slashes(base_url) + "/"@ + path
}

/// The URL of DeepSeek endpoint `path` (such as `models` or `user/balance`)
/// for a provider whose base URL is `base_url`.
pub fn endpoint_url(base_url: Option<&str>, path: &str) -> (r: Result<String, DeepSeekError>)
    ensures
        match base_url {
            Some(b) => r matches Ok(u) && u@ == endpoint_url_spec(b@, path@),
            None => r matches Err(e) && e@ == DeepSeekErrorView::InvalidRequest(
                "DeepSeek provider base URL is missing"@,
            ),
        },
{
    let base = match base_url {
        Some(b) => b,
        None => {
            return Err(
                DeepSeekError::InvalidRequest(
                    String::from_str("DeepSeek provider base URL is missing"),
                ),
            );
        },
    };
    let v = crate::text::chars_of(base);
    let mut end: usize = v.len();
    assert(v@.take(end as int) =~= v@);
    while end > 0 && v[end - 1] == '/'
        invariant
            end <= v@.len(),
            v@ == base@,
            trim_trailing_slashes(base@) == trim_trailing_slashes(v@.take(end as int)),
        decreases end,
    {
        assert(v@.take(end as int).drop_last() =~= v@.take(end - 1));
        end = end - 1;
    }
    let mut url = crate::text::string_of_prefix(&v, end);
    url.append("/");
    url.append(path);
    Ok(url)
}

/// The text of `bytes` decoded as UTF-8, with invalid sequences replaced.
pub uninterp spec fn lossy_utf8(bytes: Seq<u8>) -> Seq<char>;

/// Decodes `bytes` with std's `String::from_utf8_lossy`. The result is named
/// by `lossy_utf8`; for valid UTF-8 the documentation says the text is
/// returned as is, which the second clause states.
#[verifier::external_body]
fn decode_lossy(bytes: &[u8]) -> (r: String)
    ensures
        r@ == lossy_utf8(bytes@),
        vstd::utf8::valid_utf8(bytes@) ==> r@ == vstd::utf8::decode_utf8(bytes@),
{
    String::from_utf8_lossy(bytes).into_owned()
}

/// Whether an HTTP status code reports success (200 to 299).
pub open spec fn is_success_status(code: u16) -> bool {
    200 <= code <= 299
}

/// The error for a failed DeepSeek response: the status line and the first
/// `MAX_ERROR_BODY_BYTES` bytes of the decoded body, cut on a character
/// boundary.
pub open spec fn http_error_message(status: Seq<char>, body: Seq<u8>) -> Seq<char> {
    "DeepSeek returned HTTP "@ + status + ": "@ + utf8_prefix(
        lossy_utf8(body),
        MAX_ERROR_BODY_BYTES as int,
    )
}

/// Checks a DeepSeek response: its body on success; otherwise an error that
/// quotes the status (`status_text`, as in `404 Not Found`) and the start of
/// the body.
pub fn check_response(status_code: u16, status_text: &str, body: Vec<u8>) -> (r: Result<
    Vec<u8>,
    DeepSeekError,
>)
    ensures
        is_success_status(status_code) ==> (r matches Ok(b) && b@ == body@),
        !is_success_status(status_code) ==> (r matches Err(e) && e@
            == DeepSeekErrorView::InvalidRequest(http_error_message(status_text@, body@))),
{
    if 200 <= status_code && status_code <= 299 {
        return Ok(body);
    }
    let text = decode_lossy(body.as_slice());
    let excerpt = utf8_prefix_of(text.as_str(), MAX_ERROR_BODY_BYTES);
    let mut m = String::from_str("DeepSeek returned HTTP ");
    m.append(status_text);
    m.append(": ");
    m.append(excerpt.as_str());
    Err(DeepSeekError::InvalidRequest(m))
}

/// Where a DeepSeek request failed before a response arrived.
pub enum TransportStage {
    CreateClient,
    Send,
    ReadBody,
}

/// The message for a transport failure at `stage`, with its description.
pub open spec fn transport_message(stage: TransportStage, detail: Seq<char>) -> Seq<char> {
    match stage {
        TransportStage::CreateClient => "failed to create DeepSeek HTTP client: "@ + detail,
        TransportStage::Send => "DeepSeek request failed: "@ + detail,
        TransportStage::ReadBody => "failed to read DeepSeek response: "@ + detail,
    }
}

/// The (fatal) error for a transport failure at `stage`.
pub fn transport_failure(stage: TransportStage, detail: &str) -> (e: DeepSeekError)
    ensures
        e@ == DeepSeekErrorView::Fatal(transport_message(stage, detail@)),
{
    let mut m = match stage {
        TransportStage::CreateClient => String::from_str(
            "failed to create DeepSeek HTTP client: ",
        ),
        TransportStage::Send => String::from_str("DeepSeek request failed: "),
        TransportStage::ReadBody => String::from_str("failed to read DeepSeek response: "),
    };
    m.append(detail);
    DeepSeekError::Fatal(m)
}

/// How much reasoning a model spends.
#[derive(Clone, Copy, PartialEq, Eq, Structural)]
pub enum ReasoningEffort {
    Minimal,
    Low,
    Medium,
    High,
    Max,
}

/// A kind of input a model accepts.
#[derive(Clone, Copy, PartialEq, Eq, Structural)]
pub enum InputModality {
    Text,
    Image,
}

/// Whether a model is listed to users.
#[derive(Clone, Copy, PartialEq, Eq, Structural)]
pub enum ModelVisibility {
    List,
    Hide,
}

/// The web-search tool a model is given.
#[derive(Clone, Copy, PartialEq, Eq, Structural)]
pub enum WebSearchToolType {
    Text,
    TextAndImage,
}

/// The multi-agent protocol a model supports.
#[derive(Clone, Copy, PartialEq, Eq, Structural)]
pub enum MultiAgentVersion {
    V1,
    V2,
}

/// How verbose a model's answers are by default.
#[derive(Clone, Copy, PartialEq, Eq, Structural)]
pub enum Verbosity {
    Low,
    Medium,
    High,
}

/// A reasoning level a model offers, with its description.
#[derive(PartialEq)]
pub struct ReasoningEffortPreset {
    pub effort: ReasoningEffort,
    pub description: String,
}

/// The metadata of a model, as far as DCode sets it. Speed and service tiers,
/// the availability notice, the upgrade and the compatibility hash are carried
/// by name.
#[derive(PartialEq)]
pub struct ModelInfo {
    pub slug: String,
    pub display_name: String,
    pub description: Option<String>,
    pub default_reasoning_level: Option<ReasoningEffort>,
    pub supported_reasoning_levels: Vec<ReasoningEffortPreset>,
    pub visibility: ModelVisibility,
    pub priority: i32,
    pub additional_speed_tiers: Vec<String>,
    pub service_tiers: Vec<String>,
    pub default_service_tier: Option<String>,
    pub availability_nux: Option<String>,
    pub upgrade: Option<String>,
    pub supports_reasoning_summary_parameter: bool,
    pub support_verbosity: bool,
    pub default_verbosity: Option<Verbosity>,
    pub supports_parallel_tool_calls: bool,
    pub supports_image_detail_original: bool,
    pub include_skills_usage_instructions: bool,
    pub include_plugin_usage_instructions: bool,
    pub context_window: Option<i64>,
    pub max_context_window: Option<i64>,
    pub comp_hash: Option<String>,
    pub effective_context_window_percent: i64,
    pub input_modalities: Vec<InputModality>,
    pub web_search_tool_type: WebSearchToolType,
    pub supports_search_tool: bool,
    pub multi_agent_version: Option<MultiAgentVersion>,
    pub used_fallback_model_metadata: bool,
}

/// The metadata of DeepSeek-V4-Flash: a text-only model with high or maximum
/// reasoning and a one-million-token context window.
pub open spec fn is_flash_model(m: ModelInfo) -> bool {
    &&& m.slug@ == DEEPSEEK_DEFAULT_MODEL@
    &&& m.display_name@ == "DeepSeek-V4-Flash"@
    &&& opt_seq(m.description) == Some("DeepSeek's fast agentic coding model."@)
    &&& m.default_reasoning_level == Some(ReasoningEffort::High)
    &&& m.supported_reasoning_levels@.len() == 2
    &&& m.supported_reasoning_levels@[0].effort == ReasoningEffort::High
    &&& m.supported_reasoning_levels@[0].description@
        == "Extra reasoning depth for complex problems"@
    &&& m.supported_reasoning_levels@[1].effort == ReasoningEffort::Max
    &&& m.supported_reasoning_levels@[1].description@
        == "Maximum reasoning depth for the hardest problems"@
    &&& m.visibility == ModelVisibility::List
    &&& m.priority == 1
    &&& m.additional_speed_tiers@.len() == 0
    &&& m.service_tiers@.len() == 0
    &&& m.default_service_tier is None
    &&& m.availability_nux is None
    &&& m.upgrade is None
    &&& !m.supports_reasoning_summary_parameter
    &&& !m.support_verbosity
    &&& m.default_verbosity is None
    &&& m.supports_parallel_tool_calls
    &&& !m.supports_image_detail_original
    &&& !m.include_skills_usage_instructions
    &&& !m.include_plugin_usage_instructions
    &&& m.context_window == Some(DEEPSEEK_CONTEXT_WINDOW)
    &&& m.max_context_window == Some(DEEPSEEK_CONTEXT_WINDOW)
    &&& m.comp_hash is None
    &&& m.effective_context_window_percent == 95
    &&& m.input_modalities@ == seq![InputModality::Text]
    &&& m.web_search_tool_type == WebSearchToolType::Text
    &&& m.supports_search_tool
    &&& m.multi_agent_version == Some(MultiAgentVersion::V2)
    &&& !m.used_fallback_model_metadata
}

/// The bundled metadata of the DeepSeek model.
pub fn deepseek_flash_model() -> (m: ModelInfo)
    ensures
        is_flash_model(m),
{
    let mut levels: Vec<ReasoningEffortPreset> = Vec::new();
    levels.push(
        ReasoningEffortPreset {
            effort: ReasoningEffort::High,
            description: String::from_str("Extra reasoning depth for complex problems"),
        },
    );
    levels.push(
        ReasoningEffortPreset {
            effort: ReasoningEffort::Max,
            description: String::from_str("Maximum reasoning depth for the hardest problems"),
        },
    );
    let mut modalities: Vec<InputModality> = Vec::new();
    modalities.push(InputModality::Text);
    assert(modalities@ =~= seq![InputModality::Text]);
    ModelInfo {
        slug: String::from_str(DEEPSEEK_DEFAULT_MODEL),
        display_name: String::from_str("DeepSeek-V4-Flash"),
        description: Some(String::from_str("DeepSeek's fast agentic coding model.")),
        default_reasoning_level: Some(ReasoningEffort::High),
        supported_reasoning_levels: levels,
        visibility: ModelVisibility::List,
        priority: 1,
        additional_speed_tiers: Vec::new(),
        service_tiers: Vec::new(),
        default_service_tier: None,
        availability_nux: None,
        upgrade: None,
        supports_reasoning_summary_parameter: false,
        support_verbosity: false,
        default_verbosity: None,
        supports_parallel_tool_calls: true,
        supports_image_detail_original: false,
        include_skills_usage_instructions: false,
        include_plugin_usage_instructions: false,
        context_window: Some(DEEPSEEK_CONTEXT_WINDOW),
        max_context_window: Some(DEEPSEEK_CONTEXT_WINDOW),
        comp_hash: None,
        effective_context_window_percent: 95,
        input_modalities: modalities,
        web_search_tool_type: WebSearchToolType::Text,
        supports_search_tool: true,
        multi_agent_version: Some(MultiAgentVersion::V2),
        used_fallback_model_metadata: false,
    }
}

/// The ids of a `/models` response that name the supported model.
pub open spec fn supported_count(ids: Seq<Seq<char>>) -> nat
    decreases ids.len(),
{
    if ids.len() == 0 {
        0
    } else {
        supported_count(ids.drop_last()) + if ids.last() == DEEPSEEK_DEFAULT_MODEL@ {
            1nat
        } else {
            0nat
        }
    }
}

/// The models offered by a `/models` response with the given model ids: one
/// DeepSeek-V4-Flash entry for each listing of `deepseek-v4-flash`; every other
/// model is dropped.
pub fn list_models(ids: &Vec<String>) -> (models: Vec<ModelInfo>)
    ensures
        models@.len() == supported_count(ids@.map_values(|s: String| s@)),
        forall|i: int| 0 <= i < models@.len() ==> is_flash_model(#[trigger] models@[i]),
{
    let ghost idv = ids@.map_values(|s: String| s@);
    let mut models: Vec<ModelInfo> = Vec::new();
    let mut i: usize = 0;
    assert(idv.take(0) =~= Seq::<Seq<char>>::empty());
    while i < ids.len()
        invariant
            i <= ids@.len(),
            idv == ids@.map_values(|s: String| s@),
            models@.len() == supported_count(idv.take(i as int)),
            forall|j: int| 0 <= j < models@.len() ==> is_flash_model(#[trigger] models@[j]),
        decreases ids@.len() - i,
    {
        assert(idv.take(i + 1).drop_last() =~= idv.take(i as int));
        assert(idv[i as int] == ids@[i as int]@);
        if str_eq(ids[i].as_str(), DEEPSEEK_DEFAULT_MODEL) {
            models.push(deepseek_flash_model());
        }
        i = i + 1;
    }
    assert(idv.take(i as int) =~= idv);
    models
}

/// Index of the first catalog entry, from `i` on, for the supported model.
pub open spec fn first_supported(c: Seq<ModelInfo>, i: int) -> Option<int>
    decreases c.len() - i,
{
    if i < 0 || i >= c.len() {
        None
    } else if c[i].slug@ == DEEPSEEK_DEFAULT_MODEL@ {
        Some(i)
    } else {
        first_supported(c, i + 1)
    }
}

/// Index of the first catalog entry for the supported model.
fn find_supported(catalog: &Vec<ModelInfo>) -> (r: Option<usize>)
    ensures
        match first_supported(catalog@, 0) {
            Some(i) => r == Some(i as usize) && 0 <= i < catalog@.len(),
            None => r is None,
        },
{
    let mut i: usize = 0;
    while i < catalog.len()
        invariant
            i <= catalog@.len(),
            first_supported(catalog@, 0) == first_supported(catalog@, i as int),
        decreases catalog@.len() - i,
    {
        if str_eq(catalog[i].slug.as_str(), DEEPSEEK_DEFAULT_MODEL) {
            return Some(i);
        }
        i = i + 1;
    }
    None
}

/// When to fetch the model list.
#[derive(Clone, Copy, PartialEq, Eq, Structural)]
pub enum RefreshStrategy {
    Online,
    Offline,
    OnlineIfUncached,
}

/// What a refresh of the model list did.
pub enum RefreshReport {
    /// The listed models replaced the known ones.
    Replaced,
    /// The response did not list the supported model; the known models stay.
    SupportedModelOmitted,
    /// The request failed, with its description; the known models stay.
    Failed(String),
}

/// The models DCode knows for the DeepSeek provider.
pub struct DeepSeekModels {
    models: Vec<ModelInfo>,
}

impl DeepSeekModels {
    /// The known models.
    pub closed spec fn models(&self) -> Seq<ModelInfo> {
        self.models@
    }

    /// The known models at start: the configured catalog's first entry for the
    /// supported model when there is one, otherwise the bundled metadata.
    pub fn new(config_model_catalog: Option<Vec<ModelInfo>>) -> (m: Self)
        ensures
            m.models().len() == 1,
            match config_model_catalog {
                Some(c) => match first_supported(c@, 0) {
                    Some(i) => m.models()[0] == c@[i],
                    None => is_flash_model(m.models()[0]),
                },
                None => is_flash_model(m.models()[0]),
            },
    {
        let mut models: Vec<ModelInfo> = Vec::new();
        match config_model_catalog {
            Some(mut catalog) => match find_supported(&catalog) {
                Some(k) => {
                    let entry = catalog.remove(k);
                    models.push(entry);
                },
                None => {
                    models.push(deepseek_flash_model());
                },
            },
            None => {
                models.push(deepseek_flash_model());
            },
        }
        DeepSeekModels { models }
    }

    /// The default model: always the supported model, whatever is configured.
    pub fn default_model(&self) -> (m: &'static str)
        ensures
            m == DEEPSEEK_DEFAULT_MODEL,
    {
        DEEPSEEK_DEFAULT_MODEL
    }

    /// Takes in the result of fetching the model list: a non-empty list
    /// replaces the known models; an empty list or a failure keeps them.
    pub fn refresh(&mut self, fetched: Result<Vec<ModelInfo>, String>) -> (report: RefreshReport)
        ensures
            match fetched {
                Ok(list) => if list@.len() > 0 {
                    final(self).models() == list@ && report is Replaced
                } else {
                    final(self).models() == old(self).models() && report is SupportedModelOmitted
                },
                Err(e) => final(self).models() == old(self).models() && (report matches RefreshReport::Failed(
                    d,
                ) && d == e),
            },
    {
        match fetched {
            Ok(list) => {
                if list.len() > 0 {
                    self.models = list;
                    RefreshReport::Replaced
                } else {
                    RefreshReport::SupportedModelOmitted
                }
            },
            Err(e) => RefreshReport::Failed(e),
        }
    }

    /// The known models.
    pub fn remote_models(&self) -> (m: &Vec<ModelInfo>)
        ensures
            m@ == self.models(),
    {
        &self.models
    }
}

/// Whether a model-catalog request with `strategy` fetches the list first.
pub fn should_refresh(strategy: RefreshStrategy) -> (r: bool)
    ensures
        r == (strategy != RefreshStrategy::Offline),
{
    strategy != RefreshStrategy::Offline
}

} // verus!
