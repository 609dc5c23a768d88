use vstd::prelude::*;
use vstd::string::*;
use crate::dto::ApiConfigurationResponse;
use crate::dto::ApiModelDefinitionResponse as ModelDto;
use crate::dto::ApiPipelineResponseDto as PipelineDto;
use crate::dto::ApiProviderResponse as ProviderDto;
use crate::dto::PipelinePluginConfigDto;
use crate::dto::PluginType;
use crate::dto::ProviderConfig;
use crate::gateway::keys_view;
use crate::gateway::lemma_keys_view_push;
use crate::gateway::lemma_models_view_push;
use crate::gateway::lemma_pipelines_view_push;
use crate::gateway::lemma_plugins_view_push;
use crate::gateway::lemma_providers_view_push;
use crate::gateway::models_view;
use crate::gateway::pipelines_view;
use crate::gateway::plugins_view;
use crate::gateway::providers_view;
use crate::gateway::GatewayConfig;
use crate::gateway::ModelConfig;
use crate::gateway::ModelConfigModel;
use crate::gateway::Pipeline;
use crate::gateway::PipelineModel;
use crate::gateway::PipelineType;
use crate::gateway::PluginConfig;
use crate::gateway::PluginConfigModel;
use crate::gateway::Provider;
use crate::gateway::ProviderModel;
use crate::json::json_get;
use crate::json::obj_get;
use crate::json::spec_as_str;
use crate::json::as_str_value;
use crate::json::json_text;
use crate::json::to_compact_text;
use crate::json::JsonValue;
use crate::secret_resolver::SecretError;
use crate::secret_resolver::SecretErrorModel;
use crate::secret_resolver::SecretResolver;
use crate::strutil::eq_ic;
use crate::strutil::eq_ignore_case;
use crate::strutil::pairs_map;
use crate::strutil::pairs_lookup;
use crate::dto::ApiModelDefinitionResponse;
use crate::dto::ApiPipelineResponseDto;
use crate::dto::ApiProviderResponse;
use crate::strutil::dec_val;
use crate::strutil::is_u64_text;
use crate::strutil::parse_u64_dec;
use crate::strutil::u64_text_digits;

verus! {

broadcast use vstd::seq::group_seq_axioms, vstd::seq_lib::group_seq_lib_default, vstd::std_specs::vec::group_vec_axioms;

/// Configuration of the remote-API client, built from named environment
/// variables by the caller at process start.
#[derive(Debug, Clone, PartialEq, Eq)]
pub struct ApiClientConfig {
    pub base_url: String,
    pub timeout_seconds: u64,
    pub auth_header: Option<String>,
    pub auth_value: Option<String>,
    pub providers_endpoint: Option<String>,
    pub models_endpoint: Option<String>,
    pub pipelines_endpoint: Option<String>,
    pub full_config_endpoint: Option<String>,
}

/// Why client configuration could not be built.
#[derive(Debug, Clone, PartialEq, Eq)]
pub enum ConfigError {
    /// The base URL is required; construction fails immediately without it.
    MissingBaseUrl,
}

/// The timeout rule: absent or unparsable values fall back to 30 seconds.
pub open spec fn spec_timeout_seconds(raw: Option<String>) -> u64 {
    match raw {
        Some(s) => {
            if is_u64_text(s@) && dec_val(u64_text_digits(s@)) <= u64::MAX {
                dec_val(u64_text_digits(s@)) as u64
            } else {
                30
            }
        },
        None => 30,
    }
}

impl ApiClientConfig {
    /// Builds the client configuration from the raw environment values the
    /// caller looked up; only the base URL is required.
    pub fn from_values(
        base_url: Option<String>,
        timeout_seconds: Option<String>,
        auth_header: Option<String>,
        auth_value: Option<String>,
        providers_endpoint: Option<String>,
        models_endpoint: Option<String>,
        pipelines_endpoint: Option<String>,
        full_config_endpoint: Option<String>,
    ) -> (r: Result<Self, ConfigError>)
        ensures
            r is Ok <==> base_url is Some,
            base_url is None ==> r == Err::<Self, ConfigError>(ConfigError::MissingBaseUrl),
            r is Ok ==> r->Ok_0 == (ApiClientConfig {
                base_url: base_url->0,
                timeout_seconds: spec_timeout_seconds(timeout_seconds),
                auth_header,
                auth_value,
                providers_endpoint,
                models_endpoint,
                pipelines_endpoint,
                full_config_endpoint,
            }),
    {
        let base_url = match base_url {
            Some(b) => b,
            None => {
                return Err(ConfigError::MissingBaseUrl);
            },
        };
        let timeout_seconds: u64 = match &timeout_seconds {
            Some(s) => {
                match parse_u64_dec(s.as_str()) {
                    Some(v) => v,
                    None => 30,
                }
            },
            None => 30,
        };
        Ok(ApiClientConfig {
            base_url,
            timeout_seconds,
            auth_header,
            auth_value,
            providers_endpoint,
            models_endpoint,
            pipelines_endpoint,
            full_config_endpoint,
        })
    }
}

/// A fatal retrieval failure, reported with the offending URL.
#[derive(Debug, Clone, PartialEq, Eq)]
pub enum FetchError {
    /// The transport could not complete the request.
    Transport { url: String, detail: String },
    /// The server answered with a non-success status.
    Status { url: String, status: u16, body_excerpt: String },
    /// The response body was not valid JSON for the expected shape.
    Decode { url: String, detail: String },
}

/// Success statuses, as HTTP defines them: the 2xx range.
pub fn status_is_success(status: u16) -> (r: bool)
    ensures
        r == (200 <= status && status < 300),
{
    200 <= status && status < 300
}

pub open spec fn spec_trim_end_slashes(s: Seq<char>) -> Seq<char>
    decreases s.len(),
{
    if s.len() > 0 && s.last() == '/' {
        spec_trim_end_slashes(s.drop_last())
    } else {
        s
    }
}

pub open spec fn spec_trim_start_slashes(s: Seq<char>) -> Seq<char>
    decreases s.len(),
{
    if s.len() > 0 && s[0] == '/' {
        spec_trim_start_slashes(s.drop_first())
    } else {
        s
    }
}

/// The joining rule: base and endpoint are joined with exactly one slash,
/// whatever trailing or leading slashes either carries.
pub open spec fn spec_join_url(base: Seq<char>, endpoint: Seq<char>) -> Seq<char> {
    spec_trim_end_slashes(base) + seq!['/'] + spec_trim_start_slashes(endpoint)
}

/// An endpoint that begins with a scheme prefix is used verbatim.
pub open spec fn spec_starts_with_http(s: Seq<char>) -> bool {
    s.len() >= 4 && s[0] == 'h' && s[1] == 't' && s[2] == 't' && s[3] == 'p'
}

/// The URL rule for the full-configuration endpoint: verbatim when it names
/// a scheme, otherwise joined to the base URL.
pub open spec fn spec_full_url(base: Seq<char>, endpoint: Seq<char>) -> Seq<char> {
    if spec_starts_with_http(endpoint) {
        endpoint
    } else {
        spec_join_url(base, endpoint)
    }
}

/// Joins `endpoint` to `base` with exactly one separating slash.
pub fn join_endpoint_url(base: &str, endpoint: &str) -> (r: String)
    ensures
        r@ == spec_join_url(base@, endpoint@),
{
    let bn = base.unicode_len();
    let mut i: usize = bn;
    proof {
        assert(base@.take(bn as int) =~= base@);
    }
    while i > 0 && base.get_char(i - 1) == '/'
        invariant
            i <= bn,
            bn == base@.len(),
            spec_trim_end_slashes(base@) == spec_trim_end_slashes(base@.take(i as int)),
        decreases i,
    {
        proof {
            assert(base@.take(i as int).last() == base@[i - 1]);
            assert(base@.take(i as int).drop_last() =~= base@.take(i as int - 1));
        }
        i = i - 1;
    }
    proof {
        if i > 0 {
            assert(base@.take(i as int).last() == base@[i - 1]);
        }
        assert(spec_trim_end_slashes(base@.take(i as int)) == base@.take(i as int));
    }
    let en = endpoint.unicode_len();
    let mut j: usize = 0;
    proof {
        assert(endpoint@.skip(0) =~= endpoint@);
    }
    while j < en && endpoint.get_char(j) == '/'
        invariant
            j <= en,
            en == endpoint@.len(),
            spec_trim_start_slashes(endpoint@) == spec_trim_start_slashes(
                endpoint@.skip(j as int),
            ),
        decreases en - j,
    {
        proof {
            assert(endpoint@.skip(j as int)[0] == endpoint@[j as int]);
            assert(endpoint@.skip(j as int).drop_first() =~= endpoint@.skip(j as int + 1));
        }
        j = j + 1;
    }
    proof {
        if j < en {
            assert(endpoint@.skip(j as int)[0] == endpoint@[j as int]);
        }
        assert(spec_trim_start_slashes(endpoint@.skip(j as int)) == endpoint@.skip(j as int));
    }
    let mut out = base.substring_char(0, i).to_owned();
    out.append("/");
    out.append(endpoint.substring_char(j, en));
    proof {
        reveal_strlit("/");
        assert("/"@ =~= seq!['/']);
        assert(base@.subrange(0, i as int) =~= base@.take(i as int));
        assert(endpoint@.subrange(j as int, en as int) =~= endpoint@.skip(j as int));
    }
    out
}

/// The URL the full-configuration fetch uses.
pub fn full_config_url(base: &str, endpoint: &str) -> (r: String)
    ensures
        r@ == spec_full_url(base@, endpoint@),
{
    let en = endpoint.unicode_len();
    let verbatim = en >= 4 && endpoint.get_char(0) == 'h' && endpoint.get_char(1) == 't'
        && endpoint.get_char(2) == 't' && endpoint.get_char(3) == 'p';
    if verbatim {
        endpoint.to_owned()
    } else {
        join_endpoint_url(base, endpoint)
    }
}

/// How one fetch cycle retrieves the configuration: one combined request, or
/// three per-resource requests issued concurrently.
#[derive(Debug, Clone, PartialEq, Eq)]
pub enum FetchPlan {
    Full { url: String },
    Separate { providers_url: String, models_url: String, pipelines_url: String },
}

/// The endpoint chosen for a resource: the configured override or the default
/// sub-path.
pub open spec fn spec_endpoint_or(configured: Option<String>, default: Seq<char>) -> Seq<char> {
    match configured {
        Some(e) => e@,
        None => default,
    }
}

/// Decides how the configuration is fetched: the full-configuration endpoint
/// when one is configured, otherwise the three per-resource endpoints with
/// their default sub-paths.
pub fn plan_fetch(config: &ApiClientConfig) -> (r: FetchPlan)
    ensures
        config.full_config_endpoint is Some ==> (r matches FetchPlan::Full { url } && url@
            == spec_full_url(config.base_url@, config.full_config_endpoint->0@)),
        config.full_config_endpoint is None ==> (r matches FetchPlan::Separate {
            providers_url,
            models_url,
            pipelines_url,
        } && providers_url@ == spec_join_url(
            config.base_url@,
            spec_endpoint_or(config.providers_endpoint, "providers"@),
        ) && models_url@ == spec_join_url(
            config.base_url@,
            spec_endpoint_or(config.models_endpoint, "models"@),
        ) && pipelines_url@ == spec_join_url(
            config.base_url@,
            spec_endpoint_or(config.pipelines_endpoint, "pipelines"@),
        )),
{
    match &config.full_config_endpoint {
        Some(endpoint) => FetchPlan::Full {
            url: full_config_url(config.base_url.as_str(), endpoint.as_str()),
        },
        None => {
            let providers_endpoint = match &config.providers_endpoint {
                Some(e) => e.as_str(),
                None => "providers",
            };
            let models_endpoint = match &config.models_endpoint {
                Some(e) => e.as_str(),
                None => "models",
            };
            let pipelines_endpoint = match &config.pipelines_endpoint {
                Some(e) => e.as_str(),
                None => "pipelines",
            };
            FetchPlan::Separate {
                providers_url: join_endpoint_url(config.base_url.as_str(), providers_endpoint),
                models_url: join_endpoint_url(config.base_url.as_str(), models_endpoint),
                pipelines_url: join_endpoint_url(config.base_url.as_str(), pipelines_endpoint),
            }
        },
    }
}

/// Joins the three concurrent per-resource results with all-or-nothing
/// semantics: the bundle when all three succeeded, otherwise the first
/// failure in providers, models, pipelines order, as the fail-fast join
/// observes it.
pub fn join_fetch_results(
    providers: Result<Vec<ApiProviderResponse>, FetchError>,
    models: Result<Vec<ApiModelDefinitionResponse>, FetchError>,
    pipelines: Result<Vec<ApiPipelineResponseDto>, FetchError>,
) -> (r: Result<ApiConfigurationResponse, FetchError>)
    ensures
        r is Ok <==> providers is Ok && models is Ok && pipelines is Ok,
        r is Ok ==> r->Ok_0 == (ApiConfigurationResponse {
            providers: providers->Ok_0,
            models: models->Ok_0,
            pipelines: pipelines->Ok_0,
            version: None,
            last_updated: None,
        }),
        providers is Err ==> r == Err::<ApiConfigurationResponse, FetchError>(providers->Err_0),
        providers is Ok && models is Err ==> r == Err::<ApiConfigurationResponse, FetchError>(
            models->Err_0,
        ),
        providers is Ok && models is Ok && pipelines is Err ==> r == Err::<
            ApiConfigurationResponse,
            FetchError,
        >(pipelines->Err_0),
{
    let providers = match providers {
        Ok(p) => p,
        Err(e) => {
            return Err(e);
        },
    };
    let models = match models {
        Ok(m) => m,
        Err(e) => {
            return Err(e);
        },
    };
    let pipelines = match pipelines {
        Ok(p) => p,
        Err(e) => {
            return Err(e);
        },
    };
    Ok(ApiConfigurationResponse { providers, models, pipelines, version: None, last_updated: None })
}


/// An entity-scoped transformation failure or warning; each is logged and the
/// entity skipped, never failing the transformation as a whole.
#[derive(Debug, Clone, PartialEq, Eq)]
pub enum TransformError {
    /// The provider's secret reference did not resolve; the provider and its
    /// dependent models are skipped.
    ProviderSecret { provider_key: String, cause: SecretError },
    /// A literal secret was marked encrypted: decryption is unimplemented and
    /// the value was used as-is (a warning, not a skip).
    EncryptedLiteralSecret { provider_key: String },
    /// The model references an external provider id with no successfully
    /// transformed provider.
    UnknownProviderReference { provider_id: String, model_key: String },
    /// The model's free-form configuration payload is neither an object nor
    /// null.
    ModelConfigNotObject { model_key: String },
    /// The pipeline kind is outside the closed supported set.
    UnsupportedPipelineType { pipeline_type: String },
    /// The model-router payload does not decode to its nested schema.
    MalformedModelRouterPayload,
    /// A tracing plugin lacks its required endpoint.
    MissingTracingEndpoint,
}

pub ghost enum TransformErrorModel {
    ProviderSecret { provider_key: Seq<char>, cause: SecretErrorModel },
    EncryptedLiteralSecret { provider_key: Seq<char> },
    UnknownProviderReference { provider_id: Seq<char>, model_key: Seq<char> },
    ModelConfigNotObject { model_key: Seq<char> },
    UnsupportedPipelineType { pipeline_type: Seq<char> },
    MalformedModelRouterPayload,
    MissingTracingEndpoint,
}

impl View for TransformError {
    type V = TransformErrorModel;

    open spec fn view(&self) -> TransformErrorModel {
        match self {
            TransformError::ProviderSecret { provider_key, cause } => (
                TransformErrorModel::ProviderSecret { provider_key: provider_key@, cause: cause@ }
            ),
            TransformError::EncryptedLiteralSecret { provider_key } => (
                TransformErrorModel::EncryptedLiteralSecret { provider_key: provider_key@ }
            ),
            TransformError::UnknownProviderReference { provider_id, model_key } => (
                TransformErrorModel::UnknownProviderReference {
                    provider_id: provider_id@,
                    model_key: model_key@,
                }
            ),
            TransformError::ModelConfigNotObject { model_key } => (
                TransformErrorModel::ModelConfigNotObject { model_key: model_key@ }
            ),
            TransformError::UnsupportedPipelineType { pipeline_type } => (
                TransformErrorModel::UnsupportedPipelineType { pipeline_type: pipeline_type@ }
            ),
            TransformError::MalformedModelRouterPayload => (
                TransformErrorModel::MalformedModelRouterPayload
            ),
            TransformError::MissingTracingEndpoint => TransformErrorModel::MissingTracingEndpoint,
        }
    }
}

/// View of a diagnostic log as a sequence of error models.
pub open spec fn diags_view(s: Seq<TransformError>) -> Seq<TransformErrorModel> {
    s.map_values(|e: TransformError| e@)
}

/// The parameter map a provider's typed configuration contributes beyond its
/// secret: provider-specific side-channel values.
pub open spec fn spec_provider_params(config: ProviderConfig) -> Seq<(Seq<char>, Seq<char>)> {
    match config {
        ProviderConfig::OpenAI(c) => {
            match c.organization_id {
                Some(org) => seq![("organization_id"@, org@)],
                None => Seq::empty(),
            }
        },
        ProviderConfig::Anthropic(c) => Seq::empty(),
    }
}

/// Whether the provider's embedded secret reference resolves.
pub open spec fn provider_resolves(resolver: SecretResolver, p: ProviderDto) -> bool {
    resolver.spec_resolve(p.config.spec_api_key()) is Ok
}

/// The internal provider a DTO transforms to: its name becomes the internal
/// key, its kind's wire name the type, its resolved secret the API key.
pub open spec fn spec_provider(resolver: SecretResolver, p: ProviderDto) -> ProviderModel {
    ProviderModel {
        key: p.name@,
        provider_type: p.provider_type.spec_name(),
        api_key: resolver.spec_resolve(p.config.spec_api_key())->Ok_0,
        params: spec_provider_params(p.config),
    }
}

/// How one JSON value is coerced to a parameter-map string: strings verbatim,
/// numbers by their canonical text, booleans by name, null as the empty
/// string, and structured values by their compact JSON text.
pub open spec fn spec_json_param_string(v: JsonValue) -> Seq<char> {
    match v {
        JsonValue::Str(s) => s@,
        JsonValue::Num { text, int_value } => text@,
        JsonValue::Bool(b) => if b {
            "true"@
        } else {
            "false"@
        },
        JsonValue::Null => Seq::empty(),
        _ => json_text(v),
    }
}

/// The parameter pairs of an object payload, coerced value by value.
pub open spec fn spec_obj_params(fields: Seq<(String, JsonValue)>) -> Seq<(Seq<char>, Seq<char>)> {
    fields.map_values(|f: (String, JsonValue)| (f.0@, spec_json_param_string(f.1)))
}

/// Appending a member appends its coerced pair.
pub proof fn lemma_obj_params_push(s: Seq<(String, JsonValue)>, x: (String, JsonValue))
    ensures
        spec_obj_params(s.push(x)) =~= spec_obj_params(s).push(
            (x.0@, spec_json_param_string(x.1)),
        ),
{
}

/// The parameter map of a model's free-form payload: objects coerced value by
/// value, null an empty map, anything else rejected.
pub open spec fn spec_model_params(v: JsonValue) -> Option<Seq<(Seq<char>, Seq<char>)>> {
    match v {
        JsonValue::Obj(fields) => Some(spec_obj_params(fields@)),
        JsonValue::Null => Some(Seq::empty()),
        _ => None,
    }
}

/// Whether a model DTO transforms under the given bridge map.
pub open spec fn model_ok(m: ModelDto, bridge: Map<Seq<char>, Seq<char>>) -> bool {
    bridge.contains_key(m.provider_id@) && spec_model_params(m.config_details) is Some
}

pub open spec fn spec_model(m: ModelDto, bridge: Map<Seq<char>, Seq<char>>) -> ModelConfigModel {
    ModelConfigModel {
        key: m.key@,
        model_type: m.model_type@,
        provider: bridge[m.provider_id@],
        params: spec_model_params(m.config_details)->Some_0,
    }
}

/// A string member of a JSON object, by name.
pub open spec fn spec_obj_get_str(v: JsonValue, name: Seq<char>) -> Option<Seq<char>> {
    match v {
        JsonValue::Obj(fields) => match json_get(fields@, name) {
            Some(m) => spec_as_str(m),
            None => None,
        },
        _ => None,
    }
}

/// A well-formed model-router entry: an object with a string `key` and an
/// integral `priority` in 32-bit range; yields the key.
pub open spec fn spec_router_entry(v: JsonValue) -> Option<Seq<char>> {
    match v {
        JsonValue::Obj(fields) => {
            let key = match json_get(fields@, "key"@) {
                Some(JsonValue::Str(s)) => Some(s@),
                _ => None,
            };
            let priority_ok = match json_get(fields@, "priority"@) {
                Some(JsonValue::Num { text, int_value }) => match int_value {
                    Some(p) => -0x8000_0000 <= p && p <= 0x7fff_ffff,
                    None => false,
                },
                _ => false,
            };
            if priority_ok {
                key
            } else {
                None
            }
        },
        _ => None,
    }
}

/// The keys of a model-router entry list, in order; `None` when any entry is
/// malformed.
pub open spec fn spec_router_keys(items: Seq<JsonValue>) -> Option<Seq<Seq<char>>>
    decreases items.len(),
{
    if items.len() == 0 {
        Some(Seq::empty())
    } else {
        match spec_router_keys(items.drop_last()) {
            Some(ks) => match spec_router_entry(items.last()) {
                Some(k) => Some(ks.push(k)),
                None => None,
            },
            None => None,
        }
    }
}

proof fn lemma_router_keys_bad(items: Seq<JsonValue>, i: int)
    requires
        0 <= i < items.len(),
        spec_router_entry(items[i]) is None,
    ensures
        spec_router_keys(items) is None,
    decreases items.len(),
{
    if i < items.len() - 1 {
        assert(items.drop_last()[i] == items[i]);
        lemma_router_keys_bad(items.drop_last(), i);
    }
}

/// What one plugin entry transforms to, or why it is dropped.
pub open spec fn spec_plugin(p: PipelinePluginConfigDto) -> Result<
    PluginConfigModel,
    TransformErrorModel,
> {
    match p.plugin_type {
        PluginType::ModelRouter => match p.config_data {
            JsonValue::Obj(fields) => match json_get(fields@, "models"@) {
                Some(JsonValue::Arr(items)) => match spec_router_keys(items@) {
                    Some(ks) => Ok(PluginConfigModel::ModelRouter { models: ks }),
                    None => Err(TransformErrorModel::MalformedModelRouterPayload),
                },
                _ => Err(TransformErrorModel::MalformedModelRouterPayload),
            },
            _ => Err(TransformErrorModel::MalformedModelRouterPayload),
        },
        PluginType::Logging => Ok(
            PluginConfigModel::Logging {
                level: match spec_obj_get_str(p.config_data, "level"@) {
                    Some(l) => l,
                    None => "warning"@,
                },
            },
        ),
        PluginType::Tracing => match spec_obj_get_str(p.config_data, "endpoint"@) {
            Some(ep) => Ok(
                PluginConfigModel::Tracing {
                    endpoint: ep,
                    api_key: match spec_obj_get_str(p.config_data, "api_key"@) {
                        Some(k) => k,
                        None => Seq::empty(),
                    },
                },
            ),
            None => Err(TransformErrorModel::MissingTracingEndpoint),
        },
    }
}

/// The plugins of a pipeline: enabled entries, in order, each transformed
/// independently, failing entries dropped.
pub open spec fn spec_pipeline_plugins(ps: Seq<PipelinePluginConfigDto>) -> Seq<PluginConfigModel>
    decreases ps.len(),
{
    if ps.len() == 0 {
        Seq::empty()
    } else {
        let rest = spec_pipeline_plugins(ps.drop_last());
        let p = ps.last();
        if p.enabled {
            match spec_plugin(p) {
                Ok(m) => rest.push(m),
                Err(e) => rest,
            }
        } else {
            rest
        }
    }
}

/// The diagnostics the plugin entries of one pipeline produce.
pub open spec fn spec_plugin_errors(ps: Seq<PipelinePluginConfigDto>) -> Seq<TransformErrorModel>
    decreases ps.len(),
{
    if ps.len() == 0 {
        Seq::empty()
    } else {
        let rest = spec_plugin_errors(ps.drop_last());
        let p = ps.last();
        if p.enabled {
            match spec_plugin(p) {
                Ok(m) => rest,
                Err(e) => rest.push(e),
            }
        } else {
            rest
        }
    }
}

/// The pipeline kind matched case-insensitively against the closed set.
pub open spec fn spec_pipeline_type(s: Seq<char>) -> Option<PipelineType> {
    if eq_ic(s, "chat"@) {
        Some(PipelineType::Chat)
    } else if eq_ic(s, "completion"@) {
        Some(PipelineType::Completion)
    } else if eq_ic(s, "embeddings"@) {
        Some(PipelineType::Embeddings)
    } else {
        None
    }
}

pub open spec fn spec_pipeline(p: PipelineDto) -> PipelineModel {
    PipelineModel {
        name: p.name@,
        pipeline_type: spec_pipeline_type(p.pipeline_type@)->0,
        plugins: spec_pipeline_plugins(p.plugins@),
    }
}

/// Internal providers from the DTO list: enabled entries whose secret
/// resolves, in their source order.
pub open spec fn spec_providers_out(resolver: SecretResolver, ps: Seq<ProviderDto>) -> Seq<
    ProviderModel,
>
    decreases ps.len(),
{
    if ps.len() == 0 {
        Seq::empty()
    } else {
        let rest = spec_providers_out(resolver, ps.drop_last());
        let p = ps.last();
        if p.enabled && provider_resolves(resolver, p) {
            rest.push(spec_provider(resolver, p))
        } else {
            rest
        }
    }
}

/// The bridge map: external provider id to internal key, for successfully
/// transformed providers only.
pub open spec fn spec_bridge(resolver: SecretResolver, ps: Seq<ProviderDto>) -> Map<
    Seq<char>,
    Seq<char>,
>
    decreases ps.len(),
{
    if ps.len() == 0 {
        Map::empty()
    } else {
        let rest = spec_bridge(resolver, ps.drop_last());
        let p = ps.last();
        if p.enabled && provider_resolves(resolver, p) {
            rest.insert(p.id@, p.name@)
        } else {
            rest
        }
    }
}

/// Diagnostics of the provider pass: an encrypted-literal warning, then a
/// skip error when the secret does not resolve, for each enabled provider.
pub open spec fn spec_provider_errors(resolver: SecretResolver, ps: Seq<ProviderDto>) -> Seq<
    TransformErrorModel,
>
    decreases ps.len(),
{
    if ps.len() == 0 {
        Seq::empty()
    } else {
        let rest = spec_provider_errors(resolver, ps.drop_last());
        let p = ps.last();
        if p.enabled {
            let with_warn = if SecretResolver::spec_encrypted_literal(p.config.spec_api_key()) {
                rest.push(TransformErrorModel::EncryptedLiteralSecret { provider_key: p.name@ })
            } else {
                rest
            };
            if !provider_resolves(resolver, p) {
                with_warn.push(
                    TransformErrorModel::ProviderSecret {
                        provider_key: p.name@,
                        cause: resolver.spec_resolve(p.config.spec_api_key())->Err_0,
                    },
                )
            } else {
                with_warn
            }
        } else {
            rest
        }
    }
}

/// Internal models from the DTO list under a bridge map: enabled entries with
/// a resolvable provider reference and a well-shaped payload, in order.
pub open spec fn spec_models_out(ms: Seq<ModelDto>, bridge: Map<Seq<char>, Seq<char>>) -> Seq<
    ModelConfigModel,
>
    decreases ms.len(),
{
    if ms.len() == 0 {
        Seq::empty()
    } else {
        let rest = spec_models_out(ms.drop_last(), bridge);
        let m = ms.last();
        if m.enabled && model_ok(m, bridge) {
            rest.push(spec_model(m, bridge))
        } else {
            rest
        }
    }
}

/// Diagnostics of the model pass: a dangling-reference or payload-shape error
/// for each enabled model that is skipped.
pub open spec fn spec_model_errors(ms: Seq<ModelDto>, bridge: Map<Seq<char>, Seq<char>>) -> Seq<
    TransformErrorModel,
>
    decreases ms.len(),
{
    if ms.len() == 0 {
        Seq::empty()
    } else {
        let rest = spec_model_errors(ms.drop_last(), bridge);
        let m = ms.last();
        if m.enabled && !model_ok(m, bridge) {
            if !bridge.contains_key(m.provider_id@) {
                rest.push(
                    TransformErrorModel::UnknownProviderReference {
                        provider_id: m.provider_id@,
                        model_key: m.key@,
                    },
                )
            } else {
                rest.push(TransformErrorModel::ModelConfigNotObject { model_key: m.key@ })
            }
        } else {
            rest
        }
    }
}

/// Internal pipelines from the DTO list: enabled entries with a supported
/// kind, in order.
pub open spec fn spec_pipelines_out(ps: Seq<PipelineDto>) -> Seq<PipelineModel>
    decreases ps.len(),
{
    if ps.len() == 0 {
        Seq::empty()
    } else {
        let rest = spec_pipelines_out(ps.drop_last());
        let p = ps.last();
        if p.enabled && spec_pipeline_type(p.pipeline_type@) is Some {
            rest.push(spec_pipeline(p))
        } else {
            rest
        }
    }
}

/// Diagnostics of the pipeline pass: an unsupported-kind error for a skipped
/// pipeline, otherwise the diagnostics of its plugin entries.
pub open spec fn spec_pipeline_errors(ps: Seq<PipelineDto>) -> Seq<TransformErrorModel>
    decreases ps.len(),
{
    if ps.len() == 0 {
        Seq::empty()
    } else {
        let rest = spec_pipeline_errors(ps.drop_last());
        let p = ps.last();
        if p.enabled {
            if spec_pipeline_type(p.pipeline_type@) is None {
                rest.push(
                    TransformErrorModel::UnsupportedPipelineType { pipeline_type: p.pipeline_type@ },
                )
            } else {
                rest + spec_plugin_errors(p.plugins@)
            }
        } else {
            rest
        }
    }
}


/// A string member of a JSON object, cloned out; `None` when the value is
/// absent, not a string, or the payload is not an object.
fn get_str_field(v: &JsonValue, name: &str) -> (r: Option<String>)
    ensures
        r is Some <==> spec_obj_get_str(*v, name@) is Some,
        r is Some ==> r->0@ == spec_obj_get_str(*v, name@)->0,
{
    match v {
        JsonValue::Obj(fields) => match obj_get(fields, name) {
            Some(m) => as_str_value(m),
            None => None,
        },
        _ => None,
    }
}

/// The fetch-and-transform service: the client configuration and the secret
/// resolver the transformation consults.
pub struct ApiConfigProviderService {
    pub config: ApiClientConfig,
    pub secret_resolver: SecretResolver,
}

impl ApiConfigProviderService {
    /// Builds the service from its configuration and the environment snapshot
    /// secrets are resolved against.
    pub fn new(config: ApiClientConfig, env: Vec<(String, String)>) -> (r: Self)
        ensures
            r.config == config,
            r.secret_resolver.env == env,
    {
        ApiConfigProviderService { config, secret_resolver: SecretResolver::new(env) }
    }

    /// Decides how this service's configuration is fetched.
    pub fn fetch_plan(&self) -> (r: FetchPlan)
        ensures
            self.config.full_config_endpoint is Some ==> (r matches FetchPlan::Full { url }
                && url@ == spec_full_url(
                self.config.base_url@,
                self.config.full_config_endpoint->0@,
            )),
            self.config.full_config_endpoint is None ==> (r matches FetchPlan::Separate {
                providers_url,
                models_url,
                pipelines_url,
            } && providers_url@ == spec_join_url(
                self.config.base_url@,
                spec_endpoint_or(self.config.providers_endpoint, "providers"@),
            ) && models_url@ == spec_join_url(
                self.config.base_url@,
                spec_endpoint_or(self.config.models_endpoint, "models"@),
            ) && pipelines_url@ == spec_join_url(
                self.config.base_url@,
                spec_endpoint_or(self.config.pipelines_endpoint, "pipelines"@),
            )),
    {
        plan_fetch(&self.config)
    }

    /// Coerces one JSON value to its parameter-map string form.
    pub fn convert_json_value_to_string(&self, json_value: &JsonValue) -> (r: String)
        ensures
            r@ == spec_json_param_string(*json_value),
    {
        match json_value {
            JsonValue::Str(s) => s.clone(),
            JsonValue::Num { text, int_value } => text.clone(),
            JsonValue::Bool(b) => {
                if *b {
                    String::from_str("true")
                } else {
                    String::from_str("false")
                }
            },
            JsonValue::Null => String::new(),
            _ => to_compact_text(json_value),
        }
    }

    /// Transforms one provider DTO: resolves its secret and attaches its
    /// side-channel parameters; a resolution failure skips the provider.
    pub fn transform_provider_dto(&self, dto: &ProviderDto) -> (r: Result<
        Provider,
        TransformError,
    >)
        ensures
            r is Ok <==> provider_resolves(self.secret_resolver, *dto),
            r is Ok ==> r->Ok_0@ == spec_provider(self.secret_resolver, *dto),
            r is Err ==> r->Err_0@ == (TransformErrorModel::ProviderSecret {
                provider_key: dto.name@,
                cause: self.secret_resolver.spec_resolve(dto.config.spec_api_key())->Err_0,
            }),
    {
        let mut params: Vec<(String, String)> = Vec::new();
        let resolved = match &dto.config {
            ProviderConfig::OpenAI(c) => {
                if let Some(org) = &c.organization_id {
                    params.push((String::from_str("organization_id"), org.clone()));
                }
                self.secret_resolver.resolve_secret(&c.api_key)
            },
            ProviderConfig::Anthropic(c) => self.secret_resolver.resolve_secret(&c.api_key),
        };
        let api_key = match resolved {
            Ok(v) => v,
            Err(cause) => {
                return Err(TransformError::ProviderSecret { provider_key: dto.name.clone(), cause });
            },
        };
        let provider = Provider {
            key: dto.name.clone(),
            provider_type: dto.provider_type.as_str().to_owned(),
            api_key,
            params,
        };
        proof {
            assert(provider@.params =~= spec_provider_params(dto.config));
        }
        Ok(provider)
    }

    /// Transforms one model DTO under the bridge map: resolves the provider
    /// reference and coerces the free-form payload into string parameters.
    pub fn transform_model_dto(
        &self,
        dto: &ModelDto,
        provider_api_id_to_key_map: &Vec<(String, String)>,
    ) -> (r: Result<ModelConfig, TransformError>)
        ensures
            r is Ok <==> model_ok(*dto, pairs_map(provider_api_id_to_key_map@)),
            r is Ok ==> r->Ok_0@ == spec_model(*dto, pairs_map(provider_api_id_to_key_map@)),
            r is Err ==> r->Err_0@ == (if !pairs_map(provider_api_id_to_key_map@).contains_key(
                dto.provider_id@,
            ) {
                TransformErrorModel::UnknownProviderReference {
                    provider_id: dto.provider_id@,
                    model_key: dto.key@,
                }
            } else {
                TransformErrorModel::ModelConfigNotObject { model_key: dto.key@ }
            }),
    {
        let provider_key = match pairs_lookup(provider_api_id_to_key_map, dto.provider_id.as_str()) {
            Some(k) => k,
            None => {
                return Err(TransformError::UnknownProviderReference {
                    provider_id: dto.provider_id.clone(),
                    model_key: dto.key.clone(),
                });
            },
        };
        let mut params: Vec<(String, String)> = Vec::new();
        match &dto.config_details {
            JsonValue::Obj(fields) => {
                let mut i: usize = 0;
                while i < fields.len()
                    invariant
                        i <= fields.len(),
                        params@.len() == i,
                        crate::gateway::params_view(params@) == spec_obj_params(
                            fields@.take(i as int),
                        ),
                    decreases fields.len() - i,
                {
                    let ghost prev = params@;
                    let value = self.convert_json_value_to_string(&fields[i].1);
                    let key = fields[i].0.clone();
                    let ghost pushed = (key, value);
                    params.push((key, value));
                    proof {
                        crate::gateway::lemma_params_view_push(prev, pushed);
                        assert(fields@.take(i as int + 1) =~= fields@.take(i as int).push(
                            fields@[i as int],
                        ));
                        lemma_obj_params_push(fields@.take(i as int), fields@[i as int]);
                        assert((pushed.0@, pushed.1@) == (
                            fields@[i as int].0@,
                            spec_json_param_string(fields@[i as int].1),
                        ));
                        assert(crate::gateway::params_view(params@) =~= spec_obj_params(
                            fields@.take(i as int + 1),
                        ));
                    }
                    i = i + 1;
                }
                proof {
                    assert(fields@.take(fields@.len() as int) =~= fields@);
                }
            },
            JsonValue::Null => {},
            _ => {
                return Err(TransformError::ModelConfigNotObject { model_key: dto.key.clone() });
            },
        }
        let model = ModelConfig {
            key: dto.key.clone(),
            model_type: dto.model_type.clone(),
            provider: provider_key,
            params,
        };
        proof {
            assert(model@.params =~= spec_model_params(dto.config_details)->Some_0);
        }
        Ok(model)
    }
}


/// Appending a diagnostic appends its model.
pub proof fn lemma_diags_view_push(s: Seq<TransformError>, x: TransformError)
    ensures
        diags_view(s.push(x)) =~= diags_view(s).push(x@),
{
}

impl ApiConfigProviderService {
    /// Decodes one plugin entry by its kind tag: the model-router schema's
    /// keys (priorities dropped), a logging level defaulting to "warning",
    /// or a tracing endpoint with optional API key.
    pub fn transform_plugin_dto(dto: &PipelinePluginConfigDto) -> (r: Result<
        PluginConfig,
        TransformError,
    >)
        ensures
            spec_plugin(*dto) is Ok ==> r is Ok && r->Ok_0@ == spec_plugin(*dto)->Ok_0,
            spec_plugin(*dto) is Err ==> r is Err && r->Err_0@ == spec_plugin(*dto)->Err_0,
    {
        match dto.plugin_type {
            PluginType::ModelRouter => {
                match &dto.config_data {
                    JsonValue::Obj(fields) => {
                        match obj_get(fields, "models") {
                            Some(models_val) => {
                                match models_val {
                                    JsonValue::Arr(items) => {
                                        let mut keys: Vec<String> = Vec::new();
                                        let mut i: usize = 0;
                                        proof {
                                            assert(items@.take(0) =~= Seq::<JsonValue>::empty());
                                            assert(keys_view(keys@) =~= Seq::<Seq<char>>::empty());
                                        }
                                        while i < items.len()
                                            invariant
                                                i <= items@.len(),
                                                dto.plugin_type == PluginType::ModelRouter,
                                                dto.config_data == JsonValue::Obj(*fields),
                                                json_get(fields@, "models"@) == Some(
                                                    JsonValue::Arr(*items),
                                                ),
                                                spec_router_keys(items@.take(i as int)) == Some(
                                                    keys_view(keys@),
                                                ),
                                            decreases items@.len() - i,
                                        {
                                            proof {
                                                assert(items@.take(i as int + 1).drop_last()
                                                    =~= items@.take(i as int));
                                                assert(items@.take(i as int + 1).last()
                                                    == items@[i as int]);
                                            }
                                            let entry = &items[i];
                                            let entry_key: Option<String> = match entry {
                                                JsonValue::Obj(efields) => {
                                                    let k = match obj_get(efields, "key") {
                                                        Some(JsonValue::Str(ks)) => Some(
                                                            ks.clone(),
                                                        ),
                                                        _ => None,
                                                    };
                                                    let priority_ok = match obj_get(
                                                        efields,
                                                        "priority",
                                                    ) {
                                                        Some(JsonValue::Num {
                                                            text,
                                                            int_value,
                                                        }) => match int_value {
                                                            Some(p) => *p >= -2147483648i64 && *p
                                                                <= 2147483647i64,
                                                            None => false,
                                                        },
                                                        _ => false,
                                                    };
                                                    if priority_ok {
                                                        k
                                                    } else {
                                                        None
                                                    }
                                                },
                                                _ => None,
                                            };
                                            match entry_key {
                                                Some(k) => {
                                                    let ghost prev = keys@;
                                                    let ghost kv = k@;
                                                    keys.push(k);
                                                    proof {
                                                        lemma_keys_view_push(prev, keys@.last());
                                                        assert(keys_view(keys@) =~= keys_view(
                                                            prev,
                                                        ).push(kv));
                                                    }
                                                },
                                                None => {
                                                    proof {
                                                        lemma_router_keys_bad(items@, i as int);
                                                    }
                                                    return Err(
                                                        TransformError::MalformedModelRouterPayload,
                                                    );
                                                },
                                            }
                                            i = i + 1;
                                        }
                                        proof {
                                            assert(items@.take(items@.len() as int) =~= items@);
                                        }
                                        Ok(PluginConfig::ModelRouter { models: keys })
                                    },
                                    _ => Err(TransformError::MalformedModelRouterPayload),
                                }
                            },
                            None => Err(TransformError::MalformedModelRouterPayload),
                        }
                    },
                    _ => Err(TransformError::MalformedModelRouterPayload),
                }
            },
            PluginType::Logging => {
                let level = match get_str_field(&dto.config_data, "level") {
                    Some(l) => l,
                    None => String::from_str("warning"),
                };
                Ok(PluginConfig::Logging { level })
            },
            PluginType::Tracing => {
                match get_str_field(&dto.config_data, "endpoint") {
                    Some(endpoint) => {
                        let api_key = match get_str_field(&dto.config_data, "api_key") {
                            Some(k) => k,
                            None => String::new(),
                        };
                        Ok(PluginConfig::Tracing { endpoint, api_key })
                    },
                    None => Err(TransformError::MissingTracingEndpoint),
                }
            },
        }
    }

    /// Transforms one pipeline DTO: matches its kind case-insensitively
    /// against the closed set, then transforms its enabled plugin entries in
    /// order, dropping failing entries and recording a diagnostic for each.
    pub fn transform_pipeline_dto(
        dto: &PipelineDto,
        diagnostics: &mut Vec<TransformError>,
    ) -> (r: Result<Pipeline, TransformError>)
        ensures
            spec_pipeline_type(dto.pipeline_type@) is None ==> r is Err && r->Err_0@ == (
            TransformErrorModel::UnsupportedPipelineType { pipeline_type: dto.pipeline_type@ })
                && final(diagnostics)@ == old(diagnostics)@,
            spec_pipeline_type(dto.pipeline_type@) is Some ==> r is Ok && r->Ok_0@
                == spec_pipeline(*dto) && diags_view(final(diagnostics)@) == diags_view(
                old(diagnostics)@,
            ) + spec_plugin_errors(dto.plugins@),
    {
        let pipeline_type = if eq_ignore_case(dto.pipeline_type.as_str(), "chat") {
            PipelineType::Chat
        } else if eq_ignore_case(dto.pipeline_type.as_str(), "completion") {
            PipelineType::Completion
        } else if eq_ignore_case(dto.pipeline_type.as_str(), "embeddings") {
            PipelineType::Embeddings
        } else {
            return Err(TransformError::UnsupportedPipelineType {
                pipeline_type: dto.pipeline_type.clone(),
            });
        };
        let mut core_plugins: Vec<PluginConfig> = Vec::new();
        let mut i: usize = 0;
        proof {
            assert(dto.plugins@.take(0) =~= Seq::<PipelinePluginConfigDto>::empty());
            assert(plugins_view(core_plugins@) =~= Seq::<PluginConfigModel>::empty());
            assert(diags_view(diagnostics@) =~= diags_view(old(diagnostics)@) + Seq::<
                TransformErrorModel,
            >::empty());
        }
        while i < dto.plugins.len()
            invariant
                i <= dto.plugins@.len(),
                plugins_view(core_plugins@) == spec_pipeline_plugins(dto.plugins@.take(i as int)),
                diags_view(diagnostics@) == diags_view(old(diagnostics)@) + spec_plugin_errors(
                    dto.plugins@.take(i as int),
                ),
            decreases dto.plugins@.len() - i,
        {
            proof {
                assert(dto.plugins@.take(i as int + 1).drop_last() =~= dto.plugins@.take(
                    i as int,
                ));
                assert(dto.plugins@.take(i as int + 1).last() == dto.plugins@[i as int]);
            }
            let p = &dto.plugins[i];
            if p.enabled {
                match Self::transform_plugin_dto(p) {
                    Ok(cp) => {
                        let ghost prev = core_plugins@;
                        let ghost cpv = cp@;
                        core_plugins.push(cp);
                        proof {
                            lemma_plugins_view_push(prev, core_plugins@.last());
                            assert(plugins_view(core_plugins@) =~= plugins_view(prev).push(cpv));
                        }
                    },
                    Err(e) => {
                        let ghost prevd = diagnostics@;
                        let ghost ev = e@;
                        diagnostics.push(e);
                        proof {
                            lemma_diags_view_push(prevd, diagnostics@.last());
                            assert(diags_view(diagnostics@) =~= diags_view(old(diagnostics)@)
                                + spec_plugin_errors(dto.plugins@.take(i as int)).push(ev));
                        }
                    },
                }
            }
            i = i + 1;
        }
        proof {
            assert(dto.plugins@.take(dto.plugins@.len() as int) =~= dto.plugins@);
        }
        Ok(Pipeline { name: dto.name.clone(), pipeline_type, plugins: core_plugins })
    }

    /// Transforms the fetched bundle into the internal graph: providers
    /// first, building the external-id bridge map, then models resolved
    /// through it, then pipelines. Transformation never fails as a whole:
    /// each failing entity is skipped and recorded in the returned
    /// diagnostic log.
    pub fn transform_api_response_to_gateway_config(
        &self,
        api_response: &ApiConfigurationResponse,
    ) -> (r: (GatewayConfig, Vec<TransformError>))
        ensures
            r.0@.providers == spec_providers_out(self.secret_resolver, api_response.providers@),
            r.0@.models == spec_models_out(
                api_response.models@,
                spec_bridge(self.secret_resolver, api_response.providers@),
            ),
            r.0@.pipelines == spec_pipelines_out(api_response.pipelines@),
            diags_view(r.1@) == spec_provider_errors(self.secret_resolver, api_response.providers@)
                + spec_model_errors(
                api_response.models@,
                spec_bridge(self.secret_resolver, api_response.providers@),
            ) + spec_pipeline_errors(api_response.pipelines@),
    {
        let ghost resolver = self.secret_resolver;
        let mut providers_out: Vec<Provider> = Vec::new();
        let mut bridge: Vec<(String, String)> = Vec::new();
        let mut diagnostics: Vec<TransformError> = Vec::new();
        let ps = &api_response.providers;
        let mut i: usize = 0;
        proof {
            assert(ps@.take(0) =~= Seq::<ProviderDto>::empty());
            assert(providers_view(providers_out@) =~= Seq::<ProviderModel>::empty());
            assert(pairs_map(bridge@) =~= Map::<Seq<char>, Seq<char>>::empty());
            assert(diags_view(diagnostics@) =~= Seq::<TransformErrorModel>::empty());
        }
        while i < ps.len()
            invariant
                i <= ps@.len(),
                resolver == self.secret_resolver,
                providers_view(providers_out@) == spec_providers_out(resolver, ps@.take(i as int)),
                pairs_map(bridge@) == spec_bridge(resolver, ps@.take(i as int)),
                diags_view(diagnostics@) == spec_provider_errors(resolver, ps@.take(i as int)),
            decreases ps@.len() - i,
        {
            proof {
                assert(ps@.take(i as int + 1).drop_last() =~= ps@.take(i as int));
                assert(ps@.take(i as int + 1).last() == ps@[i as int]);
            }
            let p = &ps[i];
            if p.enabled {
                if SecretResolver::is_encrypted_literal(p.config.api_key()) {
                    let ghost prevd = diagnostics@;
                    diagnostics.push(TransformError::EncryptedLiteralSecret {
                        provider_key: p.name.clone(),
                    });
                    proof {
                        lemma_diags_view_push(prevd, diagnostics@.last());
                    }
                }
                match self.transform_provider_dto(p) {
                    Ok(core_provider) => {
                        let ghost prevb = bridge@;
                        let ghost prevp = providers_out@;
                        let ghost corev = core_provider@;
                        bridge.push((p.id.clone(), core_provider.key.clone()));
                        providers_out.push(core_provider);
                        proof {
                            assert(bridge@.drop_last() =~= prevb);
                            lemma_providers_view_push(prevp, providers_out@.last());
                            assert(providers_view(providers_out@) =~= providers_view(prevp).push(
                                corev,
                            ));
                        }
                    },
                    Err(e) => {
                        let ghost prevd = diagnostics@;
                        diagnostics.push(e);
                        proof {
                            lemma_diags_view_push(prevd, diagnostics@.last());
                        }
                    },
                }
            }
            i = i + 1;
        }
        proof {
            assert(ps@.take(ps@.len() as int) =~= ps@);
        }
        let ghost bridge_map = spec_bridge(resolver, ps@);
        let ghost provider_diags = spec_provider_errors(resolver, ps@);
        let mut models_out: Vec<ModelConfig> = Vec::new();
        let ms = &api_response.models;
        let mut j: usize = 0;
        proof {
            assert(ms@.take(0) =~= Seq::<ModelDto>::empty());
            assert(models_view(models_out@) =~= Seq::<ModelConfigModel>::empty());
            assert(diags_view(diagnostics@) =~= provider_diags + spec_model_errors(
                ms@.take(0),
                bridge_map,
            ));
        }
        while j < ms.len()
            invariant
                j <= ms@.len(),
                pairs_map(bridge@) == bridge_map,
                models_view(models_out@) == spec_models_out(ms@.take(j as int), bridge_map),
                diags_view(diagnostics@) == provider_diags + spec_model_errors(
                    ms@.take(j as int),
                    bridge_map,
                ),
            decreases ms@.len() - j,
        {
            proof {
                assert(ms@.take(j as int + 1).drop_last() =~= ms@.take(j as int));
                assert(ms@.take(j as int + 1).last() == ms@[j as int]);
            }
            let m = &ms[j];
            if m.enabled {
                match self.transform_model_dto(m, &bridge) {
                    Ok(core_model) => {
                        let ghost prevm = models_out@;
                        let ghost corev = core_model@;
                        models_out.push(core_model);
                        proof {
                            lemma_models_view_push(prevm, models_out@.last());
                            assert(models_view(models_out@) =~= models_view(prevm).push(corev));
                        }
                    },
                    Err(e) => {
                        let ghost prevd = diagnostics@;
                        let ghost ev = e@;
                        diagnostics.push(e);
                        proof {
                            lemma_diags_view_push(prevd, diagnostics@.last());
                            assert(diags_view(diagnostics@) =~= provider_diags + spec_model_errors(
                                ms@.take(j as int),
                                bridge_map,
                            ).push(ev));
                        }
                    },
                }
            }
            j = j + 1;
        }
        proof {
            assert(ms@.take(ms@.len() as int) =~= ms@);
        }
        let ghost model_diags = spec_model_errors(ms@, bridge_map);
        let mut pipelines_out: Vec<Pipeline> = Vec::new();
        let pls = &api_response.pipelines;
        let mut k: usize = 0;
        proof {
            assert(pls@.take(0) =~= Seq::<PipelineDto>::empty());
            assert(pipelines_view(pipelines_out@) =~= Seq::<PipelineModel>::empty());
            assert(diags_view(diagnostics@) =~= provider_diags + model_diags
                + spec_pipeline_errors(pls@.take(0)));
        }
        while k < pls.len()
            invariant
                k <= pls@.len(),
                pipelines_view(pipelines_out@) == spec_pipelines_out(pls@.take(k as int)),
                diags_view(diagnostics@) == provider_diags + model_diags + spec_pipeline_errors(
                    pls@.take(k as int),
                ),
            decreases pls@.len() - k,
        {
            proof {
                assert(pls@.take(k as int + 1).drop_last() =~= pls@.take(k as int));
                assert(pls@.take(k as int + 1).last() == pls@[k as int]);
            }
            let pl = &pls[k];
            if pl.enabled {
                match Self::transform_pipeline_dto(pl, &mut diagnostics) {
                    Ok(core_pipeline) => {
                        let ghost prevp = pipelines_out@;
                        let ghost corev = core_pipeline@;
                        pipelines_out.push(core_pipeline);
                        proof {
                            lemma_pipelines_view_push(prevp, pipelines_out@.last());
                            assert(pipelines_view(pipelines_out@) =~= pipelines_view(prevp).push(
                                corev,
                            ));
                            assert(diags_view(diagnostics@) =~= provider_diags + model_diags
                                + (spec_pipeline_errors(pls@.take(k as int)) + spec_plugin_errors(
                                pls@[k as int].plugins@,
                            )));
                        }
                    },
                    Err(e) => {
                        let ghost prevd2 = diagnostics@;
                        let ghost ev = e@;
                        diagnostics.push(e);
                        proof {
                            lemma_diags_view_push(prevd2, diagnostics@.last());
                            assert(diags_view(diagnostics@) =~= provider_diags + model_diags
                                + spec_pipeline_errors(pls@.take(k as int)).push(ev));
                        }
                    },
                }
            }
            k = k + 1;
        }
        proof {
            assert(pls@.take(pls@.len() as int) =~= pls@);
        }
        let gateway_config = GatewayConfig {
            providers: providers_out,
            models: models_out,
            pipelines: pipelines_out,
        };
        (gateway_config, diagnostics)
    }
}


/// The number of enabled providers whose secret resolves.
pub open spec fn count_enabled_resolvable(resolver: SecretResolver, ps: Seq<ProviderDto>) -> int
    decreases ps.len(),
{
    if ps.len() == 0 {
        0
    } else {
        count_enabled_resolvable(resolver, ps.drop_last()) + (
        if ps.last().enabled && provider_resolves(resolver, ps.last()) {
            1int
        } else {
            0int
        })
    }
}

/// The index of the source entry that internal provider `i` arises from.
pub open spec fn provider_source_index(resolver: SecretResolver, ps: Seq<ProviderDto>, i: int) -> int
    decreases ps.len(),
{
    if ps.len() == 0 {
        0
    } else if ps.last().enabled && provider_resolves(resolver, ps.last()) && i
        == spec_providers_out(resolver, ps).len() - 1 {
        ps.len() - 1
    } else {
        provider_source_index(resolver, ps.drop_last(), i)
    }
}

/// Each internal provider arises from the enabled, resolvable source entry
/// that `provider_source_index` names.
pub proof fn lemma_provider_member(resolver: SecretResolver, ps: Seq<ProviderDto>, i: int)
    requires
        0 <= i < spec_providers_out(resolver, ps).len(),
    ensures
        0 <= provider_source_index(resolver, ps, i) < ps.len(),
        ps[provider_source_index(resolver, ps, i)].enabled,
        provider_resolves(resolver, ps[provider_source_index(resolver, ps, i)]),
        spec_providers_out(resolver, ps)[i] == spec_provider(
            resolver,
            ps[provider_source_index(resolver, ps, i)],
        ),
    decreases ps.len(),
{
    if !(ps.last().enabled && provider_resolves(resolver, ps.last()) && i == spec_providers_out(
        resolver,
        ps,
    ).len() - 1) {
        lemma_provider_member(resolver, ps.drop_last(), i);
        assert(ps.drop_last()[provider_source_index(resolver, ps.drop_last(), i)] == ps[
            provider_source_index(resolver, ps, i)]);
    }
}

/// The internal provider count equals the count of enabled providers with a
/// resolvable secret; with `lemma_provider_member`, disabled or unresolvable
/// providers never appear.
pub proof fn lemma_provider_count(resolver: SecretResolver, ps: Seq<ProviderDto>)
    ensures
        spec_providers_out(resolver, ps).len() == count_enabled_resolvable(resolver, ps),
    decreases ps.len(),
{
    if ps.len() > 0 {
        lemma_provider_count(resolver, ps.drop_last());
    }
}

/// The index of the internal provider whose key a bridge entry names.
pub open spec fn bridge_provider_index(
    resolver: SecretResolver,
    ps: Seq<ProviderDto>,
    k: Seq<char>,
) -> int
    decreases ps.len(),
{
    if ps.len() == 0 {
        0
    } else if ps.last().enabled && provider_resolves(resolver, ps.last()) && k == ps.last().id@ {
        spec_providers_out(resolver, ps).len() - 1
    } else {
        bridge_provider_index(resolver, ps.drop_last(), k)
    }
}

/// Every value in the bridge map is the key of the internal provider that
/// `bridge_provider_index` names.
pub proof fn lemma_bridge_to_providers(resolver: SecretResolver, ps: Seq<ProviderDto>, k: Seq<char>)
    requires
        spec_bridge(resolver, ps).contains_key(k),
    ensures
        0 <= bridge_provider_index(resolver, ps, k) < spec_providers_out(resolver, ps).len(),
        spec_providers_out(resolver, ps)[bridge_provider_index(resolver, ps, k)].key == spec_bridge(
            resolver,
            ps,
        )[k],
    decreases ps.len(),
{
    if !(ps.last().enabled && provider_resolves(resolver, ps.last()) && k == ps.last().id@) {
        lemma_bridge_to_providers(resolver, ps.drop_last(), k);
        assert(spec_providers_out(resolver, ps.drop_last())[bridge_provider_index(
            resolver,
            ps.drop_last(),
            k,
        )] == spec_providers_out(resolver, ps)[bridge_provider_index(resolver, ps, k)]);
    }
}

/// The index of the source entry that internal model `i` arises from.
pub open spec fn model_source_index(
    ms: Seq<ModelDto>,
    bridge: Map<Seq<char>, Seq<char>>,
    i: int,
) -> int
    decreases ms.len(),
{
    if ms.len() == 0 {
        0
    } else if ms.last().enabled && model_ok(ms.last(), bridge) && i == spec_models_out(
        ms,
        bridge,
    ).len() - 1 {
        ms.len() - 1
    } else {
        model_source_index(ms.drop_last(), bridge, i)
    }
}

/// Each internal model arises from the enabled source model that
/// `model_source_index` names, whose external provider reference is in the
/// bridge map: models referencing a provider that did not transform are
/// absent.
pub proof fn lemma_model_member(ms: Seq<ModelDto>, bridge: Map<Seq<char>, Seq<char>>, i: int)
    requires
        0 <= i < spec_models_out(ms, bridge).len(),
    ensures
        0 <= model_source_index(ms, bridge, i) < ms.len(),
        ms[model_source_index(ms, bridge, i)].enabled,
        model_ok(ms[model_source_index(ms, bridge, i)], bridge),
        spec_models_out(ms, bridge)[i] == spec_model(ms[model_source_index(ms, bridge, i)], bridge),
    decreases ms.len(),
{
    if !(ms.last().enabled && model_ok(ms.last(), bridge) && i == spec_models_out(
        ms,
        bridge,
    ).len() - 1) {
        lemma_model_member(ms.drop_last(), bridge, i);
        assert(ms.drop_last()[model_source_index(ms.drop_last(), bridge, i)] == ms[
            model_source_index(ms, bridge, i)]);
    }
}

/// Referential integrity of the transformed graph: every internal model's
/// provider field is the key of an internal provider.
pub proof fn lemma_model_provider_linkage(
    resolver: SecretResolver,
    ps: Seq<ProviderDto>,
    ms: Seq<ModelDto>,
    i: int,
)
    requires
        0 <= i < spec_models_out(ms, spec_bridge(resolver, ps)).len(),
    ensures
        ({
            let bridge = spec_bridge(resolver, ps);
            let j = bridge_provider_index(
                resolver,
                ps,
                ms[model_source_index(ms, bridge, i)].provider_id@,
            );
            0 <= j < spec_providers_out(resolver, ps).len() && spec_providers_out(resolver, ps)[j].key
                == spec_models_out(ms, bridge)[i].provider
        }),
{
    let bridge = spec_bridge(resolver, ps);
    lemma_model_member(ms, bridge, i);
    let m = ms[model_source_index(ms, bridge, i)];
    assert(bridge.contains_key(m.provider_id@));
    lemma_bridge_to_providers(resolver, ps, m.provider_id@);
}

} // verus!
