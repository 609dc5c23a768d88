use api_config::config_provider_service::ApiClientConfig;
use api_config::config_provider_service::ApiConfigProviderService;
use api_config::config_provider_service::TransformError;
use api_config::dto::AnthropicProviderConfig;
use api_config::dto::ApiConfigurationResponse;
use api_config::dto::ApiModelDefinitionResponse;
use api_config::dto::ApiPipelineResponseDto;
use api_config::dto::ApiProviderResponse;
use api_config::dto::OpenAIProviderConfig;
use api_config::dto::PipelinePluginConfigDto;
use api_config::dto::PluginType;
use api_config::dto::ProviderConfig;
use api_config::dto::ProviderType;
use api_config::dto::SecretObject;
use api_config::gateway::PipelineType;
use api_config::gateway::PluginConfig;
use api_config::json::JsonValue;

fn client_config(base: &str) -> ApiClientConfig {
    ApiClientConfig {
        base_url: base.to_string(),
        timeout_seconds: 30,
        auth_header: None,
        auth_value: None,
        providers_endpoint: None,
        models_endpoint: None,
        pipelines_endpoint: None,
        full_config_endpoint: None,
    }
}

fn service() -> ApiConfigProviderService {
    ApiConfigProviderService::new(client_config("http://api"), Vec::new())
}

fn provider(id: &str, name: &str, enabled: bool, secret: SecretObject) -> ApiProviderResponse {
    ApiProviderResponse {
        id: id.to_string(),
        name: name.to_string(),
        provider_type: ProviderType::OpenAI,
        config: ProviderConfig::OpenAI(OpenAIProviderConfig {
            api_key: secret,
            organization_id: None,
        }),
        enabled,
        created_at: None,
        updated_at: None,
    }
}

fn model(key: &str, provider_id: &str, enabled: bool, config: JsonValue) -> ApiModelDefinitionResponse {
    ApiModelDefinitionResponse {
        id: format!("id-{}", key),
        key: key.to_string(),
        model_type: "chat".to_string(),
        provider_id: provider_id.to_string(),
        config_details: config,
        enabled,
        created_at: None,
        updated_at: None,
    }
}

fn pipeline(name: &str, kind: &str, plugins: Vec<PipelinePluginConfigDto>) -> ApiPipelineResponseDto {
    ApiPipelineResponseDto {
        id: format!("id-{}", name),
        name: name.to_string(),
        pipeline_type: kind.to_string(),
        description: None,
        plugins,
        enabled: true,
        created_at: None,
        updated_at: None,
    }
}

fn router_payload(entries: &[(&str, i64)]) -> JsonValue {
    let items: Vec<JsonValue> = entries
        .iter()
        .map(|(k, p)| {
            JsonValue::Obj(vec![
                ("key".to_string(), JsonValue::Str(k.to_string())),
                (
                    "priority".to_string(),
                    JsonValue::Num { text: p.to_string(), int_value: Some(*p) },
                ),
            ])
        })
        .collect();
    JsonValue::Obj(vec![("models".to_string(), JsonValue::Arr(items))])
}

fn plugin(kind: PluginType, data: JsonValue) -> PipelinePluginConfigDto {
    PipelinePluginConfigDto { plugin_type: kind, config_data: data, enabled: true, order_in_pipeline: 0 }
}

#[test]
fn model_router_drops_priorities() {
    let dto = plugin(PluginType::ModelRouter, router_payload(&[("a", 1), ("b", 5)]));
    let out = ApiConfigProviderService::transform_plugin_dto(&dto).unwrap();
    match out {
        PluginConfig::ModelRouter { models } => assert_eq!(models, vec!["a".to_string(), "b".to_string()]),
        _ => panic!("expected a model-router plugin"),
    }
}

#[test]
fn model_router_membership_independent_of_priority_values() {
    let low = plugin(PluginType::ModelRouter, router_payload(&[("a", 1), ("b", 5)]));
    let high = plugin(PluginType::ModelRouter, router_payload(&[("a", 99), ("b", -3)]));
    let out_low = ApiConfigProviderService::transform_plugin_dto(&low).unwrap();
    let out_high = ApiConfigProviderService::transform_plugin_dto(&high).unwrap();
    assert_eq!(out_low, out_high);
}

#[test]
fn model_router_requires_priority() {
    let entry = JsonValue::Obj(vec![("key".to_string(), JsonValue::Str("a".to_string()))]);
    let payload = JsonValue::Obj(vec![("models".to_string(), JsonValue::Arr(vec![entry]))]);
    let dto = plugin(PluginType::ModelRouter, payload);
    assert_eq!(
        ApiConfigProviderService::transform_plugin_dto(&dto),
        Err(TransformError::MalformedModelRouterPayload)
    );
}

#[test]
fn model_router_rejects_non_integral_priority() {
    let entry = JsonValue::Obj(vec![
        ("key".to_string(), JsonValue::Str("a".to_string())),
        ("priority".to_string(), JsonValue::Num { text: "1.5".to_string(), int_value: None }),
    ]);
    let payload = JsonValue::Obj(vec![("models".to_string(), JsonValue::Arr(vec![entry]))]);
    let dto = plugin(PluginType::ModelRouter, payload);
    assert_eq!(
        ApiConfigProviderService::transform_plugin_dto(&dto),
        Err(TransformError::MalformedModelRouterPayload)
    );
}

#[test]
fn model_router_rejects_priority_out_of_range() {
    let big: i64 = 3_000_000_000;
    let entry = JsonValue::Obj(vec![
        ("key".to_string(), JsonValue::Str("a".to_string())),
        ("priority".to_string(), JsonValue::Num { text: big.to_string(), int_value: Some(big) }),
    ]);
    let payload = JsonValue::Obj(vec![("models".to_string(), JsonValue::Arr(vec![entry]))]);
    let dto = plugin(PluginType::ModelRouter, payload);
    assert_eq!(
        ApiConfigProviderService::transform_plugin_dto(&dto),
        Err(TransformError::MalformedModelRouterPayload)
    );
}

#[test]
fn logging_level_defaults_to_warning() {
    let dto = plugin(PluginType::Logging, JsonValue::Obj(Vec::new()));
    let out = ApiConfigProviderService::transform_plugin_dto(&dto).unwrap();
    assert_eq!(out, PluginConfig::Logging { level: "warning".to_string() });
}

#[test]
fn logging_level_is_read_when_present() {
    let data = JsonValue::Obj(vec![("level".to_string(), JsonValue::Str("debug".to_string()))]);
    let dto = plugin(PluginType::Logging, data);
    let out = ApiConfigProviderService::transform_plugin_dto(&dto).unwrap();
    assert_eq!(out, PluginConfig::Logging { level: "debug".to_string() });
}

#[test]
fn tracing_requires_endpoint() {
    let dto = plugin(PluginType::Tracing, JsonValue::Obj(Vec::new()));
    assert_eq!(
        ApiConfigProviderService::transform_plugin_dto(&dto),
        Err(TransformError::MissingTracingEndpoint)
    );
}

#[test]
fn tracing_api_key_defaults_to_empty() {
    let data = JsonValue::Obj(vec![("endpoint".to_string(), JsonValue::Str("http://t".to_string()))]);
    let dto = plugin(PluginType::Tracing, data);
    let out = ApiConfigProviderService::transform_plugin_dto(&dto).unwrap();
    assert_eq!(
        out,
        PluginConfig::Tracing { endpoint: "http://t".to_string(), api_key: String::new() }
    );
}

#[test]
fn bad_tracing_plugin_drops_only_itself() {
    let bad = plugin(PluginType::Tracing, JsonValue::Obj(Vec::new()));
    let good = plugin(PluginType::Logging, JsonValue::Obj(Vec::new()));
    let dto = pipeline("p", "chat", vec![bad, good]);
    let mut diags: Vec<TransformError> = Vec::new();
    let out = ApiConfigProviderService::transform_pipeline_dto(&dto, &mut diags).unwrap();
    assert_eq!(out.name, "p");
    assert_eq!(out.pipeline_type, PipelineType::Chat);
    assert_eq!(out.plugins.len(), 1);
    assert_eq!(out.plugins[0], PluginConfig::Logging { level: "warning".to_string() });
    assert_eq!(diags, vec![TransformError::MissingTracingEndpoint]);
}

#[test]
fn pipeline_kind_is_matched_case_insensitively() {
    let mut diags: Vec<TransformError> = Vec::new();
    let dto = pipeline("p", "CHAT", Vec::new());
    let out = ApiConfigProviderService::transform_pipeline_dto(&dto, &mut diags).unwrap();
    assert_eq!(out.pipeline_type, PipelineType::Chat);
    let dto = pipeline("q", "Embeddings", Vec::new());
    let out = ApiConfigProviderService::transform_pipeline_dto(&dto, &mut diags).unwrap();
    assert_eq!(out.pipeline_type, PipelineType::Embeddings);
    assert!(diags.is_empty());
}

#[test]
fn unsupported_pipeline_kind_is_rejected() {
    let mut diags: Vec<TransformError> = Vec::new();
    let dto = pipeline("p", "audio", Vec::new());
    assert_eq!(
        ApiConfigProviderService::transform_pipeline_dto(&dto, &mut diags),
        Err(TransformError::UnsupportedPipelineType { pipeline_type: "audio".to_string() })
    );
}

#[test]
fn disabled_providers_never_appear() {
    let svc = service();
    let response = ApiConfigurationResponse {
        providers: vec![
            provider("x1", "off", false, SecretObject::literal("k".to_string())),
            provider("x2", "on", true, SecretObject::literal("k".to_string())),
        ],
        models: Vec::new(),
        pipelines: Vec::new(),
        version: None,
        last_updated: None,
    };
    let (config, diags) = svc.transform_api_response_to_gateway_config(&response);
    assert_eq!(config.providers.len(), 1);
    assert_eq!(config.providers[0].key, "on");
    assert_eq!(config.providers[0].provider_type, "openai");
    assert_eq!(config.providers[0].api_key, "k");
    assert!(diags.is_empty());
}

#[test]
fn unresolvable_secret_skips_provider() {
    let svc = service();
    let response = ApiConfigurationResponse {
        providers: vec![
            provider("x1", "bad", true, SecretObject::environment("NO_SUCH_NAME".to_string())),
            provider("x2", "good", true, SecretObject::literal("k".to_string())),
        ],
        models: Vec::new(),
        pipelines: Vec::new(),
        version: None,
        last_updated: None,
    };
    let (config, diags) = svc.transform_api_response_to_gateway_config(&response);
    assert_eq!(config.providers.len(), 1);
    assert_eq!(config.providers[0].key, "good");
    assert_eq!(diags.len(), 1);
    match &diags[0] {
        TransformError::ProviderSecret { provider_key, .. } => assert_eq!(provider_key, "bad"),
        other => panic!("unexpected diagnostic {:?}", other),
    }
}

#[test]
fn dangling_model_reference_is_skipped() {
    let svc = service();
    let response = ApiConfigurationResponse {
        providers: vec![
            provider("ext-off", "off", false, SecretObject::literal("k".to_string())),
            provider("ext-on", "on", true, SecretObject::literal("k".to_string())),
        ],
        models: vec![model("m1", "ext-off", true, JsonValue::Null)],
        pipelines: Vec::new(),
        version: None,
        last_updated: None,
    };
    let (config, diags) = svc.transform_api_response_to_gateway_config(&response);
    assert_eq!(config.providers.len(), 1);
    assert_eq!(config.models.len(), 0);
    assert_eq!(
        diags,
        vec![TransformError::UnknownProviderReference {
            provider_id: "ext-off".to_string(),
            model_key: "m1".to_string(),
        }]
    );
}

#[test]
fn model_links_to_provider_by_external_id_not_key() {
    let svc = service();
    let response = ApiConfigurationResponse {
        providers: vec![provider("ext-7", "openai-main", true, SecretObject::literal("k".to_string()))],
        models: vec![model("m1", "ext-7", true, JsonValue::Null)],
        pipelines: Vec::new(),
        version: None,
        last_updated: None,
    };
    let (config, diags) = svc.transform_api_response_to_gateway_config(&response);
    assert_eq!(config.models.len(), 1);
    assert_eq!(config.models[0].provider, "openai-main");
    assert!(diags.is_empty());
}

#[test]
fn model_params_are_coerced_value_by_value() {
    let svc = service();
    let details = JsonValue::Obj(vec![
        ("s".to_string(), JsonValue::Str("text".to_string())),
        ("n".to_string(), JsonValue::Num { text: "42".to_string(), int_value: Some(42) }),
        ("b".to_string(), JsonValue::Bool(true)),
        ("z".to_string(), JsonValue::Null),
        (
            "a".to_string(),
            JsonValue::Arr(vec![
                JsonValue::Num { text: "1".to_string(), int_value: Some(1) },
                JsonValue::Bool(false),
            ]),
        ),
    ]);
    let response = ApiConfigurationResponse {
        providers: vec![provider("x", "p", true, SecretObject::literal("k".to_string()))],
        models: vec![model("m", "x", true, details)],
        pipelines: Vec::new(),
        version: None,
        last_updated: None,
    };
    let (config, _) = svc.transform_api_response_to_gateway_config(&response);
    assert_eq!(config.models.len(), 1);
    let params = &config.models[0].params;
    assert_eq!(params[0], ("s".to_string(), "text".to_string()));
    assert_eq!(params[1], ("n".to_string(), "42".to_string()));
    assert_eq!(params[2], ("b".to_string(), "true".to_string()));
    assert_eq!(params[3], ("z".to_string(), String::new()));
    assert_eq!(params[4], ("a".to_string(), "[1,false]".to_string()));
}

#[test]
fn non_object_model_payload_skips_the_model() {
    let svc = service();
    let response = ApiConfigurationResponse {
        providers: vec![provider("x", "p", true, SecretObject::literal("k".to_string()))],
        models: vec![model("m", "x", true, JsonValue::Str("oops".to_string()))],
        pipelines: Vec::new(),
        version: None,
        last_updated: None,
    };
    let (config, diags) = svc.transform_api_response_to_gateway_config(&response);
    assert_eq!(config.models.len(), 0);
    assert_eq!(diags, vec![TransformError::ModelConfigNotObject { model_key: "m".to_string() }]);
}

#[test]
fn full_scenario_disabled_provider_reference() {
    let svc = service();
    let response = ApiConfigurationResponse {
        providers: vec![
            provider("ext-dis", "disabled-prov", false, SecretObject::literal("k".to_string())),
            provider("ext-en", "enabled-prov", true, SecretObject::literal("k".to_string())),
        ],
        models: vec![model("m1", "ext-dis", true, JsonValue::Null)],
        pipelines: vec![pipeline("pl", "chat", Vec::new())],
        version: Some("1".to_string()),
        last_updated: None,
    };
    let (config, diags) = svc.transform_api_response_to_gateway_config(&response);
    assert_eq!(config.providers.len(), 1);
    assert_eq!(config.providers[0].key, "enabled-prov");
    assert_eq!(config.models.len(), 0);
    assert_eq!(config.pipelines.len(), 1);
    assert_eq!(diags.len(), 1);
}

#[test]
fn organization_id_becomes_provider_param() {
    let svc = service();
    let p = ApiProviderResponse {
        id: "x".to_string(),
        name: "p".to_string(),
        provider_type: ProviderType::OpenAI,
        config: ProviderConfig::OpenAI(OpenAIProviderConfig {
            api_key: SecretObject::literal("k".to_string()),
            organization_id: Some("org-1".to_string()),
        }),
        enabled: true,
        created_at: None,
        updated_at: None,
    };
    let out = svc.transform_provider_dto(&p).unwrap();
    assert_eq!(out.params, vec![("organization_id".to_string(), "org-1".to_string())]);
}

#[test]
fn anthropic_provider_has_no_extra_params() {
    let svc = service();
    let p = ApiProviderResponse {
        id: "x".to_string(),
        name: "a".to_string(),
        provider_type: ProviderType::Anthropic,
        config: ProviderConfig::Anthropic(AnthropicProviderConfig {
            api_key: SecretObject::literal("k".to_string()),
        }),
        enabled: true,
        created_at: None,
        updated_at: None,
    };
    let out = svc.transform_provider_dto(&p).unwrap();
    assert_eq!(out.provider_type, "anthropic");
    assert!(out.params.is_empty());
    assert_eq!(out.api_key, "k");
}

#[test]
fn encrypted_literal_warns_but_resolves() {
    let svc = service();
    let response = ApiConfigurationResponse {
        providers: vec![provider(
            "x",
            "p",
            true,
            SecretObject::Literal { value: "cipher".to_string(), encrypted: Some(true) },
        )],
        models: Vec::new(),
        pipelines: Vec::new(),
        version: None,
        last_updated: None,
    };
    let (config, diags) = svc.transform_api_response_to_gateway_config(&response);
    assert_eq!(config.providers.len(), 1);
    assert_eq!(config.providers[0].api_key, "cipher");
    assert_eq!(
        diags,
        vec![TransformError::EncryptedLiteralSecret { provider_key: "p".to_string() }]
    );
}

#[test]
fn output_preserves_source_order() {
    let svc = service();
    let response = ApiConfigurationResponse {
        providers: vec![
            provider("1", "p1", true, SecretObject::literal("k".to_string())),
            provider("2", "p2", false, SecretObject::literal("k".to_string())),
            provider("3", "p3", true, SecretObject::literal("k".to_string())),
        ],
        models: vec![
            model("m1", "3", true, JsonValue::Null),
            model("m2", "1", true, JsonValue::Null),
        ],
        pipelines: vec![pipeline("a", "chat", Vec::new()), pipeline("b", "completion", Vec::new())],
        version: None,
        last_updated: None,
    };
    let (config, _) = svc.transform_api_response_to_gateway_config(&response);
    assert_eq!(config.providers[0].key, "p1");
    assert_eq!(config.providers[1].key, "p3");
    assert_eq!(config.models[0].key, "m1");
    assert_eq!(config.models[1].key, "m2");
    assert_eq!(config.pipelines[0].name, "a");
    assert_eq!(config.pipelines[1].name, "b");
}
