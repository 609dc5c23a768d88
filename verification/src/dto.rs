use vstd::prelude::*;
use crate::json::JsonValue;

verus! {

/// A declarative reference to a secret value, resolved at transform time.
/// Exactly one variant is active at a time.
#[derive(Debug, Clone, PartialEq, Eq)]
pub enum SecretObject {
    Literal { value: String, encrypted: Option<bool> },
    Kubernetes { secret_name: String, key: String, namespace: Option<String> },
    Environment { variable_name: String },
}

impl SecretObject {
    pub fn literal(value: String) -> (r: Self)
        ensures
            r == (SecretObject::Literal { value, encrypted: None }),
    {
        SecretObject::Literal { value, encrypted: None }
    }

    pub fn environment(variable_name: String) -> (r: Self)
        ensures
            r == (SecretObject::Environment { variable_name }),
    {
        SecretObject::Environment { variable_name }
    }
}

/// The closed set of provider kinds the remote API may report.
#[derive(Debug, Clone, Copy, PartialEq, Eq, Hash, Structural)]
pub enum ProviderType {
    Azure,
    OpenAI,
    Anthropic,
    Bedrock,
    VertexAI,
}

impl ProviderType {
    /// The lower-case wire name of the provider kind.
    pub open spec fn spec_name(self) -> Seq<char> {
        match self {
            ProviderType::Azure => "azure"@,
            ProviderType::OpenAI => "openai"@,
            ProviderType::Anthropic => "anthropic"@,
            ProviderType::Bedrock => "bedrock"@,
            ProviderType::VertexAI => "vertexai"@,
        }
    }

    pub fn as_str(&self) -> (r: &'static str)
        ensures
            r@ == self.spec_name(),
    {
        match self {
            ProviderType::Azure => "azure",
            ProviderType::OpenAI => "openai",
            ProviderType::Anthropic => "anthropic",
            ProviderType::Bedrock => "bedrock",
            ProviderType::VertexAI => "vertexai",
        }
    }
}

#[derive(Debug, Clone, PartialEq, Eq)]
pub struct OpenAIProviderConfig {
    pub api_key: SecretObject,
    pub organization_id: Option<String>,
}

#[derive(Debug, Clone, PartialEq, Eq)]
pub struct AnthropicProviderConfig {
    pub api_key: SecretObject,
}

/// Provider-specific configuration payload, keyed by the provider kind.
#[derive(Debug, Clone, PartialEq, Eq)]
pub enum ProviderConfig {
    OpenAI(OpenAIProviderConfig),
    Anthropic(AnthropicProviderConfig),
}

impl ProviderConfig {
    /// The secret reference embedded in the payload for the provider's API key.
    pub open spec fn spec_api_key(self) -> SecretObject {
        match self {
            ProviderConfig::OpenAI(c) => c.api_key,
            ProviderConfig::Anthropic(c) => c.api_key,
        }
    }

    pub fn api_key(&self) -> (r: &SecretObject)
        ensures
            *r == self.spec_api_key(),
    {
        match self {
            ProviderConfig::OpenAI(c) => &c.api_key,
            ProviderConfig::Anthropic(c) => &c.api_key,
        }
    }
}

pub fn default_true() -> (r: bool)
    ensures
        r,
{
    true
}

/// A provider as the remote API reports it. `id` is the externally assigned
/// identifier that models reference; it is not the internal provider key.
/// Timestamps are carried as opaque RFC 3339 text and never read.
#[derive(Debug, Clone, PartialEq, Eq)]
pub struct ApiProviderResponse {
    pub id: String,
    pub name: String,
    pub provider_type: ProviderType,
    pub config: ProviderConfig,
    pub enabled: bool,
    pub created_at: Option<String>,
    pub updated_at: Option<String>,
}

/// A model definition as the remote API reports it; `provider_id` is a
/// foreign key into `ApiProviderResponse::id`.
#[derive(Debug, PartialEq, Eq)]
pub struct ApiModelDefinitionResponse {
    pub id: String,
    pub key: String,
    pub model_type: String,
    pub provider_id: String,
    pub config_details: JsonValue,
    pub enabled: bool,
    pub created_at: Option<String>,
    pub updated_at: Option<String>,
}

#[derive(Debug, Clone, PartialEq, Eq)]
pub struct ModelRouterModelEntryDto {
    pub key: String,
    pub priority: i32,
}

#[derive(Debug, Clone, PartialEq, Eq)]
pub struct ModelRouterConfigDto {
    pub models: Vec<ModelRouterModelEntryDto>,
}

/// The closed set of plugin kinds; unknown tags are rejected at the boundary.
#[derive(Debug, Clone, Copy, PartialEq, Eq, Hash, Structural)]
pub enum PluginType {
    ModelRouter,
    Logging,
    Tracing,
}

#[derive(Debug, PartialEq, Eq)]
pub struct PipelinePluginConfigDto {
    pub plugin_type: PluginType,
    pub config_data: JsonValue,
    pub enabled: bool,
    pub order_in_pipeline: i32,
}

#[derive(Debug, PartialEq, Eq)]
pub struct ApiPipelineResponseDto {
    pub id: String,
    pub name: String,
    pub pipeline_type: String,
    pub description: Option<String>,
    pub plugins: Vec<PipelinePluginConfigDto>,
    pub enabled: bool,
    pub created_at: Option<String>,
    pub updated_at: Option<String>,
}

/// The full configuration bundle: what the single combined endpoint returns,
/// and what the three per-resource fetches are joined into.
#[derive(Debug, PartialEq, Eq)]
pub struct ApiConfigurationResponse {
    pub providers: Vec<ApiProviderResponse>,
    pub models: Vec<ApiModelDefinitionResponse>,
    pub pipelines: Vec<ApiPipelineResponseDto>,
    pub version: Option<String>,
    pub last_updated: Option<String>,
}

} // verus!
