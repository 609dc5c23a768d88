use vstd::prelude::*;

verus! {

/// The internal configuration graph handed to the gateway's routing layer.
/// Each type carries a ghost model over character sequences so that the
/// transformer's contracts can speak about whole values.
#[derive(Debug, Clone, PartialEq, Eq)]
pub struct Provider {
    pub key: String,
    pub provider_type: String,
    pub api_key: String,
    pub params: Vec<(String, String)>,
}

pub ghost struct ProviderModel {
    pub key: Seq<char>,
    pub provider_type: Seq<char>,
    pub api_key: Seq<char>,
    pub params: Seq<(Seq<char>, Seq<char>)>,
}

/// View of an association list of strings as pairs of char sequences.
pub open spec fn params_view(params: Seq<(String, String)>) -> Seq<(Seq<char>, Seq<char>)> {
    params.map_values(|p: (String, String)| (p.0@, p.1@))
}

/// Appending a pair appends its view.
pub proof fn lemma_params_view_push(s: Seq<(String, String)>, x: (String, String))
    ensures
        params_view(s.push(x)) =~= params_view(s).push((x.0@, x.1@)),
{
}

impl View for Provider {
    type V = ProviderModel;

    open spec fn view(&self) -> ProviderModel {
        ProviderModel {
            key: self.key@,
            provider_type: self.provider_type@,
            api_key: self.api_key@,
            params: params_view(self.params@),
        }
    }
}

#[derive(Debug, Clone, PartialEq, Eq)]
pub struct ModelConfig {
    pub key: String,
    pub model_type: String,
    pub provider: String,
    pub params: Vec<(String, String)>,
}

pub ghost struct ModelConfigModel {
    pub key: Seq<char>,
    pub model_type: Seq<char>,
    pub provider: Seq<char>,
    pub params: Seq<(Seq<char>, Seq<char>)>,
}

impl View for ModelConfig {
    type V = ModelConfigModel;

    open spec fn view(&self) -> ModelConfigModel {
        ModelConfigModel {
            key: self.key@,
            model_type: self.model_type@,
            provider: self.provider@,
            params: params_view(self.params@),
        }
    }
}

/// The closed set of pipeline kinds the gateway routes.
#[derive(Debug, Clone, Copy, PartialEq, Eq, Structural)]
pub enum PipelineType {
    Chat,
    Completion,
    Embeddings,
}

#[derive(Debug, Clone, PartialEq, Eq)]
pub enum PluginConfig {
    /// Membership list of model keys; the source payload's priorities are
    /// accepted for forward compatibility and deliberately dropped.
    ModelRouter { models: Vec<String> },
    Logging { level: String },
    Tracing { endpoint: String, api_key: String },
}

pub ghost enum PluginConfigModel {
    ModelRouter { models: Seq<Seq<char>> },
    Logging { level: Seq<char> },
    Tracing { endpoint: Seq<char>, api_key: Seq<char> },
}

/// View of a list of strings as char sequences.
pub open spec fn keys_view(s: Seq<String>) -> Seq<Seq<char>> {
    s.map_values(|m: String| m@)
}

pub proof fn lemma_keys_view_push(s: Seq<String>, x: String)
    ensures
        keys_view(s.push(x)) =~= keys_view(s).push(x@),
{
}

impl View for PluginConfig {
    type V = PluginConfigModel;

    open spec fn view(&self) -> PluginConfigModel {
        match self {
            PluginConfig::ModelRouter { models } => (PluginConfigModel::ModelRouter {
                models: keys_view(models@),
            }),
            PluginConfig::Logging { level } => (PluginConfigModel::Logging { level: level@ }),
            PluginConfig::Tracing { endpoint, api_key } => (PluginConfigModel::Tracing {
                endpoint: endpoint@,
                api_key: api_key@,
            }),
        }
    }
}

#[derive(Debug, Clone, PartialEq, Eq)]
pub struct Pipeline {
    pub name: String,
    pub pipeline_type: PipelineType,
    pub plugins: Vec<PluginConfig>,
}

pub ghost struct PipelineModel {
    pub name: Seq<char>,
    pub pipeline_type: PipelineType,
    pub plugins: Seq<PluginConfigModel>,
}

/// View of a list of plugin configurations.
pub open spec fn plugins_view(s: Seq<PluginConfig>) -> Seq<PluginConfigModel> {
    s.map_values(|p: PluginConfig| p@)
}

pub proof fn lemma_plugins_view_push(s: Seq<PluginConfig>, x: PluginConfig)
    ensures
        plugins_view(s.push(x)) =~= plugins_view(s).push(x@),
{
}

impl View for Pipeline {
    type V = PipelineModel;

    open spec fn view(&self) -> PipelineModel {
        PipelineModel {
            name: self.name@,
            pipeline_type: self.pipeline_type,
            plugins: plugins_view(self.plugins@),
        }
    }
}

#[derive(Debug, Clone, PartialEq, Eq)]
pub struct GatewayConfig {
    pub providers: Vec<Provider>,
    pub models: Vec<ModelConfig>,
    pub pipelines: Vec<Pipeline>,
}

pub ghost struct GatewayConfigModel {
    pub providers: Seq<ProviderModel>,
    pub models: Seq<ModelConfigModel>,
    pub pipelines: Seq<PipelineModel>,
}

/// Views of the three entity lists.
pub open spec fn providers_view(s: Seq<Provider>) -> Seq<ProviderModel> {
    s.map_values(|p: Provider| p@)
}

pub proof fn lemma_providers_view_push(s: Seq<Provider>, x: Provider)
    ensures
        providers_view(s.push(x)) =~= providers_view(s).push(x@),
{
}

pub open spec fn models_view(s: Seq<ModelConfig>) -> Seq<ModelConfigModel> {
    s.map_values(|m: ModelConfig| m@)
}

pub proof fn lemma_models_view_push(s: Seq<ModelConfig>, x: ModelConfig)
    ensures
        models_view(s.push(x)) =~= models_view(s).push(x@),
{
}

pub open spec fn pipelines_view(s: Seq<Pipeline>) -> Seq<PipelineModel> {
    s.map_values(|p: Pipeline| p@)
}

pub proof fn lemma_pipelines_view_push(s: Seq<Pipeline>, x: Pipeline)
    ensures
        pipelines_view(s.push(x)) =~= pipelines_view(s).push(x@),
{
}

impl View for GatewayConfig {
    type V = GatewayConfigModel;

    open spec fn view(&self) -> GatewayConfigModel {
        GatewayConfigModel {
            providers: providers_view(self.providers@),
            models: models_view(self.models@),
            pipelines: pipelines_view(self.pipelines@),
        }
    }
}

impl Default for GatewayConfig {
    /// An empty graph: no providers, models or pipelines.
    fn default() -> (r: Self)
        ensures
            r@.providers == Seq::<ProviderModel>::empty(),
            r@.models == Seq::<ModelConfigModel>::empty(),
            r@.pipelines == Seq::<PipelineModel>::empty(),
    {
        let r = GatewayConfig { providers: Vec::new(), models: Vec::new(), pipelines: Vec::new() };
        proof {
            assert(r@.providers =~= Seq::<ProviderModel>::empty());
            assert(r@.models =~= Seq::<ModelConfigModel>::empty());
            assert(r@.pipelines =~= Seq::<PipelineModel>::empty());
        }
        r
    }
}

} // verus!
