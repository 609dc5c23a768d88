use api_config::dto::default_true;
use api_config::dto::ProviderType;
use api_config::dto::SecretObject;
use api_config::secret_resolver::SecretError;
use api_config::secret_resolver::SecretResolver;

#[test]
fn literal_resolves_verbatim() {
    let resolver = SecretResolver::new(Vec::new());
    let secret = SecretObject::literal("plain".to_string());
    assert_eq!(resolver.resolve_secret(&secret), Ok("plain".to_string()));
}

#[test]
fn encrypted_literal_resolves_as_is() {
    let resolver = SecretResolver::new(Vec::new());
    let secret = SecretObject::Literal { value: "cipher".to_string(), encrypted: Some(true) };
    assert_eq!(resolver.resolve_secret(&secret), Ok("cipher".to_string()));
    assert!(SecretResolver::is_encrypted_literal(&secret));
}

#[test]
fn environment_variable_is_looked_up_in_the_snapshot() {
    let resolver = SecretResolver::new(vec![("API_KEY".to_string(), "v1".to_string())]);
    let secret = SecretObject::environment("API_KEY".to_string());
    assert_eq!(resolver.resolve_secret(&secret), Ok("v1".to_string()));
}

#[test]
fn missing_environment_variable_fails() {
    let resolver = SecretResolver::new(Vec::new());
    let secret = SecretObject::environment("ABSENT".to_string());
    assert_eq!(
        resolver.resolve_secret(&secret),
        Err(SecretError::MissingEnvironmentVariable { variable_name: "ABSENT".to_string() })
    );
}

#[test]
fn later_snapshot_binding_wins() {
    let resolver = SecretResolver::new(vec![
        ("K".to_string(), "old".to_string()),
        ("K".to_string(), "new".to_string()),
    ]);
    let secret = SecretObject::environment("K".to_string());
    assert_eq!(resolver.resolve_secret(&secret), Ok("new".to_string()));
}

#[test]
fn managed_secret_backend_is_unsupported() {
    let resolver = SecretResolver::new(Vec::new());
    let secret = SecretObject::Kubernetes {
        secret_name: "s".to_string(),
        key: "k".to_string(),
        namespace: None,
    };
    assert_eq!(
        resolver.resolve_secret(&secret),
        Err(SecretError::UnsupportedBackend { secret_name: "s".to_string(), key: "k".to_string() })
    );
}

#[test]
fn provider_type_wire_names() {
    assert_eq!(ProviderType::Azure.as_str(), "azure");
    assert_eq!(ProviderType::OpenAI.as_str(), "openai");
    assert_eq!(ProviderType::Anthropic.as_str(), "anthropic");
    assert_eq!(ProviderType::Bedrock.as_str(), "bedrock");
    assert_eq!(ProviderType::VertexAI.as_str(), "vertexai");
}

#[test]
fn default_true_is_true() {
    assert!(default_true());
}

#[test]
fn secret_constructors() {
    assert_eq!(
        SecretObject::literal("v".to_string()),
        SecretObject::Literal { value: "v".to_string(), encrypted: None }
    );
    assert_eq!(
        SecretObject::environment("N".to_string()),
        SecretObject::Environment { variable_name: "N".to_string() }
    );
}
