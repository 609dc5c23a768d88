pub mod config_provider_service;
pub mod dto;
pub mod gateway;
pub mod json;
pub mod secret_resolver;
pub mod strutil;

pub use config_provider_service::ApiClientConfig;
pub use config_provider_service::ApiConfigProviderService;
