use ollama_proxy::config::{ApiType, Config, ProviderInfo};
use ollama_proxy::registry::{list_all_models, load_providers, map_model_name, unmap_model};

fn two_provider_config() -> Config {
    Config {
        port: 11434,
        providers: vec![
            ProviderInfo {
                name: "demo".to_string(),
                url: "http://demo.example/".to_string(),
                secret: None,
                models: Some(vec!["llama3".to_string(), "phi3".to_string()]),
                api_type: ApiType::Ollama,
            },
            ProviderInfo {
                name: "cloud".to_string(),
                url: "https://cloud.example/v1".to_string(),
                secret: Some("test-key".to_string()),
                models: Some(vec!["gpt-x".to_string()]),
                api_type: ApiType::Openai,
            },
        ],
    }
}

#[test]
fn map_model_name_brackets_provider() {
    let r = map_model_name(&"demo".to_string(), &"llama3".to_string());
    assert_eq!(r, "[demo]-llama3");
}

#[test]
fn namespacing_round_trips_through_resolution() {
    let providers = load_providers(&two_provider_config());
    let namespaced = map_model_name(&"demo".to_string(), &"phi3".to_string());
    let (idx, local) = unmap_model(&namespaced, &providers).unwrap();
    assert_eq!(idx, 0);
    assert_eq!(local, "phi3");
    let namespaced = map_model_name(&"cloud".to_string(), &"gpt-x".to_string());
    let (idx, local) = unmap_model(&namespaced, &providers).unwrap();
    assert_eq!(idx, 1);
    assert_eq!(local, "gpt-x");
}

#[test]
fn unknown_model_is_request_scoped_error() {
    let providers = load_providers(&two_provider_config());
    let err = unmap_model(&"[unknown]-x".to_string(), &providers).unwrap_err();
    assert!(err.text().contains("[unknown]-x"));
    // other resolutions are unaffected by the failure
    let (idx, local) = unmap_model(&"[demo]-llama3".to_string(), &providers).unwrap();
    assert_eq!(idx, 0);
    assert_eq!(local, "llama3");
}

#[test]
fn catalog_is_concatenated_in_configuration_order() {
    let providers = load_providers(&two_provider_config());
    let all = list_all_models(&providers);
    let names: Vec<String> = all.iter().map(|m| m.model.clone()).collect();
    assert_eq!(names, vec!["[demo]-llama3", "[demo]-phi3", "[cloud]-gpt-x"]);
    let locals: Vec<String> = all.iter().map(|m| m.name.clone()).collect();
    assert_eq!(locals, vec!["llama3", "phi3", "gpt-x"]);
}

#[test]
fn every_catalog_read_sees_the_same_full_list() {
    let providers = load_providers(&two_provider_config());
    let first = providers[0].get_models();
    let second = providers[0].get_models();
    assert_eq!(first.len(), 2);
    let names1: Vec<&String> = first.iter().map(|m| &m.model).collect();
    let names2: Vec<&String> = second.iter().map(|m| &m.model).collect();
    assert_eq!(names1, names2);
}

#[test]
fn provider_without_declared_models_has_empty_catalog() {
    let config = Config {
        port: 1,
        providers: vec![ProviderInfo {
            name: "empty".to_string(),
            url: "http://e".to_string(),
            secret: None,
            models: None,
            api_type: ApiType::Ollama,
        }],
    };
    let providers = load_providers(&config);
    assert!(list_all_models(&providers).is_empty());
    assert!(unmap_model(&"[empty]-x".to_string(), &providers).is_err());
}

#[test]
fn chat_plan_targets_the_right_endpoint() {
    let providers = load_providers(&two_provider_config());
    let plan = providers[0].chat_plan();
    assert_eq!(plan.url, "http://demo.example/api/chat");
    assert_eq!(plan.bearer, "");
    assert!(matches!(plan.kind, ApiType::Ollama));
    let plan = providers[1].chat_plan();
    assert_eq!(plan.url, "https://cloud.example/v1/chat/completions");
    assert_eq!(plan.bearer, "test-key");
    assert!(matches!(plan.kind, ApiType::Openai));
}

#[test]
fn demo_config_lists_four_providers() {
    let c = ollama_proxy::config::get_config_demo();
    assert_eq!(c.port, 11434);
    assert_eq!(c.providers.len(), 4);
    assert_eq!(c.providers[0].name, "ollama");
    assert!(matches!(c.providers[0].api_type, ApiType::Ollama));
    assert!(c.providers[0].secret.is_none());
    assert_eq!(c.providers[1].name, "aliyun");
    assert_eq!(c.providers[2].name, "openrouter");
    assert_eq!(c.providers[3].name, "tsinghua");
}
