//! The gateway's startup configuration: the listening port and the set of
//! upstream providers, each with its wire protocol, endpoint, credential and
//! declared model list. Configuration is loaded once at startup and is
//! immutable afterwards.

use vstd::prelude::*;

verus! {

use vstd::string::StringExecFns;

/// The wire protocol an upstream provider speaks.
#[derive(Clone, Copy, Debug, PartialEq, Eq, Structural)]
pub enum ApiType {
    /// Newline-delimited JSON chat responses.
    Ollama,
    /// OpenAI-compatible server-sent events.
    Openai,
}

/// One configured upstream provider.
pub struct ProviderInfo {
    pub name: String,
    pub url: String,
    pub secret: Option<String>,
    pub models: Option<Vec<String>>,
    pub api_type: ApiType,
}

/// The whole gateway configuration.
pub struct Config {
    pub port: i16,
    pub providers: Vec<ProviderInfo>,
}

fn demo_models(names: Vec<&str>) -> (r: Vec<String>)
    ensures
        r@.len() == names@.len(),
        forall|i: int| 0 <= i < r@.len() ==> r@[i]@ == names@[i]@,
{
    let mut r: Vec<String> = Vec::new();
    let mut k: usize = 0;
    while k < names.len()
        invariant
            0 <= k <= names@.len(),
            r@.len() == k,
            forall|i: int| 0 <= i < k ==> r@[i]@ == names@[i]@,
        decreases names@.len() - k,
    {
        r.push(String::from_str(names[k]));
        k += 1;
    }
    r
}

/// The declared local model names of a configuration entry, as character
/// sequences.
pub open spec fn declared_models(info: ProviderInfo) -> Option<Seq<Seq<char>>> {
    match info.models {
        None => None,
        Some(v) => Some(v@.map_values(|s: String| s@)),
    }
}

/// An example configuration, written out when no configuration file exists
/// yet: one OllamaStyle provider without a credential or a declared model
/// list, and three OpenAIStyle providers with placeholder credentials and
/// declared models.
pub fn get_config_demo() -> (c: Config)
    ensures
        c.port == 11434,
        c.providers@.len() == 4,
        c.providers@[0].name@ == "ollama"@,
        c.providers@[0].url@ == "https://some.ollama.service:port"@,
        c.providers@[0].api_type is Ollama,
        c.providers@[0].secret is None,
        c.providers@[0].models is None,
        c.providers@[1].name@ == "aliyun"@,
        c.providers@[1].url@ == "https://dashscope.aliyuncs.com/compatible-mode/v1"@,
        c.providers@[1].api_type is Openai,
        c.providers@[1].secret matches Some(s) && s@ == "secret-key"@,
        declared_models(c.providers@[1]) == Some(seq![
            "qwen3-coder-plus"@,
            "Moonshot-Kimi-K2-Instruct"@,
            "qwen3-max"@,
            "glm-4.5"@,
        ]),
        c.providers@[2].name@ == "openrouter"@,
        c.providers@[2].url@ == "https://openrouter.ai/api/v1"@,
        c.providers@[2].api_type is Openai,
        c.providers@[2].secret matches Some(s) && s@ == "secret-key"@,
        declared_models(c.providers@[2]) == Some(seq![
            "meta-llama/llama-3.1-70b-instruct"@,
            "openai/o3-pro"@,
        ]),
        c.providers@[3].name@ == "tsinghua"@,
        c.providers@[3].url@ == "https://llmapi.paratera.com/v1"@,
        c.providers@[3].api_type is Openai,
        c.providers@[3].secret matches Some(s) && s@ == "secret-key"@,
        declared_models(c.providers@[3]) == Some(seq!["Qwen3-Coder-Plus"@, "GLM-4.5"@]),
{
    let mut providers: Vec<ProviderInfo> = Vec::new();
    providers.push(ProviderInfo {
        name: String::from_str("ollama"),
        url: String::from_str("https://some.ollama.service:port"),
        secret: None,
        models: None,
        api_type: ApiType::Ollama,
    });
    let mut aliyun_models: Vec<&str> = Vec::new();
    aliyun_models.push("qwen3-coder-plus");
    aliyun_models.push("Moonshot-Kimi-K2-Instruct");
    aliyun_models.push("qwen3-max");
    aliyun_models.push("glm-4.5");
    providers.push(ProviderInfo {
        name: String::from_str("aliyun"),
        url: String::from_str("https://dashscope.aliyuncs.com/compatible-mode/v1"),
        secret: Some(String::from_str("secret-key")),
        models: Some(demo_models(aliyun_models)),
        api_type: ApiType::Openai,
    });
    let mut openrouter_models: Vec<&str> = Vec::new();
    openrouter_models.push("meta-llama/llama-3.1-70b-instruct");
    openrouter_models.push("openai/o3-pro");
    providers.push(ProviderInfo {
        name: String::from_str("openrouter"),
        url: String::from_str("https://openrouter.ai/api/v1"),
        secret: Some(String::from_str("secret-key")),
        models: Some(demo_models(openrouter_models)),
        api_type: ApiType::Openai,
    });
    let mut tsinghua_models: Vec<&str> = Vec::new();
    tsinghua_models.push("Qwen3-Coder-Plus");
    tsinghua_models.push("GLM-4.5");
    providers.push(ProviderInfo {
        name: String::from_str("tsinghua"),
        url: String::from_str("https://llmapi.paratera.com/v1"),
        secret: Some(String::from_str("secret-key")),
        models: Some(demo_models(tsinghua_models)),
        api_type: ApiType::Openai,
    });
    let c = Config { port: 11434, providers };
    proof {
        match c.providers@[1].models {
            Some(v) => {
                assert(v@.map_values(|s: String| s@) =~= seq![
                    "qwen3-coder-plus"@,
                    "Moonshot-Kimi-K2-Instruct"@,
                    "qwen3-max"@,
                    "glm-4.5"@,
                ]);
            },
            None => {
                assert(false);
            },
        }
        match c.providers@[2].models {
            Some(v) => {
                assert(v@.map_values(|s: String| s@) =~= seq![
                    "meta-llama/llama-3.1-70b-instruct"@,
                    "openai/o3-pro"@,
                ]);
            },
            None => {
                assert(false);
            },
        }
        match c.providers@[3].models {
            Some(v) => {
                assert(v@.map_values(|s: String| s@) =~= seq!["Qwen3-Coder-Plus"@, "GLM-4.5"@]);
            },
            None => {
                assert(false);
            },
        }
    }
    c
}

} // verus!
