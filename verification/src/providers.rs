//! The upstream providers: a closed set of two variants, one per wire
//! format, each binding an endpoint, a credential and a declared model
//! catalog. What a provider computes - its endpoint URL, its catalog, the
//! decoder kind for its responses - is verified here; the HTTP transport
//! that carries the bytes lives outside the library.

use vstd::prelude::*;

verus! {

use vstd::string::{StringExecFns, StrSliceExecFns};
use crate::config::ApiType;
use crate::models::{Model, ModelDetails, models_view, ModelView};

/// A request-scoped provider failure, carried as a short message.
#[derive(Debug)]
pub struct ProviderError {
    pub message: String,
}

impl ProviderError {
    /// The human-readable text of the failure.
    pub fn text(&self) -> (r: &String)
        ensures
            r@ == self.message@,
    {
        &self.message
    }
}

fn clone_opt_string(s: &Option<String>) -> (r: Option<String>)
    ensures
        r == *s,
{
    match s {
        None => None,
        Some(x) => Some(x.clone()),
    }
}

fn clone_strings(v: &Vec<String>) -> (r: Vec<String>)
    ensures
        r@ == v@,
{
    let mut r: Vec<String> = Vec::new();
    let mut i: usize = 0;
    while i < v.len()
        invariant
            0 <= i <= v@.len(),
            r@ == v@.take(i as int),
        decreases v@.len() - i,
    {
        r.push(v[i].clone());
        proof {
            assert(v@.take(i + 1) =~= v@.take(i as int).push(v@[i as int]));
        }
        i += 1;
    }
    proof {
        assert(v@.take(v@.len() as int) =~= v@);
    }
    r
}

fn clone_details(d: &ModelDetails) -> (r: ModelDetails)
    ensures
        r@ == d@,
{
    let r = ModelDetails {
        format: d.format.clone(),
        family: d.family.clone(),
        families: clone_strings(&d.families),
        parameter_size: d.parameter_size.clone(),
        quantization_level: d.quantization_level.clone(),
    };
    r
}

/// An exact copy of a model descriptor.
pub fn clone_model(m: &Model) -> (r: Model)
    ensures
        r@ == m@,
{
    let r = Model {
        name: m.name.clone(),
        model: m.model.clone(),
        modified_at: clone_opt_string(&m.modified_at),
        size: match m.size {
            None => None,
            Some(n) => Some(n),
        },
        digest: clone_opt_string(&m.digest),
        details: match &m.details {
            None => None,
            Some(d) => Some(clone_details(d)),
        },
    };
    r
}

/// An exact copy of a model catalog.
pub fn clone_models(v: &Vec<Model>) -> (r: Vec<Model>)
    ensures
        models_view(r@) == models_view(v@),
{
    let mut r: Vec<Model> = Vec::new();
    let mut i: usize = 0;
    while i < v.len()
        invariant
            0 <= i <= v@.len(),
            models_view(r@) == models_view(v@.take(i as int)),
        decreases v@.len() - i,
    {
        let m = clone_model(&v[i]);
        proof {
            assert(models_view(r@.push(m)) =~= models_view(r@).push(m@));
            assert(models_view(v@.take(i + 1)) =~= models_view(v@.take(i as int)).push(
                v@[i as int]@));
        }
        r.push(m);
        i += 1;
    }
    proof {
        assert(v@.take(v@.len() as int) =~= v@);
    }
    r
}

/// `s` without its trailing `'/'` characters.
pub open spec fn spec_trim_slashes(s: Seq<char>) -> Seq<char>
    decreases s.len(),
{
    if s.len() > 0 && s.last() == '/' {
        spec_trim_slashes(s.drop_last())
    } else {
        s
    }
}

proof fn lemma_trim_slashes_take(s: Seq<char>, k: int)
    requires
        0 <= k <= s.len(),
        forall|j: int| k <= j < s.len() ==> s[j] == '/',
        k == 0 || s[k - 1] != '/',
    ensures
        spec_trim_slashes(s) == s.take(k),
    decreases s.len() - k,
{
    if k == s.len() {
        assert(s.take(k) =~= s);
    } else {
        lemma_trim_slashes_take(s.drop_last(), k);
        assert(s.drop_last().take(k) =~= s.take(k));
    }
}

/// The base URL without trailing slashes, with `path` appended.
fn join_url(base: &String, path: &str) -> (r: String)
    ensures
        r@ == spec_trim_slashes(base@) + path@,
{
    let s = base.as_str();
    let n = s.unicode_len();
    let mut k: usize = n;
    while k > 0 && s.get_char(k - 1) == '/'
        invariant
            0 <= k <= n,
            n == s@.len(),
            s@ == base@,
            forall|j: int| k <= j < n ==> s@[j] == '/',
        decreases k,
    {
        k -= 1;
    }
    proof {
        lemma_trim_slashes_take(base@, k as int);
    }
    let mut r = String::from_str(s.substring_char(0, k));
    proof {
        assert(base@.subrange(0, k as int) =~= base@.take(k as int));
    }
    r.append(path);
    r
}

/// An upstream provider speaking the OllamaStyle NDJSON protocol.
pub struct OllamaProvider {
    base_url: String,
    password: String,
    models: Vec<Model>,
}

impl OllamaProvider {
    /// The configured base URL.
    pub closed spec fn spec_base_url(&self) -> Seq<char> {
        self.base_url@
    }

    /// The configured credential.
    pub closed spec fn spec_credential(&self) -> Seq<char> {
        self.password@
    }

    /// The configured, already namespaced model catalog.
    pub closed spec fn spec_models(&self) -> Seq<ModelView> {
        models_view(self.models@)
    }

    /// A provider over the given endpoint, credential and catalog.
    pub fn new(base_url: String, password: String, models: Vec<Model>) -> (p: Self)
        ensures
            p.spec_base_url() == base_url@,
            p.spec_credential() == password@,
            p.spec_models() == models_view(models@),
    {
        Self { base_url, password, models }
    }

    /// The catalog of this provider: exactly the configured models, the
    /// same full list for every caller.
    pub fn get_models(&self) -> (r: Vec<Model>)
        ensures
            models_view(r@) == self.spec_models(),
    {
        clone_models(&self.models)
    }
}

/// An upstream provider speaking the OpenAI-compatible SSE protocol.
pub struct OpenAIProvider {
    key: String,
    models: Vec<Model>,
    base_url: String,
}

impl OpenAIProvider {
    /// The configured base URL.
    pub closed spec fn spec_base_url(&self) -> Seq<char> {
        self.base_url@
    }

    /// The configured credential.
    pub closed spec fn spec_credential(&self) -> Seq<char> {
        self.key@
    }

    /// The configured, already namespaced model catalog.
    pub closed spec fn spec_models(&self) -> Seq<ModelView> {
        models_view(self.models@)
    }

    /// A provider over the given endpoint, credential and catalog.
    pub fn new(base_url: String, key: String, models: Vec<Model>) -> (p: Self)
        ensures
            p.spec_base_url() == base_url@,
            p.spec_credential() == key@,
            p.spec_models() == models_view(models@),
    {
        Self { key, models, base_url }
    }

    /// The catalog of this provider: exactly the configured models, the
    /// same full list for every caller.
    pub fn get_models(&self) -> (r: Vec<Model>)
        ensures
            models_view(r@) == self.spec_models(),
    {
        clone_models(&self.models)
    }
}

/// Everything the transport needs to issue one upstream chat request: the
/// resolved endpoint URL, the credential for the bearer-token header, and
/// the wire format to decode the response with.
pub struct ChatPlan {
    pub url: String,
    pub bearer: String,
    pub kind: ApiType,
}

/// One configured provider, of either wire format.
pub enum ProviderHandle {
    Ollama(OllamaProvider),
    Openai(OpenAIProvider),
}

impl ProviderHandle {
    /// The provider's namespaced model catalog.
    pub open spec fn spec_models(&self) -> Seq<ModelView> {
        match self {
            ProviderHandle::Ollama(p) => p.spec_models(),
            ProviderHandle::Openai(p) => p.spec_models(),
        }
    }

    /// The provider's wire format.
    pub open spec fn spec_api_type(&self) -> ApiType {
        match self {
            ProviderHandle::Ollama(_) => ApiType::Ollama,
            ProviderHandle::Openai(_) => ApiType::Openai,
        }
    }

    /// The provider's base URL.
    pub open spec fn spec_base_url(&self) -> Seq<char> {
        match self {
            ProviderHandle::Ollama(p) => p.spec_base_url(),
            ProviderHandle::Openai(p) => p.spec_base_url(),
        }
    }

    /// The provider's credential.
    pub open spec fn spec_credential(&self) -> Seq<char> {
        match self {
            ProviderHandle::Ollama(p) => p.spec_credential(),
            ProviderHandle::Openai(p) => p.spec_credential(),
        }
    }

    /// The catalog of this provider: exactly the configured models.
    pub fn get_models(&self) -> (r: Vec<Model>)
        ensures
            models_view(r@) == self.spec_models(),
    {
        match self {
            ProviderHandle::Ollama(p) => p.get_models(),
            ProviderHandle::Openai(p) => p.get_models(),
        }
    }

    /// Where and how to send one chat request: the chat endpoint under the
    /// provider's base URL (trailing slashes dropped), the provider's
    /// credential, and the wire format of the response.
    pub fn chat_plan(&self) -> (r: ChatPlan)
        ensures
            r.kind == self.spec_api_type(),
            r.bearer@ == self.spec_credential(),
            self.spec_api_type() is Ollama ==> r.url@ == spec_trim_slashes(self.spec_base_url())
                + "/api/chat"@,
            self.spec_api_type() is Openai ==> r.url@ == spec_trim_slashes(self.spec_base_url())
                + "/chat/completions"@,
    {
        match self {
            ProviderHandle::Ollama(p) => ChatPlan {
                url: join_url(&p.base_url, "/api/chat"),
                bearer: p.password.clone(),
                kind: ApiType::Ollama,
            },
            ProviderHandle::Openai(p) => ChatPlan {
                url: join_url(&p.base_url, "/chat/completions"),
                bearer: p.key.clone(),
                kind: ApiType::Openai,
            },
        }
    }
}

} // verus!
