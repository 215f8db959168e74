//! Model-identity namespacing and routing across the configured providers.
//!
//! Once several providers are configured, the only externally visible model
//! identifier is the namespaced name `"[" + provider + "]-" + local`. The
//! registry maps a namespaced name back to the provider that serves it and
//! the provider-local model name, and aggregates the catalogs of all
//! providers in configuration order. A name served by no provider is a
//! request-scoped error, never a failure of the process: resolution is a
//! total function.

use vstd::prelude::*;

verus! {

use vstd::string::StringExecFns;
use crate::config::{ApiType, Config, ProviderInfo};
use crate::models::{Model, ModelView, models_view};
use crate::providers::{OllamaProvider, OpenAIProvider, ProviderError, ProviderHandle};

/// The namespaced model name: `"[" + provider + "]-" + local`.
pub open spec fn spec_map_model_name(provider: Seq<char>, local: Seq<char>) -> Seq<char> {
    "["@ + provider + "]-"@ + local
}

/// Builds the externally visible, namespaced name of a provider's model.
pub fn map_model_name(provider_name: &String, model_name: &String) -> (r: String)
    ensures
        r@ == spec_map_model_name(provider_name@, model_name@),
{
    let mut r = String::from_str("[");
    r.append(provider_name.as_str());
    r.append("]-");
    r.append(model_name.as_str());
    r
}

/// The first position of a catalog entry whose namespaced name is `name`.
pub open spec fn spec_find_model(models: Seq<ModelView>, name: Seq<char>) -> Option<int>
    decreases models.len(),
{
    if models.len() == 0 {
        None
    } else if models[0].model == name {
        Some(0int)
    } else {
        match spec_find_model(models.skip(1), name) {
            None => None,
            Some(i) => Some(i + 1),
        }
    }
}

/// What a namespaced name resolves to: the first provider, in configuration
/// order, whose catalog carries the name, together with the provider-local
/// model name of the matching entry; `None` if no provider serves it.
pub open spec fn spec_resolve(providers: Seq<ProviderHandle>, name: Seq<char>) -> Option<
    (int, Seq<char>),
>
    decreases providers.len(),
{
    if providers.len() == 0 {
        None
    } else {
        match spec_find_model(providers[0].spec_models(), name) {
            Some(j) => Some((0int, providers[0].spec_models()[j].name)),
            None => match spec_resolve(providers.skip(1), name) {
                None => None,
                Some(r) => Some((r.0 + 1, r.1)),
            },
        }
    }
}

proof fn lemma_find_model_at(models: Seq<ModelView>, name: Seq<char>, k: int)
    requires
        0 <= k <= models.len(),
        forall|q: int| 0 <= q < k ==> (#[trigger] models[q]).model != name,
        k == models.len() || models[k].model == name,
    ensures
        k < models.len() ==> spec_find_model(models, name) == Some(k),
        k == models.len() ==> spec_find_model(models, name) is None,
    decreases k, models.len(),
{
    if models.len() == 0 {
    } else if k == 0 {
        if k < models.len() {
        } else {
        }
    } else {
        assert(models[0].model != name);
        assert forall|q: int| 0 <= q < k - 1 implies (#[trigger] models.skip(1)[q]).model
            != name by {
            assert(models.skip(1)[q] == models[q + 1]);
        }
        assert(k - 1 == models.skip(1).len() || models.skip(1)[k - 1].model == name);
        lemma_find_model_at(models.skip(1), name, k - 1);
    }
}

proof fn lemma_resolve_none(providers: Seq<ProviderHandle>, name: Seq<char>)
    requires
        forall|p: int| 0 <= p < providers.len() ==> spec_find_model(
            (#[trigger] providers[p]).spec_models(),
            name,
        ) is None,
    ensures
        spec_resolve(providers, name) is None,
    decreases providers.len(),
{
    if providers.len() > 0 {
        assert forall|p: int| 0 <= p < providers.skip(1).len() implies spec_find_model(
            (#[trigger] providers.skip(1)[p]).spec_models(),
            name,
        ) is None by {
            assert(providers.skip(1)[p] == providers[p + 1]);
        }
        lemma_resolve_none(providers.skip(1), name);
    }
}

proof fn lemma_resolve_found(providers: Seq<ProviderHandle>, name: Seq<char>, i: int, j: int)
    requires
        0 <= i < providers.len(),
        forall|p: int| 0 <= p < i ==> spec_find_model(
            (#[trigger] providers[p]).spec_models(),
            name,
        ) is None,
        spec_find_model(providers[i].spec_models(), name) == Some(j),
    ensures
        spec_resolve(providers, name) == Some((i, providers[i].spec_models()[j].name)),
    decreases i,
{
    if i == 0 {
        proof_find_model_bounds(providers[0].spec_models(), name);
    } else {
        assert forall|p: int| 0 <= p < i - 1 implies spec_find_model(
            (#[trigger] providers.skip(1)[p]).spec_models(),
            name,
        ) is None by {
            assert(providers.skip(1)[p] == providers[p + 1]);
        }
        assert(providers.skip(1)[i - 1] == providers[i]);
        lemma_resolve_found(providers.skip(1), name, i - 1, j);
    }
}

proof fn proof_find_model_bounds(models: Seq<ModelView>, name: Seq<char>)
    ensures
        match spec_find_model(models, name) {
            Some(j) => 0 <= j < models.len() && models[j].model == name,
            None => true,
        },
    decreases models.len(),
{
    if models.len() > 0 && models[0].model != name {
        proof_find_model_bounds(models.skip(1), name);
        match spec_find_model(models.skip(1), name) {
            Some(i) => {
                assert(models.skip(1)[i] == models[i + 1]);
            },
            None => {},
        }
    }
}

/// Resolves a namespaced model name to the provider that serves it: the
/// index of the first provider, in configuration order, whose catalog
/// carries the name, and the provider-local name to use upstream. An
/// unknown name yields a request-scoped error, never a failure of the
/// process.
pub fn unmap_model(model_name: &String, providers: &Vec<ProviderHandle>) -> (r: Result<
    (usize, String),
    ProviderError,
>)
    ensures
        match r {
            Ok(p) => spec_resolve(providers@, model_name@) == Some((p.0 as int, p.1@)),
            Err(_) => spec_resolve(providers@, model_name@) is None,
        },
{
    let n = providers.len();
    let mut i: usize = 0;
    while i < n
        invariant
            0 <= i <= n,
            n == providers@.len(),
            forall|p: int| 0 <= p < i ==> spec_find_model(
                (#[trigger] providers@[p]).spec_models(),
                model_name@,
            ) is None,
        decreases n - i,
    {
        let models = providers[i].get_models();
        let m = models.len();
        let mut j: usize = 0;
        while j < m
            invariant
                0 <= j <= m,
                m == models@.len(),
                0 <= i < n,
                n == providers@.len(),
                models_view(models@) == providers@[i as int].spec_models(),
                forall|q: int| 0 <= q < j ==> (#[trigger] models_view(models@)[q]).model
                    != model_name@,
                forall|p: int| 0 <= p < i ==> spec_find_model(
                    (#[trigger] providers@[p]).spec_models(),
                    model_name@,
                ) is None,
            decreases m - j,
        {
            proof {
                assert(models_view(models@)[j as int] == models@[j as int]@);
            }
            if models[j].model == *model_name {
                proof {
                    lemma_find_model_at(models_view(models@), model_name@, j as int);
                    lemma_resolve_found(providers@, model_name@, i as int, j as int);
                }
                return Ok((i, models[j].name.clone()));
            }
            j += 1;
        }
        proof {
            lemma_find_model_at(models_view(models@), model_name@, m as int);
        }
        i += 1;
    }
    proof {
        lemma_resolve_none(providers@, model_name@);
    }
    let mut message = String::from_str("model not found: ");
    message.append(model_name.as_str());
    Err(ProviderError { message })
}

/// The concatenation of every provider's catalog, in configuration order,
/// without de-duplication.
pub open spec fn spec_all_models(providers: Seq<ProviderHandle>) -> Seq<ModelView>
    decreases providers.len(),
{
    if providers.len() == 0 {
        seq![]
    } else {
        providers[0].spec_models() + spec_all_models(providers.skip(1))
    }
}

proof fn lemma_all_models_append(a: Seq<ProviderHandle>, b: Seq<ProviderHandle>)
    ensures
        spec_all_models(a + b) == spec_all_models(a) + spec_all_models(b),
    decreases a.len(),
{
    if a.len() == 0 {
        assert(a + b =~= b);
        assert(spec_all_models(a) + spec_all_models(b) =~= spec_all_models(b));
    } else {
        assert((a + b)[0] == a[0]);
        assert((a + b).skip(1) =~= a.skip(1) + b);
        lemma_all_models_append(a.skip(1), b);
        assert(spec_all_models(a + b) =~= spec_all_models(a) + spec_all_models(b));
    }
}

/// Gathers every provider's catalog into one list, in configuration order;
/// duplicate namespaced names, if misconfigured, are passed through as-is.
pub fn list_all_models(providers: &Vec<ProviderHandle>) -> (r: Vec<Model>)
    ensures
        models_view(r@) == spec_all_models(providers@),
{
    let mut r: Vec<Model> = Vec::new();
    let n = providers.len();
    let mut i: usize = 0;
    while i < n
        invariant
            0 <= i <= n,
            n == providers@.len(),
            models_view(r@) == spec_all_models(providers@.take(i as int)),
        decreases n - i,
    {
        let mut ms = providers[i].get_models();
        proof {
            assert(providers@.take(i + 1) =~= providers@.take(i as int) + seq![
                providers@[i as int],
            ]);
            lemma_all_models_append(providers@.take(i as int), seq![providers@[i as int]]);
            assert(seq![providers@[i as int]].skip(1) =~= Seq::<ProviderHandle>::empty());
            assert(spec_all_models(Seq::<ProviderHandle>::empty()) =~= Seq::<ModelView>::empty());
            assert(spec_all_models(seq![providers@[i as int]])
                =~= providers@[i as int].spec_models());
            assert(models_view(r@ + ms@) =~= models_view(r@) + models_view(ms@));
        }
        r.append(&mut ms);
        i += 1;
    }
    proof {
        assert(providers@.take(n as int) =~= providers@);
    }
    r
}

/// The credential a provider is constructed with: the configured secret,
/// or the empty string where none is configured.
pub open spec fn spec_credential_of(secret: Option<String>) -> Seq<char> {
    match secret {
        None => Seq::empty(),
        Some(s) => s@,
    }
}

/// The local model names a configuration entry declares, or none.
pub open spec fn spec_locals_of(models: Option<Vec<String>>) -> Seq<Seq<char>> {
    match models {
        None => seq![],
        Some(v) => v@.map_values(|s: String| s@),
    }
}

/// The namespaced catalog built from a provider's name and its declared
/// local model names: one descriptor per local name, carrying the local
/// name, its namespaced name, and no metadata.
pub open spec fn spec_namespaced_catalog(provider: Seq<char>, locals: Seq<Seq<char>>) -> Seq<
    ModelView,
> {
    Seq::new(
        locals.len(),
        |k: int|
            ModelView {
                name: locals[k],
                model: spec_map_model_name(provider, locals[k]),
                modified_at: None,
                size: None,
                digest: None,
                details: None,
            },
    )
}

/// Whether handle `h` is the provider that configuration entry `info`
/// describes: same wire format, endpoint and credential, and the namespaced
/// catalog of the entry's declared models.
pub open spec fn provider_matches(h: ProviderHandle, info: ProviderInfo) -> bool {
    &&& h.spec_api_type() == info.api_type
    &&& h.spec_base_url() == info.url@
    &&& h.spec_credential() == spec_credential_of(info.secret)
    &&& h.spec_models() == spec_namespaced_catalog(info.name@, spec_locals_of(info.models))
}

/// Builds the runtime providers from the configuration, one per entry and
/// in configuration order: each provider gets the entry's endpoint, its
/// secret (or an empty credential), and the namespaced catalog of its
/// declared models.
pub fn load_providers(config: &Config) -> (r: Vec<ProviderHandle>)
    ensures
        r@.len() == config.providers@.len(),
        forall|i: int| 0 <= i < r@.len() ==> provider_matches(
            #[trigger] r@[i],
            config.providers@[i],
        ),
{
    let mut r: Vec<ProviderHandle> = Vec::new();
    let n = config.providers.len();
    let mut i: usize = 0;
    while i < n
        invariant
            0 <= i <= n,
            n == config.providers@.len(),
            r@.len() == i,
            forall|p: int| 0 <= p < i ==> provider_matches(
                #[trigger] r@[p],
                config.providers@[p],
            ),
        decreases n - i,
    {
        let info = &config.providers[i];
        let secret = match &info.secret {
            Some(s) => s.clone(),
            None => String::new(),
        };
        let ghost cat = spec_namespaced_catalog(info.name@, spec_locals_of(info.models));
        let mut ms: Vec<Model> = Vec::new();
        match &info.models {
            None => {
                proof {
                    assert(models_view(ms@) =~= cat);
                }
            },
            Some(locals) => {
                let m = locals.len();
                let mut j: usize = 0;
                while j < m
                    invariant
                        0 <= j <= m,
                        m == locals@.len(),
                        cat.len() == m,
                        ms@.len() == j,
                        cat == spec_namespaced_catalog(
                            info.name@,
                            locals@.map_values(|s: String| s@),
                        ),
                        forall|q: int| 0 <= q < j ==> models_view(ms@)[q] == cat[q],
                    decreases m - j,
                {
                    let entry = Model {
                        name: locals[j].clone(),
                        model: map_model_name(&info.name, &locals[j]),
                        modified_at: None,
                        size: None,
                        digest: None,
                        details: None,
                    };
                    proof {
                        assert(cat[j as int].name == locals@[j as int]@);
                        assert(entry@ == cat[j as int]);
                        assert(models_view(ms@.push(entry)) =~= models_view(ms@).push(entry@));
                    }
                    ms.push(entry);
                    j += 1;
                }
                proof {
                    assert(models_view(ms@) =~= cat);
                }
            },
        }
        let handle = match info.api_type {
            ApiType::Ollama => ProviderHandle::Ollama(
                OllamaProvider::new(info.url.clone(), secret, ms),
            ),
            ApiType::Openai => ProviderHandle::Openai(
                OpenAIProvider::new(info.url.clone(), secret, ms),
            ),
        };
        proof {
            assert(provider_matches(handle, config.providers@[i as int]));
        }
        r.push(handle);
        i += 1;
    }
    r
}

/// Namespaced names are injective as long as provider names avoid `']'`:
/// distinct (provider, local model) pairs then get distinct namespaced
/// names, so keeping provider names unique keeps namespaced names unique
/// across the whole registry.
pub proof fn lemma_map_model_name_injective(
    p1: Seq<char>,
    m1: Seq<char>,
    p2: Seq<char>,
    m2: Seq<char>,
)
    requires
        !p1.contains(']'),
        !p2.contains(']'),
        spec_map_model_name(p1, m1) == spec_map_model_name(p2, m2),
    ensures
        p1 == p2,
        m1 == m2,
{
    reveal_strlit("[");
    reveal_strlit("]-");
    let s = spec_map_model_name(p1, m1);
    assert("["@.len() == 1 && "]-"@.len() == 2);
    assert("]-"@[0] == ']');
    assert(s.len() == 3 + p1.len() + m1.len());
    assert(s.len() == 3 + p2.len() + m2.len());
    assert forall|i: int| 0 <= i < p1.len() implies s[1 + i] == p1[i] by {
        assert(("["@ + p1)[1 + i] == p1[i]);
        assert((("["@ + p1) + "]-"@)[1 + i] == p1[i]);
    }
    assert forall|i: int| 0 <= i < p2.len() implies s[1 + i] == p2[i] by {
        assert(("["@ + p2)[1 + i] == p2[i]);
        assert((("["@ + p2) + "]-"@)[1 + i] == p2[i]);
    }
    assert((("["@ + p1) + "]-"@)[1 + p1.len() as int] == ']');
    assert(s[1 + p1.len() as int] == ']');
    assert((("["@ + p2) + "]-"@)[1 + p2.len() as int] == ']');
    assert(s[1 + p2.len() as int] == ']');
    if p1.len() < p2.len() {
        assert(s[1 + p1.len() as int] == p2[p1.len() as int]);
        assert(p2.contains(']'));
    }
    if p2.len() < p1.len() {
        assert(s[1 + p2.len() as int] == p1[p2.len() as int]);
        assert(p1.contains(']'));
    }
    assert(p1.len() == p2.len());
    assert(p1 =~= p2);
    assert forall|i: int| 0 <= i < m1.len() implies s[3 + p1.len() as int + i] == m1[i] by {
        assert((("["@ + p1) + "]-"@).len() == 3 + p1.len());
    }
    assert forall|i: int| 0 <= i < m2.len() implies s[3 + p2.len() as int + i] == m2[i] by {
        assert((("["@ + p2) + "]-"@).len() == 3 + p2.len());
    }
    assert(m1 =~= m2);
}

/// Namespacing round-trips. In a registry loaded from a configuration, the
/// namespaced name of provider `P`'s local model `m` resolves to `P` and
/// `m`, provided the name occurs nowhere earlier in the registry's scan
/// order - which holds whenever configuration keeps namespaced names
/// unique, as the data model requires.
pub proof fn lemma_namespacing_round_trip(
    providers: Seq<ProviderHandle>,
    infos: Seq<ProviderInfo>,
    i: int,
    j: int,
)
    requires
        providers.len() == infos.len(),
        forall|p: int| 0 <= p < providers.len() ==> provider_matches(
            #[trigger] providers[p],
            infos[p],
        ),
        0 <= i < infos.len(),
        0 <= j < spec_locals_of(infos[i].models).len(),
        forall|p: int, q: int|
            0 <= p < i && 0 <= q < providers[p].spec_models().len()
                ==> (#[trigger] providers[p].spec_models()[q]).model != spec_map_model_name(
                infos[i].name@,
                spec_locals_of(infos[i].models)[j],
            ),
        forall|q: int| 0 <= q < j ==> (#[trigger] providers[i].spec_models()[q]).model
            != spec_map_model_name(infos[i].name@, spec_locals_of(infos[i].models)[j]),
    ensures
        spec_resolve(providers, spec_map_model_name(infos[i].name@, spec_locals_of(
            infos[i].models)[j])) == Some((i, spec_locals_of(infos[i].models)[j])),
{
    let target = spec_map_model_name(infos[i].name@, spec_locals_of(infos[i].models)[j]);
    assert forall|p: int| 0 <= p < i implies spec_find_model(
        (#[trigger] providers[p]).spec_models(),
        target,
    ) is None by {
        lemma_find_model_at(
            providers[p].spec_models(),
            target,
            providers[p].spec_models().len() as int,
        );
    }
    assert(providers[i].spec_models() == spec_namespaced_catalog(infos[i].name@, spec_locals_of(
        infos[i].models)));
    assert(providers[i].spec_models()[j].model == target);
    lemma_find_model_at(providers[i].spec_models(), target, j);
    lemma_resolve_found(providers, target, i, j);
    assert(providers[i].spec_models()[j].name == spec_locals_of(infos[i].models)[j]);
}

} // verus!

