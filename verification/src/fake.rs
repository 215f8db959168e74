//! A self-contained demo provider that serves one fixed model and scripted
//! replies, useful for exercising the gateway without any upstream.

use vstd::prelude::*;

verus! {

use vstd::string::StringExecFns;
use crate::models::{ChatResponse, Message, Model, ModelDetails};
use crate::providers::{clone_models, ProviderError};

/// Whether some model of the catalog has the local name `name`.
pub open spec fn spec_has_model(models: Seq<Model>, name: Seq<char>) -> bool {
    exists|i: int| 0 <= i < models.len() && (#[trigger] models[i])@.name == name
}

/// The content of the last message, or empty where there is none.
pub open spec fn spec_last_content(messages: Seq<Message>) -> Seq<char> {
    if messages.len() == 0 {
        seq![]
    } else {
        messages.last()@.content
    }
}

/// The scripted chunk texts of a fake streamed reply to `last`.
pub open spec fn spec_fake_chunks(last: Seq<char>) -> Seq<Seq<char>> {
    seq![
        "Hello"@,
        ", this"@,
        " is"@,
        " a"@,
        " simulated"@,
        " stream"@,
        " reply"@,
        " to"@,
        " '"@ + last + "'"@,
        "."@,
    ]
}

/// A provider with one fixed model and scripted replies.
pub struct FakeProvider {
    models: Vec<Model>,
}

impl FakeProvider {
    /// The fixed catalog.
    pub closed spec fn spec_models(&self) -> Seq<Model> {
        self.models@
    }

    /// A fake provider whose catalog holds the single model "llama3".
    pub fn new() -> (p: Self)
        ensures
            p.spec_models().len() == 1,
            p.spec_models()[0]@.name == "llama3"@,
            p.spec_models()[0]@.model == "llama3"@,
    {
        let mut families: Vec<String> = Vec::new();
        families.push(String::from_str("llama"));
        let mut models: Vec<Model> = Vec::new();
        models.push(Model {
            name: String::from_str("llama3"),
            model: String::from_str("llama3"),
            modified_at: Some(String::from_str("2024-04-01T00:00:00Z")),
            size: Some(4820852800),
            digest: Some(String::from_str("sha256:1234567890abcdef...")),
            details: Some(ModelDetails {
                format: String::from_str("gguf"),
                family: String::from_str("llama"),
                families,
                parameter_size: String::from_str("8B"),
                quantization_level: String::from_str("Q4_K_M"),
            }),
        });
        FakeProvider { models }
    }

    /// The fixed catalog, in full, for every caller.
    pub fn get_models(&self) -> (r: Vec<Model>)
        ensures
            crate::models::models_view(r@) == crate::models::models_view(self.spec_models()),
    {
        clone_models(&self.models)
    }

    fn has_model(&self, name: &String) -> (r: bool)
        ensures
            r == spec_has_model(self.spec_models(), name@),
    {
        let n = self.models.len();
        let mut i: usize = 0;
        while i < n
            invariant
                0 <= i <= n,
                n == self.models@.len(),
                forall|q: int| 0 <= q < i ==> (#[trigger] self.models@[q])@.name != name@,
            decreases n - i,
        {
            if self.models[i].name == *name {
                return true;
            }
            i += 1;
        }
        false
    }

    /// A scripted synchronous reply: "Replied to: " followed by the last
    /// message's content. A model the catalog does not carry is a
    /// request-scoped error.
    pub fn chat(&self, model: &Model, messages: &Vec<Message>) -> (r: Result<
        String,
        ProviderError,
    >)
        ensures
            r is Ok <==> spec_has_model(self.spec_models(), model@.name),
            r matches Ok(s) ==> s@ == "Replied to: "@ + spec_last_content(messages@),
    {
        if !self.has_model(&model.name) {
            return Err(ProviderError { message: String::from_str("Model not found") });
        }
        let mut s = String::from_str("Replied to: ");
        if messages.len() > 0 {
            s.append(messages[messages.len() - 1].content.as_str());
        } else {
            proof {
                assert("Replied to: "@ + spec_last_content(messages@) =~= "Replied to: "@);
            }
        }
        Ok(s)
    }

    /// A scripted streamed reply: the fixed chunk texts, the ninth quoting
    /// the last message's content. A model the catalog does not carry is a
    /// request-scoped error.
    pub fn chat_stream(&self, model: &Model, messages: &Vec<Message>) -> (r: Result<
        Vec<String>,
        ProviderError,
    >)
        ensures
            r is Ok <==> spec_has_model(self.spec_models(), model@.name),
            r matches Ok(v) ==> v@.map_values(|s: String| s@) == spec_fake_chunks(
                spec_last_content(messages@),
            ),
    {
        if !self.has_model(&model.name) {
            return Err(ProviderError { message: String::from_str("Model not found") });
        }
        let mut quoted = String::from_str(" '");
        if messages.len() > 0 {
            quoted.append(messages[messages.len() - 1].content.as_str());
        } else {
            proof {
                assert(" '"@ + spec_last_content(messages@) =~= " '"@);
            }
        }
        quoted.append("'");
        let mut v: Vec<String> = Vec::new();
        v.push(String::from_str("Hello"));
        v.push(String::from_str(", this"));
        v.push(String::from_str(" is"));
        v.push(String::from_str(" a"));
        v.push(String::from_str(" simulated"));
        v.push(String::from_str(" stream"));
        v.push(String::from_str(" reply"));
        v.push(String::from_str(" to"));
        v.push(quoted);
        v.push(String::from_str("."));
        proof {
            assert(v@.map_values(|s: String| s@) =~= spec_fake_chunks(
                spec_last_content(messages@),
            ));
        }
        Ok(v)
    }
}

/// One line of the fake streamed reply as a chat response: chunk `i` of
/// ten, the last one terminal, with the demo's fixed duration and count
/// figures.
pub fn build_fake_response(model: &String, created_at: String, content: String, i: usize) -> (r:
    ChatResponse)
    requires
        i < 10,
    ensures
        r.model@ == model@,
        r.created_at@ == created_at@,
        r.message.role@ == "assistant"@,
        r.message.content@ == content@,
        r.done == (i == 9),
        r.total_duration == (if i == 9 {
            1234567890u64
        } else {
            0u64
        }),
        r.load_duration == (if i == 0 {
            123456789u64
        } else {
            0u64
        }),
        r.prompt_eval_count == (if i == 0 {
            10u64
        } else {
            0u64
        }),
        r.eval_count == i + 1,
        r.eval_duration == (if i == 9 {
            987654321u64
        } else {
            0u64
        }),
{
    ChatResponse {
        model: model.clone(),
        created_at,
        message: Message { role: String::from_str("assistant"), content },
        done: i == 9,
        total_duration: if i == 9 {
            1234567890
        } else {
            0
        },
        load_duration: if i == 0 {
            123456789
        } else {
            0
        },
        prompt_eval_count: if i == 0 {
            10
        } else {
            0
        },
        eval_count: (i + 1) as u64,
        eval_duration: if i == 9 {
            987654321
        } else {
            0
        },
    }
}

} // verus!
