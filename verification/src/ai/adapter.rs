//! The choice between the language models that the settings know.

use vstd::prelude::*;
use crate::settings::api_keys::ApiKeys;
use crate::text::{same_text, texts};

verus! {

/// The provider of the language model.
#[derive(Debug, PartialEq, Eq, Clone, Copy)]
pub enum AiProvider {
    OpenAi,
    Gemini,
}

/// The provider that a name stands for: `openai` for OpenAI, every other name
/// for Gemini.
pub fn provider_of(name: &str) -> (r: AiProvider)
    ensures
        r == if name@ == "openai"@ {
            AiProvider::OpenAi
        } else {
            AiProvider::Gemini
        },
{
    if same_text(name, "openai") {
        AiProvider::OpenAi
    } else {
        AiProvider::Gemini
    }
}

/// The key of OpenAI is missing: empty, or still the placeholder.
pub open spec fn openai_key_missing(keys: ApiKeys) -> bool {
    keys.openai_api_key@ == "CHANGE_ME"@ || keys.openai_api_key@.len() == 0
}

/// The model of OpenAI that is asked: the one of the settings, `gpt-4o` where
/// they name none. Fails with a message exactly when the key is missing.
pub fn openai_model(keys: &ApiKeys) -> (r: Result<String, String>)
    ensures
        match r {
            Ok(model) => !openai_key_missing(*keys) && model@ == if keys.openai_model@.len() == 0 {
                "gpt-4o"@
            } else {
                keys.openai_model@
            },
            Err(message) => openai_key_missing(*keys) && message@
                == "OpenAI API Key not configured"@,
        },
{
    if same_text(keys.openai_api_key.as_str(), "CHANGE_ME")
        || keys.openai_api_key.as_str().is_empty() {
        return Err("OpenAI API Key not configured".to_owned());
    }
    if keys.openai_model.as_str().is_empty() {
        Ok("gpt-4o".to_owned())
    } else {
        Ok(keys.openai_model.clone())
    }
}

/// The models of OpenAI that are offered.
pub fn openai_models() -> (r: Vec<String>)
    ensures
        texts(r@) == seq!["gpt-4o"@, "gpt-4-turbo"@, "gpt-4"@, "gpt-3.5-turbo"@],
{
    let r = vec![
        "gpt-4o".to_owned(),
        "gpt-4-turbo".to_owned(),
        "gpt-4".to_owned(),
        "gpt-3.5-turbo".to_owned(),
    ];
    assert(texts(r@) =~= seq!["gpt-4o"@, "gpt-4-turbo"@, "gpt-4"@, "gpt-3.5-turbo"@]);
    r
}

} // verus!
