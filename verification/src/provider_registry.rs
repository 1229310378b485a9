//! The model providers that are known by name.
use vstd::prelude::*;
use crate::text;

verus! {

/// Stands for any provider that speaks the protocol of OpenAI's chat completions.
pub const OPENAI_COMPATIBLE: &'static str = "openai_compatible";

/// The names of the known providers.
pub open spec fn known() -> Seq<Seq<char>> {
    seq!["gemini"@, "openai"@, "deepseek"@, "openrouter"@, "anthropic"@]
}

/// Where the chat completions of a known provider are.
pub open spec fn endpoint(name: Seq<char>) -> Option<Seq<char>> {
    if name == "gemini"@ {
        Some("https://generativelanguage.googleapis.com/v1beta/openai/chat/completions"@)
    } else if name == "openai"@ {
        Some("https://api.openai.com/v1/chat/completions"@)
    } else if name == "deepseek"@ {
        Some("https://api.deepseek.com/chat/completions"@)
    } else if name == "openrouter"@ {
        Some("https://openrouter.ai/api/v1/chat/completions"@)
    } else if name == "anthropic"@ {
        Some("https://api.anthropic.com/v1/messages"@)
    } else {
        None
    }
}

/// Where the chat completions of a known provider are.
pub fn lookup(name: &str) -> (r: Option<&'static str>)
    ensures
        r.deep_view() == endpoint(name@),
{
    if text::same(name, "gemini") {
        Some("https://generativelanguage.googleapis.com/v1beta/openai/chat/completions")
    } else if text::same(name, "openai") {
        Some("https://api.openai.com/v1/chat/completions")
    } else if text::same(name, "deepseek") {
        Some("https://api.deepseek.com/chat/completions")
    } else if text::same(name, "openrouter") {
        Some("https://openrouter.ai/api/v1/chat/completions")
    } else if text::same(name, "anthropic") {
        Some("https://api.anthropic.com/v1/messages")
    } else {
        None
    }
}

/// The names of the known providers.
pub fn known_names() -> (r: Vec<String>)
    ensures
        r.deep_view() == known(),
{
    let mut names: Vec<String> = Vec::new();
    names.push("gemini".to_owned());
    names.push("openai".to_owned());
    names.push("deepseek".to_owned());
    names.push("openrouter".to_owned());
    names.push("anthropic".to_owned());
    assert(names.deep_view() =~= known());
    names
}

/// A provider is known by name exactly where there is an endpoint for it.
pub proof fn law_known_providers_have_endpoints(name: Seq<char>)
    ensures
        known().contains(name) <==> endpoint(name) is Some,
{
    if endpoint(name) is Some {
        assert(known()[0] == "gemini"@ && known()[1] == "openai"@ && known()[2] == "deepseek"@
            && known()[3] == "openrouter"@ && known()[4] == "anthropic"@);
        let i: int = if name == "gemini"@ {
            0
        } else if name == "openai"@ {
            1
        } else if name == "deepseek"@ {
            2
        } else if name == "openrouter"@ {
            3
        } else {
            4
        };
        assert(known()[i] == name);
    }
}

/// Each known provider is reached at its own host, over a secure connection.
pub proof fn law_endpoints_are_secure(name: Seq<char>)
    requires
        endpoint(name) is Some,
    ensures
        text::starts_with(endpoint(name)->0, "https://"@),
        name == "openai"@ ==> text::starts_with(endpoint(name)->0, "https://api.openai.com/"@),
        name == "anthropic"@ ==> text::starts_with(
            endpoint(name)->0,
            "https://api.anthropic.com/"@,
        ),
        name == "deepseek"@ ==> text::starts_with(endpoint(name)->0, "https://api.deepseek.com/"@),
        name == "openrouter"@ ==> text::starts_with(endpoint(name)->0, "https://openrouter.ai/"@),
        name == "gemini"@ ==> text::starts_with(
            endpoint(name)->0,
            "https://generativelanguage.googleapis.com/"@,
        ),
{
    reveal_strlit("https://");
    reveal_strlit("gemini");
    reveal_strlit("openai");
    reveal_strlit("deepseek");
    reveal_strlit("openrouter");
    reveal_strlit("anthropic");
    assert("gemini"@[0] == 'g' && "openai"@[0] == 'o' && "deepseek"@[0] == 'd' && "anthropic"@[0]
        == 'a' && "openai"@.len() != "openrouter"@.len() && "openrouter"@[0] == 'o');
    reveal_strlit("https://generativelanguage.googleapis.com/v1beta/openai/chat/completions");
    reveal_strlit("https://generativelanguage.googleapis.com/");
    reveal_strlit("https://api.openai.com/v1/chat/completions");
    reveal_strlit("https://api.openai.com/");
    reveal_strlit("https://api.deepseek.com/chat/completions");
    reveal_strlit("https://api.deepseek.com/");
    reveal_strlit("https://openrouter.ai/api/v1/chat/completions");
    reveal_strlit("https://openrouter.ai/");
    reveal_strlit("https://api.anthropic.com/v1/messages");
    reveal_strlit("https://api.anthropic.com/");
    let url = endpoint(name)->0;
    assert(url.subrange(0, 8) =~= "https://"@);
    if name == "gemini"@ {
        assert(url.subrange(0, 42) =~= "https://generativelanguage.googleapis.com/"@);
    } else if name == "openai"@ {
        assert(url.subrange(0, 23) =~= "https://api.openai.com/"@);
    } else if name == "deepseek"@ {
        assert(url.subrange(0, 25) =~= "https://api.deepseek.com/"@);
    } else if name == "openrouter"@ {
        assert(url.subrange(0, 22) =~= "https://openrouter.ai/"@);
    } else {
        assert(url.subrange(0, 26) =~= "https://api.anthropic.com/"@);
    }
}

} // verus!
