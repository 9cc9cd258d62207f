//! Which endpoint a provider check talks to, given the provider family and
//! what the user typed.
use vstd::prelude::*;

use crate::text::{chars_of, string_of};
use crate::tui::render::{find_chars, find_text, lemma_find_text_fits};
use crate::tui::transcript::push_str;

verus! {

/// The families of model providers.
#[derive(Clone, Copy, Debug, PartialEq, Eq, Structural)]
pub enum ProviderFamily {
    Anthropic,
    Openai,
    Google,
}

/// The wire protocols a provider speaks.
#[derive(Clone, Copy, Debug, PartialEq, Eq, Structural)]
pub enum ProviderWireApi {
    AnthropicMessages,
    GoogleGenerateContent,
    OpenAIChatCompletions,
    OpenAIResponses,
}

/// The provider family a wire protocol belongs to: first-party protocols to
/// their own family, OpenAI-compatible ones to OpenAI.
pub open spec fn family_of(wire_api: ProviderWireApi) -> ProviderFamily {
    match wire_api {
        ProviderWireApi::AnthropicMessages => ProviderFamily::Anthropic,
        ProviderWireApi::GoogleGenerateContent => ProviderFamily::Google,
        ProviderWireApi::OpenAIChatCompletions | ProviderWireApi::OpenAIResponses => ProviderFamily::Openai,
    }
}

/// The provider family a wire protocol belongs to.
pub fn provider_family_of(wire_api: ProviderWireApi) -> (r: ProviderFamily)
    ensures
        r == family_of(wire_api),
{
    match wire_api {
        ProviderWireApi::AnthropicMessages => ProviderFamily::Anthropic,
        ProviderWireApi::GoogleGenerateContent => ProviderFamily::Google,
        ProviderWireApi::OpenAIChatCompletions | ProviderWireApi::OpenAIResponses => ProviderFamily::Openai,
    }
}

/// `s` without the slashes at its end.
pub open spec fn trim_end_slashes(s: Seq<char>) -> Seq<char>
    decreases s.len(),
{
    if s.len() > 0 && s.last() == '/' {
        trim_end_slashes(s.drop_last())
    } else {
        s
    }
}

/// An OpenAI base URL with its trailing slashes removed and, where the URL
/// names a host and no path, the `/v1` path added.
pub open spec fn normalized_openai_url(url: Seq<char>) -> Seq<char> {
    let t = trim_end_slashes(url);
    match find_text(t, "://"@) {
        None => t,
        Some(i) => if t.skip(i + 3).contains('/') {
            t
        } else {
            t + "/v1"@
        },
    }
}

fn trim_end_slashes_chars(s: &[char]) -> (r: Vec<char>)
    ensures
        r@ == trim_end_slashes(s@),
{
    let mut n: usize = s.len();
    assert(s@.take(n as int) =~= s@);
    while n > 0 && s[n - 1] == '/'
        invariant
            n <= s.len(),
            trim_end_slashes(s@) == trim_end_slashes(s@.take(n as int)),
        decreases n,
    {
        assert(s@.take(n as int).drop_last() =~= s@.take(n - 1));
        n -= 1;
    }
    let mut r: Vec<char> = Vec::new();
    let mut i: usize = 0;
    while i < n
        invariant
            i <= n <= s.len(),
            r@ == s@.take(i as int),
        decreases n - i,
    {
        r.push(s[i]);
        i += 1;
        assert(r@ =~= s@.take(i as int));
    }
    assert(r@ =~= s@.take(n as int));
    r
}

fn contains_char_from(s: &[char], from: usize, c: char) -> (r: bool)
    requires
        from <= s.len(),
    ensures
        r == s@.skip(from as int).contains(c),
{
    let mut i: usize = from;
    while i < s.len()
        invariant
            from <= i <= s.len(),
            forall|k: int| from <= k < i ==> s@[k] != c,
        decreases s.len() - i,
    {
        if s[i] == c {
            assert(s@.skip(from as int)[i - from] == c);
            return true;
        }
        i += 1;
    }
    proof {
        if s@.skip(from as int).contains(c) {
            let k = choose|k: int| 0 <= k < s@.skip(from as int).len() && s@.skip(from as int)[k] == c;
            assert(s@[from + k] == c);
        }
    }
    false
}

/// The OpenAI base URL that a provider check calls.
pub fn normalize_openai_base_url(url: &str) -> (r: String)
    ensures
        r@ == normalized_openai_url(url@),
{
    let t = trim_end_slashes_chars(chars_of(url).as_slice());
    let sep = chars_of("://");
    match find_chars(t.as_slice(), sep.as_slice()) {
        None => string_of(t.as_slice()),
        Some(i) => {
            proof {
                reveal_strlit("://");
                crate::tui::render::lemma_find_text_fits(t@, "://"@);
            }
            if contains_char_from(t.as_slice(), i + 3, '/') {
                string_of(t.as_slice())
            } else {
                let mut out = t;
                push_str(&mut out, "/v1");
                string_of(out.as_slice())
            }
        },
    }
}

/// The endpoint a provider check calls, and the key it sends.
#[derive(Clone, Debug)]
pub struct ValidationEndpoint {
    pub provider: ProviderFamily,
    pub base_url: String,
    pub api_key: Option<String>,
}

/// The base URL used for a provider when none was given.
pub open spec fn default_base_url(provider: ProviderFamily) -> Seq<char> {
    match provider {
        ProviderFamily::Anthropic => "https://api.anthropic.com"@,
        ProviderFamily::Openai => "https://api.openai.com"@,
        ProviderFamily::Google => "https://generativelanguage.googleapis.com"@,
    }
}

/// The message given when a provider that needs a key gets none.
pub open spec fn missing_key_message(provider: ProviderFamily) -> Seq<char> {
    match provider {
        ProviderFamily::Anthropic => "anthropic provider requires an API key"@,
        ProviderFamily::Google => "google provider requires an API key"@,
        ProviderFamily::Openai => Seq::empty(),
    }
}

/// The given base URL, or the provider's default.
pub open spec fn chosen_base_url(provider: ProviderFamily, base_url: Option<Seq<char>>) -> Seq<char> {
    match base_url {
        Some(u) => u,
        None => default_base_url(provider),
    }
}

/// The view of an optional string.
pub open spec fn opt_view(o: Option<String>) -> Option<Seq<char>> {
    match o {
        Some(s) => Some(s@),
        None => None,
    }
}

fn default_base_url_of(provider: ProviderFamily) -> (r: String)
    ensures
        r@ == default_base_url(provider),
{
    match provider {
        ProviderFamily::Anthropic => "https://api.anthropic.com".to_owned(),
        ProviderFamily::Openai => "https://api.openai.com".to_owned(),
        ProviderFamily::Google => "https://generativelanguage.googleapis.com".to_owned(),
    }
}

/// Which endpoint a provider check calls: Anthropic and Google need an API
/// key; each family has its default base URL; an OpenAI base URL is
/// normalized and its key is optional.
pub fn build_validation_provider(provider: ProviderFamily, base_url: Option<String>, api_key: Option<String>) -> (r:
    Result<ValidationEndpoint, String>)
    ensures
        match r {
            Ok(e) => {
                &&& provider == ProviderFamily::Openai || api_key is Some
                &&& e.provider == provider
                &&& opt_view(e.api_key) == opt_view(api_key)
                &&& e.base_url@ == if provider == ProviderFamily::Openai {
                    normalized_openai_url(chosen_base_url(provider, opt_view(base_url)))
                } else {
                    chosen_base_url(provider, opt_view(base_url))
                }
            },
            Err(m) => provider != ProviderFamily::Openai && api_key is None && m@ == missing_key_message(provider),
        },
{
    let url = match base_url {
        Some(u) => u,
        None => default_base_url_of(provider),
    };
    match provider {
        ProviderFamily::Anthropic => match api_key {
            Some(k) => Ok(ValidationEndpoint { provider, base_url: url, api_key: Some(k) }),
            None => Err("anthropic provider requires an API key".to_owned()),
        },
        ProviderFamily::Google => match api_key {
            Some(k) => Ok(ValidationEndpoint { provider, base_url: url, api_key: Some(k) }),
            None => Err("google provider requires an API key".to_owned()),
        },
        ProviderFamily::Openai => {
            let normalized = normalize_openai_base_url(url.as_str());
            Ok(ValidationEndpoint { provider, base_url: normalized, api_key })
        },
    }
}

// ---------------------------------------------------------------- laws

proof fn lemma_trim_end_slashes(s: Seq<char>)
    ensures
        trim_end_slashes(trim_end_slashes(s)) == trim_end_slashes(s),
        trim_end_slashes(s).len() > 0 ==> trim_end_slashes(s).last() != '/',
    decreases s.len(),
{
    if s.len() > 0 && s.last() == '/' {
        lemma_trim_end_slashes(s.drop_last());
    }
}

proof fn lemma_find_text_extend(t: Seq<char>, x: Seq<char>, p: Seq<char>)
    requires
        find_text(t, p) is Some,
    ensures
        find_text(t + x, p) == find_text(t, p),
    decreases t.len(),
{
    lemma_find_text_fits(t, p);
    if crate::text::starts_with(t, p) {
        assert((t + x).take(p.len() as int) =~= t.take(p.len() as int));
    } else {
        let i = find_text(t, p).unwrap();
        assert(i >= 1);
        lemma_find_text_fits(t.drop_first(), p);
        assert((t + x).take(p.len() as int) =~= t.take(p.len() as int));
        lemma_find_text_extend(t.drop_first(), x, p);
        assert((t + x).drop_first() =~= t.drop_first() + x);
    }
}

/// Normalizing an OpenAI base URL a second time changes nothing.
pub proof fn law_normalize_idempotent(url: Seq<char>)
    ensures
        normalized_openai_url(normalized_openai_url(url)) == normalized_openai_url(url),
{
    reveal_strlit("://");
    reveal_strlit("/v1");
    let t = trim_end_slashes(url);
    lemma_trim_end_slashes(url);
    match find_text(t, "://"@) {
        None => {},
        Some(i) => {
            lemma_find_text_fits(t, "://"@);
            if !t.skip(i + 3).contains('/') {
                let n = t + "/v1"@;
                assert(n.last() == '1');
                assert(trim_end_slashes(n) == n);
                lemma_find_text_extend(t, "/v1"@, "://"@);
                assert(n.skip(i + 3)[t.len() - (i + 3)] == '/');
            }
        },
    }
}

} // verus!
