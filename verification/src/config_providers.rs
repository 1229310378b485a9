//! The model providers, the named agents and the keys that the configuration gives.
use vstd::prelude::*;
use vstd::string::*;
use crate::config::{
    AgentDefinition, AgentView, AppConfig, JinaWebBackend, ProviderConfig, ProviderView,
    SlackConfig, SlackMode,
};
use crate::named;
use crate::order;
use crate::outside;
use crate::provider_registry;
use crate::text;

verus! {

broadcast use vstd::string::group_string_axioms;

// ---------------------------------------------------------------------------
// Keys
// ---------------------------------------------------------------------------

/// Whether a key is a template that was not filled in: it is blank, begins with an angle
/// bracket, holds a character that no key has, or is made of the words of a template.
pub open spec fn is_placeholder(key: Seq<char>) -> bool {
    let t = text::trim(key);
    let lower = text::ascii_lower(t);
    t.len() == 0 || t[0] == '<' || !text::is_ascii(t) || lower == "changethis"@ || text::contains(
        lower,
        "optional"@,
    ) || text::contains(lower, "placeholder"@) || text::contains(lower, "replace_me"@)
        || text::contains(lower, "replaceme"@)
}

fn all_ascii(chars: &Vec<char>) -> (r: bool)
    ensures
        r == text::is_ascii(chars@),
{
    let mut i: usize = 0;
    while i < chars.len()
        invariant
            i <= chars@.len(),
            forall|k: int| 0 <= k < i ==> (#[trigger] chars@[k] as u32) < 0x80,
        decreases chars@.len() - i,
    {
        if chars[i] as u32 >= 0x80 {
            assert(!((chars@[i as int] as u32) < 0x80));
            return false;
        }
        i = i + 1;
    }
    true
}

/// Decides whether a key is a template that was not filled in.
pub fn api_key_looks_like_placeholder(s: &str) -> (r: bool)
    ensures
        r == is_placeholder(s@),
{
    let t: String = text::trimmed(s);
    let chars: Vec<char> = text::chars_of(t.as_str());
    if chars.len() == 0 || chars[0] == '<' {
        return true;
    }
    if !all_ascii(&chars) {
        return true;
    }
    let lower: String = text::to_ascii_lower(t.as_str());
    let l: &str = lower.as_str();
    text::same(l, "changethis") || text::has(l, "optional") || text::has(l, "placeholder")
        || text::has(l, "replace_me") || text::has(l, "replaceme")
}

/// The key that the settings give, trimmed, unless it is a template.
pub open spec fn usable_key(key: Option<String>) -> Option<Seq<char>> {
    match key {
        Some(k) => if is_placeholder(text::trim(k@)) {
            None
        } else {
            Some(text::trim(k@))
        },
        None => None,
    }
}

fn find_usable_key(key: &Option<String>) -> (r: Option<String>)
    ensures
        r.deep_view() == usable_key(*key),
{
    match key {
        Some(k) => {
            let t: String = text::trimmed(k.as_str());
            if api_key_looks_like_placeholder(t.as_str()) {
                None
            } else {
                Some(t)
            }
        },
        None => None,
    }
}

/// A blank key is a template.
pub proof fn law_blank_key_is_placeholder(key: Seq<char>)
    requires
        text::trim(key).len() == 0,
    ensures
        is_placeholder(key),
{
}

impl AppConfig {
    /// The Jina web backend, where it is on.
    pub fn jina_web_backend(&self) -> (r: Option<JinaWebBackend>)
        ensures
            match self.jina {
                Some(j) => if j.enabled == Some(true) {
                    r matches Some(b) && b.api_key.deep_view() == usable_key(j.api_key)
                } else {
                    r is None
                },
                None => r is None,
            },
    {
        match &self.jina {
            None => None,
            Some(j) => {
                let on: bool = match j.enabled {
                    Some(v) => v,
                    None => false,
                };
                if on {
                    Some(JinaWebBackend { api_key: find_usable_key(&j.api_key) })
                } else {
                    None
                }
            },
        }
    }
}

impl SlackConfig {
    /// How Slack delivers its messages; by a webhook where nothing is said.
    pub fn mode(&self) -> (r: SlackMode)
        ensures
            r == match self.mode {
                Some(m) => m,
                None => SlackMode::Webhook,
            },
    {
        match self.mode {
            Some(m) => m,
            None => SlackMode::Webhook,
        }
    }
}

// ---------------------------------------------------------------------------
// One provider
// ---------------------------------------------------------------------------

/// The variable of the environment that holds a provider's key.
pub open spec fn key_variable(p: ProviderView) -> Seq<char> {
    if p.api_key_env.len() > 0 {
        p.api_key_env
    } else {
        outside::upper_case(p.provider_name) + "_API_KEY"@
    }
}

/// Why a provider's endpoint is not known.
pub open spec fn unknown_provider(name: Seq<char>) -> Seq<char> {
    if name == provider_registry::OPENAI_COMPATIBLE@ {
        "[provider] provider_name = \"openai_compatible\" requires base_url"@
    } else {
        "[provider] unknown provider_name '"@ + name + "'; expected one of ["@ + text::join(
            provider_registry::known().push(provider_registry::OPENAI_COMPATIBLE@),
            ", "@,
        ) + "]"@
    }
}

/// A provider's endpoint: the one that is set, or else the one that is known.
pub open spec fn endpoint_of(p: ProviderView) -> Option<Seq<char>> {
    let set = match p.base_url {
        Some(url) => text::non_blank(url),
        None => None,
    };
    match set {
        Some(url) => Some(url),
        None => provider_registry::endpoint(p.provider_name),
    }
}

impl ProviderConfig {
    /// The variable of the environment that holds the key: the one that is set, or else one
    /// that is named after the provider.
    pub fn resolved_api_key_env(&self) -> (r: String)
        ensures
            r@ == key_variable(self.deep_view()),
            self.api_key_env@.len() == 0 && text::is_ascii(self.provider_name@) ==> r@
                == text::ascii_upper(self.provider_name@) + "_API_KEY"@,
    {
        if !self.api_key_env.as_str().is_empty() {
            return self.api_key_env.clone();
        }
        let mut out: String = outside::to_upper_case(self.provider_name.as_str());
        out.append("_API_KEY");
        out
    }

    /// The key: the value of the variable of the environment, where it is not empty, or else
    /// the one that is set.
    pub fn resolve_api_key(&self, env_value: &Option<String>) -> (r: Result<String, String>)
        ensures
            if env_value matches Some(v) && v@.len() > 0 {
                r matches Ok(k) && k@ == env_value->0@
            } else {
                match usable_key(self.api_key) {
                    Some(key) => r matches Ok(k) && k@ == key,
                    None => r matches Err(e) && e@ == "No API key found (checked env $"@
                        + key_variable(self.deep_view()) + " and config api_key)"@,
                }
            },
    {
        if let Some(v) = env_value {
            if !v.as_str().is_empty() {
                return Ok(v.clone());
            }
        }
        match find_usable_key(&self.api_key) {
            Some(k) => Ok(k),
            None => {
                let variable: String = self.resolved_api_key_env();
                let mut why: String = "No API key found (checked env $".to_owned();
                why.append(variable.as_str());
                why.append(" and config api_key)");
                Err(why)
            },
        }
    }

    /// Where the chat completions are.
    pub fn resolved_base_url(&self) -> (r: Result<String, String>)
        ensures
            match endpoint_of(self.deep_view()) {
                Some(url) => r matches Ok(s) && s@ == url,
                None => r matches Err(e) && e@ == unknown_provider(self.provider_name@),
            },
    {
        if let Some(url) = &self.base_url {
            if let Some(clean) = text::non_blank_text(url.as_str()) {
                return Ok(clean);
            }
        }
        if let Some(url) = provider_registry::lookup(self.provider_name.as_str()) {
            return Ok(url.to_owned());
        }
        if text::same(self.provider_name.as_str(), provider_registry::OPENAI_COMPATIBLE) {
            return Err(
                "[provider] provider_name = \"openai_compatible\" requires base_url".to_owned(),
            );
        }
        let mut allowed: Vec<String> = provider_registry::known_names();
        let ghost known = allowed.deep_view();
        allowed.push(provider_registry::OPENAI_COMPATIBLE.to_owned());
        assert(allowed.deep_view() =~= known.push(provider_registry::OPENAI_COMPATIBLE@));
        let names: String = text::joined(allowed.as_slice(), ", ");
        let mut why: String = "[provider] unknown provider_name '".to_owned();
        why.append(self.provider_name.as_str());
        why.append("'; expected one of [");
        why.append(names.as_str());
        why.append("]");
        Err(why)
    }
}

// ---------------------------------------------------------------------------
// All providers
// ---------------------------------------------------------------------------

/// The providers by name.
pub type Providers = Map<Seq<char>, ProviderView>;

/// Whether an entry gives a provider under the name: one for each of its models, or one
/// under its own name where it has a single model.
pub open spec fn provides(key: Seq<char>, p: ProviderView, name: Seq<char>) -> bool {
    match p.models {
        Some(models) => models.contains(name),
        None => p.model_name.len() > 0 && name == key,
    }
}

/// The provider that an entry gives under the name. An entry that names no provider is
/// one of the provider that it is named after.
pub open spec fn provided(key: Seq<char>, p: ProviderView, name: Seq<char>) -> ProviderView {
    ProviderView {
        provider_name: if p.provider_name.len() == 0 {
            key
        } else {
            p.provider_name
        },
        model_name: if p.models is Some {
            name
        } else {
            p.model_name
        },
        models: None,
        ..p
    }
}

/// Whether the entry is the one that counts under the name: no entry that gives a provider
/// under it comes later.
pub open spec fn counts(
    entries: Providers,
    keys: Set<Seq<char>>,
    key: Seq<char>,
    name: Seq<char>,
) -> bool {
    keys.contains(key) && provides(key, entries[key], name) && forall|other: Seq<char>| #[trigger]
        keys.contains(other) && provides(other, entries[other], name) ==> other == key
            || order::before(other, key)
}

/// Whether the result is what the entries with the keys give: under each name the provider
/// of the entry that counts.
pub open spec fn is_expansion(
    entries: Providers,
    keys: Set<Seq<char>>,
    result: Providers,
) -> bool {
    &&& forall|name: Seq<char>| #[trigger]
        result.contains_key(name) ==> exists|key: Seq<char>| #[trigger]
            counts(entries, keys, key, name) && result[name] == provided(key, entries[key], name)
    &&& forall|name: Seq<char>, key: Seq<char>|
        keys.contains(key) && #[trigger] provides(key, entries[key], name)
            ==> result.contains_key(name)
}

/// What the entries give is settled: no two results differ.
pub proof fn law_expansion_is_unique(
    entries: Providers,
    keys: Set<Seq<char>>,
    a: Providers,
    b: Providers,
)
    requires
        is_expansion(entries, keys, a),
        is_expansion(entries, keys, b),
    ensures
        a == b,
{
    assert forall|name: Seq<char>| a.contains_key(name) implies b.contains_key(name) by {
        let key = choose|key: Seq<char>| #[trigger]
            counts(entries, keys, key, name) && a[name] == provided(key, entries[key], name);
        assert(provides(key, entries[key], name));
    }
    assert forall|name: Seq<char>| b.contains_key(name) implies a.contains_key(name) by {
        let key = choose|key: Seq<char>| #[trigger]
            counts(entries, keys, key, name) && b[name] == provided(key, entries[key], name);
        assert(provides(key, entries[key], name));
    }
    assert forall|name: Seq<char>| a.contains_key(name) implies a[name] == b[name] by {
        let ka = choose|key: Seq<char>| #[trigger]
            counts(entries, keys, key, name) && a[name] == provided(key, entries[key], name);
        let kb = choose|key: Seq<char>| #[trigger]
            counts(entries, keys, key, name) && b[name] == provided(key, entries[key], name);
        assert(keys.contains(ka) && keys.contains(kb));
        if ka != kb {
            order::lemma_before_asymmetric(ka, kb);
        }
    }
    assert(a =~= b);
}

/// The providers with those that the entry gives for the models in place of others.
pub open spec fn overlaid(
    base: Providers,
    key: Seq<char>,
    p: ProviderView,
    names: Seq<Seq<char>>,
) -> Providers {
    Map::new(
        |name: Seq<char>| base.contains_key(name) || names.contains(name),
        |name: Seq<char>|
            if names.contains(name) {
                provided(key, p, name)
            } else {
                base[name]
            },
    )
}

/// The names under which the entry gives a provider.
pub open spec fn names_given(key: Seq<char>, p: ProviderView) -> Seq<Seq<char>> {
    match p.models {
        Some(models) => models,
        None => if p.model_name.len() > 0 {
            seq![key]
        } else {
            Seq::empty()
        },
    }
}

proof fn lemma_overlay_expands(
    entries: Providers,
    keys: Set<Seq<char>>,
    base: Providers,
    key: Seq<char>,
)
    requires
        is_expansion(entries, keys, base),
        forall|other: Seq<char>| #[trigger] keys.contains(other) ==> order::before(other, key),
    ensures
        is_expansion(
            entries,
            keys.insert(key),
            overlaid(base, key, entries[key], names_given(key, entries[key])),
        ),
{
    let names = names_given(key, entries[key]);
    let result = overlaid(base, key, entries[key], names);
    let all = keys.insert(key);
    assert forall|name: Seq<char>| names.contains(name) == provides(
        key,
        entries[key],
        name,
    ) by {
        if entries[key].models is None && entries[key].model_name.len() > 0 {
            assert(names[0] == key);
        }
    }
    assert forall|name: Seq<char>| #[trigger] result.contains_key(name) implies exists|
        k: Seq<char>,
    | #[trigger]
        counts(entries, all, k, name) && result[name] == provided(k, entries[k], name) by {
        if names.contains(name) {
            assert(provides(key, entries[key], name));
            assert(counts(entries, all, key, name));
        } else {
            assert(base.contains_key(name));
            let k = choose|k: Seq<char>| #[trigger]
                counts(entries, keys, k, name) && base[name] == provided(k, entries[k], name);
            assert(!provides(key, entries[key], name));
            assert forall|other: Seq<char>| #[trigger]
                all.contains(other) && provides(other, entries[other], name) implies other == k
                || order::before(other, k) by {
                assert(other != key);
                assert(keys.contains(other));
            }
            assert(counts(entries, all, k, name));
        }
    }
    assert forall|name: Seq<char>, k: Seq<char>|
        all.contains(k) && #[trigger] provides(k, entries[k], name) implies result.contains_key(
        name,
    ) by {
        if k == key {
            assert(names.contains(name));
        } else {
            assert(keys.contains(k));
        }
    }
}

fn overlay_models(
    result: &mut Vec<(String, ProviderConfig)>,
    key: &str,
    cfg: &ProviderConfig,
    provider_name: &str,
    models: &Vec<String>,
)
    requires
        named::names_once(old(result)@),
        cfg.models.deep_view() == Some(models.deep_view()),
        provider_name@ == if cfg.provider_name@.len() == 0 {
            key@
        } else {
            cfg.provider_name@
        },
    ensures
        named::names_once(final(result)@),
        named::as_map(final(result)@) == overlaid(
            named::as_map(old(result)@),
            key@,
            cfg.deep_view(),
            models.deep_view(),
        ),
{
    let ghost base = named::as_map(result@);
    let ghost names = models.deep_view();
    let ghost p = cfg.deep_view();
    let mut i: usize = 0;
    assert(named::as_map(result@) =~= overlaid(base, key@, p, names.take(0)));
    while i < models.len()
        invariant
            i <= models@.len(),
            names == models.deep_view(),
            p == cfg.deep_view(),
            p.models == Some(names),
            provider_name@ == if cfg.provider_name@.len() == 0 {
                key@
            } else {
                cfg.provider_name@
            },
            base == named::as_map(old(result)@),
            named::names_once(result@),
            named::as_map(result@) == overlaid(base, key@, p, names.take(i as int)),
        decreases models@.len() - i,
    {
        let ghost before = named::as_map(result@);
        let model: &String = &models[i];
        let ghost name = names[i as int];
        assert(name == model@);
        let expanded: ProviderConfig = cfg.for_model(provider_name, model.as_str());
        assert(expanded.deep_view() == provided(key@, p, name));
        named::put(result, model.as_str(), expanded);
        proof {
            let now = names.take(i + 1);
            let was = names.take(i as int);
            assert(now =~= was.push(name));
            assert forall|n: Seq<char>| now.contains(n) == (was.contains(n) || n == name) by {
                if was.contains(n) {
                    let k = choose|k: int| 0 <= k < was.len() && was[k] == n;
                    assert(now[k] == n);
                }
                assert(now[i as int] == name);
            }
            assert(named::as_map(result@) =~= overlaid(base, key@, p, now));
        }
        i = i + 1;
    }
    assert(names.take(i as int) =~= names);
}

impl AppConfig {
    /// The entries for providers.
    pub open spec fn provider_entries(self) -> Providers {
        match self.providers {
            Some(list) => named::as_map(list@),
            None => Map::empty(),
        }
    }

    /// Whether every provider and every agent is listed once.
    pub open spec fn lists_once(self) -> bool {
        &&& self.providers matches Some(list) ==> named::names_once(list@)
        &&& named::names_once(self.agents@)
        &&& self.harness matches Some(h) ==> named::names_once(h.agents@)
    }

    /// The providers, one for each model. Where two entries give one under the same name,
    /// that of the later key counts.
    pub fn expanded_providers(&self) -> (r: Vec<(String, ProviderConfig)>)
        requires
            self.lists_once(),
        ensures
            named::names_once(r@),
            is_expansion(
                self.provider_entries(),
                self.provider_entries().dom(),
                named::as_map(r@),
            ),
    {
        let mut result: Vec<(String, ProviderConfig)> = Vec::new();
        let ghost entries = self.provider_entries();
        proof {
            assert(named::as_map(result@) =~= Map::empty());
            assert(is_expansion(entries, Set::empty(), named::as_map(result@)));
        }
        let list: &Vec<(String, ProviderConfig)> = match &self.providers {
            Some(l) => l,
            None => {
                assert(entries.dom() =~= Set::empty());
                return result;
            },
        };
        let mut keys: Vec<String> = Vec::new();
        let mut i: usize = 0;
        assert(keys.deep_view().to_set() =~= Set::empty());
        while i < list.len()
            invariant
                i <= list@.len(),
                named::names_once(list@),
                entries == named::as_map(list@),
                order::strictly_sorted(keys.deep_view()),
                forall|name: Seq<char>| #[trigger]
                    keys.deep_view().to_set().contains(name) <==> exists|k: int|
                        0 <= k < i && (#[trigger] list@[k]).0@ == name,
            decreases list@.len() - i,
        {
            let ghost before = keys.deep_view().to_set();
            order::insert_sorted(&mut keys, list[i].0.clone());
            proof {
                let after = keys.deep_view().to_set();
                assert forall|name: Seq<char>| #[trigger] after.contains(name) <==> exists|k: int|
                    0 <= k < i + 1 && (#[trigger] list@[k]).0@ == name by {
                    assert(after == before.insert(list@[i as int].0@));
                    if before.contains(name) {
                        let k = choose|k: int| 0 <= k < i && (#[trigger] list@[k]).0@ == name;
                        assert(list@[k].0@ == name);
                    }
                    if exists|k: int| 0 <= k < i + 1 && (#[trigger] list@[k]).0@ == name {
                        let k = choose|k: int| 0 <= k < i + 1 && (#[trigger] list@[k]).0@ == name;
                        if k < i {
                            assert(before.contains(name));
                        }
                    }
                }
            }
            i = i + 1;
        }
        let ghost sorted = keys.deep_view();
        assert(sorted.to_set() =~= entries.dom());
        let mut k: usize = 0;
        assert(sorted.take(0).to_set() =~= Set::empty());
        while k < keys.len()
            invariant
                k <= keys@.len(),
                sorted == keys.deep_view(),
                order::strictly_sorted(sorted),
                sorted.to_set() == entries.dom(),
                named::names_once(list@),
                entries == named::as_map(list@),
                named::names_once(result@),
                is_expansion(entries, sorted.take(k as int).to_set(), named::as_map(result@)),
            decreases keys@.len() - k,
        {
            let key: &String = &keys[k];
            let ghost done = sorted.take(k as int).to_set();
            let ghost base = named::as_map(result@);
            assert(sorted[k as int] == key@);
            assert(sorted.to_set().contains(key@));
            assert(entries.contains_key(key@));
            match named::find(list, key.as_str()) {
                None => {
                    assert(false);
                },
                Some(at) => {
                    let cfg: &ProviderConfig = &list[at].1;
                    proof {
                        named::lemma_value_at(list@, at as int);
                        assert(entries[key@] == cfg.deep_view());
                        assert forall|other: Seq<char>| #[trigger]
                            done.contains(other) implies order::before(other, key@) by {
                            let j = choose|j: int|
                                0 <= j < sorted.take(k as int).len() && sorted.take(k as int)[j]
                                    == other;
                            assert(sorted[j] == other);
                        }
                        lemma_overlay_expands(entries, done, base, key@);
                    }
                    let provider_name: String = if cfg.provider_name.as_str().is_empty() {
                        key.clone()
                    } else {
                        cfg.provider_name.clone()
                    };
                    match &cfg.models {
                        Some(models) => {
                            overlay_models(
                                &mut result,
                                key.as_str(),
                                cfg,
                                provider_name.as_str(),
                                models,
                            );
                        },
                        None => {
                            if !cfg.model_name.as_str().is_empty() {
                                let single: ProviderConfig = cfg.for_model(
                                    provider_name.as_str(),
                                    cfg.model_name.as_str(),
                                );
                                assert(single.deep_view() == provided(
                                    key@,
                                    cfg.deep_view(),
                                    key@,
                                ));
                                named::put(&mut result, key.as_str(), single);
                                proof {
                                    let names = seq![key@];
                                    assert(names[0] == key@);
                                    assert(named::as_map(result@) =~= overlaid(
                                        base,
                                        key@,
                                        cfg.deep_view(),
                                        names,
                                    ));
                                }
                            } else {
                                assert(base =~= overlaid(
                                    base,
                                    key@,
                                    cfg.deep_view(),
                                    Seq::empty(),
                                ));
                            }
                        },
                    }
                    proof {
                        let now = sorted.take(k + 1);
                        assert(now =~= sorted.take(k as int).push(key@));
                        assert(now.to_set() =~= done.insert(key@)) by {
                            assert(now[k as int] == key@);
                            assert forall|n: Seq<char>| done.contains(n) implies now.contains(n) by {
                                let j = choose|j: int|
                                    0 <= j < sorted.take(k as int).len() && sorted.take(
                                        k as int,
                                    )[j] == n;
                                assert(now[j] == n);
                            }
                        }
                    }
                },
            }
            k = k + 1;
        }
        assert(sorted.take(k as int) =~= sorted);
        result
    }
}

// ---------------------------------------------------------------------------
// Named agents
// ---------------------------------------------------------------------------

/// The named agents.
pub type Agents = Map<Seq<char>, AgentView>;

impl AppConfig {
    /// The named agents: those at the top, with those of the harness in place of others of
    /// the same name.
    pub open spec fn agents_by_name(self) -> Agents {
        let top = named::as_map(self.agents@);
        match self.harness {
            Some(h) => top.union_prefer_right(named::as_map(h.agents@)),
            None => top,
        }
    }

    /// The named agents.
    pub fn agent_definitions(&self) -> (r: Vec<(String, AgentDefinition)>)
        requires
            self.lists_once(),
        ensures
            named::names_once(r@),
            named::as_map(r@) == self.agents_by_name(),
    {
        let mut merged: Vec<(String, AgentDefinition)> = Vec::new();
        assert(named::as_map(merged@) =~= Map::<Seq<char>, AgentView>::empty());
        copy_agents(&mut merged, &self.agents);
        assert(named::as_map(merged@) =~= named::as_map(self.agents@));
        if let Some(h) = &self.harness {
            copy_agents(&mut merged, &h.agents);
        }
        merged
    }

    /// The tools that sub-agents may call, in order; all of them where there is no list or
    /// an empty one.
    pub fn subagent_allowed_tools_set(&self) -> (r: Option<Vec<String>>)
        ensures
            match self.subagents_table() {
                Some(t) => match t.allowed_tools {
                    Some(list) => if list@.len() == 0 {
                        r is None
                    } else {
                        r matches Some(tools) && order::strictly_sorted(tools.deep_view())
                            && tools.deep_view().to_set() == list.deep_view().to_set()
                    },
                    None => r is None,
                },
                None => r is None,
            },
    {
        match &self.harness {
            Some(h) => match &h.subagents {
                Some(t) => match &t.allowed_tools {
                    Some(list) => {
                        if list.len() == 0 {
                            None
                        } else {
                            Some(sorted_set(list))
                        }
                    },
                    None => None,
                },
                None => None,
            },
            None => None,
        }
    }
}

fn copy_agents(merged: &mut Vec<(String, AgentDefinition)>, from: &Vec<(String, AgentDefinition)>)
    requires
        named::names_once(old(merged)@),
        named::names_once(from@),
    ensures
        named::names_once(final(merged)@),
        named::as_map(final(merged)@) == named::as_map(old(merged)@).union_prefer_right(
            named::as_map(from@),
        ),
{
    let ghost base = named::as_map(merged@);
    let mut i: usize = 0;
    assert(named::as_map(merged@) =~= base.union_prefer_right(named::as_map(from@.take(0))));
    while i < from.len()
        invariant
            i <= from@.len(),
            named::names_once(from@),
            base == named::as_map(old(merged)@),
            named::names_once(merged@),
            named::as_map(merged@) == base.union_prefer_right(
                named::as_map(from@.take(i as int)),
            ),
        decreases from@.len() - i,
    {
        let copy: AgentDefinition = from[i].1.duplicate();
        named::put(merged, from[i].0.as_str(), copy);
        proof {
            let was = from@.take(i as int);
            let now = from@.take(i + 1);
            let name = from@[i as int].0@;
            assert(named::names_once(was) && named::names_once(now));
            assert(now =~= was.push(from@[i as int]));
            assert(named::as_map(now) =~= named::as_map(was).insert(name, copy.deep_view())) by {
                assert forall|n: Seq<char>| named::as_map(now).dom().contains(n)
                    == named::as_map(was).insert(name, copy.deep_view()).dom().contains(n) by {
                    assert(now[i as int].0@ == name);
                    if named::has_name(was, n) {
                        let k = choose|k: int| 0 <= k < was.len() && (#[trigger] was[k]).0@ == n;
                        assert(now[k].0@ == n);
                    }
                    if named::has_name(now, n) && n != name {
                        let k = choose|k: int| 0 <= k < now.len() && (#[trigger] now[k]).0@ == n;
                        assert(was[k].0@ == n);
                    }
                }
                assert forall|n: Seq<char>| named::as_map(now).dom().contains(
                    n,
                ) implies named::as_map(now)[n] == named::as_map(was).insert(
                    name,
                    copy.deep_view(),
                )[n] by {
                    if n == name {
                        named::lemma_value_at(now, i as int);
                    } else {
                        let k = choose|k: int| 0 <= k < now.len() && (#[trigger] now[k]).0@ == n;
                        assert(was[k] == now[k]);
                        named::lemma_value_at(now, k);
                        named::lemma_value_at(was, k);
                    }
                }
            }
            assert(named::as_map(merged@) =~= base.union_prefer_right(named::as_map(now)));
        }
        i = i + 1;
    }
    assert(from@.take(i as int) =~= from@);
}

/// The texts of the list in order, each once.
pub fn sorted_set(list: &Vec<String>) -> (r: Vec<String>)
    ensures
        order::strictly_sorted(r.deep_view()),
        r.deep_view().to_set() == list.deep_view().to_set(),
{
    let ghost all = list.deep_view();
    let mut sorted: Vec<String> = Vec::new();
    let mut i: usize = 0;
    assert(sorted.deep_view().to_set() =~= all.take(0).to_set());
    while i < list.len()
        invariant
            i <= list@.len(),
            all == list.deep_view(),
            order::strictly_sorted(sorted.deep_view()),
            sorted.deep_view().to_set() == all.take(i as int).to_set(),
        decreases list@.len() - i,
    {
        order::insert_sorted(&mut sorted, list[i].clone());
        proof {
            let was = all.take(i as int);
            let now = all.take(i + 1);
            assert(now =~= was.push(all[i as int]));
            assert(now.to_set() =~= was.to_set().insert(all[i as int])) by {
                assert(now[i as int] == all[i as int]);
                assert forall|x: Seq<char>| was.contains(x) implies now.contains(x) by {
                    let k = choose|k: int| 0 <= k < was.len() && was[k] == x;
                    assert(now[k] == x);
                }
            }
        }
        i = i + 1;
    }
    assert(all.take(i as int) =~= all);
    sorted
}

/// An agent of the harness counts before one of the same name at the top.
pub proof fn law_harness_agents_override(config: AppConfig, name: Seq<char>)
    requires
        config.harness matches Some(h) && named::has_name(h.agents@, name),
    ensures
        config.agents_by_name().contains_key(name),
        config.agents_by_name()[name] == named::as_map(config.harness->0.agents@)[name],
{
}

// ---------------------------------------------------------------------------
// Laws
// ---------------------------------------------------------------------------

/// A key is taken for a template where it says so, in any case: where it begins with an angle
/// bracket, holds a character that is not ASCII, or holds one of the words of a template. Any
/// other key that is not blank is used, trimmed.
pub proof fn law_templates_are_not_used(
    key: String,
    before: Seq<char>,
    after: Seq<char>,
    word: Seq<char>,
)
    requires
        seq!["optional"@, "placeholder"@, "replace_me"@, "replaceme"@].contains(word),
    ensures
        text::ascii_lower(text::trim(key@)) == before + word + after ==> usable_key(Some(key))
            is None,
        text::trim(key@).len() > 0 && text::trim(key@)[0] == '<' ==> usable_key(Some(key)) is None,
        text::trim(key@).len() == 0 ==> usable_key(Some(key)) is None,
        !text::is_ascii(text::trim(key@)) ==> usable_key(Some(key)) is None,
        usable_key(None) is None,
        text::trim(key@).len() > 0 && text::trim(key@)[0] != '<' && text::is_ascii(
            text::trim(key@),
        ) && text::ascii_lower(text::trim(key@)) != "changethis"@ && !text::contains(
            text::ascii_lower(text::trim(key@)),
            "optional"@,
        ) && !text::contains(text::ascii_lower(text::trim(key@)), "placeholder"@)
            && !text::contains(text::ascii_lower(text::trim(key@)), "replace"@) ==> usable_key(
            Some(key),
        ) == Some(text::trim(key@)),
{
    let t = text::trim(key@);
    let lower = text::ascii_lower(t);
    text::lemma_trim_idempotent(key@);
    text::lemma_contains_middle(before, word, after);
    reveal_strlit("replace");
    reveal_strlit("replace_me");
    reveal_strlit("replaceme");
    if text::contains(lower, "replace_me"@) {
        let at = choose|at: int| #[trigger] text::occurs_at(lower, "replace_me"@, at);
        assert("replace_me"@.take(7) =~= "replace"@);
        assert(lower.subrange(at, at + 7) =~= lower.subrange(at, at + 10).take(7));
        assert(text::occurs_at(lower, "replace"@, at));
    }
    if text::contains(lower, "replaceme"@) {
        let at = choose|at: int| #[trigger] text::occurs_at(lower, "replaceme"@, at);
        assert("replaceme"@.take(7) =~= "replace"@);
        assert(lower.subrange(at, at + 7) =~= lower.subrange(at, at + 9).take(7));
        assert(text::occurs_at(lower, "replace"@, at));
    }
}

/// The variable that is set holds the key, and else the one that is named after the provider.
pub proof fn law_key_is_looked_for_by_name(p: ProviderView)
    ensures
        p.api_key_env.len() > 0 ==> key_variable(p) == p.api_key_env,
        p.api_key_env.len() == 0 ==> key_variable(p) == outside::upper_case(p.provider_name)
            + "_API_KEY"@,
{
}

/// An address that is set counts, trimmed, before the one that is known of the provider; a blank
/// one does not.
pub proof fn law_set_address_counts(p: ProviderView, url: Seq<char>)
    ensures
        p.base_url == Some(url) && text::trim(url).len() > 0 ==> endpoint_of(p) == Some(
            text::trim(url),
        ),
        p.base_url == Some(url) && text::trim(url).len() == 0 ==> endpoint_of(p)
            == provider_registry::endpoint(p.provider_name),
        p.base_url is None ==> endpoint_of(p) == provider_registry::endpoint(p.provider_name),
{
}

/// The refusal of a provider that is not known names it, and names those that are.
pub proof fn law_unknown_provider_is_named(name: Seq<char>, i: int)
    requires
        name != "openai_compatible"@,
        0 <= i < 5,
    ensures
        text::contains(unknown_provider(name), name),
        text::contains(
            unknown_provider(name),
            seq!["gemini"@, "openai"@, "deepseek"@, "openrouter"@, "anthropic"@][i],
        ),
{
    let all = provider_registry::known().push(provider_registry::OPENAI_COMPATIBLE@);
    let known = seq!["gemini"@, "openai"@, "deepseek"@, "openrouter"@, "anthropic"@];
    let list = text::join(all, ", "@);
    let head = "[provider] unknown provider_name '"@;
    let mid = "'; expected one of ["@;
    text::lemma_contains_middle(head, name, mid + list + "]"@);
    assert(unknown_provider(name) =~= head + name + (mid + list + "]"@));
    assert(all =~= all.take(i) + seq![known[i]] + all.skip(i + 1));
    text::lemma_join_contains(all.take(i), known[i], all.skip(i + 1), ", "@);
    text::lemma_contains_behind(head + name + mid, list, known[i]);
    text::lemma_contains_longer(head + name + mid + list, "]"@, known[i]);
}

/// Every model of every entry can be had under its name, with the address and the key of an
/// entry that lists it; an entry with a single model can be had under its own name. Nothing else
/// can be had.
pub proof fn law_every_model_can_be_had(
    entries: Providers,
    keys: Set<Seq<char>>,
    result: Providers,
    key: Seq<char>,
    name: Seq<char>,
)
    requires
        is_expansion(entries, keys, result),
        keys.contains(key),
    ensures
        entries[key].models matches Some(models) ==> (models.contains(name)
            ==> result.contains_key(name)),
        entries[key].models is None && entries[key].model_name.len() > 0 ==> result.contains_key(
            key,
        ),
        (entries[key].models matches Some(models) && models.contains(name) && forall|other: Seq<
            char,
        >| #[trigger]
            keys.contains(other) && other != key ==> !provides(other, entries[other], name)) ==> (
        result[name].base_url == entries[key].base_url && result[name].api_key
            == entries[key].api_key && result[name].api_key_env == entries[key].api_key_env
            && result[name].model_name == name && result[name].provider_name == (
        if entries[key].provider_name.len() == 0 {
            key
        } else {
            entries[key].provider_name
        })),
        result.contains_key(name) ==> exists|k: Seq<char>| #[trigger]
            keys.contains(k) && match entries[k].models {
                Some(models) => models.contains(name),
                None => k == name && entries[k].model_name.len() > 0,
            },
{
    if entries[key].models matches Some(models) && models.contains(name) {
        assert(provides(key, entries[key], name));
        let counted = choose|k: Seq<char>| #[trigger]
            counts(entries, keys, k, name) && result[name] == provided(k, entries[k], name);
        assert(counts(entries, keys, counted, name));
    }
    if entries[key].models is None && entries[key].model_name.len() > 0 {
        assert(provides(key, entries[key], key));
    }
    if result.contains_key(name) {
        let k = choose|k: Seq<char>| #[trigger]
            counts(entries, keys, k, name) && result[name] == provided(k, entries[k], name);
        assert(keys.contains(k));
    }
}

/// Of several entries that list a model, the one that comes last counts.
pub proof fn law_last_entry_counts(
    entries: Providers,
    keys: Set<Seq<char>>,
    result: Providers,
    early: Seq<char>,
    late: Seq<char>,
    name: Seq<char>,
)
    requires
        is_expansion(entries, keys, result),
        keys.contains(early),
        keys.contains(late),
        order::before(early, late),
        entries[early].models matches Some(a) && a.contains(name),
        entries[late].models matches Some(b) && b.contains(name),
        forall|other: Seq<char>| #[trigger]
            keys.contains(other) && other != early && other != late ==> !provides(
                other,
                entries[other],
                name,
            ),
    ensures
        result[name].api_key == entries[late].api_key,
        result[name].base_url == entries[late].base_url,
{
    assert(provides(late, entries[late], name));
    assert(provides(early, entries[early], name));
    let k = choose|k: Seq<char>| #[trigger]
        counts(entries, keys, k, name) && result[name] == provided(k, entries[k], name);
    assert(keys.contains(late));
    if k == early {
        assert(order::before(late, early));
        order::lemma_before_asymmetric(early, late);
    }
}

/// An agent of the whole configuration is there unless the harness has one of its name.
pub proof fn law_agents_of_both_lists_are_there(config: AppConfig, name: Seq<char>)
    ensures
        named::has_name(config.agents@, name) ==> config.agents_by_name().contains_key(name),
        config.agents_by_name().contains_key(name) ==> named::has_name(config.agents@, name) || (
        config.harness matches Some(h) && named::has_name(h.agents@, name)),
        config.harness is None && named::has_name(config.agents@, name)
            ==> config.agents_by_name()[name] == named::as_map(config.agents@)[name],
        named::has_name(config.agents@, name) && (config.harness matches Some(h)
            && !named::has_name(h.agents@, name)) ==> config.agents_by_name()[name]
            == named::as_map(config.agents@)[name],
{
}

} // verus!
