//! The provider overview: the providers Codex knows (built in or configured),
//! where their credentials come from, and what keeps the active one from
//! working.
use vstd::prelude::*;
use crate::chat_bridge::{provider_base_text, trim_end_char, ProviderTable};
use crate::environment::{provider_position, string_field, text_field};
use crate::json::{opt_string_view, Json, JsonValue};
use crate::pricing::{lemma_text_lt_asymmetric, lemma_text_lt_transitive, text_less, text_lt};
use crate::provider::{builtin, compatibility_text, ProviderDefinition, ProviderSnapshot, CREDENTIAL_HELPER_ARG};
use crate::ranked::{lemma_map_multiset, ranked_order, sort_ranked, Ranked};
use crate::text::unicode_lowercase;

verus! {

broadcast use vstd::string::group_string_axioms;

/// A provider definition as plain values.
pub struct DefinitionModel {
    pub id: Seq<char>,
    pub name: Seq<char>,
    pub base_url: Option<Seq<char>>,
    pub env_key: Option<Seq<char>>,
    pub env_available: bool,
    pub credential_source: Seq<char>,
    pub credential_available: bool,
    pub auth_command: Option<Seq<char>>,
    pub auth_args: Seq<Seq<char>>,
    pub wire_api: Seq<char>,
    pub protocol: Seq<char>,
    pub context_window: Option<u64>,
    pub builtin: bool,
    pub compatibility: Seq<char>,
}

pub open spec fn definition_view(d: ProviderDefinition) -> DefinitionModel {
    DefinitionModel {
        id: d.id@,
        name: d.name@,
        base_url: opt_string_view(d.base_url),
        env_key: opt_string_view(d.env_key),
        env_available: d.env_available,
        credential_source: d.credential_source@,
        credential_available: d.credential_available,
        auth_command: opt_string_view(d.auth_command),
        auth_args: d.auth_args@.map_values(|a: String| a@),
        wire_api: d.wire_api@,
        protocol: d.protocol@,
        context_window: d.context_window,
        builtin: d.builtin,
        compatibility: d.compatibility@,
    }
}

/// The string items among the first `n` items.
pub open spec fn string_items(items: Seq<Json>, n: nat) -> Seq<Seq<char>>
    decreases n,
{
    if n == 0 || n > items.len() {
        Seq::empty()
    } else {
        match items[n - 1] {
            Json::Str(s) => string_items(items, (n - 1) as nat).push(s),
            _ => string_items(items, (n - 1) as nat),
        }
    }
}

/// The command Codex runs for a provider's credential.
pub open spec fn auth_command_of(value: Json) -> Option<Seq<char>> {
    match value.get("auth"@) {
        Some(auth) => text_field(auth, "command"@),
        None => None,
    }
}

/// The arguments of that command (the strings among them).
pub open spec fn auth_args_of(value: Json) -> Seq<Seq<char>> {
    match value.at(seq!["auth"@, "args"@]) {
        Some(Json::Array(items)) => string_items(items, items.len()),
        _ => Seq::empty(),
    }
}

/// The command is this app acting as credential helper for `id`: the key is
/// in the keychain.
pub open spec fn uses_keychain(id: Seq<char>, value: Json) -> bool {
    let args = auth_args_of(value);
    auth_command_of(value) is Some && args.len() == 2 && args[0] == CREDENTIAL_HELPER_ARG@ && args[1] == id
}

/// A configured provider: its name (the ID when none), address, credential
/// source (keychain, command, environment variable or none) and whether the
/// credential is there; `env_keys` are the environment variables that are
/// set, `keychain_ok` whether the keychain holds its key.
pub open spec fn definition_model(id: Seq<char>, value: Json, env_keys: Seq<Seq<char>>, keychain_ok: bool) -> DefinitionModel {
    let env_key = text_field(value, "env_key"@);
    let env_available = env_key matches Some(k) && env_keys.contains(k);
    let command = auth_command_of(value);
    let keychain = uses_keychain(id, value);
    let base_url = text_field(value, "base_url"@);
    let wire_api = match text_field(value, "wire_api"@) {
        Some(w) => w,
        None => "responses"@,
    };
    DefinitionModel {
        id,
        name: match text_field(value, "name"@) {
            Some(n) => n,
            None => id,
        },
        base_url,
        env_key,
        env_available,
        credential_source: if keychain {
            "keychain"@
        } else if command is Some {
            "command"@
        } else if env_key is Some {
            "environment"@
        } else {
            "none"@
        },
        credential_available: if keychain {
            keychain_ok
        } else if command is Some {
            true
        } else if env_key is Some {
            env_available
        } else {
            true
        },
        auth_command: command,
        auth_args: auth_args_of(value),
        wire_api,
        protocol: "responses"@,
        context_window: None,
        builtin: builtin(id),
        compatibility: compatibility_text(base_url, wire_api),
    }
}

/// A built-in provider Codex's configuration does not mention.
pub open spec fn builtin_default(id: Seq<char>, name: Seq<char>, base_url: Option<Seq<char>>) -> DefinitionModel {
    DefinitionModel {
        id,
        name,
        base_url,
        env_key: None,
        env_available: true,
        credential_source: "builtin"@,
        credential_available: true,
        auth_command: None,
        auth_args: Seq::empty(),
        wire_api: "responses"@,
        protocol: "responses"@,
        context_window: None,
        builtin: true,
        compatibility: "responses"@,
    }
}

/// The built-in providers: ID, name and address.
pub open spec fn builtin_providers() -> Seq<(Seq<char>, Seq<char>, Option<Seq<char>>)> {
    seq![
        ("openai"@, "OpenAI"@, None),
        ("ollama"@, "Ollama"@, Some("http://localhost:11434/v1"@)),
        ("lmstudio"@, "LM Studio"@, Some("http://localhost:1234/v1"@)),
        ("amazon-bedrock"@, "Amazon Bedrock"@, None),
    ]
}

/// The members of `model_providers` in the configuration.
pub open spec fn configured_providers(config: Json) -> Seq<(Seq<char>, Json)> {
    match config.get("model_providers"@) {
        Some(Json::Object(members)) => members,
        _ => Seq::empty(),
    }
}

pub open spec fn member_value(members: Seq<(Seq<char>, Json)>, key: Seq<char>) -> Option<Json> {
    Json::Object(members).get(key)
}

/// Whether the keychain holds the key of `id`, by the list of providers
/// whose key was found.
pub open spec fn keychain_has(found: Seq<Seq<char>>, id: Seq<char>) -> bool {
    found.contains(id)
}

/// A built-in provider: as configured when the configuration names it.
pub open spec fn builtin_definition(
    members: Seq<(Seq<char>, Json)>,
    env_keys: Seq<Seq<char>>,
    found: Seq<Seq<char>>,
    b: (Seq<char>, Seq<char>, Option<Seq<char>>),
) -> DefinitionModel {
    match member_value(members, b.0) {
        Some(v) => DefinitionModel { builtin: true, ..definition_model(b.0, v, env_keys, keychain_has(found, b.0)) },
        None => builtin_default(b.0, b.1, b.2),
    }
}

/// The built-in providers, then the other configured providers in the order
/// they are listed.
pub open spec fn listed_definitions(config: Json, env_keys: Seq<Seq<char>>, found: Seq<Seq<char>>) -> Seq<DefinitionModel> {
    let members = configured_providers(config);
    builtin_providers().map_values(
        |b: (Seq<char>, Seq<char>, Option<Seq<char>>)| builtin_definition(members, env_keys, found, b),
    ) + others_of(members, members.len(), env_keys, found)
}

/// The configured providers among the first `n` members that are not built in.
pub open spec fn others_of(members: Seq<(Seq<char>, Json)>, n: nat, env_keys: Seq<Seq<char>>, found: Seq<Seq<char>>) -> Seq<
    DefinitionModel,
>
    decreases n,
{
    if n == 0 || n > members.len() {
        Seq::empty()
    } else {
        let rest = others_of(members, (n - 1) as nat, env_keys, found);
        let (id, v) = members[n - 1];
        if builtin(id) {
            rest
        } else {
            rest.push(definition_model(id, v, env_keys, keychain_has(found, id)))
        }
    }
}

/// The active provider comes first, then providers by lower-cased name.
pub open spec fn listed_before(active: Seq<char>, a: DefinitionModel, b: DefinitionModel) -> bool {
    (a.id == active && b.id != active) || ((a.id == active) == (b.id == active) && text_lt(
        unicode_lowercase(a.name),
        unicode_lowercase(b.name),
    ))
}

/// The providers in the order the overview lists them.
pub open spec fn listed_in_order(active: Seq<char>, defs: Seq<DefinitionModel>) -> bool {
    forall|i: int, j: int| 0 <= i < j < defs.len() ==> !listed_before(active, #[trigger] defs[j], #[trigger] defs[i])
}

/// The user layer of `config/read`: the first layer of type `user` without a profile.
pub open spec fn is_user_layer(layer: Json) -> bool {
    layer.at(seq!["name"@, "type"@]) matches Some(t) && t.str_of() == Some("user"@) && (match layer.at(
        seq!["name"@, "profile"@],
    ) {
        Some(p) => p is Null,
        None => true,
    })
}

pub open spec fn first_user_layer(layers: Seq<Json>, n: nat) -> Option<Json>
    decreases n,
{
    if n == 0 || n > layers.len() {
        None
    } else {
        match first_user_layer(layers, (n - 1) as nat) {
            Some(l) => Some(l),
            None => if is_user_layer(layers[n - 1]) {
                Some(layers[n - 1])
            } else {
                None
            },
        }
    }
}

pub open spec fn user_layer(raw: Json) -> Option<Json> {
    match raw.get("layers"@) {
        Some(Json::Array(layers)) => first_user_layer(layers, layers.len()),
        _ => None,
    }
}

pub open spec fn layer_text(layer: Option<Json>, path: Seq<Seq<char>>) -> Option<Seq<char>> {
    match layer {
        Some(l) => match l.at(path) {
            Some(v) => v.str_of(),
            None => None,
        },
        None => None,
    }
}

pub open spec fn missing_config_message() -> Seq<char> {
    "config/read 缺少 config 字段"@
}

/// The first of the first `n` definitions with ID `id`.
pub open spec fn definition_position(defs: Seq<DefinitionModel>, id: Seq<char>, n: nat) -> Option<int>
    decreases n,
{
    if n == 0 || n > defs.len() {
        None
    } else {
        match definition_position(defs, id, (n - 1) as nat) {
            Some(i) => Some(i),
            None => if defs[n - 1].id == id {
                Some(n - 1)
            } else {
                None
            },
        }
    }
}

/// What keeps the active provider from working: an address that only speaks
/// Chat Completions, another wire protocol, a missing credential, or no
/// definition at all.
pub open spec fn snapshot_warnings(active: Seq<char>, defs: Seq<DefinitionModel>) -> Seq<Seq<char>> {
    match definition_position(defs, active, defs.len()) {
        Some(i) => {
            let d = defs[i];
            let first = if d.compatibility == "chat_only"@ {
                seq!["当前地址只公布了 Chat Completions；Codex 自定义 Provider 需要 Responses API。"@]
            } else if d.compatibility != "responses"@ {
                seq!["当前 Provider 不是 Codex 支持的 Responses API。"@]
            } else {
                Seq::empty()
            };
            if !d.credential_available {
                first.push(
                    "当前 Provider 的"@ + (if d.credential_source == "keychain"@ {
                        "系统钥匙串"@
                    } else {
                        "环境变量"@
                    }) + "凭据不可用。"@,
                )
            } else {
                first
            }
        },
        None => seq!["当前 Provider "@ + active + " 没有可读取的定义。"@],
    }
}

pub open spec fn definitions_view(defs: Seq<ProviderDefinition>) -> Seq<DefinitionModel> {
    defs.map_values(|d: ProviderDefinition| definition_view(d))
}

pub open spec fn texts_of(v: Seq<String>) -> Seq<Seq<char>> {
    v.map_values(|s: String| s@)
}

/// `r` is the provider overview of `config/read` reply `raw`, read at
/// `fetched_at`; `found` lists the providers whose key the keychain holds.
pub open spec fn snapshot_of(
    raw: Json,
    env_keys: Seq<Seq<char>>,
    found: Seq<Seq<char>>,
    default_config_path: Seq<char>,
    fetched_at: Seq<char>,
    restore_available: bool,
    r: ProviderSnapshot,
) -> bool {
    match raw.get("config"@) {
        None => false,
        Some(config) => {
            let active = match text_field(config, "model_provider"@) {
                Some(a) => a,
                None => "openai"@,
            };
            let layer = user_layer(raw);
            let defs = definitions_view(r.providers@);
            &&& r.fetched_at@ == fetched_at
            &&& r.config_path@ == match layer_text(layer, seq!["name"@, "file"@]) {
                Some(f) => f,
                None => default_config_path,
            }
            &&& opt_string_view(r.version) == layer_text(layer, seq!["version"@])
            &&& r.active_provider@ == active
            &&& opt_string_view(r.active_model) == text_field(config, "model"@)
            &&& r.models@.len() == 0
            &&& listed_in_order(active, defs)
            &&& defs.to_multiset() == listed_definitions(config, env_keys, found).to_multiset()
            &&& exists|rows: Seq<ListedProvider>|
                {
                    &&& rows.len() == listed_definitions(config, env_keys, found).len()
                    &&& forall|i: int|
                        0 <= i < rows.len() ==> listed_ok(active, #[trigger] rows[i]) && definition_view(rows[i].definition)
                            == listed_definitions(config, env_keys, found)[i]
                    &&& defs == ranked_order(rows, rows.len()).map_values(
                        |l: ListedProvider| definition_view(listed_definition(l)),
                    )
                }
            &&& r.restore_available == restore_available
            &&& texts_of(r.warnings@) == snapshot_warnings(active, defs)
        },
    }
}


/// The command and arguments Codex runs for a provider's credential.
fn auth_definition(value: &JsonValue) -> (r: (Option<String>, Vec<String>))
    ensures
        opt_string_view(r.0) == auth_command_of(value@),
        texts_of(r.1@) == auth_args_of(value@),
{
    let command = match value.get("auth") {
        Some(auth) => string_field(auth, "command"),
        None => None,
    };
    let path: [&str; 2] = ["auth", "args"];
    assert(path@.map_values(|p: &str| p@) =~= seq!["auth"@, "args"@]);
    let mut args: Vec<String> = Vec::new();
    match value.pointer(&path) {
        Some(JsonValue::Array(items)) => {
            let ghost whole = value@.at(seq!["auth"@, "args"@])->0;
            assert(whole->Array_0 =~= crate::json::items_view(items@));
            let ghost iv = crate::json::items_view(items@);
            let mut k: usize = 0;
            while k < items.len()
                invariant
                    k <= items@.len(),
                    iv == crate::json::items_view(items@),
                    texts_of(args@) == string_items(iv, k as nat),
                decreases items@.len() - k,
            {
                assert(iv[k as int] == items@[k as int]@);
                let ghost before = texts_of(args@);
                match &items[k] {
                    JsonValue::String(s) => {
                        args.push(s.clone());
                        assert(texts_of(args@) =~= before.push(s@));
                    },
                    _ => {},
                }
                k = k + 1;
            }
        },
        _ => {
            assert(texts_of(args@) =~= Seq::<Seq<char>>::empty());
        },
    }
    (command, args)
}

fn contains_text(list: &Vec<String>, item: &str) -> (r: bool)
    ensures
        r == texts_of(list@).contains(item@),
{
    let mut k: usize = 0;
    while k < list.len()
        invariant
            k <= list@.len(),
            forall|q: int| 0 <= q < k ==> list@[q]@ != item@,
        decreases list@.len() - k,
    {
        if crate::text::str_eq(list[k].as_str(), item) {
            assert(texts_of(list@)[k as int] == item@);
            return true;
        }
        k = k + 1;
    }
    proof {
        if texts_of(list@).contains(item@) {
            let q = choose|q: int| 0 <= q < texts_of(list@).len() && texts_of(list@)[q] == item@;
            assert(list@[q]@ == item@);
        }
    }
    false
}

/// A configured provider's definition; `env_keys` are the environment
/// variables that are set, `keychain_ok` whether the keychain holds its key.
pub fn definition_from_value(id: &str, value: &JsonValue, env_keys: &Vec<String>, keychain_ok: bool) -> (r: ProviderDefinition)
    ensures
        definition_view(r) == definition_model(id@, value@, texts_of(env_keys@), keychain_ok),
{
    let name = match string_field(value, "name") {
        Some(n) => n,
        None => id.to_owned(),
    };
    let base_url = string_field(value, "base_url");
    let env_key = string_field(value, "env_key");
    let env_available = match &env_key {
        Some(k) => contains_text(env_keys, k.as_str()),
        None => false,
    };
    let (auth_command, auth_args) = auth_definition(value);
    let keychain = auth_command.is_some() && crate::provider::is_xray_credential_helper(auth_args.as_slice(), id);
    assert(keychain == uses_keychain(id@, value@));
    let has_command = auth_command.is_some();
    let has_env = env_key.is_some();
    let credential_source = if keychain {
        "keychain".to_owned()
    } else if has_command {
        "command".to_owned()
    } else if has_env {
        "environment".to_owned()
    } else {
        "none".to_owned()
    };
    let credential_available = if keychain {
        keychain_ok
    } else if has_command {
        true
    } else if has_env {
        env_available
    } else {
        true
    };
    let wire_api = match string_field(value, "wire_api") {
        Some(w) => w,
        None => "responses".to_owned(),
    };
    let compatibility = crate::provider::compatibility_for(
        match &base_url {
            Some(u) => Some(u.as_str()),
            None => None,
        },
        wire_api.as_str(),
    );
    let r = ProviderDefinition {
        id: id.to_owned(),
        name,
        base_url,
        env_key,
        env_available,
        credential_source,
        credential_available,
        auth_command,
        auth_args,
        wire_api,
        protocol: "responses".to_owned(),
        context_window: None,
        builtin: crate::provider::is_builtin(id),
        compatibility,
    };
    assert(r.auth_args@.map_values(|a: String| a@) == auth_args_of(value@));
    r
}


/// A provider with what orders it in the overview.
pub struct ListedProvider {
    pub active: bool,
    pub lower: String,
    pub definition: ProviderDefinition,
}

impl Ranked for ListedProvider {
    open spec fn before(self, other: Self) -> bool {
        (self.active && !other.active) || (self.active == other.active && text_lt(self.lower@, other.lower@))
    }

    proof fn lemma_before(a: Self, b: Self, c: Self) {
        lemma_text_lt_asymmetric(a.lower@, b.lower@);
        if text_lt(a.lower@, b.lower@) && text_lt(b.lower@, c.lower@) {
            lemma_text_lt_transitive(a.lower@, b.lower@, c.lower@);
        }
    }

    fn comes_before(&self, other: &Self) -> (r: bool) {
        (self.active && !other.active) || (self.active == other.active && text_less(self.lower.as_str(), other.lower.as_str()))
    }
}

pub open spec fn listed_ok(active: Seq<char>, l: ListedProvider) -> bool {
    &&& l.active == (l.definition.id@ == active)
    &&& l.lower@ == unicode_lowercase(l.definition.name@)
}

pub open spec fn listed_definition(l: ListedProvider) -> ProviderDefinition {
    l.definition
}

/// The value configured for provider `id`.
fn configured_value<'a>(config: &'a JsonValue, id: &str) -> (r: Option<&'a JsonValue>)
    ensures
        crate::json::opt_view(r) == member_value(configured_providers(config@), id@),
{
    match config.get("model_providers") {
        Some(v) => match v {
            JsonValue::Object(_) => v.get(id),
            _ => None,
        },
        None => None,
    }
}

fn builtin_entry(
    config: &JsonValue,
    env_keys: &Vec<String>,
    found: &Vec<String>,
    id: &str,
    name: &str,
    base_url: Option<&str>,
) -> (r: ProviderDefinition)
    ensures
        definition_view(r) == builtin_definition(
            configured_providers(config@),
            texts_of(env_keys@),
            texts_of(found@),
            (id@, name@, crate::json::opt_str_view(base_url)),
        ),
{
    match configured_value(config, id) {
        Some(v) => {
            let keychain_ok = contains_text(found, id);
            let mut d = definition_from_value(id, v, env_keys, keychain_ok);
            d.builtin = true;
            d
        },
        None => {
            let r = ProviderDefinition {
                id: id.to_owned(),
                name: name.to_owned(),
                base_url: match base_url {
                    Some(u) => Some(u.to_owned()),
                    None => None,
                },
                env_key: None,
                env_available: true,
                credential_source: "builtin".to_owned(),
                credential_available: true,
                auth_command: None,
                auth_args: Vec::new(),
                wire_api: "responses".to_owned(),
                protocol: "responses".to_owned(),
                context_window: None,
                builtin: true,
                compatibility: "responses".to_owned(),
            };
            assert(r.auth_args@.map_values(|a: String| a@) =~= Seq::<Seq<char>>::empty());
            r
        },
    }
}

/// The providers in the order of `listed_definitions`.
fn listed_providers(config: &JsonValue, env_keys: &Vec<String>, found: &Vec<String>) -> (r: Vec<ProviderDefinition>)
    ensures
        definitions_view(r@) == listed_definitions(config@, texts_of(env_keys@), texts_of(found@)),
{
    let ghost members = configured_providers(config@);
    let ghost ek = texts_of(env_keys@);
    let ghost fd = texts_of(found@);
    let mut defs: Vec<ProviderDefinition> = Vec::new();
    defs.push(builtin_entry(config, env_keys, found, "openai", "OpenAI", None));
    defs.push(builtin_entry(config, env_keys, found, "ollama", "Ollama", Some("http://localhost:11434/v1")));
    defs.push(builtin_entry(config, env_keys, found, "lmstudio", "LM Studio", Some("http://localhost:1234/v1")));
    defs.push(builtin_entry(config, env_keys, found, "amazon-bedrock", "Amazon Bedrock", None));
    let ghost head = definitions_view(defs@);
    assert(head =~= builtin_providers().map_values(
        |b: (Seq<char>, Seq<char>, Option<Seq<char>>)| builtin_definition(members, ek, fd, b),
    ));
    match config.get("model_providers") {
        Some(JsonValue::Object(ms)) => {
            assert(members =~= crate::json::members_view(ms@));
            let mut k: usize = 0;
            while k < ms.len()
                invariant
                    k <= ms@.len(),
                    members == crate::json::members_view(ms@),
                    ek == texts_of(env_keys@),
                    fd == texts_of(found@),
                    definitions_view(defs@) == head + others_of(members, k as nat, ek, fd),
                decreases ms@.len() - k,
            {
                let (id, v) = &ms[k];
                assert(members[k as int] == (id@, v@));
                if !crate::provider::is_builtin(id.as_str()) {
                    let keychain_ok = contains_text(found, id.as_str());
                    let d = definition_from_value(id.as_str(), v, env_keys, keychain_ok);
                    let ghost before = definitions_view(defs@);
                    defs.push(d);
                    assert(definitions_view(defs@) =~= before.push(definitions_view(defs@)[before.len() as int]));
                }
                k = k + 1;
            }
        },
        _ => {
            assert(members =~= Seq::<(Seq<char>, Json)>::empty());
            assert(definitions_view(defs@) =~= head + others_of(members, 0, ek, fd));
        },
    }
    defs
}

/// Orders the providers: the active one first, then by lower-cased name.
fn order_providers(defs: Vec<ProviderDefinition>, active: &str) -> (r: Vec<ProviderDefinition>)
    ensures
        listed_in_order(active@, definitions_view(r@)),
        definitions_view(r@).to_multiset() == definitions_view(defs@).to_multiset(),
        exists|rows: Seq<ListedProvider>|
            {
                &&& rows.len() == defs@.len()
                &&& forall|i: int| 0 <= i < rows.len() ==> listed_ok(active@, #[trigger] rows[i]) && rows[i].definition == defs@[i]
                &&& r@ == ranked_order(rows, rows.len()).map_values(|l: ListedProvider| listed_definition(l))
            },
{
    let ghost input = defs@;
    let mut rows: Vec<ListedProvider> = Vec::new();
    let mut rest = defs;
    let n = rest.len();
    let mut k: usize = 0;
    while rest.len() > 0
        invariant
            k + rest@.len() == n,
            n == input.len(),
            rest@ == input.skip(k as int),
            rows@.len() == k,
            forall|q: int| 0 <= q < k ==> listed_ok(active@, #[trigger] rows@[q]) && rows@[q].definition == input[q],
        decreases rest@.len(),
    {
        let ghost before = rest@;
        let d = rest.remove(0);
        assert(d == input[k as int]) by {
            assert(before[0] == input.skip(k as int)[0]);
        }
        assert(rest@ =~= input.skip(k + 1));
        let is_active = crate::text::str_eq(d.id.as_str(), active);
        let lower = crate::text::str_lowercase(d.name.as_str());
        rows.push(ListedProvider { active: is_active, lower, definition: d });
        k = k + 1;
    }
    assert(rows@.map_values(|l: ListedProvider| listed_definition(l)) =~= input);
    let ghost unsorted = rows@;
    let sorted = sort_ranked(rows);
    proof {
        lemma_map_multiset(sorted@, unsorted, |l: ListedProvider| definition_view(listed_definition(l)));
        assert forall|q: int| 0 <= q < sorted@.len() implies listed_ok(active@, #[trigger] sorted@[q]) by {
            assert(sorted@.to_multiset().count(sorted@[q]) > 0) by {
                broadcast use vstd::seq_lib::group_to_multiset_ensures;
                assert(sorted@.contains(sorted@[q]));
            }
            assert(unsorted.to_multiset().count(sorted@[q]) > 0);
            assert(unsorted.contains(sorted@[q])) by {
                broadcast use vstd::seq_lib::group_to_multiset_ensures;
            }
        }
    }
    let ghost sv = sorted@;
    let mut out: Vec<ProviderDefinition> = Vec::new();
    let m = sorted.len();
    let mut rest = sorted;
    let mut j: usize = 0;
    while rest.len() > 0
        invariant
            j + rest@.len() == m,
            m == sv.len(),
            rest@ == sv.skip(j as int),
            out@.len() == j,
            forall|q: int| 0 <= q < j ==> #[trigger] out@[q] == sv[q].definition,
        decreases rest@.len(),
    {
        let ghost before = rest@;
        let l = rest.remove(0);
        assert(l == sv[j as int]) by {
            assert(before[0] == sv.skip(j as int)[0]);
        }
        assert(rest@ =~= sv.skip(j + 1));
        out.push(l.definition);
        j = j + 1;
    }
    proof {
        assert(definitions_view(out@) =~= sv.map_values(|l: ListedProvider| definition_view(listed_definition(l))));
        assert(unsorted.map_values(|l: ListedProvider| definition_view(listed_definition(l))) =~= definitions_view(input));
        assert forall|a: int, b: int| 0 <= a < b < out@.len() implies !listed_before(
            active@,
            #[trigger] definitions_view(out@)[b],
            #[trigger] definitions_view(out@)[a],
        ) by {
            assert(!ListedProvider::before(sv[b], sv[a]));
            assert(listed_ok(active@, sv[a]) && listed_ok(active@, sv[b]));
        }
        assert(out@ =~= sv.map_values(|l: ListedProvider| listed_definition(l)));
        assert(unsorted.len() == input.len());
        assert(forall|i: int| 0 <= i < unsorted.len() ==> listed_ok(active@, #[trigger] unsorted[i]) && unsorted[i].definition == input[i]);
    }
    out
}


fn find_user_layer(raw: &JsonValue) -> (r: Option<&JsonValue>)
    ensures
        crate::json::opt_view(r) == user_layer(raw@),
{
    match raw.get("layers") {
        Some(JsonValue::Array(layers)) => {
            let ghost whole = raw@.get("layers"@)->0;
            assert(whole->Array_0 =~= crate::json::items_view(layers@));
            let ghost lv = crate::json::items_view(layers@);
            assert(raw@.get("layers"@) == Some(Json::Array(lv)));
            let kind_path: [&str; 2] = ["name", "type"];
            let profile_path: [&str; 2] = ["name", "profile"];
            assert(kind_path@.map_values(|p: &str| p@) =~= seq!["name"@, "type"@]);
            assert(profile_path@.map_values(|p: &str| p@) =~= seq!["name"@, "profile"@]);
            let mut k: usize = 0;
            while k < layers.len()
                invariant
                    k <= layers@.len(),
                    lv == crate::json::items_view(layers@),
                    raw@.get("layers"@) == Some(Json::Array(lv)),
                    kind_path@.map_values(|p: &str| p@) == seq!["name"@, "type"@],
                    profile_path@.map_values(|p: &str| p@) == seq!["name"@, "profile"@],
                    first_user_layer(lv, k as nat) is None,
                decreases layers@.len() - k,
            {
                let layer = &layers[k];
                assert(lv[k as int] == layer@);
                let is_user = match layer.pointer(&kind_path) {
                    Some(t) => match t.as_str() {
                        Some(s) => crate::text::str_eq(s, "user"),
                        None => false,
                    },
                    None => false,
                };
                let no_profile = match layer.pointer(&profile_path) {
                    Some(p) => p.is_null(),
                    None => true,
                };
                if is_user && no_profile {
                    proof {
                        lemma_first_user_layer_sticks(lv, (k + 1) as nat, lv.len());
                    }
                    return Some(layer);
                }
                k = k + 1;
            }
            None
        },
        _ => None,
    }
}

proof fn lemma_first_user_layer_sticks(layers: Seq<Json>, k: nat, n: nat)
    requires
        k <= n <= layers.len(),
        first_user_layer(layers, k) is Some,
    ensures
        first_user_layer(layers, n) == first_user_layer(layers, k),
    decreases n,
{
    if n > k {
        lemma_first_user_layer_sticks(layers, k, (n - 1) as nat);
    }
}

fn layer_string(layer: Option<&JsonValue>, path: &[&str]) -> (r: Option<String>)
    ensures
        opt_string_view(r) == layer_text(crate::json::opt_view(layer), path@.map_values(|p: &str| p@)),
{
    match layer {
        Some(l) => match l.pointer(path) {
            Some(v) => match v.as_str() {
                Some(s) => Some(s.to_owned()),
                None => None,
            },
            None => None,
        },
        None => None,
    }
}

fn find_definition(defs: &Vec<ProviderDefinition>, id: &str) -> (r: Option<usize>)
    ensures
        match definition_position(definitions_view(defs@), id@, defs@.len()) {
            Some(i) => r matches Some(x) && x == i && i < defs@.len(),
            None => r is None,
        },
{
    let ghost dv = definitions_view(defs@);
    let mut k: usize = 0;
    while k < defs.len()
        invariant
            k <= defs@.len(),
            dv == definitions_view(defs@),
            definition_position(dv, id@, k as nat) is None,
        decreases defs@.len() - k,
    {
        assert(dv[k as int].id == defs@[k as int].id@);
        if crate::text::str_eq(defs[k].id.as_str(), id) {
            proof {
                lemma_definition_position_sticks(dv, id@, (k + 1) as nat, dv.len());
            }
            return Some(k);
        }
        k = k + 1;
    }
    None
}

proof fn lemma_definition_position_sticks(defs: Seq<DefinitionModel>, id: Seq<char>, k: nat, n: nat)
    requires
        k <= n <= defs.len(),
        definition_position(defs, id, k) is Some,
    ensures
        definition_position(defs, id, n) == definition_position(defs, id, k),
    decreases n,
{
    if n > k {
        lemma_definition_position_sticks(defs, id, k, (n - 1) as nat);
    }
}

fn warnings_for(defs: &Vec<ProviderDefinition>, active: &str) -> (r: Vec<String>)
    ensures
        texts_of(r@) == snapshot_warnings(active@, definitions_view(defs@)),
{
    let mut warnings: Vec<String> = Vec::new();
    match find_definition(defs, active) {
        Some(i) => {
            let d = &defs[i];
            assert(definitions_view(defs@)[i as int] == definition_view(*d));
            let compat = d.compatibility.as_str();
            if crate::text::str_eq(compat, "chat_only") {
                warnings.push("当前地址只公布了 Chat Completions；Codex 自定义 Provider 需要 Responses API。".to_owned());
            } else if !crate::text::str_eq(compat, "responses") {
                warnings.push("当前 Provider 不是 Codex 支持的 Responses API。".to_owned());
            }
            if !d.credential_available {
                let source = if crate::text::str_eq(d.credential_source.as_str(), "keychain") {
                    "系统钥匙串"
                } else {
                    "环境变量"
                };
                let head = crate::text::concat("当前 Provider 的", source);
                warnings.push(crate::text::concat(head.as_str(), "凭据不可用。"));
            }
        },
        None => {
            let head = crate::text::concat("当前 Provider ", active);
            warnings.push(crate::text::concat(head.as_str(), " 没有可读取的定义。"));
        },
    }
    assert(texts_of(warnings@) =~= snapshot_warnings(active@, definitions_view(defs@)));
    warnings
}

/// The provider overview of a `config/read` reply. `env_keys` are the
/// environment variables that are set, `found` the providers whose key the
/// keychain holds, `default_config_path` Codex's own configuration file,
/// used when the reply names no user layer file.
pub fn provider_snapshot_from(
    raw: &JsonValue,
    env_keys: &Vec<String>,
    found: &Vec<String>,
    default_config_path: &str,
    fetched_at: String,
    restore_available: bool,
) -> (r: Result<ProviderSnapshot, String>)
    ensures
        match r {
            Ok(s) => snapshot_of(
                raw@,
                texts_of(env_keys@),
                texts_of(found@),
                default_config_path@,
                fetched_at@,
                restore_available,
                s,
            ),
            Err(e) => raw@.get("config"@) is None && e@ == missing_config_message(),
        },
{
    let config = match raw.get("config") {
        Some(c) => c,
        None => {
            return Err(crate::text::owned("config/read 缺少 config 字段"));
        },
    };
    let active_provider = match string_field(config, "model_provider") {
        Some(a) => a,
        None => "openai".to_owned(),
    };
    let active_model = string_field(config, "model");
    let listed = listed_providers(config, env_keys, found);
    let ghost listed_seq = listed@;
    let providers = order_providers(listed, active_provider.as_str());
    proof {
        let rows = choose|rows: Seq<ListedProvider>|
            {
                &&& rows.len() == listed_seq.len()
                &&& forall|i: int| 0 <= i < rows.len() ==> listed_ok(active_provider@, #[trigger] rows[i]) && rows[i].definition == listed_seq[i]
                &&& providers@ == ranked_order(rows, rows.len()).map_values(|l: ListedProvider| listed_definition(l))
            };
        assert(definitions_view(providers@) =~= ranked_order(rows, rows.len()).map_values(
            |l: ListedProvider| definition_view(listed_definition(l)),
        ));
        assert forall|i: int| 0 <= i < rows.len() implies listed_ok(active_provider@, #[trigger] rows[i]) && definition_view(rows[i].definition)
            == listed_definitions(config@, texts_of(env_keys@), texts_of(found@))[i] by {
            assert(definitions_view(listed_seq)[i] == definition_view(listed_seq[i]));
        }
    }
    let layer = find_user_layer(raw);
    let file_path: [&str; 2] = ["name", "file"];
    let version_path: [&str; 1] = ["version"];
    assert(file_path@.map_values(|p: &str| p@) =~= seq!["name"@, "file"@]);
    assert(version_path@.map_values(|p: &str| p@) =~= seq!["version"@]);
    let config_path = match layer_string(layer, &file_path) {
        Some(f) => f,
        None => default_config_path.to_owned(),
    };
    let version = layer_string(layer, &version_path);
    let warnings = warnings_for(&providers, active_provider.as_str());
    Ok(ProviderSnapshot {
        fetched_at,
        config_path,
        version,
        active_provider,
        active_model,
        models: Vec::new(),
        providers,
        restore_available,
        warnings,
    })
}

/// The provider overview, reading the keychain for each provider whose key
/// it holds. What the keychain answers is the machine's business: the
/// overview is the one for some set of providers whose key was found.
pub fn build_provider_snapshot(
    raw: &JsonValue,
    env_keys: &Vec<String>,
    default_config_path: &str,
    fetched_at: String,
    restore_available: bool,
) -> (r: Result<ProviderSnapshot, String>)
    ensures
        raw@.get("config"@) is None ==> (r matches Err(e) && e@ == missing_config_message()),
        r matches Ok(s) ==> exists|found: Seq<Seq<char>>|
            #[trigger] snapshot_of(raw@, texts_of(env_keys@), found, default_config_path@, fetched_at@, restore_available, s),
        raw@.get("config"@) is Some ==> r is Ok,
{
    let mut found: Vec<String> = Vec::new();
    if let Some(config) = raw.get("config") {
        if let Some(JsonValue::Object(members)) = config.get("model_providers") {
            let mut k: usize = 0;
            while k < members.len()
                decreases members@.len() - k,
            {
                let (id, value) = &members[k];
                let (command, args) = auth_definition(value);
                let keychain = command.is_some() && crate::provider::is_xray_credential_helper(args.as_slice(), id.as_str());
                if keychain {
                    if crate::provider::read_credential(id.as_str()).is_ok() {
                        found.push(id.clone());
                    }
                }
                k = k + 1;
            }
        }
    }
    provider_snapshot_from(raw, env_keys, &found, default_config_path, fetched_at, restore_available)
}


/// A provider served through the Chat bridge: when its address is the
/// bridge's address for it, the overview shows the upstream address, the
/// Chat protocol and the bridge's context window.
pub open spec fn bridged_definition(d: DefinitionModel, mapping: Option<crate::chat_bridge::ProviderModel>) -> DefinitionModel {
    match mapping {
        Some(m) => if d.base_url matches Some(u) && trim_end_char(u, '/') == provider_base_text(d.id) {
            DefinitionModel {
                base_url: Some(m.0),
                protocol: "chat_completions"@,
                context_window: Some(m.4),
                compatibility: "chat_bridge"@,
                ..d
            }
        } else {
            d
        },
        None => d,
    }
}

pub open spec fn bridge_stopped_message() -> Seq<char> {
    "当前 Provider 使用 Chat 兼容桥，但本地桥没有运行；请保持 Codex X-Ray 打开。"@
}

/// The warnings after bridging: one more when the active provider goes
/// through the bridge and the bridge is not running.
pub open spec fn bridged_warnings(active: Seq<char>, defs: Seq<DefinitionModel>, warnings: Seq<Seq<char>>, running: bool) -> Seq<Seq<char>> {
    match definition_position(defs, active, defs.len()) {
        Some(i) => if defs[i].protocol == "chat_completions"@ && !running {
            warnings.push(bridge_stopped_message())
        } else {
            warnings
        },
        None => warnings,
    }
}

/// Shows the providers the Chat bridge serves as the bridge sees them.
pub fn enrich_provider_snapshot_with_bridge(snapshot: &mut ProviderSnapshot, bridge: &ProviderTable, running: bool)
    requires
        bridge.wf(),
    ensures
        definitions_view(final(snapshot).providers@) == definitions_view(old(snapshot).providers@).map_values(
            |d: DefinitionModel| bridged_definition(d, bridge.get_spec(d.id)),
        ),
        texts_of(final(snapshot).warnings@) == bridged_warnings(
            old(snapshot).active_provider@,
            definitions_view(final(snapshot).providers@),
            texts_of(old(snapshot).warnings@),
            running,
        ),
        final(snapshot).fetched_at == old(snapshot).fetched_at,
        final(snapshot).config_path == old(snapshot).config_path,
        final(snapshot).version == old(snapshot).version,
        final(snapshot).active_provider == old(snapshot).active_provider,
        final(snapshot).active_model == old(snapshot).active_model,
        final(snapshot).models == old(snapshot).models,
        final(snapshot).restore_available == old(snapshot).restore_available,
{
    let ghost before = definitions_view(snapshot.providers@);
    let mut k: usize = 0;
    while k < snapshot.providers.len()
        invariant
            bridge.wf(),
            k <= snapshot.providers@.len(),
            snapshot.providers@.len() == before.len(),
            forall|q: int| 0 <= q < k ==> #[trigger] definitions_view(snapshot.providers@)[q] == bridged_definition(
                before[q],
                bridge.get_spec(before[q].id),
            ),
            forall|q: int| k <= q < before.len() ==> #[trigger] definitions_view(snapshot.providers@)[q] == before[q],
            snapshot.fetched_at == old(snapshot).fetched_at,
            snapshot.config_path == old(snapshot).config_path,
            snapshot.version == old(snapshot).version,
            snapshot.active_provider == old(snapshot).active_provider,
            snapshot.active_model == old(snapshot).active_model,
            snapshot.models == old(snapshot).models,
            snapshot.restore_available == old(snapshot).restore_available,
            snapshot.warnings == old(snapshot).warnings,
        decreases before.len() - k,
    {
        let ghost old_list = snapshot.providers@;
        let mut d = snapshot.providers.remove(k);
        assert(definition_view(d) == before[k as int]) by {
            assert(definitions_view(old_list)[k as int] == definition_view(old_list[k as int]));
        }
        match bridge.provider(d.id.as_str()) {
            Some(mapping) => {
                let bridged = match &d.base_url {
                    Some(u) => crate::chat_bridge::is_provider_bridge_url(d.id.as_str(), u.as_str()),
                    None => false,
                };
                if bridged {
                    d.base_url = Some(mapping.upstream_base_url);
                    d.protocol = "chat_completions".to_owned();
                    d.context_window = Some(mapping.context_window);
                    d.compatibility = "chat_bridge".to_owned();
                }
            },
            None => {},
        }
        let ghost dv = definition_view(d);
        snapshot.providers.insert(k, d);
        proof {
            assert(snapshot.providers@ =~= old_list.update(k as int, snapshot.providers@[k as int]));
            assert forall|q: int| 0 <= q < snapshot.providers@.len() && q != k implies #[trigger] definitions_view(snapshot.providers@)[q]
                == definitions_view(old_list)[q] by {
                assert(snapshot.providers@[q] == old_list[q]);
            }
            assert(definitions_view(snapshot.providers@)[k as int] == dv);
        }
        k = k + 1;
    }
    assert(definitions_view(snapshot.providers@) =~= before.map_values(
        |d: DefinitionModel| bridged_definition(d, bridge.get_spec(d.id)),
    ));
    let ghost warnings0 = texts_of(snapshot.warnings@);
    match find_definition(&snapshot.providers, snapshot.active_provider.as_str()) {
        Some(i) => {
            assert(definitions_view(snapshot.providers@)[i as int] == definition_view(snapshot.providers@[i as int]));
            if crate::text::str_eq(snapshot.providers[i].protocol.as_str(), "chat_completions") && !running {
                snapshot.warnings.push("当前 Provider 使用 Chat 兼容桥，但本地桥没有运行；请保持 Codex X-Ray 打开。".to_owned());
                assert(texts_of(snapshot.warnings@) =~= warnings0.push(bridge_stopped_message()));
            }
        },
        None => {},
    }
}

} // verus!
