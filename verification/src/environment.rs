//! The environment overview: where Codex keeps its data, the provider in use,
//! the MCP servers configured, and what deserves a warning.
use vstd::prelude::*;
use crate::json::{opt_string_view, Json, JsonValue};
use crate::paths::{file_name, file_name_of};
use crate::pricing::{lemma_text_lt_asymmetric, lemma_text_lt_transitive, text_less, text_lt};
use crate::provider::{ProviderDefinition, ProviderSnapshot};
use crate::settings::{copy_settings, same_settings, CodexSettings, SettingsSnapshot};
use crate::storage::StorageHealth;
use crate::text::{decimal, str_eq, str_lowercase, str_trim, trim_spec, unicode_lowercase};
use crate::ranked::{lemma_map_multiset, ranked_order, sort_ranked, Ranked};
use crate::web::{parse_url, parsed_url};

verus! {

broadcast use vstd::string::group_string_axioms;

/// A directory Codex reads extensions from.
#[derive(Debug)]
pub struct EnvironmentPath {
    pub label: String,
    pub path: String,
    pub exists: bool,
    pub item_count: Option<u64>,
}

/// An MCP server as the overview shows it.
#[derive(Debug)]
pub struct EnvironmentMcpServer {
    pub name: String,
    pub enabled: bool,
    pub transport: String,
    pub target: Option<String>,
}

/// The provider Codex uses.
#[derive(Debug)]
pub struct EnvironmentProvider {
    pub id: String,
    pub name: String,
    pub model: Option<String>,
    pub wire_api: String,
    pub endpoint: Option<String>,
    pub credential_variable: Option<String>,
    pub credential_source: String,
    pub credential_available: bool,
    pub compatibility: String,
}

/// The environment overview.
#[derive(Debug)]
pub struct EnvironmentSnapshot {
    pub fetched_at: String,
    pub codex_version: String,
    pub codex_binary: String,
    pub codex_home: String,
    pub config_path: String,
    pub sessions_path: String,
    pub xray_data_path: String,
    pub xray_sqlite_path: String,
    pub storage: StorageHealth,
    pub config_version: Option<String>,
    pub provider: EnvironmentProvider,
    pub settings: CodexSettings,
    pub mcp_servers: Vec<EnvironmentMcpServer>,
    pub extension_paths: Vec<EnvironmentPath>,
    pub warnings: Vec<String>,
}

/// What the app knows about itself: the Codex binary and version, and where it
/// keeps its own data.
#[derive(Debug)]
pub struct EnvironmentRuntime {
    pub codex_version: String,
    pub codex_binary: String,
    pub xray_data_path: String,
    pub xray_sqlite_path: String,
    pub storage: StorageHealth,
}

/// What the file system shows of Codex's home: its path, its sessions
/// directory, whether each is a directory, and the extension directories.
#[derive(Debug)]
pub struct CodexHomeState {
    pub codex_home: String,
    pub sessions_path: String,
    pub home_is_dir: bool,
    pub sessions_is_dir: bool,
    pub extension_paths: Vec<EnvironmentPath>,
}

/// The first `n` characters of `s` (all of them if it is shorter).
pub open spec fn prefix_chars(s: Seq<char>, n: nat) -> Seq<char> {
    if s.len() <= n {
        s
    } else {
        s.take(n as int)
    }
}

fn first_chars(s: &str, n: usize) -> (r: String)
    ensures
        r@ == prefix_chars(s@, n as nat),
{
    let chars = crate::text::chars_of(s);
    if chars.len() <= n {
        s.to_owned()
    } else {
        crate::text::string_of_range(&chars, 0, n)
    }
}

/// What of a URL the overview shows: scheme, host and port, else the first
/// 120 characters of the text.
pub open spec fn url_target(value: Seq<char>) -> Seq<char> {
    match parsed_url(value) {
        Ok(u) => match u.host {
            Some(h) => u.scheme + "://"@ + h + match u.port {
                Some(p) => ":"@ + decimal(p as nat),
                None => Seq::<char>::empty(),
            },
            None => prefix_chars(value, 120),
        },
        Err(_) => prefix_chars(value, 120),
    }
}

/// The scheme, host and port of an MCP server's URL; never its path or query.
pub fn safe_url_target(value: &str) -> (r: String)
    ensures
        r@ == url_target(value@),
{
    match parse_url(value) {
        Ok(u) => match u.host {
            Some(h) => {
                let mut out = u.scheme;
                out.append("://");
                out.append(h.as_str());
                if let Some(p) = u.port {
                    out.append(":");
                    let digits = crate::text::decimal_string(p as u128);
                    out.append(digits.as_str());
                }
                out
            },
            None => first_chars(value, 120),
        },
        Err(_) => first_chars(value, 120),
    }
}

/// What of a command the overview shows: its file name, at most 120 characters.
pub open spec fn command_target(value: Seq<char>) -> Seq<char> {
    prefix_chars(
        match file_name_of(value) {
            Some(n) => n,
            None => value,
        },
        120,
    )
}

/// The file name of an MCP server's command; never its directory.
pub fn safe_command_target(value: &str) -> (r: String)
    ensures
        r@ == command_target(value@),
{
    match file_name(value) {
        Some(name) => first_chars(name.as_str(), 120),
        None => first_chars(value, 120),
    }
}

/// A text member, trimmed, when it is not empty.
pub open spec fn text_field(v: Json, field: Seq<char>) -> Option<Seq<char>> {
    match v.str_at(field) {
        Some(t) => if trim_spec(t).len() > 0 {
            Some(trim_spec(t))
        } else {
            None
        },
        None => None,
    }
}

/// The trimmed, non-empty string member `field`.
pub fn string_field(value: &JsonValue, field: &str) -> (r: Option<String>)
    ensures
        opt_string_view(r) == text_field(value@, field@),
{
    match value.str_at(field) {
        Some(t) => {
            let trimmed = str_trim(t);
            if trimmed.is_empty() {
                None
            } else {
                Some(trimmed.to_owned())
            }
        },
        None => None,
    }
}

/// An MCP server as the overview shows it.
pub struct ServerModel {
    pub name: Seq<char>,
    pub enabled: bool,
    pub transport: Seq<char>,
    pub target: Option<Seq<char>>,
}

pub open spec fn server_view(s: EnvironmentMcpServer) -> ServerModel {
    ServerModel { name: s.name@, enabled: s.enabled, transport: s.transport@, target: opt_string_view(s.target) }
}

/// The server configured under `name`: enabled unless it says otherwise,
/// reached over HTTP when it has a URL, else over STDIO when it has a command.
pub open spec fn server_of(name: Seq<char>, v: Json) -> ServerModel {
    ServerModel {
        name,
        enabled: match v.get("enabled"@) {
            Some(e) => match e.bool_of() {
                Some(b) => b,
                None => true,
            },
            None => true,
        },
        transport: if text_field(v, "url"@) is Some {
            "HTTP"@
        } else if text_field(v, "command"@) is Some {
            "STDIO"@
        } else {
            "Unknown"@
        },
        target: match text_field(v, "url"@) {
            Some(u) => Some(url_target(u)),
            None => match text_field(v, "command"@) {
                Some(c) => Some(command_target(c)),
                None => None,
            },
        },
    }
}

/// The servers of `config.mcp_servers`, in the order they are listed.
pub open spec fn configured_servers(raw: Json) -> Seq<ServerModel> {
    match raw.at(seq!["config"@, "mcp_servers"@]) {
        Some(Json::Object(members)) => members.map_values(|m: (Seq<char>, Json)| server_of(m.0, m.1)),
        _ => Seq::empty(),
    }
}

/// `a` is listed before `b`: enabled servers first, then by lower-cased name.
pub open spec fn server_before(a: ServerModel, b: ServerModel) -> bool {
    ||| (a.enabled && !b.enabled)
    ||| (a.enabled == b.enabled && text_lt(unicode_lowercase(a.name), unicode_lowercase(b.name)))
}

pub open spec fn servers_ordered(s: Seq<ServerModel>) -> bool {
    forall|i: int, j: int| 0 <= i < j < s.len() ==> !server_before(#[trigger] s[j], #[trigger] s[i])
}

/// A server with its lower-cased name, the key it is ordered by.
pub struct Keyed {
    pub server: EnvironmentMcpServer,
    pub lower: String,
}

pub open spec fn keyed_ok(k: Keyed) -> bool {
    k.lower@ == unicode_lowercase(k.server.name@)
}

pub open spec fn keyed_views(v: Seq<Keyed>) -> Seq<ServerModel> {
    v.map_values(|k: Keyed| server_view(k.server))
}

impl Ranked for Keyed {
    open spec fn before(self, other: Self) -> bool {
        (self.server.enabled && !other.server.enabled) || (self.server.enabled == other.server.enabled && text_lt(
            self.lower@,
            other.lower@,
        ))
    }

    proof fn lemma_before(a: Self, b: Self, c: Self) {
        lemma_text_lt_asymmetric(a.lower@, b.lower@);
        if text_lt(a.lower@, b.lower@) && text_lt(b.lower@, c.lower@) {
            lemma_text_lt_transitive(a.lower@, b.lower@, c.lower@);
        }
    }

    fn comes_before(&self, other: &Self) -> (r: bool) {
        (self.server.enabled && !other.server.enabled) || (self.server.enabled == other.server.enabled && text_less(
            self.lower.as_str(),
            other.lower.as_str(),
        ))
    }
}

pub open spec fn keyed_server(k: Keyed) -> EnvironmentMcpServer {
    k.server
}

/// Orders the servers, ties keeping their order.
fn sort_servers(items: Vec<Keyed>) -> (r: Vec<EnvironmentMcpServer>)
    requires
        forall|i: int| 0 <= i < items@.len() ==> keyed_ok(#[trigger] items@[i]),
    ensures
        servers_ordered(r@.map_values(|s: EnvironmentMcpServer| server_view(s))),
        r@.map_values(|s: EnvironmentMcpServer| server_view(s)).to_multiset() == keyed_views(items@).to_multiset(),
        r@ == ranked_order(items@, items@.len()).map_values(|k: Keyed| keyed_server(k)),
{
    let ghost unsorted = items@;
    let sorted = sort_ranked(items);
    proof {
        lemma_map_multiset(sorted@, unsorted, |k: Keyed| server_view(k.server));
        assert forall|q: int| 0 <= q < sorted@.len() implies keyed_ok(#[trigger] sorted@[q]) by {
            broadcast use vstd::seq_lib::group_to_multiset_ensures;
            assert(sorted@.contains(sorted@[q]));
            assert(unsorted.to_multiset().count(sorted@[q]) > 0);
        }
    }
    let ghost sv = sorted@;
    let mut out: Vec<EnvironmentMcpServer> = Vec::new();
    let m = sorted.len();
    let mut rest = sorted;
    let mut j: usize = 0;
    while rest.len() > 0
        invariant
            j + rest@.len() == m,
            m == sv.len(),
            rest@ == sv.skip(j as int),
            out@.len() == j,
            forall|q: int| 0 <= q < j ==> #[trigger] out@[q] == sv[q].server,
        decreases rest@.len(),
    {
        let ghost before = rest@;
        let k = rest.remove(0);
        assert(k == sv[j as int]) by {
            assert(before[0] == sv.skip(j as int)[0]);
        }
        assert(rest@ =~= sv.skip(j + 1));
        out.push(k.server);
        j = j + 1;
    }
    proof {
        assert(out@ =~= sv.map_values(|k: Keyed| keyed_server(k)));
        let views = out@.map_values(|s: EnvironmentMcpServer| server_view(s));
        assert(views =~= keyed_views(sv));
        assert forall|a: int, b: int| 0 <= a < b < views.len() implies !server_before(#[trigger] views[b], #[trigger] views[a]) by {
            assert(!Keyed::before(sv[b], sv[a]));
            assert(keyed_ok(sv[a]) && keyed_ok(sv[b]));
        }
    }
    out
}

/// The MCP servers of the configuration, enabled ones first, then by
/// lower-cased name.
pub fn mcp_servers(raw: &JsonValue) -> (r: Vec<EnvironmentMcpServer>)
    ensures
        servers_ordered(r@.map_values(|s: EnvironmentMcpServer| server_view(s))),
        r@.map_values(|s: EnvironmentMcpServer| server_view(s)).to_multiset() == configured_servers(raw@).to_multiset(),
        exists|rows: Seq<Keyed>|
            {
                &&& forall|i: int| 0 <= i < rows.len() ==> keyed_ok(#[trigger] rows[i])
                &&& keyed_views(rows) == configured_servers(raw@)
                &&& r@ == ranked_order(rows, rows.len()).map_values(|k: Keyed| keyed_server(k))
            },
{
    let path: [&str; 2] = ["config", "mcp_servers"];
    assert(path@.map_values(|p: &str| p@) =~= seq!["config"@, "mcp_servers"@]);
    let servers = match raw.pointer(&path) {
        Some(JsonValue::Object(members)) => members,
        _ => {
            let empty: Vec<EnvironmentMcpServer> = Vec::new();
            proof {
                vstd::seq_lib::to_multiset_len(empty@.map_values(|s: EnvironmentMcpServer| server_view(s)));
                vstd::seq_lib::to_multiset_len(configured_servers(raw@));
                vstd::multiset::lemma_multiset_empty_len(configured_servers(raw@).to_multiset());
                vstd::multiset::lemma_multiset_empty_len(empty@.map_values(|s: EnvironmentMcpServer| server_view(s)).to_multiset());
                assert(configured_servers(raw@) =~= Seq::<ServerModel>::empty());
                let rows = Seq::<Keyed>::empty();
                assert(keyed_views(rows) =~= configured_servers(raw@));
                assert(empty@ =~= ranked_order(rows, 0).map_values(|k: Keyed| keyed_server(k)));
            }
            return empty;
        },
    };
    let ghost ms = raw@.at(seq!["config"@, "mcp_servers"@])->Some_0->Object_0;
    assert(ms.len() == servers@.len());
    let mut keyed: Vec<Keyed> = Vec::new();
    let mut i: usize = 0;
    while i < servers.len()
        invariant
            i <= servers@.len(),
            ms.len() == servers@.len(),
            forall|j: int| 0 <= j < servers@.len() ==> #[trigger] ms[j] == (servers@[j].0@, servers@[j].1@),
            keyed@.len() == i,
            forall|j: int| 0 <= j < i ==> keyed_ok(#[trigger] keyed@[j]),
            forall|j: int| 0 <= j < i ==> server_view(#[trigger] keyed@[j].server) == server_of(ms[j].0, ms[j].1),
        decreases servers@.len() - i,
    {
        let (name, value) = &servers[i];
        assert(ms[i as int] == (name@, value@));
        let enabled = match value.get("enabled") {
            Some(e) => match e.as_bool() {
                Some(b) => b,
                None => true,
            },
            None => true,
        };
        let url = string_field(value, "url");
        let command = string_field(value, "command");
        let (transport, target) = match url {
            Some(u) => ("HTTP".to_owned(), Some(safe_url_target(u.as_str()))),
            None => match command {
                Some(c) => ("STDIO".to_owned(), Some(safe_command_target(c.as_str()))),
                None => ("Unknown".to_owned(), None),
            },
        };
        let lower = str_lowercase(name.as_str());
        keyed.push(Keyed { server: EnvironmentMcpServer { name: name.clone(), enabled, transport, target }, lower });
        i = i + 1;
    }
    assert(keyed_views(keyed@) =~= configured_servers(raw@));
    sort_servers(keyed)
}


/// The first provider listed under `id`.
pub open spec fn provider_position(providers: Seq<ProviderDefinition>, id: Seq<char>, n: nat) -> Option<int>
    decreases n,
{
    if n == 0 {
        None
    } else {
        match provider_position(providers, id, (n - 1) as nat) {
            Some(i) => Some(i),
            None => if providers[n - 1].id@ == id {
                Some(n - 1)
            } else {
                None
            },
        }
    }
}

pub struct ProviderModel {
    pub id: Seq<char>,
    pub name: Seq<char>,
    pub model: Option<Seq<char>>,
    pub wire_api: Seq<char>,
    pub endpoint: Option<Seq<char>>,
    pub credential_variable: Option<Seq<char>>,
    pub credential_source: Seq<char>,
    pub credential_available: bool,
    pub compatibility: Seq<char>,
}

pub open spec fn provider_view(p: EnvironmentProvider) -> ProviderModel {
    ProviderModel {
        id: p.id@,
        name: p.name@,
        model: opt_string_view(p.model),
        wire_api: p.wire_api@,
        endpoint: opt_string_view(p.endpoint),
        credential_variable: opt_string_view(p.credential_variable),
        credential_source: p.credential_source@,
        credential_available: p.credential_available,
        compatibility: p.compatibility@,
    }
}

/// The active provider as the overview shows it; what is not known of a
/// provider that is not listed reads "unknown".
pub open spec fn active_provider_of(s: ProviderSnapshot) -> ProviderModel {
    match provider_position(s.providers@, s.active_provider@, s.providers@.len()) {
        Some(i) => {
            let p = s.providers@[i];
            ProviderModel {
                id: s.active_provider@,
                name: p.name@,
                model: opt_string_view(s.active_model),
                wire_api: p.wire_api@,
                endpoint: opt_string_view(p.base_url),
                credential_variable: opt_string_view(p.env_key),
                credential_source: p.credential_source@,
                credential_available: p.credential_available,
                compatibility: p.compatibility@,
            }
        },
        None => ProviderModel {
            id: s.active_provider@,
            name: s.active_provider@,
            model: opt_string_view(s.active_model),
            wire_api: "unknown"@,
            endpoint: None,
            credential_variable: None,
            credential_source: "unknown"@,
            credential_available: false,
            compatibility: "unknown"@,
        },
    }
}

pub open spec fn warn_if(condition: bool, message: Seq<char>) -> Seq<Seq<char>> {
    if condition {
        seq![message]
    } else {
        Seq::empty()
    }
}

/// The warnings of the overview, in order.
pub open spec fn environment_warnings(
    home_is_dir: bool,
    sessions_is_dir: bool,
    provider: ProviderModel,
    settings: CodexSettings,
    storage: StorageHealth,
) -> Seq<Seq<char>> {
    (if !home_is_dir {
        seq!["CODEX_HOME does not exist, so local sessions cannot be inspected."@]
    } else {
        warn_if(!sessions_is_dir, "The sessions directory is not present; Usage and Execution will have no local history."@)
    })
    + warn_if(provider.compatibility != "responses"@, "The active provider is not confirmed as Responses API compatible."@)
    + warn_if(!provider.credential_available, "The active provider credential is not available."@)
    + warn_if(settings.history_persistence@ == "none"@, "Session history persistence is disabled; historical analysis will be incomplete."@)
    + warn_if(
        settings.sandbox_mode@ == "danger-full-access"@ && settings.approval_policy@ == "never"@,
        "Codex currently has full filesystem access with approvals disabled."@,
    )
    + warn_if(!storage.integrity_ok, "The analysis database quick check failed: "@ + storage.integrity_message@)
    + warn_if(
        storage.foreign_key_violations > 0,
        "The analysis database has "@ + decimal(storage.foreign_key_violations as nat) + " foreign-key violations."@,
    )
    + warn_if(
        storage.malformed_session_lines > 0,
        decimal(storage.malformed_session_lines as nat) + " local session lines could not be parsed and were skipped."@,
    )
}

/// An extension directory is shown when it exists; the Codex skills directory always is.
pub open spec fn shown(p: EnvironmentPath) -> bool {
    p.exists || p.label@ == "Codex skills"@
}

pub struct PathModel {
    pub label: Seq<char>,
    pub path: Seq<char>,
    pub exists: bool,
    pub item_count: Option<u64>,
}

pub open spec fn path_view(p: EnvironmentPath) -> PathModel {
    PathModel { label: p.label@, path: p.path@, exists: p.exists, item_count: p.item_count }
}

pub open spec fn path_views(v: Seq<EnvironmentPath>) -> Seq<PathModel> {
    v.map_values(|p: EnvironmentPath| path_view(p))
}

/// The extension directories that are shown, in order.
pub open spec fn shown_paths(v: Seq<EnvironmentPath>) -> Seq<PathModel>
    decreases v.len(),
{
    if v.len() == 0 {
        Seq::empty()
    } else {
        let rest = shown_paths(v.drop_last());
        if shown(v.last()) {
            rest.push(path_view(v.last()))
        } else {
            rest
        }
    }
}

fn find_provider(providers: &Vec<ProviderDefinition>, id: &str) -> (r: Option<usize>)
    ensures
        match r {
            Some(i) => i < providers@.len() && provider_position(providers@, id@, providers@.len()) == Some(i as int),
            None => provider_position(providers@, id@, providers@.len()) is None,
        },
{
    let mut i: usize = 0;
    while i < providers.len()
        invariant
            i <= providers@.len(),
            provider_position(providers@, id@, i as nat) is None,
        decreases providers@.len() - i,
    {
        if str_eq(providers[i].id.as_str(), id) {
            proof {
                lemma_provider_position_sticks(providers@, id@, (i + 1) as nat, providers@.len());
            }
            return Some(i);
        }
        i = i + 1;
    }
    None
}

proof fn lemma_provider_position_sticks(providers: Seq<ProviderDefinition>, id: Seq<char>, k: nat, n: nat)
    requires
        k <= n,
        provider_position(providers, id, k) is Some,
    ensures
        provider_position(providers, id, n) == provider_position(providers, id, k),
    decreases n,
{
    if n > k {
        lemma_provider_position_sticks(providers, id, k, (n - 1) as nat);
    }
}

fn copy_text(v: &Option<String>) -> (r: Option<String>)
    ensures
        opt_string_view(r) == opt_string_view(*v),
{
    match v {
        Some(s) => Some(s.clone()),
        None => None,
    }
}

/// The active provider of a provider snapshot, as the overview shows it.
pub fn active_provider(snapshot: &ProviderSnapshot) -> (r: EnvironmentProvider)
    ensures
        provider_view(r) == active_provider_of(*snapshot),
{
    match find_provider(&snapshot.providers, snapshot.active_provider.as_str()) {
        Some(i) => {
            let p = &snapshot.providers[i];
            EnvironmentProvider {
                id: snapshot.active_provider.clone(),
                name: p.name.clone(),
                model: copy_text(&snapshot.active_model),
                wire_api: p.wire_api.clone(),
                endpoint: copy_text(&p.base_url),
                credential_variable: copy_text(&p.env_key),
                credential_source: p.credential_source.clone(),
                credential_available: p.credential_available,
                compatibility: p.compatibility.clone(),
            }
        },
        None => EnvironmentProvider {
            id: snapshot.active_provider.clone(),
            name: snapshot.active_provider.clone(),
            model: copy_text(&snapshot.active_model),
            wire_api: "unknown".to_owned(),
            endpoint: None,
            credential_variable: None,
            credential_source: "unknown".to_owned(),
            credential_available: false,
            compatibility: "unknown".to_owned(),
        },
    }
}

fn push_if(warnings: &mut Vec<String>, condition: bool, message: String)
    ensures
        final(warnings)@.map_values(|w: String| w@) == old(warnings)@.map_values(|w: String| w@) + warn_if(condition, message@),
{
    let ghost before = warnings@;
    if condition {
        warnings.push(message);
        assert(warnings@.map_values(|w: String| w@) =~= before.map_values(|w: String| w@) + seq![message@]);
    } else {
        assert(warnings@.map_values(|w: String| w@) =~= before.map_values(|w: String| w@) + Seq::<Seq<char>>::empty());
    }
}

/// The warnings of the overview.
pub fn build_warnings(
    home_is_dir: bool,
    sessions_is_dir: bool,
    provider: &EnvironmentProvider,
    settings: &CodexSettings,
    storage: &StorageHealth,
) -> (r: Vec<String>)
    ensures
        r@.map_values(|w: String| w@) == environment_warnings(home_is_dir, sessions_is_dir, provider_view(*provider), *settings, *storage),
{
    let mut warnings: Vec<String> = Vec::new();
    assert(warnings@.map_values(|w: String| w@) =~= Seq::<Seq<char>>::empty());
    if !home_is_dir {
        push_if(&mut warnings, true, "CODEX_HOME does not exist, so local sessions cannot be inspected.".to_owned());
    } else {
        push_if(&mut warnings, !sessions_is_dir, "The sessions directory is not present; Usage and Execution will have no local history.".to_owned());
    }
    push_if(&mut warnings, !str_eq(provider.compatibility.as_str(), "responses"), "The active provider is not confirmed as Responses API compatible.".to_owned());
    push_if(&mut warnings, !provider.credential_available, "The active provider credential is not available.".to_owned());
    push_if(&mut warnings, str_eq(settings.history_persistence.as_str(), "none"), "Session history persistence is disabled; historical analysis will be incomplete.".to_owned());
    push_if(
        &mut warnings,
        str_eq(settings.sandbox_mode.as_str(), "danger-full-access") && str_eq(settings.approval_policy.as_str(), "never"),
        "Codex currently has full filesystem access with approvals disabled.".to_owned(),
    );
    push_if(&mut warnings, !storage.integrity_ok, crate::text::concat("The analysis database quick check failed: ", storage.integrity_message.as_str()));
    let mut violations = "The analysis database has ".to_owned();
    let count = crate::text::decimal_string(storage.foreign_key_violations as u128);
    violations.append(count.as_str());
    violations.append(" foreign-key violations.");
    push_if(&mut warnings, storage.foreign_key_violations > 0, violations);
    let mut malformed = crate::text::decimal_string(storage.malformed_session_lines as u128);
    malformed.append(" local session lines could not be parsed and were skipped.");
    push_if(&mut warnings, storage.malformed_session_lines > 0, malformed);
    warnings
}

/// The extension directories that are shown, in order.
pub fn shown_extension_paths(paths: Vec<EnvironmentPath>) -> (r: Vec<EnvironmentPath>)
    ensures
        path_views(r@) == shown_paths(paths@),
{
    let ghost input = paths@;
    let mut out: Vec<EnvironmentPath> = Vec::new();
    let mut rest = paths;
    let mut i: usize = 0;
    let n = rest.len();
    assert(path_views(out@) =~= shown_paths(input.take(0)));
    while rest.len() > 0
        invariant
            i + rest@.len() == n,
            n == input.len(),
            rest@ == input.skip(i as int),
            path_views(out@) == shown_paths(input.take(i as int)),
        decreases rest@.len(),
    {
        let item = rest.remove(0);
        assert(item == input[i as int]);
        assert(rest@ =~= input.skip(i + 1));
        assert(input.take(i + 1).drop_last() =~= input.take(i as int));
        let ghost before = out@;
        if item.exists || str_eq(item.label.as_str(), "Codex skills") {
            out.push(item);
            assert(path_views(out@) =~= path_views(before).push(path_view(item)));
        }
        i = i + 1;
    }
    assert(input.take(i as int) =~= input);
    out
}

/// Assembles the environment overview from what the app gathered.
pub fn build_environment_snapshot(
    raw: &JsonValue,
    provider_snapshot: &ProviderSnapshot,
    settings_snapshot: &SettingsSnapshot,
    runtime: EnvironmentRuntime,
    home: CodexHomeState,
    fetched_at: String,
) -> (r: EnvironmentSnapshot)
    ensures
        r.fetched_at@ == fetched_at@,
        r.codex_version@ == runtime.codex_version@,
        r.codex_binary@ == runtime.codex_binary@,
        r.codex_home@ == home.codex_home@,
        r.config_path@ == settings_snapshot.config_path@,
        r.sessions_path@ == home.sessions_path@,
        r.xray_data_path@ == runtime.xray_data_path@,
        r.xray_sqlite_path@ == runtime.xray_sqlite_path@,
        r.storage == runtime.storage,
        opt_string_view(r.config_version) == opt_string_view(settings_snapshot.version),
        provider_view(r.provider) == active_provider_of(*provider_snapshot),
        same_settings(r.settings, settings_snapshot.settings),
        servers_ordered(r.mcp_servers@.map_values(|s: EnvironmentMcpServer| server_view(s))),
        r.mcp_servers@.map_values(|s: EnvironmentMcpServer| server_view(s)).to_multiset() == configured_servers(raw@).to_multiset(),
        path_views(r.extension_paths@) == shown_paths(home.extension_paths@),
        r.warnings@.map_values(|w: String| w@) == environment_warnings(
            home.home_is_dir,
            home.sessions_is_dir,
            active_provider_of(*provider_snapshot),
            settings_snapshot.settings,
            runtime.storage,
        ),
{
    let EnvironmentRuntime { codex_version, codex_binary, xray_data_path, xray_sqlite_path, storage } = runtime;
    let CodexHomeState { codex_home, sessions_path, home_is_dir, sessions_is_dir, extension_paths } = home;
    let provider = active_provider(provider_snapshot);
    let warnings = build_warnings(home_is_dir, sessions_is_dir, &provider, &settings_snapshot.settings, &storage);
    EnvironmentSnapshot {
        fetched_at,
        codex_version,
        codex_binary,
        codex_home,
        config_path: settings_snapshot.config_path.clone(),
        sessions_path,
        xray_data_path,
        xray_sqlite_path,
        storage,
        config_version: copy_text(&settings_snapshot.version),
        provider,
        settings: copy_settings(&settings_snapshot.settings),
        mcp_servers: mcp_servers(raw),
        extension_paths: shown_extension_paths(extension_paths),
        warnings,
    }
}

} // verus!
