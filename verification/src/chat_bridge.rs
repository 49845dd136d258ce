//! The local Chat Completions bridge: its stable addresses and the table of
//! providers it serves, with changes that can be undone.
use vstd::prelude::*;
use crate::text::{chars_of, decimal, decimal_string, has_suffix, str_ends_with, str_eq, string_of_range};

verus! {

broadcast use vstd::string::group_string_axioms;

/// The loopback port the bridge listens on.
pub const CHAT_BRIDGE_PORT: u16 = 32_198;

/// The context window a provider gets when its configuration names none.
pub const DEFAULT_CONTEXT_WINDOW: u64 = 128_000;

/// An upstream Chat Completions provider served through the bridge.
#[derive(Debug)]
pub struct ChatBridgeProvider {
    pub upstream_base_url: String,
    pub credential_mode: String,
    pub env_key: Option<String>,
    pub model: String,
    pub context_window: u64,
}

/// What the UI shows of the bridge.
#[derive(Debug)]
pub struct ChatBridgeStatus {
    pub running: bool,
    pub base_url: String,
    pub configured_providers: usize,
    pub last_error: Option<String>,
}

/// What undoes one change of the provider table.
#[derive(Debug)]
pub struct ChatBridgeRollback {
    pub provider_id: String,
    pub previous: Option<ChatBridgeProvider>,
    pub changed: bool,
}

/// The model of a provider entry.
pub type ProviderModel = (Seq<char>, Seq<char>, Option<Seq<char>>, Seq<char>, u64);

pub open spec fn provider_view(p: ChatBridgeProvider) -> ProviderModel {
    (
        p.upstream_base_url@,
        p.credential_mode@,
        match p.env_key {
            Some(k) => Some(k@),
            None => None,
        },
        p.model@,
        p.context_window,
    )
}

pub open spec fn bridge_root_text() -> Seq<char> {
    "http://127.0.0.1:"@ + decimal(CHAT_BRIDGE_PORT as nat)
}

/// The bridge's address on the loopback interface.
pub fn bridge_root_url() -> (r: String)
    ensures
        r@ == bridge_root_text(),
{
    let mut out = "http://127.0.0.1:".to_owned();
    let port = decimal_string(CHAT_BRIDGE_PORT as u128);
    out.append(port.as_str());
    out
}

pub open spec fn provider_base_text(provider_id: Seq<char>) -> Seq<char> {
    bridge_root_text() + "/v1/chat/"@ + provider_id
}

/// The base URL Codex is given for a provider served through the bridge.
pub fn provider_base_url(provider_id: &str) -> (r: String)
    ensures
        r@ == provider_base_text(provider_id@),
{
    let mut out = bridge_root_url();
    out.append("/v1/chat/");
    out.append(provider_id);
    out
}

/// `s` without its trailing `c` characters.
pub open spec fn trim_end_char(s: Seq<char>, c: char) -> Seq<char>
    decreases s.len(),
{
    if s.len() > 0 && s.last() == c {
        trim_end_char(s.drop_last(), c)
    } else {
        s
    }
}

/// `s.trim_end_matches('/')`.
pub fn trim_end_slashes(s: &str) -> (r: String)
    ensures
        r@ == trim_end_char(s@, '/'),
{
    let chars = chars_of(s);
    let mut end = chars.len();
    assert(chars@.take(end as int) == chars@);
    while end > 0 && chars[end - 1] == '/'
        invariant
            end <= chars@.len(),
            trim_end_char(s@, '/') == trim_end_char(chars@.take(end as int), '/'),
            chars@ == s@,
        decreases end,
    {
        assert(chars@.take(end as int).drop_last() == chars@.take(end - 1));
        end = end - 1;
    }
    proof {
        assert(chars@.take(0).len() == 0);
    }
    let out = string_of_range(chars.as_slice(), 0, end);
    assert(chars@.subrange(0, end as int) == chars@.take(end as int));
    out
}

/// Whether `base_url` is the bridge address of `provider_id`, trailing slashes aside.
pub fn is_provider_bridge_url(provider_id: &str, base_url: &str) -> (r: bool)
    ensures
        r == (trim_end_char(base_url@, '/') == provider_base_text(provider_id@)),
{
    let trimmed = trim_end_slashes(base_url);
    let expected = provider_base_url(provider_id);
    str_eq(trimmed.as_str(), expected.as_str())
}

/// The bridge recognises every address it hands out for a provider, with or
/// without trailing slashes.
pub proof fn law_bridge_url_round_trip(provider_id: Seq<char>, slashes: nat)
    requires
        provider_id.len() > 0,
        provider_id.last() != '/',
    ensures
        trim_end_char(provider_base_text(provider_id) + Seq::new(slashes, |i: int| '/'), '/')
            == provider_base_text(provider_id),
    decreases slashes,
{
    let base = provider_base_text(provider_id);
    let with = base + Seq::new(slashes, |i: int| '/');
    if slashes == 0 {
        assert(with == base);
        assert(base.last() == provider_id.last());
    } else {
        assert(with.last() == '/');
        assert(with.drop_last() == base + Seq::new((slashes - 1) as nat, |i: int| '/'));
        law_bridge_url_round_trip(provider_id, (slashes - 1) as nat);
    }
}

pub open spec fn chat_endpoint_text(base_url: Seq<char>) -> Seq<char> {
    let base = trim_end_char(base_url, '/');
    if has_suffix(base, "/chat/completions"@) {
        base
    } else {
        base + "/chat/completions"@
    }
}

/// The upstream Chat Completions endpoint for a provider's base URL.
pub fn chat_endpoint(base_url: &str) -> (r: String)
    ensures
        r@ == chat_endpoint_text(base_url@),
{
    let base = trim_end_slashes(base_url);
    if str_ends_with(base.as_str(), "/chat/completions") {
        base
    } else {
        let mut out = base;
        out.append("/chat/completions");
        out
    }
}

/// The providers the bridge serves, by provider ID; no ID occurs twice.
#[derive(Debug)]
pub struct ProviderTable {
    pub entries: Vec<(String, ChatBridgeProvider)>,
}

pub open spec fn keys_distinct(entries: Seq<(String, ChatBridgeProvider)>) -> bool {
    forall|a: int, b: int|
        0 <= a < b < entries.len() ==> (#[trigger] entries[a]).0@ != (#[trigger] entries[b]).0@
}

/// The provider registered under `key`.
pub open spec fn lookup(entries: Seq<(String, ChatBridgeProvider)>, key: Seq<char>) -> Option<
    ProviderModel,
> {
    if exists|k: int| 0 <= k < entries.len() && (#[trigger] entries[k]).0@ == key {
        let k = choose|k: int| 0 <= k < entries.len() && (#[trigger] entries[k]).0@ == key;
        Some(provider_view(entries[k].1))
    } else {
        None
    }
}

proof fn lemma_lookup_at(entries: Seq<(String, ChatBridgeProvider)>, k: int)
    requires
        keys_distinct(entries),
        0 <= k < entries.len(),
    ensures
        lookup(entries, entries[k].0@) == Some(provider_view(entries[k].1)),
{
    let key = entries[k].0@;
    let j = choose|j: int| 0 <= j < entries.len() && (#[trigger] entries[j]).0@ == key;
    if j != k {
        if j < k {
            assert(entries[j].0@ != entries[k].0@);
        } else {
            assert(entries[k].0@ != entries[j].0@);
        }
    }
}

impl ProviderTable {
    pub open spec fn wf(&self) -> bool {
        keys_distinct(self.entries@)
    }

    pub open spec fn get_spec(&self, key: Seq<char>) -> Option<ProviderModel> {
        lookup(self.entries@, key)
    }

    /// An empty table.
    pub fn new() -> (r: Self)
        ensures
            r.wf(),
            forall|key: Seq<char>| r.get_spec(key) is None,
    {
        ProviderTable { entries: Vec::new() }
    }

    fn position(&self, provider_id: &str) -> (r: Option<usize>)
        ensures
            match r {
                Some(k) => k < self.entries@.len() && self.entries@[k as int].0@ == provider_id@,
                None => forall|k: int|
                    0 <= k < self.entries@.len() ==> (#[trigger] self.entries@[k]).0@
                        != provider_id@,
            },
    {
        let mut k: usize = 0;
        while k < self.entries.len()
            invariant
                k <= self.entries@.len(),
                forall|j: int| 0 <= j < k ==> (#[trigger] self.entries@[j]).0@ != provider_id@,
            decreases self.entries@.len() - k,
        {
            if str_eq(self.entries[k].0.as_str(), provider_id) {
                return Some(k);
            }
            k = k + 1;
        }
        None
    }

    /// The provider registered under `provider_id`.
    pub fn provider(&self, provider_id: &str) -> (r: Option<ChatBridgeProvider>)
        requires
            self.wf(),
        ensures
            match r {
                Some(p) => self.get_spec(provider_id@) == Some(provider_view(p)),
                None => self.get_spec(provider_id@) is None,
            },
    {
        match self.position(provider_id) {
            Some(k) => {
                proof {
                    lemma_lookup_at(self.entries@, k as int);
                }
                Some(copy_provider(&self.entries[k].1))
            },
            None => None,
        }
    }

    /// How many providers are registered.
    pub fn len(&self) -> (r: usize)
        ensures
            r == self.entries@.len(),
    {
        self.entries.len()
    }

    fn put(&mut self, provider_id: &str, provider: ChatBridgeProvider)
        requires
            old(self).wf(),
        ensures
            final(self).wf(),
            forall|key: Seq<char>|
                #[trigger] final(self).get_spec(key) == if key == provider_id@ {
                    Some(provider_view(provider))
                } else {
                    old(self).get_spec(key)
                },
    {
        let ghost before = self.entries@;
        match self.position(provider_id) {
            Some(k) => {
                self.entries.set(k, (provider_id.to_owned(), provider));
                proof {
                    let after = self.entries@;
                    assert forall|a: int, b: int|
                        0 <= a < b < after.len() implies (#[trigger] after[a]).0@ != (
                        #[trigger] after[b]).0@ by {
                        assert(before[a].0@ != before[b].0@);
                    }
                    assert forall|key: Seq<char>|
                        #[trigger] lookup(after, key) == if key == provider_id@ {
                            Some(provider_view(provider))
                        } else {
                            lookup(before, key)
                        } by {
                        if key == provider_id@ {
                            lemma_lookup_at(after, k as int);
                        } else {
                            if exists|j: int| 0 <= j < before.len() && (#[trigger] before[j]).0@ == key {
                                let j = choose|j: int| 0 <= j < before.len() && (#[trigger] before[j]).0@ == key;
                                lemma_lookup_at(before, j);
                                lemma_lookup_at(after, j);
                            } else {
                                assert forall|j: int| 0 <= j < after.len() implies (#[trigger] after[j]).0@ != key by {
                                    assert(before[j].0@ != key);
                                }
                            }
                        }
                    }
                }
            },
            None => {
                self.entries.push((provider_id.to_owned(), provider));
                proof {
                    let after = self.entries@;
                    assert forall|a: int, b: int|
                        0 <= a < b < after.len() implies (#[trigger] after[a]).0@ != (
                        #[trigger] after[b]).0@ by {
                        if b < before.len() {
                            assert(before[a].0@ != before[b].0@);
                        } else {
                            assert(after[a] == before[a]);
                        }
                    }
                    assert forall|key: Seq<char>|
                        #[trigger] lookup(after, key) == if key == provider_id@ {
                            Some(provider_view(provider))
                        } else {
                            lookup(before, key)
                        } by {
                        if key == provider_id@ {
                            lemma_lookup_at(after, before.len() as int);
                        } else {
                            if exists|j: int| 0 <= j < before.len() && (#[trigger] before[j]).0@ == key {
                                let j = choose|j: int| 0 <= j < before.len() && (#[trigger] before[j]).0@ == key;
                                lemma_lookup_at(before, j);
                                assert(after[j] == before[j]);
                                lemma_lookup_at(after, j);
                            } else {
                                assert forall|j: int| 0 <= j < after.len() implies (#[trigger] after[j]).0@ != key by {
                                    if j < before.len() {
                                        assert(after[j] == before[j]);
                                    }
                                }
                            }
                        }
                    }
                }
            },
        }
    }

    fn drop_entry(&mut self, provider_id: &str)
        requires
            old(self).wf(),
        ensures
            final(self).wf(),
            forall|key: Seq<char>|
                #[trigger] final(self).get_spec(key) == if key == provider_id@ {
                    None
                } else {
                    old(self).get_spec(key)
                },
    {
        let ghost before = self.entries@;
        match self.position(provider_id) {
            Some(k) => {
                self.entries.remove(k);
                proof {
                    let after = self.entries@;
                    assert forall|a: int, b: int|
                        0 <= a < b < after.len() implies (#[trigger] after[a]).0@ != (
                        #[trigger] after[b]).0@ by {
                        let a0 = if a < k { a } else { a + 1 };
                        let b0 = if b < k { b } else { b + 1 };
                        assert(after[a] == before[a0]);
                        assert(after[b] == before[b0]);
                        assert(before[a0].0@ != before[b0].0@);
                    }
                    assert forall|key: Seq<char>|
                        #[trigger] lookup(after, key) == if key == provider_id@ {
                            None
                        } else {
                            lookup(before, key)
                        } by {
                        if key == provider_id@ {
                            assert forall|j: int| 0 <= j < after.len() implies (#[trigger] after[j]).0@ != key by {
                                let j0 = if j < k { j } else { j + 1 };
                                assert(after[j] == before[j0]);
                                if j0 < k {
                                    assert(before[j0].0@ != before[k as int].0@);
                                } else {
                                    assert(before[k as int].0@ != before[j0].0@);
                                }
                            }
                        } else {
                            if exists|j: int| 0 <= j < before.len() && (#[trigger] before[j]).0@ == key {
                                let j = choose|j: int| 0 <= j < before.len() && (#[trigger] before[j]).0@ == key;
                                lemma_lookup_at(before, j);
                                assert(j != k);
                                let j1 = if j < k { j } else { j - 1 };
                                assert(after[j1] == before[j]);
                                lemma_lookup_at(after, j1);
                            } else {
                                assert forall|j: int| 0 <= j < after.len() implies (#[trigger] after[j]).0@ != key by {
                                    let j0 = if j < k { j } else { j + 1 };
                                    assert(after[j] == before[j0]);
                                }
                            }
                        }
                    }
                }
            },
            None => {
                proof {
                    assert forall|key: Seq<char>|
                        #[trigger] lookup(before, key) == if key == provider_id@ {
                            None
                        } else {
                            lookup(before, key)
                        } by {}
                }
            },
        }
    }

    /// Registers `provider` under `provider_id` and returns what undoes the
    /// change; `changed` is false when the same provider was already there (and
    /// nothing needs saving).
    pub fn persist_provider(&mut self, provider_id: &str, provider: ChatBridgeProvider) -> (r:
        ChatBridgeRollback)
        requires
            old(self).wf(),
        ensures
            final(self).wf(),
            persist_outcome(*old(self), provider_id@, provider_view(provider), *final(self), r),
    {
        let previous = self.provider(provider_id);
        let changed = match &previous {
            Some(p) => !same_provider(p, &provider),
            None => true,
        };
        self.put(provider_id, provider);
        ChatBridgeRollback { provider_id: provider_id.to_owned(), previous, changed }
    }

    /// Undoes a change made by `persist_provider`.
    pub fn rollback_provider(&mut self, rollback: ChatBridgeRollback)
        requires
            old(self).wf(),
        ensures
            final(self).wf(),
            rollback_outcome(*old(self), rollback, *final(self)),
    {
        if !rollback.changed {
            return;
        }
        match rollback.previous {
            Some(previous) => self.put(rollback.provider_id.as_str(), previous),
            None => self.drop_entry(rollback.provider_id.as_str()),
        }
    }
}

fn copy_provider(p: &ChatBridgeProvider) -> (r: ChatBridgeProvider)
    ensures
        provider_view(r) == provider_view(*p),
{
    ChatBridgeProvider {
        upstream_base_url: p.upstream_base_url.clone(),
        credential_mode: p.credential_mode.clone(),
        env_key: match &p.env_key {
            Some(k) => Some(k.clone()),
            None => None,
        },
        model: p.model.clone(),
        context_window: p.context_window,
    }
}

fn same_provider(a: &ChatBridgeProvider, b: &ChatBridgeProvider) -> (r: bool)
    ensures
        r == (provider_view(*a) == provider_view(*b)),
{
    let keys_equal = match (&a.env_key, &b.env_key) {
        (Some(x), Some(y)) => str_eq(x.as_str(), y.as_str()),
        (None, None) => true,
        _ => false,
    };
    str_eq(a.upstream_base_url.as_str(), b.upstream_base_url.as_str()) && str_eq(
        a.credential_mode.as_str(),
        b.credential_mode.as_str(),
    ) && keys_equal && str_eq(a.model.as_str(), b.model.as_str()) && a.context_window
        == b.context_window
}

/// What `persist_provider` does: `after` holds `provider` under `provider_id`
/// and agrees with `before` elsewhere; the rollback remembers the previous entry
/// and whether anything changed.
pub open spec fn persist_outcome(
    before: ProviderTable,
    provider_id: Seq<char>,
    provider: ProviderModel,
    after: ProviderTable,
    r: ChatBridgeRollback,
) -> bool {
    &&& forall|key: Seq<char>|
        #[trigger] after.get_spec(key) == if key == provider_id {
            Some(provider)
        } else {
            before.get_spec(key)
        }
    &&& r.provider_id@ == provider_id
    &&& match r.previous {
        Some(p) => before.get_spec(provider_id) == Some(provider_view(p)),
        None => before.get_spec(provider_id) is None,
    }
    &&& r.changed == (before.get_spec(provider_id) != Some(provider))
}

/// What `rollback_provider` does: nothing when nothing changed, else the entry
/// under the rollback's ID is put back as it was.
pub open spec fn rollback_outcome(before: ProviderTable, r: ChatBridgeRollback, after: ProviderTable) -> bool {
    &&& !r.changed ==> after == before
    &&& r.changed ==> forall|key: Seq<char>|
        #[trigger] after.get_spec(key) == if key == r.provider_id@ {
            match r.previous {
                Some(p) => Some(provider_view(p)),
                None => None,
            }
        } else {
            before.get_spec(key)
        }
}

/// Undoing a change restores what the table held before it, for every provider.
pub proof fn law_rollback_restores(
    prior: ProviderTable,
    provider_id: Seq<char>,
    provider: ProviderModel,
    changed: ProviderTable,
    rollback: ChatBridgeRollback,
    restored: ProviderTable,
)
    requires
        persist_outcome(prior, provider_id, provider, changed, rollback),
        rollback_outcome(changed, rollback, restored),
    ensures
        forall|key: Seq<char>| #[trigger] restored.get_spec(key) == prior.get_spec(key),
{
    assert forall|key: Seq<char>| #[trigger] restored.get_spec(key) == prior.get_spec(key) by {
        if !rollback.changed {
            assert(changed.get_spec(key) == restored.get_spec(key));
            assert(prior.get_spec(provider_id) == Some(provider));
        } else {
            assert(restored.get_spec(key) == if key == provider_id {
                match rollback.previous {
                    Some(p) => Some(provider_view(p)),
                    None => None,
                }
            } else {
                changed.get_spec(key)
            });
            assert(changed.get_spec(key) == if key == provider_id {
                Some(provider)
            } else {
                prior.get_spec(key)
            });
        }
    }
}

} // verus!
