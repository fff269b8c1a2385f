//! Process-wide settings: workspace profiles, integrations, and the debate
//! provider registry with its normalization rules.

use vstd::prelude::*;
use vstd::string::{StringExecFns, StrSliceExecFns};
use crate::text::{
    chars_eq, chars_vec, lower_chars, lower_seq, string_from_chars, trim_chars, trimmed,
};
use crate::util::strs;

verus! {

/// One provider the debate engine may dispatch to.
pub struct DebateProviderConfig {
    pub id: String,
    pub provider_type: String,
    pub enabled: bool,
    pub capabilities: Vec<String>,
}

pub struct ProviderRegistrySettings {
    pub providers: Vec<DebateProviderConfig>,
}

pub struct WorkspaceProfile {
    pub id: String,
    pub name: String,
    pub central_home: String,
    pub default_provider: String,
    pub default_model: String,
}

pub struct NotionSettings {
    pub enabled: bool,
    pub database_id: String,
}

pub struct NotebookLmSettings {
    pub command: String,
    pub args: Vec<String>,
    pub default_notebook_id: Option<String>,
}

pub struct IntegrationsSettings {
    pub notion: NotionSettings,
    pub notebooklm: NotebookLmSettings,
}

/// The persisted application settings. The UI preference blob is carried as
/// raw text.
pub struct AppSettings {
    pub profiles: Vec<WorkspaceProfile>,
    pub active_profile_id: Option<String>,
    pub poll_interval_sec: u64,
    pub ui_preferences: String,
    pub integrations: IntegrationsSettings,
    pub provider_registry: ProviderRegistrySettings,
}

/// Poll interval used when settings carry none, in seconds.
pub fn default_poll_interval() -> (r: u64)
    ensures
        r == 8,
{
    8
}

pub fn default_enabled_true() -> (r: bool)
    ensures
        r == true,
{
    true
}

pub fn default_notebooklm_command() -> (r: String)
    ensures
        r@ == "uvx"@,
{
    String::from_str("uvx")
}

pub fn default_notebooklm_args() -> (r: Vec<String>)
    ensures
        strs(r@) == seq!["kof-notebooklm-mcp"@],
{
    let mut v: Vec<String> = Vec::new();
    v.push(String::from_str("kof-notebooklm-mcp"));
    proof {
        assert(strs(v@) =~= seq!["kof-notebooklm-mcp"@]);
    }
    v
}

/// The six default provider ids, in their registry order.
pub open spec fn default_provider_ids() -> Seq<Seq<char>> {
    seq!["codex-cli"@, "gemini-cli"@, "clover-cli"@, "chatgpt-web"@, "gemini-web"@, "clover-web"@]
}

pub open spec fn default_type_of(id: Seq<char>) -> Seq<char> {
    if id == "codex-cli"@ || id == "gemini-cli"@ || id == "clover-cli"@ {
        "cli"@
    } else {
        "web"@
    }
}

fn default_capabilities(cli: bool) -> (r: Vec<String>)
    ensures
        r@.len() == 3,
{
    let mut v: Vec<String> = Vec::new();
    v.push(String::from_str("debate"));
    if cli {
        v.push(String::from_str("cli-execution"));
    } else {
        v.push(String::from_str("web-automation"));
    }
    v.push(String::from_str("structured-output"));
    v
}

fn default_config(id: &str, cli: bool) -> (r: DebateProviderConfig)
    ensures
        r.id@ == id@,
        r.enabled == true,
        r.provider_type@ == (if cli {
            "cli"@
        } else {
            "web"@
        }),
        r.capabilities@.len() >= 1,
{
    DebateProviderConfig {
        id: String::from_str(id),
        provider_type: if cli {
            String::from_str("cli")
        } else {
            String::from_str("web")
        },
        enabled: true,
        capabilities: default_capabilities(cli),
    }
}

/// The six stock providers: three CLI transports and three web stubs, all
/// enabled.
#[verifier::rlimit(100)]
pub fn default_debate_provider_configs() -> (r: Vec<DebateProviderConfig>)
    ensures
        r@.len() == 6,
        forall|i: int|
            0 <= i < 6 ==> (#[trigger] r@[i]).id@ == default_provider_ids()[i] && r@[i].enabled
                == true && r@[i].provider_type@ == default_type_of(default_provider_ids()[i])
                && r@[i].capabilities@.len() >= 1,
{
    let mut v: Vec<DebateProviderConfig> = Vec::new();
    v.push(default_config("codex-cli", true));
    v.push(default_config("gemini-cli", true));
    v.push(default_config("clover-cli", true));
    v.push(default_config("chatgpt-web", false));
    v.push(default_config("gemini-web", false));
    v.push(default_config("clover-web", false));
    proof {
        reveal_strlit("codex-cli");
        reveal_strlit("gemini-cli");
        reveal_strlit("clover-cli");
        reveal_strlit("chatgpt-web");
        reveal_strlit("gemini-web");
        reveal_strlit("clover-web");
        reveal_strlit("cli");
        reveal_strlit("web");
        assert("gemini-web"@ != "gemini-cli"@) by {
            assert("gemini-web"@[7] == 'w');
            assert("gemini-cli"@[7] == 'c');
        }
        assert("clover-web"@ != "clover-cli"@) by {
            assert("clover-web"@[7] == 'w');
            assert("clover-cli"@[7] == 'c');
        }
        assert("gemini-web"@ != "clover-cli"@) by {
            assert("gemini-web"@[0] == 'g');
            assert("clover-cli"@[0] == 'c');
        }
        assert("clover-web"@ != "gemini-cli"@) by {
            assert("clover-web"@[0] == 'c');
            assert("gemini-cli"@[0] == 'g');
        }
        assert("chatgpt-web"@ != "codex-cli"@ && "chatgpt-web"@ != "gemini-cli"@
            && "chatgpt-web"@ != "clover-cli"@) by {
            assert("chatgpt-web"@.len() == 11);
            assert("codex-cli"@.len() == 9);
            assert("gemini-cli"@.len() == 10);
            assert("clover-cli"@.len() == 10);
        }
        assert("gemini-web"@ != "codex-cli"@ && "clover-web"@ != "codex-cli"@) by {
            assert("gemini-web"@.len() == 10);
            assert("clover-web"@.len() == 10);
            assert("codex-cli"@.len() == 9);
        }
        assert(v@[0].id@ == "codex-cli"@ && v@[0].enabled == true && v@[0].provider_type@
            == default_type_of(default_provider_ids()[0]) && v@[0].capabilities@.len() >= 1);
        assert(v@[1].id@ == "gemini-cli"@ && v@[1].enabled == true && v@[1].provider_type@
            == default_type_of(default_provider_ids()[1]) && v@[1].capabilities@.len() >= 1);
        assert(v@[2].id@ == "clover-cli"@ && v@[2].enabled == true && v@[2].provider_type@
            == default_type_of(default_provider_ids()[2]) && v@[2].capabilities@.len() >= 1);
        assert(v@[3].id@ == "chatgpt-web"@ && v@[3].enabled == true && v@[3].provider_type@
            == default_type_of(default_provider_ids()[3]) && v@[3].capabilities@.len() >= 1);
        assert(v@[4].id@ == "gemini-web"@ && v@[4].enabled == true && v@[4].provider_type@
            == default_type_of(default_provider_ids()[4]) && v@[4].capabilities@.len() >= 1);
        assert(v@[5].id@ == "clover-web"@ && v@[5].enabled == true && v@[5].provider_type@
            == default_type_of(default_provider_ids()[5]) && v@[5].capabilities@.len() >= 1);
        assert forall|i: int|
            0 <= i < 6 implies (#[trigger] v@[i]).id@ == default_provider_ids()[i] && v@[i].enabled
            == true && v@[i].provider_type@ == default_type_of(default_provider_ids()[i])
            && v@[i].capabilities@.len() >= 1 by {
            assert(i == 0 || i == 1 || i == 2 || i == 3 || i == 4 || i == 5);
        }
    }
    v
}

impl Default for NotionSettings {
    fn default() -> (r: Self)
        ensures
            r.enabled == false,
            r.database_id@.len() == 0,
    {
        NotionSettings { enabled: false, database_id: String::new() }
    }
}

impl Default for NotebookLmSettings {
    fn default() -> (r: Self)
        ensures
            r.command@ == "uvx"@,
            strs(r.args@) == seq!["kof-notebooklm-mcp"@],
            r.default_notebook_id is None,
    {
        NotebookLmSettings {
            command: default_notebooklm_command(),
            args: default_notebooklm_args(),
            default_notebook_id: None,
        }
    }
}

impl Default for IntegrationsSettings {
    fn default() -> (r: Self)
        ensures
            r.notion.enabled == false,
            r.notion.database_id@.len() == 0,
            r.notebooklm.command@ == "uvx"@,
    {
        IntegrationsSettings {
            notion: NotionSettings::default(),
            notebooklm: NotebookLmSettings::default(),
        }
    }
}

impl Default for ProviderRegistrySettings {
    fn default() -> (r: Self)
        ensures
            r.providers@.len() == 6,
            forall|i: int|
                0 <= i < 6 ==> (#[trigger] r.providers@[i]).id@ == default_provider_ids()[i]
                    && r.providers@[i].enabled == true,
    {
        ProviderRegistrySettings { providers: default_debate_provider_configs() }
    }
}

impl Default for AppSettings {
    fn default() -> (r: Self)
        ensures
            r.profiles@.len() == 0,
            r.active_profile_id is None,
            r.poll_interval_sec == 8,
            r.provider_registry.providers@.len() == 6,
            forall|i: int|
                0 <= i < 6 ==> (#[trigger] r.provider_registry.providers@[i]).id@
                    == default_provider_ids()[i] && r.provider_registry.providers@[i].enabled
                    == true,
    {
        AppSettings {
            profiles: Vec::new(),
            active_profile_id: None,
            poll_interval_sec: default_poll_interval(),
            ui_preferences: String::new(),
            integrations: IntegrationsSettings::default(),
            provider_registry: ProviderRegistrySettings::default(),
        }
    }
}

/// `web` stays `web` (case-insensitively); everything else is `cli`.
pub open spec fn norm_ptype(s: Seq<char>) -> Seq<char> {
    if lower_seq(trimmed(s)) == "web"@ {
        "web"@
    } else {
        "cli"@
    }
}

pub fn normalize_provider_type(value: &str) -> (r: String)
    ensures
        r@ == norm_ptype(value@),
{
    let v = chars_vec(value);
    let t = trim_chars(&v);
    let l = lower_chars(&t);
    if chars_eq(&l, &chars_vec("web")) {
        String::from_str("web")
    } else {
        String::from_str("cli")
    }
}

/// Lowered, trimmed, deduplicated capability names; `debate` when none
/// survive.
pub open spec fn caps_of(items: Seq<Seq<char>>) -> Seq<Seq<char>> {
    let d = dedup_lowered(items, Seq::empty());
    if d.len() == 0 {
        seq!["debate"@]
    } else {
        d
    }
}

pub open spec fn dedup_lowered(items: Seq<Seq<char>>, seen: Seq<Seq<char>>) -> Seq<Seq<char>>
    decreases items.len(),
{
    if items.len() == 0 {
        Seq::empty()
    } else {
        let c = lower_seq(trimmed(items[0]));
        if c.len() == 0 || seen.contains(c) {
            dedup_lowered(items.drop_first(), seen)
        } else {
            seq![c] + dedup_lowered(items.drop_first(), seen.push(c))
        }
    }
}

fn dedup_lowered_push(items: &Vec<String>, i: usize, out: &mut Vec<String>)
    requires
        i <= items.len(),
    ensures
        strs(final(out)@) == strs(old(out)@) + dedup_lowered(
            strs(items@).skip(i as int),
            strs(old(out)@),
        ),
    decreases items.len() - i,
{
    let ghost pre = strs(out@);
    let ghost rest = strs(items@).skip(i as int);
    if i == items.len() {
        proof {
            assert(pre + dedup_lowered(rest, pre) =~= pre);
        }
        return ;
    }
    let v = chars_vec(items[i].as_str());
    let t = trim_chars(&v);
    let l = lower_chars(&t);
    proof {
        assert(rest[0] == strs(items@)[i as int]);
        assert(rest.drop_first() =~= strs(items@).skip(i + 1));
    }
    let mut seen = false;
    let mut k: usize = 0;
    while k < out.len()
        invariant
            k <= out.len(),
            l@ == lower_seq(trimmed(strs(items@)[i as int])),
            seen ==> strs(out@).contains(l@),
            !seen ==> forall|j: int| 0 <= j < k ==> (#[trigger] out@[j])@ != l@,
        decreases out.len() - k,
    {
        let ov = chars_vec(out[k].as_str());
        if chars_eq(&ov, &l) {
            seen = true;
            proof {
                assert(strs(out@)[k as int] == l@);
            }
        }
        k = k + 1;
    }
    proof {
        if !seen {
            assert(forall|j: int|
                0 <= j < strs(out@).len() ==> strs(out@)[j] == (#[trigger] out@[j])@);
        }
    }
    if l.len() == 0 || seen {
        dedup_lowered_push(items, i + 1, out);
    } else {
        out.push(string_from_chars(&l));
        proof {
            assert(strs(out@) =~= pre.push(l@));
        }
        dedup_lowered_push(items, i + 1, out);
        proof {
            assert(pre.push(l@) + dedup_lowered(rest.drop_first(), pre.push(l@)) =~= pre + (seq![
                l@,
            ] + dedup_lowered(rest.drop_first(), pre.push(l@))));
        }
    }
}

/// Normalizes a capability list.
pub fn normalize_provider_capabilities(input: &Vec<String>) -> (r: Vec<String>)
    ensures
        strs(r@) == caps_of(strs(input@)),
{
    let mut out: Vec<String> = Vec::new();
    dedup_lowered_push(input, 0, &mut out);
    proof {
        assert(strs(input@).skip(0) =~= strs(input@));
        assert(strs(Seq::<String>::empty()) =~= Seq::<Seq<char>>::empty());
    }
    if out.len() == 0 {
        let mut d: Vec<String> = Vec::new();
        d.push(String::from_str("debate"));
        proof {
            assert(strs(d@) =~= seq!["debate"@]);
        }
        d
    } else {
        out
    }
}

/// Looks an id up in a provider list: the first entry whose id matches.
pub open spec fn reg_lookup(providers: Seq<DebateProviderConfig>, lid: Seq<char>) -> Option<
    DebateProviderConfig,
>
    decreases providers.len(),
{
    if providers.len() == 0 {
        None
    } else if providers[0].id@ == lid {
        Some(providers[0])
    } else {
        reg_lookup(providers.drop_first(), lid)
    }
}

/// The debate engine's runtime registry: one entry per provider id, ids
/// already trimmed and lowered.
pub struct DebateProviderRegistry {
    pub providers: Vec<DebateProviderConfig>,
}

/// What a registry lookup of a raw (untrimmed, mixed-case) id yields.
pub open spec fn registry_lookup_of(providers: Seq<DebateProviderConfig>, provider_id: Seq<char>) -> Option<
    DebateProviderConfig,
> {
    reg_lookup(providers, lower_seq(trimmed(provider_id)))
}

impl DebateProviderRegistry {
    /// Finds the provider a raw id names, handing back a copy of its entry.
    #[verifier::rlimit(100)]
    pub fn get(&self, provider_id: &str) -> (r: Option<DebateProviderConfig>)
        ensures
            (match (r, registry_lookup_of(self.providers@, provider_id@)) {
                (Some(c), Some(u)) => c.id@ == u.id@ && c.enabled == u.enabled
                    && c.provider_type@ == u.provider_type@ && strs(c.capabilities@) == strs(
                    u.capabilities@,
                ),
                (None, None) => true,
                _ => false,
            }),
    {
        let v = chars_vec(provider_id);
        let t = trim_chars(&v);
        let l = lower_chars(&t);
        let ghost lid = lower_seq(trimmed(provider_id@));
        proof {
            assert(self.providers@.skip(0) =~= self.providers@);
        }
        let mut i: usize = 0;
        while i < self.providers.len()
            invariant
                i <= self.providers.len(),
                l@ == lid,
                lid == lower_seq(trimmed(provider_id@)),
                reg_lookup(self.providers@, lid) == reg_lookup(
                    self.providers@.skip(i as int),
                    lid,
                ),
            decreases self.providers.len() - i,
        {
            proof {
                assert(self.providers@.skip(i as int)[0] == self.providers@[i as int]);
                assert(self.providers@.skip(i as int).drop_first() =~= self.providers@.skip(
                    i + 1,
                ));
            }
            let idv = chars_vec(self.providers[i].id.as_str());
            if chars_eq(&idv, &l) {
                let e = &self.providers[i];
                proof {
                    assert(reg_lookup(self.providers@.skip(i as int), lid) == Some(
                        self.providers@[i as int],
                    ));
                    assert(lid == lower_seq(trimmed(provider_id@)));
                    assert(reg_lookup(self.providers@, lower_seq(trimmed(provider_id@))) == Some(
                        self.providers@[i as int],
                    ));
                    assert(registry_lookup_of(self.providers@, provider_id@) == Some(
                        self.providers@[i as int],
                    ));
                }
                return Some(DebateProviderConfig {
                    id: e.id.clone(),
                    provider_type: e.provider_type.clone(),
                    enabled: e.enabled,
                    capabilities: crate::records::clone_strings(&e.capabilities),
                });
            }
            i = i + 1;
        }
        proof {
            assert(self.providers@.skip(i as int).len() == 0);
        }
        None
    }

    /// Whether the id names an enabled provider.
    pub fn is_enabled(&self, provider_id: &str) -> (r: bool)
        ensures
            r == (match registry_lookup_of(self.providers@, provider_id@) {
                Some(c) => c.enabled,
                None => false,
            }),
    {
        match self.get(provider_id) {
            Some(c) => c.enabled,
            None => false,
        }
    }

    /// Builds the runtime registry from the persisted settings: each entry's
    /// id trimmed and lowered (blank ids dropped), its type and capabilities
    /// normalized; a later entry with the same id replaces an earlier one.
    pub fn from_settings(settings: &AppSettings) -> (r: DebateProviderRegistry)
        ensures
            forall|a: int, b: int|
                0 <= a < b < r.providers@.len() ==> (#[trigger] r.providers@[a]).id@ != (
                #[trigger] r.providers@[b]).id@,
            forall|k: int|
                0 <= k < r.providers@.len() ==> (match last_with_id(
                    settings.provider_registry.providers@,
                    (#[trigger] r.providers@[k]).id@,
                ) {
                    Some(u) => r.providers@[k].enabled == u.enabled && r.providers@[k].provider_type@
                        == norm_ptype(u.provider_type@) && r.providers@[k].capabilities@.len() >= 1,
                    None => false,
                }),
            forall|u: int|
                0 <= u < settings.provider_registry.providers@.len() && lower_seq(
                    trimmed((#[trigger] settings.provider_registry.providers@[u]).id@),
                ).len() > 0 ==> (reg_lookup(
                    r.providers@,
                    lower_seq(trimmed(settings.provider_registry.providers@[u].id@)),
                ) is Some),
    {
        DebateProviderRegistry {
            providers: normalize_provider_list(&settings.provider_registry.providers),
        }
    }
}

/// Normalizes a provider list: ids trimmed and lowered (blank ones dropped),
/// types and capabilities normalized, one entry per id with the last
/// occurrence winning.
pub fn normalize_provider_list(src: &Vec<DebateProviderConfig>) -> (out: Vec<DebateProviderConfig>)
    ensures
        forall|a: int, b: int|
            0 <= a < b < out@.len() ==> (#[trigger] out@[a]).id@ != (#[trigger] out@[b]).id@,
        forall|k: int|
            0 <= k < out@.len() ==> (match last_with_id(src@, (#[trigger] out@[k]).id@) {
                Some(u) => out@[k].enabled == u.enabled && out@[k].provider_type@ == norm_ptype(
                    u.provider_type@,
                ) && out@[k].capabilities@.len() >= 1,
                None => false,
            }),
        forall|u: int|
            0 <= u < src@.len() && lower_seq(trimmed((#[trigger] src@[u]).id@)).len() > 0 ==> (
            reg_lookup(out@, lower_seq(trimmed(src@[u].id@))) is Some),
    {
        let mut out: Vec<DebateProviderConfig> = Vec::new();
        let mut i: usize = src.len();
        while i > 0
            invariant
                i <= src.len(),
                forall|a: int, b: int|
                    0 <= a < b < out@.len() ==> (#[trigger] out@[a]).id@ != (
                    #[trigger] out@[b]).id@,
                forall|k: int|
                    0 <= k < out@.len() ==> (match last_with_id(
                        src@,
                        (#[trigger] out@[k]).id@,
                    ) {
                        Some(u) => out@[k].enabled == u.enabled && out@[k].provider_type@
                            == norm_ptype(u.provider_type@) && out@[k].capabilities@.len() >= 1,
                        None => false,
                    }),
                forall|u: int|
                    i <= u < src@.len() && lower_seq(trimmed((#[trigger] src@[u]).id@)).len() > 0
                        ==> (reg_lookup(out@, lower_seq(trimmed(src@[u].id@))) is Some),
            decreases i,
        {
            i = i - 1;
            let item = &src[i];
            let v = chars_vec(item.id.as_str());
            let t = trim_chars(&v);
            let l = lower_chars(&t);
            if l.len() > 0 {
                let mut present = false;
                let mut k: usize = 0;
                while k < out.len()
                    invariant
                        k <= out.len(),
                        l@ == lower_seq(trimmed(src@[i as int].id@)),
                        present ==> (exists|j: int|
                            0 <= j < out@.len() && (#[trigger] out@[j]).id@ == l@),
                        !present ==> forall|j: int| 0 <= j < k ==> (#[trigger] out@[j]).id@ != l@,
                    decreases out.len() - k,
                {
                    let idv = chars_vec(out[k].id.as_str());
                    if chars_eq(&idv, &l) {
                        present = true;
                        proof {
                            assert(out@[k as int].id@ == l@);
                        }
                    }
                    k = k + 1;
                }
                if !present {
                    proof {
                        lemma_reg_lookup_found(out@, l@);
                        assert forall|j: int|
                            (i as int) < j < src@.len() implies lower_seq(
                            trimmed((#[trigger] src@[j]).id@),
                        ) != l@ by {
                            if lower_seq(trimmed(src@[j].id@)) == l@ {
                                assert(reg_lookup(out@, l@) is Some);
                                let w = choose|w: int|
                                    0 <= w < out@.len() && (#[trigger] out@[w]).id@ == l@;
                                assert(false);
                            }
                        }
                        lemma_last_with_id_here(src@, i as int);
                        assert(last_with_id(src@, l@) == Some(src@[i as int]));
                    }
                    let cfg = DebateProviderConfig {
                        id: string_from_chars(&l),
                        provider_type: normalize_provider_type(item.provider_type.as_str()),
                        enabled: item.enabled,
                        capabilities: normalize_provider_capabilities(&item.capabilities),
                    };
                    let ghost pre = out@;
                    out.push(cfg);
                    proof {
                        let nc = out@.last();
                        assert(nc.id@ == l@);
                        assert(last_with_id(src@, nc.id@) == Some(src@[i as int]));
                        assert(nc.enabled == src@[i as int].enabled);
                        assert(nc.provider_type@ == norm_ptype(src@[i as int].provider_type@));
                        assert(strs(nc.capabilities@).len() >= 1);
                        assert(nc.capabilities@.len() >= 1);
                        assert forall|k: int| 0 <= k < out@.len() implies (match last_with_id(
                            src@,
                            (#[trigger] out@[k]).id@,
                        ) {
                            Some(u) => out@[k].enabled == u.enabled && out@[k].provider_type@
                                == norm_ptype(u.provider_type@) && out@[k].capabilities@.len()
                                >= 1,
                            None => false,
                        }) by {
                            if k < pre.len() {
                                assert(out@[k] == pre[k]);
                            } else {
                                assert(out@[k] == nc);
                            }
                        }
                        assert forall|u: int|
                            i <= u < src@.len() && lower_seq(
                                trimmed((#[trigger] src@[u]).id@),
                            ).len() > 0 implies (reg_lookup(
                            out@,
                            lower_seq(trimmed(src@[u].id@)),
                        ) is Some) by {
                            let lu = lower_seq(trimmed(src@[u].id@));
                            lemma_reg_lookup_found(pre, lu);
                            lemma_reg_lookup_found(out@, lu);
                            if u > i {
                                let j = choose|j: int|
                                    0 <= j < pre.len() && (#[trigger] pre[j]).id@ == lu;
                                assert(out@[j] == pre[j]);
                            } else {
                                assert(out@[out@.len() - 1].id@ == lu);
                            }
                        }
                    }
                } else {
                    proof {
                        assert forall|u: int|
                            i <= u < src@.len() && lower_seq(
                                trimmed((#[trigger] src@[u]).id@),
                            ).len() > 0 implies (reg_lookup(
                            out@,
                            lower_seq(trimmed(src@[u].id@)),
                        ) is Some) by {
                            let lu = lower_seq(trimmed(src@[u].id@));
                            lemma_reg_lookup_found(out@, lu);
                        }
                    }
                }
            }
        }
        out
}

/// Normalizes the persisted provider registry entries in place: ids trimmed
/// and lowered, one entry per id, types and capabilities normalized.
pub fn normalize_provider_registry_settings(registry: &ProviderRegistrySettings) -> (r: ProviderRegistrySettings)
    ensures
        forall|a: int, b: int|
            0 <= a < b < r.providers@.len() ==> (#[trigger] r.providers@[a]).id@ != (
            #[trigger] r.providers@[b]).id@,
        forall|k: int|
            0 <= k < r.providers@.len() ==> (match last_with_id(
                registry.providers@,
                (#[trigger] r.providers@[k]).id@,
            ) {
                Some(u) => r.providers@[k].enabled == u.enabled && r.providers@[k].provider_type@
                    == norm_ptype(u.provider_type@) && r.providers@[k].capabilities@.len() >= 1,
                None => false,
            }),
        forall|u: int|
            0 <= u < registry.providers@.len() && lower_seq(
                trimmed((#[trigger] registry.providers@[u]).id@),
            ).len() > 0 ==> (reg_lookup(
                r.providers@,
                lower_seq(trimmed(registry.providers@[u].id@)),
            ) is Some),
{
    ProviderRegistrySettings { providers: normalize_provider_list(&registry.providers) }
}

/// Normalizes the whole settings value: a zero poll interval becomes the
/// default, profile fields get their defaults, the active profile must exist,
/// the integrations are tidied and the provider registry is normalized. The
/// same pass runs on both load and save.
pub fn normalize_settings(settings: &AppSettings) -> (r: AppSettings)
    ensures
        r.poll_interval_sec == (if settings.poll_interval_sec == 0 {
            8u64
        } else {
            settings.poll_interval_sec
        }),
        r.profiles@.len() == settings.profiles@.len(),
        forall|i: int|
            0 <= i < r.profiles@.len() ==> {
                let p = #[trigger] r.profiles@[i];
                &&& p.id@.len() > 0
                &&& p.name@.len() > 0
                &&& p.central_home@ == trimmed(settings.profiles@[i].central_home@)
                &&& p.default_provider@ == (if lower_seq(
                    trimmed(settings.profiles@[i].default_provider@),
                ).len() == 0 {
                    "local"@
                } else {
                    lower_seq(trimmed(settings.profiles@[i].default_provider@))
                })
                &&& p.default_model@.len() > 0
            },
        r.profiles@.len() == 0 ==> r.active_profile_id is None,
        r.profiles@.len() > 0 ==> (r.active_profile_id matches Some(a) && (exists|i: int|
            0 <= i < r.profiles@.len() && (#[trigger] r.profiles@[i]).id@ == a@)),
        r.integrations.notion.database_id@ == trimmed(settings.integrations.notion.database_id@),
        r.integrations.notion.enabled == settings.integrations.notion.enabled,
        r.integrations.notebooklm.command@ == (if trimmed(
            settings.integrations.notebooklm.command@,
        ).len() == 0 {
            "uvx"@
        } else {
            trimmed(settings.integrations.notebooklm.command@)
        }),
        r.integrations.notebooklm.args@.len() > 0,
        forall|a: int, b: int|
            0 <= a < b < r.provider_registry.providers@.len() ==> (
            #[trigger] r.provider_registry.providers@[a]).id@ != (
            #[trigger] r.provider_registry.providers@[b]).id@,
        forall|k: int|
            0 <= k < r.provider_registry.providers@.len() ==> (match last_with_id(
                settings.provider_registry.providers@,
                (#[trigger] r.provider_registry.providers@[k]).id@,
            ) {
                Some(u) => r.provider_registry.providers@[k].enabled == u.enabled
                    && r.provider_registry.providers@[k].provider_type@ == norm_ptype(
                    u.provider_type@,
                ) && r.provider_registry.providers@[k].capabilities@.len() >= 1,
                None => false,
            }),
{
    let poll = if settings.poll_interval_sec == 0 {
        8u64
    } else {
        settings.poll_interval_sec
    };
    let mut profiles: Vec<WorkspaceProfile> = Vec::new();
    let mut i: usize = 0;
    while i < settings.profiles.len()
        invariant
            i <= settings.profiles.len(),
            profiles@.len() == i,
            forall|k: int|
                0 <= k < i ==> {
                    let p = #[trigger] profiles@[k];
                    &&& p.id@.len() > 0
                    &&& p.name@.len() > 0
                    &&& p.central_home@ == trimmed(settings.profiles@[k].central_home@)
                    &&& p.default_provider@ == (if lower_seq(
                        trimmed(settings.profiles@[k].default_provider@),
                    ).len() == 0 {
                        "local"@
                    } else {
                        lower_seq(trimmed(settings.profiles@[k].default_provider@))
                    })
                    &&& p.default_model@.len() > 0
                },
        decreases settings.profiles.len() - i,
    {
        let src_p = &settings.profiles[i];
        let mut id = if crate::text::is_blank(src_p.id.as_str()) {
            let mut s = String::from_str("profile-");
            let slug = crate::records::slugify(src_p.name.as_str());
            s.append(slug.as_str());
            s
        } else {
            crate::records::slugify(src_p.id.as_str())
        };
        if id.as_str().unicode_len() == 0 {
            let st = crate::clock::now_stamp();
            let ms: u64 = if st.epoch_millis < 0 {
                0
            } else {
                st.epoch_millis as u64
            };
            let mut s = String::from_str("profile-");
            let d = crate::util::u64_to_string(ms);
            s.append(d.as_str());
            id = s;
        }
        let mut seen = false;
        let mut k: usize = 0;
        while k < profiles.len()
            invariant
                k <= profiles.len(),
            decreases profiles.len() - k,
        {
            let a = chars_vec(profiles[k].id.as_str());
            let b = chars_vec(id.as_str());
            if chars_eq(&a, &b) {
                seen = true;
            }
            k = k + 1;
        }
        if seen {
            let st = crate::clock::now_stamp();
            let ms: u64 = if st.epoch_millis < 0 {
                0
            } else {
                st.epoch_millis as u64
            };
            id.append("-");
            let d = crate::util::u64_to_string(ms);
            id.append(d.as_str());
        }
        proof {
            reveal_strlit("profile-");
            crate::records::lemma_slug_nonempty(src_p.id@);
            crate::records::lemma_slug_nonempty(src_p.name@);
            assert(id@.len() > 0);
        }
        let name = if crate::text::is_blank(src_p.name.as_str()) {
            String::from_str("Untitled Profile")
        } else {
            src_p.name.clone()
        };
        let central_home = crate::text::trim_str(src_p.central_home.as_str());
        let pv = chars_vec(src_p.default_provider.as_str());
        let pt = trim_chars(&pv);
        let pl = lower_chars(&pt);
        let provider = if pl.len() == 0 {
            String::from_str("local")
        } else {
            string_from_chars(&pl)
        };
        let model = if crate::text::is_blank(src_p.default_model.as_str()) {
            String::from_str("gpt-4.1-mini")
        } else {
            src_p.default_model.clone()
        };
        proof {
            reveal_strlit("Untitled Profile");
            reveal_strlit("local");
            reveal_strlit("gpt-4.1-mini");
            crate::text::lemma_trimmed_len(src_p.name@);
            crate::text::lemma_trimmed_len(src_p.default_model@);
        }
        profiles.push(WorkspaceProfile { id, name, central_home, default_provider: provider, default_model: model });
        i = i + 1;
    }
    let active: Option<String> = if profiles.len() == 0 {
        None
    } else {
        let mut keep: Option<usize> = None;
        match &settings.active_profile_id {
            Some(a) => {
                let av = chars_vec(a.as_str());
                let mut k: usize = 0;
                while k < profiles.len()
                    invariant
                        k <= profiles.len(),
                        av@ == a@,
                        (keep matches Some(f) ==> f < profiles@.len() && profiles@[f as int].id@
                            == a@),
                    decreases profiles.len() - k,
                {
                    let idv = chars_vec(profiles[k].id.as_str());
                    if chars_eq(&idv, &av) {
                        keep = Some(k);
                    }
                    k = k + 1;
                }
            },
            None => {},
        }
        match keep {
            Some(f) => Some(profiles[f].id.clone()),
            None => Some(profiles[0].id.clone()),
        }
    };
    let notebook_command = if crate::text::is_blank(settings.integrations.notebooklm.command.as_str()) {
        default_notebooklm_command()
    } else {
        crate::text::trim_str(settings.integrations.notebooklm.command.as_str())
    };
    let mut notebook_args: Vec<String> = Vec::new();
    let mut k: usize = 0;
    while k < settings.integrations.notebooklm.args.len()
        invariant
            k <= settings.integrations.notebooklm.args.len(),
        decreases settings.integrations.notebooklm.args.len() - k,
    {
        let a = &settings.integrations.notebooklm.args[k];
        if !crate::text::is_blank(a.as_str()) {
            notebook_args.push(crate::text::trim_str(a.as_str()));
        }
        k = k + 1;
    }
    if notebook_args.len() == 0 {
        notebook_args = default_notebooklm_args();
        proof {
            reveal_strlit("kof-notebooklm-mcp");
            assert(strs(notebook_args@).len() == notebook_args@.len());
        }
    }
    proof {
        assert(notebook_args@.len() > 0);
    }
    let registry = normalize_provider_registry_settings(&settings.provider_registry);
    AppSettings {
        profiles,
        active_profile_id: active,
        poll_interval_sec: poll,
        ui_preferences: settings.ui_preferences.clone(),
        integrations: IntegrationsSettings {
            notion: NotionSettings {
                enabled: settings.integrations.notion.enabled,
                database_id: crate::text::trim_str(
                    settings.integrations.notion.database_id.as_str(),
                ),
            },
            notebooklm: NotebookLmSettings {
                command: notebook_command,
                args: notebook_args,
                default_notebook_id: crate::records::clone_opt(
                    &settings.integrations.notebooklm.default_notebook_id,
                ),
            },
        },
        provider_registry: registry,
    }
}

/// A caller-supplied override of the notebook subprocess command.
pub struct NotebookLmConfig {
    pub command: Option<String>,
    pub args: Option<Vec<String>>,
}

/// Picks the notebook subprocess command and arguments: the override first,
/// then the settings, then the stock defaults.
pub fn resolve_notebooklm_runtime(config: Option<NotebookLmConfig>, settings: &AppSettings) -> (r: (
    String,
    Vec<String>,
))
    ensures
        r.0@.len() > 0,
        r.1@.len() > 0,
{
    let (cfg_cmd, cfg_args): (Option<String>, Option<Vec<String>>) = match config {
        Some(c) => (c.command, c.args),
        None => (None, None),
    };
    let command: String = match cfg_cmd {
        Some(c) => {
            if crate::text::is_blank(c.as_str()) {
                settings_command(settings)
            } else {
                crate::text::trim_str(c.as_str())
            }
        },
        None => settings_command(settings),
    };
    let args: Vec<String> = match cfg_args {
        Some(a) => {
            if a.len() == 0 {
                settings_args(settings)
            } else {
                a
            }
        },
        None => settings_args(settings),
    };
    (command, args)
}

fn settings_command(settings: &AppSettings) -> (r: String)
    ensures
        r@.len() > 0,
{
    if crate::text::is_blank(settings.integrations.notebooklm.command.as_str()) {
        let d = default_notebooklm_command();
        proof {
            reveal_strlit("uvx");
        }
        d
    } else {
        crate::text::trim_str(settings.integrations.notebooklm.command.as_str())
    }
}

fn settings_args(settings: &AppSettings) -> (r: Vec<String>)
    ensures
        r@.len() > 0,
{
    if settings.integrations.notebooklm.args.len() == 0 {
        let d = default_notebooklm_args();
        proof {
            assert(strs(d@).len() == d@.len());
        }
        d
    } else {
        let c = crate::records::clone_strings(&settings.integrations.notebooklm.args);
        proof {
            assert(strs(c@).len() == c@.len());
            assert(strs(settings.integrations.notebooklm.args@).len()
                == settings.integrations.notebooklm.args@.len());
        }
        c
    }
}

/// When `src[i]` carries this id and no later entry does, it is the last.
proof fn lemma_last_with_id_here(src: Seq<DebateProviderConfig>, i: int)
    requires
        0 <= i < src.len(),
    ensures
        (forall|j: int|
            i < j < src.len() ==> lower_seq(trimmed((#[trigger] src[j]).id@)) != lower_seq(
                trimmed(src[i].id@),
            )) ==> last_with_id(src, lower_seq(trimmed(src[i].id@))) == Some(src[i]),
    decreases src.len(),
{
    if i < src.len() - 1 {
        lemma_last_with_id_here(src.drop_last(), i);
        assert(src.drop_last()[i] == src[i]);
        assert forall|j: int|
            i < j < src.drop_last().len() implies #[trigger] src.drop_last()[j] == src[j] by {}
    }
}

/// The last settings entry whose (trimmed, lowered) id equals `lid`.
pub open spec fn last_with_id(users: Seq<DebateProviderConfig>, lid: Seq<char>) -> Option<
    DebateProviderConfig,
>
    decreases users.len(),
{
    if users.len() == 0 {
        None
    } else if lower_seq(trimmed(users.last().id@)) == lid {
        Some(users.last())
    } else {
        last_with_id(users.drop_last(), lid)
    }
}

proof fn lemma_last_with_id_step(src: Seq<DebateProviderConfig>, i: int)
    requires
        0 < i <= src.len(),
    ensures
        forall|lid: Seq<char>|
            #[trigger] last_with_id(src.subrange(0, i), lid) == (if lower_seq(
                trimmed(src[i - 1].id@),
            ) == lid {
                Some(src[i - 1])
            } else {
                last_with_id(src.subrange(0, i - 1), lid)
            }),
{
    assert forall|lid: Seq<char>| #[trigger] last_with_id(src.subrange(0, i), lid) == (if lower_seq(
        trimmed(src[i - 1].id@),
    ) == lid {
        Some(src[i - 1])
    } else {
        last_with_id(src.subrange(0, i - 1), lid)
    }) by {
        assert(src.subrange(0, i).drop_last() =~= src.subrange(0, i - 1));
        assert(src.subrange(0, i).last() == src[i - 1]);
    }
}

/// When some entry holds the id, the lookup finds one.
proof fn lemma_reg_lookup_found(providers: Seq<DebateProviderConfig>, lid: Seq<char>)
    ensures
        (exists|k: int| 0 <= k < providers.len() && (#[trigger] providers[k]).id@ == lid)
            <==> reg_lookup(providers, lid) is Some,
    decreases providers.len(),
{
    if providers.len() > 0 {
        lemma_reg_lookup_found(providers.drop_first(), lid);
        if providers[0].id@ != lid {
            let tail = providers.drop_first();
            if exists|k: int| 0 <= k < providers.len() && (#[trigger] providers[k]).id@ == lid {
                let k = choose|k: int|
                    0 <= k < providers.len() && (#[trigger] providers[k]).id@ == lid;
                assert(tail[k - 1] == providers[k]);
                assert(exists|j: int| 0 <= j < tail.len() && (#[trigger] tail[j]).id@ == lid);
            }
            if exists|j: int| 0 <= j < tail.len() && (#[trigger] tail[j]).id@ == lid {
                let j = choose|j: int| 0 <= j < tail.len() && (#[trigger] tail[j]).id@ == lid;
                assert(providers[j + 1] == tail[j]);
                assert(exists|k: int|
                    0 <= k < providers.len() && (#[trigger] providers[k]).id@ == lid);
            }
        }
    }
}

} // verus!
