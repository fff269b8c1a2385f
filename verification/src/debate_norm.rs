//! Intake normalization of a debate request: output type, participants,
//! provider aliases and fallbacks, turn budgets, and the warning codes the
//! caller sees.

use vstd::prelude::*;
use vstd::string::{StringExecFns, StrSliceExecFns};
use crate::debate::{debate_error, parsed_role, parse_debate_role, role_order, DebateRole};
use crate::records::{canon_rtype, opt_v};
use crate::settings::{reg_lookup, DebateProviderConfig, DebateProviderRegistry};
use crate::store::or_else;
use crate::text::{
    chars_eq, chars_vec, lower_chars, lower_seq, string_from_chars, trim_chars, trimmed,
};
use crate::util::{dedup_non_empty, dedup_spec, strs};

verus! {

pub struct DebateParticipantConfig {
    pub role: Option<String>,
    pub model_provider: Option<String>,
    pub model_name: Option<String>,
}

pub struct DebateModeRequest {
    pub problem: String,
    pub constraints: Vec<String>,
    pub output_type: String,
    pub participants: Vec<DebateParticipantConfig>,
    pub max_turn_seconds: Option<u64>,
    pub max_turn_tokens: Option<u32>,
    pub writeback_record_type: Option<String>,
}

pub struct DebateRuntimeParticipant {
    pub role: DebateRole,
    pub model_provider: String,
    pub provider_type: String,
    pub model_name: String,
}

pub struct DebateNormalizedRequest {
    pub problem: String,
    pub constraints: Vec<String>,
    pub output_type: String,
    pub participants: Vec<DebateRuntimeParticipant>,
    pub max_turn_seconds: u64,
    pub max_turn_tokens: u32,
    pub writeback_record_type: Option<String>,
    pub warning_codes: Vec<String>,
}

/// The canonical output type, when the value names one of the five.
pub open spec fn canon_output_type(s: Seq<char>) -> Option<Seq<char>> {
    let l = lower_seq(trimmed(s));
    if l == "decision"@ || l == "writing"@ || l == "architecture"@ || l == "planning"@ || l
        == "evaluation"@ {
        Some(l)
    } else {
        None
    }
}

/// Validates and canonicalizes the requested output type.
pub fn normalize_debate_output_type(value: &str) -> (r: Result<String, String>)
    ensures
        (match (r, canon_output_type(value@)) {
            (Ok(t), Some(c)) => t@ == c,
            (Err(e), None) => e@
                == "DEBATE_ERR_INPUT: output_type must be one of: decision|writing|architecture|planning|evaluation"@,
            _ => false,
        }),
{
    let v = chars_vec(value);
    let t = trim_chars(&v);
    let l = lower_chars(&t);
    if chars_eq(&l, &chars_vec("decision")) || chars_eq(&l, &chars_vec("writing")) || chars_eq(
        &l,
        &chars_vec("architecture"),
    ) || chars_eq(&l, &chars_vec("planning")) || chars_eq(&l, &chars_vec("evaluation")) {
        Ok(string_from_chars(&l))
    } else {
        let e = debate_error(
            "DEBATE_ERR_INPUT",
            "output_type must be one of: decision|writing|architecture|planning|evaluation",
        );
        proof {
            reveal_strlit("DEBATE_ERR_INPUT");
            reveal_strlit(": ");
            reveal_strlit(
                "output_type must be one of: decision|writing|architecture|planning|evaluation",
            );
            reveal_strlit(
                "DEBATE_ERR_INPUT: output_type must be one of: decision|writing|architecture|planning|evaluation",
            );
            assert(e@
                =~= "DEBATE_ERR_INPUT: output_type must be one of: decision|writing|architecture|planning|evaluation"@);
        }
        Err(e)
    }
}

/// A canonical output type is a fixed point of normalization.
pub proof fn lemma_canon_output_fixed(t: Seq<char>)
    requires
        canon_output_type(t) is Some,
    ensures
        canon_output_type(canon_output_type(t).unwrap()) == canon_output_type(t),
{
    let l = lower_seq(trimmed(t));
    crate::text::lemma_trimmed_lower(t);
    assert(trimmed(l) == l);
    assert(lower_seq(l) =~= l) by {
        assert forall|i: int| 0 <= i < l.len() implies crate::text::lower_char(#[trigger] l[i])
            == l[i] by {
            assert(l[i] == crate::text::lower_char(trimmed(t)[i]));
            lemma_lower_idem(trimmed(t)[i]);
        }
    }
}

proof fn lemma_lower_idem(c: char)
    ensures
        crate::text::lower_char(crate::text::lower_char(c)) == crate::text::lower_char(c),
{
    if crate::text::is_ascii_upper(c) {
        let l = crate::text::lower_char(c);
        assert(l as u32 == c as u32 + 32);
        vstd::utf8::char_u32_cast(l, l as u32);
        assert(97 <= l as u32 <= 122);
        assert(!crate::text::is_ascii_upper(l));
    }
}

/// The provider a request resolves to is never blank.
pub proof fn lemma_provider_nonblank(raw: Seq<char>, providers: Seq<crate::settings::DebateProviderConfig>)
    ensures
        ({
            let p = canon_provider(raw, providers).0;
            trimmed(p) == p && p.len() > 0
        }),
{
    let n = lower_seq(trimmed(raw));
    crate::text::lemma_trimmed_lower(raw);
    reveal_strlit("local");
    reveal_strlit("codex");
    reveal_strlit("chatgpt");
    reveal_strlit("codex-cli");
    reveal_strlit("chatgpt-web");
    crate::text::lemma_trimmed_clean("local"@);
    crate::text::lemma_trimmed_clean("codex-cli"@);
    crate::text::lemma_trimmed_clean("chatgpt-web"@);
}

/// A chosen model name is never blank and carries no surrounding space.
pub proof fn lemma_model_clean(provider: Seq<char>, model_name: Seq<char>)
    ensures
        ({
            let m = model_default(provider, model_name);
            trimmed(m) == m && m.len() > 0
        }),
{
    if trimmed(model_name).len() > 0 {
        crate::text::lemma_trimmed_idem(model_name);
    } else {
        reveal_strlit("gpt-4.1-mini");
        reveal_strlit("gemini-2.0-flash");
        reveal_strlit("clover-3-5-sonnet-latest");
        reveal_strlit("codex");
        reveal_strlit("gemini");
        reveal_strlit("clover");
        reveal_strlit("chatgpt-web");
        reveal_strlit("gemini-web");
        reveal_strlit("clover-web");
        reveal_strlit("local-heuristic-v1");
        crate::text::lemma_trimmed_clean("gpt-4.1-mini"@);
        crate::text::lemma_trimmed_clean("gemini-2.0-flash"@);
        crate::text::lemma_trimmed_clean("clover-3-5-sonnet-latest"@);
        crate::text::lemma_trimmed_clean("codex"@);
        crate::text::lemma_trimmed_clean("gemini"@);
        crate::text::lemma_trimmed_clean("clover"@);
        crate::text::lemma_trimmed_clean("chatgpt-web"@);
        crate::text::lemma_trimmed_clean("gemini-web"@);
        crate::text::lemma_trimmed_clean("clover-web"@);
        crate::text::lemma_trimmed_clean("local-heuristic-v1"@);
    }
}

/// The canonical spelling of a (lowered, trimmed) provider alias.
pub open spec fn alias_of(n: Seq<char>) -> Seq<char> {
    if n == "codex"@ {
        "codex-cli"@
    } else if n == "chatgpt"@ {
        "chatgpt-web"@
    } else {
        n
    }
}

/// Canonicalizes a provider alias.
pub fn normalize_provider_alias(value: &str) -> (r: String)
    ensures
        r@ == alias_of(lower_seq(trimmed(value@))),
{
    let v = chars_vec(value);
    let t = trim_chars(&v);
    let l = lower_chars(&t);
    if chars_eq(&l, &chars_vec("codex")) {
        String::from_str("codex-cli")
    } else if chars_eq(&l, &chars_vec("chatgpt")) {
        String::from_str("chatgpt-web")
    } else {
        string_from_chars(&l)
    }
}

pub open spec fn is_builtin_provider(n: Seq<char>) -> bool {
    n == "openai"@ || n == "gemini"@ || n == "clover"@ || n == "local"@
}

/// The provider a raw name resolves to, with the warning its fallback earns:
/// blank and builtin names pass through; a known, enabled provider keeps its
/// canonical id; a disabled or unknown one falls back to the local stub.
pub open spec fn canon_provider(raw: Seq<char>, providers: Seq<DebateProviderConfig>) -> (
    Seq<char>,
    Option<Seq<char>>,
) {
    let n = lower_seq(trimmed(raw));
    if n.len() == 0 {
        ("local"@, None)
    } else if is_builtin_provider(n) {
        (n, None)
    } else {
        let c = alias_of(n);
        match reg_lookup(providers, lower_seq(trimmed(c))) {
            Some(cfg) => if cfg.enabled {
                (c, None)
            } else {
                ("local"@, Some("DEBATE_WARN_PROVIDER_DISABLED_FALLBACK_LOCAL"@))
            },
            None => ("local"@, Some("DEBATE_WARN_PROVIDER_UNKNOWN_FALLBACK_LOCAL"@)),
        }
    }
}

/// Resolves a provider name against the registry.
pub fn normalize_debate_provider(value: &str, registry: &DebateProviderRegistry) -> (r: (
    String,
    Option<String>,
))
    ensures
        ({
            let c = canon_provider(value@, registry.providers@);
            &&& r.0@ == c.0
            &&& (match (r.1, c.1) {
                (Some(a), Some(b)) => a@ == b,
                (None, None) => true,
                _ => false,
            })
        }),
{
    let v = chars_vec(value);
    let t = trim_chars(&v);
    let l = lower_chars(&t);
    if l.len() == 0 {
        return (String::from_str("local"), None);
    }
    if chars_eq(&l, &chars_vec("openai")) || chars_eq(&l, &chars_vec("gemini")) || chars_eq(
        &l,
        &chars_vec("clover"),
    ) || chars_eq(&l, &chars_vec("local")) {
        return (string_from_chars(&l), None);
    }
    let canonical = if chars_eq(&l, &chars_vec("codex")) {
        String::from_str("codex-cli")
    } else if chars_eq(&l, &chars_vec("chatgpt")) {
        String::from_str("chatgpt-web")
    } else {
        string_from_chars(&l)
    };
    match registry.get(canonical.as_str()) {
        Some(cfg) => {
            if cfg.enabled {
                (canonical, None)
            } else {
                (
                    String::from_str("local"),
                    Some(String::from_str("DEBATE_WARN_PROVIDER_DISABLED_FALLBACK_LOCAL")),
                )
            }
        },
        None => (
            String::from_str("local"),
            Some(String::from_str("DEBATE_WARN_PROVIDER_UNKNOWN_FALLBACK_LOCAL")),
        ),
    }
}

/// The transport type a provider id runs on: built-in for the hosted
/// providers and the local stub, else whatever the registry says.
pub open spec fn ptype_of(provider_id: Seq<char>, providers: Seq<DebateProviderConfig>) -> Seq<
    char,
> {
    if is_builtin_provider(provider_id) {
        "builtin"@
    } else {
        match reg_lookup(providers, lower_seq(trimmed(provider_id))) {
            Some(c) => c.provider_type@,
            None => "builtin"@,
        }
    }
}

/// Resolves a provider's transport type.
pub fn resolve_provider_type(provider_id: &str, registry: &DebateProviderRegistry) -> (r: String)
    ensures
        r@ == ptype_of(provider_id@, registry.providers@),
{
    let v = chars_vec(provider_id);
    if chars_eq(&v, &chars_vec("openai")) || chars_eq(&v, &chars_vec("gemini")) || chars_eq(
        &v,
        &chars_vec("clover"),
    ) || chars_eq(&v, &chars_vec("local")) {
        return String::from_str("builtin");
    }
    match registry.get(provider_id) {
        Some(c) => c.provider_type.clone(),
        None => String::from_str("builtin"),
    }
}

/// The model a participant runs: the trimmed request when non-blank, else
/// the provider's default.
pub open spec fn model_default(provider: Seq<char>, model_name: Seq<char>) -> Seq<char> {
    if trimmed(model_name).len() > 0 {
        trimmed(model_name)
    } else if provider == "openai"@ {
        "gpt-4.1-mini"@
    } else if provider == "gemini"@ {
        "gemini-2.0-flash"@
    } else if provider == "clover"@ {
        "clover-3-5-sonnet-latest"@
    } else if provider == "codex-cli"@ {
        "codex"@
    } else if provider == "gemini-cli"@ {
        "gemini"@
    } else if provider == "clover-cli"@ {
        "clover"@
    } else if provider == "chatgpt-web"@ {
        "chatgpt-web"@
    } else if provider == "gemini-web"@ {
        "gemini-web"@
    } else if provider == "clover-web"@ {
        "clover-web"@
    } else {
        "local-heuristic-v1"@
    }
}

/// Picks the model name for a provider.
pub fn normalize_debate_model_name(provider: &str, model_name: &str) -> (r: String)
    ensures
        r@ == model_default(provider@, model_name@),
        r@.len() > 0,
{
    let mv = chars_vec(model_name);
    let mt = trim_chars(&mv);
    if mt.len() > 0 {
        return string_from_chars(&mt);
    }
    let p = chars_vec(provider);
    let r = if chars_eq(&p, &chars_vec("openai")) {
        String::from_str("gpt-4.1-mini")
    } else if chars_eq(&p, &chars_vec("gemini")) {
        String::from_str("gemini-2.0-flash")
    } else if chars_eq(&p, &chars_vec("clover")) {
        String::from_str("clover-3-5-sonnet-latest")
    } else if chars_eq(&p, &chars_vec("codex-cli")) {
        String::from_str("codex")
    } else if chars_eq(&p, &chars_vec("gemini-cli")) {
        String::from_str("gemini")
    } else if chars_eq(&p, &chars_vec("clover-cli")) {
        String::from_str("clover")
    } else if chars_eq(&p, &chars_vec("chatgpt-web")) {
        String::from_str("chatgpt-web")
    } else if chars_eq(&p, &chars_vec("gemini-web")) {
        String::from_str("gemini-web")
    } else if chars_eq(&p, &chars_vec("clover-web")) {
        String::from_str("clover-web")
    } else {
        String::from_str("local-heuristic-v1")
    };
    proof {
        reveal_strlit("gpt-4.1-mini");
        reveal_strlit("gemini-2.0-flash");
        reveal_strlit("clover-3-5-sonnet-latest");
        reveal_strlit("codex");
        reveal_strlit("gemini");
        reveal_strlit("clover");
        reveal_strlit("chatgpt-web");
        reveal_strlit("gemini-web");
        reveal_strlit("clover-web");
        reveal_strlit("local-heuristic-v1");
    }
    r
}

/// The record type a debate writes back: the requested one when it
/// normalizes to `decision` or `worklog`, else `decision` for decision
/// debates and `worklog` for everything else.
pub open spec fn writeback_type_of(requested: Option<Seq<char>>, output_type: Seq<char>) -> Seq<
    char,
> {
    let from_req = (match requested {
        Some(v) => {
            let n = canon_rtype(v);
            if n == "decision"@ || n == "worklog"@ {
                Some(n)
            } else {
                None
            }
        },
        None => None,
    });
    match from_req {
        Some(n) => n,
        None => if output_type == "decision"@ {
            "decision"@
        } else {
            "worklog"@
        },
    }
}

pub fn select_writeback_record_type(requested: Option<&str>, output_type: &str) -> (r: String)
    ensures
        r@ == writeback_type_of(
            (match requested {
                Some(v) => Some(v@),
                None => None,
            }),
            output_type@,
        ),
{
    match requested {
        Some(v) => {
            let n = crate::records::normalize_record_type(v);
            let nv = chars_vec(n.as_str());
            if chars_eq(&nv, &chars_vec("decision")) || chars_eq(&nv, &chars_vec("worklog")) {
                return n;
            }
        },
        None => {},
    }
    let ov = chars_vec(output_type);
    if chars_eq(&ov, &chars_vec("decision")) {
        String::from_str("decision")
    } else {
        String::from_str("worklog")
    }
}

/// The first participant entry naming this role.
pub open spec fn first_for_role(parts: Seq<DebateParticipantConfig>, role: DebateRole) -> Option<
    DebateParticipantConfig,
>
    decreases parts.len(),
{
    if parts.len() == 0 {
        None
    } else if parsed_role(or_else(opt_v(parts[0].role), Seq::empty())) == Some(role) {
        Some(parts[0])
    } else {
        first_for_role(parts.drop_first(), role)
    }
}

fn first_role_from(parts: &Vec<DebateParticipantConfig>, i: usize, role: DebateRole) -> (r: Option<
    usize,
>)
    requires
        i <= parts.len(),
    ensures
        (r matches Some(j) ==> i <= j < parts@.len() && first_for_role(
            parts@.skip(i as int),
            role,
        ) == Some(parts@[j as int])),
        r is None ==> first_for_role(parts@.skip(i as int), role) is None,
    decreases parts.len() - i,
{
    if i == parts.len() {
        return None;
    }
    proof {
        assert(parts@.skip(i as int)[0] == parts@[i as int]);
        assert(parts@.skip(i as int).drop_first() =~= parts@.skip(i + 1));
    }
    let role_name: String = match &parts[i].role {
        Some(s) => s.clone(),
        None => String::new(),
    };
    match parse_debate_role(role_name.as_str()) {
        Some(p) => {
            if p == role {
                return Some(i);
            }
        },
        None => {},
    }
    first_role_from(parts, i + 1, role)
}

/// The warning codes normalization raises, in the order the entries arrive:
/// alias rewrites, disabled/unknown fallbacks, and ignored unknown roles.
pub open spec fn warnings_of(
    parts: Seq<DebateParticipantConfig>,
    providers: Seq<DebateProviderConfig>,
) -> Seq<Seq<char>>
    decreases parts.len(),
{
    if parts.len() == 0 {
        Seq::empty()
    } else {
        entry_warnings(parts[0], providers) + warnings_of(parts.drop_first(), providers)
    }
}

pub open spec fn entry_warnings(
    cfg: DebateParticipantConfig,
    providers: Seq<DebateProviderConfig>,
) -> Seq<Seq<char>> {
    let role_name = or_else(opt_v(cfg.role), Seq::empty());
    let raw = or_else(opt_v(cfg.model_provider), "local"@);
    if parsed_role(role_name) is Some {
        let input_norm = lower_seq(trimmed(raw));
        let c = canon_provider(raw, providers);
        (if c.0 != input_norm && input_norm.len() > 0 {
            seq!["DEBATE_WARN_PROVIDER_NORMALIZED"@]
        } else {
            Seq::empty()
        }) + (match c.1 {
            Some(w) => seq![w],
            None => Seq::empty(),
        })
    } else if trimmed(role_name).len() > 0 {
        seq!["DEBATE_WARN_UNKNOWN_ROLE_IGNORED"@]
    } else {
        Seq::empty()
    }
}

fn collect_warnings(
    parts: &Vec<DebateParticipantConfig>,
    i: usize,
    registry: &DebateProviderRegistry,
    out: &mut Vec<String>,
)
    requires
        i <= parts.len(),
    ensures
        strs(final(out)@) == strs(old(out)@) + warnings_of(
            parts@.skip(i as int),
            registry.providers@,
        ),
    decreases parts.len() - i,
{
    let ghost pre = strs(out@);
    let ghost rest = parts@.skip(i as int);
    if i == parts.len() {
        proof {
            assert(pre + warnings_of(rest, registry.providers@) =~= pre);
        }
        return ;
    }
    proof {
        assert(rest[0] == parts@[i as int]);
        assert(rest.drop_first() =~= parts@.skip(i + 1));
    }
    let cfg = &parts[i];
    let role_name: String = match &cfg.role {
        Some(s) => s.clone(),
        None => String::new(),
    };
    let raw: String = match &cfg.model_provider {
        Some(s) => s.clone(),
        None => String::from_str("local"),
    };
    let ghost before_entry = strs(out@);
    match parse_debate_role(role_name.as_str()) {
        Some(_r) => {
            let rv = chars_vec(raw.as_str());
            let rt = trim_chars(&rv);
            let rl = lower_chars(&rt);
            let (prov, warn) = normalize_debate_provider(raw.as_str(), registry);
            let pv = chars_vec(prov.as_str());
            if !chars_eq(&pv, &rl) && rl.len() > 0 {
                out.push(String::from_str("DEBATE_WARN_PROVIDER_NORMALIZED"));
            }
            match warn {
                Some(w) => {
                    out.push(w);
                },
                None => {},
            }
            proof {
                assert(strs(out@) =~= before_entry + entry_warnings(
                    parts@[i as int],
                    registry.providers@,
                ));
            }
        },
        None => {
            if !crate::text::is_blank(role_name.as_str()) {
                out.push(String::from_str("DEBATE_WARN_UNKNOWN_ROLE_IGNORED"));
            }
            proof {
                assert(strs(out@) =~= before_entry + entry_warnings(
                    parts@[i as int],
                    registry.providers@,
                ));
            }
        },
    }
    collect_warnings(parts, i + 1, registry, out);
    proof {
        assert(pre + (entry_warnings(parts@[i as int], registry.providers@) + warnings_of(
            rest.drop_first(),
            registry.providers@,
        )) =~= (pre + entry_warnings(parts@[i as int], registry.providers@)) + warnings_of(
            rest.drop_first(),
            registry.providers@,
        ));
    }
}

/// The trimmed, non-blank constraints, in order.
pub open spec fn constraints_of(cs: Seq<Seq<char>>) -> Seq<Seq<char>> {
    cs.map_values(|c: Seq<char>| trimmed(c)).filter(|c: Seq<char>| c.len() > 0)
}

fn normalize_constraints(cs: &Vec<String>) -> (r: Vec<String>)
    ensures
        strs(r@) == constraints_of(strs(cs@)),
{
    let mut out: Vec<String> = Vec::new();
    let mut i: usize = 0;
    proof {
        assert(strs(cs@.subrange(0, 0)).map_values(|c: Seq<char>| trimmed(c)).filter(
            |c: Seq<char>| c.len() > 0,
        ) =~= Seq::<Seq<char>>::empty());
        assert(strs(out@) =~= Seq::<Seq<char>>::empty());
    }
    while i < cs.len()
        invariant
            i <= cs.len(),
            strs(out@) == constraints_of(strs(cs@.subrange(0, i as int))),
        decreases cs.len() - i,
    {
        let ghost pre = strs(cs@.subrange(0, i as int));
        let v = chars_vec(cs[i].as_str());
        let t = trim_chars(&v);
        if t.len() > 0 {
            out.push(string_from_chars(&t));
        }
        i = i + 1;
        proof {
            let cur = strs(cs@.subrange(0, i as int)).map_values(|c: Seq<char>| trimmed(c));
            assert(strs(cs@.subrange(0, i as int)) =~= strs(cs@.subrange(0, i - 1)).push(
                cs@[i - 1]@,
            ));
            assert(cur.drop_last() =~= strs(cs@.subrange(0, i - 1)).map_values(
                |c: Seq<char>| trimmed(c),
            ));
            assert(cur.last() == trimmed(cs@[i - 1]@));
            reveal_with_fuel(Seq::filter, 2);
            assert(cur =~= cur.drop_last().push(trimmed(cs@[i - 1]@)));
            assert(strs(out@) =~= cur.filter(|c: Seq<char>| c.len() > 0));
        }
    }
    proof {
        assert(cs@.subrange(0, cs@.len() as int) =~= cs@);
    }
    out
}

/// What intake owes for one role, given the request's participant entries.
pub open spec fn participant_ok(
    p: DebateRuntimeParticipant,
    parts: Seq<DebateParticipantConfig>,
    providers: Seq<DebateProviderConfig>,
    role: DebateRole,
) -> bool {
    &&& p.role == role
    &&& (match first_for_role(parts, role) {
        Some(cfg) => {
            let raw = or_else(opt_v(cfg.model_provider), "local"@);
            let c = canon_provider(raw, providers);
            &&& p.model_provider@ == c.0
            &&& p.provider_type@ == ptype_of(c.0, providers)
            &&& p.model_name@ == model_default(c.0, or_else(opt_v(cfg.model_name), Seq::empty()))
        },
        None => p.model_provider@ == "local"@ && p.provider_type@ == "builtin"@ && p.model_name@
            == "local-heuristic-v1"@,
    })
    &&& p.model_provider@.len() > 0
    &&& p.model_name@.len() > 0
    &&& trimmed(p.model_provider@) == p.model_provider@
    &&& trimmed(p.model_name@) == p.model_name@
}

/// What a normalized request owes to the request it came from: trimmed
/// problem, canonical output type, clamped budgets, the five roles in order
/// with the first matching entry per role, and deduplicated warnings.
pub open spec fn normalized_ok(
    n: DebateNormalizedRequest,
    request: DebateModeRequest,
    providers: Seq<crate::settings::DebateProviderConfig>,
) -> bool {
    &&& n.problem@ == trimmed(request.problem@)
    &&& Some(n.output_type@) == canon_output_type(request.output_type@)
    &&& n.max_turn_seconds == (match request.max_turn_seconds {
        Some(s) => if s < 5 {
            5u64
        } else if s > 120 {
            120u64
        } else {
            s
        },
        None => 35u64,
    })
    &&& n.max_turn_tokens == (match request.max_turn_tokens {
        Some(t) => if t < 128 {
            128u32
        } else if t > 4096 {
            4096u32
        } else {
            t
        },
        None => 900u32,
    })
    &&& (match (n.writeback_record_type, request.writeback_record_type) {
        (Some(w), Some(orig)) => w@ == trimmed(orig@) && trimmed(orig@).len() > 0,
        (None, Some(orig)) => trimmed(orig@).len() == 0,
        (None, None) => true,
        _ => false,
    })
    &&& strs(n.constraints@) == constraints_of(strs(request.constraints@))
    &&& n.participants@.len() == 5
    &&& (forall|i: int|
        0 <= i < 5 ==> participant_ok(
            #[trigger] n.participants@[i],
            request.participants@,
            providers,
            role_order()[i],
        ))
    &&& strs(n.warning_codes@) == dedup_spec(
        warnings_of(request.participants@, providers),
        Seq::empty(),
    )
}

/// Normalizes a debate request at intake: the problem and output type are
/// validated, the five roles are filled (first entry per role wins, unknown
/// roles are dropped with a warning), providers fall back to the local stub,
/// budgets are clamped, and the warnings are deduplicated.
#[verifier::rlimit(100)]
pub fn normalize_debate_request(
    request: &DebateModeRequest,
    registry: &DebateProviderRegistry,
) -> (r: Result<DebateNormalizedRequest, String>)
    ensures
        (trimmed(request.problem@).len() == 0 ==> (r matches Err(e) && e@
            == "DEBATE_ERR_INPUT: Problem cannot be empty"@)),
        (trimmed(request.problem@).len() > 0 && canon_output_type(request.output_type@) is None
            ==> r is Err),
        (r is Ok <==> trimmed(request.problem@).len() > 0 && canon_output_type(
            request.output_type@,
        ) is Some),
        (r matches Err(e) ==> crate::text::starts_with_seq(e@, "DEBATE_ERR_"@)),
        (r matches Ok(n) ==> normalized_ok(n, *request, registry.providers@)),
{
    if crate::text::is_blank(request.problem.as_str()) {
        let e = debate_error("DEBATE_ERR_INPUT", "Problem cannot be empty");
        proof {
            reveal_strlit("DEBATE_ERR_INPUT");
            reveal_strlit(": ");
            reveal_strlit("Problem cannot be empty");
            reveal_strlit("DEBATE_ERR_INPUT: Problem cannot be empty");
            reveal_strlit("DEBATE_ERR_");
            assert(e@ =~= "DEBATE_ERR_INPUT: Problem cannot be empty"@);
            assert(e@.subrange(0, 11) =~= "DEBATE_ERR_"@);
        }
        return Err(e);
    }
    let problem = crate::text::trim_str(request.problem.as_str());
    let output_type = match normalize_debate_output_type(request.output_type.as_str()) {
        Ok(t) => t,
        Err(e) => {
            proof {
                reveal_strlit("DEBATE_ERR_");
                reveal_strlit(
                    "DEBATE_ERR_INPUT: output_type must be one of: decision|writing|architecture|planning|evaluation",
                );
                assert(e@.subrange(0, 11) =~= "DEBATE_ERR_"@);
            }
            return Err(e);
        },
    };
    let max_turn_seconds: u64 = match request.max_turn_seconds {
        Some(s) => if s < 5 {
            5
        } else if s > 120 {
            120
        } else {
            s
        },
        None => 35,
    };
    let max_turn_tokens: u32 = match request.max_turn_tokens {
        Some(t) => if t < 128 {
            128
        } else if t > 4096 {
            4096
        } else {
            t
        },
        None => 900,
    };
    let writeback_record_type: Option<String> = match &request.writeback_record_type {
        Some(orig) => {
            if crate::text::is_blank(orig.as_str()) {
                None
            } else {
                Some(crate::text::trim_str(orig.as_str()))
            }
        },
        None => None,
    };
    let constraints = normalize_constraints(&request.constraints);
    let mut raw_warnings: Vec<String> = Vec::new();
    collect_warnings(&request.participants, 0, registry, &mut raw_warnings);
    proof {
        assert(request.participants@.skip(0) =~= request.participants@);
        assert(strs(Seq::<String>::empty()) =~= Seq::<Seq<char>>::empty());
    }
    let warning_codes = dedup_non_empty(raw_warnings);
    let roles = DebateRole::all();
    let mut participants: Vec<DebateRuntimeParticipant> = Vec::new();
    let mut i: usize = 0;
    while i < roles.len()
        invariant
            i <= roles.len(),
            roles@ == role_order(),
            participants@.len() == i,
            forall|k: int|
                0 <= k < i ==> participant_ok(
                    #[trigger] participants@[k],
                    request.participants@,
                    registry.providers@,
                    role_order()[k],
                ),
        decreases roles.len() - i,
    {
        let role = roles[i];
        let p: DebateRuntimeParticipant = match first_role_from(&request.participants, 0, role) {
            Some(j) => {
                proof {
                    assert(request.participants@.skip(0) =~= request.participants@);
                }
                let cfg = &request.participants[j];
                let raw: String = match &cfg.model_provider {
                    Some(s) => s.clone(),
                    None => String::from_str("local"),
                };
                let model_in: String = match &cfg.model_name {
                    Some(s) => s.clone(),
                    None => String::new(),
                };
                let (prov, _warn) = normalize_debate_provider(raw.as_str(), registry);
                let ptype = resolve_provider_type(prov.as_str(), registry);
                let model = normalize_debate_model_name(prov.as_str(), model_in.as_str());
                proof {
                    let c = canon_provider(raw@, registry.providers@);
                    lemma_provider_nonblank(raw@, registry.providers@);
                    lemma_model_clean(c.0, model_in@);
                }
                DebateRuntimeParticipant {
                    role,
                    model_provider: prov,
                    provider_type: ptype,
                    model_name: model,
                }
            },
            None => {
                proof {
                    assert(request.participants@.skip(0) =~= request.participants@);
                    reveal_strlit("local");
                    reveal_strlit("local-heuristic-v1");
                    crate::text::lemma_trimmed_clean("local"@);
                    crate::text::lemma_trimmed_clean("local-heuristic-v1"@);
                }
                DebateRuntimeParticipant {
                    role,
                    model_provider: String::from_str("local"),
                    provider_type: String::from_str("builtin"),
                    model_name: String::from_str("local-heuristic-v1"),
                }
            },
        };
        participants.push(p);
        i = i + 1;
    }
    Ok(
        DebateNormalizedRequest {
            problem,
            constraints,
            output_type,
            participants,
            max_turn_seconds,
            max_turn_tokens,
            writeback_record_type,
            warning_codes,
        },
    )
}

} // verus!
