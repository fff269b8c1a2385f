//! The debate engine's fixed vocabulary: five roles, three rounds, eight
//! states with their strict transition order, the single-flight lock's state
//! logic, and the error-code convention.

use vstd::prelude::*;
use vstd::string::{StringExecFns, StrSliceExecFns};
use crate::text::{chars_eq, chars_vec, lower_chars, lower_seq, string_from_chars, trim_chars, trimmed, starts_with_seq, starts_with_chars};
use crate::util::{find_char, find_idx};

verus! {

#[derive(Clone, Copy, PartialEq, Eq, Structural, Debug)]
pub enum DebateRole {
    Proponent,
    Critic,
    Analyst,
    Synthesizer,
    Judge,
}

#[derive(Clone, Copy, PartialEq, Eq, Structural, Debug)]
pub enum DebateRound {
    Round1,
    Round2,
    Round3,
}

#[derive(Clone, Copy, PartialEq, Eq, Structural, Debug)]
pub enum DebateState {
    Intake,
    Round1,
    Round2,
    Round3,
    Consensus,
    Judge,
    Packetize,
    Writeback,
}

pub open spec fn role_str(r: DebateRole) -> Seq<char> {
    match r {
        DebateRole::Proponent => "Proponent"@,
        DebateRole::Critic => "Critic"@,
        DebateRole::Analyst => "Analyst"@,
        DebateRole::Synthesizer => "Synthesizer"@,
        DebateRole::Judge => "Judge"@,
    }
}

pub open spec fn round_str(r: DebateRound) -> Seq<char> {
    match r {
        DebateRound::Round1 => "round-1"@,
        DebateRound::Round2 => "round-2"@,
        DebateRound::Round3 => "round-3"@,
    }
}

pub open spec fn state_str(s: DebateState) -> Seq<char> {
    match s {
        DebateState::Intake => "Intake"@,
        DebateState::Round1 => "Round1"@,
        DebateState::Round2 => "Round2"@,
        DebateState::Round3 => "Round3"@,
        DebateState::Consensus => "Consensus"@,
        DebateState::Judge => "Judge"@,
        DebateState::Packetize => "Packetize"@,
        DebateState::Writeback => "Writeback"@,
    }
}

/// The five roles in their fixed speaking order.
pub open spec fn role_order() -> Seq<DebateRole> {
    seq![
        DebateRole::Proponent,
        DebateRole::Critic,
        DebateRole::Analyst,
        DebateRole::Synthesizer,
        DebateRole::Judge,
    ]
}

pub open spec fn round_order() -> Seq<DebateRound> {
    seq![DebateRound::Round1, DebateRound::Round2, DebateRound::Round3]
}

impl DebateRole {
    /// All roles, in speaking order.
    pub fn all() -> (r: Vec<DebateRole>)
        ensures
            r@ == role_order(),
    {
        let mut v: Vec<DebateRole> = Vec::new();
        v.push(DebateRole::Proponent);
        v.push(DebateRole::Critic);
        v.push(DebateRole::Analyst);
        v.push(DebateRole::Synthesizer);
        v.push(DebateRole::Judge);
        proof {
            assert(v@ =~= role_order());
        }
        v
    }

    pub fn as_str(&self) -> (r: &'static str)
        ensures
            r@ == role_str(*self),
    {
        match self {
            DebateRole::Proponent => "Proponent",
            DebateRole::Critic => "Critic",
            DebateRole::Analyst => "Analyst",
            DebateRole::Synthesizer => "Synthesizer",
            DebateRole::Judge => "Judge",
        }
    }
}

impl DebateRound {
    /// All rounds, in running order.
    pub fn all() -> (r: Vec<DebateRound>)
        ensures
            r@ == round_order(),
    {
        let mut v: Vec<DebateRound> = Vec::new();
        v.push(DebateRound::Round1);
        v.push(DebateRound::Round2);
        v.push(DebateRound::Round3);
        proof {
            assert(v@ =~= round_order());
        }
        v
    }

    pub fn as_str(&self) -> (r: &'static str)
        ensures
            r@ == round_str(*self),
    {
        match self {
            DebateRound::Round1 => "round-1",
            DebateRound::Round2 => "round-2",
            DebateRound::Round3 => "round-3",
        }
    }
}

impl DebateState {
    pub fn as_str(&self) -> (r: &'static str)
        ensures
            r@ == state_str(*self),
    {
        match self {
            DebateState::Intake => "Intake",
            DebateState::Round1 => "Round1",
            DebateState::Round2 => "Round2",
            DebateState::Round3 => "Round3",
            DebateState::Consensus => "Consensus",
            DebateState::Judge => "Judge",
            DebateState::Packetize => "Packetize",
            DebateState::Writeback => "Writeback",
        }
    }
}

/// The round number a round-artifact name denotes in the catalog.
pub open spec fn round_number_of(s: Seq<char>) -> int {
    if s == "round-1"@ {
        1
    } else if s == "round-2"@ {
        2
    } else if s == "round-3"@ {
        3
    } else {
        0
    }
}

pub fn round_number_from_str(value: &str) -> (r: i64)
    ensures
        r == round_number_of(value@),
{
    let v = chars_vec(value);
    if chars_eq(&v, &chars_vec("round-1")) {
        1
    } else if chars_eq(&v, &chars_vec("round-2")) {
        2
    } else if chars_eq(&v, &chars_vec("round-3")) {
        3
    } else {
        0
    }
}

/// The role a (lowered, trimmed) name denotes.
pub open spec fn parsed_role(s: Seq<char>) -> Option<DebateRole> {
    let l = lower_seq(trimmed(s));
    if l == "proponent"@ {
        Some(DebateRole::Proponent)
    } else if l == "critic"@ {
        Some(DebateRole::Critic)
    } else if l == "analyst"@ {
        Some(DebateRole::Analyst)
    } else if l == "synthesizer"@ {
        Some(DebateRole::Synthesizer)
    } else if l == "judge"@ {
        Some(DebateRole::Judge)
    } else {
        None
    }
}

/// Parses a role name, case-insensitively.
pub fn parse_debate_role(value: &str) -> (r: Option<DebateRole>)
    ensures
        r == parsed_role(value@),
{
    let v = chars_vec(value);
    let t = trim_chars(&v);
    let l = lower_chars(&t);
    if chars_eq(&l, &chars_vec("proponent")) {
        Some(DebateRole::Proponent)
    } else if chars_eq(&l, &chars_vec("critic")) {
        Some(DebateRole::Critic)
    } else if chars_eq(&l, &chars_vec("analyst")) {
        Some(DebateRole::Analyst)
    } else if chars_eq(&l, &chars_vec("synthesizer")) {
        Some(DebateRole::Synthesizer)
    } else if chars_eq(&l, &chars_vec("judge")) {
        Some(DebateRole::Judge)
    } else {
        None
    }
}

/// A role's display name parses back to the role.
pub proof fn lemma_role_roundtrip(r: DebateRole)
    ensures
        parsed_role(role_str(r)) == Some(r),
        role_str(r).len() > 0,
        trimmed(role_str(r)) == role_str(r),
{
    reveal_strlit("proponent");
    reveal_strlit("critic");
    reveal_strlit("analyst");
    reveal_strlit("synthesizer");
    reveal_strlit("judge");
    assert("proponent"@.len() == 9 && "critic"@.len() == 6 && "analyst"@.len() == 7
        && "synthesizer"@.len() == 11 && "judge"@.len() == 5);
    match r {
        DebateRole::Proponent => {
            reveal_strlit("Proponent");
            reveal_strlit("proponent");
            crate::text::lemma_trimmed_clean("Proponent"@);
            assert(trimmed("Proponent"@) == "Proponent"@);
            assert(lower_seq("Proponent"@) =~= "proponent"@);
            assert(lower_seq(trimmed(role_str(r))) == "proponent"@);
            assert(parsed_role(role_str(r)) == Some(DebateRole::Proponent));
        },
        DebateRole::Critic => {
            reveal_strlit("Critic");
            reveal_strlit("critic");
            crate::text::lemma_trimmed_clean("Critic"@);
            assert(lower_seq("Critic"@) =~= "critic"@);
            assert(parsed_role(role_str(r)) == Some(DebateRole::Critic));
        },
        DebateRole::Analyst => {
            reveal_strlit("Analyst");
            reveal_strlit("analyst");
            crate::text::lemma_trimmed_clean("Analyst"@);
            assert(lower_seq("Analyst"@) =~= "analyst"@);
            assert(parsed_role(role_str(r)) == Some(DebateRole::Analyst));
        },
        DebateRole::Synthesizer => {
            reveal_strlit("Synthesizer");
            reveal_strlit("synthesizer");
            crate::text::lemma_trimmed_clean("Synthesizer"@);
            assert(lower_seq("Synthesizer"@) =~= "synthesizer"@);
            assert(parsed_role(role_str(r)) == Some(DebateRole::Synthesizer));
        },
        DebateRole::Judge => {
            reveal_strlit("Judge");
            reveal_strlit("judge");
            crate::text::lemma_trimmed_clean("Judge"@);
            assert(lower_seq("Judge"@) =~= "judge"@);
            assert(parsed_role(role_str(r)) == Some(DebateRole::Judge));
        },
    }
}

/// The allowed state transitions: the eight states in strict order, entered
/// from the empty state only at Intake.
pub open spec fn allowed_transition(current: Option<DebateState>, next: DebateState) -> bool {
    ||| (current is None && next == DebateState::Intake)
    ||| (current == Some(DebateState::Intake) && next == DebateState::Round1)
    ||| (current == Some(DebateState::Round1) && next == DebateState::Round2)
    ||| (current == Some(DebateState::Round2) && next == DebateState::Round3)
    ||| (current == Some(DebateState::Round3) && next == DebateState::Consensus)
    ||| (current == Some(DebateState::Consensus) && next == DebateState::Judge)
    ||| (current == Some(DebateState::Judge) && next == DebateState::Packetize)
    ||| (current == Some(DebateState::Packetize) && next == DebateState::Writeback)
}

/// The transition guard.
pub fn validate_debate_transition(current: Option<DebateState>, next: DebateState) -> (r: bool)
    ensures
        r == allowed_transition(current, next),
{
    match (current, next) {
        (None, DebateState::Intake) => true,
        (Some(DebateState::Intake), DebateState::Round1) => true,
        (Some(DebateState::Round1), DebateState::Round2) => true,
        (Some(DebateState::Round2), DebateState::Round3) => true,
        (Some(DebateState::Round3), DebateState::Consensus) => true,
        (Some(DebateState::Consensus), DebateState::Judge) => true,
        (Some(DebateState::Judge), DebateState::Packetize) => true,
        (Some(DebateState::Packetize), DebateState::Writeback) => true,
        _ => false,
    }
}

/// Formats an error as `<CODE>: <message>`.
pub fn debate_error(code: &str, message: &str) -> (r: String)
    ensures
        r@ == code@ + ": "@ + message@,
{
    let mut s = String::new();
    s.append(code);
    s.append(": ");
    s.append(message);
    proof {
        assert(s@ =~= code@ + ": "@ + message@);
    }
    s
}

/// Advances the engine's state, refusing every transition outside the strict
/// order. Any step it lets through belongs to the allowed set.
pub fn advance_debate_state(current: &mut Option<DebateState>, next: DebateState) -> (r: Result<
    (),
    String,
>)
    ensures
        r is Ok <==> allowed_transition(*old(current), next),
        r is Ok ==> *final(current) == Some(next),
        r is Err ==> *final(current) == *old(current),
        (r matches Err(e) ==> starts_with_seq(e@, "DEBATE_ERR_STATE: "@)),
{
    if validate_debate_transition(*current, next) {
        *current = Some(next);
        Ok(())
    } else {
        let mut msg = String::new();
        msg.append("Invalid transition: ");
        match current {
            Some(s) => {
                msg.append(s.as_str());
            },
            None => {
                msg.append("None");
            },
        }
        msg.append(" -> ");
        msg.append(next.as_str());
        let e = debate_error("DEBATE_ERR_STATE", msg.as_str());
        proof {
            reveal_strlit("DEBATE_ERR_STATE");
            reveal_strlit(": ");
            reveal_strlit("DEBATE_ERR_STATE: ");
            assert(e@.subrange(0, 18) =~= "DEBATE_ERR_STATE: "@);
        }
        Err(e)
    }
}

/// Who each role cross-examines in the second round.
pub open spec fn round2_target(role: DebateRole) -> DebateRole {
    match role {
        DebateRole::Proponent => DebateRole::Critic,
        DebateRole::Critic => DebateRole::Proponent,
        DebateRole::Analyst => DebateRole::Proponent,
        DebateRole::Synthesizer => DebateRole::Critic,
        DebateRole::Judge => DebateRole::Synthesizer,
    }
}

pub fn debate_round2_target(role: DebateRole) -> (r: DebateRole)
    ensures
        r == round2_target(role),
{
    match role {
        DebateRole::Proponent => DebateRole::Critic,
        DebateRole::Critic => DebateRole::Proponent,
        DebateRole::Analyst => DebateRole::Proponent,
        DebateRole::Synthesizer => DebateRole::Critic,
        DebateRole::Judge => DebateRole::Synthesizer,
    }
}

/// Whether a provider runs through the local deterministic stub rather than a
/// real transport: every `web`-typed provider and the three web ids do.
pub open spec fn uses_local_stub(provider_id: Seq<char>, provider_type: Seq<char>) -> bool {
    provider_type == "web"@ || provider_id == "chatgpt-web"@ || provider_id == "gemini-web"@
        || provider_id == "clover-web"@
}

pub fn provider_uses_local_stub(provider_id: &str, provider_type: &str) -> (r: bool)
    ensures
        r == uses_local_stub(provider_id@, provider_type@),
{
    let pt = chars_vec(provider_type);
    let pid = chars_vec(provider_id);
    chars_eq(&pt, &chars_vec("web")) || chars_eq(&pid, &chars_vec("chatgpt-web")) || chars_eq(
        &pid,
        &chars_vec("gemini-web"),
    ) || chars_eq(&pid, &chars_vec("clover-web"))
}

/// Splits an error string into its `DEBATE_*` code and message, when it has
/// one.
pub open spec fn parsed_error(e: Seq<char>) -> (Option<Seq<char>>, Seq<char>) {
    let i = find_idx(e, ':');
    if 0 <= i < e.len() {
        let code = trimmed(e.subrange(0, i));
        let rest = trimmed(e.subrange(i + 1, e.len() as int));
        if starts_with_seq(code, "DEBATE_"@) {
            (Some(code), rest)
        } else {
            (None, e)
        }
    } else {
        (None, e)
    }
}

pub fn parse_debate_error(error: &str) -> (r: (Option<String>, String))
    ensures
        ({
            let p = parsed_error(error@);
            &&& (match (r.0, p.0) {
                (Some(a), Some(b)) => a@ == b,
                (None, None) => true,
                _ => false,
            })
            &&& r.1@ == p.1
        }),
{
    let v = chars_vec(error);
    let i = find_char(&v, 0, ':');
    proof {
        assert(v@.skip(0) =~= v@);
    }
    if i < v.len() {
        let code_raw = crate::util::copy_range(&v, 0, i);
        let code = trim_chars(&code_raw);
        let rest_raw = crate::util::copy_range(&v, i + 1, v.len());
        let rest = trim_chars(&rest_raw);
        let prefix = chars_vec("DEBATE_");
        if starts_with_chars(&code, &prefix) {
            return (Some(string_from_chars(&code)), string_from_chars(&rest));
        }
    }
    (None, String::from_str(error))
}

/// The single-flight debate lock's state: the run that currently holds it,
/// if any. The caller guards this slot with its own mutual exclusion; the
/// transitions below are what the guard protects.
pub struct DebateLock {
    pub active: Option<String>,
}

impl DebateLock {
    /// A free lock.
    pub fn new() -> (r: DebateLock)
        ensures
            r.active is None,
    {
        DebateLock { active: None }
    }

    /// Takes the lock for a run.
    pub fn acquire(&mut self, run_id: String) -> (r: Result<(), String>)
        ensures
            (old(self).active) is None <==> r is Ok,
            r is Ok ==> (final(self).active matches Some(h) && h@ == run_id@),
            r is Err ==> final(self).active == old(self).active,
            (r matches Err(e) ==> ((old(self).active) matches Some(active) && e@
                == "Another debate is already running: "@ + active@)),
    {
        debate_lock_acquire(&mut self.active, run_id)
    }

    /// Releases the lock unconditionally.
    pub fn release(&mut self)
        ensures
            final(self).active is None,
    {
        debate_lock_release(&mut self.active)
    }
}

/// Takes the single-flight debate lock: exactly one run may hold it, and a
/// second attempt fails naming the active run.
pub fn debate_lock_acquire(slot: &mut Option<String>, run_id: String) -> (r: Result<(), String>)
    ensures
        (*old(slot)) is None <==> r is Ok,
        r is Ok ==> ((*final(slot)) matches Some(h) && h@ == run_id@),
        r is Err ==> *final(slot) == *old(slot),
        (r matches Err(e) ==> ((*old(slot)) matches Some(active) && e@
            == "Another debate is already running: "@ + active@)),
{
    match slot {
        Some(active) => {
            let mut msg = String::new();
            msg.append("Another debate is already running: ");
            msg.append(active.as_str());
            proof {
                assert(msg@ =~= "Another debate is already running: "@ + active@);
            }
            Err(msg)
        },
        None => {
            *slot = Some(run_id);
            Ok(())
        },
    }
}

/// Releases the single-flight debate lock unconditionally.
pub fn debate_lock_release(slot: &mut Option<String>)
    ensures
        *final(slot) == None::<String>,
{
    *slot = None;
}

} // verus!
