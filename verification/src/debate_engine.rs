//! The debate engine: run identity, per-turn execution, round assembly, the
//! whole-run orchestration under the strict state order, the writeback
//! record, the catalog rows and replay's consistency checking.
//!
//! The engine computes every artifact as a value; the caller alone touches
//! disk, database and transports, and feeds provider answers back in as
//! outcomes.

use vstd::prelude::*;
use vstd::string::{StringExecFns, StrSliceExecFns};
use crate::clock::{now_rfc3339, now_stamp};
use crate::debate::{
    advance_debate_state, allowed_transition, debate_error, parsed_error, parse_debate_error,
    role_str, round_str, state_str, uses_local_stub, provider_uses_local_stub, DebateRole,
    DebateRound, DebateState, lemma_role_roundtrip,
};
use crate::debate_norm::{
    canon_output_type, DebateNormalizedRequest, DebateRuntimeParticipant,
};
use crate::debate_text::{claim_of, extract_claim_text, extract_first_non_empty_line, extract_risk_lines, first_stripped_line, risks_of};
use crate::debate_turns::{
    build_round2_challenges, build_round3_revisions, generate_local_debate_text, local_text_of,
    target_claim_of, revision_ref_of, DebateChallenge, DebateRoundArtifact, DebateTurn,
};
use crate::text::{chars_eq, chars_vec, is_wspace, string_from_chars, trimmed};
use crate::util::{dedup_spec, split_lines, strs, summary_line, u64_dec_chars, u64_zero_padded, dec_str};

verus! {

/// What the caller's transport produced for one provider turn.
pub struct ProviderOutcome {
    pub text: Result<String, String>,
    pub duration_ms: u64,
}

/// The shape of a run id for one clock reading:
/// `debate_{yyyyMMdd_HHmmss}_{ms mod 100000}`.
pub open spec fn run_id_seq(st: crate::clock::ClockStamp, ms: u64) -> Seq<char> {
    "debate_"@ + crate::util::zero_padded(crate::records::stamp_year(st), 4)
        + crate::util::zero_padded(st.month as nat, 2) + crate::util::zero_padded(
        st.day as nat,
        2,
    ) + seq!['_'] + crate::util::zero_padded(st.hour as nat, 2) + crate::util::zero_padded(
        st.minute as nat,
        2,
    ) + crate::util::zero_padded(st.second as nat, 2) + seq!['_'] + dec_str((ms % 100000) as nat)
}

/// Mints a run id from the wall clock.
pub fn generate_debate_run_id() -> (r: String)
    ensures
        r@.len() > 0,
        trimmed(r@) == r@,
        crate::text::starts_with_seq(r@, "debate_"@),
        (exists|st: crate::clock::ClockStamp, ms: u64| st.wf() && r@ == run_id_seq(st, ms)),
{
    let st = now_stamp();
    let y: u64 = if st.year < 0 {
        0
    } else {
        st.year as u64
    };
    let ms: u64 = if st.epoch_millis < 0 {
        if st.epoch_millis == i64::MIN {
            0
        } else {
            (-st.epoch_millis) as u64
        }
    } else {
        st.epoch_millis as u64
    };
    let mut v = chars_vec("debate_");
    let ghost head = v@;
    let y4 = u64_zero_padded(y, 4);
    push_all_chars(&mut v, &y4);
    let mo = u64_zero_padded(st.month, 2);
    push_all_chars(&mut v, &mo);
    let d = u64_zero_padded(st.day, 2);
    push_all_chars(&mut v, &d);
    v.push('_');
    let h = u64_zero_padded(st.hour, 2);
    push_all_chars(&mut v, &h);
    let mi = u64_zero_padded(st.minute, 2);
    push_all_chars(&mut v, &mi);
    let se = u64_zero_padded(st.second, 2);
    push_all_chars(&mut v, &se);
    v.push('_');
    let tail = u64_dec_chars(ms % 100000);
    push_all_chars(&mut v, &tail);
    proof {
        reveal_strlit("debate_");
        assert(v@[0] == 'd');
        assert(!is_wspace('d'));
        crate::debate_packet::lemma_dec_str_digits((ms % 100000) as nat);
        assert(v@.last() == dec_str((ms % 100000) as nat).last());
        assert(crate::dates::is_digit_char(v@.last()));
        assert(!is_wspace(v@.last()));
        crate::text::lemma_trimmed_clean(v@);
        assert(v@.subrange(0, 7) =~= "debate_"@);
        assert(v@ =~= run_id_seq(st, ms));
        assert(st.wf() && v@ == run_id_seq(st, ms));
    }
    string_from_chars(&v)
}

fn push_all_chars(out: &mut Vec<char>, add: &Vec<char>)
    ensures
        final(out)@ == old(out)@ + add@,
{
    let ghost pre = out@;
    let mut i: usize = 0;
    while i < add.len()
        invariant
            i <= add.len(),
            out@ == pre + add@.subrange(0, i as int),
        decreases add.len() - i,
    {
        out.push(add[i]);
        i = i + 1;
        proof {
            assert(out@ =~= pre + add@.subrange(0, i as int));
        }
    }
    proof {
        assert(add@.subrange(0, add@.len() as int) =~= add@);
    }
}

/// Whether a participant's turn runs through the local deterministic stub.
pub open spec fn turn_is_local(p: DebateRuntimeParticipant) -> bool {
    p.model_provider@ == "local"@ || uses_local_stub(p.model_provider@, p.provider_type@)
}

/// The text a turn works from: the local generator for stub participants,
/// else the transport's outcome; a missing outcome is an unsupported
/// provider.
pub open spec fn turn_text_of(
    p: DebateRuntimeParticipant,
    round: DebateRound,
    target: Option<DebateRole>,
    problem: Seq<char>,
    constraints: Seq<Seq<char>>,
    prev: Seq<DebateRoundArtifact>,
    outcome: Option<ProviderOutcome>,
) -> Result<Seq<char>, Seq<char>> {
    if turn_is_local(p) {
        Ok(local_text_of(p.role, round, target, problem, constraints, prev))
    } else {
        match outcome {
            Some(o) => match o.text {
                Ok(t) => Ok(t@),
                Err(e) => Err(e@),
            },
            None => Err(
                "DEBATE_ERR_PROVIDER_UNSUPPORTED: Unsupported provider: "@ + p.model_provider@,
            ),
        }
    }
}

/// What a successful turn records.
pub open spec fn ok_turn_fields(
    t: DebateTurn,
    p: DebateRuntimeParticipant,
    round: DebateRound,
    target: Option<DebateRole>,
    text: Seq<char>,
    prev: Seq<DebateRoundArtifact>,
) -> bool {
    &&& t.role@ == role_str(p.role)
    &&& t.round@ == round_str(round)
    &&& t.model_provider@ == p.model_provider@
    &&& t.model_name@ == p.model_name@
    &&& t.status@ == "ok"@
    &&& t.claim@ == (match claim_of(text) {
        Some(c) => c,
        None => first_stripped_line(split_lines(text)),
    })
    &&& t.rationale@ == (if trimmed(text).len() == 0 {
        "No rationale returned."@
    } else {
        trimmed(text)
    })
    &&& strs(t.risks@) == risks_of(text)
    &&& (round == DebateRound::Round2 ==> (match target {
        Some(tr) => t.challenges@.len() == 1 && t.challenges@[0].source_role@ == role_str(p.role)
            && t.challenges@[0].target_role@ == role_str(tr) && t.challenges@[0].question@
            == "How does "@ + role_str(tr) + " defend this claim under failure conditions: "@
            + target_claim_of(prev, tr) && t.challenges@[0].response@ == summary_line(text, 180),
        None => t.challenges@.len() == 0,
    }))
    &&& (round != DebateRound::Round2 ==> t.challenges@.len() == 0)
    &&& (round == DebateRound::Round3 ==> strs(t.revisions@) == dedup_spec(
        seq![
            revision_ref_of(prev, p.role),
            summary_line(text, 180),
            "Added explicit risk mitigation and execution checkpoints."@,
        ],
        Seq::empty(),
    ))
    &&& (round != DebateRound::Round3 ==> t.revisions@.len() == 0)
    &&& crate::records::opt_v(t.target_role) == (match target {
        Some(tr) => Some(role_str(tr)),
        None => None::<Seq<char>>,
    })
    &&& t.error_code is None
    &&& t.error_message is None
    &&& t.started_at@.len() > 0
    &&& t.finished_at@.len() > 0
    &&& trimmed(t.started_at@) == t.started_at@
    &&& trimmed(t.finished_at@) == t.finished_at@
}

/// What a failed turn records.
pub open spec fn failed_turn_fields(
    t: DebateTurn,
    p: DebateRuntimeParticipant,
    round: DebateRound,
    target: Option<DebateRole>,
    err: Seq<char>,
) -> bool {
    &&& t.role@ == role_str(p.role)
    &&& t.round@ == round_str(round)
    &&& t.model_provider@ == p.model_provider@
    &&& t.model_name@ == p.model_name@
    &&& t.status@ == "failed"@
    &&& t.claim@.len() == 0
    &&& t.rationale@.len() == 0
    &&& t.risks@.len() == 0
    &&& t.challenges@.len() == 0
    &&& t.revisions@.len() == 0
    &&& crate::records::opt_v(t.target_role) == (match target {
        Some(tr) => Some(role_str(tr)),
        None => None::<Seq<char>>,
    })
    &&& (match crate::records::opt_v(t.error_code) {
        Some(c) => parsed_error(err).0 == Some(c),
        None => parsed_error(err).0 is None,
    })
    &&& (match crate::records::opt_v(t.error_message) {
        Some(m) => m == parsed_error(err).1,
        None => false,
    })
    &&& t.started_at@.len() > 0
    &&& t.finished_at@.len() > 0
    &&& trimmed(t.started_at@) == t.started_at@
    &&& trimmed(t.finished_at@) == t.finished_at@
}

/// The whole per-turn protocol for one participant and round.
pub open spec fn turn_matches(
    t: DebateTurn,
    p: DebateRuntimeParticipant,
    round: DebateRound,
    target: Option<DebateRole>,
    problem: Seq<char>,
    constraints: Seq<Seq<char>>,
    prev: Seq<DebateRoundArtifact>,
    outcome: Option<ProviderOutcome>,
) -> bool {
    match turn_text_of(p, round, target, problem, constraints, prev, outcome) {
        Ok(text) => ok_turn_fields(t, p, round, target, text, prev) && (t.status@ == "ok"@),
        Err(e) => failed_turn_fields(t, p, round, target, e),
    }
}

/// Runs one turn: local and web-stub participants use the deterministic
/// generator, everything else consumes the transport's outcome.
#[verifier::rlimit(100)]
pub fn execute_debate_turn(
    participant: &DebateRuntimeParticipant,
    round: DebateRound,
    target_role: Option<DebateRole>,
    request: &DebateNormalizedRequest,
    previous_rounds: &Vec<DebateRoundArtifact>,
    outcome: &Option<ProviderOutcome>,
) -> (t: DebateTurn)
    ensures
        turn_matches(
            t,
            *participant,
            round,
            target_role,
            request.problem@,
            strs(request.constraints@),
            previous_rounds@,
            *outcome,
        ),
        t.status@ == "ok"@ || t.status@ == "failed"@,
        turn_is_local(*participant) ==> t.status@ == "ok"@,
{
    let started_at = now_rfc3339();
    proof {
        crate::text::lemma_trimmed_clean(started_at@);
    }
    let is_local = {
        let pv = chars_vec(participant.model_provider.as_str());
        chars_eq(&pv, &chars_vec("local")) || provider_uses_local_stub(
            participant.model_provider.as_str(),
            participant.provider_type.as_str(),
        )
    };
    let text_result: Result<String, String> = if is_local {
        Ok(
            generate_local_debate_text(
                participant.role,
                round,
                target_role,
                request,
                previous_rounds,
            ),
        )
    } else {
        match outcome {
            Some(o) => match &o.text {
                Ok(s) => Ok(s.clone()),
                Err(e) => Err(e.clone()),
            },
            None => {
                let mut m = String::from_str("Unsupported provider: ");
                m.append(participant.model_provider.as_str());
                let e = debate_error("DEBATE_ERR_PROVIDER_UNSUPPORTED", m.as_str());
                proof {
                    assert(e@ =~= "DEBATE_ERR_PROVIDER_UNSUPPORTED: Unsupported provider: "@
                        + participant.model_provider@) by {
                        reveal_strlit("DEBATE_ERR_PROVIDER_UNSUPPORTED");
                        reveal_strlit(": ");
                        reveal_strlit("Unsupported provider: ");
                        reveal_strlit("DEBATE_ERR_PROVIDER_UNSUPPORTED: Unsupported provider: ");
                        assert(m@ =~= "Unsupported provider: "@ + participant.model_provider@);
                    }
                }
                Err(e)
            },
        }
    };
    let duration_ms: u64 = match outcome {
        Some(o) => if is_local {
            0
        } else {
            o.duration_ms
        },
        None => 0,
    };
    let target_role_str: Option<String> = match target_role {
        Some(tr) => Some(String::from_str(tr.as_str())),
        None => None,
    };
    match text_result {
        Ok(text) => {
            let claim: String = match extract_claim_text(text.as_str()) {
                Some(c) => c,
                None => extract_first_non_empty_line(text.as_str()),
            };
            let tt = crate::text::trim_str(text.as_str());
            let rationale: String = if tt.as_str().unicode_len() == 0 {
                String::from_str("No rationale returned.")
            } else {
                tt
            };
            let risks = extract_risk_lines(text.as_str());
            let challenges: Vec<DebateChallenge> = if round_is_two(round) {
                build_round2_challenges(participant.role, target_role, text.as_str(), previous_rounds)
            } else {
                Vec::new()
            };
            let revisions: Vec<String> = if round_is_three(round) {
                build_round3_revisions(participant.role, text.as_str(), previous_rounds)
            } else {
                Vec::new()
            };
            let finished_at = now_rfc3339();
            proof {
                reveal_strlit("No rationale returned.");
                crate::text::lemma_trimmed_clean(finished_at@);
            }
            DebateTurn {
                role: String::from_str(participant.role.as_str()),
                round: String::from_str(round.as_str()),
                model_provider: participant.model_provider.clone(),
                model_name: participant.model_name.clone(),
                status: String::from_str("ok"),
                claim,
                rationale,
                risks,
                challenges,
                revisions,
                target_role: target_role_str,
                duration_ms,
                error_code: None,
                error_message: None,
                started_at,
                finished_at,
            }
        },
        Err(error) => {
            let (code, message) = parse_debate_error(error.as_str());
            let finished_at = now_rfc3339();
            proof {
                crate::text::lemma_trimmed_clean(finished_at@);
            }
            DebateTurn {
                role: String::from_str(participant.role.as_str()),
                round: String::from_str(round.as_str()),
                model_provider: participant.model_provider.clone(),
                model_name: participant.model_name.clone(),
                status: String::from_str("failed"),
                claim: String::new(),
                rationale: String::new(),
                risks: Vec::new(),
                challenges: Vec::new(),
                revisions: Vec::new(),
                target_role: target_role_str,
                duration_ms,
                error_code: code,
                error_message: Some(message),
                started_at,
                finished_at,
            }
        },
    }
}

fn round_is_two(round: DebateRound) -> (r: bool)
    ensures
        r == (round == DebateRound::Round2),
{
    match round {
        DebateRound::Round2 => true,
        _ => false,
    }
}

fn round_is_three(round: DebateRound) -> (r: bool)
    ensures
        r == (round == DebateRound::Round3),
{
    match round {
        DebateRound::Round3 => true,
        _ => false,
    }
}

/// A full round: every participant's turn in speaking order, cross-examining
/// its fixed target in the second round.
pub open spec fn round_matches(
    a: DebateRoundArtifact,
    round: DebateRound,
    participants: Seq<DebateRuntimeParticipant>,
    problem: Seq<char>,
    constraints: Seq<Seq<char>>,
    prev: Seq<DebateRoundArtifact>,
    outcomes: Seq<Option<ProviderOutcome>>,
) -> bool {
    &&& a.round@ == round_str(round)
    &&& a.turns@.len() == participants.len()
    &&& (forall|i: int|
        0 <= i < participants.len() ==> turn_matches(
            #[trigger] a.turns@[i],
            participants[i],
            round,
            (if round == DebateRound::Round2 {
                Some(crate::debate::round2_target(participants[i].role))
            } else {
                None
            }),
            problem,
            constraints,
            prev,
            outcomes[i],
        ))
    &&& a.started_at@.len() > 0
    &&& a.finished_at@.len() > 0
}

/// Runs one round over all participants.
pub fn run_debate_round(
    round: DebateRound,
    request: &DebateNormalizedRequest,
    previous_rounds: &Vec<DebateRoundArtifact>,
    outcomes: &Vec<Option<ProviderOutcome>>,
) -> (a: DebateRoundArtifact)
    requires
        outcomes@.len() >= request.participants@.len(),
    ensures
        round_matches(
            a,
            round,
            request.participants@,
            request.problem@,
            strs(request.constraints@),
            previous_rounds@,
            outcomes@,
        ),
        ok_turns_match(a.turns@, request.participants@),
{
    let round_started = now_rfc3339();
    let mut turns: Vec<DebateTurn> = Vec::new();
    let mut i: usize = 0;
    while i < request.participants.len()
        invariant
            i <= request.participants@.len(),
            outcomes@.len() >= request.participants@.len(),
            turns@.len() == i,
            forall|k: int|
                0 <= k < i ==> turn_matches(
                    #[trigger] turns@[k],
                    request.participants@[k],
                    round,
                    (if round == DebateRound::Round2 {
                        Some(crate::debate::round2_target(request.participants@[k].role))
                    } else {
                        None
                    }),
                    request.problem@,
                    strs(request.constraints@),
                    previous_rounds@,
                    outcomes@[k],
                ),
            forall|k: int|
                0 <= k < i ==> (turn_is_local(request.participants@[k]) ==> (
                #[trigger] turns@[k]).status@ == "ok"@),
        decreases request.participants.len() - i,
    {
        let participant = &request.participants[i];
        let target_role: Option<DebateRole> = if round_is_two(round) {
            Some(crate::debate::debate_round2_target(participant.role))
        } else {
            None
        };
        let oc: Option<ProviderOutcome> = match &outcomes[i] {
            Some(o) => Some(
                ProviderOutcome {
                    text: (match &o.text {
                        Ok(s) => Ok(s.clone()),
                        Err(e) => Err(e.clone()),
                    }),
                    duration_ms: o.duration_ms,
                },
            ),
            None => None,
        };
        proof {
            assert(turn_text_of(
                request.participants@[i as int],
                round,
                target_role,
                request.problem@,
                strs(request.constraints@),
                previous_rounds@,
                oc,
            ) == turn_text_of(
                request.participants@[i as int],
                round,
                target_role,
                request.problem@,
                strs(request.constraints@),
                previous_rounds@,
                outcomes@[i as int],
            ));
        }
        let t = execute_debate_turn(participant, round, target_role, request, previous_rounds, &oc);
        turns.push(t);
        i = i + 1;
    }
    let round_finished = now_rfc3339();
    DebateRoundArtifact {
        round: String::from_str(round.as_str()),
        turns,
        started_at: round_started,
        finished_at: round_finished,
    }
}

/// Every local participant's turn succeeded.
pub open spec fn ok_turns_match(
    turns: Seq<DebateTurn>,
    participants: Seq<DebateRuntimeParticipant>,
) -> bool {
    turns.len() == participants.len() && forall|k: int|
        0 <= k < turns.len() ==> (turn_is_local(participants[k]) ==> (#[trigger] turns[k]).status@
            == "ok"@)
}


/// The error codes failed turns carry, in order.
pub open spec fn turn_codes_of(rounds: Seq<DebateRoundArtifact>) -> Seq<Seq<char>>
    decreases rounds.len(),
{
    if rounds.len() == 0 {
        Seq::empty()
    } else {
        codes_of_turns(rounds[0].turns@) + turn_codes_of(rounds.drop_first())
    }
}

pub open spec fn codes_of_turns(turns: Seq<DebateTurn>) -> Seq<Seq<char>>
    decreases turns.len(),
{
    if turns.len() == 0 {
        Seq::empty()
    } else {
        (match crate::records::opt_v(turns[0].error_code) {
            Some(c) => seq![c],
            None => Seq::empty(),
        }) + codes_of_turns(turns.drop_first())
    }
}

fn collect_codes_of_turns(turns: &Vec<DebateTurn>, i: usize, out: &mut Vec<String>)
    requires
        i <= turns.len(),
    ensures
        strs(final(out)@) == strs(old(out)@) + codes_of_turns(turns@.skip(i as int)),
    decreases turns.len() - i,
{
    let ghost pre = strs(out@);
    let ghost rest = turns@.skip(i as int);
    if i == turns.len() {
        proof {
            assert(pre + codes_of_turns(rest) =~= pre);
        }
        return ;
    }
    proof {
        assert(rest[0] == turns@[i as int]);
        assert(rest.drop_first() =~= turns@.skip(i + 1));
    }
    match &turns[i].error_code {
        Some(c) => {
            out.push(c.clone());
            proof {
                assert(strs(out@) =~= pre.push(c@));
            }
            let ghost mid = strs(out@);
            collect_codes_of_turns(turns, i + 1, out);
            proof {
                assert(pre + codes_of_turns(rest) =~= mid + codes_of_turns(rest.drop_first()));
            }
        },
        None => {
            collect_codes_of_turns(turns, i + 1, out);
        },
    }
}

fn collect_turn_codes(rounds: &Vec<DebateRoundArtifact>, i: usize, out: &mut Vec<String>)
    requires
        i <= rounds.len(),
    ensures
        strs(final(out)@) == strs(old(out)@) + turn_codes_of(rounds@.skip(i as int)),
    decreases rounds.len() - i,
{
    let ghost pre = strs(out@);
    let ghost rest = rounds@.skip(i as int);
    if i == rounds.len() {
        proof {
            assert(pre + turn_codes_of(rest) =~= pre);
        }
        return ;
    }
    proof {
        assert(rest[0] == rounds@[i as int]);
        assert(rest.drop_first() =~= rounds@.skip(i + 1));
        assert(rounds@[i as int].turns@.skip(0) =~= rounds@[i as int].turns@);
    }
    collect_codes_of_turns(&rounds[i].turns, 0, out);
    let ghost mid = strs(out@);
    collect_turn_codes(rounds, i + 1, out);
    proof {
        assert(pre + turn_codes_of(rest) =~= mid + turn_codes_of(rest.drop_first()));
    }
}

/// Three rounds of five turns make fifteen.
pub proof fn lemma_three_rounds_total(rounds: Seq<DebateRoundArtifact>)
    requires
        rounds.len() == 3,
        forall|k: int| 0 <= k < 3 ==> (#[trigger] rounds[k]).turns@.len() == 5,
    ensures
        crate::debate_packet::total_turn_count(rounds) == 15,
{
    let r1 = rounds.drop_first();
    let r2 = r1.drop_first();
    let r3 = r2.drop_first();
    assert(r1.len() == 2 && r2.len() == 1 && r3.len() == 0);
    assert(r1[0] == rounds[1]);
    assert(r2[0] == r1[1]);
    assert(r1[1] == rounds[2]);
    assert(crate::debate_packet::total_turn_count(r3) == 0);
    assert(crate::debate_packet::total_turn_count(r2) == r2[0].turns@.len()
        + crate::debate_packet::total_turn_count(r3));
    assert(crate::debate_packet::total_turn_count(r1) == r1[0].turns@.len()
        + crate::debate_packet::total_turn_count(r2));
    assert(crate::debate_packet::total_turn_count(rounds) == rounds[0].turns@.len()
        + crate::debate_packet::total_turn_count(r1));
}

/// A cloned participant carries the same values.
fn clone_participant(p: &DebateRuntimeParticipant) -> (r: DebateRuntimeParticipant)
    ensures
        r.role == p.role,
        r.model_provider@ == p.model_provider@,
        r.provider_type@ == p.provider_type@,
        r.model_name@ == p.model_name@,
{
    DebateRuntimeParticipant {
        role: p.role,
        model_provider: p.model_provider.clone(),
        provider_type: p.provider_type.clone(),
        model_name: p.model_name.clone(),
    }
}

/// What `request.json` records at intake.
pub struct DebateRequestArtifact {
    pub run_id: String,
    pub problem: String,
    pub constraints: Vec<String>,
    pub output_type: String,
    pub participants: Vec<DebateRuntimeParticipant>,
    pub max_turn_seconds: u64,
    pub max_turn_tokens: u32,
    pub warnings: Vec<String>,
    pub started_at: String,
}

/// The caller-facing outcome of a run.
pub struct DebateModeResponse {
    pub run_id: String,
    pub mode: String,
    pub state: String,
    pub degraded: bool,
    pub final_packet: crate::debate_packet::DebateFinalPacket,
    pub artifacts_root: String,
    pub writeback_json_path: Option<String>,
    pub error_codes: Vec<String>,
}

/// The catalog row a run upserts.
pub struct DebateRunRow {
    pub run_id: String,
    pub output_type: String,
    pub problem: String,
    pub consensus_score_milli: u32,
    pub confidence_score_milli: u32,
    pub selected_option: String,
    pub degraded: bool,
    pub started_at: String,
    pub finished_at: String,
    pub artifacts_root: String,
    pub final_packet_path: String,
    pub writeback_json_path: String,
}

/// Everything a completed run hands the caller to persist.
pub struct DebateRunSuccess {
    pub response: DebateModeResponse,
    pub normalized: DebateNormalizedRequest,
    pub rounds: Vec<DebateRoundArtifact>,
    pub request_artifact: DebateRequestArtifact,
    pub packet_markdown: String,
    pub writeback: crate::store::UpsertPlan,
    pub run_row: DebateRunRow,
}

/// The outcome grid's row for one round, as the engine reads it: an entry
/// exactly where the mask is set.
pub open spec fn masked_row(
    outs: Seq<Vec<ProviderOutcome>>,
    mask: Seq<Vec<bool>>,
    k: int,
) -> Seq<Option<ProviderOutcome>> {
    Seq::new(
        5,
        |p: int|
            if mask[k]@[p] {
                Some(outs[k]@[p])
            } else {
                None
            },
    )
}

/// The catalog row mirrors the response.
pub open spec fn run_row_ok(row: DebateRunRow, resp: DebateModeResponse, wb_path: Seq<char>) -> bool {
    &&& row.run_id@ == resp.run_id@
    &&& row.output_type@ == resp.final_packet.output_type@
    &&& row.problem@ == resp.final_packet.problem@
    &&& row.consensus_score_milli == resp.final_packet.consensus.consensus_score_milli
    &&& row.confidence_score_milli == resp.final_packet.consensus.confidence_score_milli
    &&& row.selected_option@ == resp.final_packet.decision.selected_option@
    &&& row.degraded == resp.degraded
    &&& row.started_at@ == resp.final_packet.timestamps.started_at@
    &&& row.finished_at@ == resp.final_packet.timestamps.finished_at@
    &&& row.artifacts_root@ == resp.artifacts_root@
    &&& row.final_packet_path@ == crate::paths::joined(resp.artifacts_root@, "final-packet.json"@)
    &&& row.writeback_json_path@ == wb_path
}

/// The request artifact records the normalized intake.
pub open spec fn request_artifact_ok(
    ra: DebateRequestArtifact,
    resp: DebateModeResponse,
    n: DebateNormalizedRequest,
) -> bool {
    &&& ra.run_id@ == resp.run_id@
    &&& ra.problem@ == n.problem@
    &&& strs(ra.constraints@) == strs(n.constraints@)
    &&& ra.output_type@ == n.output_type@
    &&& ra.participants@.len() == n.participants@.len()
    &&& (forall|k: int|
        0 <= k < ra.participants@.len() ==> {
            let a = #[trigger] ra.participants@[k];
            &&& a.role == n.participants@[k].role
            &&& a.model_provider@ == n.participants@[k].model_provider@
            &&& a.provider_type@ == n.participants@[k].provider_type@
            &&& a.model_name@ == n.participants@[k].model_name@
        })
    &&& ra.max_turn_seconds == n.max_turn_seconds
    &&& ra.max_turn_tokens == n.max_turn_tokens
    &&& strs(ra.warnings@) == strs(n.warning_codes@)
    &&& ra.started_at@ == resp.final_packet.timestamps.started_at@
}

/// The lines of the record body a debate writes back.
pub open spec fn writeback_body_lines(p: crate::debate_packet::DebateFinalPacket) -> Seq<
    Seq<char>,
> {
    seq![
        "Run ID: `"@ + p.run_id@ + "`"@,
        Seq::<char>::empty(),
        "## Conclusion"@,
        "TL;DR: "@ + summary_line(p.decision.selected_option@, 110),
        Seq::<char>::empty(),
        "## Selected Option"@,
        p.decision.selected_option@,
        Seq::<char>::empty(),
        "## Why Selected"@,
    ] + crate::debate_packet::dash_lines(strs(p.decision.why_selected@), "- "@) + seq![
        Seq::<char>::empty(),
        "## Risks"@,
    ] + p.risks@.map_values(
        |o: crate::debate_packet::DebateRisk| "- ["@ + o.severity@ + "] "@ + o.risk@,
    ) + seq![Seq::<char>::empty(), "## Next Actions"@] + p.next_actions@.map_values(
        |o: crate::debate_packet::DebateAction| "- "@ + o.action@ + " ("@ + o.id@ + ") due "@
            + o.due@,
    )
}

pub open spec fn writeback_body_of(p: crate::debate_packet::DebateFinalPacket) -> Seq<char> {
    crate::util::join_sep(writeback_body_lines(p), "\n"@)
}

/// Builds the record body a debate writes back.
#[verifier::rlimit(100)]
pub fn render_writeback_body(packet: &crate::debate_packet::DebateFinalPacket) -> (r: String)
    ensures
        r@ == writeback_body_of(*packet),
{
    let mut lines: Vec<String> = Vec::new();
    let mut l0 = String::from_str("Run ID: `");
    l0.append(packet.run_id.as_str());
    l0.append("`");
    push_line2(&mut lines, l0);
    push_line2(&mut lines, String::new());
    push_line2(&mut lines, String::from_str("## Conclusion"));
    let mut tl = String::from_str("TL;DR: ");
    let tsum = crate::util::summarize_text_line(packet.decision.selected_option.as_str(), 110);
    tl.append(tsum.as_str());
    push_line2(&mut lines, tl);
    push_line2(&mut lines, String::new());
    push_line2(&mut lines, String::from_str("## Selected Option"));
    push_line2(&mut lines, packet.decision.selected_option.clone());
    push_line2(&mut lines, String::new());
    push_line2(&mut lines, String::from_str("## Why Selected"));
    let ghost head = strs(lines@);
    let mut w: usize = 0;
    while w < packet.decision.why_selected.len()
        invariant
            w <= packet.decision.why_selected@.len(),
            strs(lines@) == head + crate::debate_packet::dash_lines(
                strs(packet.decision.why_selected@.subrange(0, w as int)),
                "- "@,
            ),
        decreases packet.decision.why_selected.len() - w,
    {
        let mut line = String::from_str("- ");
        line.append(packet.decision.why_selected[w].as_str());
        let ghost before = lines@;
        lines.push(line);
        w = w + 1;
        proof {
            crate::util::lemma_strs_push(before, lines@.last());
            assert(strs(packet.decision.why_selected@.subrange(0, w as int)) =~= strs(
                packet.decision.why_selected@.subrange(0, w - 1),
            ).push(packet.decision.why_selected@[w - 1]@));
            assert(crate::debate_packet::dash_lines(
                strs(packet.decision.why_selected@.subrange(0, w as int)),
                "- "@,
            ) =~= crate::debate_packet::dash_lines(
                strs(packet.decision.why_selected@.subrange(0, w - 1)),
                "- "@,
            ).push("- "@ + packet.decision.why_selected@[w - 1]@));
            assert(strs(lines@) =~= head + crate::debate_packet::dash_lines(
                strs(packet.decision.why_selected@.subrange(0, w as int)),
                "- "@,
            ));
        }
    }
    proof {
        assert(packet.decision.why_selected@.subrange(
            0,
            packet.decision.why_selected@.len() as int,
        ) =~= packet.decision.why_selected@);
    }
    push_line2(&mut lines, String::new());
    push_line2(&mut lines, String::from_str("## Risks"));
    let ghost sec_r = strs(lines@);
    let mut ri: usize = 0;
    while ri < packet.risks.len()
        invariant
            ri <= packet.risks@.len(),
            strs(lines@) == sec_r + packet.risks@.subrange(0, ri as int).map_values(
                |o: crate::debate_packet::DebateRisk| "- ["@ + o.severity@ + "] "@ + o.risk@,
            ),
        decreases packet.risks.len() - ri,
    {
        let o = &packet.risks[ri];
        let mut line = String::from_str("- [");
        line.append(o.severity.as_str());
        line.append("] ");
        line.append(o.risk.as_str());
        let ghost before = lines@;
        lines.push(line);
        ri = ri + 1;
        proof {
            crate::util::lemma_strs_push(before, lines@.last());
            assert(lines@.last()@ == "- ["@ + packet.risks@[ri - 1].severity@ + "] "@
                + packet.risks@[ri - 1].risk@);
            assert(packet.risks@.subrange(0, ri as int) =~= packet.risks@.subrange(0, ri - 1).push(
                packet.risks@[ri - 1],
            ));
            assert(packet.risks@.subrange(0, ri as int).map_values(
                |o: crate::debate_packet::DebateRisk| "- ["@ + o.severity@ + "] "@ + o.risk@,
            ) =~= packet.risks@.subrange(0, ri - 1).map_values(
                |o: crate::debate_packet::DebateRisk| "- ["@ + o.severity@ + "] "@ + o.risk@,
            ).push(lines@.last()@));
            assert(strs(lines@) =~= sec_r + packet.risks@.subrange(0, ri as int).map_values(
                |o: crate::debate_packet::DebateRisk| "- ["@ + o.severity@ + "] "@ + o.risk@,
            ));
        }
    }
    proof {
        assert(packet.risks@.subrange(0, packet.risks@.len() as int) =~= packet.risks@);
    }
    push_line2(&mut lines, String::new());
    push_line2(&mut lines, String::from_str("## Next Actions"));
    let ghost sec_a = strs(lines@);
    let mut ai: usize = 0;
    while ai < packet.next_actions.len()
        invariant
            ai <= packet.next_actions@.len(),
            strs(lines@) == sec_a + packet.next_actions@.subrange(0, ai as int).map_values(
                |o: crate::debate_packet::DebateAction| "- "@ + o.action@ + " ("@ + o.id@
                    + ") due "@ + o.due@,
            ),
        decreases packet.next_actions.len() - ai,
    {
        let o = &packet.next_actions[ai];
        let mut line = String::from_str("- ");
        line.append(o.action.as_str());
        line.append(" (");
        line.append(o.id.as_str());
        line.append(") due ");
        line.append(o.due.as_str());
        let ghost before = lines@;
        lines.push(line);
        ai = ai + 1;
        proof {
            crate::util::lemma_strs_push(before, lines@.last());
            assert(lines@.last()@ == "- "@ + packet.next_actions@[ai - 1].action@ + " ("@
                + packet.next_actions@[ai - 1].id@ + ") due "@ + packet.next_actions@[ai - 1].due@);
            assert(packet.next_actions@.subrange(0, ai as int) =~= packet.next_actions@.subrange(
                0,
                ai - 1,
            ).push(packet.next_actions@[ai - 1]));
            assert(packet.next_actions@.subrange(0, ai as int).map_values(
                |o: crate::debate_packet::DebateAction| "- "@ + o.action@ + " ("@ + o.id@
                    + ") due "@ + o.due@,
            ) =~= packet.next_actions@.subrange(0, ai - 1).map_values(
                |o: crate::debate_packet::DebateAction| "- "@ + o.action@ + " ("@ + o.id@
                    + ") due "@ + o.due@,
            ).push(lines@.last()@));
            assert(strs(lines@) =~= sec_a + packet.next_actions@.subrange(0, ai as int).map_values(
                |o: crate::debate_packet::DebateAction| "- "@ + o.action@ + " ("@ + o.id@
                    + ") due "@ + o.due@,
            ));
        }
    }
    proof {
        assert(packet.next_actions@.subrange(0, packet.next_actions@.len() as int)
            =~= packet.next_actions@);
        assert(strs(lines@) =~= writeback_body_lines(*packet));
    }
    crate::util::join_with(&lines, "\n")
}

fn push_line2(out: &mut Vec<String>, line: String)
    ensures
        strs(final(out)@) == strs(old(out)@).push(line@),
{
    let ghost before = out@;
    out.push(line);
    proof {
        crate::util::lemma_strs_push(before, out@.last());
        assert(out@ =~= before.push(out@.last()));
    }
}


/// Runs a whole debate: intake, three rounds in strict state order, the
/// consensus, decision and packet, the writeback record and the catalog row.
/// `outcomes[round][participant]` carries what the caller's transports
/// produced for non-local turns; local and web-stub turns need none.
#[verifier::rlimit(100)]
pub fn run_debate(
    central_home: &str,
    request: &crate::debate_norm::DebateModeRequest,
    registry: &crate::settings::DebateProviderRegistry,
    outcomes: &Vec<Vec<ProviderOutcome>>,
    outcome_mask: &Vec<Vec<bool>>,
) -> (r: Result<DebateRunSuccess, String>)
    requires
        outcomes@.len() >= 3,
        outcome_mask@.len() >= 3,
        forall|k: int| 0 <= k < outcomes@.len() ==> (#[trigger] outcomes@[k])@.len() >= 5,
        forall|k: int| 0 <= k < outcome_mask@.len() ==> (#[trigger] outcome_mask@[k])@.len() >= 5,
    ensures
        (r matches Err(e) ==> crate::text::starts_with_seq(e@, "DEBATE_ERR_"@)),
        (trimmed(request.problem@).len() > 0 && canon_output_type(request.output_type@) is Some
            && request.participants@.len() == 0 ==> r is Ok),
        (trimmed(request.problem@).len() > 0 && canon_output_type(request.output_type@) is Some
            && (exists|k: int|
            0 <= k < 5 && crate::debate_norm::first_for_role(
                request.participants@,
                crate::debate::role_order()[k],
            ) is None) ==> r is Ok),
        (r matches Ok(s) ==> {
            let total = crate::debate_packet::total_turn_count(s.rounds@);
            let ok = crate::debate_packet::ok_turn_count(s.rounds@);
            &&& s.response.mode@ == "debate-v0.1"@
            &&& s.response.state@ == "Writeback"@
            &&& crate::debate_packet::valid_packet(s.response.final_packet)
            &&& s.response.final_packet.participants@.len() == 5
            &&& s.rounds@.len() == 3
            &&& (forall|k: int|
                0 <= k < 3 ==> (#[trigger] s.rounds@[k]).turns@.len() == 5 && s.rounds@[k].round@
                    == crate::debate::round_str(crate::debate::round_order()[k]))
            &&& total == 15
            &&& s.response.final_packet.consensus.consensus_score_milli
                == crate::debate_packet::milli_of(ok, 15)
            &&& s.response.final_packet.consensus.confidence_score_milli
                == crate::debate_packet::confidence_milli_of(ok, 15)
            &&& s.response.degraded == (ok < 15)
            &&& (s.response.writeback_json_path matches Some(p) && p@ == s.writeback.json_path@)
            &&& s.writeback.json_path@ == crate::paths::joined(
                crate::paths::joined(
                    crate::paths::joined(central_home@, "records"@),
                    crate::records::dir_of_type(s.writeback.record@.record_type),
                ),
                s.writeback.stem@ + ".json"@,
            )
            &&& s.writeback.record@.record_type == crate::debate_norm::writeback_type_of(
                (match request.writeback_record_type {
                    Some(w) => if trimmed(w@).len() > 0 {
                        Some(trimmed(w@))
                    } else {
                        None
                    },
                    None => None,
                }),
                s.response.final_packet.output_type@,
            )
            &&& s.response.artifacts_root@ == crate::paths::joined(
                crate::paths::joined(
                    crate::paths::joined(central_home@, "records"@),
                    "debates"@,
                ),
                s.response.run_id@,
            )
            &&& s.response.run_id@ == s.response.final_packet.run_id@
            &&& Some(s.response.final_packet.output_type@) == canon_output_type(
                request.output_type@,
            )
            &&& s.packet_markdown@ == crate::debate_packet::packet_md_of(s.response.final_packet)
            &&& crate::debate_norm::normalized_ok(s.normalized, *request, registry.providers@)
            &&& (forall|k: int|
                0 <= k < 3 ==> round_matches(
                    #[trigger] s.rounds@[k],
                    crate::debate::round_order()[k],
                    s.normalized.participants@,
                    s.normalized.problem@,
                    strs(s.normalized.constraints@),
                    s.rounds@.subrange(0, k),
                    masked_row(outcomes@, outcome_mask@, k),
                ))
            &&& (forall|k: int|
                0 <= k < 3 ==> ok_turns_match(
                    (#[trigger] s.rounds@[k]).turns@,
                    s.normalized.participants@,
                ))
            &&& strs(s.response.error_codes@) == dedup_spec(
                strs(s.normalized.warning_codes@) + turn_codes_of(s.rounds@),
                Seq::empty(),
            )
            &&& (forall|k: int|
                0 <= k < 5 ==> {
                    let pp = #[trigger] s.response.final_packet.participants@[k];
                    &&& pp.role@ == role_str(crate::debate::role_order()[k])
                    &&& pp.model_provider@ == s.normalized.participants@[k].model_provider@
                    &&& pp.model_name@ == s.normalized.participants@[k].model_name@
                })
            &&& s.response.final_packet.problem@ == s.normalized.problem@
            &&& strs(s.response.final_packet.constraints@) == strs(s.normalized.constraints@)
            &&& strs(s.response.final_packet.consensus.key_agreements@)
                == crate::debate_packet::agreements_of(s.rounds@)
            &&& strs(s.response.final_packet.consensus.key_disagreements@)
                == crate::debate_packet::disagreements_of(
                s.rounds@,
                strs(s.normalized.warning_codes@) + turn_codes_of(s.rounds@),
            )
            &&& s.response.final_packet.decision.selected_option@
                == crate::debate_packet::selected_option_of(
                s.rounds@,
                s.response.final_packet.output_type@,
            )
            &&& strs(s.response.final_packet.decision.why_selected@)
                == crate::debate_packet::why_selected_of(s.rounds@)
            &&& s.response.final_packet.decision.rejected_options@.len()
                == crate::debate_packet::rejected_of(s.rounds@).len()
            &&& s.response.final_packet.risks@.len() == crate::debate_packet::packet_risks_of(
                s.rounds@,
            ).len()
            &&& (forall|i: int|
                0 <= i < s.response.final_packet.risks@.len() ==> (
                #[trigger] s.response.final_packet.risks@[i]).risk@
                    == crate::debate_packet::packet_risks_of(s.rounds@)[i])
            &&& s.response.final_packet.next_actions@.len() == 3
            &&& strs(s.response.final_packet.trace.round_refs@) == seq![
                "round-1"@,
                "round-2"@,
                "round-3"@,
            ]
            &&& strs(s.response.final_packet.trace.evidence_refs@) == seq![
                crate::paths::joined(s.response.artifacts_root@, "request.json"@),
                crate::paths::joined(s.response.artifacts_root@, "consensus.json"@),
                "writeback:"@ + s.writeback.json_path@,
            ]
            &&& run_row_ok(s.run_row, s.response, s.writeback.json_path@)
            &&& request_artifact_ok(s.request_artifact, s.response, s.normalized)
        }),
{
    let normalized = match crate::debate_norm::normalize_debate_request(request, registry) {
        Ok(n) => n,
        Err(e) => {
            return Err(e);
        },
    };
    let run_id = generate_debate_run_id();
    let started_at = now_rfc3339();
    proof {
        crate::text::lemma_trimmed_clean(started_at@);
        crate::text::lemma_trimmed_nonblank(started_at@);
    }
    let mut state: Option<DebateState> = None;
    match advance_debate_state(&mut state, DebateState::Intake) {
        Ok(_u) => {},
        Err(e) => {
            proof {
                assert(false);
            }
            return Err(e);
        },
    }
    let run_root = crate::paths::path_join(
        crate::paths::path_join(
            crate::paths::path_join(central_home, "records").as_str(),
            "debates",
        ).as_str(),
        run_id.as_str(),
    );
    let mut req_parts: Vec<DebateRuntimeParticipant> = Vec::new();
    let mut pi: usize = 0;
    while pi < normalized.participants.len()
        invariant
            pi <= normalized.participants@.len(),
            req_parts@.len() == pi,
            forall|k: int|
                0 <= k < pi ==> {
                    let a = #[trigger] req_parts@[k];
                    &&& a.role == normalized.participants@[k].role
                    &&& a.model_provider@ == normalized.participants@[k].model_provider@
                    &&& a.provider_type@ == normalized.participants@[k].provider_type@
                    &&& a.model_name@ == normalized.participants@[k].model_name@
                },
        decreases normalized.participants.len() - pi,
    {
        req_parts.push(clone_participant(&normalized.participants[pi]));
        pi = pi + 1;
    }
    let request_artifact = DebateRequestArtifact {
        run_id: run_id.clone(),
        problem: normalized.problem.clone(),
        constraints: crate::records::clone_strings(&normalized.constraints),
        output_type: normalized.output_type.clone(),
        participants: req_parts,
        max_turn_seconds: normalized.max_turn_seconds,
        max_turn_tokens: normalized.max_turn_tokens,
        warnings: crate::records::clone_strings(&normalized.warning_codes),
        started_at: started_at.clone(),
    };
    let all_rounds = DebateRound::all();
    let mut rounds: Vec<DebateRoundArtifact> = Vec::new();
    let mut idx: usize = 0;
    while idx < 3
        invariant
            idx <= 3,
            all_rounds@ == crate::debate::round_order(),
            normalized.participants@.len() == 5,
            outcomes@.len() >= 3,
            outcome_mask@.len() >= 3,
            forall|k: int| 0 <= k < outcomes@.len() ==> (#[trigger] outcomes@[k])@.len() >= 5,
            forall|k: int|
                0 <= k < outcome_mask@.len() ==> (#[trigger] outcome_mask@[k])@.len() >= 5,
            state == Some(
                if idx == 0 {
                    DebateState::Intake
                } else if idx == 1 {
                    DebateState::Round1
                } else if idx == 2 {
                    DebateState::Round2
                } else {
                    DebateState::Round3
                },
            ),
            rounds@.len() == idx,
            forall|k: int|
                0 <= k < idx ==> (#[trigger] rounds@[k]).turns@.len() == 5 && rounds@[k].round@
                    == crate::debate::round_str(crate::debate::round_order()[k]),
            forall|k: int|
                0 <= k < idx ==> crate::debate_engine::ok_turns_match(
                    (#[trigger] rounds@[k]).turns@,
                    normalized.participants@,
                ),
            forall|k: int|
                0 <= k < idx ==> round_matches(
                    #[trigger] rounds@[k],
                    crate::debate::round_order()[k],
                    normalized.participants@,
                    normalized.problem@,
                    strs(normalized.constraints@),
                    rounds@.subrange(0, k),
                    masked_row(outcomes@, outcome_mask@, k),
                ),
        decreases 3 - idx,
    {
        let round = all_rounds[idx];
        let next_state = match round {
            DebateRound::Round1 => DebateState::Round1,
            DebateRound::Round2 => DebateState::Round2,
            DebateRound::Round3 => DebateState::Round3,
        };
        proof {
            assert(idx == 0 || idx == 1 || idx == 2);
            assert(allowed_transition(state, next_state));
        }
        match advance_debate_state(&mut state, next_state) {
            Ok(_u) => {},
            Err(e) => {
                proof {
                    assert(false);
                }
                return Err(e);
            },
        }
        let mut round_outcomes: Vec<Option<ProviderOutcome>> = Vec::new();
        let mut oi: usize = 0;
        while oi < 5
            invariant
                oi <= 5,
                idx < 3,
                outcomes@.len() >= 3,
                outcome_mask@.len() >= 3,
                forall|k: int| 0 <= k < outcomes@.len() ==> (#[trigger] outcomes@[k])@.len() >= 5,
                forall|k: int|
                    0 <= k < outcome_mask@.len() ==> (#[trigger] outcome_mask@[k])@.len() >= 5,
                round_outcomes@.len() == oi,
                forall|p: int|
                    0 <= p < oi ==> #[trigger] round_outcomes@[p] == masked_row(
                        outcomes@,
                        outcome_mask@,
                        idx as int,
                    )[p],
            decreases 5 - oi,
        {
            let o: Option<ProviderOutcome> = if outcome_mask[idx][oi] {
                let src = &outcomes[idx][oi];
                let copy = ProviderOutcome {
                    text: (match &src.text {
                        Ok(s) => Ok(s.clone()),
                        Err(e) => Err(e.clone()),
                    }),
                    duration_ms: src.duration_ms,
                };
                proof {
                    assert(copy == outcomes@[idx as int]@[oi as int]);
                }
                Some(copy)
            } else {
                None
            };
            round_outcomes.push(o);
            oi = oi + 1;
        }
        proof {
            assert(round_outcomes@ =~= masked_row(outcomes@, outcome_mask@, idx as int));
        }
        let a = run_debate_round(round, &normalized, &rounds, &round_outcomes);
        let ghost pre_rounds = rounds@;
        rounds.push(a);
        idx = idx + 1;
        proof {
            assert(rounds@.last().turns@.len() == 5);
            assert(rounds@.last().round@ == crate::debate::round_str(
                crate::debate::round_order()[idx - 1],
            ));
            assert(forall|k: int| 0 <= k < idx - 1 ==> rounds@[k] == pre_rounds[k]);
            assert forall|k: int| 0 <= k < idx implies round_matches(
                #[trigger] rounds@[k],
                crate::debate::round_order()[k],
                normalized.participants@,
                normalized.problem@,
                strs(normalized.constraints@),
                rounds@.subrange(0, k),
                masked_row(outcomes@, outcome_mask@, k),
            ) by {
                assert(rounds@.subrange(0, k) =~= pre_rounds.subrange(0, k));
                if k == idx - 1 {
                    assert(pre_rounds.subrange(0, k) =~= pre_rounds);
                    assert(rounds@[k] == a);
                }
            }
        }
    }
    proof {
        lemma_three_rounds_total(rounds@);
        crate::debate_packet::lemma_ok_turns_bound(rounds@);
    }
    let (total, ok) = crate::debate_packet::count_turns(&rounds);
    let mut codes = crate::records::clone_strings(&normalized.warning_codes);
    collect_turn_codes(&rounds, 0, &mut codes);
    proof {
        assert(rounds@.skip(0) =~= rounds@);
    }
    if ok == 0 {
        proof {
            if exists|k: int|
                0 <= k < 5 && crate::debate_norm::first_for_role(
                    request.participants@,
                    crate::debate::role_order()[k],
                ) is None {
                let k0 = choose|k: int|
                    0 <= k < 5 && crate::debate_norm::first_for_role(
                        request.participants@,
                        crate::debate::role_order()[k],
                    ) is None;
                assert(crate::debate_norm::participant_ok(
                    normalized.participants@[k0],
                    request.participants@,
                    registry.providers@,
                    crate::debate::role_order()[k0],
                ));
                assert(turn_is_local(normalized.participants@[k0]));
                assert(rounds@[0].turns@[k0].status@ == "ok"@);
                lemma_ok_count_pos(rounds@[0].turns@, k0);
                crate::debate_packet::lemma_ok_turns_bound(rounds@.drop_first());
                assert(rounds@.drop_first()[0] == rounds@[1]);
                assert(crate::debate_packet::ok_turn_count(rounds@)
                    == crate::debate_packet::ok_count(rounds@[0].turns@)
                    + crate::debate_packet::ok_turn_count(rounds@.drop_first()));
                assert(false);
            }
            if trimmed(request.problem@).len() > 0 && canon_output_type(
                request.output_type@,
            ) is Some && request.participants@.len() == 0 {
                assert(crate::debate_norm::first_for_role(
                    request.participants@,
                    crate::debate::role_order()[0],
                ) is None);
                assert(false);
            }
        }
        let mut m = String::from_str("All debate turns failed. run=");
        m.append(run_id.as_str());
        m.append(". See artifacts at ");
        m.append(run_root.as_str());
        let e = debate_error("DEBATE_ERR_ALL_TURNS_FAILED", m.as_str());
        proof {
            reveal_strlit("DEBATE_ERR_ALL_TURNS_FAILED");
            reveal_strlit(": ");
            reveal_strlit("DEBATE_ERR_");
            assert(e@.subrange(0, 11) =~= "DEBATE_ERR_"@) by {
                reveal_strlit("DEBATE_ERR_ALL_TURNS_FAILED");
            }
        }
        return Err(e);
    }
    match advance_debate_state(&mut state, DebateState::Consensus) {
        Ok(_u) => {},
        Err(e) => {
            proof {
                assert(false);
            }
            return Err(e);
        },
    }
    let consensus = crate::debate_packet::build_debate_consensus(&rounds, &codes);
    match advance_debate_state(&mut state, DebateState::Judge) {
        Ok(_u) => {},
        Err(e) => {
            proof {
                assert(false);
            }
            return Err(e);
        },
    }
    let decision = crate::debate_packet::build_debate_decision(&normalized, &rounds);
    let risks = crate::debate_packet::build_debate_risks(&rounds);
    let next_actions = crate::debate_packet::build_debate_actions(
        normalized.output_type.as_str(),
        &decision,
        &risks,
    );
    match advance_debate_state(&mut state, DebateState::Packetize) {
        Ok(_u) => {},
        Err(e) => {
            proof {
                assert(false);
            }
            return Err(e);
        },
    }
    let mut packet_parts: Vec<crate::debate_packet::DebatePacketParticipant> = Vec::new();
    let mut qi: usize = 0;
    while qi < normalized.participants.len()
        invariant
            qi <= normalized.participants@.len(),
            normalized.participants@.len() == 5,
            packet_parts@.len() == qi,
            forall|k: int|
                0 <= k < 5 ==> crate::debate_norm::participant_ok(
                    #[trigger] normalized.participants@[k],
                    request.participants@,
                    registry.providers@,
                    crate::debate::role_order()[k],
                ),
            forall|k: int|
                0 <= k < qi ==> {
                    let pp = #[trigger] packet_parts@[k];
                    &&& pp.role@ == role_str(crate::debate::role_order()[k])
                    &&& trimmed(pp.model_provider@).len() > 0
                    &&& trimmed(pp.model_name@).len() > 0
                    &&& pp.model_provider@ == normalized.participants@[k].model_provider@
                    &&& pp.model_name@ == normalized.participants@[k].model_name@
                },
        decreases normalized.participants.len() - qi,
    {
        let p = &normalized.participants[qi];
        proof {
            assert(crate::debate_norm::participant_ok(
                normalized.participants@[qi as int],
                request.participants@,
                registry.providers@,
                crate::debate::role_order()[qi as int],
            ));
        }
        packet_parts.push(
            crate::debate_packet::DebatePacketParticipant {
                role: String::from_str(p.role.as_str()),
                model_provider: p.model_provider.clone(),
                model_name: p.model_name.clone(),
            },
        );
        qi = qi + 1;
    }
    let mut round_refs: Vec<String> = Vec::new();
    round_refs.push(String::from_str("round-1"));
    round_refs.push(String::from_str("round-2"));
    round_refs.push(String::from_str("round-3"));
    let mut evidence_refs: Vec<String> = Vec::new();
    evidence_refs.push(crate::paths::path_join(run_root.as_str(), "request.json"));
    evidence_refs.push(crate::paths::path_join(run_root.as_str(), "consensus.json"));
    proof {
        assert(strs(round_refs@) =~= seq!["round-1"@, "round-2"@, "round-3"@]);
        assert(strs(evidence_refs@) =~= seq![
            crate::paths::joined(run_root@, "request.json"@),
            crate::paths::joined(run_root@, "consensus.json"@),
        ]);
    }
    let finished_0 = now_rfc3339();
    proof {
        crate::text::lemma_trimmed_nonblank(finished_0@);
    }
    let mut final_packet = crate::debate_packet::DebateFinalPacket {
        run_id: run_id.clone(),
        mode: String::from_str("debate-v0.1"),
        problem: normalized.problem.clone(),
        constraints: crate::records::clone_strings(&normalized.constraints),
        output_type: normalized.output_type.clone(),
        participants: packet_parts,
        consensus,
        decision,
        risks,
        next_actions,
        trace: crate::debate_packet::DebateTrace { round_refs, evidence_refs },
        timestamps: crate::debate_packet::DebatePacketTimestamps {
            started_at: started_at.clone(),
            finished_at: finished_0,
        },
    };
    proof {
        lemma_packet_ok(
            final_packet,
            *request,
            trimmed(request.problem@),
            canon_output_type(request.output_type@).unwrap(),
        );
    }
    match crate::debate_packet::validate_final_packet(&final_packet) {
        Ok(_u) => {},
        Err(e) => {
            proof {
                assert(false);
            }
            return Err(e);
        },
    }
    match advance_debate_state(&mut state, DebateState::Writeback) {
        Ok(_u) => {},
        Err(e) => {
            proof {
                assert(false);
            }
            return Err(e);
        },
    }
    let writeback_type = crate::debate_norm::select_writeback_record_type(
        (match &normalized.writeback_record_type {
            Some(w) => Some(w.as_str()),
            None => None,
        }),
        final_packet.output_type.as_str(),
    );
    let mut wb_title = String::from_str("Debate ");
    let upper = crate::text::upper_chars(&chars_vec(final_packet.output_type.as_str()));
    let upper_s = string_from_chars(&upper);
    wb_title.append(upper_s.as_str());
    wb_title.append(" - ");
    let psum = crate::util::summarize_text_line(final_packet.problem.as_str(), 56);
    wb_title.append(psum.as_str());
    let body = render_writeback_body(&final_packet);
    let today = due_today();
    let mut tags: Vec<String> = Vec::new();
    tags.push(String::from_str("debate"));
    tags.push(String::from_str("debate-v0.1"));
    tags.push(final_packet.output_type.clone());
    let mut run_tag = String::from_str("run:");
    run_tag.append(final_packet.run_id.as_str());
    tags.push(run_tag);
    let payload = crate::store::RecordPayload {
        record_type: writeback_type,
        title: wb_title,
        created_at: Some(final_packet.timestamps.finished_at.clone()),
        source_text: Some(final_packet.problem.clone()),
        final_body: Some(body),
        tags: Some(tags),
        date: Some(today),
        notion_page_id: None,
        notion_url: None,
        notion_sync_status: Some(String::from_str("SUCCESS")),
        notion_error: None,
        notion_last_synced_at: None,
        notion_last_edited_time: None,
        notion_last_synced_hash: None,
    };
    proof {
        let wt = crate::debate_norm::writeback_type_of(
            crate::records::opt_v(normalized.writeback_record_type),
            final_packet.output_type@,
        );
        assert(crate::records::is_canon_type(wt)) by {
            reveal_strlit("decision");
            reveal_strlit("worklog");
        }
        crate::records::lemma_canon_fixed(wt);
    }
    let plan = crate::store::plan_upsert(central_home, payload, None);
    let mut wb_ref = String::from_str("writeback:");
    wb_ref.append(plan.json_path.as_str());
    let ghost pre_evidence = final_packet.trace.evidence_refs@;
    let ghost wb_ref_view = wb_ref@;
    final_packet.trace.evidence_refs.push(wb_ref);
    proof {
        crate::util::lemma_strs_push(pre_evidence, final_packet.trace.evidence_refs@.last());
        assert(final_packet.trace.evidence_refs@ =~= pre_evidence.push(
            final_packet.trace.evidence_refs@.last(),
        ));
        assert(strs(final_packet.trace.evidence_refs@) =~= seq![
            crate::paths::joined(run_root@, "request.json"@),
            crate::paths::joined(run_root@, "consensus.json"@),
            "writeback:"@ + plan.json_path@,
        ]);
    }
    let finished_at = now_rfc3339();
    proof {
        crate::text::lemma_trimmed_nonblank(finished_at@);
    }
    final_packet.timestamps.finished_at = finished_at;
    proof {
        assert(crate::debate_packet::valid_packet(final_packet));
    }
    match crate::debate_packet::validate_final_packet(&final_packet) {
        Ok(_u) => {},
        Err(e) => {
            proof {
                assert(false);
            }
            return Err(e);
        },
    }
    let packet_markdown = crate::debate_packet::render_debate_packet_markdown(&final_packet);
    let run_row = DebateRunRow {
        run_id: run_id.clone(),
        output_type: final_packet.output_type.clone(),
        problem: final_packet.problem.clone(),
        consensus_score_milli: final_packet.consensus.consensus_score_milli,
        confidence_score_milli: final_packet.consensus.confidence_score_milli,
        selected_option: final_packet.decision.selected_option.clone(),
        degraded: ok < total,
        started_at: final_packet.timestamps.started_at.clone(),
        finished_at: final_packet.timestamps.finished_at.clone(),
        artifacts_root: run_root.clone(),
        final_packet_path: crate::paths::path_join(run_root.as_str(), "final-packet.json"),
        writeback_json_path: plan.json_path.clone(),
    };
    proof {
        assert(strs(codes@) == strs(normalized.warning_codes@) + turn_codes_of(rounds@));
    }
    let state_name: &'static str = match state {
        Some(s) => s.as_str(),
        None => "Intake",
    };
    let response = DebateModeResponse {
        run_id: run_id.clone(),
        mode: String::from_str("debate-v0.1"),
        state: String::from_str(state_name),
        degraded: ok < total,
        final_packet,
        artifacts_root: run_root,
        writeback_json_path: Some(plan.json_path.clone()),
        error_codes: crate::util::dedup_non_empty(codes),
    };
    Ok(
        DebateRunSuccess {
            response,
            normalized,
            rounds,
            request_artifact,
            packet_markdown,
            writeback: plan,
            run_row,
        },
    )
}

/// One successful turn makes the round's count positive.
pub proof fn lemma_ok_count_pos(turns: Seq<DebateTurn>, k: int)
    requires
        0 <= k < turns.len(),
        turns[k].status@ == "ok"@,
    ensures
        crate::debate_packet::ok_count(turns) >= 1,
    decreases turns.len(),
{
    crate::debate_packet::lemma_ok_count_bound(turns.drop_first());
    if k > 0 {
        assert(turns.drop_first()[k - 1] == turns[k]);
        lemma_ok_count_pos(turns.drop_first(), k - 1);
    }
}

/// Today, rendered `YYYY-MM-DD`.
fn due_today() -> (r: String)
    ensures
        crate::dates::valid_date_seq(r@),
{
    crate::debate_packet::due_after_days(0)
}

/// What makes the freshly assembled packet valid.
proof fn lemma_packet_ok(
    p: crate::debate_packet::DebateFinalPacket,
    request: crate::debate_norm::DebateModeRequest,
    problem_t: Seq<char>,
    out_t: Seq<char>,
)
    requires
        trimmed(p.run_id@) == p.run_id@,
        p.run_id@.len() > 0,
        p.problem@ == trimmed(request.problem@),
        trimmed(request.problem@).len() > 0,
        Some(p.output_type@) == canon_output_type(request.output_type@),
        p.participants@.len() == 5,
        forall|i: int|
            0 <= i < 5 ==> {
                let pp = #[trigger] p.participants@[i];
                &&& pp.role@ == role_str(crate::debate::role_order()[i])
                &&& trimmed(pp.model_provider@).len() > 0
                &&& trimmed(pp.model_name@).len() > 0
            },
        p.consensus.consensus_score_milli <= 1000,
        p.consensus.confidence_score_milli <= 1000,
        p.next_actions@.len() == 3,
        forall|i: int|
            0 <= i < 3 ==> (#[trigger] p.next_actions@[i]).owner@ == "me"@
                && crate::dates::valid_date_seq(p.next_actions@[i].due@) && trimmed(
                p.next_actions@[i].due@,
            ) == p.next_actions@[i].due@ && trimmed(p.next_actions@[i].id@) == p.next_actions@[i].id@
                && p.next_actions@[i].id@.len() > 0 && trimmed(p.next_actions@[i].action@).len()
                > 0,
        trimmed(p.timestamps.started_at@).len() > 0,
        trimmed(p.timestamps.finished_at@).len() > 0,
    ensures
        crate::debate_packet::valid_packet(p),
{
    crate::text::lemma_trimmed_idem(request.problem@);
    crate::debate_norm::lemma_canon_output_fixed(request.output_type@);
    assert forall|i: int| 0 <= i < 5 implies (crate::debate::parsed_role(
        (#[trigger] p.participants@[i]).role@,
    ) is Some) by {
        assert(i == 0 || i == 1 || i == 2 || i == 3 || i == 4);
        lemma_role_roundtrip(crate::debate::role_order()[i]);
    }
    assert forall|i: int, j: int| 0 <= i < j < 5 implies crate::debate::parsed_role(
        (#[trigger] p.participants@[i]).role@,
    ) != crate::debate::parsed_role((#[trigger] p.participants@[j]).role@) by {
        assert(i == 0 || i == 1 || i == 2 || i == 3 || i == 4);
        assert(j == 0 || j == 1 || j == 2 || j == 3 || j == 4);
        lemma_role_roundtrip(crate::debate::role_order()[i]);
        lemma_role_roundtrip(crate::debate::role_order()[j]);
        assert(crate::debate::role_order()[i] != crate::debate::role_order()[j]);
    }
    reveal_strlit("me");
    assert forall|i: int|
        0 <= i < p.next_actions@.len() implies trimmed(
        (#[trigger] p.next_actions@[i]).owner@,
    ).len() > 0 by {
        crate::text::lemma_trimmed_clean("me"@);
    }
    assert forall|i: int|
        0 <= i < p.next_actions@.len() implies crate::dates::valid_date_seq(
        trimmed((#[trigger] p.next_actions@[i]).due@),
    ) by {
    }
}


/// Replay's consistency verdict over a stored run.
pub struct DebateReplayConsistency {
    pub files_complete: bool,
    pub sql_indexed: bool,
    pub issues: Vec<String>,
}

/// The writeback paths a packet's evidence references.
pub open spec fn writeback_refs_of(evidence: Seq<Seq<char>>) -> Seq<Seq<char>>
    decreases evidence.len(),
{
    if evidence.len() == 0 {
        Seq::empty()
    } else {
        (if crate::text::starts_with_seq(evidence[0], "writeback:"@) {
            seq![evidence[0].skip(10)]
        } else {
            Seq::empty()
        }) + writeback_refs_of(evidence.drop_first())
    }
}

fn collect_writeback_refs(evidence: &Vec<String>, i: usize, out: &mut Vec<String>)
    requires
        i <= evidence.len(),
    ensures
        strs(final(out)@) == strs(old(out)@) + writeback_refs_of(
            strs(evidence@).skip(i as int),
        ),
    decreases evidence.len() - i,
{
    let ghost pre = strs(out@);
    let ghost rest = strs(evidence@).skip(i as int);
    if i == evidence.len() {
        proof {
            assert(pre + writeback_refs_of(rest) =~= pre);
        }
        return ;
    }
    proof {
        assert(rest[0] == strs(evidence@)[i as int]);
        assert(rest.drop_first() =~= strs(evidence@).skip(i + 1));
    }
    let ev = chars_vec(evidence[i].as_str());
    let prefix = chars_vec("writeback:");
    if crate::text::starts_with_chars(&ev, &prefix) {
        proof {
            reveal_strlit("writeback:");
        }
        let tail = crate::util::copy_range(&ev, 10, ev.len());
        out.push(string_from_chars(&tail));
        proof {
            assert(tail@ =~= strs(evidence@)[i as int].skip(10));
            assert(strs(out@) =~= pre.push(strs(evidence@)[i as int].skip(10)));
        }
        let ghost mid = strs(out@);
        collect_writeback_refs(evidence, i + 1, out);
        proof {
            assert(pre + writeback_refs_of(rest) =~= mid + writeback_refs_of(rest.drop_first()));
        }
    } else {
        collect_writeback_refs(evidence, i + 1, out);
    }
}

/// Extracts the writeback record paths from a packet's evidence list.
pub fn writeback_refs(evidence: &Vec<String>) -> (r: Vec<String>)
    ensures
        strs(r@) == writeback_refs_of(strs(evidence@)),
{
    let mut out: Vec<String> = Vec::new();
    collect_writeback_refs(evidence, 0, &mut out);
    proof {
        assert(strs(evidence@).skip(0) =~= strs(evidence@));
        assert(strs(Seq::<String>::empty()) =~= Seq::<Seq<char>>::empty());
    }
    out
}

/// Builds replay's consistency report: the run's six files must all exist,
/// the catalog counts must match the artifacts, and either catalog table
/// having rows marks the run as indexed. The caller collects the
/// missing-file issues while loading; the count mismatches are appended here.
pub fn build_replay_consistency(
    request_exists: bool,
    consensus_exists: bool,
    final_exists: bool,
    rounds_loaded: usize,
    loader_issues: Vec<String>,
    expected_turns: usize,
    indexed_turns: usize,
    expected_actions: usize,
    indexed_actions: usize,
) -> (r: DebateReplayConsistency)
    ensures
        r.files_complete == (request_exists && consensus_exists && final_exists && rounds_loaded
            == 3),
        r.sql_indexed == (indexed_turns > 0 || indexed_actions > 0),
        r.issues@.len() >= loader_issues@.len(),
        (indexed_turns == expected_turns && indexed_actions == expected_actions ==> strs(
            r.issues@,
        ) == strs(loader_issues@)),
        (indexed_turns != expected_turns ==> r.issues@.len() > loader_issues@.len()),
{
    let mut issues = loader_issues;
    if indexed_turns != expected_turns {
        let mut m = String::from_str("Turn count mismatch: file=");
        let a = crate::util::u64_to_string(expected_turns as u64);
        m.append(a.as_str());
        m.append(", sqlite=");
        let b = crate::util::u64_to_string(indexed_turns as u64);
        m.append(b.as_str());
        let ghost before = issues@;
        issues.push(m);
        proof {
            crate::util::lemma_strs_push(before, issues@.last());
        }
    }
    if indexed_actions != expected_actions {
        let mut m = String::from_str("Action count mismatch: file=");
        let a = crate::util::u64_to_string(expected_actions as u64);
        m.append(a.as_str());
        m.append(", sqlite=");
        let b = crate::util::u64_to_string(indexed_actions as u64);
        m.append(b.as_str());
        let ghost before = issues@;
        issues.push(m);
        proof {
            crate::util::lemma_strs_push(before, issues@.last());
        }
    }
    DebateReplayConsistency {
        files_complete: request_exists && consensus_exists && final_exists && rounds_loaded == 3,
        sql_indexed: indexed_turns > 0 || indexed_actions > 0,
        issues,
    }
}

/// The emptiness flags that fix a packet's JSON key layout.
pub open spec fn packet_shape_flags(p: crate::debate_packet::DebateFinalPacket) -> (
    bool,
    bool,
    bool,
    bool,
    bool,
    bool,
    bool,
    bool,
    bool,
    bool,
) {
    (
        p.constraints@.len() > 0,
        p.participants@.len() > 0,
        p.consensus.key_agreements@.len() > 0,
        p.consensus.key_disagreements@.len() > 0,
        p.decision.why_selected@.len() > 0,
        p.decision.rejected_options@.len() > 0,
        p.risks@.len() > 0,
        p.next_actions@.len() > 0,
        p.trace.round_refs@.len() > 0,
        p.trace.evidence_refs@.len() > 0,
    )
}

/// The first half of the key paths: identity, constraints, participants and
/// consensus.
pub open spec fn key_paths_head(
    f: (bool, bool, bool, bool, bool, bool, bool, bool, bool, bool),
) -> Seq<Seq<char>> {
    seq!["runId"@, "mode"@, "problem"@, "constraints"@] + (if f.0 {
        seq!["constraints[0]"@]
    } else {
        Seq::<Seq<char>>::empty()
    }) + seq!["outputType"@, "participants"@] + (if f.1 {
        seq![
            "participants[0]"@,
            "participants[0].role"@,
            "participants[0].modelProvider"@,
            "participants[0].modelName"@,
        ]
    } else {
        Seq::<Seq<char>>::empty()
    }) + seq![
        "consensus"@,
        "consensus.consensusScore"@,
        "consensus.confidenceScore"@,
        "consensus.keyAgreements"@,
    ] + (if f.2 {
        seq!["consensus.keyAgreements[0]"@]
    } else {
        Seq::<Seq<char>>::empty()
    }) + seq!["consensus.keyDisagreements"@] + (if f.3 {
        seq!["consensus.keyDisagreements[0]"@]
    } else {
        Seq::<Seq<char>>::empty()
    })
}

/// The second half: decision, risks, actions, trace and timestamps.
pub open spec fn key_paths_tail(
    f: (bool, bool, bool, bool, bool, bool, bool, bool, bool, bool),
) -> Seq<Seq<char>> {
    key_paths_tail_a(f) + key_paths_tail_b(f)
}

/// Decision and risk paths.
pub open spec fn key_paths_tail_a(
    f: (bool, bool, bool, bool, bool, bool, bool, bool, bool, bool),
) -> Seq<Seq<char>> {
    seq!["decision"@, "decision.selectedOption"@, "decision.whySelected"@] + (if f.4 {
        seq!["decision.whySelected[0]"@]
    } else {
        Seq::<Seq<char>>::empty()
    }) + seq!["decision.rejectedOptions"@] + (if f.5 {
        seq![
            "decision.rejectedOptions[0]"@,
            "decision.rejectedOptions[0].option"@,
            "decision.rejectedOptions[0].reason"@,
        ]
    } else {
        Seq::<Seq<char>>::empty()
    }) + seq!["risks"@] + (if f.6 {
        seq!["risks[0]"@, "risks[0].risk"@, "risks[0].severity"@, "risks[0].mitigation"@]
    } else {
        Seq::<Seq<char>>::empty()
    })
}

/// Action, trace and timestamp paths.
pub open spec fn key_paths_tail_b(
    f: (bool, bool, bool, bool, bool, bool, bool, bool, bool, bool),
) -> Seq<Seq<char>> {
    seq!["nextActions"@] + (if f.7 {
        seq![
            "nextActions[0]"@,
            "nextActions[0].id"@,
            "nextActions[0].action"@,
            "nextActions[0].owner"@,
            "nextActions[0].due"@,
        ]
    } else {
        Seq::<Seq<char>>::empty()
    }) + seq!["trace"@, "trace.roundRefs"@] + (if f.8 {
        seq!["trace.roundRefs[0]"@]
    } else {
        Seq::<Seq<char>>::empty()
    }) + seq!["trace.evidenceRefs"@] + (if f.9 {
        seq!["trace.evidenceRefs[0]"@]
    } else {
        Seq::<Seq<char>>::empty()
    }) + seq!["timestamps"@, "timestamps.startedAt"@, "timestamps.finishedAt"@]
}

/// The key paths of a packet's serialized form, a function of its shape flags
/// alone.
pub open spec fn key_paths_spec(
    f: (bool, bool, bool, bool, bool, bool, bool, bool, bool, bool),
) -> Seq<Seq<char>> {
    key_paths_head(f) + key_paths_tail(f)
}

fn push_key_paths_head(p: &crate::debate_packet::DebateFinalPacket, out: &mut Vec<String>)
    requires
        old(out)@.len() == 0,
    ensures
        strs(final(out)@) == key_paths_head(packet_shape_flags(*p)),
{
    out.push(String::from_str("runId"));
    out.push(String::from_str("mode"));
    out.push(String::from_str("problem"));
    out.push(String::from_str("constraints"));
    if p.constraints.len() > 0 {
        out.push(String::from_str("constraints[0]"));
    }
    out.push(String::from_str("outputType"));
    out.push(String::from_str("participants"));
    if p.participants.len() > 0 {
        out.push(String::from_str("participants[0]"));
        out.push(String::from_str("participants[0].role"));
        out.push(String::from_str("participants[0].modelProvider"));
        out.push(String::from_str("participants[0].modelName"));
    }
    out.push(String::from_str("consensus"));
    out.push(String::from_str("consensus.consensusScore"));
    out.push(String::from_str("consensus.confidenceScore"));
    out.push(String::from_str("consensus.keyAgreements"));
    if p.consensus.key_agreements.len() > 0 {
        out.push(String::from_str("consensus.keyAgreements[0]"));
    }
    out.push(String::from_str("consensus.keyDisagreements"));
    if p.consensus.key_disagreements.len() > 0 {
        out.push(String::from_str("consensus.keyDisagreements[0]"));
    }
    proof {
        assert(strs(out@) =~= key_paths_head(packet_shape_flags(*p)));
    }
}

fn push_key_paths_tail_a(p: &crate::debate_packet::DebateFinalPacket, out: &mut Vec<String>)
    ensures
        strs(final(out)@) == strs(old(out)@) + key_paths_tail_a(packet_shape_flags(*p)),
{
    let ghost pre = strs(out@);
    out.push(String::from_str("decision"));
    out.push(String::from_str("decision.selectedOption"));
    out.push(String::from_str("decision.whySelected"));
    if p.decision.why_selected.len() > 0 {
        out.push(String::from_str("decision.whySelected[0]"));
    }
    out.push(String::from_str("decision.rejectedOptions"));
    if p.decision.rejected_options.len() > 0 {
        out.push(String::from_str("decision.rejectedOptions[0]"));
        out.push(String::from_str("decision.rejectedOptions[0].option"));
        out.push(String::from_str("decision.rejectedOptions[0].reason"));
    }
    out.push(String::from_str("risks"));
    if p.risks.len() > 0 {
        out.push(String::from_str("risks[0]"));
        out.push(String::from_str("risks[0].risk"));
        out.push(String::from_str("risks[0].severity"));
        out.push(String::from_str("risks[0].mitigation"));
    }
    proof {
        assert(strs(out@) =~= pre + key_paths_tail_a(packet_shape_flags(*p)));
    }
}

fn push_key_paths_tail_b(p: &crate::debate_packet::DebateFinalPacket, out: &mut Vec<String>)
    ensures
        strs(final(out)@) == strs(old(out)@) + key_paths_tail_b(packet_shape_flags(*p)),
{
    let ghost pre = strs(out@);
    out.push(String::from_str("nextActions"));
    if p.next_actions.len() > 0 {
        out.push(String::from_str("nextActions[0]"));
        out.push(String::from_str("nextActions[0].id"));
        out.push(String::from_str("nextActions[0].action"));
        out.push(String::from_str("nextActions[0].owner"));
        out.push(String::from_str("nextActions[0].due"));
    }
    out.push(String::from_str("trace"));
    out.push(String::from_str("trace.roundRefs"));
    if p.trace.round_refs.len() > 0 {
        out.push(String::from_str("trace.roundRefs[0]"));
    }
    out.push(String::from_str("trace.evidenceRefs"));
    if p.trace.evidence_refs.len() > 0 {
        out.push(String::from_str("trace.evidenceRefs[0]"));
    }
    out.push(String::from_str("timestamps"));
    out.push(String::from_str("timestamps.startedAt"));
    out.push(String::from_str("timestamps.finishedAt"));
    proof {
        assert(strs(out@) =~= pre + key_paths_tail_b(packet_shape_flags(*p)));
    }
}

/// The key paths of a packet's serialized form: every object key, and the
/// first element of each non-empty list.
pub fn packet_key_paths(p: &crate::debate_packet::DebateFinalPacket) -> (r: Vec<String>)
    ensures
        strs(r@) == key_paths_spec(packet_shape_flags(*p)),
{
    let mut out: Vec<String> = Vec::new();
    push_key_paths_head(p, &mut out);
    push_key_paths_tail_a(p, &mut out);
    push_key_paths_tail_b(p, &mut out);
    proof {
        assert(strs(out@) =~= key_paths_spec(packet_shape_flags(*p)));
    }
    out
}

/// Two packets with the same shape flags lay out the same key paths: the
/// packet's serialized shape is frozen.
pub proof fn lemma_packet_shape_stable(
    a: crate::debate_packet::DebateFinalPacket,
    b: crate::debate_packet::DebateFinalPacket,
)
    requires
        packet_shape_flags(a) == packet_shape_flags(b),
    ensures
        key_paths_spec(packet_shape_flags(a)) == key_paths_spec(packet_shape_flags(b)),
{
}

} // verus!
