//! Turn records and their construction: the per-turn protocol, the second
//! round's cross-examination, the third round's revisions, the deterministic
//! local generator and the provider prompt.

use vstd::prelude::*;
use vstd::string::{StringExecFns, StrSliceExecFns};
use crate::debate::{round_str, role_str, DebateRole, DebateRound};
use crate::debate_norm::DebateNormalizedRequest;
use crate::records::{clone_opt, clone_strings, opt_v};
use crate::text::{chars_eq, chars_vec};
use crate::util::{dedup_non_empty, dedup_spec, join_sep, join_with, strs, summarize_text_line, summary_line};

verus! {

pub struct DebateChallenge {
    pub source_role: String,
    pub target_role: String,
    pub question: String,
    pub response: String,
}

pub struct DebateTurn {
    pub role: String,
    pub round: String,
    pub model_provider: String,
    pub model_name: String,
    pub status: String,
    pub claim: String,
    pub rationale: String,
    pub risks: Vec<String>,
    pub challenges: Vec<DebateChallenge>,
    pub revisions: Vec<String>,
    pub target_role: Option<String>,
    pub duration_ms: u64,
    pub error_code: Option<String>,
    pub error_message: Option<String>,
    pub started_at: String,
    pub finished_at: String,
}

pub struct DebateRoundArtifact {
    pub round: String,
    pub turns: Vec<DebateTurn>,
    pub started_at: String,
    pub finished_at: String,
}

pub open spec fn challenge_like(a: DebateChallenge, b: DebateChallenge) -> bool {
    a.source_role@ == b.source_role@ && a.target_role@ == b.target_role@ && a.question@
        == b.question@ && a.response@ == b.response@
}

pub open spec fn challenges_like(a: Seq<DebateChallenge>, b: Seq<DebateChallenge>) -> bool {
    a.len() == b.len() && forall|i: int| 0 <= i < a.len() ==> challenge_like(#[trigger] a[i], b[i])
}

pub open spec fn opt_seq_eq(a: Option<String>, b: Option<String>) -> bool {
    opt_v(a) == opt_v(b)
}

/// Two turns carry the same values.
pub open spec fn turn_like(a: DebateTurn, b: DebateTurn) -> bool {
    &&& a.role@ == b.role@
    &&& a.round@ == b.round@
    &&& a.model_provider@ == b.model_provider@
    &&& a.model_name@ == b.model_name@
    &&& a.status@ == b.status@
    &&& a.claim@ == b.claim@
    &&& a.rationale@ == b.rationale@
    &&& strs(a.risks@) == strs(b.risks@)
    &&& challenges_like(a.challenges@, b.challenges@)
    &&& strs(a.revisions@) == strs(b.revisions@)
    &&& opt_seq_eq(a.target_role, b.target_role)
    &&& a.duration_ms == b.duration_ms
    &&& opt_seq_eq(a.error_code, b.error_code)
    &&& opt_seq_eq(a.error_message, b.error_message)
    &&& a.started_at@ == b.started_at@
    &&& a.finished_at@ == b.finished_at@
}

pub fn clone_challenge(c: &DebateChallenge) -> (r: DebateChallenge)
    ensures
        challenge_like(r, *c),
{
    DebateChallenge {
        source_role: c.source_role.clone(),
        target_role: c.target_role.clone(),
        question: c.question.clone(),
        response: c.response.clone(),
    }
}

pub fn clone_challenges(cs: &Vec<DebateChallenge>) -> (r: Vec<DebateChallenge>)
    ensures
        challenges_like(r@, cs@),
{
    let mut r: Vec<DebateChallenge> = Vec::new();
    let mut i: usize = 0;
    while i < cs.len()
        invariant
            i <= cs.len(),
            r@.len() == i,
            forall|k: int| 0 <= k < i ==> challenge_like(#[trigger] r@[k], cs@[k]),
        decreases cs.len() - i,
    {
        r.push(clone_challenge(&cs[i]));
        i = i + 1;
    }
    r
}

pub fn clone_turn(t: &DebateTurn) -> (r: DebateTurn)
    ensures
        turn_like(r, *t),
{
    DebateTurn {
        role: t.role.clone(),
        round: t.round.clone(),
        model_provider: t.model_provider.clone(),
        model_name: t.model_name.clone(),
        status: t.status.clone(),
        claim: t.claim.clone(),
        rationale: t.rationale.clone(),
        risks: clone_strings(&t.risks),
        challenges: clone_challenges(&t.challenges),
        revisions: clone_strings(&t.revisions),
        target_role: clone_opt(&t.target_role),
        duration_ms: t.duration_ms,
        error_code: clone_opt(&t.error_code),
        error_message: clone_opt(&t.error_message),
        started_at: t.started_at.clone(),
        finished_at: t.finished_at.clone(),
    }
}

/// The first round artifact with this name.
pub open spec fn found_artifact(rounds: Seq<DebateRoundArtifact>, rname: Seq<char>) -> Option<
    DebateRoundArtifact,
>
    decreases rounds.len(),
{
    if rounds.len() == 0 {
        None
    } else if rounds[0].round@ == rname {
        Some(rounds[0])
    } else {
        found_artifact(rounds.drop_first(), rname)
    }
}

/// The first successful turn of this role.
pub open spec fn found_ok_turn(turns: Seq<DebateTurn>, role: Seq<char>) -> Option<DebateTurn>
    decreases turns.len(),
{
    if turns.len() == 0 {
        None
    } else if turns[0].role@ == role && turns[0].status@ == "ok"@ {
        Some(turns[0])
    } else {
        found_ok_turn(turns.drop_first(), role)
    }
}

/// The successful turn a role took in a round, when there is one.
pub open spec fn found_turn(
    rounds: Seq<DebateRoundArtifact>,
    round: DebateRound,
    role: DebateRole,
) -> Option<DebateTurn> {
    match found_artifact(rounds, round_str(round)) {
        Some(a) => found_ok_turn(a.turns@, role_str(role)),
        None => None,
    }
}

fn find_ok_turn_in(turns: &Vec<DebateTurn>, i: usize, role: &str) -> (r: Option<DebateTurn>)
    requires
        i <= turns.len(),
    ensures
        (match (r, found_ok_turn(turns@.skip(i as int), role@)) {
            (Some(a), Some(b)) => turn_like(a, b),
            (None, None) => true,
            _ => false,
        }),
    decreases turns.len() - i,
{
    if i == turns.len() {
        return None;
    }
    proof {
        assert(turns@.skip(i as int)[0] == turns@[i as int]);
        assert(turns@.skip(i as int).drop_first() =~= turns@.skip(i + 1));
    }
    let rv = chars_vec(turns[i].role.as_str());
    let want = chars_vec(role);
    let sv = chars_vec(turns[i].status.as_str());
    let ok = chars_vec("ok");
    if chars_eq(&rv, &want) && chars_eq(&sv, &ok) {
        Some(clone_turn(&turns[i]))
    } else {
        find_ok_turn_in(turns, i + 1, role)
    }
}

fn find_artifact_in(rounds: &Vec<DebateRoundArtifact>, i: usize, rname: &str) -> (r: Option<usize>)
    requires
        i <= rounds.len(),
    ensures
        (r matches Some(j) ==> i <= j < rounds@.len() && found_artifact(
            rounds@.skip(i as int),
            rname@,
        ) == Some(rounds@[j as int])),
        r is None ==> found_artifact(rounds@.skip(i as int), rname@) is None,
    decreases rounds.len() - i,
{
    if i == rounds.len() {
        return None;
    }
    proof {
        assert(rounds@.skip(i as int)[0] == rounds@[i as int]);
        assert(rounds@.skip(i as int).drop_first() =~= rounds@.skip(i + 1));
    }
    let rv = chars_vec(rounds[i].round.as_str());
    let want = chars_vec(rname);
    if chars_eq(&rv, &want) {
        Some(i)
    } else {
        find_artifact_in(rounds, i + 1, rname)
    }
}

/// Finds a role's successful turn in a round's artifact.
pub fn find_turn(rounds: &Vec<DebateRoundArtifact>, round: DebateRound, role: DebateRole) -> (r:
    Option<DebateTurn>)
    ensures
        (match (r, found_turn(rounds@, round, role)) {
            (Some(a), Some(b)) => turn_like(a, b),
            (None, None) => true,
            _ => false,
        }),
{
    proof {
        assert(rounds@.skip(0) =~= rounds@);
    }
    match find_artifact_in(rounds, 0, round.as_str()) {
        Some(j) => {
            proof {
                assert(rounds@[j as int].turns@.skip(0) =~= rounds@[j as int].turns@);
            }
            find_ok_turn_in(&rounds[j].turns, 0, role.as_str())
        },
        None => None,
    }
}

/// The claim a second-round challenge quotes from its target's opening turn.
pub open spec fn target_claim_of(prev: Seq<DebateRoundArtifact>, target: DebateRole) -> Seq<char> {
    match found_turn(prev, DebateRound::Round1, target) {
        Some(t) => summary_line(t.claim@, 140),
        None => "missing target claim"@,
    }
}

/// Builds the cross-examination challenge of a second-round turn.
pub fn build_round2_challenges(
    role: DebateRole,
    target_role: Option<DebateRole>,
    text: &str,
    previous_rounds: &Vec<DebateRoundArtifact>,
) -> (r: Vec<DebateChallenge>)
    ensures
        target_role is None ==> r@.len() == 0,
        (target_role matches Some(t) ==> r@.len() == 1 && {
            let c = r@[0];
            &&& c.source_role@ == role_str(role)
            &&& c.target_role@ == role_str(t)
            &&& c.question@ == "How does "@ + role_str(t)
                + " defend this claim under failure conditions: "@ + target_claim_of(
                previous_rounds@,
                t,
            )
            &&& c.response@ == summary_line(text@, 180)
        }),
{
    let target = match target_role {
        Some(t) => t,
        None => {
            let r: Vec<DebateChallenge> = Vec::new();
            return r;
        },
    };
    let target_claim: String = match find_turn(previous_rounds, DebateRound::Round1, target) {
        Some(t) => summarize_text_line(t.claim.as_str(), 140),
        None => String::from_str("missing target claim"),
    };
    let mut question = String::from_str("How does ");
    question.append(target.as_str());
    question.append(" defend this claim under failure conditions: ");
    question.append(target_claim.as_str());
    proof {
        reveal_strlit("How does ");
        reveal_strlit(" defend this claim under failure conditions: ");
        reveal_strlit("missing target claim");
        assert(question@ =~= "How does "@ + role_str(target)
            + " defend this claim under failure conditions: "@ + target_claim_of(
            previous_rounds@,
            target,
        ));
    }
    let mut r: Vec<DebateChallenge> = Vec::new();
    r.push(
        DebateChallenge {
            source_role: String::from_str(role.as_str()),
            target_role: String::from_str(target.as_str()),
            question,
            response: summarize_text_line(text, 180),
        },
    );
    r
}

/// The reference a third-round revision makes to the role's own challenge.
pub open spec fn revision_ref_of(prev: Seq<DebateRoundArtifact>, role: DebateRole) -> Seq<char> {
    match found_turn(prev, DebateRound::Round2, role) {
        Some(t) => if t.challenges@.len() > 0 {
            "Addressed challenge to "@ + t.challenges@[0].target_role@
        } else {
            "No challenge data available"@
        },
        None => "No challenge data available"@,
    }
}

/// Builds the deduplicated revision notes of a third-round turn.
pub fn build_round3_revisions(
    role: DebateRole,
    text: &str,
    previous_rounds: &Vec<DebateRoundArtifact>,
) -> (r: Vec<String>)
    ensures
        strs(r@) == dedup_spec(
            seq![
                revision_ref_of(previous_rounds@, role),
                summary_line(text@, 180),
                "Added explicit risk mitigation and execution checkpoints."@,
            ],
            Seq::empty(),
        ),
{
    let challenge_ref: String = match find_turn(previous_rounds, DebateRound::Round2, role) {
        Some(t) => {
            if t.challenges.len() > 0 {
                let mut s = String::from_str("Addressed challenge to ");
                s.append(t.challenges[0].target_role.as_str());
                proof {
                    reveal_strlit("Addressed challenge to ");
                    assert(s@ =~= "Addressed challenge to "@
                        + t.challenges@[0].target_role@);
                }
                s
            } else {
                String::from_str("No challenge data available")
            }
        },
        None => String::from_str("No challenge data available"),
    };
    let ghost cref = challenge_ref@;
    let mut items: Vec<String> = Vec::new();
    items.push(challenge_ref);
    items.push(summarize_text_line(text, 180));
    items.push(String::from_str("Added explicit risk mitigation and execution checkpoints."));
    proof {
        reveal_strlit("No challenge data available");
        assert(cref == revision_ref_of(previous_rounds@, role));
        assert(strs(items@) =~= seq![
            revision_ref_of(previous_rounds@, role),
            summary_line(text@, 180),
            "Added explicit risk mitigation and execution checkpoints."@,
        ]);
    }
    dedup_non_empty(items)
}

/// The deterministic text of a local or web-stub turn.
pub open spec fn local_text_of(
    role: DebateRole,
    round: DebateRound,
    target: Option<DebateRole>,
    problem: Seq<char>,
    constraints: Seq<Seq<char>>,
    prev: Seq<DebateRoundArtifact>,
) -> Seq<char> {
    let focus = summary_line(problem, 80);
    match round {
        DebateRound::Round1 => {
            let cons = if constraints.len() == 0 {
                "no explicit constraints"@
            } else {
                join_sep(constraints, "; "@)
            };
            "Claim: "@ + role_str(role) + " perspective recommends a practical path for "@ + focus
                + ".\nRationale: Prioritize local-first traceability and fast operator control under "@
                + cons + ".\nRisks: hidden assumptions may survive without explicit cross-check."@
        },
        DebateRound::Round2 => {
            let tname = (match target {
                Some(t) => role_str(t),
                None => "peer"@,
            });
            "Claim: "@ + role_str(role) + " challenges "@ + tname
                + " on evidence depth.\nRationale: Ask for concrete trade-offs, not generic statements.\nRisks: without challenge quality, consensus may converge too early."@
        },
        DebateRound::Round3 => {
            let prior = (match found_turn(prev, DebateRound::Round2, role) {
                Some(t) => summary_line(t.claim@, 120),
                None => "cross-examination feedback"@,
            });
            "Claim: "@ + role_str(role)
                + " revised position keeps local-first execution and adds guardrails.\nRationale: Revision incorporates '"@
                + prior
                + "'.\nRisks: operational overhead increases if writeback contracts are not automated."@
        },
    }
}

/// Generates the local stub's turn text.
pub fn generate_local_debate_text(
    role: DebateRole,
    round: DebateRound,
    target_role: Option<DebateRole>,
    request: &DebateNormalizedRequest,
    previous_rounds: &Vec<DebateRoundArtifact>,
) -> (r: String)
    ensures
        r@ == local_text_of(
            role,
            round,
            target_role,
            request.problem@,
            strs(request.constraints@),
            previous_rounds@,
        ),
{
    let focus = summarize_text_line(request.problem.as_str(), 80);
    match round {
        DebateRound::Round1 => {
            let cons = if request.constraints.len() == 0 {
                String::from_str("no explicit constraints")
            } else {
                join_with(&request.constraints, "; ")
            };
            let mut s = String::from_str("Claim: ");
            s.append(role.as_str());
            s.append(" perspective recommends a practical path for ");
            s.append(focus.as_str());
            s.append(
                ".\nRationale: Prioritize local-first traceability and fast operator control under ",
            );
            s.append(cons.as_str());
            s.append(".\nRisks: hidden assumptions may survive without explicit cross-check.");
            proof {
                reveal_strlit("no explicit constraints");
                assert(s@ =~= local_text_of(
                    role,
                    round,
                    target_role,
                    request.problem@,
                    strs(request.constraints@),
                    previous_rounds@,
                ));
            }
            s
        },
        DebateRound::Round2 => {
            let mut s = String::from_str("Claim: ");
            s.append(role.as_str());
            s.append(" challenges ");
            match target_role {
                Some(t) => {
                    s.append(t.as_str());
                },
                None => {
                    s.append("peer");
                },
            }
            s.append(
                " on evidence depth.\nRationale: Ask for concrete trade-offs, not generic statements.\nRisks: without challenge quality, consensus may converge too early.",
            );
            proof {
                assert(s@ =~= local_text_of(
                    role,
                    round,
                    target_role,
                    request.problem@,
                    strs(request.constraints@),
                    previous_rounds@,
                ));
            }
            s
        },
        DebateRound::Round3 => {
            let prior: String = match find_turn(previous_rounds, DebateRound::Round2, role) {
                Some(t) => summarize_text_line(t.claim.as_str(), 120),
                None => String::from_str("cross-examination feedback"),
            };
            let mut s = String::from_str("Claim: ");
            s.append(role.as_str());
            s.append(
                " revised position keeps local-first execution and adds guardrails.\nRationale: Revision incorporates '",
            );
            s.append(prior.as_str());
            s.append(
                "'.\nRisks: operational overhead increases if writeback contracts are not automated.",
            );
            proof {
                reveal_strlit("cross-examination feedback");
                assert(s@ =~= local_text_of(
                    role,
                    round,
                    target_role,
                    request.problem@,
                    strs(request.constraints@),
                    previous_rounds@,
                ));
            }
            s
        },
    }
}

/// The digest of every prior successful turn, one line each.
pub open spec fn ctx_lines_of(rounds: Seq<DebateRoundArtifact>) -> Seq<Seq<char>>
    decreases rounds.len(),
{
    if rounds.len() == 0 {
        Seq::empty()
    } else {
        artifact_ctx_lines(rounds[0].round@, rounds[0].turns@) + ctx_lines_of(rounds.drop_first())
    }
}

pub open spec fn artifact_ctx_lines(rname: Seq<char>, turns: Seq<DebateTurn>) -> Seq<Seq<char>>
    decreases turns.len(),
{
    if turns.len() == 0 {
        Seq::empty()
    } else {
        (if turns[0].status@ == "ok"@ {
            seq![rname + " / "@ + turns[0].role@ + ": "@ + summary_line(turns[0].claim@, 120)]
        } else {
            Seq::empty()
        }) + artifact_ctx_lines(rname, turns.drop_first())
    }
}

fn collect_turn_lines(rname: &str, turns: &Vec<DebateTurn>, i: usize, out: &mut Vec<String>)
    requires
        i <= turns.len(),
    ensures
        strs(final(out)@) == strs(old(out)@) + artifact_ctx_lines(
            rname@,
            turns@.skip(i as int),
        ),
    decreases turns.len() - i,
{
    let ghost pre = strs(out@);
    let ghost rest = turns@.skip(i as int);
    if i == turns.len() {
        proof {
            assert(pre + artifact_ctx_lines(rname@, rest) =~= pre);
        }
        return ;
    }
    proof {
        assert(rest[0] == turns@[i as int]);
        assert(rest.drop_first() =~= turns@.skip(i + 1));
    }
    let sv = chars_vec(turns[i].status.as_str());
    if chars_eq(&sv, &chars_vec("ok")) {
        let mut line = String::from_str(rname);
        line.append(" / ");
        line.append(turns[i].role.as_str());
        line.append(": ");
        let sum = summarize_text_line(turns[i].claim.as_str(), 120);
        line.append(sum.as_str());
        proof {
            assert(line@ =~= rname@ + " / "@ + turns@[i as int].role@ + ": "@ + summary_line(
                turns@[i as int].claim@,
                120,
            ));
        }
        out.push(line);
        proof {
            assert(strs(out@) =~= pre.push(rname@ + " / "@ + turns@[i as int].role@ + ": "@
                + summary_line(turns@[i as int].claim@, 120)));
        }
        let ghost mid = strs(out@);
        collect_turn_lines(rname, turns, i + 1, out);
        proof {
            assert(pre + artifact_ctx_lines(rname@, rest) =~= mid + artifact_ctx_lines(
                rname@,
                rest.drop_first(),
            ));
        }
    } else {
        collect_turn_lines(rname, turns, i + 1, out);
    }
}

fn collect_ctx_lines(rounds: &Vec<DebateRoundArtifact>, i: usize, out: &mut Vec<String>)
    requires
        i <= rounds.len(),
    ensures
        strs(final(out)@) == strs(old(out)@) + ctx_lines_of(rounds@.skip(i as int)),
    decreases rounds.len() - i,
{
    let ghost pre = strs(out@);
    let ghost rest = rounds@.skip(i as int);
    if i == rounds.len() {
        proof {
            assert(pre + ctx_lines_of(rest) =~= pre);
        }
        return ;
    }
    proof {
        assert(rest[0] == rounds@[i as int]);
        assert(rest.drop_first() =~= rounds@.skip(i + 1));
        assert(rounds@[i as int].turns@.skip(0) =~= rounds@[i as int].turns@);
    }
    collect_turn_lines(rounds[i].round.as_str(), &rounds[i].turns, 0, out);
    let ghost mid = strs(out@);
    collect_ctx_lines(rounds, i + 1, out);
    proof {
        assert(pre + ctx_lines_of(rest) =~= mid + ctx_lines_of(rest.drop_first()));
    }
}

/// The instruction a round carries in the provider prompt.
pub open spec fn round_instruction(round: DebateRound) -> Seq<char> {
    match round {
        DebateRound::Round1 => "Provide opening position with claim, rationale, and key risks."@,
        DebateRound::Round2 => "Challenge another role's position with concrete questions and weak points."@,
        DebateRound::Round3 => "Revise your position based on cross-examination and provide final stance."@,
    }
}

/// The full prompt a hosted or CLI provider receives for one turn.
pub open spec fn prompt_of(
    role: DebateRole,
    round: DebateRound,
    target: Option<DebateRole>,
    problem: Seq<char>,
    output_type: Seq<char>,
    constraints: Seq<Seq<char>>,
    prev: Seq<DebateRoundArtifact>,
) -> Seq<char> {
    let cons = if constraints.len() == 0 {
        "- none"@
    } else {
        join_sep(constraints.map_values(|c: Seq<char>| "- "@ + c), "\n"@)
    };
    let ctx = ctx_lines_of(prev);
    let prior = if ctx.len() == 0 {
        "none"@
    } else {
        join_sep(ctx, "\n"@)
    };
    let tname = (match target {
        Some(t) => role_str(t),
        None => "-"@,
    });
    "You are role "@ + role_str(role) + ". Problem: "@ + problem + "\nOutput type: "@ + output_type
        + "\nConstraints:\n"@ + cons + "\nTarget role: "@ + tname + "\nRound instruction: "@
        + round_instruction(round) + "\nPrior context:\n"@ + prior
        + "\n\nReturn concise markdown in this shape:\nClaim: ...\nRationale: ...\nRisks: ..."@
}

/// Builds the provider prompt for one turn.
pub fn build_debate_provider_prompt(
    role: DebateRole,
    round: DebateRound,
    target_role: Option<DebateRole>,
    request: &DebateNormalizedRequest,
    previous_rounds: &Vec<DebateRoundArtifact>,
) -> (r: String)
    ensures
        r@ == prompt_of(
            role,
            round,
            target_role,
            request.problem@,
            request.output_type@,
            strs(request.constraints@),
            previous_rounds@,
        ),
{
    let cons: String = if request.constraints.len() == 0 {
        String::from_str("- none")
    } else {
        let mut dashed: Vec<String> = Vec::new();
        let mut i: usize = 0;
        while i < request.constraints.len()
            invariant
                i <= request.constraints.len(),
                strs(dashed@) == strs(request.constraints@.subrange(0, i as int)).map_values(
                    |c: Seq<char>| "- "@ + c,
                ),
            decreases request.constraints.len() - i,
        {
            let mut line = String::from_str("- ");
            line.append(request.constraints[i].as_str());
            let ghost pre = strs(dashed@);
            dashed.push(line);
            i = i + 1;
            proof {
                assert(strs(request.constraints@.subrange(0, i as int)) =~= strs(
                    request.constraints@.subrange(0, i - 1),
                ).push(request.constraints@[i - 1]@));
                assert(strs(request.constraints@.subrange(0, i - 1)).push(
                    request.constraints@[i - 1]@,
                ).map_values(|c: Seq<char>| "- "@ + c) =~= strs(
                    request.constraints@.subrange(0, i - 1),
                ).map_values(|c: Seq<char>| "- "@ + c).push("- "@ + request.constraints@[i - 1]@));
                assert(strs(dashed@) =~= pre.push("- "@ + request.constraints@[i - 1]@));
            }
        }
        proof {
            assert(request.constraints@.subrange(0, request.constraints@.len() as int)
                =~= request.constraints@);
        }
        join_with(&dashed, "\n")
    };
    let mut ctx: Vec<String> = Vec::new();
    collect_ctx_lines(previous_rounds, 0, &mut ctx);
    proof {
        assert(previous_rounds@.skip(0) =~= previous_rounds@);
        assert(strs(Seq::<String>::empty()) =~= Seq::<Seq<char>>::empty());
    }
    let prior: String = if ctx.len() == 0 {
        String::from_str("none")
    } else {
        join_with(&ctx, "\n")
    };
    let mut s = String::from_str("You are role ");
    s.append(role.as_str());
    s.append(". Problem: ");
    s.append(request.problem.as_str());
    s.append("\nOutput type: ");
    s.append(request.output_type.as_str());
    s.append("\nConstraints:\n");
    s.append(cons.as_str());
    s.append("\nTarget role: ");
    match target_role {
        Some(t) => {
            s.append(t.as_str());
        },
        None => {
            s.append("-");
        },
    }
    s.append("\nRound instruction: ");
    match round {
        DebateRound::Round1 => {
            s.append("Provide opening position with claim, rationale, and key risks.");
        },
        DebateRound::Round2 => {
            s.append("Challenge another role's position with concrete questions and weak points.");
        },
        DebateRound::Round3 => {
            s.append("Revise your position based on cross-examination and provide final stance.");
        },
    }
    s.append("\nPrior context:\n");
    s.append(prior.as_str());
    s.append("\n\nReturn concise markdown in this shape:\nClaim: ...\nRationale: ...\nRisks: ...");
    proof {
        reveal_strlit("- none");
        reveal_strlit("none");
        assert(s@ =~= prompt_of(
            role,
            round,
            target_role,
            request.problem@,
            request.output_type@,
            strs(request.constraints@),
            previous_rounds@,
        ));
    }
    s
}

} // verus!
