//! The Final Packet: consensus scoring, the decision, risks and actions, the
//! packet validator and its markdown rendering. Scores are carried in
//! thousandths, the packet's three-decimal precision.

use vstd::prelude::*;
use vstd::string::{StringExecFns, StrSliceExecFns};
use crate::clock::now_stamp;
use crate::dates::{format_ymd, lemma_plus_days_valid, lemma_ymd_seq_valid, valid_date_seq, valid_ymd, ymd_seq};
use crate::debate::{parsed_role, parse_debate_role, DebateRole, DebateRound, debate_error};
use crate::debate_norm::{canon_output_type, DebateNormalizedRequest};
use crate::debate_text::{severity_of, classify_risk_severity};
use crate::debate_turns::{found_turn, find_turn, DebateRoundArtifact, DebateTurn};
use crate::text::{chars_eq, chars_vec, is_blank, starts_with_seq, string_from_chars, trimmed};
use crate::util::{dedup_non_empty, dedup_spec, join_sep, join_with, strs, summarize_text_line, summary_line, u64_to_string, zero_padded, dec_str, u64_zero_padded};

verus! {

pub struct DebatePacketParticipant {
    pub role: String,
    pub model_provider: String,
    pub model_name: String,
}

/// Consensus scores in thousandths: 933 stands for 0.933.
pub struct DebatePacketConsensus {
    pub consensus_score_milli: u32,
    pub confidence_score_milli: u32,
    pub key_agreements: Vec<String>,
    pub key_disagreements: Vec<String>,
}

pub struct DebateRejectedOption {
    pub option: String,
    pub reason: String,
}

pub struct DebateDecision {
    pub selected_option: String,
    pub why_selected: Vec<String>,
    pub rejected_options: Vec<DebateRejectedOption>,
}

pub struct DebateRisk {
    pub risk: String,
    pub severity: String,
    pub mitigation: String,
}

pub struct DebateAction {
    pub id: String,
    pub action: String,
    pub owner: String,
    pub due: String,
}

pub struct DebateTrace {
    pub round_refs: Vec<String>,
    pub evidence_refs: Vec<String>,
}

pub struct DebatePacketTimestamps {
    pub started_at: String,
    pub finished_at: String,
}

pub struct DebateFinalPacket {
    pub run_id: String,
    pub mode: String,
    pub problem: String,
    pub constraints: Vec<String>,
    pub output_type: String,
    pub participants: Vec<DebatePacketParticipant>,
    pub consensus: DebatePacketConsensus,
    pub decision: DebateDecision,
    pub risks: Vec<DebateRisk>,
    pub next_actions: Vec<DebateAction>,
    pub trace: DebateTrace,
    pub timestamps: DebatePacketTimestamps,
}

/// Successful turns of one round.
pub open spec fn ok_count(turns: Seq<DebateTurn>) -> int
    decreases turns.len(),
{
    if turns.len() == 0 {
        0
    } else {
        (if turns[0].status@ == "ok"@ {
            1int
        } else {
            0int
        }) + ok_count(turns.drop_first())
    }
}

/// All turns across the rounds.
pub open spec fn total_turn_count(rounds: Seq<DebateRoundArtifact>) -> int
    decreases rounds.len(),
{
    if rounds.len() == 0 {
        0
    } else {
        rounds[0].turns@.len() + total_turn_count(rounds.drop_first())
    }
}

/// Successful turns across the rounds.
pub open spec fn ok_turn_count(rounds: Seq<DebateRoundArtifact>) -> int
    decreases rounds.len(),
{
    if rounds.len() == 0 {
        0
    } else {
        ok_count(rounds[0].turns@) + ok_turn_count(rounds.drop_first())
    }
}

pub proof fn lemma_ok_count_bound(turns: Seq<DebateTurn>)
    ensures
        0 <= ok_count(turns) <= turns.len(),
    decreases turns.len(),
{
    if turns.len() > 0 {
        lemma_ok_count_bound(turns.drop_first());
    }
}

pub proof fn lemma_ok_turns_bound(rounds: Seq<DebateRoundArtifact>)
    ensures
        0 <= ok_turn_count(rounds) <= total_turn_count(rounds),
    decreases rounds.len(),
{
    if rounds.len() > 0 {
        lemma_ok_count_bound(rounds[0].turns@);
        lemma_ok_turns_bound(rounds.drop_first());
    }
}

/// `k/t` in thousandths, rounded half up; zero when there are no turns.
pub open spec fn milli_of(k: int, t: int) -> int {
    if t <= 0 {
        0
    } else {
        (2000 * k + t) / (2 * t)
    }
}

pub proof fn lemma_milli_bound(k: int, t: int)
    requires
        0 <= k <= t,
    ensures
        0 <= milli_of(k, t) <= 1000,
{
    if t > 0 {
        assert((2000 * k + t) / (2 * t) <= 1000 && (2000 * k + t) / (2 * t) >= 0) by (nonlinear_arith)
            requires
                0 <= k <= t,
                t > 0,
        ;
    }
}

/// The confidence score in thousandths: the consensus score, less thirty
/// thousandths per failed turn, floored at zero.
pub open spec fn confidence_milli_of(k: int, t: int) -> int {
    let base = milli_of(k, t);
    let penalty = 30 * (t - k);
    if base >= penalty {
        base - penalty
    } else {
        0
    }
}

fn count_ok_in(turns: &Vec<DebateTurn>, i: usize) -> (r: usize)
    requires
        i <= turns.len(),
    ensures
        r == ok_count(turns@.skip(i as int)),
        r <= turns.len() - i,
    decreases turns.len() - i,
{
    if i == turns.len() {
        return 0;
    }
    proof {
        assert(turns@.skip(i as int)[0] == turns@[i as int]);
        assert(turns@.skip(i as int).drop_first() =~= turns@.skip(i + 1));
    }
    let sv = chars_vec(turns[i].status.as_str());
    let rest = count_ok_in(turns, i + 1);
    if chars_eq(&sv, &chars_vec("ok")) {
        rest + 1
    } else {
        rest
    }
}

/// Counts all turns and the successful ones. The total must fit the machine
/// word.
pub fn count_turns(rounds: &Vec<DebateRoundArtifact>) -> (r: (usize, usize))
    requires
        total_turn_count(rounds@) <= usize::MAX,
    ensures
        r.0 == total_turn_count(rounds@),
        r.1 == ok_turn_count(rounds@),
        r.1 <= r.0,
{
    proof {
        assert(rounds@.skip(0) =~= rounds@);
    }
    count_turns_from(rounds, 0)
}

pub proof fn lemma_total_turns_skip(rounds: Seq<DebateRoundArtifact>, i: int)
    requires
        0 <= i <= rounds.len(),
    ensures
        total_turn_count(rounds.skip(i)) <= total_turn_count(rounds),
        ok_turn_count(rounds.skip(i)) >= 0,
    decreases i,
{
    lemma_ok_turns_bound(rounds.skip(i));
    if i > 0 {
        lemma_total_turns_skip(rounds, i - 1);
        assert(rounds.skip(i - 1).drop_first() =~= rounds.skip(i));
        assert(rounds.skip(i - 1)[0] == rounds[i - 1]);
        lemma_ok_turns_bound(rounds.skip(i - 1));
    } else {
        assert(rounds.skip(0) =~= rounds);
    }
}

fn count_turns_from(rounds: &Vec<DebateRoundArtifact>, i: usize) -> (r: (usize, usize))
    requires
        i <= rounds.len(),
        total_turn_count(rounds@.skip(i as int)) <= usize::MAX,
    ensures
        r.0 == total_turn_count(rounds@.skip(i as int)),
        r.1 == ok_turn_count(rounds@.skip(i as int)),
        r.1 <= r.0,
    decreases rounds.len() - i,
{
    if i == rounds.len() {
        return (0, 0);
    }
    proof {
        assert(rounds@.skip(i as int)[0] == rounds@[i as int]);
        assert(rounds@.skip(i as int).drop_first() =~= rounds@.skip(i + 1));
        assert(rounds@[i as int].turns@.skip(0) =~= rounds@[i as int].turns@);
        lemma_ok_turns_bound(rounds@.skip(i + 1));
        lemma_ok_count_bound(rounds@[i as int].turns@);
    }
    let here = rounds[i].turns.len();
    let ok_here = count_ok_in(&rounds[i].turns, 0);
    let (rest_total, rest_ok) = count_turns_from(rounds, i + 1);
    (here + rest_total, ok_here + rest_ok)
}

/// Every successful turn's claim, summarized, in speaking order.
pub open spec fn flat_ok_claims(rounds: Seq<DebateRoundArtifact>) -> Seq<Seq<char>>
    decreases rounds.len(),
{
    if rounds.len() == 0 {
        Seq::empty()
    } else {
        ok_claims_of(rounds[0].turns@) + flat_ok_claims(rounds.drop_first())
    }
}

pub open spec fn ok_claims_of(turns: Seq<DebateTurn>) -> Seq<Seq<char>>
    decreases turns.len(),
{
    if turns.len() == 0 {
        Seq::empty()
    } else {
        (if turns[0].status@ == "ok"@ {
            seq![summary_line(turns[0].claim@, 120)]
        } else {
            Seq::empty()
        }) + ok_claims_of(turns.drop_first())
    }
}

/// Every failed turn's error message, summarized.
pub open spec fn flat_fail_msgs(rounds: Seq<DebateRoundArtifact>) -> Seq<Seq<char>>
    decreases rounds.len(),
{
    if rounds.len() == 0 {
        Seq::empty()
    } else {
        fail_msgs_of(rounds[0].turns@) + flat_fail_msgs(rounds.drop_first())
    }
}

pub open spec fn fail_msgs_of(turns: Seq<DebateTurn>) -> Seq<Seq<char>>
    decreases turns.len(),
{
    if turns.len() == 0 {
        Seq::empty()
    } else {
        (match crate::records::opt_v(turns[0].error_message) {
            Some(m) => seq![summary_line(m, 120)],
            None => Seq::empty(),
        }) + fail_msgs_of(turns.drop_first())
    }
}

/// Every Critic turn's risks, flattened.
pub open spec fn flat_critic_risks(rounds: Seq<DebateRoundArtifact>) -> Seq<Seq<char>>
    decreases rounds.len(),
{
    if rounds.len() == 0 {
        Seq::empty()
    } else {
        critic_risks_of(rounds[0].turns@) + flat_critic_risks(rounds.drop_first())
    }
}

pub open spec fn critic_risks_of(turns: Seq<DebateTurn>) -> Seq<Seq<char>>
    decreases turns.len(),
{
    if turns.len() == 0 {
        Seq::empty()
    } else {
        (if turns[0].role@ == "Critic"@ {
            strs(turns[0].risks@)
        } else {
            Seq::empty()
        }) + critic_risks_of(turns.drop_first())
    }
}

/// Every turn's risks, flattened.
pub open spec fn flat_all_risks(rounds: Seq<DebateRoundArtifact>) -> Seq<Seq<char>>
    decreases rounds.len(),
{
    if rounds.len() == 0 {
        Seq::empty()
    } else {
        all_risks_of(rounds[0].turns@) + flat_all_risks(rounds.drop_first())
    }
}

pub open spec fn all_risks_of(turns: Seq<DebateTurn>) -> Seq<Seq<char>>
    decreases turns.len(),
{
    if turns.len() == 0 {
        Seq::empty()
    } else {
        strs(turns[0].risks@) + all_risks_of(turns.drop_first())
    }
}

/// Every Critic turn's claim, summarized.
pub open spec fn flat_critic_claims(rounds: Seq<DebateRoundArtifact>) -> Seq<Seq<char>>
    decreases rounds.len(),
{
    if rounds.len() == 0 {
        Seq::empty()
    } else {
        critic_claims_of(rounds[0].turns@) + flat_critic_claims(rounds.drop_first())
    }
}

pub open spec fn critic_claims_of(turns: Seq<DebateTurn>) -> Seq<Seq<char>>
    decreases turns.len(),
{
    if turns.len() == 0 {
        Seq::empty()
    } else {
        (if turns[0].role@ == "Critic"@ {
            seq![summary_line(turns[0].claim@, 120)]
        } else {
            Seq::empty()
        }) + critic_claims_of(turns.drop_first())
    }
}

pub open spec fn take_n(s: Seq<Seq<char>>, n: int) -> Seq<Seq<char>> {
    if s.len() <= n {
        s
    } else {
        s.subrange(0, n)
    }
}

/// The agreements the consensus reports: the first six successful claims,
/// deduplicated, or the fixed line when there are none.
pub open spec fn agreements_of(rounds: Seq<DebateRoundArtifact>) -> Seq<Seq<char>> {
    let d = dedup_spec(take_n(flat_ok_claims(rounds), 6), Seq::empty());
    if d.len() == 0 {
        seq!["Participants aligned on delivering an executable local-first packet."@]
    } else {
        d
    }
}

/// The disagreements: failed turns' messages, else the Critic's first four
/// risks, always followed by one line per observed code; the fixed line when
/// all of that is empty.
pub open spec fn disagreements_of(
    rounds: Seq<DebateRoundArtifact>,
    error_codes: Seq<Seq<char>>,
) -> Seq<Seq<char>> {
    let msgs = flat_fail_msgs(rounds);
    let base = if msgs.len() == 0 {
        take_n(flat_critic_risks(rounds), 4)
    } else {
        msgs
    };
    let all = base + error_codes.map_values(|c: Seq<char>| "Observed warning/error code: "@ + c);
    if all.len() == 0 {
        seq!["No major disagreement captured."@]
    } else {
        dedup_spec(all, Seq::empty())
    }
}


fn collect_ok_claims(turns: &Vec<DebateTurn>, i: usize, out: &mut Vec<String>)
    requires
        i <= turns.len(),
    ensures
        strs(final(out)@) == strs(old(out)@) + ok_claims_of(turns@.skip(i as int)),
    decreases turns.len() - i,
{
    let ghost pre = strs(out@);
    let ghost rest = turns@.skip(i as int);
    if i == turns.len() {
        proof {
            assert(pre + ok_claims_of(rest) =~= pre);
        }
        return ;
    }
    proof {
        assert(rest[0] == turns@[i as int]);
        assert(rest.drop_first() =~= turns@.skip(i + 1));
    }
    let sv = chars_vec(turns[i].status.as_str());
    if chars_eq(&sv, &chars_vec("ok")) {
        out.push(summarize_text_line(turns[i].claim.as_str(), 120));
        proof {
            assert(strs(out@) =~= pre.push(summary_line(turns@[i as int].claim@, 120)));
        }
        let ghost mid = strs(out@);
        collect_ok_claims(turns, i + 1, out);
        proof {
            assert(pre + ok_claims_of(rest) =~= mid + ok_claims_of(rest.drop_first()));
        }
    } else {
        collect_ok_claims(turns, i + 1, out);
    }
}

fn collect_flat_ok_claims(rounds: &Vec<DebateRoundArtifact>, i: usize, out: &mut Vec<String>)
    requires
        i <= rounds.len(),
    ensures
        strs(final(out)@) == strs(old(out)@) + flat_ok_claims(rounds@.skip(i as int)),
    decreases rounds.len() - i,
{
    let ghost pre = strs(out@);
    let ghost rest = rounds@.skip(i as int);
    if i == rounds.len() {
        proof {
            assert(pre + flat_ok_claims(rest) =~= pre);
        }
        return ;
    }
    proof {
        assert(rest[0] == rounds@[i as int]);
        assert(rest.drop_first() =~= rounds@.skip(i + 1));
        assert(rounds@[i as int].turns@.skip(0) =~= rounds@[i as int].turns@);
    }
    collect_ok_claims(&rounds[i].turns, 0, out);
    let ghost mid = strs(out@);
    collect_flat_ok_claims(rounds, i + 1, out);
    proof {
        assert(pre + flat_ok_claims(rest) =~= mid + flat_ok_claims(rest.drop_first()));
    }
}

fn collect_fail_msgs(turns: &Vec<DebateTurn>, i: usize, out: &mut Vec<String>)
    requires
        i <= turns.len(),
    ensures
        strs(final(out)@) == strs(old(out)@) + fail_msgs_of(turns@.skip(i as int)),
    decreases turns.len() - i,
{
    let ghost pre = strs(out@);
    let ghost rest = turns@.skip(i as int);
    if i == turns.len() {
        proof {
            assert(pre + fail_msgs_of(rest) =~= pre);
        }
        return ;
    }
    proof {
        assert(rest[0] == turns@[i as int]);
        assert(rest.drop_first() =~= turns@.skip(i + 1));
    }
    match &turns[i].error_message {
        Some(m) => {
            out.push(summarize_text_line(m.as_str(), 120));
            proof {
                assert(strs(out@) =~= pre.push(summary_line(m@, 120)));
            }
            let ghost mid = strs(out@);
            collect_fail_msgs(turns, i + 1, out);
            proof {
                assert(pre + fail_msgs_of(rest) =~= mid + fail_msgs_of(rest.drop_first()));
            }
        },
        None => {
            collect_fail_msgs(turns, i + 1, out);
        },
    }
}

fn collect_flat_fail_msgs(rounds: &Vec<DebateRoundArtifact>, i: usize, out: &mut Vec<String>)
    requires
        i <= rounds.len(),
    ensures
        strs(final(out)@) == strs(old(out)@) + flat_fail_msgs(rounds@.skip(i as int)),
    decreases rounds.len() - i,
{
    let ghost pre = strs(out@);
    let ghost rest = rounds@.skip(i as int);
    if i == rounds.len() {
        proof {
            assert(pre + flat_fail_msgs(rest) =~= pre);
        }
        return ;
    }
    proof {
        assert(rest[0] == rounds@[i as int]);
        assert(rest.drop_first() =~= rounds@.skip(i + 1));
        assert(rounds@[i as int].turns@.skip(0) =~= rounds@[i as int].turns@);
    }
    collect_fail_msgs(&rounds[i].turns, 0, out);
    let ghost mid = strs(out@);
    collect_flat_fail_msgs(rounds, i + 1, out);
    proof {
        assert(pre + flat_fail_msgs(rest) =~= mid + flat_fail_msgs(rest.drop_first()));
    }
}

fn push_strings(out: &mut Vec<String>, add: &Vec<String>)
    ensures
        strs(final(out)@) == strs(old(out)@) + strs(add@),
{
    let ghost pre = strs(out@);
    let mut i: usize = 0;
    while i < add.len()
        invariant
            i <= add.len(),
            strs(out@) == pre + strs(add@.subrange(0, i as int)),
        decreases add.len() - i,
    {
        let ghost before = out@;
        out.push(add[i].clone());
        i = i + 1;
        proof {
            crate::util::lemma_strs_push(before, out@.last());
            crate::util::lemma_strs_push(add@.subrange(0, i - 1), add@[i - 1]);
            assert(add@.subrange(0, i as int) =~= add@.subrange(0, i - 1).push(add@[i - 1]));
            assert(out@ =~= before.push(out@.last()));
            assert(strs(out@) =~= pre + strs(add@.subrange(0, i as int)));
        }
    }
    proof {
        assert(add@.subrange(0, add@.len() as int) =~= add@);
    }
}

fn collect_critic_risks(turns: &Vec<DebateTurn>, i: usize, out: &mut Vec<String>)
    requires
        i <= turns.len(),
    ensures
        strs(final(out)@) == strs(old(out)@) + critic_risks_of(turns@.skip(i as int)),
    decreases turns.len() - i,
{
    let ghost pre = strs(out@);
    let ghost rest = turns@.skip(i as int);
    if i == turns.len() {
        proof {
            assert(pre + critic_risks_of(rest) =~= pre);
        }
        return ;
    }
    proof {
        assert(rest[0] == turns@[i as int]);
        assert(rest.drop_first() =~= turns@.skip(i + 1));
    }
    let rv = chars_vec(turns[i].role.as_str());
    if chars_eq(&rv, &chars_vec("Critic")) {
        push_strings(out, &turns[i].risks);
        let ghost mid = strs(out@);
        collect_critic_risks(turns, i + 1, out);
        proof {
            assert(pre + critic_risks_of(rest) =~= mid + critic_risks_of(rest.drop_first()));
        }
    } else {
        collect_critic_risks(turns, i + 1, out);
    }
}

fn collect_flat_critic_risks(rounds: &Vec<DebateRoundArtifact>, i: usize, out: &mut Vec<String>)
    requires
        i <= rounds.len(),
    ensures
        strs(final(out)@) == strs(old(out)@) + flat_critic_risks(rounds@.skip(i as int)),
    decreases rounds.len() - i,
{
    let ghost pre = strs(out@);
    let ghost rest = rounds@.skip(i as int);
    if i == rounds.len() {
        proof {
            assert(pre + flat_critic_risks(rest) =~= pre);
        }
        return ;
    }
    proof {
        assert(rest[0] == rounds@[i as int]);
        assert(rest.drop_first() =~= rounds@.skip(i + 1));
        assert(rounds@[i as int].turns@.skip(0) =~= rounds@[i as int].turns@);
    }
    collect_critic_risks(&rounds[i].turns, 0, out);
    let ghost mid = strs(out@);
    collect_flat_critic_risks(rounds, i + 1, out);
    proof {
        assert(pre + flat_critic_risks(rest) =~= mid + flat_critic_risks(rest.drop_first()));
    }
}

fn collect_all_risks(turns: &Vec<DebateTurn>, i: usize, out: &mut Vec<String>)
    requires
        i <= turns.len(),
    ensures
        strs(final(out)@) == strs(old(out)@) + all_risks_of(turns@.skip(i as int)),
    decreases turns.len() - i,
{
    let ghost pre = strs(out@);
    let ghost rest = turns@.skip(i as int);
    if i == turns.len() {
        proof {
            assert(pre + all_risks_of(rest) =~= pre);
        }
        return ;
    }
    proof {
        assert(rest[0] == turns@[i as int]);
        assert(rest.drop_first() =~= turns@.skip(i + 1));
    }
    push_strings(out, &turns[i].risks);
    let ghost mid = strs(out@);
    collect_all_risks(turns, i + 1, out);
    proof {
        assert(pre + all_risks_of(rest) =~= mid + all_risks_of(rest.drop_first()));
    }
}

fn collect_flat_all_risks(rounds: &Vec<DebateRoundArtifact>, i: usize, out: &mut Vec<String>)
    requires
        i <= rounds.len(),
    ensures
        strs(final(out)@) == strs(old(out)@) + flat_all_risks(rounds@.skip(i as int)),
    decreases rounds.len() - i,
{
    let ghost pre = strs(out@);
    let ghost rest = rounds@.skip(i as int);
    if i == rounds.len() {
        proof {
            assert(pre + flat_all_risks(rest) =~= pre);
        }
        return ;
    }
    proof {
        assert(rest[0] == rounds@[i as int]);
        assert(rest.drop_first() =~= rounds@.skip(i + 1));
        assert(rounds@[i as int].turns@.skip(0) =~= rounds@[i as int].turns@);
    }
    collect_all_risks(&rounds[i].turns, 0, out);
    let ghost mid = strs(out@);
    collect_flat_all_risks(rounds, i + 1, out);
    proof {
        assert(pre + flat_all_risks(rest) =~= mid + flat_all_risks(rest.drop_first()));
    }
}

fn collect_critic_claims(turns: &Vec<DebateTurn>, i: usize, out: &mut Vec<String>)
    requires
        i <= turns.len(),
    ensures
        strs(final(out)@) == strs(old(out)@) + critic_claims_of(turns@.skip(i as int)),
    decreases turns.len() - i,
{
    let ghost pre = strs(out@);
    let ghost rest = turns@.skip(i as int);
    if i == turns.len() {
        proof {
            assert(pre + critic_claims_of(rest) =~= pre);
        }
        return ;
    }
    proof {
        assert(rest[0] == turns@[i as int]);
        assert(rest.drop_first() =~= turns@.skip(i + 1));
    }
    let rv = chars_vec(turns[i].role.as_str());
    if chars_eq(&rv, &chars_vec("Critic")) {
        out.push(summarize_text_line(turns[i].claim.as_str(), 120));
        proof {
            assert(strs(out@) =~= pre.push(summary_line(turns@[i as int].claim@, 120)));
        }
        let ghost mid = strs(out@);
        collect_critic_claims(turns, i + 1, out);
        proof {
            assert(pre + critic_claims_of(rest) =~= mid + critic_claims_of(rest.drop_first()));
        }
    } else {
        collect_critic_claims(turns, i + 1, out);
    }
}

fn collect_flat_critic_claims(rounds: &Vec<DebateRoundArtifact>, i: usize, out: &mut Vec<String>)
    requires
        i <= rounds.len(),
    ensures
        strs(final(out)@) == strs(old(out)@) + flat_critic_claims(rounds@.skip(i as int)),
    decreases rounds.len() - i,
{
    let ghost pre = strs(out@);
    let ghost rest = rounds@.skip(i as int);
    if i == rounds.len() {
        proof {
            assert(pre + flat_critic_claims(rest) =~= pre);
        }
        return ;
    }
    proof {
        assert(rest[0] == rounds@[i as int]);
        assert(rest.drop_first() =~= rounds@.skip(i + 1));
        assert(rounds@[i as int].turns@.skip(0) =~= rounds@[i as int].turns@);
    }
    collect_critic_claims(&rounds[i].turns, 0, out);
    let ghost mid = strs(out@);
    collect_flat_critic_claims(rounds, i + 1, out);
    proof {
        assert(pre + flat_critic_claims(rest) =~= mid + flat_critic_claims(rest.drop_first()));
    }
}

fn truncate_to(v: Vec<String>, n: usize) -> (r: Vec<String>)
    ensures
        strs(r@) == take_n(strs(v@), n as int),
{
    if v.len() <= n {
        proof {
            assert(take_n(strs(v@), n as int) =~= strs(v@));
        }
        return v;
    }
    let mut out: Vec<String> = Vec::new();
    let mut i: usize = 0;
    while i < n
        invariant
            i <= n <= v.len(),
            strs(out@) == strs(v@).subrange(0, i as int),
        decreases n - i,
    {
        let ghost before = out@;
        out.push(v[i].clone());
        i = i + 1;
        proof {
            crate::util::lemma_strs_push(before, out@.last());
            assert(out@ =~= before.push(out@.last()));
            assert(strs(out@) =~= strs(v@).subrange(0, i as int));
        }
    }
    out
}

/// Builds the consensus block from the rounds and observed codes. The scores
/// are the ok-turn share and its failure-penalized floor, in thousandths.
pub fn build_debate_consensus(
    rounds: &Vec<DebateRoundArtifact>,
    error_codes: &Vec<String>,
) -> (r: DebatePacketConsensus)
    requires
        total_turn_count(rounds@) <= usize::MAX,
    ensures
        r.consensus_score_milli == milli_of(ok_turn_count(rounds@), total_turn_count(rounds@)),
        r.confidence_score_milli == confidence_milli_of(
            ok_turn_count(rounds@),
            total_turn_count(rounds@),
        ),
        r.consensus_score_milli <= 1000,
        r.confidence_score_milli <= 1000,
        strs(r.key_agreements@) == agreements_of(rounds@),
        strs(r.key_disagreements@) == disagreements_of(rounds@, strs(error_codes@)),
        r.key_agreements@.len() > 0,
{
    let (total, ok) = count_turns(rounds);
    proof {
        lemma_ok_turns_bound(rounds@);
        lemma_milli_bound(ok as int, total as int);
    }
    let base_milli: u32 = if total == 0 {
        0
    } else {
        let k = ok as u128;
        let t = total as u128;
        ((2000 * k + t) / (2 * t)) as u32
    };
    let fails = (total - ok) as u128;
    let conf_milli: u32 = if (base_milli as u128) >= 30 * fails {
        (base_milli as u128 - 30 * fails) as u32
    } else {
        0
    };
    let mut claims: Vec<String> = Vec::new();
    collect_flat_ok_claims(rounds, 0, &mut claims);
    proof {
        assert(rounds@.skip(0) =~= rounds@);
        assert(strs(Seq::<String>::empty()) =~= Seq::<Seq<char>>::empty());
    }
    let first6 = truncate_to(claims, 6);
    let mut agreements = dedup_non_empty(first6);
    if agreements.len() == 0 {
        agreements.push(
            String::from_str("Participants aligned on delivering an executable local-first packet."),
        );
        proof {
            assert(strs(agreements@) =~= seq![
                "Participants aligned on delivering an executable local-first packet."@,
            ]);
        }
    }
    let mut msgs: Vec<String> = Vec::new();
    collect_flat_fail_msgs(rounds, 0, &mut msgs);
    proof {
        assert(rounds@.skip(0) =~= rounds@);
        assert(strs(Seq::<String>::empty()) =~= Seq::<Seq<char>>::empty());
    }
    let mut base: Vec<String> = if msgs.len() == 0 {
        let mut cr: Vec<String> = Vec::new();
        collect_flat_critic_risks(rounds, 0, &mut cr);
        proof {
            assert(rounds@.skip(0) =~= rounds@);
            assert(strs(Seq::<String>::empty()) =~= Seq::<Seq<char>>::empty());
        }
        truncate_to(cr, 4)
    } else {
        msgs
    };
    let ghost base_view = strs(base@);
    let mut k: usize = 0;
    while k < error_codes.len()
        invariant
            k <= error_codes.len(),
            strs(base@) == base_view + strs(error_codes@.subrange(0, k as int)).map_values(
                |c: Seq<char>| "Observed warning/error code: "@ + c,
            ),
        decreases error_codes.len() - k,
    {
        let mut line = String::from_str("Observed warning/error code: ");
        line.append(error_codes[k].as_str());
        proof {
            reveal_strlit("Observed warning/error code: ");
            assert(line@ =~= "Observed warning/error code: "@ + error_codes@[k as int]@);
        }
        let ghost pre = strs(base@);
        base.push(line);
        k = k + 1;
        proof {
            assert(strs(error_codes@.subrange(0, k as int)) =~= strs(
                error_codes@.subrange(0, k - 1),
            ).push(error_codes@[k - 1]@));
            assert(strs(error_codes@.subrange(0, k - 1)).push(error_codes@[k - 1]@).map_values(
                |c: Seq<char>| "Observed warning/error code: "@ + c,
            ) =~= strs(error_codes@.subrange(0, k - 1)).map_values(
                |c: Seq<char>| "Observed warning/error code: "@ + c,
            ).push("Observed warning/error code: "@ + error_codes@[k - 1]@));
            assert(strs(base@) =~= pre.push("Observed warning/error code: "@ + error_codes@[k
                - 1]@));
        }
    }
    proof {
        assert(error_codes@.subrange(0, error_codes@.len() as int) =~= error_codes@);
    }
    let disagreements: Vec<String> = if base.len() == 0 {
        let mut d: Vec<String> = Vec::new();
        d.push(String::from_str("No major disagreement captured."));
        proof {
            assert(strs(d@) =~= seq!["No major disagreement captured."@]);
        }
        d
    } else {
        let dd = dedup_non_empty(base);
        proof {
            assert(strs(dd@) == dedup_spec(strs(base@), Seq::empty()));
        }
        dd
    };
    proof {
        reveal_strlit("No major disagreement captured.");
        reveal_strlit("Participants aligned on delivering an executable local-first packet.");
        assert(agreements@.len() == strs(agreements@).len());
    }
    DebatePacketConsensus {
        consensus_score_milli: base_milli,
        confidence_score_milli: conf_milli,
        key_agreements: agreements,
        key_disagreements: disagreements,
    }
}


/// The decision's selected option: the third-round Synthesizer claim, else
/// the Proponent's, else the fixed fallback for the output type.
pub open spec fn selected_option_of(
    rounds: Seq<DebateRoundArtifact>,
    output_type: Seq<char>,
) -> Seq<char> {
    let f = (match found_turn(rounds, DebateRound::Round3, DebateRole::Synthesizer) {
        Some(t) => Some(t),
        None => found_turn(rounds, DebateRound::Round3, DebateRole::Proponent),
    });
    match f {
        Some(t) => if trimmed(t.claim@).len() > 0 {
            trimmed(t.claim@)
        } else {
            "Adopt a constrained "@ + output_type + " execution path."@
        },
        None => "Adopt a constrained "@ + output_type + " execution path."@,
    }
}

pub open spec fn rationale_summary_of(
    rounds: Seq<DebateRoundArtifact>,
    role: DebateRole,
) -> Seq<char> {
    match found_turn(rounds, DebateRound::Round3, role) {
        Some(t) => summary_line(t.rationale@, 180),
        None => Seq::empty(),
    }
}

/// The deduplicated reasons the decision cites.
pub open spec fn why_selected_of(rounds: Seq<DebateRoundArtifact>) -> Seq<Seq<char>> {
    let d = dedup_spec(
        seq![
            rationale_summary_of(rounds, DebateRole::Synthesizer),
            rationale_summary_of(rounds, DebateRole::Analyst),
            "Chosen for replayability, explicit risk handling, and direct actionability."@,
        ],
        Seq::empty(),
    );
    if d.len() == 0 {
        seq!["No explicit rationale captured."@]
    } else {
        d
    }
}

/// The rejected options: up to two deduplicated Critic claims.
pub open spec fn rejected_of(rounds: Seq<DebateRoundArtifact>) -> Seq<Seq<char>> {
    dedup_spec(take_n(flat_critic_claims(rounds), 2), Seq::empty())
}

/// Builds the decision block from the rounds.
pub fn build_debate_decision(
    request: &DebateNormalizedRequest,
    rounds: &Vec<DebateRoundArtifact>,
) -> (r: DebateDecision)
    ensures
        r.selected_option@ == selected_option_of(rounds@, request.output_type@),
        strs(r.why_selected@) == why_selected_of(rounds@),
        r.why_selected@.len() > 0,
        r.rejected_options@.len() == rejected_of(rounds@).len(),
        forall|i: int|
            0 <= i < r.rejected_options@.len() ==> (#[trigger] r.rejected_options@[i]).option@
                == rejected_of(rounds@)[i] && r.rejected_options@[i].reason@
                == "Rejected by judge due to unresolved trade-offs (#"@ + dec_str((i + 1) as nat)
                + ")."@,
{
    let picked: Option<DebateTurn> = match find_turn(
        rounds,
        DebateRound::Round3,
        DebateRole::Synthesizer,
    ) {
        Some(t) => Some(t),
        None => find_turn(rounds, DebateRound::Round3, DebateRole::Proponent),
    };
    let selected_option: String = match picked {
        Some(t) => {
            let c = crate::text::trim_str(t.claim.as_str());
            if c.as_str().unicode_len() > 0 {
                c
            } else {
                default_option(request.output_type.as_str())
            }
        },
        None => default_option(request.output_type.as_str()),
    };
    let synth: String = match find_turn(rounds, DebateRound::Round3, DebateRole::Synthesizer) {
        Some(t) => summarize_text_line(t.rationale.as_str(), 180),
        None => String::new(),
    };
    let analyst: String = match find_turn(rounds, DebateRound::Round3, DebateRole::Analyst) {
        Some(t) => summarize_text_line(t.rationale.as_str(), 180),
        None => String::new(),
    };
    let mut why_items: Vec<String> = Vec::new();
    why_items.push(synth);
    why_items.push(analyst);
    why_items.push(
        String::from_str(
            "Chosen for replayability, explicit risk handling, and direct actionability.",
        ),
    );
    proof {
        assert(strs(why_items@) =~= seq![
            rationale_summary_of(rounds@, DebateRole::Synthesizer),
            rationale_summary_of(rounds@, DebateRole::Analyst),
            "Chosen for replayability, explicit risk handling, and direct actionability."@,
        ]);
    }
    let mut why_selected = dedup_non_empty(why_items);
    if why_selected.len() == 0 {
        why_selected.push(String::from_str("No explicit rationale captured."));
        proof {
            assert(strs(why_selected@) =~= seq!["No explicit rationale captured."@]);
        }
    }
    let mut cc: Vec<String> = Vec::new();
    collect_flat_critic_claims(rounds, 0, &mut cc);
    proof {
        assert(rounds@.skip(0) =~= rounds@);
        assert(strs(Seq::<String>::empty()) =~= Seq::<Seq<char>>::empty());
    }
    let two = truncate_to(cc, 2);
    let rejected_names = dedup_non_empty(two);
    let mut rejected_options: Vec<DebateRejectedOption> = Vec::new();
    let mut i: usize = 0;
    while i < rejected_names.len()
        invariant
            i <= rejected_names.len(),
            strs(rejected_names@) == rejected_of(rounds@),
            rejected_options@.len() == i,
            forall|k: int|
                0 <= k < i ==> (#[trigger] rejected_options@[k]).option@ == rejected_of(
                    rounds@,
                )[k] && rejected_options@[k].reason@
                    == "Rejected by judge due to unresolved trade-offs (#"@ + dec_str(
                    (k + 1) as nat,
                ) + ")."@,
        decreases rejected_names.len() - i,
    {
        let mut reason = String::from_str("Rejected by judge due to unresolved trade-offs (#");
        let num = u64_to_string((i + 1) as u64);
        reason.append(num.as_str());
        reason.append(").");
        proof {
            reveal_strlit("Rejected by judge due to unresolved trade-offs (#");
            reveal_strlit(").");
            assert(reason@ =~= "Rejected by judge due to unresolved trade-offs (#"@ + dec_str(
                (i + 1) as nat,
            ) + ")."@);
            assert(strs(rejected_names@)[i as int] == rejected_names@[i as int]@);
        }
        rejected_options.push(
            DebateRejectedOption { option: rejected_names[i].clone(), reason },
        );
        i = i + 1;
    }
    proof {
        assert(why_selected@.len() == strs(why_selected@).len());
        assert(rejected_names@.len() == strs(rejected_names@).len());
    }
    DebateDecision { selected_option, why_selected, rejected_options }
}

fn default_option(output_type: &str) -> (r: String)
    ensures
        r@ == "Adopt a constrained "@ + output_type@ + " execution path."@,
{
    let mut s = String::from_str("Adopt a constrained ");
    s.append(output_type);
    s.append(" execution path.");
    proof {
        assert(s@ =~= "Adopt a constrained "@ + output_type@ + " execution path."@);
    }
    s
}

/// The deduplicated risk lines a packet reports: every turn's risks, the two
/// stock lines when none, at most five kept.
pub open spec fn packet_risks_of(rounds: Seq<DebateRoundArtifact>) -> Seq<Seq<char>> {
    let raw = flat_all_risks(rounds);
    let based = if raw.len() == 0 {
        seq![
            "Consensus quality may drop when provider failures cluster."@,
            "Writeback trace could break if local storage is unavailable."@,
        ]
    } else {
        raw
    };
    take_n(dedup_spec(based, Seq::empty()), 5)
}

/// Builds the packet's risk list: deduplicated, capped at five, classified
/// and given a mitigation line.
pub fn build_debate_risks(rounds: &Vec<DebateRoundArtifact>) -> (r: Vec<DebateRisk>)
    ensures
        r@.len() == packet_risks_of(rounds@).len(),
        forall|i: int|
            0 <= i < r@.len() ==> {
                let d = packet_risks_of(rounds@)[i];
                &&& (#[trigger] r@[i]).risk@ == d
                &&& r@[i].severity@ == severity_of(d)
                &&& r@[i].mitigation@ == "Track via run replay and add explicit check for: "@
                    + summary_line(d, 80)
            },
{
    let mut raw: Vec<String> = Vec::new();
    collect_flat_all_risks(rounds, 0, &mut raw);
    proof {
        assert(rounds@.skip(0) =~= rounds@);
        assert(strs(Seq::<String>::empty()) =~= Seq::<Seq<char>>::empty());
    }
    if raw.len() == 0 {
        raw.push(String::from_str("Consensus quality may drop when provider failures cluster."));
        raw.push(String::from_str("Writeback trace could break if local storage is unavailable."));
        proof {
            assert(strs(raw@) =~= seq![
                "Consensus quality may drop when provider failures cluster."@,
                "Writeback trace could break if local storage is unavailable."@,
            ]);
        }
    }
    let deduped = dedup_non_empty(raw);
    let names = truncate_to(deduped, 5);
    let mut out: Vec<DebateRisk> = Vec::new();
    let mut i: usize = 0;
    while i < names.len()
        invariant
            i <= names.len(),
            strs(names@) == packet_risks_of(rounds@),
            out@.len() == i,
            forall|k: int|
                0 <= k < i ==> {
                    let d = packet_risks_of(rounds@)[k];
                    &&& (#[trigger] out@[k]).risk@ == d
                    &&& out@[k].severity@ == severity_of(d)
                    &&& out@[k].mitigation@ == "Track via run replay and add explicit check for: "@
                        + summary_line(d, 80)
                },
        decreases names.len() - i,
    {
        let sev = classify_risk_severity(names[i].as_str());
        let mut mit = String::from_str("Track via run replay and add explicit check for: ");
        let sum = summarize_text_line(names[i].as_str(), 80);
        mit.append(sum.as_str());
        proof {
            reveal_strlit("Track via run replay and add explicit check for: ");
            assert(strs(names@)[i as int] == names@[i as int]@);
            assert(mit@ =~= "Track via run replay and add explicit check for: "@ + summary_line(
                names@[i as int]@,
                80,
            ));
        }
        out.push(
            DebateRisk { risk: names[i].clone(), severity: String::from_str(sev), mitigation: mit },
        );
        i = i + 1;
    }
    out
}

/// All characters of a rendered number are digits.
pub proof fn lemma_dec_str_digits(n: nat)
    ensures
        forall|i: int|
            0 <= i < dec_str(n).len() ==> crate::dates::is_digit_char(#[trigger] dec_str(n)[i]),
    decreases n,
{
    let last = ((48 + n % 10) as u8) as char;
    assert(last as u32 == 48 + n % 10);
    vstd::utf8::char_u32_cast(last, last as u32);
    assert('0' as u32 == 48);
    assert('9' as u32 == 57);
    assert(crate::dates::is_digit_char(last));
    if n < 10 {
        let only = ((48 + n) as u8) as char;
        assert(only as u32 == 48 + n);
        assert(crate::dates::is_digit_char(only));
        assert(dec_str(n) == seq![only]);
    } else {
        lemma_dec_str_digits(n / 10);
        assert(dec_str(n) == dec_str(n / 10).push(last));
        assert forall|i: int|
            0 <= i < dec_str(n).len() implies crate::dates::is_digit_char(
            #[trigger] dec_str(n)[i],
        ) by {
            if i < dec_str(n / 10).len() {
                assert(dec_str(n)[i] == dec_str(n / 10)[i]);
            } else {
                assert(dec_str(n)[i] == last);
            }
        }
    }
}

pub proof fn lemma_zero_padded_digits(n: nat, w: nat)
    ensures
        forall|i: int|
            0 <= i < zero_padded(n, w).len() ==> crate::dates::is_digit_char(
                #[trigger] zero_padded(n, w)[i],
            ),
        zero_padded(n, w).len() > 0,
{
    lemma_dec_str_digits(n);
}

/// A rendered date carries no surrounding whitespace.
pub proof fn lemma_ymd_seq_trim(y: nat, m: nat, d: nat)
    ensures
        trimmed(ymd_seq(y, m, d)) == ymd_seq(y, m, d),
{
    let s = ymd_seq(y, m, d);
    lemma_zero_padded_digits(y, 4);
    lemma_zero_padded_digits(d, 2);
    assert(s[0] == zero_padded(y, 4)[0]);
    assert(s.last() == zero_padded(d, 2)[zero_padded(d, 2).len() - 1]);
    assert(!crate::text::is_wspace(s[0]));
    assert(!crate::text::is_wspace(s.last()));
    assert(crate::text::ltrimmed(s) == s);
    assert(crate::text::rtrimmed(s) == s);
}

/// The date `n` days after a clock reading, rendered `YYYY-MM-DD`. Readings
/// beyond the packet's four-digit years clamp to a safe leap year so the
/// rendering stays a valid date.
pub open spec fn due_seq(st: crate::clock::ClockStamp, n: nat) -> Seq<char> {
    let y: int = if st.year < 0 || st.year > 8000 {
        8000
    } else {
        st.year as int
    };
    let t = crate::dates::plus_days(y, st.month as int, st.day as int, n);
    ymd_seq(t.0 as nat, t.1 as nat, t.2 as nat)
}

/// A due date a given number of days ahead of today.
pub fn due_after_days(days: u64) -> (r: String)
    requires
        days <= 365,
    ensures
        valid_date_seq(r@),
        trimmed(r@) == r@,
        (exists|st: crate::clock::ClockStamp| st.wf() && r@ == due_seq(st, days as nat)),
{
    let st = now_stamp();
    let y: u64 = if st.year < 0 || st.year > 8000 {
        8000
    } else {
        st.year as u64
    };
    proof {
        assert(valid_ymd(y as int, st.month as int, st.day as int));
    }
    let (ny, nm, nd) = crate::dates::ymd_plus_days(y, st.month, st.day, days);
    proof {
        lemma_plus_days_valid(y as int, st.month as int, st.day as int, days as nat);
        assert(ny < 10000);
        lemma_ymd_seq_valid(ny as nat, nm as nat, nd as nat);
        lemma_ymd_seq_trim(ny as nat, nm as nat, nd as nat);
    }
    let out = format_ymd(ny, nm, nd);
    proof {
        assert(st.wf() && out@ == due_seq(st, days as nat));
    }
    out
}

/// Builds the three fixed next actions: execute, mitigate, review, due one,
/// three and seven days out.
pub fn build_debate_actions(
    output_type: &str,
    decision: &DebateDecision,
    risks: &Vec<DebateRisk>,
) -> (r: Vec<DebateAction>)
    ensures
        r@.len() == 3,
        r@[0].id@ == "A1"@ && r@[1].id@ == "A2"@ && r@[2].id@ == "A3"@,
        forall|i: int|
            0 <= i < 3 ==> (#[trigger] r@[i]).owner@ == "me"@ && valid_date_seq(r@[i].due@)
                && trimmed(r@[i].due@) == r@[i].due@ && trimmed(r@[i].id@) == r@[i].id@
                && r@[i].id@.len() > 0 && trimmed(r@[i].action@).len() > 0,
        r@[0].action@ == "Execute selected option for "@ + output_type@ + ": "@ + summary_line(
            decision.selected_option@,
            110,
        ),
        (exists|st: crate::clock::ClockStamp| st.wf() && r@[0].due@ == due_seq(st, 1)),
        (exists|st: crate::clock::ClockStamp| st.wf() && r@[1].due@ == due_seq(st, 3)),
        (exists|st: crate::clock::ClockStamp| st.wf() && r@[2].due@ == due_seq(st, 7)),
        r@[1].action@ == "Mitigate primary risk: "@ + (if risks@.len() > 0 {
            summary_line(risks@[0].risk@, 100)
        } else {
            "No critical risk recorded"@
        }),
        r@[2].action@ == "Review execution result and run replay audit."@,
{
    let mut a1 = String::from_str("Execute selected option for ");
    a1.append(output_type);
    a1.append(": ");
    let sum1 = summarize_text_line(decision.selected_option.as_str(), 110);
    a1.append(sum1.as_str());
    let risk_focus: String = if risks.len() > 0 {
        summarize_text_line(risks[0].risk.as_str(), 100)
    } else {
        String::from_str("No critical risk recorded")
    };
    let mut a2 = String::from_str("Mitigate primary risk: ");
    a2.append(risk_focus.as_str());
    let a3 = String::from_str("Review execution result and run replay audit.");
    proof {
        reveal_strlit("Execute selected option for ");
        reveal_strlit(": ");
        reveal_strlit("Mitigate primary risk: ");
        reveal_strlit("No critical risk recorded");
        reveal_strlit("Review execution result and run replay audit.");
        assert(a1@ =~= "Execute selected option for "@ + output_type@ + ": "@ + summary_line(
            decision.selected_option@,
            110,
        ));
        assert(a2@ =~= "Mitigate primary risk: "@ + (if risks@.len() > 0 {
            summary_line(risks@[0].risk@, 100)
        } else {
            "No critical risk recorded"@
        }));
        assert(a1@.len() > 0);
        assert(a2@.len() > 0);
        assert(a3@.len() > 0);
    }
    let mut out: Vec<DebateAction> = Vec::new();
    out.push(
        DebateAction {
            id: String::from_str("A1"),
            action: a1,
            owner: String::from_str("me"),
            due: due_after_days(1),
        },
    );
    out.push(
        DebateAction {
            id: String::from_str("A2"),
            action: a2,
            owner: String::from_str("me"),
            due: due_after_days(3),
        },
    );
    out.push(
        DebateAction {
            id: String::from_str("A3"),
            action: a3,
            owner: String::from_str("me"),
            due: due_after_days(7),
        },
    );
    proof {
        reveal_strlit("A1");
        reveal_strlit("A2");
        reveal_strlit("A3");
        reveal_strlit("me");
        assert forall|i: int| 0 <= i < 3 implies trimmed(out@[i].id@) == out@[i].id@
            && out@[i].id@.len() > 0 by {
            assert(i == 0 || i == 1 || i == 2);
            assert(!crate::text::is_wspace('A'));
            assert(!crate::text::is_wspace('1'));
            assert(!crate::text::is_wspace('2'));
            assert(!crate::text::is_wspace('3'));
            assert(crate::text::ltrimmed(out@[i].id@) == out@[i].id@);
            assert(crate::text::rtrimmed(out@[i].id@) == out@[i].id@);
        }
        assert forall|i: int| 0 <= i < 3 implies trimmed(out@[i].action@).len() > 0 by {
            assert(i == 0 || i == 1 || i == 2);
            assert(out@[0].action@[0] == 'E');
            assert(out@[1].action@[0] == 'M');
            assert(out@[2].action@[0] == 'R');
            assert(!crate::text::is_wspace('E'));
            assert(!crate::text::is_wspace('M'));
            assert(!crate::text::is_wspace('R'));
            crate::text::lemma_trimmed_nonblank(out@[i].action@);
        }
    }
    out
}


/// What a well-formed Final Packet is: non-blank identity and problem, a
/// recognized output type, exactly the five roles once each with named
/// providers and models, scores within one, and dated, owned actions.
pub open spec fn valid_packet(p: DebateFinalPacket) -> bool {
    &&& trimmed(p.run_id@).len() > 0
    &&& trimmed(p.problem@).len() > 0
    &&& canon_output_type(p.output_type@) is Some
    &&& p.participants@.len() == 5
    &&& (forall|i: int|
        0 <= i < 5 ==> (parsed_role((#[trigger] p.participants@[i]).role@) is Some) && trimmed(
            p.participants@[i].model_provider@,
        ).len() > 0 && trimmed(p.participants@[i].model_name@).len() > 0)
    &&& (forall|i: int, j: int|
        0 <= i < j < 5 ==> parsed_role((#[trigger] p.participants@[i]).role@) != parsed_role(
            (#[trigger] p.participants@[j]).role@,
        ))
    &&& p.consensus.consensus_score_milli <= 1000
    &&& p.consensus.confidence_score_milli <= 1000
    &&& p.next_actions@.len() > 0
    &&& (forall|i: int|
        0 <= i < p.next_actions@.len() ==> trimmed((#[trigger] p.next_actions@[i]).id@).len() > 0
            && trimmed(p.next_actions@[i].action@).len() > 0 && trimmed(
            p.next_actions@[i].owner@,
        ).len() > 0 && valid_date_seq(trimmed(p.next_actions@[i].due@)))
    &&& trimmed(p.timestamps.started_at@).len() > 0
    &&& trimmed(p.timestamps.finished_at@).len() > 0
}

/// Validates a Final Packet: succeeds exactly on well-formed packets.
#[verifier::rlimit(100)]
pub fn validate_final_packet(packet: &DebateFinalPacket) -> (r: Result<(), String>)
    ensures
        r is Ok <==> valid_packet(*packet),
        (r matches Err(e) ==> starts_with_seq(e@, "DEBATE_ERR_"@)),
{
    proof {
        reveal_strlit("DEBATE_ERR_PACKET");
        reveal_strlit("DEBATE_ERR_INPUT");
        reveal_strlit("DEBATE_ERR_");
        reveal_strlit(": ");
    }
    if is_blank(packet.run_id.as_str()) {
        return Err(packet_error("run_id is required"));
    }
    if is_blank(packet.problem.as_str()) {
        return Err(packet_error("problem is required"));
    }
    match crate::debate_norm::normalize_debate_output_type(packet.output_type.as_str()) {
        Ok(_t) => {},
        Err(e) => {
            proof {
                reveal_strlit("DEBATE_ERR_");
                reveal_strlit(
                    "DEBATE_ERR_INPUT: output_type must be one of: decision|writing|architecture|planning|evaluation",
                );
                assert(e@.subrange(0, 11) =~= "DEBATE_ERR_"@);
            }
            return Err(e);
        },
    }
    if packet.participants.len() != 5 {
        return Err(packet_error("participants must contain exactly 5 fixed roles"));
    }
    let mut i: usize = 0;
    while i < 5
        invariant
            i <= 5,
            packet.participants@.len() == 5,
            forall|k: int|
                0 <= k < i ==> (parsed_role((#[trigger] packet.participants@[k]).role@) is Some)
                    && trimmed(packet.participants@[k].model_provider@).len() > 0 && trimmed(
                    packet.participants@[k].model_name@,
                ).len() > 0,
        decreases 5 - i,
    {
        let part = &packet.participants[i];
        match parse_debate_role(part.role.as_str()) {
            Some(_r) => {},
            None => {
                return Err(packet_error("participant role contains invalid value"));
            },
        }
        if is_blank(part.model_provider.as_str()) || is_blank(part.model_name.as_str()) {
            return Err(packet_error("participant provider/model cannot be empty"));
        }
        i = i + 1;
    }
    let mut a: usize = 0;
    while a < 5
        invariant
            a <= 5,
            packet.participants@.len() == 5,
            forall|k: int|
                0 <= k < 5 ==> (parsed_role((#[trigger] packet.participants@[k]).role@) is Some),
            forall|x: int, y: int|
                0 <= x < y < 5 && x < a ==> parsed_role(
                    (#[trigger] packet.participants@[x]).role@,
                ) != parsed_role((#[trigger] packet.participants@[y]).role@),
        decreases 5 - a,
    {
        let ra = parse_debate_role(packet.participants[a].role.as_str());
        let mut b: usize = a + 1;
        while b < 5
            invariant
                a < b || b == a + 1,
                a < 5,
                b <= 5,
                packet.participants@.len() == 5,
                forall|k: int|
                    0 <= k < 5 ==> (parsed_role(
                        (#[trigger] packet.participants@[k]).role@,
                    ) is Some),
                ra == parsed_role(packet.participants@[a as int].role@),
                forall|y: int|
                    a < y < b ==> parsed_role((#[trigger] packet.participants@[y]).role@) != parsed_role(
                        packet.participants@[a as int].role@,
                    ),
            decreases 5 - b,
        {
            let rb = parse_debate_role(packet.participants[b].role.as_str());
            let same = match (ra, rb) {
                (Some(x), Some(y)) => x == y,
                _ => false,
            };
            if same {
                return Err(packet_error("participant roles must be unique and complete"));
            }
            proof {
                assert(parsed_role(packet.participants@[b as int].role@) != parsed_role(
                    packet.participants@[a as int].role@,
                ));
            }
            b = b + 1;
        }
        a = a + 1;
    }
    if packet.consensus.consensus_score_milli > 1000 || packet.consensus.confidence_score_milli
        > 1000 {
        return Err(packet_error("consensus/confidence score must be in [0,1]"));
    }
    if packet.next_actions.len() == 0 {
        return Err(packet_error("next_actions cannot be empty"));
    }
    let mut n: usize = 0;
    while n < packet.next_actions.len()
        invariant
            n <= packet.next_actions@.len(),
            forall|k: int|
                0 <= k < n ==> trimmed((#[trigger] packet.next_actions@[k]).id@).len() > 0
                    && trimmed(packet.next_actions@[k].action@).len() > 0 && trimmed(
                    packet.next_actions@[k].owner@,
                ).len() > 0 && valid_date_seq(trimmed(packet.next_actions@[k].due@)),
        decreases packet.next_actions.len() - n,
    {
        let act = &packet.next_actions[n];
        let due_t = crate::text::trim_str(act.due.as_str());
        if is_blank(act.id.as_str()) || is_blank(act.action.as_str()) || is_blank(
            act.owner.as_str(),
        ) || !crate::dates::is_valid_date_str(due_t.as_str()) {
            return Err(packet_error("next_actions contain invalid fields"));
        }
        n = n + 1;
    }
    if is_blank(packet.timestamps.started_at.as_str()) || is_blank(
        packet.timestamps.finished_at.as_str(),
    ) {
        return Err(packet_error("timestamps.started_at/finished_at are required"));
    }
    Ok(())
}

fn packet_error(message: &str) -> (r: String)
    ensures
        starts_with_seq(r@, "DEBATE_ERR_"@),
{
    let e = debate_error("DEBATE_ERR_PACKET", message);
    proof {
        reveal_strlit("DEBATE_ERR_PACKET");
        reveal_strlit("DEBATE_ERR_");
        reveal_strlit(": ");
        assert(e@.subrange(0, 11) =~= "DEBATE_ERR_"@);
    }
    e
}

/// A score in thousandths rendered with three decimals.
pub open spec fn milli_str(m: int) -> Seq<char> {
    if m == 1000 {
        "1.000"@
    } else {
        "0."@ + zero_padded(m as nat, 3)
    }
}

/// Renders a thousandths score as `0.933` / `1.000`.
pub fn format_milli(m: u32) -> (r: String)
    requires
        m <= 1000,
    ensures
        r@ == milli_str(m as int),
{
    if m == 1000 {
        String::from_str("1.000")
    } else {
        let mut s = String::from_str("0.");
        let d = u64_zero_padded(m as u64, 3);
        let ds = string_from_chars(&d);
        s.append(ds.as_str());
        proof {
            reveal_strlit("0.");
            assert(s@ =~= "0."@ + zero_padded(m as nat, 3));
        }
        s
    }
}


pub open spec fn dash_lines(xs: Seq<Seq<char>>, pre: Seq<char>) -> Seq<Seq<char>> {
    xs.map_values(|x: Seq<char>| pre + x)
}

pub open spec fn rejected_lines(rs: Seq<DebateRejectedOption>) -> Seq<Seq<char>> {
    rs.map_values(|o: DebateRejectedOption| "  - "@ + o.option@ + " ("@ + o.reason@ + ")"@)
}

pub open spec fn risk_lines(rs: Seq<DebateRisk>) -> Seq<Seq<char>> {
    rs.map_values(
        |o: DebateRisk| "- ["@ + o.severity@ + "] "@ + o.risk@ + " -> mitigation: "@
            + o.mitigation@,
    )
}

pub open spec fn action_lines(rs: Seq<DebateAction>) -> Seq<Seq<char>> {
    rs.map_values(
        |o: DebateAction| "- "@ + o.id@ + " | "@ + o.action@ + " | owner="@ + o.owner@ + " | due="@
            + o.due@,
    )
}

/// The lines of a packet's markdown rendering, in order.
pub open spec fn packet_md_lines(p: DebateFinalPacket) -> Seq<Seq<char>> {
    seq![
        "# Debate Final Packet - "@ + p.run_id@,
        Seq::<char>::empty(),
        "**Mode:** "@ + p.mode@,
        "**Output Type:** "@ + p.output_type@,
        "**Started:** "@ + p.timestamps.started_at@,
        "**Finished:** "@ + p.timestamps.finished_at@,
        Seq::<char>::empty(),
        "## Problem"@,
        p.problem@,
        Seq::<char>::empty(),
        "## Constraints"@,
    ] + (if p.constraints@.len() == 0 {
        seq!["- none"@]
    } else {
        dash_lines(strs(p.constraints@), "- "@)
    }) + seq![
        Seq::<char>::empty(),
        "## Conclusion"@,
        "- TL;DR: "@ + summary_line(p.decision.selected_option@, 110),
        "- Selected: "@ + p.decision.selected_option@,
        Seq::<char>::empty(),
        "## Why Selected"@,
    ] + dash_lines(strs(p.decision.why_selected@), "- "@) + (if p.decision.rejected_options@.len()
        > 0 {
        seq!["- Rejected options:"@] + rejected_lines(p.decision.rejected_options@)
    } else {
        Seq::<Seq<char>>::empty()
    }) + seq![
        Seq::<char>::empty(),
        "## Consensus"@,
        "- consensus_score: "@ + milli_str(p.consensus.consensus_score_milli as int),
        "- confidence_score: "@ + milli_str(p.consensus.confidence_score_milli as int),
        "- agreements:"@,
    ] + dash_lines(strs(p.consensus.key_agreements@), "  - "@) + seq!["- disagreements:"@]
        + dash_lines(strs(p.consensus.key_disagreements@), "  - "@) + seq![
        Seq::<char>::empty(),
        "## Risks"@,
    ] + risk_lines(p.risks@) + seq![Seq::<char>::empty(), "## Next Actions"@] + action_lines(
        p.next_actions@,
    ) + seq![
        Seq::<char>::empty(),
        "## Trace"@,
        "- round refs: "@ + join_sep(strs(p.trace.round_refs@), ", "@),
    ] + dash_lines(strs(p.trace.evidence_refs@), "- evidence: "@)
}

/// The packet's markdown rendering.
pub open spec fn packet_md_of(p: DebateFinalPacket) -> Seq<char> {
    join_sep(packet_md_lines(p), "\n"@)
}

fn push_dash_lines(out: &mut Vec<String>, items: &Vec<String>, pre: &str)
    ensures
        strs(final(out)@) == strs(old(out)@) + dash_lines(strs(items@), pre@),
{
    let ghost base = strs(out@);
    let mut i: usize = 0;
    while i < items.len()
        invariant
            i <= items.len(),
            strs(out@) == base + dash_lines(strs(items@.subrange(0, i as int)), pre@),
        decreases items.len() - i,
    {
        let mut line = String::from_str(pre);
        line.append(items[i].as_str());
        let ghost before = out@;
        out.push(line);
        i = i + 1;
        proof {
            crate::util::lemma_strs_push(before, out@.last());
            assert(out@.last()@ == pre@ + items@[i - 1]@);
            assert(strs(items@.subrange(0, i as int)) =~= strs(items@.subrange(0, i - 1)).push(
                items@[i - 1]@,
            ));
            assert(dash_lines(strs(items@.subrange(0, i as int)), pre@) =~= dash_lines(
                strs(items@.subrange(0, i - 1)),
                pre@,
            ).push(pre@ + items@[i - 1]@));
            assert(strs(out@) =~= base + dash_lines(strs(items@.subrange(0, i as int)), pre@));
        }
    }
    proof {
        assert(items@.subrange(0, items@.len() as int) =~= items@);
    }
}

fn push_line(out: &mut Vec<String>, line: String)
    ensures
        strs(final(out)@) == strs(old(out)@).push(line@),
{
    let ghost before = out@;
    out.push(line);
    proof {
        crate::util::lemma_strs_push(before, out@.last());
        assert(out@ =~= before.push(out@.last()));
    }
}

/// Renders a Final Packet to markdown.
#[verifier::rlimit(100)]
pub fn render_debate_packet_markdown(packet: &DebateFinalPacket) -> (r: String)
    requires
        packet.consensus.consensus_score_milli <= 1000,
        packet.consensus.confidence_score_milli <= 1000,
    ensures
        r@ == packet_md_of(*packet),
{
    let mut lines: Vec<String> = Vec::new();
    let mut l0 = String::from_str("# Debate Final Packet - ");
    l0.append(packet.run_id.as_str());
    push_line(&mut lines, l0);
    push_line(&mut lines, String::new());
    let mut l2 = String::from_str("**Mode:** ");
    l2.append(packet.mode.as_str());
    push_line(&mut lines, l2);
    let mut l3 = String::from_str("**Output Type:** ");
    l3.append(packet.output_type.as_str());
    push_line(&mut lines, l3);
    let mut l4 = String::from_str("**Started:** ");
    l4.append(packet.timestamps.started_at.as_str());
    push_line(&mut lines, l4);
    let mut l5 = String::from_str("**Finished:** ");
    l5.append(packet.timestamps.finished_at.as_str());
    push_line(&mut lines, l5);
    push_line(&mut lines, String::new());
    push_line(&mut lines, String::from_str("## Problem"));
    push_line(&mut lines, packet.problem.clone());
    push_line(&mut lines, String::new());
    push_line(&mut lines, String::from_str("## Constraints"));
    let ghost head = strs(lines@);
    if packet.constraints.len() == 0 {
        push_line(&mut lines, String::from_str("- none"));
        proof {
            reveal_strlit("- none");
            assert(strs(lines@) =~= head + seq!["- none"@]);
        }
    } else {
        push_dash_lines(&mut lines, &packet.constraints, "- ");
    }
    let ghost sec1 = strs(lines@);
    push_line(&mut lines, String::new());
    push_line(&mut lines, String::from_str("## Conclusion"));
    let mut tl = String::from_str("- TL;DR: ");
    let tsum = summarize_text_line(packet.decision.selected_option.as_str(), 110);
    tl.append(tsum.as_str());
    push_line(&mut lines, tl);
    let mut sel = String::from_str("- Selected: ");
    sel.append(packet.decision.selected_option.as_str());
    push_line(&mut lines, sel);
    push_line(&mut lines, String::new());
    push_line(&mut lines, String::from_str("## Why Selected"));
    push_dash_lines(&mut lines, &packet.decision.why_selected, "- ");
    let ghost sec2 = strs(lines@);
    if packet.decision.rejected_options.len() > 0 {
        push_line(&mut lines, String::from_str("- Rejected options:"));
        let ghost base = strs(lines@);
        let mut i: usize = 0;
        while i < packet.decision.rejected_options.len()
            invariant
                i <= packet.decision.rejected_options@.len(),
                strs(lines@) == base + rejected_lines(
                    packet.decision.rejected_options@.subrange(0, i as int),
                ),
            decreases packet.decision.rejected_options.len() - i,
        {
            let o = &packet.decision.rejected_options[i];
            let mut line = String::from_str("  - ");
            line.append(o.option.as_str());
            line.append(" (");
            line.append(o.reason.as_str());
            line.append(")");
            let ghost before = lines@;
            lines.push(line);
            i = i + 1;
            proof {
                crate::util::lemma_strs_push(before, lines@.last());
                assert(lines@.last()@ == "  - "@ + packet.decision.rejected_options@[i - 1].option@
                    + " ("@ + packet.decision.rejected_options@[i - 1].reason@ + ")"@);
                assert(packet.decision.rejected_options@.subrange(0, i as int)
                    =~= packet.decision.rejected_options@.subrange(0, i - 1).push(
                    packet.decision.rejected_options@[i - 1],
                ));
                assert(rejected_lines(packet.decision.rejected_options@.subrange(0, i as int))
                    =~= rejected_lines(
                    packet.decision.rejected_options@.subrange(0, i - 1),
                ).push(lines@.last()@));
                assert(strs(lines@) =~= base + rejected_lines(
                    packet.decision.rejected_options@.subrange(0, i as int),
                ));
            }
        }
        proof {
            assert(packet.decision.rejected_options@.subrange(
                0,
                packet.decision.rejected_options@.len() as int,
            ) =~= packet.decision.rejected_options@);
            assert(strs(lines@) =~= sec2 + (seq!["- Rejected options:"@] + rejected_lines(
                packet.decision.rejected_options@,
            )));
        }
    }
    let ghost sec3 = strs(lines@);
    push_line(&mut lines, String::new());
    push_line(&mut lines, String::from_str("## Consensus"));
    let mut cs = String::from_str("- consensus_score: ");
    let csf = format_milli(packet.consensus.consensus_score_milli);
    cs.append(csf.as_str());
    push_line(&mut lines, cs);
    let mut cf = String::from_str("- confidence_score: ");
    let cff = format_milli(packet.consensus.confidence_score_milli);
    cf.append(cff.as_str());
    push_line(&mut lines, cf);
    push_line(&mut lines, String::from_str("- agreements:"));
    push_dash_lines(&mut lines, &packet.consensus.key_agreements, "  - ");
    push_line(&mut lines, String::from_str("- disagreements:"));
    push_dash_lines(&mut lines, &packet.consensus.key_disagreements, "  - ");
    push_line(&mut lines, String::new());
    push_line(&mut lines, String::from_str("## Risks"));
    let ghost sec4 = strs(lines@);
    let mut i: usize = 0;
    while i < packet.risks.len()
        invariant
            i <= packet.risks@.len(),
            strs(lines@) == sec4 + risk_lines(packet.risks@.subrange(0, i as int)),
        decreases packet.risks.len() - i,
    {
        let o = &packet.risks[i];
        let mut line = String::from_str("- [");
        line.append(o.severity.as_str());
        line.append("] ");
        line.append(o.risk.as_str());
        line.append(" -> mitigation: ");
        line.append(o.mitigation.as_str());
        let ghost before = lines@;
        lines.push(line);
        i = i + 1;
        proof {
            crate::util::lemma_strs_push(before, lines@.last());
            assert(lines@.last()@ == "- ["@ + packet.risks@[i - 1].severity@ + "] "@
                + packet.risks@[i - 1].risk@ + " -> mitigation: "@ + packet.risks@[i
                - 1].mitigation@);
            assert(packet.risks@.subrange(0, i as int) =~= packet.risks@.subrange(0, i - 1).push(
                packet.risks@[i - 1],
            ));
            assert(risk_lines(packet.risks@.subrange(0, i as int)) =~= risk_lines(
                packet.risks@.subrange(0, i - 1),
            ).push(lines@.last()@));
            assert(strs(lines@) =~= sec4 + risk_lines(packet.risks@.subrange(0, i as int)));
        }
    }
    proof {
        assert(packet.risks@.subrange(0, packet.risks@.len() as int) =~= packet.risks@);
    }
    push_line(&mut lines, String::new());
    push_line(&mut lines, String::from_str("## Next Actions"));
    let ghost sec5 = strs(lines@);
    let mut i2: usize = 0;
    while i2 < packet.next_actions.len()
        invariant
            i2 <= packet.next_actions@.len(),
            strs(lines@) == sec5 + action_lines(packet.next_actions@.subrange(0, i2 as int)),
        decreases packet.next_actions.len() - i2,
    {
        let o = &packet.next_actions[i2];
        let mut line = String::from_str("- ");
        line.append(o.id.as_str());
        line.append(" | ");
        line.append(o.action.as_str());
        line.append(" | owner=");
        line.append(o.owner.as_str());
        line.append(" | due=");
        line.append(o.due.as_str());
        let ghost before = lines@;
        lines.push(line);
        i2 = i2 + 1;
        proof {
            crate::util::lemma_strs_push(before, lines@.last());
            assert(lines@.last()@ == "- "@ + packet.next_actions@[i2 - 1].id@ + " | "@
                + packet.next_actions@[i2 - 1].action@ + " | owner="@ + packet.next_actions@[i2
                - 1].owner@ + " | due="@ + packet.next_actions@[i2 - 1].due@);
            assert(packet.next_actions@.subrange(0, i2 as int) =~= packet.next_actions@.subrange(
                0,
                i2 - 1,
            ).push(packet.next_actions@[i2 - 1]));
            assert(action_lines(packet.next_actions@.subrange(0, i2 as int)) =~= action_lines(
                packet.next_actions@.subrange(0, i2 - 1),
            ).push(lines@.last()@));
            assert(strs(lines@) =~= sec5 + action_lines(
                packet.next_actions@.subrange(0, i2 as int),
            ));
        }
    }
    proof {
        assert(packet.next_actions@.subrange(0, packet.next_actions@.len() as int)
            =~= packet.next_actions@);
    }
    push_line(&mut lines, String::new());
    push_line(&mut lines, String::from_str("## Trace"));
    let mut rr = String::from_str("- round refs: ");
    let joined = join_with(&packet.trace.round_refs, ", ");
    rr.append(joined.as_str());
    push_line(&mut lines, rr);
    push_dash_lines(&mut lines, &packet.trace.evidence_refs, "- evidence: ");
    proof {
        assert(strs(lines@) =~= packet_md_lines(*packet));
    }
    join_with(&lines, "\n")
}

} // verus!
