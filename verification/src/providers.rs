//! The CLI provider transports' decision logic: argument shapes, model-alias
//! handling, the model-error detector, the retry plan, stream summaries and
//! failure hints. The caller spawns the commands and feeds their output back.

use vstd::prelude::*;
use vstd::string::{StringExecFns, StrSliceExecFns};
use crate::text::{
    chars_eq, chars_vec, contains_chars, contains_seq, lower_chars, lower_seq, string_from_chars,
    trim_chars, trimmed,
};
use crate::util::{
    dec_str, join_sep, join_with, split_lines, split_lines_chars, strs, u64_to_string,
};

verus! {

/// One planned CLI invocation.
pub struct CliInvocation {
    pub args: Vec<String>,
    pub stdin_payload: Option<String>,
    pub output_file: Option<String>,
}

/// The model argument a CLI gets: none for blank, `auto`, `default` or the
/// provider's own alias; the trimmed name otherwise.
pub open spec fn cli_model_arg_of(provider_id: Seq<char>, model: Seq<char>) -> Option<Seq<char>> {
    let t = trimmed(model);
    if t.len() == 0 {
        None
    } else {
        let n = lower_seq(t);
        if n == "auto"@ || n == "default"@ {
            None
        } else if provider_id == "codex-cli"@ && n == "codex"@ {
            None
        } else if provider_id == "gemini-cli"@ && n == "gemini"@ {
            None
        } else if provider_id == "clover-cli"@ && n == "clover"@ {
            None
        } else {
            Some(t)
        }
    }
}

/// Resolves the model argument for a CLI provider.
pub fn normalize_cli_model_arg(provider_id: &str, model: &str) -> (r: Option<String>)
    ensures
        (match (r, cli_model_arg_of(provider_id@, model@)) {
            (Some(a), Some(b)) => a@ == b,
            (None, None) => true,
            _ => false,
        }),
{
    let mv = chars_vec(model);
    let t = trim_chars(&mv);
    if t.len() == 0 {
        return None;
    }
    let n = lower_chars(&t);
    let pid = chars_vec(provider_id);
    if chars_eq(&n, &chars_vec("auto")) || chars_eq(&n, &chars_vec("default")) {
        return None;
    }
    if chars_eq(&pid, &chars_vec("codex-cli")) && chars_eq(&n, &chars_vec("codex")) {
        return None;
    }
    if chars_eq(&pid, &chars_vec("gemini-cli")) && chars_eq(&n, &chars_vec("gemini")) {
        return None;
    }
    if chars_eq(&pid, &chars_vec("clover-cli")) && chars_eq(&n, &chars_vec("clover")) {
        return None;
    }
    Some(string_from_chars(&t))
}

/// The combined, lowered streams a failure is classified from.
pub open spec fn combined_streams(stdout: Seq<char>, stderr: Seq<char>) -> Seq<char> {
    lower_seq(stdout) + "\n"@ + lower_seq(stderr)
}

/// Whether a CLI failure names a model problem.
pub open spec fn is_model_error(stdout: Seq<char>, stderr: Seq<char>) -> bool {
    let c = combined_streams(stdout, stderr);
    ||| contains_seq(c, "invalid model"@)
    ||| contains_seq(c, "unknown model"@)
    ||| contains_seq(c, "unsupported model"@)
    ||| contains_seq(c, "not a supported model"@)
    ||| contains_seq(c, "inaccessible model"@)
    ||| (contains_seq(c, "model"@) && contains_seq(c, "does not exist"@))
    ||| (contains_seq(c, "model"@) && contains_seq(c, "do not have access"@))
    ||| (contains_seq(c, "model"@) && contains_seq(c, "not available"@))
    ||| (contains_seq(c, "model"@) && contains_seq(c, "not found"@))
}

fn combined_streams_exec(stdout: &str, stderr: &str) -> (r: Vec<char>)
    ensures
        r@ == combined_streams(stdout@, stderr@),
{
    let so = chars_vec(stdout);
    let mut c = lower_chars(&so);
    c.push('\n');
    let se = chars_vec(stderr);
    let sel = lower_chars(&se);
    let ghost pre = c@;
    let mut i: usize = 0;
    while i < sel.len()
        invariant
            i <= sel.len(),
            c@ == pre + sel@.subrange(0, i as int),
        decreases sel.len() - i,
    {
        c.push(sel[i]);
        i = i + 1;
        proof {
            assert(c@ =~= pre + sel@.subrange(0, i as int));
        }
    }
    proof {
        reveal_strlit("\n");
        assert(sel@.subrange(0, sel@.len() as int) =~= sel@);
        assert(c@ =~= combined_streams(stdout@, stderr@));
    }
    c
}

/// Detects the model-unsupported signature in a CLI's output.
pub fn is_cli_model_error(stdout: &str, stderr: &str) -> (r: bool)
    ensures
        r == is_model_error(stdout@, stderr@),
{
    let c = combined_streams_exec(stdout, stderr);
    contains_chars(&c, &chars_vec("invalid model")) || contains_chars(
        &c,
        &chars_vec("unknown model"),
    ) || contains_chars(&c, &chars_vec("unsupported model")) || contains_chars(
        &c,
        &chars_vec("not a supported model"),
    ) || contains_chars(&c, &chars_vec("inaccessible model")) || (contains_chars(
        &c,
        &chars_vec("model"),
    ) && (contains_chars(&c, &chars_vec("does not exist")) || contains_chars(
        &c,
        &chars_vec("do not have access"),
    ) || contains_chars(&c, &chars_vec("not available")) || contains_chars(
        &c,
        &chars_vec("not found"),
    )))
}

/// The retries a failed first attempt earns: nothing unless the failure is a
/// model error; then one attempt with the provider default (when a model had
/// been named) followed by each fallback model the first attempt did not use.
pub open spec fn retry_models_of(
    model_override: Option<Seq<char>>,
    fallbacks: Seq<Seq<char>>,
    stdout: Seq<char>,
    stderr: Seq<char>,
) -> Seq<Option<Seq<char>>> {
    if !is_model_error(stdout, stderr) {
        Seq::empty()
    } else {
        (match model_override {
            Some(_m) => seq![None::<Seq<char>>],
            None => Seq::empty(),
        }) + fallbacks.filter(|f: Seq<char>| model_override != Some(f)).map_values(
            |f: Seq<char>| Some(f),
        )
    }
}

/// Plans the retry sequence after a failed CLI attempt.
pub fn cli_retry_plan(
    model_override: Option<&str>,
    fallbacks: &Vec<String>,
    stdout: &str,
    stderr: &str,
) -> (r: Vec<Option<String>>)
    ensures
        ({
            let spec_r = retry_models_of(
                (match model_override {
                    Some(m) => Some(m@),
                    None => None,
                }),
                strs(fallbacks@),
                stdout@,
                stderr@,
            );
            &&& r@.len() == spec_r.len()
            &&& (forall|i: int|
                0 <= i < r@.len() ==> (match (#[trigger] r@[i], spec_r[i]) {
                    (Some(a), Some(b)) => a@ == b,
                    (None, None) => true,
                    _ => false,
                }))
        }),
{
    let ghost mo = (match model_override {
        Some(m) => Some(m@),
        None => None::<Seq<char>>,
    });
    let mut out: Vec<Option<String>> = Vec::new();
    if !is_cli_model_error(stdout, stderr) {
        return out;
    }
    match model_override {
        Some(_m) => {
            out.push(None);
        },
        None => {},
    }
    let ghost head_len = out@.len() as int;
    let ghost kept = strs(fallbacks@).filter(|f: Seq<char>| mo != Some(f));
    let mut i: usize = 0;
    proof {
        assert(strs(fallbacks@.subrange(0, 0)).filter(|f: Seq<char>| mo != Some(f)) =~= Seq::<
            Seq<char>,
        >::empty());
    }
    while i < fallbacks.len()
        invariant
            i <= fallbacks@.len(),
            mo == (match model_override {
                Some(m) => Some(m@),
                None => None::<Seq<char>>,
            }),
            head_len == (match model_override {
                Some(m) => 1int,
                None => 0int,
            }),
            out@.len() == head_len + strs(fallbacks@.subrange(0, i as int)).filter(
                |f: Seq<char>| mo != Some(f),
            ).len(),
            (match model_override {
                Some(m) => out@.len() >= 1 && out@[0] is None,
                None => true,
            }),
            forall|k: int|
                head_len <= k < out@.len() ==> ((#[trigger] out@[k]) matches Some(s) && s@ == strs(
                    fallbacks@.subrange(0, i as int),
                ).filter(|f: Seq<char>| mo != Some(f))[k - head_len]),
        decreases fallbacks.len() - i,
    {
        let fv = chars_vec(fallbacks[i].as_str());
        let skip_this = match model_override {
            Some(m) => {
                let mv = chars_vec(m);
                chars_eq(&fv, &mv)
            },
            None => false,
        };
        let ghost prefix = strs(fallbacks@.subrange(0, i as int)).filter(
            |f: Seq<char>| mo != Some(f),
        );
        if !skip_this {
            out.push(Some(fallbacks[i].clone()));
        }
        i = i + 1;
        proof {
            let cur = strs(fallbacks@.subrange(0, i as int));
            assert(cur =~= strs(fallbacks@.subrange(0, i - 1)).push(fallbacks@[i - 1]@));
            reveal_with_fuel(Seq::filter, 2);
            assert(cur.drop_last() =~= strs(fallbacks@.subrange(0, i - 1)));
            assert(cur.last() == fallbacks@[i - 1]@);
            if mo != Some(fallbacks@[i - 1]@) {
                assert(cur.filter(|f: Seq<char>| mo != Some(f)) =~= prefix.push(
                    fallbacks@[i - 1]@,
                ));
            } else {
                assert(cur.filter(|f: Seq<char>| mo != Some(f)) =~= prefix);
            }
        }
    }
    proof {
        assert(fallbacks@.subrange(0, fallbacks@.len() as int) =~= fallbacks@);
        let spec_r = retry_models_of(mo, strs(fallbacks@), stdout@, stderr@);
        assert(kept.map_values(|f: Seq<char>| Some(f)).len() == kept.len());
        assert forall|k: int| 0 <= k < out@.len() implies (match (
            #[trigger] out@[k],
            spec_r[k],
        ) {
            (Some(a), Some(b)) => a@ == b,
            (None, None) => true,
            _ => false,
        }) by {
            if k >= head_len {
                assert(spec_r[k] == kept.map_values(|f: Seq<char>| Some(f))[k - head_len]);
                assert(kept.map_values(|f: Seq<char>| Some(f))[k - head_len] == Some(
                    kept[k - head_len],
                ));
            }
        }
    }
    out
}

/// The fixed codex transport invocation: an `exec` run that reads its prompt
/// on stdin (the placeholder payload is swapped for the prompt at spawn time)
/// and writes the model's last message to the given file.
pub fn build_codex_cli_args(
    model: Option<&str>,
    prompt: &str,
    timeout_secs: u64,
    max_tokens: u32,
    output_path: &str,
) -> (r: CliInvocation)
    ensures
        (r.stdin_payload matches Some(s) && s@ == Seq::<char>::empty()),
        (r.output_file matches Some(p) && p@ == output_path@),
        strs(r.args@) == seq![
            "exec"@,
            "-"@,
            "-c"@,
            "model_reasoning_effort=\"high\""@,
            "--skip-git-repo-check"@,
            "--sandbox"@,
            "read-only"@,
            "--output-last-message"@,
            output_path@,
            "--color"@,
            "never"@,
        ] + (match model {
            Some(m) => seq!["--model"@, m@],
            None => Seq::<Seq<char>>::empty(),
        }),
{
    let mut args: Vec<String> = Vec::new();
    args.push(String::from_str("exec"));
    args.push(String::from_str("-"));
    args.push(String::from_str("-c"));
    args.push(String::from_str("model_reasoning_effort=\"high\""));
    args.push(String::from_str("--skip-git-repo-check"));
    args.push(String::from_str("--sandbox"));
    args.push(String::from_str("read-only"));
    args.push(String::from_str("--output-last-message"));
    args.push(String::from_str(output_path));
    args.push(String::from_str("--color"));
    args.push(String::from_str("never"));
    match model {
        Some(m) => {
            args.push(String::from_str("--model"));
            args.push(String::from_str(m));
        },
        None => {},
    }
    proof {
        assert(strs(args@) =~= seq![
            "exec"@,
            "-"@,
            "-c"@,
            "model_reasoning_effort=\"high\""@,
            "--skip-git-repo-check"@,
            "--sandbox"@,
            "read-only"@,
            "--output-last-message"@,
            output_path@,
            "--color"@,
            "never"@,
        ] + (match model {
            Some(m) => seq!["--model"@, m@],
            None => Seq::<Seq<char>>::empty(),
        }));
    }
    CliInvocation {
        args,
        stdin_payload: Some(String::new()),
        output_file: Some(String::from_str(output_path)),
    }
}

/// The gemini transport invocation: the prompt as the first argument, JSON
/// output requested.
pub fn build_gemini_cli_args(model: Option<&str>, prompt: &str, timeout_secs: u64, max_tokens: u32) -> (r: CliInvocation)
    ensures
        r.stdin_payload is None,
        r.output_file is None,
        strs(r.args@) == seq![prompt@, "--output-format"@, "json"@] + (match model {
            Some(m) => seq!["--model"@, m@],
            None => Seq::<Seq<char>>::empty(),
        }),
{
    let mut args: Vec<String> = Vec::new();
    args.push(String::from_str(prompt));
    args.push(String::from_str("--output-format"));
    args.push(String::from_str("json"));
    match model {
        Some(m) => {
            args.push(String::from_str("--model"));
            args.push(String::from_str(m));
        },
        None => {},
    }
    proof {
        assert(strs(args@) =~= seq![prompt@, "--output-format"@, "json"@] + (match model {
            Some(m) => seq!["--model"@, m@],
            None => Seq::<Seq<char>>::empty(),
        }));
    }
    CliInvocation { args, stdin_payload: None, output_file: None }
}

/// The clover transport invocation: print mode, JSON output, the prompt last.
pub fn build_clover_cli_args(model: Option<&str>, prompt: &str, timeout_secs: u64, max_tokens: u32) -> (r: CliInvocation)
    ensures
        r.stdin_payload is None,
        r.output_file is None,
        strs(r.args@) == seq!["--print"@, "--output-format"@, "json"@] + (match model {
            Some(m) => seq!["--model"@, m@],
            None => Seq::<Seq<char>>::empty(),
        }) + seq![prompt@],
{
    let mut args: Vec<String> = Vec::new();
    args.push(String::from_str("--print"));
    args.push(String::from_str("--output-format"));
    args.push(String::from_str("json"));
    match model {
        Some(m) => {
            args.push(String::from_str("--model"));
            args.push(String::from_str(m));
        },
        None => {},
    }
    args.push(String::from_str(prompt));
    proof {
        assert(strs(args@) =~= seq!["--print"@, "--output-format"@, "json"@] + (match model {
            Some(m) => seq!["--model"@, m@],
            None => Seq::<Seq<char>>::empty(),
        }) + seq![prompt@]);
    }
    CliInvocation { args, stdin_payload: None, output_file: None }
}

/// The non-blank lines of a stream, trimmed.
pub open spec fn stream_lines(s: Seq<char>) -> Seq<Seq<char>> {
    split_lines(s).map_values(|l: Seq<char>| trimmed(l)).filter(|l: Seq<char>| l.len() > 0)
}

/// A short summary of a CLI stream: everything when it has at most eight
/// non-blank lines; the first and last four around an omission marker
/// otherwise.
pub open spec fn stream_summary(s: Seq<char>) -> Seq<char> {
    let ls = stream_lines(s);
    if ls.len() == 0 {
        Seq::empty()
    } else if ls.len() <= 8 {
        join_sep(ls, " | "@)
    } else {
        join_sep(
            ls.subrange(0, 4) + seq![
                "... ("@ + dec_str((ls.len() - 8) as nat) + " lines omitted) ..."@,
            ] + ls.subrange(ls.len() - 4, ls.len() as int),
            " | "@,
        )
    }
}

/// Summarizes a CLI stream to one line.
pub fn summarize_cli_stream(stream: &str) -> (r: String)
    ensures
        r@ == stream_summary(stream@),
{
    let v = chars_vec(stream);
    let raw = split_lines_chars(&v);
    let mut lines: Vec<String> = Vec::new();
    let mut i: usize = 0;
    proof {
        assert(raw@.map_values(|p: Vec<char>| p@).subrange(0, 0).map_values(
            |l: Seq<char>| trimmed(l),
        ).filter(|l: Seq<char>| l.len() > 0) =~= Seq::<Seq<char>>::empty());
        assert(strs(lines@) =~= Seq::<Seq<char>>::empty());
    }
    while i < raw.len()
        invariant
            i <= raw.len(),
            strs(lines@) == raw@.map_values(|p: Vec<char>| p@).subrange(0, i as int).map_values(
                |l: Seq<char>| trimmed(l),
            ).filter(|l: Seq<char>| l.len() > 0),
        decreases raw.len() - i,
    {
        let t = trim_chars(&raw[i]);
        if t.len() > 0 {
            lines.push(string_from_chars(&t));
        }
        i = i + 1;
        proof {
            let rv = raw@.map_values(|p: Vec<char>| p@);
            let cur = rv.subrange(0, i as int).map_values(|l: Seq<char>| trimmed(l));
            assert(rv.subrange(0, i as int) =~= rv.subrange(0, i - 1).push(rv[i - 1]));
            assert(cur.drop_last() =~= rv.subrange(0, i - 1).map_values(|l: Seq<char>| trimmed(l)));
            assert(cur.last() == trimmed(rv[i - 1]));
            reveal_with_fuel(Seq::filter, 2);
            assert(cur =~= cur.drop_last().push(trimmed(rv[i - 1])));
            assert(strs(lines@) =~= cur.filter(|l: Seq<char>| l.len() > 0));
        }
    }
    proof {
        let rv = raw@.map_values(|p: Vec<char>| p@);
        assert(rv.subrange(0, rv.len() as int) =~= rv);
    }
    if lines.len() == 0 {
        return String::new();
    }
    if lines.len() <= 8 {
        return join_with(&lines, " | ");
    }
    let mut picked: Vec<String> = Vec::new();
    picked.push(lines[0].clone());
    picked.push(lines[1].clone());
    picked.push(lines[2].clone());
    picked.push(lines[3].clone());
    let mut omit = String::from_str("... (");
    let n = u64_to_string((lines.len() - 8) as u64);
    omit.append(n.as_str());
    omit.append(" lines omitted) ...");
    proof {
        reveal_strlit("... (");
        reveal_strlit(" lines omitted) ...");
        assert(omit@ =~= "... ("@ + dec_str((strs(lines@).len() - 8) as nat)
            + " lines omitted) ..."@);
    }
    picked.push(omit);
    picked.push(lines[lines.len() - 4].clone());
    picked.push(lines[lines.len() - 3].clone());
    picked.push(lines[lines.len() - 2].clone());
    picked.push(lines[lines.len() - 1].clone());
    proof {
        let ls = strs(lines@);
        assert(strs(picked@) =~= ls.subrange(0, 4) + seq![
            "... ("@ + dec_str((ls.len() - 8) as nat) + " lines omitted) ..."@,
        ] + ls.subrange(ls.len() - 4, ls.len() as int));
    }
    join_with(&picked, " | ")
}

/// The operator hint a codex transport failure earns.
pub open spec fn codex_hint_of(stdout: Seq<char>, stderr: Seq<char>) -> Seq<char> {
    let c = combined_streams(stdout, stderr);
    if is_model_error(stdout, stderr) {
        "Model is not available for codex-cli. Leave model blank (auto) or choose a codex-supported model."@
    } else if contains_seq(c, "cannot access session files"@) || (contains_seq(
        c,
        ".codex/sessions"@,
    ) && contains_seq(c, "permission denied"@)) {
        "Codex session directory permission denied. Fix with: sudo chown -R $(whoami) ~/.codex"@
    } else if contains_seq(c, "login"@) && contains_seq(c, "codex"@) {
        "Codex may not be authenticated. Run `codex login` in terminal first."@
    } else if contains_seq(c, "error sending request for url"@) || contains_seq(
        c,
        "stream disconnected"@,
    ) || contains_seq(c, "network error"@) {
        "Codex network/API call failed. Check network and model access."@
    } else {
        "Check `codex exec` manually in terminal to inspect full error output."@
    }
}

pub fn codex_cli_failure_hint(stdout: &str, stderr: &str) -> (r: &'static str)
    ensures
        r@ == codex_hint_of(stdout@, stderr@),
{
    let c = combined_streams_exec(stdout, stderr);
    if is_cli_model_error(stdout, stderr) {
        "Model is not available for codex-cli. Leave model blank (auto) or choose a codex-supported model."
    } else if contains_chars(&c, &chars_vec("cannot access session files")) || (contains_chars(
        &c,
        &chars_vec(".codex/sessions"),
    ) && contains_chars(&c, &chars_vec("permission denied"))) {
        "Codex session directory permission denied. Fix with: sudo chown -R $(whoami) ~/.codex"
    } else if contains_chars(&c, &chars_vec("login")) && contains_chars(&c, &chars_vec("codex")) {
        "Codex may not be authenticated. Run `codex login` in terminal first."
    } else if contains_chars(&c, &chars_vec("error sending request for url")) || contains_chars(
        &c,
        &chars_vec("stream disconnected"),
    ) || contains_chars(&c, &chars_vec("network error")) {
        "Codex network/API call failed. Check network and model access."
    } else {
        "Check `codex exec` manually in terminal to inspect full error output."
    }
}

pub open spec fn gemini_hint_of(stdout: Seq<char>, stderr: Seq<char>) -> Seq<char> {
    let c = combined_streams(stdout, stderr);
    if is_model_error(stdout, stderr) {
        "Model is not available for gemini-cli. Leave model blank (auto) or choose a Gemini CLI supported model."@
    } else if contains_seq(c, "login"@) || contains_seq(c, "auth"@) {
        "Gemini CLI may not be authenticated. Run `gemini` once to complete login/auth."@
    } else if contains_seq(c, "api key"@) {
        "Gemini CLI requires API key/auth setup. Check your Gemini CLI auth configuration."@
    } else if contains_seq(c, "network error"@) || contains_seq(c, "connection"@) {
        "Gemini CLI network/API call failed. Check network and CLI status."@
    } else {
        "Check `gemini` command manually in terminal to inspect full error output."@
    }
}

pub fn gemini_cli_failure_hint(stdout: &str, stderr: &str) -> (r: &'static str)
    ensures
        r@ == gemini_hint_of(stdout@, stderr@),
{
    let c = combined_streams_exec(stdout, stderr);
    if is_cli_model_error(stdout, stderr) {
        "Model is not available for gemini-cli. Leave model blank (auto) or choose a Gemini CLI supported model."
    } else if contains_chars(&c, &chars_vec("login")) || contains_chars(&c, &chars_vec("auth")) {
        "Gemini CLI may not be authenticated. Run `gemini` once to complete login/auth."
    } else if contains_chars(&c, &chars_vec("api key")) {
        "Gemini CLI requires API key/auth setup. Check your Gemini CLI auth configuration."
    } else if contains_chars(&c, &chars_vec("network error")) || contains_chars(
        &c,
        &chars_vec("connection"),
    ) {
        "Gemini CLI network/API call failed. Check network and CLI status."
    } else {
        "Check `gemini` command manually in terminal to inspect full error output."
    }
}

pub open spec fn clover_hint_of(stdout: Seq<char>, stderr: Seq<char>) -> Seq<char> {
    let c = combined_streams(stdout, stderr);
    if is_model_error(stdout, stderr) {
        "Model is not available for clover-cli. Leave model blank (auto) or choose a Clover CLI supported model."@
    } else if contains_seq(c, "login"@) || contains_seq(c, "auth"@) {
        "Clover CLI may not be authenticated. Run `clover` once to complete login/auth."@
    } else if contains_seq(c, "api key"@) {
        "Clover CLI requires API key/auth setup. Check your Clover CLI auth configuration."@
    } else if contains_seq(c, "network error"@) || contains_seq(c, "connection"@) {
        "Clover CLI network/API call failed. Check network and CLI status."@
    } else {
        "Check `clover` command manually in terminal to inspect full error output."@
    }
}

pub fn clover_cli_failure_hint(stdout: &str, stderr: &str) -> (r: &'static str)
    ensures
        r@ == clover_hint_of(stdout@, stderr@),
{
    let c = combined_streams_exec(stdout, stderr);
    if is_cli_model_error(stdout, stderr) {
        "Model is not available for clover-cli. Leave model blank (auto) or choose a Clover CLI supported model."
    } else if contains_chars(&c, &chars_vec("login")) || contains_chars(&c, &chars_vec("auth")) {
        "Clover CLI may not be authenticated. Run `clover` once to complete login/auth."
    } else if contains_chars(&c, &chars_vec("api key")) {
        "Clover CLI requires API key/auth setup. Check your Clover CLI auth configuration."
    } else if contains_chars(&c, &chars_vec("network error")) || contains_chars(
        &c,
        &chars_vec("connection"),
    ) {
        "Clover CLI network/API call failed. Check network and CLI status."
    } else {
        "Check `clover` command manually in terminal to inspect full error output."
    }
}

/// The error code a provider's turn failures carry.
pub open spec fn provider_code_of(provider: Seq<char>) -> Seq<char> {
    if provider == "openai"@ {
        "DEBATE_ERR_PROVIDER_OPENAI"@
    } else if provider == "gemini"@ {
        "DEBATE_ERR_PROVIDER_GEMINI"@
    } else if provider == "clover"@ {
        "DEBATE_ERR_PROVIDER_CLOVER"@
    } else if provider == "codex-cli"@ {
        "DEBATE_ERR_PROVIDER_CODEX_CLI"@
    } else if provider == "gemini-cli"@ {
        "DEBATE_ERR_PROVIDER_GEMINI_CLI"@
    } else if provider == "clover-cli"@ {
        "DEBATE_ERR_PROVIDER_CLOVER_CLI"@
    } else {
        "DEBATE_ERR_PROVIDER_UNSUPPORTED"@
    }
}

/// Maps a provider id to the error code its failed turns carry.
pub fn provider_error_code(provider: &str) -> (r: &'static str)
    ensures
        r@ == provider_code_of(provider@),
{
    let p = chars_vec(provider);
    if chars_eq(&p, &chars_vec("openai")) {
        "DEBATE_ERR_PROVIDER_OPENAI"
    } else if chars_eq(&p, &chars_vec("gemini")) {
        "DEBATE_ERR_PROVIDER_GEMINI"
    } else if chars_eq(&p, &chars_vec("clover")) {
        "DEBATE_ERR_PROVIDER_CLOVER"
    } else if chars_eq(&p, &chars_vec("codex-cli")) {
        "DEBATE_ERR_PROVIDER_CODEX_CLI"
    } else if chars_eq(&p, &chars_vec("gemini-cli")) {
        "DEBATE_ERR_PROVIDER_GEMINI_CLI"
    } else if chars_eq(&p, &chars_vec("clover-cli")) {
        "DEBATE_ERR_PROVIDER_CLOVER_CLI"
    } else {
        "DEBATE_ERR_PROVIDER_UNSUPPORTED"
    }
}

/// The three models codex falls back to on a model error.
pub fn codex_model_fallbacks() -> (r: Vec<String>)
    ensures
        strs(r@) == seq!["gpt-5-codex"@, "o3"@, "o4-mini"@],
{
    let mut v: Vec<String> = Vec::new();
    v.push(String::from_str("gpt-5-codex"));
    v.push(String::from_str("o3"));
    v.push(String::from_str("o4-mini"));
    proof {
        assert(strs(v@) =~= seq!["gpt-5-codex"@, "o3"@, "o4-mini"@]);
    }
    v
}

} // verus!
