//! The audio stack check: which sound server runs, if any.

use crate::runner::{Capture, CommandOutput};
use crate::text::{
    begins_with, chars_of, contains, first_chars, lines, lowercase, lowercase_of, push_all,
    push_str, rows, same, slice, split_lines, starts_with, str_contains, string_of, trim,
    trimmed,
};
use crate::types::{
    debugged, error_outcome, ok_outcome, warning_outcome, CheckResult, Outcome,
};
use vstd::prelude::*;

verus! {

/// `s` without `p` at its beginning, as often as `p` stands there.
pub open spec fn without_leading(s: Seq<char>, p: Seq<char>) -> Seq<char>
    decreases s.len(),
{
    if p.len() > 0 && starts_with(s, p) {
        without_leading(s.skip(p.len() as int), p)
    } else {
        s
    }
}

/// The first of the lines that begins with `p`.
pub open spec fn first_with(ls: Seq<Seq<char>>, p: Seq<char>) -> Option<Seq<char>>
    decreases ls.len(),
{
    if ls.len() == 0 {
        None
    } else {
        match first_with(ls.drop_last(), p) {
            Some(l) => Some(l),
            None => if starts_with(ls.last(), p) {
                Some(ls.last())
            } else {
                None
            },
        }
    }
}

/// A line found among the first `n` is the one found among all.
pub proof fn lemma_first_with_found(ls: Seq<Seq<char>>, p: Seq<char>, n: int)
    requires
        0 <= n <= ls.len(),
        first_with(ls.take(n), p) is Some,
    ensures
        first_with(ls, p) == first_with(ls.take(n), p),
    decreases ls.len() - n,
{
    if n == ls.len() {
        assert(ls.take(n) == ls);
    } else {
        assert(ls.take(n + 1).drop_last() == ls.take(n));
        lemma_first_with_found(ls, p, n + 1);
    }
}

/// The server name that the sound server's report gives: what follows
/// `Server Name:` on the first line that begins so, trimmed; empty without
/// such a line.
pub open spec fn server_name_of(report: Seq<char>) -> Seq<char> {
    match first_with(lines(report), "Server Name:"@) {
        Some(line) => trim(without_leading(line, "Server Name:"@)),
        None => Seq::empty(),
    }
}

/// The server name that the sound server's report gives.
pub fn server_name(report: &str) -> (name: String)
    ensures
        name@ == server_name_of(report@),
{
    let ls = split_lines(&chars_of(report));
    let prefix = chars_of("Server Name:");
    let ghost all = rows(ls@);
    let mut i: usize = 0;
    assert(all.take(0) == Seq::<Seq<char>>::empty());
    while i < ls.len()
        invariant
            i <= ls.len(),
            all == rows(ls@),
            all == lines(report@),
            prefix@ == "Server Name:"@,
            first_with(all.take(i as int), prefix@) is None,
        decreases ls.len() - i,
    {
        assert(all.take(i + 1).drop_last() == all.take(i as int));
        assert(all.take(i + 1).last() == ls@[i as int]@);
        let line = &ls[i];
        if begins_with(line, &prefix) {
            proof {
                lemma_first_with_found(all, prefix@, i + 1);
            }
            let mut from: usize = 0;
            assert(line@.skip(0) == line@);
            while prefix.len() > 0 && from <= line.len() && begins_with(
                &slice(line, from, line.len()),
                &prefix,
            )
                invariant
                    from <= line.len(),
                    without_leading(line@, prefix@) == without_leading(
                        line@.skip(from as int),
                        prefix@,
                    ),
                decreases line.len() - from,
            {
                assert(line@.skip(from as int).skip(prefix.len() as int) == line@.skip(
                    from + prefix.len(),
                ));
                from = from + prefix.len();
            }
            let rest = slice(line, from, line.len());
            return string_of(&trimmed(&rest));
        }
        i = i + 1;
    }
    assert(all.take(ls.len() as int) == all);
    String::new()
}

/// The name of this check.
pub open spec fn check_name() -> Seq<char> {
    "audio_stack"@
}

/// The outcome for what is known of the sound servers: whether the two
/// services run, whether the sound server answered, and whether it gave
/// PipeWire as its name. With both services running all is well. PipeWire
/// without WirePlumber is a warning. Without PipeWire, a sound server that
/// does not answer is an error. One that answers while neither service runs
/// is fine: PulseAudio in legacy mode, or PipeWire started through its
/// socket. One that answers while WirePlumber runs without PipeWire leaves
/// the state unclear.
pub open spec fn stack_verdict(
    pipewire_running: bool,
    wireplumber_running: bool,
    pactl_works: bool,
    is_pipewire_pulse: bool,
) -> Outcome {
    if pipewire_running && wireplumber_running {
        ok_outcome(check_name(), "PipeWire and WirePlumber are running"@)
    } else if pipewire_running {
        warning_outcome(
            check_name(),
            "PipeWire is running but WirePlumber is not"@,
            "Start WirePlumber: systemctl --user start wireplumber"@,
        )
    } else if !pactl_works {
        error_outcome(
            check_name(),
            "No audio server detected"@,
            "Start PipeWire: systemctl --user start pipewire pipewire-pulse wireplumber"@,
        )
    } else if wireplumber_running {
        warning_outcome(
            check_name(),
            "Audio stack status is unclear"@,
            "Check your audio server manually: systemctl --user status pipewire"@,
        )
    } else if !is_pipewire_pulse {
        ok_outcome(check_name(), "PulseAudio is running (legacy mode)"@)
    } else {
        ok_outcome(check_name(), "PipeWire is running (socket-activated)"@)
    }
}

/// The outcome for what is known of the sound servers.
pub fn judge_stack(
    pipewire_running: bool,
    wireplumber_running: bool,
    pactl_works: bool,
    is_pipewire_pulse: bool,
) -> (r: CheckResult)
    ensures
        r@ == stack_verdict(
            pipewire_running,
            wireplumber_running,
            pactl_works,
            is_pipewire_pulse,
        ),
{
    if pipewire_running && wireplumber_running {
        CheckResult::ok("audio_stack", "PipeWire and WirePlumber are running")
    } else if pipewire_running {
        CheckResult::warning(
            "audio_stack",
            "PipeWire is running but WirePlumber is not",
            "Start WirePlumber: systemctl --user start wireplumber",
        )
    } else if !pactl_works {
        CheckResult::error(
            "audio_stack",
            "No audio server detected",
            "Start PipeWire: systemctl --user start pipewire pipewire-pulse wireplumber",
        )
    } else if wireplumber_running {
        CheckResult::warning(
            "audio_stack",
            "Audio stack status is unclear",
            "Check your audio server manually: systemctl --user status pipewire",
        )
    } else if !is_pipewire_pulse {
        CheckResult::ok("audio_stack", "PulseAudio is running (legacy mode)")
    } else {
        CheckResult::ok("audio_stack", "PipeWire is running (socket-activated)")
    }
}

/// Whether a service is active, by what the service manager printed.
pub open spec fn says_active(answer: Seq<char>) -> bool {
    trim(answer) == "active"@
}

/// The evidence kept of the three commands.
pub open spec fn evidence_of(pipewire: Seq<char>, wireplumber: Seq<char>, report: Seq<char>) -> Seq<
    char,
> {
    "systemctl --user is-active pipewire:\n"@ + trim(pipewire) + "\n"@
        + "systemctl --user is-active wireplumber:\n"@ + trim(wireplumber) + "\n"@
        + "pactl info (first 500 chars):\n"@ + report.take(
        if report.len() >= 500 {
            500
        } else {
            report.len() as int
        },
    ) + "\n"@
}

/// The outcome of the audio stack check, given what the service manager
/// says of the two services and what the sound server reports of itself.
pub open spec fn stack_outcome(pipewire: Capture, wireplumber: Capture, report: Capture) -> Outcome {
    debugged(
        stack_verdict(
            says_active(pipewire.stdout),
            says_active(wireplumber.stdout),
            report.success,
            contains(lowercase_of(server_name_of(report.stdout)), "pipewire"@),
        ),
        evidence_of(pipewire.stdout, wireplumber.stdout, report.stdout),
    )
}

/// Checks which sound server runs. `pipewire` and `wireplumber` are what the
/// service manager answered when asked whether each service is active,
/// `pactl_info` is the sound server's report of itself.
pub fn check_audio_stack(
    pipewire: &CommandOutput,
    wireplumber: &CommandOutput,
    pactl_info: &CommandOutput,
) -> (r: CheckResult)
    ensures
        r@ == stack_outcome(pipewire@, wireplumber@, pactl_info@),
{
    let pipewire_answer = trimmed(&chars_of(pipewire.stdout.as_str()));
    let wireplumber_answer = trimmed(&chars_of(wireplumber.stdout.as_str()));
    let active = chars_of("active");
    let mut debug: Vec<char> = Vec::new();
    push_str(&mut debug, "systemctl --user is-active pipewire:\n");
    push_all(&mut debug, &pipewire_answer);
    push_str(&mut debug, "\n");
    push_str(&mut debug, "systemctl --user is-active wireplumber:\n");
    push_all(&mut debug, &wireplumber_answer);
    push_str(&mut debug, "\n");
    push_str(&mut debug, "pactl info (first 500 chars):\n");
    push_all(&mut debug, &first_chars(&chars_of(pactl_info.stdout.as_str()), 500));
    push_str(&mut debug, "\n");
    assert(debug@ =~= evidence_of(pipewire@.stdout, wireplumber@.stdout, pactl_info@.stdout));
    let name_lower = lowercase(server_name(pactl_info.stdout.as_str()).as_str());
    judge_stack(
        same(&pipewire_answer, &active),
        same(&wireplumber_answer, &active),
        pactl_info.success,
        str_contains(name_lower.as_str(), "pipewire"),
    ).with_debug(string_of(&debug).as_str())
}

} // verus!
