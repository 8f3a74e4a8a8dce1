//! The device check: without a sound card nothing can play.

use crate::runner::{Capture, CommandOutput};
use crate::text::{
    begins_with, chars_of, contains, decimal, lines, push_decimal, push_str, rows, split_lines,
    starts_with, str_contains, string_of,
};
use crate::types::{
    debugged, error_outcome, ok_outcome, warning_outcome, CheckResult, Outcome,
};
use vstd::prelude::*;

verus! {

/// How many of the lines begin with `card `.
pub open spec fn card_lines(ls: Seq<Seq<char>>) -> nat
    decreases ls.len(),
{
    if ls.len() == 0 {
        0
    } else {
        card_lines(ls.drop_last()) + if starts_with(ls.last(), "card "@) {
            1nat
        } else {
            0nat
        }
    }
}

/// No more lines begin with `card ` than there are lines.
pub proof fn lemma_card_lines_bound(ls: Seq<Seq<char>>)
    ensures
        card_lines(ls) <= ls.len(),
    decreases ls.len(),
{
    if ls.len() > 0 {
        lemma_card_lines_bound(ls.drop_last());
    }
}

/// The number of sound cards that a device listing shows.
pub fn count_cards(listing: &str) -> (n: usize)
    ensures
        n == card_lines(lines(listing@)),
{
    let ls = split_lines(&chars_of(listing));
    let prefix = chars_of("card ");
    let ghost all = rows(ls@);
    let mut n: usize = 0;
    let mut i: usize = 0;
    assert(all.take(0) == Seq::<Seq<char>>::empty());
    while i < ls.len()
        invariant
            i <= ls.len(),
            all == rows(ls@),
            prefix@ == "card "@,
            n == card_lines(all.take(i as int)),
            n <= i,
        decreases ls.len() - i,
    {
        assert(all.take(i + 1).drop_last() == all.take(i as int));
        assert(all.take(i + 1).last() == ls@[i as int]@);
        if begins_with(&ls[i], &prefix) {
            n = n + 1;
        }
        i = i + 1;
    }
    assert(all.take(ls.len() as int) == all);
    n
}

/// The name of this check.
pub open spec fn check_name() -> Seq<char> {
    "audio_devices"@
}

/// The outcome that no device was found.
pub open spec fn no_device() -> Outcome {
    error_outcome(
        check_name(),
        "No audio devices detected"@,
        "Possible cause: missing driver or disabled device in BIOS"@,
    )
}

/// The outcome of the device check, given the output of the device listing.
/// A listing tool that is missing is a warning. A listing that says that
/// there is no sound card, or shows none, is an error. Else the check passes
/// and its message gives the number of cards.
pub open spec fn device_outcome(listing: Capture) -> Outcome {
    let cards = card_lines(lines(listing.stdout));
    debugged(
        if !listing.success && (contains(listing.stderr, "not found"@) || contains(
            listing.stderr,
            "No such file"@,
        )) {
            warning_outcome(
                check_name(),
                "Cannot check audio devices (aplay not installed)"@,
                "Install alsa-utils package for full diagnostics"@,
            )
        } else if contains(listing.stderr, "no soundcards found"@) || contains(
            listing.stdout,
            "no soundcards found"@,
        ) {
            no_device()
        } else if cards > 0 {
            ok_outcome(check_name(), decimal(cards) + " audio device(s) detected"@)
        } else {
            no_device()
        },
        "aplay -l:\n"@ + listing.stdout + listing.stderr,
    )
}

/// Checks that the machine has a sound card. `listing` is the output of the
/// device listing.
pub fn check_audio_devices(listing: &CommandOutput) -> (r: CheckResult)
    ensures
        r@ == device_outcome(listing@),
{
    let mut debug: Vec<char> = Vec::new();
    push_str(&mut debug, "aplay -l:\n");
    push_str(&mut debug, listing.stdout.as_str());
    push_str(&mut debug, listing.stderr.as_str());
    assert(debug@ =~= "aplay -l:\n"@ + listing@.stdout + listing@.stderr);
    let debug = string_of(&debug);
    if !listing.success && (str_contains(listing.stderr.as_str(), "not found") || str_contains(
        listing.stderr.as_str(),
        "No such file",
    )) {
        return CheckResult::warning(
            "audio_devices",
            "Cannot check audio devices (aplay not installed)",
            "Install alsa-utils package for full diagnostics",
        ).with_debug(debug.as_str());
    }
    if str_contains(listing.stderr.as_str(), "no soundcards found") || str_contains(
        listing.stdout.as_str(),
        "no soundcards found",
    ) {
        return CheckResult::error(
            "audio_devices",
            "No audio devices detected",
            "Possible cause: missing driver or disabled device in BIOS",
        ).with_debug(debug.as_str());
    }
    let cards = count_cards(listing.stdout.as_str());
    if cards > 0 {
        let mut message: Vec<char> = Vec::new();
        push_decimal(&mut message, cards as u64);
        push_str(&mut message, " audio device(s) detected");
        assert(message@ =~= decimal(cards as nat) + " audio device(s) detected"@);
        CheckResult::ok("audio_devices", string_of(&message).as_str()).with_debug(
            debug.as_str(),
        )
    } else {
        CheckResult::error(
            "audio_devices",
            "No audio devices detected",
            "Possible cause: missing driver or disabled device in BIOS",
        ).with_debug(debug.as_str())
    }
}

} // verus!
