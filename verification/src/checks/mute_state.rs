//! The mute check: a muted default sink, or one turned down to almost
//! nothing, is the plainest reason for silence.

use crate::parser::{
    first_named, lookup, parse_records, record_named, records_of, Block, BlockFormat, Layout,
};
use crate::printing::{law_printed_record_parses_back, printable, printed};
use crate::runner::{Capture, CommandOutput};
use crate::text::{
    chars_of, decimal, digit, find, is_digit, join, joined, keep_lines_with, lines,
    lines_with, parse_u32, position, push_all, push_decimal, push_str, rows,
    same_ignoring_ascii_case, same_ignoring_case, slice, split_lines, string_of, to_u32, trim,
    trimmed,
};
use crate::types::{
    debugged, error_outcome, ok_outcome, warning_outcome, CheckResult, CheckStatus, Outcome,
};
use vstd::prelude::*;

verus! {

/// How the sink listing is laid out for this check: a sink starts at its
/// `Name:` line; subsections play no part.
pub open spec fn mute_layout() -> Layout {
    Layout { boundary: "Name:"@, sections: Seq::empty(), closers: Seq::empty() }
}

/// Where the digits at the end of `s` begin.
pub open spec fn digits_start(s: Seq<char>) -> int
    decreases s.len(),
{
    if s.len() > 0 && is_digit(s.last()) {
        digits_start(s.drop_last())
    } else {
        s.len() as int
    }
}

/// The percentage that a volume line gives: the number written directly
/// before its first percent sign.
pub open spec fn percent_of(value: Seq<char>) -> Option<u32> {
    match find(value, "%"@) {
        Some(p) => parse_u32(value.subrange(digits_start(value.take(p)), p)),
        None => None,
    }
}

/// Whether a record of the sink listing says that the sink is muted.
pub open spec fn muted_of(r: Block) -> Option<bool> {
    match lookup(r.fields, "Mute"@) {
        Some(v) => Some(same_ignoring_ascii_case(v, "yes"@)),
        None => None,
    }
}

/// The volume in percent that a record of the sink listing gives.
pub open spec fn volume_of(r: Block) -> Option<u32> {
    match lookup(r.fields, "Volume"@) {
        Some(v) => percent_of(v),
        None => None,
    }
}

/// Whether the sink named `target` is muted, and its volume in percent, as
/// far as the listing says: both are read from the first record of that name.
pub open spec fn mute_and_volume(text: Seq<char>, target: Seq<char>) -> (
    Option<bool>,
    Option<u32>,
) {
    let records = records_of(lines(text), mute_layout());
    match first_named(records, target) {
        Some(k) => (muted_of(records[k]), volume_of(records[k])),
        None => (None, None),
    }
}

/// The format of the sink listing for this check.
pub fn mute_format() -> (format: BlockFormat)
    ensures
        format@ == mute_layout(),
{
    let format = BlockFormat {
        boundary: String::from_str("Name:"),
        sections: Vec::new(),
        closers: Vec::new(),
    };
    assert(format@.sections =~= mute_layout().sections);
    assert(format@.closers =~= mute_layout().closers);
    format
}

/// The percentage that a volume line gives.
pub fn percent_in(value: &str) -> (r: Option<u32>)
    ensures
        r == percent_of(value@),
{
    let chars = chars_of(value);
    match position(&chars, &chars_of("%")) {
        Some(p) => {
            let ghost before = chars@.take(p as int);
            let mut j: usize = p;
            assert(before.take(j as int) == before);
            while j > 0 && digit(chars[j - 1])
                invariant
                    j <= p <= chars.len(),
                    before == chars@.take(p as int),
                    digits_start(before) == digits_start(before.take(j as int)),
                decreases j,
            {
                assert(before.take(j as int).drop_last() == before.take(j - 1));
                j = j - 1;
            }
            to_u32(&slice(&chars, j, p))
        },
        None => None,
    }
}

/// Whether the sink named `target_sink` is muted, and its volume in percent,
/// as far as the listing says. Both are read from the first record of that
/// name: the sink is muted where its `Mute` field is `yes` in any case; its
/// volume is the number before the first percent sign of its `Volume` field.
pub fn parse_mute_and_volume(output: &str, target_sink: &str) -> (r: (Option<bool>, Option<u32>))
    ensures
        r == mute_and_volume(output@, target_sink@),
{
    let format = mute_format();
    let records = parse_records(output, &format);
    match record_named(&records, target_sink) {
        Some(k) => {
            let record = &records[k];
            let muted = match record.field("Mute") {
                Some(v) => Some(same_ignoring_case(&chars_of(v.as_str()), &chars_of("yes"))),
                None => None,
            };
            let volume = match record.field("Volume") {
                Some(v) => percent_in(v.as_str()),
                None => None,
            };
            (muted, volume)
        },
        None => (None, None),
    }
}

/// The name of this check.
pub open spec fn check_name() -> Seq<char> {
    "mute_state"@
}

/// The outcome for what is known of the sink. A muted sink is an error,
/// whatever its volume. A sink that is not muted is fine, unless its volume
/// is known and below five percent. Where it is not known whether the sink
/// is muted, that is a warning.
pub open spec fn mute_verdict(muted: Option<bool>, volume: Option<u32>) -> Outcome {
    match muted {
        Some(true) => error_outcome(
            check_name(),
            "Output is muted"@,
            "Unmute in sound settings or press the mute key"@,
        ),
        Some(false) => match volume {
            Some(v) => if v < 5 {
                warning_outcome(
                    check_name(),
                    "Volume is very low ("@ + decimal(v as nat) + "%)"@,
                    "Increase volume in sound settings"@,
                )
            } else {
                ok_outcome(
                    check_name(),
                    "Output is not muted (volume: "@ + decimal(v as nat) + "%)"@,
                )
            },
            None => ok_outcome(check_name(), "Output is not muted"@),
        },
        None => warning_outcome(
            check_name(),
            "Could not determine mute state"@,
            "Check sound settings manually"@,
        ),
    }
}

/// The outcome for what is known of the sink: whether it is muted, and its
/// volume in percent.
pub fn judge_mute(muted: Option<bool>, volume: Option<u32>) -> (r: CheckResult)
    ensures
        r@ == mute_verdict(muted, volume),
{
    match muted {
        Some(true) => CheckResult::error(
            "mute_state",
            "Output is muted",
            "Unmute in sound settings or press the mute key",
        ),
        Some(false) => match volume {
            Some(v) => {
                let mut message: Vec<char> = Vec::new();
                if v < 5 {
                    push_str(&mut message, "Volume is very low (");
                    push_decimal(&mut message, v as u64);
                    push_str(&mut message, "%)");
                    assert(message@ =~= "Volume is very low ("@ + decimal(v as nat) + "%)"@);
                    CheckResult::warning(
                        "mute_state",
                        string_of(&message).as_str(),
                        "Increase volume in sound settings",
                    )
                } else {
                    push_str(&mut message, "Output is not muted (volume: ");
                    push_decimal(&mut message, v as u64);
                    push_str(&mut message, "%)");
                    assert(message@ =~= "Output is not muted (volume: "@ + decimal(v as nat)
                        + "%)"@);
                    CheckResult::ok("mute_state", string_of(&message).as_str())
                }
            },
            None => CheckResult::ok("mute_state", "Output is not muted"),
        },
        None => CheckResult::warning(
            "mute_state",
            "Could not determine mute state",
            "Check sound settings manually",
        ),
    }
}

/// The words that make a line of the sink listing worth keeping as evidence.
pub open spec fn evidence_words() -> Seq<Seq<char>> {
    seq!["Name:"@, "Mute:"@, "Volume:"@]
}

/// The evidence kept of a sink listing: its lines on names, mute and volume.
pub open spec fn evidence_of(listing: Seq<char>) -> Seq<char> {
    "pactl list sinks (mute info):\n"@ + join(
        lines_with(lines(listing), evidence_words()),
        "\n"@,
    ) + "\n"@
}

/// The outcome of the mute check, given the output of the default sink query
/// and of the sink listing.
pub open spec fn mute_outcome(query: Capture, listing: Capture) -> Outcome {
    let name = trim(query.stdout);
    if name.len() == 0 {
        warning_outcome(
            check_name(),
            "Cannot check mute state (no default sink)"@,
            "Set a default output device first"@,
        )
    } else if !listing.success {
        debugged(
            warning_outcome(
                check_name(),
                "Cannot check mute state"@,
                "Ensure audio server is running"@,
            ),
            evidence_of(listing.stdout),
        )
    } else {
        let found = mute_and_volume(listing.stdout, name);
        debugged(mute_verdict(found.0, found.1), evidence_of(listing.stdout))
    }
}

/// The evidence kept of a sink listing.
fn evidence(listing: &str) -> (r: String)
    ensures
        r@ == evidence_of(listing@),
{
    let mut words: Vec<Vec<char>> = Vec::new();
    words.push(chars_of("Name:"));
    words.push(chars_of("Mute:"));
    words.push(chars_of("Volume:"));
    assert(rows(words@) =~= evidence_words());
    let kept = keep_lines_with(&split_lines(&chars_of(listing)), &words);
    let mut text: Vec<char> = Vec::new();
    push_str(&mut text, "pactl list sinks (mute info):\n");
    push_all(&mut text, &joined(&kept, "\n"));
    push_str(&mut text, "\n");
    assert(text@ =~= evidence_of(listing@));
    string_of(&text)
}

/// Checks whether the default sink is muted or almost silent. `default_sink`
/// is the output of the query for the default sink, `sinks` that of the sink
/// listing.
pub fn check_mute_state(default_sink: &CommandOutput, sinks: &CommandOutput) -> (r: CheckResult)
    ensures
        r@ == mute_outcome(default_sink@, sinks@),
{
    let name = trimmed(&chars_of(default_sink.stdout.as_str()));
    if name.len() == 0 {
        return CheckResult::warning(
            "mute_state",
            "Cannot check mute state (no default sink)",
            "Set a default output device first",
        );
    }
    let debug = evidence(sinks.stdout.as_str());
    if !sinks.success {
        return CheckResult::warning(
            "mute_state",
            "Cannot check mute state",
            "Ensure audio server is running",
        ).with_debug(debug.as_str());
    }
    let found = parse_mute_and_volume(sinks.stdout.as_str(), string_of(&name).as_str());
    judge_mute(found.0, found.1).with_debug(debug.as_str())
}

/// A sink whose record says `Mute: yes`, in any case of the letters, is
/// reported as an error, whatever the record says of the volume.
pub proof fn law_muted_is_error(query: Capture, listing: Capture, k: int, value: Seq<char>)
    requires
        trim(query.stdout).len() > 0,
        listing.success,
        first_named(records_of(lines(listing.stdout), mute_layout()), trim(query.stdout))
            == Some(k),
        lookup(records_of(lines(listing.stdout), mute_layout())[k].fields, "Mute"@) == Some(
            value,
        ),
        same_ignoring_ascii_case(value, "yes"@),
    ensures
        mute_outcome(query, listing).status == CheckStatus::Error,
{
}

/// A sink that is not muted is reported with a warning where its volume is
/// below five percent, and as fine from five percent on.
pub proof fn law_volume_threshold(volume: u32)
    ensures
        volume < 5 ==> mute_verdict(Some(false), Some(volume)).status == CheckStatus::Warning,
        volume >= 5 ==> mute_verdict(Some(false), Some(volume)).status == CheckStatus::Okay,
        mute_verdict(Some(true), Some(volume)).status == CheckStatus::Error,
{
}

/// A sink whose record says that it is not muted and gives its volume is
/// reported with a warning where the volume is below five percent, and as
/// fine from five percent on.
pub proof fn law_volume_decides(
    query: Capture,
    listing: Capture,
    k: int,
    mute: Seq<char>,
    volume: Seq<char>,
    percent: u32,
)
    requires
        trim(query.stdout).len() > 0,
        listing.success,
        first_named(records_of(lines(listing.stdout), mute_layout()), trim(query.stdout))
            == Some(k),
        lookup(records_of(lines(listing.stdout), mute_layout())[k].fields, "Mute"@) == Some(mute),
        !same_ignoring_ascii_case(mute, "yes"@),
        lookup(records_of(lines(listing.stdout), mute_layout())[k].fields, "Volume"@) == Some(
            volume,
        ),
        percent_of(volume) == Some(percent),
    ensures
        percent < 5 ==> mute_outcome(query, listing).status == CheckStatus::Warning,
        percent >= 5 ==> mute_outcome(query, listing).status == CheckStatus::Okay,
{
}


/// What is read of a sink that a listing shows alone is what its record
/// says.
proof fn lemma_listed_alone(sink: Block)
    requires
        printable(sink, mute_layout()),
    ensures
        mute_and_volume(printed(sink, mute_layout()), sink.header) == (
            muted_of(sink),
            volume_of(sink),
        ),
{
    law_printed_record_parses_back(sink, mute_layout());
    let records = records_of(lines(printed(sink, mute_layout())), mute_layout());
    let shown = Block { sections: Seq::empty(), ..sink };
    assert(records == seq![shown]);
    assert(records.drop_last() =~= Seq::<Block>::empty());
    assert(first_named(records.drop_last(), sink.header) is None);
    assert(records.last() == shown);
    assert(first_named(records, sink.header) == Some(0int));
}

/// A listing that shows the default sink with `Mute: yes`, in any case of
/// the letters, gives an error, whatever else it shows of the sink: its
/// volume plays no part.
pub proof fn law_muted_listing_is_error(query: Capture, sink: Block, stderr: Seq<char>)
    requires
        trim(query.stdout).len() > 0,
        printable(sink, mute_layout()),
        sink.header == trim(query.stdout),
        muted_of(sink) == Some(true),
    ensures
        mute_outcome(
            query,
            Capture { stdout: printed(sink, mute_layout()), stderr, success: true },
        ).status == CheckStatus::Error,
{
    lemma_listed_alone(sink);
}

/// A listing that shows the default sink as not muted, with a volume, gives
/// a warning where the volume is below five percent, and passes from five
/// percent on.
pub proof fn law_listed_volume_decides(
    query: Capture,
    sink: Block,
    stderr: Seq<char>,
    percent: u32,
)
    requires
        trim(query.stdout).len() > 0,
        printable(sink, mute_layout()),
        sink.header == trim(query.stdout),
        muted_of(sink) == Some(false),
        volume_of(sink) == Some(percent),
    ensures
        percent < 5 ==> mute_outcome(
            query,
            Capture { stdout: printed(sink, mute_layout()), stderr, success: true },
        ).status == CheckStatus::Warning,
        percent >= 5 ==> mute_outcome(
            query,
            Capture { stdout: printed(sink, mute_layout()), stderr, success: true },
        ).status == CheckStatus::Okay,
{
    lemma_listed_alone(sink);
}


/// Whether the check reads the sink listing: it does once the default sink
/// query has named a sink.
pub open spec fn reads_listing(query: Capture) -> bool {
    trim(query.stdout).len() > 0
}

/// Whether the check will read the sink listing, given the output of the
/// default sink query. Where it will not, the listing need not be made.
pub fn needs_sink_listing(default_sink: &CommandOutput) -> (b: bool)
    ensures
        b == reads_listing(default_sink@),
{
    trimmed(&chars_of(default_sink.stdout.as_str())).len() > 0
}

/// Where the check does not read the sink listing, its outcome is the same
/// whatever stands in the listing's place.
pub proof fn law_unread_listing(query: Capture, a: Capture, b: Capture)
    requires
        !reads_listing(query),
    ensures
        mute_outcome(query, a) == mute_outcome(query, b),
{
}

} // verus!
