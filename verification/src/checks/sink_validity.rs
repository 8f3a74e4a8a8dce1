//! The default sink check: the default sink must exist, and should neither
//! be asleep nor be a display that is not plugged in.

use crate::parser::{
    first_named, lines_under, lookup, parse_records, record_named, records_of, value_or_empty,
    Block, BlockFormat, Layout, Record,
};
use crate::runner::{Capture, CommandOutput};
use crate::text::{
    chars_of, contains, first_chars, lines, lowercase, lowercase_of, push_all, push_str,
    str_contains, string_of, texts, trim, trimmed, uppercase, uppercase_of,
};
use crate::types::{
    debugged, error_outcome, ok_outcome, warning_outcome, CheckResult, Outcome,
};
use vstd::prelude::*;

verus! {

/// What the sink listing says of one sink.
#[derive(Debug, Clone)]
pub struct SinkInfo {
    pub name: String,
    pub description: String,
    pub state: String,
    pub active_port: String,
    /// `available`, `not available`, or empty where the listing does not say.
    pub port_availability: String,
}

/// A sink as plain values.
pub struct SinkFacts {
    pub name: Seq<char>,
    pub description: Seq<char>,
    pub state: Seq<char>,
    pub active_port: Seq<char>,
    pub port_availability: Seq<char>,
}

impl View for SinkInfo {
    type V = SinkFacts;

    open spec fn view(&self) -> SinkFacts {
        SinkFacts {
            name: self.name@,
            description: self.description@,
            state: self.state@,
            active_port: self.active_port@,
            port_availability: self.port_availability@,
        }
    }
}

/// The facts of an optional sink.
pub open spec fn opt_sink(s: Option<SinkInfo>) -> Option<SinkFacts> {
    match s {
        Some(info) => Some(info@),
        None => None,
    }
}

/// How the sink listing is laid out: a sink starts at its `Name:` line and
/// lists its ports in a subsection.
pub open spec fn sink_layout() -> Layout {
    Layout {
        boundary: "Name:"@,
        sections: seq!["Ports:"@],
        closers: seq!["Description"@, "State"@, "Active Port"@],
    }
}

/// What the lines of the ports subsection say of the port: the marker of the
/// last line that names the port and says `not available` or `available`.
pub open spec fn availability_in(ls: Seq<Seq<char>>, port: Seq<char>) -> Seq<char>
    decreases ls.len(),
{
    if ls.len() == 0 {
        Seq::empty()
    } else if contains(ls.last(), port) && contains(ls.last(), "not available"@) {
        "not available"@
    } else if contains(ls.last(), port) && contains(ls.last(), "available"@) {
        "available"@
    } else {
        availability_in(ls.drop_last(), port)
    }
}

/// The sink that a record of the sink listing describes.
pub open spec fn sink_of(r: Block) -> SinkFacts {
    let active_port = value_or_empty(lookup(r.fields, "Active Port"@));
    SinkFacts {
        name: r.header,
        description: value_or_empty(lookup(r.fields, "Description"@)),
        state: value_or_empty(lookup(r.fields, "State"@)),
        active_port,
        port_availability: availability_in(lines_under(r.sections, "Ports:"@), active_port),
    }
}

/// The sink named `target` in a sink listing: the first record of that name.
pub open spec fn sink_info(text: Seq<char>, target: Seq<char>) -> Option<SinkFacts> {
    let records = records_of(lines(text), sink_layout());
    match first_named(records, target) {
        Some(k) => Some(sink_of(records[k])),
        None => None,
    }
}

/// The format of the sink listing.
pub fn sink_format() -> (format: BlockFormat)
    ensures
        format@ == sink_layout(),
{
    let mut sections: Vec<String> = Vec::new();
    sections.push(String::from_str("Ports:"));
    let mut closers: Vec<String> = Vec::new();
    closers.push(String::from_str("Description"));
    closers.push(String::from_str("State"));
    closers.push(String::from_str("Active Port"));
    let format = BlockFormat { boundary: String::from_str("Name:"), sections, closers };
    assert(format@.sections =~= sink_layout().sections);
    assert(format@.closers =~= sink_layout().closers);
    format
}

/// What the lines of the ports subsection say of the port.
fn availability(ls: &Vec<String>, port: &str) -> (r: String)
    ensures
        r@ == availability_in(texts(ls@), port@),
{
    let ghost all = texts(ls@);
    let mut r = String::new();
    let mut i: usize = 0;
    assert(all.take(0) == Seq::<Seq<char>>::empty());
    while i < ls.len()
        invariant
            i <= ls.len(),
            all == texts(ls@),
            r@ == availability_in(all.take(i as int), port@),
        decreases ls.len() - i,
    {
        assert(all.take(i + 1).drop_last() == all.take(i as int));
        assert(all.take(i + 1).last() == ls@[i as int]@);
        let line = ls[i].as_str();
        if str_contains(line, port) {
            if str_contains(line, "not available") {
                r = String::from_str("not available");
            } else if str_contains(line, "available") {
                r = String::from_str("available");
            }
        }
        i = i + 1;
    }
    assert(all.take(ls.len() as int) == all);
    r
}

/// The sink that a record of the sink listing describes.
fn sink_from(record: &Record) -> (info: SinkInfo)
    ensures
        info@ == sink_of(record@),
{
    let active_port = record.field_or_empty("Active Port");
    let port_availability = availability(&record.section_lines("Ports:"), active_port.as_str());
    SinkInfo {
        name: record.header.clone(),
        description: record.field_or_empty("Description"),
        state: record.field_or_empty("State"),
        active_port,
        port_availability,
    }
}

/// The sink named `target_sink` in a sink listing: the first record of that
/// name, with its description, state and active port, and with what its
/// ports subsection says of the active port. `None` where the listing holds
/// no sink of that name.
pub fn parse_sink_info(output: &str, target_sink: &str) -> (info: Option<SinkInfo>)
    ensures
        opt_sink(info) == sink_info(output@, target_sink@),
{
    let format = sink_format();
    let records = parse_records(output, &format);
    match record_named(&records, target_sink) {
        Some(k) => Some(sink_from(&records[k])),
        None => None,
    }
}

/// The name of this check.
pub open spec fn check_name() -> Seq<char> {
    "default_sink"@
}

/// The outcome for a sink that the listing holds, given its state in
/// uppercase and its name, description and active port in lowercase. A
/// suspended sink is idle, not broken. A sink that looks like an HDMI output
/// and whose active port is not available is a display that is not plugged
/// in.
pub open spec fn sink_verdict(
    info: SinkFacts,
    state_upper: Seq<char>,
    name_lower: Seq<char>,
    description_lower: Seq<char>,
    port_lower: Seq<char>,
) -> Outcome {
    if state_upper == "SUSPENDED"@ {
        warning_outcome(
            check_name(),
            "Default sink is SUSPENDED (no active audio streams)"@,
            "This is normal when nothing is playing. Try playing audio."@,
        )
    } else if (contains(name_lower, "hdmi"@) || contains(description_lower, "hdmi"@)) && (
    contains(port_lower, "unavailable"@) || info.port_availability == "not available"@) {
        error_outcome(
            check_name(),
            "Default output is HDMI ("@ + info.description + ") but appears disconnected"@,
            "Switch output to Built-in Audio or connect your HDMI display"@,
        )
    } else {
        ok_outcome(check_name(), "Default sink: "@ + info.description)
    }
}

/// The outcome for a sink that the listing holds. `state_upper` is the
/// sink's state in uppercase; `name_lower`, `description_lower` and
/// `port_lower` are its name, description and active port in lowercase.
pub fn judge_sink(
    info: &SinkInfo,
    state_upper: &str,
    name_lower: &str,
    description_lower: &str,
    port_lower: &str,
) -> (r: CheckResult)
    ensures
        r@ == sink_verdict(info@, state_upper@, name_lower@, description_lower@, port_lower@),
{
    if crate::text::same(&chars_of(state_upper), &chars_of("SUSPENDED")) {
        return CheckResult::warning(
            "default_sink",
            "Default sink is SUSPENDED (no active audio streams)",
            "This is normal when nothing is playing. Try playing audio.",
        );
    }
    let hdmi = str_contains(name_lower, "hdmi") || str_contains(description_lower, "hdmi");
    let unplugged = str_contains(port_lower, "unavailable") || crate::text::same(
        &chars_of(info.port_availability.as_str()),
        &chars_of("not available"),
    );
    let mut message: Vec<char> = Vec::new();
    if hdmi && unplugged {
        push_str(&mut message, "Default output is HDMI (");
        push_str(&mut message, info.description.as_str());
        push_str(&mut message, ") but appears disconnected");
        assert(message@ =~= "Default output is HDMI ("@ + info@.description
            + ") but appears disconnected"@);
        CheckResult::error(
            "default_sink",
            string_of(&message).as_str(),
            "Switch output to Built-in Audio or connect your HDMI display",
        )
    } else {
        push_str(&mut message, "Default sink: ");
        push_str(&mut message, info.description.as_str());
        assert(message@ =~= "Default sink: "@ + info@.description);
        CheckResult::ok("default_sink", string_of(&message).as_str())
    }
}

/// The evidence kept of the default sink query.
pub open spec fn query_evidence(query: Seq<char>) -> Seq<char> {
    "pactl get-default-sink:\n"@ + trim(query) + "\n"@
}

/// The evidence kept of the sink listing: its first 2000 characters.
pub open spec fn listing_evidence(listing: Seq<char>) -> Seq<char> {
    "pactl list sinks (truncated):\n"@ + listing.take(
        if listing.len() >= 2000 {
            2000
        } else {
            listing.len() as int
        },
    ) + "\n"@
}

/// The outcome of the default sink check, given the output of the default
/// sink query and of the sink listing.
pub open spec fn default_sink_outcome(query: Capture, listing: Capture) -> Outcome {
    let name = trim(query.stdout);
    let short = query_evidence(query.stdout);
    let long = short + listing_evidence(listing.stdout);
    if !query.success {
        debugged(
            error_outcome(
                check_name(),
                "Cannot determine default sink (audio server not responding)"@,
                "Ensure PipeWire or PulseAudio is running"@,
            ),
            short,
        )
    } else if name.len() == 0 {
        debugged(
            error_outcome(
                check_name(),
                "No default sink configured"@,
                "Set a default output device in your sound settings"@,
            ),
            short,
        )
    } else if !listing.success {
        debugged(
            warning_outcome(check_name(), "Cannot list sinks"@, "Check audio server status"@),
            long,
        )
    } else {
        debugged(
            match sink_info(listing.stdout, name) {
                None => error_outcome(
                    check_name(),
                    "Default sink '"@ + name + "' not found in sink list"@,
                    "Your default audio device may have been removed. Select a new output device."@,
                ),
                Some(info) => sink_verdict(
                    info,
                    uppercase_of(info.state),
                    lowercase_of(info.name),
                    lowercase_of(info.description),
                    lowercase_of(info.active_port),
                ),
            },
            long,
        )
    }
}

/// Checks that the default sink exists and can play. `default_sink` is the
/// output of the query for the default sink, `sinks` that of the sink
/// listing.
pub fn check_default_sink(default_sink: &CommandOutput, sinks: &CommandOutput) -> (r:
    CheckResult)
    ensures
        r@ == default_sink_outcome(default_sink@, sinks@),
{
    let name = trimmed(&chars_of(default_sink.stdout.as_str()));
    let mut debug: Vec<char> = Vec::new();
    push_str(&mut debug, "pactl get-default-sink:\n");
    push_all(&mut debug, &name);
    push_str(&mut debug, "\n");
    assert(debug@ =~= query_evidence(default_sink@.stdout));
    if !default_sink.success {
        return CheckResult::error(
            "default_sink",
            "Cannot determine default sink (audio server not responding)",
            "Ensure PipeWire or PulseAudio is running",
        ).with_debug(string_of(&debug).as_str());
    }
    if name.len() == 0 {
        return CheckResult::error(
            "default_sink",
            "No default sink configured",
            "Set a default output device in your sound settings",
        ).with_debug(string_of(&debug).as_str());
    }
    push_str(&mut debug, "pactl list sinks (truncated):\n");
    push_all(&mut debug, &first_chars(&chars_of(sinks.stdout.as_str()), 2000));
    push_str(&mut debug, "\n");
    assert(debug@ =~= query_evidence(default_sink@.stdout) + listing_evidence(sinks@.stdout));
    let debug = string_of(&debug);
    if !sinks.success {
        return CheckResult::warning(
            "default_sink",
            "Cannot list sinks",
            "Check audio server status",
        ).with_debug(debug.as_str());
    }
    let name = string_of(&name);
    match parse_sink_info(sinks.stdout.as_str(), name.as_str()) {
        None => {
            let mut message: Vec<char> = Vec::new();
            push_str(&mut message, "Default sink '");
            push_str(&mut message, name.as_str());
            push_str(&mut message, "' not found in sink list");
            assert(message@ =~= "Default sink '"@ + name@ + "' not found in sink list"@);
            CheckResult::error(
                "default_sink",
                string_of(&message).as_str(),
                "Your default audio device may have been removed. Select a new output device.",
            ).with_debug(debug.as_str())
        },
        Some(info) => {
            let state_upper = uppercase(info.state.as_str());
            let name_lower = lowercase(info.name.as_str());
            let description_lower = lowercase(info.description.as_str());
            let port_lower = lowercase(info.active_port.as_str());
            judge_sink(
                &info,
                state_upper.as_str(),
                name_lower.as_str(),
                description_lower.as_str(),
                port_lower.as_str(),
            ).with_debug(debug.as_str())
        },
    }
}


/// Whether the check reads the sink listing: it does once the default sink
/// query has succeeded and named a sink.
pub open spec fn reads_listing(query: Capture) -> bool {
    query.success && trim(query.stdout).len() > 0
}

/// Whether the check will read the sink listing, given the output of the
/// default sink query. Where it will not, the listing need not be made.
pub fn needs_sink_listing(default_sink: &CommandOutput) -> (b: bool)
    ensures
        b == reads_listing(default_sink@),
{
    default_sink.success && trimmed(&chars_of(default_sink.stdout.as_str())).len() > 0
}

/// Where the check does not read the sink listing, its outcome is the same
/// whatever stands in the listing's place.
pub proof fn law_unread_listing(query: Capture, a: Capture, b: Capture)
    requires
        !reads_listing(query),
    ensures
        default_sink_outcome(query, a) == default_sink_outcome(query, b),
{
}

} // verus!
