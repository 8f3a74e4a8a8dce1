//! The stream routing check: a stream that plays to another sink than the
//! default one is not heard where it is expected.

use crate::parser::{
    blocks, lookup, parse_records, records_of, Block, BlockFormat, Layout, Record,
};
use crate::runner::{Capture, CommandOutput};
use crate::text::{
    chars_of, decimal, join, joined, lines, parse_u32, push_all, push_decimal, push_str, rows,
    same, string_of, to_u32, trim, trimmed,
};
use crate::types::{
    debugged, ok_outcome, warning_outcome, CheckResult, CheckStatus, Outcome,
};
use vstd::prelude::*;

verus! {

/// One playing stream: the application it belongs to and the index of the
/// sink it plays to.
#[derive(Debug, Clone)]
pub struct SinkInput {
    pub app_name: String,
    pub sink_index: u32,
}

/// A stream as plain values.
pub struct StreamFacts {
    pub app_name: Seq<char>,
    pub sink_index: u32,
}

impl View for SinkInput {
    type V = StreamFacts;

    open spec fn view(&self) -> StreamFacts {
        StreamFacts { app_name: self.app_name@, sink_index: self.sink_index }
    }
}

/// The streams held by a list of streams.
pub open spec fn stream_facts(v: Seq<SinkInput>) -> Seq<StreamFacts> {
    Seq::new(v.len(), |i: int| v[i]@)
}

/// The index and name pairs held by a list of them.
pub open spec fn sink_names(v: Seq<(u32, String)>) -> Seq<(u32, Seq<char>)> {
    Seq::new(v.len(), |i: int| (v[i].0, v[i].1@))
}

/// How the stream listing is laid out: a stream starts at its `Sink:` line.
pub open spec fn stream_layout() -> Layout {
    Layout { boundary: "Sink:"@, sections: Seq::empty(), closers: Seq::empty() }
}

/// How the sink listing is laid out for this check: a sink starts at its
/// `Sink #` line.
pub open spec fn index_layout() -> Layout {
    Layout { boundary: "Sink #"@, sections: Seq::empty(), closers: Seq::empty() }
}

/// The application that a record of the stream listing names: its
/// application name; without one, its media name; without either, `Unknown`.
pub open spec fn app_name_of(r: Block) -> Seq<char> {
    match lookup(r.fields, "application.name"@) {
        Some(name) if name.len() > 0 => name,
        _ => match lookup(r.fields, "media.name"@) {
            Some(name) if name.len() > 0 => name,
            _ => "Unknown"@,
        },
    }
}

/// The streams that the records describe, in order. A record whose sink
/// index is no number describes none.
pub open spec fn streams_in(records: Seq<Block>) -> Seq<StreamFacts>
    decreases records.len(),
{
    if records.len() == 0 {
        Seq::empty()
    } else {
        match parse_u32(records.last().header) {
            Some(index) => streams_in(records.drop_last()).push(
                StreamFacts { app_name: app_name_of(records.last()), sink_index: index },
            ),
            None => streams_in(records.drop_last()),
        }
    }
}

/// The streams that a stream listing holds.
pub open spec fn sink_inputs(text: Seq<char>) -> Seq<StreamFacts> {
    streams_in(records_of(lines(text), stream_layout()))
}

/// The index and name of each sink that the records describe, in order. A
/// record without a number or without a name describes none.
pub open spec fn names_in(records: Seq<Block>) -> Seq<(u32, Seq<char>)>
    decreases records.len(),
{
    if records.len() == 0 {
        Seq::empty()
    } else {
        match (parse_u32(records.last().header), lookup(records.last().fields, "Name"@)) {
            (Some(index), Some(name)) => names_in(records.drop_last()).push((index, name)),
            _ => names_in(records.drop_last()),
        }
    }
}

/// The index and name of each sink that a sink listing holds.
pub open spec fn sink_index_map(text: Seq<char>) -> Seq<(u32, Seq<char>)> {
    names_in(records_of(lines(text), index_layout()))
}

/// A format with the given boundary and no subsections.
fn flat_format(boundary: &str) -> (format: BlockFormat)
    ensures
        format@ == (Layout { boundary: boundary@, sections: Seq::empty(), closers: Seq::empty() }),
{
    let format = BlockFormat {
        boundary: String::from_str(boundary),
        sections: Vec::new(),
        closers: Vec::new(),
    };
    assert(format@.sections =~= Seq::<Seq<char>>::empty());
    assert(format@.closers =~= Seq::<Seq<char>>::empty());
    format
}

/// The application that a record of the stream listing names.
fn app_name_from(record: &Record) -> (name: String)
    ensures
        name@ == app_name_of(record@),
{
    match record.field("application.name") {
        Some(name) => {
            if name.as_str().unicode_len() > 0 {
                return name;
            }
        },
        None => {},
    }
    match record.field("media.name") {
        Some(name) => {
            if name.as_str().unicode_len() > 0 {
                return name;
            }
        },
        None => {},
    }
    String::from_str("Unknown")
}

/// The streams that a stream listing holds, in the order of the listing: one
/// for each `Sink:` line that gives a number, with the application named in
/// the lines below it.
pub fn parse_sink_inputs(output: &str) -> (inputs: Vec<SinkInput>)
    ensures
        stream_facts(inputs@) == sink_inputs(output@),
{
    let format = flat_format("Sink:");
    let records = parse_records(output, &format);
    let ghost all = blocks(records@);
    let mut inputs: Vec<SinkInput> = Vec::new();
    let mut i: usize = 0;
    assert(all.take(0) == Seq::<Block>::empty());
    assert(stream_facts(inputs@) =~= Seq::<StreamFacts>::empty());
    while i < records.len()
        invariant
            i <= records.len(),
            all == blocks(records@),
            stream_facts(inputs@) == streams_in(all.take(i as int)),
        decreases records.len() - i,
    {
        let ghost before = stream_facts(inputs@);
        assert(all.take(i + 1).drop_last() == all.take(i as int));
        assert(all.take(i + 1).last() == records@[i as int]@);
        let record = &records[i];
        match to_u32(&chars_of(record.header.as_str())) {
            Some(index) => {
                let input = SinkInput { app_name: app_name_from(record), sink_index: index };
                inputs.push(input);
                assert(stream_facts(inputs@) =~= before.push(input@));
            },
            None => {},
        }
        i = i + 1;
    }
    assert(all.take(records.len() as int) == all);
    inputs
}

/// The index and name of each sink that a sink listing holds, in the order
/// of the listing: one pair for each `Sink #` line that gives a number and is
/// followed by a `Name` field.
pub fn parse_sink_index_map(output: &str) -> (map: Vec<(u32, String)>)
    ensures
        sink_names(map@) == sink_index_map(output@),
{
    let format = flat_format("Sink #");
    let records = parse_records(output, &format);
    let ghost all = blocks(records@);
    let mut map: Vec<(u32, String)> = Vec::new();
    let mut i: usize = 0;
    assert(all.take(0) == Seq::<Block>::empty());
    assert(sink_names(map@) =~= Seq::<(u32, Seq<char>)>::empty());
    while i < records.len()
        invariant
            i <= records.len(),
            all == blocks(records@),
            sink_names(map@) == names_in(all.take(i as int)),
        decreases records.len() - i,
    {
        let ghost before = sink_names(map@);
        assert(all.take(i + 1).drop_last() == all.take(i as int));
        assert(all.take(i + 1).last() == records@[i as int]@);
        let record = &records[i];
        match to_u32(&chars_of(record.header.as_str())) {
            Some(index) => {
                match record.field("Name") {
                    Some(name) => {
                        let ghost shown = name@;
                        map.push((index, name));
                        assert(sink_names(map@) =~= before.push((index, shown)));
                    },
                    None => {},
                }
            },
            None => {},
        }
        i = i + 1;
    }
    assert(all.take(records.len() as int) == all);
    map
}

/// The name of the first sink with this index.
pub open spec fn sink_named(map: Seq<(u32, Seq<char>)>, index: u32) -> Option<Seq<char>>
    decreases map.len(),
{
    if map.len() == 0 {
        None
    } else {
        match sink_named(map.drop_last(), index) {
            Some(name) => Some(name),
            None => if map.last().0 == index {
                Some(map.last().1)
            } else {
                None
            },
        }
    }
}

/// A name found among the first `n` pairs is the one found among all.
pub proof fn lemma_sink_named_found(map: Seq<(u32, Seq<char>)>, index: u32, n: int)
    requires
        0 <= n <= map.len(),
        sink_named(map.take(n), index) is Some,
    ensures
        sink_named(map, index) == sink_named(map.take(n), index),
    decreases map.len() - n,
{
    if n == map.len() {
        assert(map.take(n) == map);
    } else {
        assert(map.take(n + 1).drop_last() == map.take(n));
        lemma_sink_named_found(map, index, n + 1);
    }
}

/// The sink that a stream plays to, where it is known by name and is not
/// the default sink.
pub open spec fn stray_sink(
    default_sink: Seq<char>,
    stream: StreamFacts,
    map: Seq<(u32, Seq<char>)>,
) -> Option<Seq<char>> {
    match sink_named(map, stream.sink_index) {
        Some(name) if name.len() > 0 && name != default_sink => Some(name),
        _ => None,
    }
}

/// What is said of a stream that plays to another sink than the default one.
pub open spec fn mismatch_text(app_name: Seq<char>, sink: Seq<char>) -> Seq<char> {
    "'"@ + app_name + "' is playing to '"@ + sink + "'"@
}

/// What is said of the streams that play elsewhere, in order.
pub open spec fn mismatches(
    default_sink: Seq<char>,
    streams: Seq<StreamFacts>,
    map: Seq<(u32, Seq<char>)>,
) -> Seq<Seq<char>>
    decreases streams.len(),
{
    if streams.len() == 0 {
        Seq::empty()
    } else {
        let before = mismatches(default_sink, streams.drop_last(), map);
        match stray_sink(default_sink, streams.last(), map) {
            Some(sink) => before.push(mismatch_text(streams.last().app_name, sink)),
            None => before,
        }
    }
}

/// The name of this check.
pub open spec fn check_name() -> Seq<char> {
    "sink_inputs"@
}

/// The outcome for the streams found. Without a stream nothing plays. With a
/// stream that plays to a sink known by name that is not the default one,
/// the outcome is a warning that lists each such stream. Else all streams
/// are counted as rightly routed.
pub open spec fn routing_verdict(
    default_sink: Seq<char>,
    streams: Seq<StreamFacts>,
    map: Seq<(u32, Seq<char>)>,
) -> Outcome {
    let strays = mismatches(default_sink, streams, map);
    if streams.len() == 0 {
        ok_outcome(check_name(), "No active audio streams (nothing playing)"@)
    } else if strays.len() > 0 {
        warning_outcome(
            check_name(),
            decimal(strays.len()) + " stream(s) playing to non-default output: "@ + join(
                strays,
                ", "@,
            ),
            "Move streams to default output in sound settings or pavucontrol"@,
        )
    } else {
        ok_outcome(check_name(), decimal(streams.len()) + " active stream(s) correctly routed"@)
    }
}

/// The name of the first sink with this index.
fn name_of_sink(map: &Vec<(u32, String)>, index: u32) -> (r: Option<usize>)
    ensures
        match r {
            Some(k) => k < map.len() && sink_named(sink_names(map@), index) == Some(map@[k as int].1@),
            None => sink_named(sink_names(map@), index) is None,
        },
{
    let ghost all = sink_names(map@);
    let mut i: usize = 0;
    assert(all.take(0) == Seq::<(u32, Seq<char>)>::empty());
    while i < map.len()
        invariant
            i <= map.len(),
            all == sink_names(map@),
            sink_named(all.take(i as int), index) is None,
        decreases map.len() - i,
    {
        assert(all.take(i + 1).drop_last() == all.take(i as int));
        assert(all.take(i + 1).last() == (map@[i as int].0, map@[i as int].1@));
        if map[i].0 == index {
            proof {
                lemma_sink_named_found(all, index, i + 1);
            }
            return Some(i);
        }
        i = i + 1;
    }
    assert(all.take(map.len() as int) == all);
    None
}

/// The outcome for the streams found, given the name of the default sink
/// and the index and name of each sink.
pub fn judge_streams(default_sink: &str, inputs: &Vec<SinkInput>, sink_map: &Vec<(u32, String)>) -> (r:
    CheckResult)
    ensures
        r@ == routing_verdict(default_sink@, stream_facts(inputs@), sink_names(sink_map@)),
{
    if inputs.len() == 0 {
        return CheckResult::ok("sink_inputs", "No active audio streams (nothing playing)");
    }
    let ghost streams = stream_facts(inputs@);
    let ghost map = sink_names(sink_map@);
    let default_chars = chars_of(default_sink);
    let mut strays: Vec<Vec<char>> = Vec::new();
    let mut i: usize = 0;
    assert(streams.take(0) == Seq::<StreamFacts>::empty());
    assert(rows(strays@) =~= Seq::<Seq<char>>::empty());
    while i < inputs.len()
        invariant
            i <= inputs.len(),
            streams == stream_facts(inputs@),
            map == sink_names(sink_map@),
            default_chars@ == default_sink@,
            rows(strays@) == mismatches(default_sink@, streams.take(i as int), map),
        decreases inputs.len() - i,
    {
        let ghost before = rows(strays@);
        assert(streams.take(i + 1).drop_last() == streams.take(i as int));
        assert(streams.take(i + 1).last() == inputs@[i as int]@);
        let input = &inputs[i];
        match name_of_sink(sink_map, input.sink_index) {
            Some(k) => {
                let sink = chars_of(sink_map[k].1.as_str());
                if sink.len() > 0 && !same(&sink, &default_chars) {
                    let mut text: Vec<char> = Vec::new();
                    push_str(&mut text, "'");
                    push_str(&mut text, input.app_name.as_str());
                    push_str(&mut text, "' is playing to '");
                    push_all(&mut text, &sink);
                    push_str(&mut text, "'");
                    assert(text@ =~= mismatch_text(input@.app_name, sink@));
                    strays.push(text);
                    assert(rows(strays@) =~= before.push(text@));
                }
            },
            None => {},
        }
        i = i + 1;
    }
    assert(streams.take(inputs.len() as int) == streams);
    let mut message: Vec<char> = Vec::new();
    if strays.len() > 0 {
        push_decimal(&mut message, strays.len() as u64);
        push_str(&mut message, " stream(s) playing to non-default output: ");
        push_all(&mut message, &joined(&strays, ", "));
        assert(message@ =~= decimal(strays.len() as nat)
            + " stream(s) playing to non-default output: "@ + join(rows(strays@), ", "@));
        CheckResult::warning(
            "sink_inputs",
            string_of(&message).as_str(),
            "Move streams to default output in sound settings or pavucontrol",
        )
    } else {
        push_decimal(&mut message, inputs.len() as u64);
        push_str(&mut message, " active stream(s) correctly routed");
        assert(message@ =~= decimal(inputs.len() as nat) + " active stream(s) correctly routed"@);
        CheckResult::ok("sink_inputs", string_of(&message).as_str())
    }
}

/// The evidence kept of the stream listing: all of it.
pub open spec fn evidence_of(listing: Seq<char>) -> Seq<char> {
    "pactl list sink-inputs:\n"@ + listing + "\n"@
}

/// The outcome of the stream routing check, given the output of the default
/// sink query, of the stream listing and of the sink listing.
pub open spec fn routing_outcome(query: Capture, streams: Capture, sinks: Capture) -> Outcome {
    let name = trim(query.stdout);
    if name.len() == 0 {
        warning_outcome(
            check_name(),
            "Cannot check stream routing (no default sink)"@,
            "Set a default output device first"@,
        )
    } else if !streams.success {
        debugged(
            warning_outcome(
                check_name(),
                "Cannot list active audio streams"@,
                "Ensure audio server is running"@,
            ),
            evidence_of(streams.stdout),
        )
    } else {
        debugged(
            routing_verdict(name, sink_inputs(streams.stdout), sink_index_map(sinks.stdout)),
            evidence_of(streams.stdout),
        )
    }
}

/// Checks whether the playing streams go to the default sink.
/// `default_sink` is the output of the query for the default sink, `inputs`
/// that of the stream listing, `sinks` that of the sink listing.
pub fn check_sink_inputs(
    default_sink: &CommandOutput,
    inputs: &CommandOutput,
    sinks: &CommandOutput,
) -> (r: CheckResult)
    ensures
        r@ == routing_outcome(default_sink@, inputs@, sinks@),
{
    let name = trimmed(&chars_of(default_sink.stdout.as_str()));
    if name.len() == 0 {
        return CheckResult::warning(
            "sink_inputs",
            "Cannot check stream routing (no default sink)",
            "Set a default output device first",
        );
    }
    let mut debug: Vec<char> = Vec::new();
    push_str(&mut debug, "pactl list sink-inputs:\n");
    push_str(&mut debug, inputs.stdout.as_str());
    push_str(&mut debug, "\n");
    assert(debug@ =~= evidence_of(inputs@.stdout));
    let debug = string_of(&debug);
    if !inputs.success {
        return CheckResult::warning(
            "sink_inputs",
            "Cannot list active audio streams",
            "Ensure audio server is running",
        ).with_debug(debug.as_str());
    }
    let found = parse_sink_inputs(inputs.stdout.as_str());
    let sink_map = parse_sink_index_map(sinks.stdout.as_str());
    judge_streams(string_of(&name).as_str(), &found, &sink_map).with_debug(debug.as_str())
}

/// Without a stream the check passes and says that nothing is playing.
pub proof fn law_no_stream(default_sink: Seq<char>, map: Seq<(u32, Seq<char>)>)
    ensures
        routing_verdict(default_sink, Seq::empty(), map) == ok_outcome(
            check_name(),
            "No active audio streams (nothing playing)"@,
        ),
{
}

/// A stream that plays to no other sink than the default one adds nothing
/// to the list of mismatches; one that plays elsewhere adds one entry, which
/// holds its application's name as it is.
pub proof fn law_one_entry_each(
    default_sink: Seq<char>,
    streams: Seq<StreamFacts>,
    map: Seq<(u32, Seq<char>)>,
    stream: StreamFacts,
)
    ensures
        stray_sink(default_sink, stream, map) is None ==> mismatches(
            default_sink,
            streams.push(stream),
            map,
        ) == mismatches(default_sink, streams, map),
        stray_sink(default_sink, stream, map) is Some ==> mismatches(
            default_sink,
            streams.push(stream),
            map,
        ) == mismatches(default_sink, streams, map).push(
            mismatch_text(stream.app_name, stray_sink(default_sink, stream, map).unwrap()),
        ),
{
    assert(streams.push(stream).drop_last() == streams);
}

/// Where every stream plays to the default sink, the check passes and its
/// message gives their number.
pub proof fn law_all_routed(
    default_sink: Seq<char>,
    streams: Seq<StreamFacts>,
    map: Seq<(u32, Seq<char>)>,
)
    requires
        streams.len() > 0,
        forall|i: int|
            0 <= i < streams.len() ==> sink_named(map, (#[trigger] streams[i]).sink_index)
                == Some(default_sink),
    ensures
        routing_verdict(default_sink, streams, map) == ok_outcome(
            check_name(),
            decimal(streams.len()) + " active stream(s) correctly routed"@,
        ),
{
    lemma_none_stray(default_sink, streams, map);
}

/// Streams of which none plays elsewhere give no mismatch.
pub proof fn lemma_none_stray(
    default_sink: Seq<char>,
    streams: Seq<StreamFacts>,
    map: Seq<(u32, Seq<char>)>,
)
    requires
        forall|i: int|
            0 <= i < streams.len() ==> stray_sink(default_sink, #[trigger] streams[i], map)
                is None,
    ensures
        mismatches(default_sink, streams, map).len() == 0,
    decreases streams.len(),
{
    if streams.len() > 0 {
        lemma_none_stray(default_sink, streams.drop_last(), map);
    }
}

/// The number of streams that play elsewhere.
pub open spec fn stray_count(
    default_sink: Seq<char>,
    streams: Seq<StreamFacts>,
    map: Seq<(u32, Seq<char>)>,
) -> nat
    decreases streams.len(),
{
    if streams.len() == 0 {
        0
    } else {
        stray_count(default_sink, streams.drop_last(), map) + if stray_sink(
            default_sink,
            streams.last(),
            map,
        ) is Some {
            1nat
        } else {
            0nat
        }
    }
}

/// The list of mismatches has one entry for each stream that plays
/// elsewhere.
pub proof fn lemma_mismatch_count(
    default_sink: Seq<char>,
    streams: Seq<StreamFacts>,
    map: Seq<(u32, Seq<char>)>,
)
    ensures
        mismatches(default_sink, streams, map).len() == stray_count(default_sink, streams, map),
    decreases streams.len(),
{
    if streams.len() > 0 {
        lemma_mismatch_count(default_sink, streams.drop_last(), map);
    }
}

/// Where a stream plays to a sink known by name that is not the default one,
/// the outcome is a warning. Its message lists the mismatches, one for each
/// such stream.
pub proof fn law_stray_warns(
    default_sink: Seq<char>,
    streams: Seq<StreamFacts>,
    map: Seq<(u32, Seq<char>)>,
    i: int,
)
    requires
        0 <= i < streams.len(),
        stray_sink(default_sink, streams[i], map) is Some,
    ensures
        routing_verdict(default_sink, streams, map).status == CheckStatus::Warning,
        routing_verdict(default_sink, streams, map).message == decimal(
            stray_count(default_sink, streams, map),
        ) + " stream(s) playing to non-default output: "@ + join(
            mismatches(default_sink, streams, map),
            ", "@,
        ),
        stray_count(default_sink, streams, map) > 0,
{
    lemma_mismatch_count(default_sink, streams, map);
    lemma_stray_counted(default_sink, streams, map, i);
}

/// A stream that plays elsewhere is counted.
pub proof fn lemma_stray_counted(
    default_sink: Seq<char>,
    streams: Seq<StreamFacts>,
    map: Seq<(u32, Seq<char>)>,
    i: int,
)
    requires
        0 <= i < streams.len(),
        stray_sink(default_sink, streams[i], map) is Some,
    ensures
        stray_count(default_sink, streams, map) > 0,
    decreases streams.len(),
{
    if i < streams.len() - 1 {
        lemma_stray_counted(default_sink, streams.drop_last(), map, i);
    }
}


/// Whether the check reads the stream listing: it does once the default
/// sink query has named a sink.
pub open spec fn reads_streams(query: Capture) -> bool {
    trim(query.stdout).len() > 0
}

/// Whether the check reads the sink listing: it does once it has read a
/// stream listing that succeeded and holds a stream.
pub open spec fn reads_sinks(query: Capture, streams: Capture) -> bool {
    reads_streams(query) && streams.success && sink_inputs(streams.stdout).len() > 0
}

/// Whether the check will read the stream listing, given the output of the
/// default sink query. Where it will not, the listing need not be made.
pub fn needs_stream_listing(default_sink: &CommandOutput) -> (b: bool)
    ensures
        b == reads_streams(default_sink@),
{
    trimmed(&chars_of(default_sink.stdout.as_str())).len() > 0
}

/// Whether the check will read the sink listing, given the output of the
/// default sink query and of the stream listing. Where it will not, the
/// listing need not be made.
pub fn needs_sink_listing(default_sink: &CommandOutput, inputs: &CommandOutput) -> (b: bool)
    ensures
        b == reads_sinks(default_sink@, inputs@),
{
    needs_stream_listing(default_sink) && inputs.success && parse_sink_inputs(
        inputs.stdout.as_str(),
    ).len() > 0
}

/// Where the check does not read the stream listing, its outcome is the
/// same whatever stands in the place of the two listings.
pub proof fn law_unread_streams(query: Capture, a: Capture, b: Capture, c: Capture, d: Capture)
    requires
        !reads_streams(query),
    ensures
        routing_outcome(query, a, c) == routing_outcome(query, b, d),
{
}

/// Where the check does not read the sink listing, its outcome is the same
/// whatever stands in the listing's place.
pub proof fn law_unread_sinks(query: Capture, streams: Capture, a: Capture, b: Capture)
    requires
        !reads_sinks(query, streams),
    ensures
        routing_outcome(query, streams, a) == routing_outcome(query, streams, b),
{
}

} // verus!
