//! The six checks, and the order in which they run.

pub mod audio_stack;
pub mod bluetooth;
pub mod device_presence;
pub mod mute_state;
pub mod sink_inputs;
pub mod sink_validity;

use crate::checks::audio_stack::{check_audio_stack, stack_outcome};
use crate::checks::bluetooth::{bluetooth_outcome, check_bluetooth_profile};
use crate::checks::device_presence::{check_audio_devices, device_outcome};
use crate::checks::mute_state::{check_mute_state, mute_outcome};
use crate::checks::sink_inputs::{check_sink_inputs, routing_outcome};
use crate::checks::sink_validity::{check_default_sink, default_sink_outcome};
use crate::runner::{Capture, CommandOutput};
use crate::types::{outcomes, CheckResult, Outcome};
use vstd::prelude::*;

verus! {

/// What the inspected tools printed in one run. Each check has the output
/// of its own runs of the commands; the comment on a field gives its
/// command. A listing that its check will not read need not be made: any
/// output may stand in its place.
#[derive(Debug, Clone)]
pub struct Observations {
    /// `systemctl --user is-active pipewire`
    pub pipewire: CommandOutput,
    /// `systemctl --user is-active wireplumber`
    pub wireplumber: CommandOutput,
    /// `pactl info`
    pub pactl_info: CommandOutput,
    /// `aplay -l`
    pub devices: CommandOutput,
    /// `pactl get-default-sink`, for the default sink check
    pub sink_query: CommandOutput,
    /// `pactl list sinks`, for the default sink check
    pub sink_listing: CommandOutput,
    /// `pactl get-default-sink`, for the mute check
    pub mute_query: CommandOutput,
    /// `pactl list sinks`, for the mute check
    pub mute_listing: CommandOutput,
    /// `pactl get-default-sink`, for the stream routing check
    pub stream_query: CommandOutput,
    /// `pactl list sink-inputs`
    pub stream_listing: CommandOutput,
    /// `pactl list sinks`, for the stream routing check
    pub stream_sinks: CommandOutput,
    /// `pactl get-default-sink`, for the bluetooth check
    pub bluetooth_query: CommandOutput,
    /// `pactl list cards`
    pub cards: CommandOutput,
}

/// The tools' output as plain values.
pub struct Sightings {
    pub pipewire: Capture,
    pub wireplumber: Capture,
    pub pactl_info: Capture,
    pub devices: Capture,
    pub sink_query: Capture,
    pub sink_listing: Capture,
    pub mute_query: Capture,
    pub mute_listing: Capture,
    pub stream_query: Capture,
    pub stream_listing: Capture,
    pub stream_sinks: Capture,
    pub bluetooth_query: Capture,
    pub cards: Capture,
}

impl View for Observations {
    type V = Sightings;

    open spec fn view(&self) -> Sightings {
        Sightings {
            pipewire: self.pipewire@,
            wireplumber: self.wireplumber@,
            pactl_info: self.pactl_info@,
            devices: self.devices@,
            sink_query: self.sink_query@,
            sink_listing: self.sink_listing@,
            mute_query: self.mute_query@,
            mute_listing: self.mute_listing@,
            stream_query: self.stream_query@,
            stream_listing: self.stream_listing@,
            stream_sinks: self.stream_sinks@,
            bluetooth_query: self.bluetooth_query@,
            cards: self.cards@,
        }
    }
}

/// The outcomes of the six checks, in the order in which the checks run:
/// sound server, devices, default sink, mute, stream routing, bluetooth.
pub open spec fn all_outcomes(seen: Sightings) -> Seq<Outcome> {
    seq![
        stack_outcome(seen.pipewire, seen.wireplumber, seen.pactl_info),
        device_outcome(seen.devices),
        default_sink_outcome(seen.sink_query, seen.sink_listing),
        mute_outcome(seen.mute_query, seen.mute_listing),
        routing_outcome(seen.stream_query, seen.stream_listing, seen.stream_sinks),
        bluetooth_outcome(seen.bluetooth_query, seen.cards),
    ]
}

/// Runs the six checks on what the tools printed. The results come in a
/// fixed order, whatever they are.
pub fn run_all_checks(seen: &Observations) -> (results: Vec<CheckResult>)
    ensures
        outcomes(results@) == all_outcomes(seen@),
{
    let mut results: Vec<CheckResult> = Vec::new();
    results.push(check_audio_stack(&seen.pipewire, &seen.wireplumber, &seen.pactl_info));
    results.push(check_audio_devices(&seen.devices));
    results.push(check_default_sink(&seen.sink_query, &seen.sink_listing));
    results.push(check_mute_state(&seen.mute_query, &seen.mute_listing));
    results.push(check_sink_inputs(&seen.stream_query, &seen.stream_listing, &seen.stream_sinks));
    results.push(check_bluetooth_profile(&seen.bluetooth_query, &seen.cards));
    assert(outcomes(results@) =~= all_outcomes(seen@));
    results
}

} // verus!
