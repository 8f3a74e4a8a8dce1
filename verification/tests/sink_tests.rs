use why_no_sound::checks::mute_state;
use why_no_sound::checks::mute_state::{
    check_mute_state, judge_mute, parse_mute_and_volume, percent_in,
};
use why_no_sound::checks::sink_validity;
use why_no_sound::checks::sink_validity::{
    check_default_sink, judge_sink, parse_sink_info, SinkInfo,
};
use why_no_sound::runner::CommandOutput;
use why_no_sound::types::CheckStatus;

fn said(stdout: &str) -> CommandOutput {
    CommandOutput { stdout: stdout.to_string(), stderr: String::new(), success: true }
}

fn broke(stdout: &str) -> CommandOutput {
    CommandOutput { stdout: stdout.to_string(), stderr: "failed".to_string(), success: false }
}

fn hdmi_sinks(availability: &str) -> String {
    format!(
        "Sink #1\n\tName: alsa_output.pci-0000_00_1f.3.analog-stereo\n\tDescription: Built-in Audio Analog Stereo\n\tState: RUNNING\n\tMute: no\n\tVolume: front-left: 26214 /  40% / -23.87 dB,   front-right: 26214 /  40% / -23.87 dB\n\tPorts:\n\t\tanalog-output-speaker: Speakers (type: Speaker, priority: 10000, availability unknown)\n\tActive Port: analog-output-speaker\n\nSink #2\n\tName: alsa_output.pci-0000_01_00.1.hdmi-stereo\n\tDescription: GP107 High Definition Audio Controller Digital Stereo (HDMI)\n\tState: IDLE\n\tMute: yes\n\tVolume: front-left: 65536 / 100% / 0.00 dB\n\tPorts:\n\t\thdmi-output-0: HDMI / DisplayPort (type: HDMI, priority: 5900, {})\n\t\thdmi-output-1: HDMI / DisplayPort 2 (type: HDMI, priority: 5800, available)\n\tActive Port: hdmi-output-0\n\tFormats:\n\t\tpcm\n",
        availability
    )
}

const HDMI: &str = "alsa_output.pci-0000_01_00.1.hdmi-stereo";
const ANALOG: &str = "alsa_output.pci-0000_00_1f.3.analog-stereo";

#[test]
fn sink_facts_are_read_from_its_record() {
    let info = parse_sink_info(&hdmi_sinks("not available"), HDMI).unwrap();
    assert_eq!(info.name, HDMI);
    assert_eq!(info.description, "GP107 High Definition Audio Controller Digital Stereo (HDMI)");
    assert_eq!(info.state, "IDLE");
    assert_eq!(info.active_port, "hdmi-output-0");
    assert_eq!(info.port_availability, "not available");
    let info = parse_sink_info(&hdmi_sinks("available"), HDMI).unwrap();
    assert_eq!(info.port_availability, "available");
    let info = parse_sink_info(&hdmi_sinks("availability unknown"), HDMI).unwrap();
    assert_eq!(info.port_availability, "");
    let info = parse_sink_info(&hdmi_sinks("available"), ANALOG).unwrap();
    assert_eq!(info.description, "Built-in Audio Analog Stereo");
    assert_eq!(info.state, "RUNNING");
    assert_eq!(info.active_port, "analog-output-speaker");
    assert_eq!(info.port_availability, "");
}

#[test]
fn absent_sink_gives_no_facts() {
    assert!(parse_sink_info(&hdmi_sinks("available"), "nowhere").is_none());
    assert!(parse_sink_info(&hdmi_sinks("available"), "alsa_output").is_none());
    assert!(parse_sink_info("", "x").is_none());
    assert!(parse_sink_info("Description: x\nState: RUNNING\n", "x").is_none());
}

#[test]
fn sink_with_missing_fields_has_empty_facts() {
    let info = parse_sink_info("Name: x\n", "x").unwrap();
    assert_eq!(info.name, "x");
    assert_eq!(info.description, "");
    assert_eq!(info.state, "");
    assert_eq!(info.active_port, "");
    assert_eq!(info.port_availability, "");
}

#[test]
fn port_is_looked_up_after_the_whole_record_is_read() {
    let before = "Name: x\nActive Port: p2\nPorts:\n\tp1: One (available)\n\tp2: Two (not available)\n";
    let after = "Name: x\nPorts:\n\tp1: One (available)\n\tp2: Two (not available)\nActive Port: p2\n";
    assert_eq!(parse_sink_info(before, "x").unwrap().port_availability, "not available");
    assert_eq!(parse_sink_info(after, "x").unwrap().port_availability, "not available");
    let first = "Name: x\nPorts:\n\tp1: One (available)\n\tp2: Two (not available)\nActive Port: p1\n";
    assert_eq!(parse_sink_info(first, "x").unwrap().port_availability, "available");
}

#[test]
fn first_of_two_sinks_with_one_name_is_taken() {
    let text = "Name: x\nDescription: first\nName: x\nDescription: second\n";
    assert_eq!(parse_sink_info(text, "x").unwrap().description, "first");
}

#[test]
fn default_sink_query_that_fails_is_an_error() {
    let r = check_default_sink(&broke(""), &said(&hdmi_sinks("available")));
    assert_eq!(r.name, "default_sink");
    assert_eq!(r.status, CheckStatus::Error);
    assert_eq!(r.message, "Cannot determine default sink (audio server not responding)");
    assert_eq!(r.suggestion, Some("Ensure PipeWire or PulseAudio is running".to_string()));
    assert_eq!(r.debug_info, Some("pactl get-default-sink:\n\n".to_string()));
}

#[test]
fn empty_default_sink_is_an_error() {
    let r = check_default_sink(&said("  \n"), &said(&hdmi_sinks("available")));
    assert_eq!(r.status, CheckStatus::Error);
    assert_eq!(r.message, "No default sink configured");
    assert_eq!(r.suggestion, Some("Set a default output device in your sound settings".to_string()));
    assert_eq!(r.debug_info, Some("pactl get-default-sink:\n\n".to_string()));
}

#[test]
fn sink_listing_that_fails_is_a_warning() {
    let r = check_default_sink(&said("x\n"), &broke("partial"));
    assert_eq!(r.status, CheckStatus::Warning);
    assert_eq!(r.message, "Cannot list sinks");
    assert_eq!(r.suggestion, Some("Check audio server status".to_string()));
    assert_eq!(
        r.debug_info,
        Some("pactl get-default-sink:\nx\npactl list sinks (truncated):\npartial\n".to_string())
    );
}

#[test]
fn default_sink_that_is_not_listed_is_an_error() {
    let r = check_default_sink(&said("gone_sink\n"), &said(&hdmi_sinks("available")));
    assert_eq!(r.status, CheckStatus::Error);
    assert_eq!(r.message, "Default sink 'gone_sink' not found in sink list");
    assert_eq!(
        r.suggestion,
        Some("Your default audio device may have been removed. Select a new output device.".to_string())
    );
}

#[test]
fn suspended_sink_is_a_warning() {
    let text = "Name: x\nState: SUSPENDED\nDescription: HDMI thing\nActive Port: p\nPorts:\n\tp: (not available)\n";
    let r = check_default_sink(&said("x"), &said(text));
    assert_eq!(r.status, CheckStatus::Warning);
    assert_eq!(r.message, "Default sink is SUSPENDED (no active audio streams)");
    assert_eq!(
        r.suggestion,
        Some("This is normal when nothing is playing. Try playing audio.".to_string())
    );
    let lower = "Name: x\nState: suspended\n";
    assert_eq!(check_default_sink(&said("x"), &said(lower)).status, CheckStatus::Warning);
}

#[test]
fn unplugged_hdmi_is_an_error() {
    let r = check_default_sink(&said(&format!("{}\n", HDMI)), &said(&hdmi_sinks("not available")));
    assert_eq!(r.status, CheckStatus::Error);
    assert_eq!(
        r.message,
        "Default output is HDMI (GP107 High Definition Audio Controller Digital Stereo (HDMI)) but appears disconnected"
    );
    assert_eq!(
        r.suggestion,
        Some("Switch output to Built-in Audio or connect your HDMI display".to_string())
    );
    let listing = hdmi_sinks("not available");
    let shown: String = listing.chars().take(2000).collect();
    assert_eq!(
        r.debug_info,
        Some(format!("pactl get-default-sink:\n{}\npactl list sinks (truncated):\n{}\n", HDMI, shown))
    );
}

#[test]
fn plugged_hdmi_is_fine() {
    let r = check_default_sink(&said(&format!("{}\n", HDMI)), &said(&hdmi_sinks("available")));
    assert_eq!(r.status, CheckStatus::Okay);
    assert_eq!(
        r.message,
        "Default sink: GP107 High Definition Audio Controller Digital Stereo (HDMI)"
    );
    assert_eq!(r.suggestion, None);
}

#[test]
fn hdmi_is_told_in_any_case_of_letters() {
    let text = "Name: alsa_output.HDMI-stereo\nDescription: Display\nActive Port: out\nPorts:\n\tout: Digital (not available)\n";
    let r = check_default_sink(&said("alsa_output.HDMI-stereo"), &said(text));
    assert_eq!(r.status, CheckStatus::Error);
    assert_eq!(r.message, "Default output is HDMI (Display) but appears disconnected");
    let by_description = "Name: out1\nDescription: Monitor (Hdmi)\nActive Port: Port-UNAVAILABLE\n";
    let r = check_default_sink(&said("out1"), &said(by_description));
    assert_eq!(r.status, CheckStatus::Error);
}

#[test]
fn other_sink_with_unavailable_port_is_fine() {
    let text = "Name: analog\nDescription: Speakers\nActive Port: out\nPorts:\n\tout: Line (not available)\n";
    let r = check_default_sink(&said("analog"), &said(text));
    assert_eq!(r.status, CheckStatus::Okay);
    assert_eq!(r.message, "Default sink: Speakers");
}

#[test]
fn sink_verdict_follows_the_given_texts() {
    let info = SinkInfo {
        name: "n".to_string(),
        description: "Screen".to_string(),
        state: "whatever".to_string(),
        active_port: "p".to_string(),
        port_availability: "not available".to_string(),
    };
    assert_eq!(judge_sink(&info, "SUSPENDED", "hdmi", "", "").status, CheckStatus::Warning);
    assert_eq!(judge_sink(&info, "suspended", "an hdmi out", "", "").status, CheckStatus::Error);
    assert_eq!(judge_sink(&info, "", "", "with hdmi", "").status, CheckStatus::Error);
    assert_eq!(judge_sink(&info, "", "HDMI", "HDMI", "").status, CheckStatus::Okay);
    assert_eq!(judge_sink(&info, "", "analog", "speakers", "unavailable").status, CheckStatus::Okay);
    assert_eq!(judge_sink(&info, "RUNNING", "", "", "").message, "Default sink: Screen");
    let plugged = SinkInfo { port_availability: "available".to_string(), ..info };
    assert_eq!(judge_sink(&plugged, "", "hdmi", "", "").status, CheckStatus::Okay);
    assert_eq!(judge_sink(&plugged, "", "hdmi", "", "port unavailable").status, CheckStatus::Error);
}

#[test]
fn muted_sink_is_an_error_whatever_its_volume() {
    for volume in ["", "\tVolume: mono: 0 / 0%\n", "\tVolume: mono: 65536 / 100%\n", "\tVolume: nonsense\n"] {
        for word in ["yes", "YES", "Yes"] {
            let text = format!("Sink #0\n\tName: s\n{}\tMute: {}\n{}", volume, word, volume);
            let r = check_mute_state(&said("s\n"), &said(&text));
            assert_eq!(r.name, "mute_state");
            assert_eq!(r.status, CheckStatus::Error);
            assert_eq!(r.message, "Output is muted");
            assert_eq!(
                r.suggestion,
                Some("Unmute in sound settings or press the mute key".to_string())
            );
        }
    }
}

#[test]
fn low_volume_is_a_warning() {
    for percent in 0..5 {
        let text = format!("Name: s\nMute: no\nVolume: front-left: 1000 /   {}% / -60.00 dB\n", percent);
        let r = check_mute_state(&said("s"), &said(&text));
        assert_eq!(r.status, CheckStatus::Warning);
        assert_eq!(r.message, format!("Volume is very low ({}%)", percent));
        assert_eq!(r.suggestion, Some("Increase volume in sound settings".to_string()));
    }
}

#[test]
fn volume_from_five_percent_is_fine() {
    for percent in [5, 6, 40, 99, 100, 153] {
        let text = format!("Name: s\nMute: no\nVolume: front-left: 1000 / {}% / -60.00 dB,   front-right: 0 / 0%\n", percent);
        let r = check_mute_state(&said("s"), &said(&text));
        assert_eq!(r.status, CheckStatus::Okay);
        assert_eq!(r.message, format!("Output is not muted (volume: {}%)", percent));
        assert_eq!(r.suggestion, None);
    }
}

#[test]
fn unknown_volume_is_fine_when_not_muted() {
    let r = check_mute_state(&said("s"), &said("Name: s\nMute: no\n"));
    assert_eq!(r.status, CheckStatus::Okay);
    assert_eq!(r.message, "Output is not muted");
    assert_eq!(r.debug_info, Some("pactl list sinks (mute info):\nName: s\nMute: no\n".to_string()));
}

#[test]
fn unknown_mute_state_is_a_warning() {
    let r = check_mute_state(&said("s"), &said("Name: s\nVolume: mono: 1 / 50%\n"));
    assert_eq!(r.status, CheckStatus::Warning);
    assert_eq!(r.message, "Could not determine mute state");
    assert_eq!(r.suggestion, Some("Check sound settings manually".to_string()));
    let r = check_mute_state(&said("s"), &said("Name: other\nMute: yes\n"));
    assert_eq!(r.message, "Could not determine mute state");
    let r = check_mute_state(&said("s"), &said(""));
    assert_eq!(r.message, "Could not determine mute state");
    assert_eq!(r.debug_info, Some("pactl list sinks (mute info):\n\n".to_string()));
}

#[test]
fn mute_check_needs_a_default_sink() {
    let r = check_mute_state(&said("\n"), &said("Name: s\nMute: yes\n"));
    assert_eq!(r.status, CheckStatus::Warning);
    assert_eq!(r.message, "Cannot check mute state (no default sink)");
    assert_eq!(r.suggestion, Some("Set a default output device first".to_string()));
    assert_eq!(r.debug_info, None);
}

#[test]
fn mute_check_needs_the_sink_listing() {
    let r = check_mute_state(&said("s"), &broke("Name: s\nMute: yes\nDriver: x\n"));
    assert_eq!(r.status, CheckStatus::Warning);
    assert_eq!(r.message, "Cannot check mute state");
    assert_eq!(r.suggestion, Some("Ensure audio server is running".to_string()));
    assert_eq!(r.debug_info, Some("pactl list sinks (mute info):\nName: s\nMute: yes\n".to_string()));
}

#[test]
fn mute_evidence_keeps_the_lines_as_they_are() {
    let text = hdmi_sinks("available");
    let r = check_mute_state(&said(ANALOG), &said(&text));
    assert_eq!(r.status, CheckStatus::Okay);
    assert_eq!(r.message, "Output is not muted (volume: 40%)");
    let kept: Vec<&str> = text
        .lines()
        .filter(|l| l.contains("Name:") || l.contains("Mute:") || l.contains("Volume:"))
        .collect();
    assert_eq!(kept.len(), 6);
    assert_eq!(r.debug_info, Some(format!("pactl list sinks (mute info):\n{}\n", kept.join("\n"))));
    let r = check_mute_state(&said(HDMI), &said(&text));
    assert_eq!(r.status, CheckStatus::Error);
}

#[test]
fn mute_and_volume_are_read_from_the_named_sink() {
    let text = hdmi_sinks("available");
    assert_eq!(parse_mute_and_volume(&text, ANALOG), (Some(false), Some(40)));
    assert_eq!(parse_mute_and_volume(&text, HDMI), (Some(true), Some(100)));
    assert_eq!(parse_mute_and_volume(&text, "absent"), (None, None));
    assert_eq!(parse_mute_and_volume("", "s"), (None, None));
    assert_eq!(parse_mute_and_volume("Name: s\nMute: maybe\n", "s"), (Some(false), None));
    assert_eq!(parse_mute_and_volume("Name: s\nMute: no\nMute: yes\n", "s"), (Some(false), None));
    assert_eq!(parse_mute_and_volume("Name: s\nMute: yes\nMute: no\n", "s"), (Some(true), None));
    assert_eq!(
        parse_mute_and_volume("Name: s\nBase Volume: 65536 / 100%\nVolume: mono: 1 / 7%\n", "s"),
        (None, Some(7))
    );
    assert_eq!(
        parse_mute_and_volume("Name: s\nVolume: muted\nVolume: mono: 1 / 7%\nMute: no\n", "s"),
        (Some(false), None)
    );
}

#[test]
fn percentage_is_the_number_before_the_first_percent_sign() {
    assert_eq!(percent_in("front-left: 26214 /  40% / -23.87 dB,   front-right: 26214 /  55% "), Some(40));
    assert_eq!(percent_in("100%"), Some(100));
    assert_eq!(percent_in("0%"), Some(0));
    assert_eq!(percent_in("007%"), Some(7));
    assert_eq!(percent_in("+7%"), Some(7));
    assert_eq!(percent_in("-7%"), Some(7));
    assert_eq!(percent_in("%"), None);
    assert_eq!(percent_in("x %"), None);
    assert_eq!(percent_in("50 %"), None);
    assert_eq!(percent_in("50"), None);
    assert_eq!(percent_in(""), None);
    assert_eq!(percent_in("4294967295%"), Some(4294967295));
    assert_eq!(percent_in("4294967296%"), None);
    assert_eq!(percent_in("a% 50%"), None);
}

#[test]
fn mute_verdict_follows_the_facts() {
    assert_eq!(judge_mute(Some(true), None).status, CheckStatus::Error);
    assert_eq!(judge_mute(Some(true), Some(100)).status, CheckStatus::Error);
    assert_eq!(judge_mute(Some(true), Some(0)).status, CheckStatus::Error);
    assert_eq!(judge_mute(Some(false), Some(4)).status, CheckStatus::Warning);
    assert_eq!(judge_mute(Some(false), Some(5)).status, CheckStatus::Okay);
    assert_eq!(judge_mute(Some(false), Some(4294967295)).message, "Output is not muted (volume: 4294967295%)");
    assert_eq!(judge_mute(Some(false), None).status, CheckStatus::Okay);
    assert_eq!(judge_mute(None, Some(50)).status, CheckStatus::Warning);
    assert_eq!(judge_mute(None, None).debug_info, None);
}

#[test]
fn sink_checks_say_whether_they_read_the_listing() {
    assert!(sink_validity::needs_sink_listing(&said("speakers\n")));
    assert!(!sink_validity::needs_sink_listing(&broke("speakers\n")));
    assert!(!sink_validity::needs_sink_listing(&said("\t\n")));
    assert!(mute_state::needs_sink_listing(&said("speakers\n")));
    assert!(mute_state::needs_sink_listing(&broke("speakers\n")));
    assert!(!mute_state::needs_sink_listing(&said("\n")));
    for query in [broke("speakers\n"), said("")] {
        let with = check_default_sink(&query, &said("Name: speakers\n"));
        let without = check_default_sink(&query, &broke(""));
        assert_eq!(with.status, without.status);
        assert_eq!(with.message, without.message);
        assert_eq!(with.debug_info, without.debug_info);
    }
    let with = check_mute_state(&said(""), &said("Name: s\nMute: yes\n"));
    let without = check_mute_state(&said(""), &broke(""));
    assert_eq!(with.message, without.message);
    assert_eq!(with.debug_info, without.debug_info);
}
