use why_no_sound::checks::audio_stack::{check_audio_stack, judge_stack, server_name};
use why_no_sound::checks::device_presence::{check_audio_devices, count_cards};
use why_no_sound::runner::CommandOutput;
use why_no_sound::types::CheckStatus;

fn said(stdout: &str) -> CommandOutput {
    CommandOutput { stdout: stdout.to_string(), stderr: String::new(), success: true }
}

fn broke(stdout: &str, stderr: &str) -> CommandOutput {
    CommandOutput { stdout: stdout.to_string(), stderr: stderr.to_string(), success: false }
}

const PULSE_INFO: &str = "Server String: /run/user/1000/pulse/native\nServer Name: pulseaudio\nServer Version: 16.1\n";
const PIPEWIRE_INFO: &str = "Server String: /run/user/1000/pulse/native\nServer Name: PulseAudio (on PipeWire 0.3.65)\nServer Version: 15.0.0\n";

#[test]
fn both_services_running_is_fine() {
    let r = check_audio_stack(&said("active\n"), &said("active\n"), &broke("", "no pactl"));
    assert_eq!(r.name, "audio_stack");
    assert_eq!(r.status, CheckStatus::Okay);
    assert_eq!(r.message, "PipeWire and WirePlumber are running");
    assert_eq!(r.suggestion, None);
    assert_eq!(
        r.debug_info,
        Some("systemctl --user is-active pipewire:\nactive\nsystemctl --user is-active wireplumber:\nactive\npactl info (first 500 chars):\n\n".to_string())
    );
}

#[test]
fn pipewire_without_wireplumber_is_a_warning() {
    let r = check_audio_stack(&said("active\n"), &broke("inactive\n", ""), &said(PIPEWIRE_INFO));
    assert_eq!(r.status, CheckStatus::Warning);
    assert_eq!(r.message, "PipeWire is running but WirePlumber is not");
    assert_eq!(r.suggestion, Some("Start WirePlumber: systemctl --user start wireplumber".to_string()));
    assert_eq!(
        r.debug_info,
        Some(format!("systemctl --user is-active pipewire:\nactive\nsystemctl --user is-active wireplumber:\ninactive\npactl info (first 500 chars):\n{}\n", PIPEWIRE_INFO))
    );
}

#[test]
fn pulseaudio_alone_is_legacy_mode() {
    let r = check_audio_stack(&broke("inactive\n", ""), &broke("inactive\n", ""), &said(PULSE_INFO));
    assert_eq!(r.status, CheckStatus::Okay);
    assert_eq!(r.message, "PulseAudio is running (legacy mode)");
    assert_eq!(r.suggestion, None);
}

#[test]
fn pipewire_answering_without_service_is_socket_activated() {
    let r = check_audio_stack(&broke("inactive\n", ""), &broke("inactive\n", ""), &said(PIPEWIRE_INFO));
    assert_eq!(r.status, CheckStatus::Okay);
    assert_eq!(r.message, "PipeWire is running (socket-activated)");
    assert_eq!(r.suggestion, None);
}

#[test]
fn wireplumber_without_pipewire_is_unclear() {
    for info in [PULSE_INFO, PIPEWIRE_INFO, ""] {
        let r = check_audio_stack(&said("inactive\n"), &said("active\n"), &said(info));
        assert_eq!(r.name, "audio_stack");
        assert_eq!(r.status, CheckStatus::Warning);
        assert_eq!(r.message, "Audio stack status is unclear");
        assert_eq!(
            r.suggestion,
            Some("Check your audio server manually: systemctl --user status pipewire".to_string())
        );
        assert_eq!(
            r.debug_info,
            Some(format!("systemctl --user is-active pipewire:\ninactive\nsystemctl --user is-active wireplumber:\nactive\npactl info (first 500 chars):\n{}\n", info))
        );
    }
}

#[test]
fn wireplumber_without_any_answer_is_an_error() {
    let r = check_audio_stack(&said("inactive\n"), &said("active\n"), &broke("", "Connection refused"));
    assert_eq!(r.status, CheckStatus::Error);
    assert_eq!(r.message, "No audio server detected");
}

#[test]
fn no_answer_at_all_is_an_error() {
    let r = check_audio_stack(&broke("", "x"), &broke("", "x"), &broke("", "Connection refused"));
    assert_eq!(r.status, CheckStatus::Error);
    assert_eq!(r.message, "No audio server detected");
    assert_eq!(
        r.suggestion,
        Some("Start PipeWire: systemctl --user start pipewire pipewire-pulse wireplumber".to_string())
    );
}

#[test]
fn service_answer_must_be_the_word_active() {
    let r = check_audio_stack(&said("  active  \n"), &said("activating\n"), &said(""));
    assert_eq!(r.status, CheckStatus::Warning);
    let r = check_audio_stack(&said("Active\n"), &said("active\n"), &said(PULSE_INFO));
    assert_eq!(r.message, "Audio stack status is unclear");
    let r = check_audio_stack(&said("Active\n"), &said("ACTIVE\n"), &said(PULSE_INFO));
    assert_eq!(r.message, "PulseAudio is running (legacy mode)");
}

#[test]
fn evidence_keeps_the_first_500_characters_of_the_report() {
    let long: String = "é".repeat(600);
    let r = check_audio_stack(&said("active"), &said("active"), &said(&long));
    let expected = format!(
        "systemctl --user is-active pipewire:\nactive\nsystemctl --user is-active wireplumber:\nactive\npactl info (first 500 chars):\n{}\n",
        "é".repeat(500)
    );
    assert_eq!(r.debug_info, Some(expected));
}

#[test]
fn server_name_is_read_from_its_line() {
    assert_eq!(server_name(PULSE_INFO), "pulseaudio");
    assert_eq!(server_name(PIPEWIRE_INFO), "PulseAudio (on PipeWire 0.3.65)");
    assert_eq!(server_name("Server Name:Server Name:  x \n"), "x");
    assert_eq!(server_name("Server Name: a\nServer Name: b\n"), "a");
    assert_eq!(server_name(" Server Name: indented\n"), "");
    assert_eq!(server_name("Server String: s\n"), "");
    assert_eq!(server_name(""), "");
    assert_eq!(server_name("Server Name:"), "");
}

#[test]
fn server_name_is_compared_in_lowercase() {
    let info = "Server Name: PulseAudio (on PIPEWIRE 1.0)\n";
    let r = check_audio_stack(&said("inactive"), &said("inactive"), &said(info));
    assert_eq!(r.message, "PipeWire is running (socket-activated)");
}

#[test]
fn stack_verdict_covers_all_cases() {
    for pulse in [false, true] {
        for works in [false, true] {
            assert_eq!(judge_stack(true, true, works, pulse).status, CheckStatus::Okay);
            assert_eq!(judge_stack(true, false, works, pulse).status, CheckStatus::Warning);
        }
        for wp in [false, true] {
            assert_eq!(judge_stack(false, wp, false, pulse).status, CheckStatus::Error);
            assert_eq!(judge_stack(false, wp, false, pulse).message, "No audio server detected");
        }
        assert_eq!(judge_stack(false, true, true, pulse).status, CheckStatus::Warning);
        assert_eq!(judge_stack(false, true, true, pulse).message, "Audio stack status is unclear");
        assert_eq!(judge_stack(false, false, true, pulse).status, CheckStatus::Okay);
    }
    assert_eq!(judge_stack(false, false, true, false).message, "PulseAudio is running (legacy mode)");
    assert_eq!(judge_stack(false, false, true, true).message, "PipeWire is running (socket-activated)");
    assert_eq!(judge_stack(false, false, true, true).debug_info, None);
}

const APLAY: &str = "**** List of PLAYBACK Hardware Devices ****\ncard 0: PCH [HDA Intel PCH], device 0: ALC3246 Analog [ALC3246 Analog]\n  Subdevices: 1/1\n  Subdevice #0: subdevice #0\ncard 0: PCH [HDA Intel PCH], device 3: HDMI 0 [HDMI 0]\n  Subdevices: 1/1\ncard 1: USB [USB Audio], device 0: USB Audio [USB Audio]\n";

#[test]
fn listed_cards_are_counted() {
    let r = check_audio_devices(&said(APLAY));
    assert_eq!(r.name, "audio_devices");
    assert_eq!(r.status, CheckStatus::Okay);
    assert_eq!(r.message, "3 audio device(s) detected");
    assert_eq!(r.suggestion, None);
    assert_eq!(r.debug_info, Some(format!("aplay -l:\n{}", APLAY)));
    assert_eq!(count_cards(APLAY), 3);
    assert_eq!(count_cards(""), 0);
    assert_eq!(count_cards(" card 0: indented\ncards\ncard"), 0);
    assert_eq!(count_cards("card 0"), 1);
}

#[test]
fn missing_listing_tool_is_a_warning() {
    let r = check_audio_devices(&broke("", "sh: aplay: command not found"));
    assert_eq!(r.status, CheckStatus::Warning);
    assert_eq!(r.message, "Cannot check audio devices (aplay not installed)");
    assert_eq!(r.suggestion, Some("Install alsa-utils package for full diagnostics".to_string()));
    assert_eq!(r.debug_info, Some("aplay -l:\nsh: aplay: command not found".to_string()));
    let r = check_audio_devices(&broke("", "Failed to execute command: No such file or directory (os error 2)"));
    assert_eq!(r.status, CheckStatus::Warning);
}

#[test]
fn no_soundcards_is_an_error() {
    let r = check_audio_devices(&broke("", "aplay: device_list:274: no soundcards found...\n"));
    assert_eq!(r.status, CheckStatus::Error);
    assert_eq!(r.message, "No audio devices detected");
    assert_eq!(
        r.suggestion,
        Some("Possible cause: missing driver or disabled device in BIOS".to_string())
    );
    let r = check_audio_devices(&said("card 0: x\nno soundcards found\n"));
    assert_eq!(r.status, CheckStatus::Error);
}

#[test]
fn listing_without_a_card_line_is_an_error() {
    let r = check_audio_devices(&said("**** List of PLAYBACK Hardware Devices ****\n"));
    assert_eq!(r.status, CheckStatus::Error);
    assert_eq!(r.message, "No audio devices detected");
    let r = check_audio_devices(&said(""));
    assert_eq!(r.status, CheckStatus::Error);
}

#[test]
fn failed_listing_that_still_shows_cards_is_fine() {
    let r = check_audio_devices(&broke("card 0: PCH\n", "some other complaint"));
    assert_eq!(r.status, CheckStatus::Okay);
    assert_eq!(r.message, "1 audio device(s) detected");
    assert_eq!(r.debug_info, Some("aplay -l:\ncard 0: PCH\nsome other complaint".to_string()));
}

#[test]
fn a_successful_listing_is_not_taken_for_a_missing_tool() {
    let r = check_audio_devices(&CommandOutput {
        stdout: "card 0: PCH\n".to_string(),
        stderr: "warning: something not found".to_string(),
        success: true,
    });
    assert_eq!(r.status, CheckStatus::Okay);
}
