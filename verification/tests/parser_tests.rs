use why_no_sound::parser::{field_in, parse_records, BlockFormat, Field, Record};
use why_no_sound::printing::print_record;

fn cs(s: &str) -> Vec<char> {
    s.chars().collect()
}

fn format(boundary: &str, sections: &[&str], closers: &[&str]) -> BlockFormat {
    BlockFormat {
        boundary: boundary.to_string(),
        sections: sections.iter().map(|s| s.to_string()).collect(),
        closers: closers.iter().map(|s| s.to_string()).collect(),
    }
}

fn pairs(record: &Record) -> Vec<(String, String)> {
    record.fields.iter().map(|f| (f.label.clone(), f.value.clone())).collect()
}

fn pair(label: &str, value: &str) -> (String, String) {
    (label.to_string(), value.to_string())
}

const CARDS: &str = "Card #0\n\tName: alsa_card.pci-0000_00_1f.3\n\tDriver: alsa\n\tProperties:\n\t\tdevice.description = \"Built-in Audio\"\n\tProfiles:\n\t\toutput:analog-stereo: Analog Stereo Output (sinks: 1, sources: 0, priority: 6500, available: yes)\n\t\toff: Off (sinks: 0, sources: 0, priority: 0, available: yes)\n\tActive Profile: output:analog-stereo\n\tPorts:\n\t\tanalog-output-speaker: Speakers (type: Speaker, priority: 10000, availability unknown)\n\nCard #1\n\tName: bluez_card.AA_BB\n\tProfiles:\n\t\ta2dp-sink: High Fidelity Playback (A2DP Sink)\n\tSinks:\n\t\t#5: bluez_output.AA_BB.1\n";

#[test]
fn empty_text_holds_no_record() {
    assert_eq!(parse_records("", &format("Name:", &[], &[])).len(), 0);
}

#[test]
fn text_without_boundary_holds_no_record() {
    let text = "Driver: alsa\nProfiles:\n\ta2dp-sink: A2DP\nMute: yes\n   \nnonsense";
    assert_eq!(parse_records(text, &format("Name:", &["Profiles:"], &["Mute"])).len(), 0);
    assert_eq!(parse_records(CARDS, &format("Sink:", &[], &[])).len(), 0);
}

#[test]
fn boundary_without_fields_gives_an_empty_record() {
    let records = parse_records("Sink #3\n", &format("Sink #", &[], &[]));
    assert_eq!(records.len(), 1);
    assert_eq!(records[0].header, "3");
    assert_eq!(records[0].fields.len(), 0);
    assert_eq!(records[0].sections.len(), 0);
}

#[test]
fn boundary_line_gives_the_header_and_no_field() {
    let records = parse_records("  Name:   foo  \n", &format("Name:", &[], &[]));
    assert_eq!(records.len(), 1);
    assert_eq!(records[0].header, "foo");
    assert_eq!(records[0].fields.len(), 0);
    assert_eq!(records[0].sections.len(), 0);
    let bare = parse_records("Name:\nName:x\n", &format("Name:", &[], &[]));
    assert_eq!(bare.len(), 2);
    assert_eq!(bare[0].header, "");
    assert_eq!(bare[1].header, "x");
}

#[test]
fn records_split_at_boundaries() {
    let records = parse_records(CARDS, &format("Name:", &["Profiles:", "Sinks:"], &["Active Profile"]));
    assert_eq!(records.len(), 2);
    assert_eq!(records[0].header, "alsa_card.pci-0000_00_1f.3");
    assert_eq!(records[1].header, "bluez_card.AA_BB");
    assert_eq!(
        pairs(&records[0]),
        vec![
            pair("Driver", "alsa"),
            pair("Properties", ""),
            pair("device.description", "Built-in Audio"),
            pair("Active Profile", "output:analog-stereo"),
            pair("Ports", ""),
            pair("analog-output-speaker", "Speakers (type: Speaker, priority: 10000, availability unknown)"),
        ]
    );
    assert_eq!(records[0].sections.len(), 1);
    assert_eq!(records[0].sections[0].title, "Profiles:");
    assert_eq!(
        records[0].sections[0].lines,
        vec![
            "output:analog-stereo: Analog Stereo Output (sinks: 1, sources: 0, priority: 6500, available: yes)",
            "off: Off (sinks: 0, sources: 0, priority: 0, available: yes)",
        ]
    );
    assert_eq!(pairs(&records[1]), Vec::new());
    assert_eq!(records[1].sections.len(), 2);
    assert_eq!(records[1].sections[0].lines, vec!["a2dp-sink: High Fidelity Playback (A2DP Sink)"]);
    assert_eq!(records[1].sections[1].title, "Sinks:");
    assert_eq!(records[1].sections[1].lines, vec!["#5: bluez_output.AA_BB.1"]);
}

#[test]
fn first_of_two_fields_with_one_label_stays() {
    let records = parse_records("Name: a\nMute: yes\nMute: no\nName: b\nMute: no\n", &format("Name:", &[], &[]));
    assert_eq!(records.len(), 2);
    assert_eq!(records[0].field("Mute"), Some("yes".to_string()));
    assert_eq!(records[1].field("Mute"), Some("no".to_string()));
    assert_eq!(records[0].field("Volume"), None);
    assert_eq!(records[0].field_or_empty("Volume"), "");
    assert_eq!(records[0].field("Name"), None);
    assert_eq!(records[0].field_or_empty("Name"), "");
    assert_eq!(records[0].field_or_empty("Mute"), "yes");
}

#[test]
fn unterminated_subsection_runs_to_the_end() {
    let records = parse_records("Name: a\nPorts:\n p1: x\n p2: y", &format("Name:", &["Ports:"], &[]));
    assert_eq!(records.len(), 1);
    assert_eq!(records[0].sections.len(), 1);
    assert_eq!(records[0].section_lines("Ports:"), vec!["p1: x", "p2: y"]);
    assert_eq!(records[0].section_lines("Profiles:"), Vec::<String>::new());
}

#[test]
fn closer_ends_a_subsection_and_is_a_field() {
    let text = "Name: a\nPorts:\n p1: x\nActive Port: p1\n p2: y\n";
    let records = parse_records(text, &format("Name:", &["Ports:"], &["Active Port"]));
    assert_eq!(records[0].section_lines("Ports:"), vec!["p1: x"]);
    assert_eq!(records[0].field("Active Port"), Some("p1".to_string()));
    assert_eq!(records[0].field("p2"), Some("y".to_string()));
    assert_eq!(records[0].field("p1"), None);
}

#[test]
fn subsections_with_one_title_are_read_together() {
    let text = "Name: a\nPorts:\nx\nSinks:\ny\nPorts:\nz\n";
    let records = parse_records(text, &format("Name:", &["Ports:", "Sinks:"], &[]));
    assert_eq!(records[0].sections.len(), 3);
    assert_eq!(records[0].section_lines("Ports:"), vec!["x", "z"]);
    assert_eq!(records[0].section_lines("Sinks:"), vec!["y"]);
}

#[test]
fn header_before_the_first_boundary_opens_nothing() {
    let text = "Ports:\nName: a\np1: x\n";
    let records = parse_records(text, &format("Name:", &["Ports:"], &[]));
    assert_eq!(records.len(), 1);
    assert_eq!(records[0].sections.len(), 0);
    assert_eq!(records[0].field("p1"), Some("x".to_string()));
}

#[test]
fn field_lines_have_two_forms() {
    let f = field_in(&cs("Active Port: analog-output")).unwrap();
    assert_eq!((f.label.as_str(), f.value.as_str()), ("Active Port", "analog-output"));
    let f = field_in(&cs("application.name = \"Firefox\"")).unwrap();
    assert_eq!((f.label.as_str(), f.value.as_str()), ("application.name", "Firefox"));
    let f = field_in(&cs("media.name = \"Song: title\"")).unwrap();
    assert_eq!((f.label.as_str(), f.value.as_str()), ("media.name", "Song: title"));
    let f = field_in(&cs("Description: a = b")).unwrap();
    assert_eq!((f.label.as_str(), f.value.as_str()), ("Description", "a = b"));
    let f = field_in(&cs("Volume: front-left: 65536 / 100%")).unwrap();
    assert_eq!((f.label.as_str(), f.value.as_str()), ("Volume", "front-left: 65536 / 100%"));
    let f = field_in(&cs("Ports:")).unwrap();
    assert_eq!((f.label.as_str(), f.value.as_str()), ("Ports", ""));
    let f = field_in(&cs("key = ")).unwrap();
    assert_eq!((f.label.as_str(), f.value.as_str()), ("key", ""));
    let f = field_in(&cs("key = \" padded \"")).unwrap();
    assert_eq!((f.label.as_str(), f.value.as_str()), ("key", " padded "));
    let f = field_in(&cs("application.name  =  \"\" Firefox\"")).unwrap();
    assert_eq!((f.label.as_str(), f.value.as_str()), ("application.name", " \"\" Firefox"));
    let f = field_in(&cs("key = \"\"a\"b\"\"")).unwrap();
    assert_eq!((f.label.as_str(), f.value.as_str()), ("key", "a\"b"));
    assert!(field_in(&cs("balance 0.00")).is_none());
    assert!(field_in(&cs("")).is_none());
    assert!(field_in(&cs("a=b")).is_none());
}

#[test]
fn printed_record_parses_to_the_same_record() {
    let form = format("Name:", &["Profiles:", "Sinks:"], &["Active Profile"]);
    let text = "Name:   alsa_output.x  \n\tDescription:Built-in  Audio\n\tdevice.api = \"alsa\"\n\tMute: no\n\tMute: yes\n\tVolume: front-left: 65536 / 100% / 0.00 dB\n\tEmpty:\n";
    let first = parse_records(text, &form);
    assert_eq!(first.len(), 1);
    let printed = print_record(&first[0], &form);
    assert_eq!(
        printed,
        "Name: alsa_output.x\nDescription: Built-in  Audio\ndevice.api: alsa\nMute: no\nVolume: front-left: 65536 / 100% / 0.00 dB\nEmpty: \n"
    );
    let second = parse_records(&printed, &form);
    assert_eq!(second.len(), 1);
    assert_eq!(second[0].header, first[0].header);
    assert_eq!(pairs(&second[0]), pairs(&first[0]));
    assert_eq!(second[0].sections.len(), 0);
    assert_eq!(print_record(&second[0], &form), printed);
}

#[test]
fn printed_record_of_each_card_parses_to_the_same_fields() {
    let form = format("Name:", &["Profiles:", "Sinks:"], &["Active Profile"]);
    for record in parse_records(CARDS, &form) {
        let again = parse_records(&print_record(&record, &form), &form);
        assert_eq!(again.len(), 1);
        assert_eq!(again[0].header, record.header);
        assert_eq!(pairs(&again[0]), pairs(&record));
        assert_eq!(again[0].sections.len(), 0);
    }
}

#[test]
fn printed_record_parses_back_whatever_the_boundary() {
    for (boundary, text) in [
        ("Sink #", "Sink #0\nName: x\nState : RUNNING\n"),
        ("Sink #", "Sink #\n"),
        ("Sink:", "Sink: 12\napplication.name = \"Firefox\"\n"),
        ("card ", "card 0: PCH [HDA Intel PCH], device 0\n  Subdevices: 1/1\n"),
        ("", "anything\n"),
    ] {
        let form = format(boundary, &[], &[]);
        for record in parse_records(text, &form) {
            let again = parse_records(&print_record(&record, &form), &form);
            assert_eq!(again.len(), 1, "{:?}", boundary);
            assert_eq!(again[0].header, record.header);
            assert_eq!(pairs(&again[0]), pairs(&record));
        }
    }
}

#[test]
fn record_is_printed_one_field_on_each_line() {
    let record = Record {
        header: "x".to_string(),
        fields: vec![
            Field { label: "Mute".to_string(), value: "no".to_string() },
            Field { label: "Empty".to_string(), value: String::new() },
            Field { label: "".to_string(), value: "v".to_string() },
        ],
        sections: Vec::new(),
    };
    assert_eq!(print_record(&record, &format("Name:", &[], &[])), "Name: x\nMute: no\nEmpty: \n: v\n");
    let bare = Record { header: String::new(), fields: Vec::new(), sections: Vec::new() };
    assert_eq!(print_record(&bare, &format("Sink #", &[], &[])), "Sink # \n");
}

#[test]
fn field_that_prints_as_a_header_does_not_parse_back() {
    let form = format("Name:", &["Ports:"], &[]);
    let first = parse_records("Name: x\nPorts = \"odd\"\n", &form);
    assert_eq!(pairs(&first[0]), vec![pair("Ports", "odd")]);
    let second = parse_records(&print_record(&first[0], &form), &form);
    assert_eq!(second.len(), 1);
    assert_eq!(pairs(&second[0]), Vec::new());
    assert_eq!(second[0].sections.len(), 1);
}

#[test]
fn field_that_prints_as_a_boundary_does_not_parse_back() {
    let form = format("Name:", &[], &[]);
    let first = parse_records("Name: a\nName = \"b\"\n", &form);
    assert_eq!(first.len(), 1);
    assert_eq!(pairs(&first[0]), vec![pair("Name", "b")]);
    let second = parse_records(&print_record(&first[0], &form), &form);
    assert_eq!(second.len(), 2);
}

#[test]
fn value_with_white_space_inside_its_quotes_does_not_parse_back() {
    let form = format("Sink:", &[], &[]);
    let first = parse_records("Sink: 1\napplication.name = \" Firefox \"\n", &form);
    assert_eq!(pairs(&first[0]), vec![pair("application.name", " Firefox ")]);
    let printed = print_record(&first[0], &form);
    assert_eq!(printed, "Sink: 1\napplication.name:  Firefox \n");
    let second = parse_records(&printed, &form);
    assert_eq!(pairs(&second[0]), vec![pair("application.name", "Firefox")]);
}
