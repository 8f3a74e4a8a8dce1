//! The bluetooth profile check: a bluetooth headset that is in call mode
//! plays in low quality, or not at all.

use crate::parser::{
    blocks, lines_under, lookup, parse_records, records_of, value_or_empty, Block, BlockFormat,
    Layout, Record,
};
use crate::runner::{Capture, CommandOutput};
use crate::text::{
    begins_with, chars_of, contains, find, holds, join, joined, keep_lines_with, lines,
    lines_with, lowercase, lowercase_all, lowercase_of, lowered, position, push_all, push_str, rows, slice,
    split_lines, starts_with, str_contains, string_of, texts, trim, trimmed,
};
use crate::types::{
    debugged, error_outcome, ok_outcome, opt_text, warning_outcome, CheckResult, Outcome,
};
use vstd::prelude::*;

verus! {

/// What the card listing says of one bluetooth card.
#[derive(Debug, Clone)]
pub struct BluetoothCard {
    pub name: String,
    pub description: String,
    pub active_profile: String,
    pub available_profiles: Vec<String>,
    pub sinks: Vec<String>,
}

/// A bluetooth card as plain values.
pub struct CardFacts {
    pub name: Seq<char>,
    pub description: Seq<char>,
    pub active_profile: Seq<char>,
    pub available_profiles: Seq<Seq<char>>,
    pub sinks: Seq<Seq<char>>,
}

impl View for BluetoothCard {
    type V = CardFacts;

    open spec fn view(&self) -> CardFacts {
        CardFacts {
            name: self.name@,
            description: self.description@,
            active_profile: self.active_profile@,
            available_profiles: texts(self.available_profiles@),
            sinks: texts(self.sinks@),
        }
    }
}

/// The cards held by a list of cards.
pub open spec fn card_facts(v: Seq<BluetoothCard>) -> Seq<CardFacts> {
    Seq::new(v.len(), |i: int| v[i]@)
}

/// How the card listing is laid out: a card starts at its `Name:` line and
/// lists its profiles and its sinks in subsections.
pub open spec fn card_layout() -> Layout {
    Layout {
        boundary: "Name:"@,
        sections: seq!["Profiles:"@, "Sinks:"@],
        closers: seq!["Active Profile"@, "device.description"@],
    }
}

/// Whether a card of this name is a bluetooth card.
pub open spec fn names_bluetooth(name: Seq<char>) -> bool {
    contains(name, "bluez"@) || contains(name, "bluetooth"@)
}

/// The profile that a line of the profiles subsection names: what stands
/// before its first colon, unless that is empty or continues a port's entry.
pub open spec fn profile_of(line: Seq<char>) -> Option<Seq<char>> {
    match find(line, ":"@) {
        Some(c) => {
            let name = trim(line.take(c));
            if name.len() > 0 && !starts_with(name, "Part of"@) {
                Some(name)
            } else {
                None
            }
        },
        None => None,
    }
}

/// The profiles that the lines name, in order.
pub open spec fn profiles_in(ls: Seq<Seq<char>>) -> Seq<Seq<char>>
    decreases ls.len(),
{
    if ls.len() == 0 {
        Seq::empty()
    } else {
        match profile_of(ls.last()) {
            Some(p) => profiles_in(ls.drop_last()).push(p),
            None => profiles_in(ls.drop_last()),
        }
    }
}

/// Whether a line of the sinks subsection names a sink.
pub open spec fn names_sink(line: Seq<char>) -> bool {
    contains(line, "bluez"@) || starts_with(line, "#"@)
}

/// The lines that name a sink, in order.
pub open spec fn sinks_in(ls: Seq<Seq<char>>) -> Seq<Seq<char>>
    decreases ls.len(),
{
    if ls.len() == 0 {
        Seq::empty()
    } else if names_sink(ls.last()) {
        sinks_in(ls.drop_last()).push(ls.last())
    } else {
        sinks_in(ls.drop_last())
    }
}

/// The card that a record of the card listing describes.
pub open spec fn card_of(r: Block) -> CardFacts {
    CardFacts {
        name: r.header,
        description: value_or_empty(lookup(r.fields, "device.description"@)),
        active_profile: value_or_empty(lookup(r.fields, "Active Profile"@)),
        available_profiles: profiles_in(lines_under(r.sections, "Profiles:"@)),
        sinks: sinks_in(lines_under(r.sections, "Sinks:"@)),
    }
}

/// The bluetooth cards among the records, in order.
pub open spec fn cards_in(records: Seq<Block>) -> Seq<CardFacts>
    decreases records.len(),
{
    if records.len() == 0 {
        Seq::empty()
    } else if names_bluetooth(records.last().header) {
        cards_in(records.drop_last()).push(card_of(records.last()))
    } else {
        cards_in(records.drop_last())
    }
}

/// The bluetooth cards that a card listing holds.
pub open spec fn bluetooth_cards(text: Seq<char>) -> Seq<CardFacts> {
    cards_in(records_of(lines(text), card_layout()))
}

/// The format of the card listing.
pub fn card_format() -> (format: BlockFormat)
    ensures
        format@ == card_layout(),
{
    let mut sections: Vec<String> = Vec::new();
    sections.push(String::from_str("Profiles:"));
    sections.push(String::from_str("Sinks:"));
    let mut closers: Vec<String> = Vec::new();
    closers.push(String::from_str("Active Profile"));
    closers.push(String::from_str("device.description"));
    let format = BlockFormat { boundary: String::from_str("Name:"), sections, closers };
    assert(format@.sections =~= card_layout().sections);
    assert(format@.closers =~= card_layout().closers);
    format
}

/// The profiles that the lines name, in order.
fn profiles_among(ls: &Vec<String>) -> (r: Vec<String>)
    ensures
        texts(r@) == profiles_in(texts(ls@)),
{
    let ghost all = texts(ls@);
    let colon = chars_of(":");
    let part_of = chars_of("Part of");
    let mut r: Vec<String> = Vec::new();
    let mut i: usize = 0;
    assert(all.take(0) == Seq::<Seq<char>>::empty());
    assert(texts(r@) =~= Seq::<Seq<char>>::empty());
    while i < ls.len()
        invariant
            i <= ls.len(),
            all == texts(ls@),
            colon@ == ":"@,
            part_of@ == "Part of"@,
            texts(r@) == profiles_in(all.take(i as int)),
        decreases ls.len() - i,
    {
        let ghost before = texts(r@);
        assert(all.take(i + 1).drop_last() == all.take(i as int));
        assert(all.take(i + 1).last() == ls@[i as int]@);
        let line = chars_of(ls[i].as_str());
        match position(&line, &colon) {
            Some(c) => {
                let name = trimmed(&slice(&line, 0, c));
                if name.len() > 0 && !begins_with(&name, &part_of) {
                    let profile = string_of(&name);
                    r.push(profile);
                    assert(texts(r@) =~= before.push(name@));
                }
            },
            None => {},
        }
        i = i + 1;
    }
    assert(all.take(ls.len() as int) == all);
    r
}

/// The lines that name a sink, in order.
fn sinks_among(ls: &Vec<String>) -> (r: Vec<String>)
    ensures
        texts(r@) == sinks_in(texts(ls@)),
{
    let ghost all = texts(ls@);
    let bluez = chars_of("bluez");
    let hash = chars_of("#");
    let mut r: Vec<String> = Vec::new();
    let mut i: usize = 0;
    assert(all.take(0) == Seq::<Seq<char>>::empty());
    assert(texts(r@) =~= Seq::<Seq<char>>::empty());
    while i < ls.len()
        invariant
            i <= ls.len(),
            all == texts(ls@),
            bluez@ == "bluez"@,
            hash@ == "#"@,
            texts(r@) == sinks_in(all.take(i as int)),
        decreases ls.len() - i,
    {
        let ghost before = texts(r@);
        assert(all.take(i + 1).drop_last() == all.take(i as int));
        assert(all.take(i + 1).last() == ls@[i as int]@);
        let line = chars_of(ls[i].as_str());
        if holds(&line, &bluez) || begins_with(&line, &hash) {
            r.push(ls[i].clone());
            assert(texts(r@) =~= before.push(line@));
        }
        i = i + 1;
    }
    assert(all.take(ls.len() as int) == all);
    r
}

/// The card that a record of the card listing describes.
fn card_from(record: &Record) -> (card: BluetoothCard)
    ensures
        card@ == card_of(record@),
{
    BluetoothCard {
        name: record.header.clone(),
        description: record.field_or_empty("device.description"),
        active_profile: record.field_or_empty("Active Profile"),
        available_profiles: profiles_among(&record.section_lines("Profiles:")),
        sinks: sinks_among(&record.section_lines("Sinks:")),
    }
}

/// The bluetooth cards that a card listing holds, in the order of the
/// listing: the records whose name holds `bluez` or `bluetooth`, each with
/// its description, its active profile, the profiles it offers and its sinks.
pub fn parse_bluetooth_cards(output: &str) -> (cards: Vec<BluetoothCard>)
    ensures
        card_facts(cards@) == bluetooth_cards(output@),
{
    let format = card_format();
    let records = parse_records(output, &format);
    let ghost all = blocks(records@);
    let mut cards: Vec<BluetoothCard> = Vec::new();
    let mut i: usize = 0;
    assert(all.take(0) == Seq::<Block>::empty());
    assert(card_facts(cards@) =~= Seq::<CardFacts>::empty());
    while i < records.len()
        invariant
            i <= records.len(),
            all == blocks(records@),
            card_facts(cards@) == cards_in(all.take(i as int)),
        decreases records.len() - i,
    {
        let ghost before = card_facts(cards@);
        assert(all.take(i + 1).drop_last() == all.take(i as int));
        assert(all.take(i + 1).last() == records@[i as int]@);
        let record = &records[i];
        if str_contains(record.header.as_str(), "bluez") || str_contains(
            record.header.as_str(),
            "bluetooth",
        ) {
            let card = card_from(record);
            cards.push(card);
            assert(card_facts(cards@) =~= before.push(card@));
        }
        i = i + 1;
    }
    assert(all.take(records.len() as int) == all);
    cards
}

/// What the check found of one bluetooth card.
#[derive(Debug, Clone)]
pub struct CardFinding {
    /// Whether the default sink is this card's.
    pub active: bool,
    /// Whether the card offers an A2DP profile.
    pub a2dp: bool,
    /// What is wrong with the card's profile, where something is.
    pub issue: Option<String>,
}

/// A finding as plain values.
pub struct Finding {
    pub active: bool,
    pub a2dp: bool,
    pub issue: Option<Seq<char>>,
}

impl View for CardFinding {
    type V = Finding;

    open spec fn view(&self) -> Finding {
        Finding { active: self.active, a2dp: self.a2dp, issue: opt_text(self.issue) }
    }
}

/// The findings held by a list of findings.
pub open spec fn findings(v: Seq<CardFinding>) -> Seq<Finding> {
    Seq::new(v.len(), |i: int| v[i]@)
}

/// Whether the name of the default sink refers to the card: it holds the
/// card's name, or one of the card's sink entries.
pub open spec fn refers_to(sink: Seq<char>, card: CardFacts) -> bool {
    contains(sink, card.name) || exists|k: int|
        0 <= k < card.sinks.len() && contains(sink, #[trigger] card.sinks[k])
}

/// Whether a profile, given in lowercase, is a call or headset mode.
pub open spec fn is_call_mode(profile_lower: Seq<char>) -> bool {
    contains(profile_lower, "hsp"@) || contains(profile_lower, "hfp"@) || contains(
        profile_lower,
        "headset-head-unit"@,
    )
}

/// Whether one of the profiles, given in lowercase, is an A2DP profile.
pub open spec fn offers_a2dp(profiles_lower: Seq<Seq<char>>) -> bool {
    exists|k: int|
        0 <= k < profiles_lower.len() && contains(#[trigger] profiles_lower[k], "a2dp"@)
}

/// What is said of a card in call mode.
pub open spec fn issue_text(card: CardFacts, a2dp: bool) -> Seq<char> {
    "'"@ + card.description + "' is in call/headset mode ("@ + card.active_profile + if a2dp {
        "), A2DP available"@
    } else {
        "), A2DP not available"@
    }
}

/// What the check finds of a card, given the lowercase forms of its active
/// profile and of the profiles it offers.
pub open spec fn finding_of(
    sink: Seq<char>,
    card: CardFacts,
    profile_lower: Seq<char>,
    profiles_lower: Seq<Seq<char>>,
) -> Finding {
    let a2dp = offers_a2dp(profiles_lower);
    Finding {
        active: refers_to(sink, card),
        a2dp,
        issue: if is_call_mode(profile_lower) {
            Some(issue_text(card, a2dp))
        } else {
            None
        },
    }
}

/// Whether the name of the default sink refers to the card.
fn is_active(default_sink: &str, card: &BluetoothCard) -> (b: bool)
    ensures
        b == refers_to(default_sink@, card@),
{
    if str_contains(default_sink, card.name.as_str()) {
        return true;
    }
    let mut k: usize = 0;
    while k < card.sinks.len()
        invariant
            k <= card.sinks.len(),
            forall|j: int| 0 <= j < k ==> !contains(default_sink@, #[trigger] card@.sinks[j]),
        decreases card.sinks.len() - k,
    {
        if str_contains(default_sink, card.sinks[k].as_str()) {
            assert(contains(default_sink@, card@.sinks[k as int]));
            return true;
        }
        k = k + 1;
    }
    false
}

/// Whether one of the profiles, given in lowercase, is an A2DP profile.
fn has_a2dp(profiles_lower: &Vec<String>) -> (b: bool)
    ensures
        b == offers_a2dp(texts(profiles_lower@)),
{
    let mut k: usize = 0;
    while k < profiles_lower.len()
        invariant
            k <= profiles_lower.len(),
            forall|j: int| 0 <= j < k ==> !contains(#[trigger] texts(profiles_lower@)[j], "a2dp"@),
        decreases profiles_lower.len() - k,
    {
        if str_contains(profiles_lower[k].as_str(), "a2dp") {
            assert(contains(texts(profiles_lower@)[k as int], "a2dp"@));
            return true;
        }
        k = k + 1;
    }
    false
}

/// What the check finds of one card. `profile_lower` is the lowercase form
/// of the card's active profile, `profiles_lower` those of the profiles it
/// offers. The card is active where the default sink's name holds the card's
/// name or one of its sink entries. It has an issue where its profile is a
/// call or headset mode; the issue's text says whether A2DP is offered.
pub fn judge_card(
    default_sink: &str,
    card: &BluetoothCard,
    profile_lower: &str,
    profiles_lower: &Vec<String>,
) -> (finding: CardFinding)
    ensures
        finding@ == finding_of(default_sink@, card@, profile_lower@, texts(profiles_lower@)),
{
    let active = is_active(default_sink, card);
    let a2dp = has_a2dp(profiles_lower);
    let call_mode = str_contains(profile_lower, "hsp") || str_contains(profile_lower, "hfp")
        || str_contains(profile_lower, "headset-head-unit");
    let issue = if call_mode {
        let mut text: Vec<char> = Vec::new();
        push_str(&mut text, "'");
        push_str(&mut text, card.description.as_str());
        push_str(&mut text, "' is in call/headset mode (");
        push_str(&mut text, card.active_profile.as_str());
        if a2dp {
            push_str(&mut text, "), A2DP available");
        } else {
            push_str(&mut text, "), A2DP not available");
        }
        assert(text@ =~= issue_text(card@, a2dp));
        Some(string_of(&text))
    } else {
        None
    };
    CardFinding { active, a2dp, issue }
}

/// Whether one of the cards is active.
pub open spec fn any_active(fs: Seq<Finding>) -> bool {
    exists|i: int| 0 <= i < fs.len() && (#[trigger] fs[i]).active
}

/// Whether a card with an issue offers A2DP.
pub open spec fn a2dp_at_hand(fs: Seq<Finding>) -> bool {
    exists|i: int| 0 <= i < fs.len() && (#[trigger] fs[i]).issue is Some && fs[i].a2dp
}

/// The issues of the cards, in order.
pub open spec fn issues_of(fs: Seq<Finding>) -> Seq<Seq<char>>
    decreases fs.len(),
{
    if fs.len() == 0 {
        Seq::empty()
    } else {
        match fs.last().issue {
            Some(text) => issues_of(fs.drop_last()).push(text),
            None => issues_of(fs.drop_last()),
        }
    }
}

/// The name of this check.
pub open spec fn check_name() -> Seq<char> {
    "bluetooth_profile"@
}

/// The outcome for the findings of all bluetooth cards. Without a card
/// nothing is wrong. With an issue: an error where a card with an issue
/// offers A2DP and a card is active; else a warning, worded by whether a
/// card is active. Without an issue all is well.
pub open spec fn verdict_of(fs: Seq<Finding>) -> Outcome {
    let list = join(issues_of(fs), "; "@);
    if fs.len() == 0 {
        ok_outcome(check_name(), "No Bluetooth audio devices connected"@)
    } else if issues_of(fs).len() > 0 {
        if a2dp_at_hand(fs) && any_active(fs) {
            error_outcome(
                check_name(),
                "Bluetooth headset in call mode: "@ + list,
                "Switch Bluetooth profile to A2DP (high-quality audio) in sound settings"@,
            )
        } else if any_active(fs) {
            warning_outcome(
                check_name(),
                "Bluetooth in low-quality mode: "@ + list,
                "A2DP profile may not be available. Check if device supports it."@,
            )
        } else {
            warning_outcome(
                check_name(),
                "Bluetooth device in call mode but not active output: "@ + list,
                "If using Bluetooth, switch profile to A2DP for better quality"@,
            )
        }
    } else if any_active(fs) {
        ok_outcome(check_name(), "Bluetooth audio profile is optimal (A2DP)"@)
    } else {
        ok_outcome(check_name(), "Bluetooth device connected with correct profile"@)
    }
}

/// The outcome for the findings of all bluetooth cards.
pub fn bluetooth_verdict(found: &Vec<CardFinding>) -> (r: CheckResult)
    ensures
        r@ == verdict_of(findings(found@)),
{
    let ghost fs = findings(found@);
    if found.len() == 0 {
        return CheckResult::ok("bluetooth_profile", "No Bluetooth audio devices connected");
    }
    let mut issues: Vec<Vec<char>> = Vec::new();
    let mut active = false;
    let mut a2dp = false;
    let mut i: usize = 0;
    assert(fs.take(0) == Seq::<Finding>::empty());
    assert(rows(issues@) =~= Seq::<Seq<char>>::empty());
    while i < found.len()
        invariant
            i <= found.len(),
            fs == findings(found@),
            rows(issues@) == issues_of(fs.take(i as int)),
            active == any_active(fs.take(i as int)),
            a2dp == a2dp_at_hand(fs.take(i as int)),
        decreases found.len() - i,
    {
        let ghost before = rows(issues@);
        let ghost done = fs.take(i as int);
        let ghost next = fs.take(i + 1);
        assert(next.drop_last() == done);
        assert(next.last() == found@[i as int]@);
        let finding = &found[i];
        proof {
            assert(any_active(next) == (any_active(done) || finding.active)) by {
                if any_active(done) {
                    let k = choose|k: int| 0 <= k < done.len() && (#[trigger] done[k]).active;
                    assert(next[k].active);
                }
                if finding.active {
                    assert(next[i as int].active);
                }
                if any_active(next) {
                    let k = choose|k: int| 0 <= k < next.len() && (#[trigger] next[k]).active;
                    if k < i {
                        assert(done[k].active);
                    }
                }
            }
            assert(a2dp_at_hand(next) == (a2dp_at_hand(done) || (finding.issue is Some
                && finding.a2dp))) by {
                if a2dp_at_hand(done) {
                    let k = choose|k: int|
                        0 <= k < done.len() && (#[trigger] done[k]).issue is Some && done[k].a2dp;
                    assert(next[k].issue is Some && next[k].a2dp);
                }
                if finding.issue is Some && finding.a2dp {
                    assert(next[i as int].issue is Some && next[i as int].a2dp);
                }
                if a2dp_at_hand(next) {
                    let k = choose|k: int|
                        0 <= k < next.len() && (#[trigger] next[k]).issue is Some && next[k].a2dp;
                    if k < i {
                        assert(done[k].issue is Some && done[k].a2dp);
                    }
                }
            }
        }
        if finding.active {
            active = true;
        }
        match &finding.issue {
            Some(text) => {
                if finding.a2dp {
                    a2dp = true;
                }
                let chars = chars_of(text.as_str());
                issues.push(chars);
                assert(rows(issues@) =~= before.push(text@));
            },
            None => {},
        }
        i = i + 1;
    }
    assert(fs.take(found.len() as int) == fs);
    if issues.len() > 0 {
        let list = joined(&issues, "; ");
        let mut message: Vec<char> = Vec::new();
        if a2dp && active {
            push_str(&mut message, "Bluetooth headset in call mode: ");
            push_all(&mut message, &list);
            assert(message@ =~= "Bluetooth headset in call mode: "@ + list@);
            CheckResult::error(
                "bluetooth_profile",
                string_of(&message).as_str(),
                "Switch Bluetooth profile to A2DP (high-quality audio) in sound settings",
            )
        } else if active {
            push_str(&mut message, "Bluetooth in low-quality mode: ");
            push_all(&mut message, &list);
            assert(message@ =~= "Bluetooth in low-quality mode: "@ + list@);
            CheckResult::warning(
                "bluetooth_profile",
                string_of(&message).as_str(),
                "A2DP profile may not be available. Check if device supports it.",
            )
        } else {
            push_str(&mut message, "Bluetooth device in call mode but not active output: ");
            push_all(&mut message, &list);
            assert(message@ =~= "Bluetooth device in call mode but not active output: "@
                + list@);
            CheckResult::warning(
                "bluetooth_profile",
                string_of(&message).as_str(),
                "If using Bluetooth, switch profile to A2DP for better quality",
            )
        }
    } else if active {
        CheckResult::ok("bluetooth_profile", "Bluetooth audio profile is optimal (A2DP)")
    } else {
        CheckResult::ok("bluetooth_profile", "Bluetooth device connected with correct profile")
    }
}

/// What the check finds of each card.
pub open spec fn findings_for(sink: Seq<char>, cards: Seq<CardFacts>) -> Seq<Finding> {
    Seq::new(
        cards.len(),
        |i: int|
            finding_of(
                sink,
                cards[i],
                lowercase_of(cards[i].active_profile),
                lowered(cards[i].available_profiles),
            ),
    )
}

/// The words that make a line of the card listing worth keeping as evidence.
pub open spec fn evidence_words() -> Seq<Seq<char>> {
    seq![
        "Name:"@,
        "bluez"@,
        "bluetooth"@,
        "Active Profile:"@,
        "a2dp"@,
        "hsp"@,
        "hfp"@,
        "headset"@,
    ]
}

/// The evidence kept of a card listing: its lines that bear on bluetooth.
pub open spec fn evidence_of(listing: Seq<char>) -> Seq<char> {
    "pactl list cards (bluetooth info):\n"@ + join(
        lines_with(lines(listing), evidence_words()),
        "\n"@,
    ) + "\n"@
}

/// The outcome of the bluetooth profile check, given the output of the
/// default sink query and of the card listing. A card listing that failed
/// gives nothing to report. Else the cards are judged one by one against the
/// trimmed name of the default sink.
pub open spec fn bluetooth_outcome(default_sink: Capture, cards: Capture) -> Outcome {
    debugged(
        if !cards.success {
            ok_outcome(check_name(), "No Bluetooth audio issues (cannot list cards)"@)
        } else {
            verdict_of(findings_for(trim(default_sink.stdout), bluetooth_cards(cards.stdout)))
        },
        evidence_of(cards.stdout),
    )
}

/// The evidence kept of a card listing.
fn evidence(listing: &str) -> (r: String)
    ensures
        r@ == evidence_of(listing@),
{
    let mut words: Vec<Vec<char>> = Vec::new();
    words.push(chars_of("Name:"));
    words.push(chars_of("bluez"));
    words.push(chars_of("bluetooth"));
    words.push(chars_of("Active Profile:"));
    words.push(chars_of("a2dp"));
    words.push(chars_of("hsp"));
    words.push(chars_of("hfp"));
    words.push(chars_of("headset"));
    assert(rows(words@) =~= evidence_words());
    let kept = keep_lines_with(&split_lines(&chars_of(listing)), &words);
    let mut text: Vec<char> = Vec::new();
    push_str(&mut text, "pactl list cards (bluetooth info):\n");
    push_all(&mut text, &joined(&kept, "\n"));
    push_str(&mut text, "\n");
    assert(text@ =~= evidence_of(listing@));
    string_of(&text)
}

/// Checks whether a bluetooth device is held in a call or headset profile.
/// `default_sink` is the output of the query for the default sink, `cards`
/// that of the card listing.
pub fn check_bluetooth_profile(default_sink: &CommandOutput, cards: &CommandOutput) -> (r:
    CheckResult)
    ensures
        r@ == bluetooth_outcome(default_sink@, cards@),
{
    let debug = evidence(cards.stdout.as_str());
    if !cards.success {
        return CheckResult::ok(
            "bluetooth_profile",
            "No Bluetooth audio issues (cannot list cards)",
        ).with_debug(debug.as_str());
    }
    let sink = string_of(&trimmed(&chars_of(default_sink.stdout.as_str())));
    let found_cards = parse_bluetooth_cards(cards.stdout.as_str());
    let ghost facts = card_facts(found_cards@);
    let mut found: Vec<CardFinding> = Vec::new();
    let mut i: usize = 0;
    while i < found_cards.len()
        invariant
            i <= found_cards.len(),
            found.len() == i,
            facts == card_facts(found_cards@),
            forall|k: int|
                0 <= k < i ==> (#[trigger] found@[k])@ == finding_of(
                    sink@,
                    facts[k],
                    lowercase_of(facts[k].active_profile),
                    lowered(facts[k].available_profiles),
                ),
        decreases found_cards.len() - i,
    {
        let card = &found_cards[i];
        let profile_lower = lowercase(card.active_profile.as_str());
        let profiles_lower = lowercase_all(&card.available_profiles);
        found.push(judge_card(sink.as_str(), card, profile_lower.as_str(), &profiles_lower));
        i = i + 1;
    }
    assert(findings(found@) =~= findings_for(sink@, facts));
    bluetooth_verdict(&found).with_debug(debug.as_str())
}

} // verus!
