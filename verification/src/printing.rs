//! Printing a record back as text, and what parsing that text gives.

use crate::parser::{
    absorb, add_field, field_of, has_label, is_boundary, is_header, labelled_at, open_after,
    records_of, started, Block, BlockFormat, Entry, Layout, Record,
};
use crate::text::{
    contains, find, is_space, lemma_contains, lines, matches_at, push_str, string_of, strip_quotes,
    trim,
};
use crate::text_lemmas::{
    lemma_contains_in_trim, lemma_find_first, lemma_find_is, lemma_lines_hold_no_line_feed,
    lemma_lines_of_text, lemma_match_in_prefix, lemma_matches_chars, lemma_strip_range,
    lemma_text_of_push, lemma_trim_after_space, lemma_trim_before_space, lemma_trim_ends,
    lemma_trim_idempotent, lemma_trim_keeps_last, lemma_trim_range, one_line, text_of,
};
use vstd::prelude::*;

verus! {

/// The line that shows a field: its label, a colon, a space and its value.
pub open spec fn printed_line(e: Entry) -> Seq<char> {
    e.label + ": "@ + e.value
}

/// The line that starts a record: the boundary, a space and the header.
pub open spec fn first_line(header: Seq<char>, layout: Layout) -> Seq<char> {
    layout.boundary + " "@ + header
}

/// The lines that show the fields, in order.
pub open spec fn field_lines(fields: Seq<Entry>) -> Seq<Seq<char>> {
    Seq::new(fields.len(), |i: int| printed_line(fields[i]))
}

/// The lines that show a record: its first line, then its fields.
pub open spec fn printed_lines(r: Block, layout: Layout) -> Seq<Seq<char>> {
    seq![first_line(r.header, layout)] + field_lines(r.fields)
}

/// The text that shows a record: its first line, then its fields, one on
/// each line. Its subsections are not shown.
pub open spec fn printed(r: Block, layout: Layout) -> Seq<char> {
    text_of(printed_lines(r, layout))
}

/// Whether a text holds no line feed.
pub open spec fn no_line_feed(s: Seq<char>) -> bool {
    forall|i: int| 0 <= i < s.len() ==> s[i] != '\n'
}

/// Whether a field is as the parser gives it: the label is trimmed and
/// holds neither a colon nor ` = `, and neither label nor value holds a line
/// feed.
pub open spec fn clean(e: Entry) -> bool {
    &&& trim(e.label) == e.label
    &&& !contains(e.label, ":"@)
    &&& !contains(e.label, " = "@)
    &&& no_line_feed(e.label)
    &&& no_line_feed(e.value)
}

/// Whether a field is clean and its value is trimmed. The value of a field
/// `label: value` always is; that of a field `key = "value"` is not where
/// white space stands inside the quotes.
pub open spec fn plain(e: Entry) -> bool {
    clean(e) && trim(e.value) == e.value
}

/// Whether no two of the fields have the same label.
pub open spec fn distinct_labels(fields: Seq<Entry>) -> bool {
    forall|i: int, j: int|
        0 <= i < j < fields.len() ==> (#[trigger] fields[i]).label != (#[trigger] fields[j]).label
}

/// Whether a header is as the parser gives it in this layout: it is trimmed,
/// neither it nor the boundary holds a line feed, the boundary does not
/// begin with white space, and it does not end with white space either
/// where the header is empty.
pub open spec fn header_fits(header: Seq<char>, layout: Layout) -> bool {
    &&& trim(header) == header
    &&& no_line_feed(header)
    &&& no_line_feed(layout.boundary)
    &&& layout.boundary.len() > 0 ==> !is_space(layout.boundary[0])
    &&& layout.boundary.len() > 0 && header.len() == 0 ==> !is_space(layout.boundary.last())
}

/// Whether a record is as the parser gives it: its header fits the layout,
/// its fields are clean, and no two of them have the same label.
pub open spec fn sound(r: Block, layout: Layout) -> bool {
    &&& header_fits(r.header, layout)
    &&& forall|i: int| 0 <= i < r.fields.len() ==> clean(#[trigger] r.fields[i])
    &&& distinct_labels(r.fields)
}

/// Whether the line that shows a field is read as a field: it neither
/// starts a record nor is the header of a subsection.
pub open spec fn reads_as_field(e: Entry, layout: Layout) -> bool {
    !is_boundary(trim(printed_line(e)), layout) && !is_header(trim(printed_line(e)), layout)
}

/// Whether a record can be printed and parsed back: it is sound, the values
/// of its fields are trimmed, and each of its printed fields is read as a
/// field.
pub open spec fn printable(r: Block, layout: Layout) -> bool {
    &&& sound(r, layout)
    &&& forall|i: int|
        0 <= i < r.fields.len() ==> trim((#[trigger] r.fields[i]).value) == r.fields[i].value
    &&& forall|i: int| 0 <= i < r.fields.len() ==> reads_as_field(#[trigger] r.fields[i], layout)
}

/// The line of a plain field, trimmed: the value is left out with its space
/// where it is empty.
pub open spec fn trimmed_line(e: Entry) -> Seq<char> {
    if e.value.len() == 0 {
        e.label + seq![':']
    } else {
        e.label + seq![':', ' '] + e.value
    }
}

/// A label that is plain holds no colon.
proof fn lemma_no_colon(label: Seq<char>)
    requires
        !contains(label, ":"@),
    ensures
        forall|j: int| 0 <= j < label.len() ==> label[j] != ':',
{
    reveal_strlit(":");
    assert forall|j: int| 0 <= j < label.len() implies label[j] != ':' by {
        if label[j] == ':' {
            lemma_matches_chars(label, ":"@, j);
            assert forall|k: int| 0 <= k < ":"@.len() implies label[j + k] == #[trigger] ":"@[k] by {
                assert(k == 0);
            }
            lemma_contains(label, ":"@);
        }
    }
}

/// The line of a plain field is trimmed by leaving out the space after the
/// colon where the value is empty.
proof fn lemma_trimmed_line(e: Entry)
    requires
        plain(e),
    ensures
        trim(printed_line(e)) == trimmed_line(e),
        one_line(printed_line(e)),
{
    reveal_strlit(": ");
    let t = printed_line(e);
    lemma_trim_ends(e.label);
    lemma_trim_ends(e.value);
    assert(": "@ =~= seq![':', ' ']);
    if e.value.len() == 0 {
        let head = e.label + seq![':'];
        assert(t =~= head + seq![' ']);
        lemma_trim_before_space(head, ' ');
        assert(trim(head) == head);
    } else {
        assert(t =~= trimmed_line(e));
        assert(!is_space(t[0]));
        assert(t.last() == e.value.last());
        assert(trim(t) == t);
    }
}

/// A line that holds a label without colon and without ` = `, and then a
/// colon, is read as a field with the colon there.
pub proof fn lemma_label_then_colon(t: Seq<char>, label: Seq<char>)
    requires
        label.len() < t.len(),
        t.take(label.len() as int) == label,
        t[label.len() as int] == ':',
        !contains(label, ":"@),
        !contains(label, " = "@),
    ensures
        field_of(t) == Some(labelled_at(t, label.len() as int)),
{
    reveal_strlit(":");
    reveal_strlit(" = ");
    lemma_no_colon(label);
    let c = label.len() as int;
    assert(":"@[0] == ':');
    lemma_matches_chars(t, ":"@, c);
    assert(matches_at(t, ":"@, c)) by {
        assert forall|k: int| 0 <= k < ":"@.len() implies t[c + k] == #[trigger] ":"@[k] by {
            assert(k == 0);
        }
    }
    assert forall|j: int| 0 <= j < c implies !matches_at(t, ":"@, j) by {
        lemma_matches_chars(t, ":"@, j);
        assert(t[j] == t.take(c)[j]);
        if matches_at(t, ":"@, j) {
            assert(t[j + 0] == ":"@[0]);
        }
    }
    lemma_find_is(t, ":"@, c);
    assert forall|j: int| 0 <= j < c implies !matches_at(t, " = "@, j) by {
        lemma_matches_chars(t, " = "@, j);
        if matches_at(t, " = "@, j) {
            assert(t[j + 0] == " = "@[0] && t[j + 1] == " = "@[1] && t[j + 2] == " = "@[2]);
            assert(t[j + 0] == ' ' && t[j + 1] == '=' && t[j + 2] == ' ');
            if j + 3 <= c {
                assert forall|k: int| 0 <= k < " = "@.len() implies label[j + k]
                    == #[trigger] " = "@[k] by {
                    assert(label[j + k] == t.take(c)[j + k]);
                    assert(t[j + k] == " = "@[k]);
                }
                lemma_matches_chars(label, " = "@, j);
                lemma_contains(label, " = "@);
            } else {
                assert(c == j + 1 || c == j + 2);
            }
        }
    }
    lemma_find_first(t, " = "@);
}

/// The line of a plain field holds that field.
pub proof fn lemma_line_holds_field(e: Entry)
    requires
        plain(e),
    ensures
        field_of(trim(printed_line(e))) == Some(e),
        one_line(printed_line(e)),
{
    lemma_trimmed_line(e);
    let t = trimmed_line(e);
    let c = e.label.len() as int;
    assert(t.take(c) =~= e.label);
    lemma_label_then_colon(t, e.label);
    if e.value.len() == 0 {
        assert(t.skip(c + 1) =~= Seq::<char>::empty());
        assert(e.value =~= Seq::<char>::empty());
    } else {
        assert(t.skip(c + 1) =~= seq![' '] + e.value);
        lemma_trim_after_space(' ', e.value);
    }
    assert(trim(t.take(c)) == e.label);
    assert(trim(t.skip(c + 1)) == e.value);
    assert(labelled_at(t, c) == e);
}

/// The first line of a record whose header fits starts a record with that
/// header.
proof fn lemma_first_line(header: Seq<char>, layout: Layout)
    requires
        header_fits(header, layout),
    ensures
        is_boundary(trim(first_line(header, layout)), layout),
        started(trim(first_line(header, layout)), layout) == (Block {
            header,
            fields: Seq::empty(),
            sections: Seq::empty(),
        }),
        one_line(first_line(header, layout)),
{
    reveal_strlit(" ");
    let b = layout.boundary;
    let n = b.len() as int;
    let first = first_line(header, layout);
    assert(" "@ =~= seq![' ']);
    lemma_trim_ends(header);
    if n == 0 {
        assert(first =~= seq![' '] + header);
        lemma_trim_after_space(' ', header);
        assert(header.skip(0) =~= header);
        assert(header.subrange(0, 0) =~= b);
    } else if header.len() == 0 {
        assert(first =~= b + seq![' ']);
        lemma_trim_before_space(b, ' ');
        assert(trim(b) == b);
        assert(b.subrange(0, n) =~= b);
        assert(b.skip(n) =~= header);
    } else {
        assert(first[0] == b[0]);
        assert(first.last() == header.last());
        assert(trim(first) == first);
        assert(first.subrange(0, n) =~= b);
        assert(first.skip(n) =~= seq![' '] + header);
        lemma_trim_after_space(' ', header);
    }
}

/// The first line and the first `n` printed fields of a printable record
/// hold one record with those fields.
proof fn lemma_reparse_prefix(r: Block, layout: Layout, n: int)
    requires
        printable(r, layout),
        0 <= n <= r.fields.len(),
    ensures
        records_of(printed_lines(r, layout).take(n + 1), layout) == seq![
            Block { header: r.header, fields: r.fields.take(n), sections: Seq::empty() },
        ],
        !open_after(printed_lines(r, layout).take(n + 1), layout),
    decreases n,
{
    let ls = printed_lines(r, layout).take(n + 1);
    let t = trim(ls.last());
    let goal = Block { header: r.header, fields: r.fields.take(n), sections: Seq::empty() };
    assert(ls.drop_last() == printed_lines(r, layout).take(n));
    if n == 0 {
        assert(ls.last() == first_line(r.header, layout));
        lemma_first_line(r.header, layout);
        assert(ls.drop_last() == Seq::<Seq<char>>::empty());
        assert(records_of(ls.drop_last(), layout) == Seq::<Block>::empty());
        assert(r.fields.take(0) =~= Seq::<Entry>::empty());
        assert(records_of(ls, layout) =~= seq![goal]);
    } else {
        let e = r.fields[n - 1];
        assert(ls.last() == printed_line(e));
        assert(plain(e));
        assert(reads_as_field(e, layout));
        lemma_line_holds_field(e);
        lemma_reparse_prefix(r, layout, n - 1);
        let before = records_of(ls.drop_last(), layout);
        let known = r.fields.take(n - 1);
        assert(!has_label(known, e.label)) by {
            if has_label(known, e.label) {
                let i = choose|i: int| 0 <= i < known.len() && #[trigger] known[i].label == e.label;
                assert(r.fields[i].label == r.fields[n - 1].label);
            }
        }
        assert(add_field(known, t) == known.push(e));
        assert(known.push(e) =~= r.fields.take(n));
        assert(absorb(before.last(), false, t, layout) == goal);
        assert(before.drop_last().push(goal) =~= seq![goal]);
    }
}

/// Parsing the text that shows a record gives that record again, without
/// its subsections: where a record is printable in a layout, its text holds
/// one record, which has the same header and the same fields in the same
/// order.
pub proof fn law_printed_record_parses_back(r: Block, layout: Layout)
    requires
        printable(r, layout),
    ensures
        records_of(lines(printed(r, layout)), layout) == seq![
            Block { sections: Seq::empty(), ..r },
        ],
{
    let ls = printed_lines(r, layout);
    assert forall|i: int| 0 <= i < ls.len() implies one_line(#[trigger] ls[i]) by {
        if i == 0 {
            lemma_first_line(r.header, layout);
        } else {
            assert(ls[i] == printed_line(r.fields[i - 1]));
            assert(plain(r.fields[i - 1]));
            lemma_line_holds_field(r.fields[i - 1]);
        }
    }
    lemma_lines_of_text(ls);
    lemma_reparse_prefix(r, layout, r.fields.len() as int);
    assert(ls.take(r.fields.len() as int + 1) == ls);
    assert(r.fields.take(r.fields.len() as int) == r.fields);
}

/// A trimmed stretch of a text without line feed holds none.
proof fn lemma_trim_no_line_feed(s: Seq<char>)
    requires
        no_line_feed(s),
    ensures
        no_line_feed(trim(s)),
{
    let (a, b) = lemma_trim_range(s);
    assert forall|i: int| 0 <= i < trim(s).len() implies trim(s)[i] != '\n' by {
        assert(trim(s)[i] == s[a + i]);
    }
}

/// The field that is read from a line without line feed is clean.
pub proof fn lemma_field_is_clean(t: Seq<char>)
    requires
        no_line_feed(t),
        field_of(t) is Some,
    ensures
        clean(field_of(t).unwrap()),
{
    reveal_strlit(":");
    reveal_strlit(" = ");
    lemma_find_first(t, ":"@);
    lemma_find_first(t, " = "@);
    let c = find(t, ":"@);
    let q = find(t, " = "@);
    let e = field_of(t).unwrap();
    let property = q is Some && (c is None || q.unwrap() < c.unwrap());
    let m = if property {
        q.unwrap()
    } else {
        c.unwrap()
    };
    assert(0 <= m <= t.len());
    let head = t.take(m);
    assert(e.label == trim(head));
    lemma_trim_idempotent(head);
    assert(no_line_feed(head)) by {
        assert forall|i: int| 0 <= i < head.len() implies head[i] != '\n' by {
            assert(head[i] == t[i]);
        }
    }
    lemma_trim_no_line_feed(head);
    if contains(e.label, ":"@) {
        lemma_contains_in_trim(head, ":"@);
        let j = lemma_match_in_prefix(t, m, ":"@);
        assert(false);
    }
    if contains(e.label, " = "@) {
        lemma_contains_in_trim(head, " = "@);
        let j = lemma_match_in_prefix(t, m, " = "@);
        assert(false);
    }
    if property {
        let tail = t.skip(m + 3);
        assert(e.value == strip_quotes(tail));
        let (a, b) = lemma_strip_range(tail);
        assert(no_line_feed(strip_quotes(tail))) by {
            assert forall|i: int| 0 <= i < strip_quotes(tail).len() implies strip_quotes(tail)[i]
                != '\n' by {
                assert(strip_quotes(tail)[i] == tail[a + i]);
                assert(tail[a + i] == t[m + 3 + a + i]);
            }
        }
    } else {
        let tail = t.skip(m + 1);
        assert(e.value == trim(tail));
        assert(no_line_feed(tail)) by {
            assert forall|i: int| 0 <= i < tail.len() implies tail[i] != '\n' by {
                assert(tail[i] == t[m + 1 + i]);
            }
        }
        lemma_trim_no_line_feed(tail);
    }
}

/// Reading one more line as a field keeps clean fields with distinct labels
/// so, and keeps the first field.
proof fn lemma_add_field_sound(fields: Seq<Entry>, t: Seq<char>)
    requires
        no_line_feed(t),
        forall|i: int| 0 <= i < fields.len() ==> clean(#[trigger] fields[i]),
        distinct_labels(fields),
    ensures
        forall|i: int|
            0 <= i < add_field(fields, t).len() ==> clean(#[trigger] add_field(fields, t)[i]),
        distinct_labels(add_field(fields, t)),
        fields.len() <= add_field(fields, t).len(),
        forall|i: int| 0 <= i < fields.len() ==> add_field(fields, t)[i] == fields[i],
{
    if field_of(t) is Some {
        let e = field_of(t).unwrap();
        lemma_field_is_clean(t);
        if !has_label(fields, e.label) {
            let after = fields.push(e);
            assert forall|i: int, j: int| 0 <= i < j < after.len() implies (#[trigger] after[i]).label
                != (#[trigger] after[j]).label by {
                if j == fields.len() {
                    assert(fields[i].label != e.label);
                } else {
                    assert(fields[i].label != fields[j].label);
                }
            }
        }
    }
}

/// The record that a boundary line starts is sound.
proof fn lemma_started_sound(line: Seq<char>, layout: Layout)
    requires
        no_line_feed(line),
        is_boundary(trim(line), layout),
    ensures
        sound(started(trim(line), layout), layout),
{
    let t = trim(line);
    let b = layout.boundary;
    let n = b.len() as int;
    let rest = t.skip(n);
    let header = trim(rest);
    lemma_trim_no_line_feed(line);
    lemma_trim_ends(line);
    lemma_trim_idempotent(rest);
    assert(t.subrange(0, n) == b);
    assert(no_line_feed(rest)) by {
        assert forall|i: int| 0 <= i < rest.len() implies rest[i] != '\n' by {
            assert(rest[i] == t[n + i]);
        }
    }
    lemma_trim_no_line_feed(rest);
    assert(no_line_feed(b)) by {
        assert forall|i: int| 0 <= i < b.len() implies b[i] != '\n' by {
            assert(b[i] == t.subrange(0, n)[i]);
        }
    }
    if n > 0 {
        assert(b[0] == t.subrange(0, n)[0]);
        if header.len() == 0 {
            if rest.len() > 0 {
                assert(rest.last() == t.last());
                lemma_trim_keeps_last(rest);
            }
            assert(b.last() == t.subrange(0, n)[n - 1]);
        }
    }
}

/// Every record that the parser gives is sound.
pub proof fn lemma_records_sound(ls: Seq<Seq<char>>, layout: Layout)
    requires
        forall|i: int| 0 <= i < ls.len() ==> no_line_feed(#[trigger] ls[i]),
    ensures
        forall|k: int|
            0 <= k < records_of(ls, layout).len() ==> sound(
                #[trigger] records_of(ls, layout)[k],
                layout,
            ),
    decreases ls.len(),
{
    if ls.len() > 0 {
        lemma_records_sound(ls.drop_last(), layout);
        let before = records_of(ls.drop_last(), layout);
        let after = records_of(ls, layout);
        assert(no_line_feed(ls[ls.len() - 1]));
        let t = trim(ls.last());
        lemma_trim_no_line_feed(ls.last());
        if is_boundary(t, layout) {
            lemma_started_sound(ls.last(), layout);
            assert forall|k: int| 0 <= k < after.len() implies sound(#[trigger] after[k], layout) by {
                if k < before.len() {
                    assert(after[k] == before[k]);
                }
            }
        } else if before.len() == 0 {
        } else {
            let r = before.last();
            let open = open_after(ls.drop_last(), layout);
            let next = absorb(r, open, t, layout);
            assert(sound(r, layout));
            lemma_add_field_sound(r.fields, t);
            assert(sound(next, layout));
            assert forall|k: int| 0 <= k < after.len() implies sound(#[trigger] after[k], layout) by {
                if k < before.len() - 1 {
                    assert(after[k] == before[k]);
                }
            }
        }
    }
}

/// Parsing the text that shows a parsed record gives the record again,
/// without its subsections. This holds of every record of every text, as
/// long as the values of its fields are trimmed and each of its printed
/// fields is read as a field.
pub proof fn law_parsed_record_parses_back(text: Seq<char>, layout: Layout, k: int)
    requires
        0 <= k < records_of(lines(text), layout).len(),
        forall|i: int|
            0 <= i < records_of(lines(text), layout)[k].fields.len() ==> trim(
                (#[trigger] records_of(lines(text), layout)[k].fields[i]).value,
            ) == records_of(lines(text), layout)[k].fields[i].value,
        forall|i: int|
            0 <= i < records_of(lines(text), layout)[k].fields.len() ==> reads_as_field(
                #[trigger] records_of(lines(text), layout)[k].fields[i],
                layout,
            ),
    ensures
        records_of(lines(printed(records_of(lines(text), layout)[k], layout)), layout) == seq![
            Block { sections: Seq::empty(), ..records_of(lines(text), layout)[k] },
        ],
{
    let ls = lines(text);
    let r = records_of(ls, layout)[k];
    lemma_lines_hold_no_line_feed(text);
    assert forall|i: int| 0 <= i < ls.len() implies no_line_feed(#[trigger] ls[i]) by {
        assert forall|j: int| 0 <= j < ls[i].len() implies ls[i][j] != '\n' by {
            assert(lines(text)[i][j] != '\n');
        }
    }
    lemma_records_sound(ls, layout);
    assert(sound(r, layout));
    law_printed_record_parses_back(r, layout);
}

/// The text that shows a record in a format: the boundary with the record's
/// header on the first line, then the fields, one on each line, as
/// `label: value`.
pub fn print_record(record: &Record, format: &BlockFormat) -> (text: String)
    ensures
        text@ == printed(record@, format@),
{
    let ghost all = printed_lines(record@, format@);
    let mut out: Vec<char> = Vec::new();
    push_str(&mut out, format.boundary.as_str());
    push_str(&mut out, " ");
    push_str(&mut out, record.header.as_str());
    out.push('\n');
    proof {
        let first = first_line(record@.header, format@);
        assert(all.take(1) =~= Seq::<Seq<char>>::empty().push(first));
        lemma_text_of_push(Seq::<Seq<char>>::empty(), first);
        assert(out@ =~= text_of(Seq::<Seq<char>>::empty()) + first + seq!['\n']);
    }
    let mut i: usize = 0;
    while i < record.fields.len()
        invariant
            i <= record.fields.len(),
            all == printed_lines(record@, format@),
            out@ == text_of(all.take(i + 1)),
        decreases record.fields.len() - i,
    {
        let ghost before = out@;
        let field = &record.fields[i];
        push_str(&mut out, field.label.as_str());
        push_str(&mut out, ": ");
        push_str(&mut out, field.value.as_str());
        out.push('\n');
        proof {
            let line = printed_line(record@.fields[i as int]);
            assert(all[i + 1] == line);
            assert(all.take(i + 2) =~= all.take(i + 1).push(line));
            lemma_text_of_push(all.take(i + 1), line);
            assert(out@ =~= before + line + seq!['\n']);
        }
        i = i + 1;
    }
    assert(all.take(record.fields.len() + 1) =~= all);
    string_of(&out)
}

} // verus!
