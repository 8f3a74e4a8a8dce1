//! The block record parser. The inspected tools print one block of lines per
//! card, sink or stream. A block starts at a boundary line. Its lines are
//! fields, `label: value` or `key = "value"`, and named subsections, each a
//! header line and the lines that belong to it.

use crate::text::{
    begins_with, chars_of, contains, find, lines, position, same, slice, split_lines,
    starts_with, string_of, strip_quotes, texts, trim, trimmed, unquoted, rows,
};
use vstd::prelude::*;

verus! {

/// One field of a record.
#[derive(Debug, Clone)]
pub struct Field {
    pub label: String,
    pub value: String,
}

/// A field as plain values.
pub struct Entry {
    pub label: Seq<char>,
    pub value: Seq<char>,
}

impl View for Field {
    type V = Entry;

    open spec fn view(&self) -> Entry {
        Entry { label: self.label@, value: self.value@ }
    }
}

/// A named subsection of a record: the trimmed lines below its header.
#[derive(Debug, Clone)]
pub struct Section {
    pub title: String,
    pub lines: Vec<String>,
}

/// A subsection as plain values.
pub struct Group {
    pub title: Seq<char>,
    pub lines: Seq<Seq<char>>,
}

impl View for Section {
    type V = Group;

    open spec fn view(&self) -> Group {
        Group { title: self.title@, lines: texts(self.lines@) }
    }
}

/// One record: what follows the boundary on its first line, the fields of
/// the lines below it in the order of their first occurrence, and its
/// subsections in order.
#[derive(Debug, Clone)]
pub struct Record {
    pub header: String,
    pub fields: Vec<Field>,
    pub sections: Vec<Section>,
}

/// A record as plain values.
pub struct Block {
    pub header: Seq<char>,
    pub fields: Seq<Entry>,
    pub sections: Seq<Group>,
}

/// The fields held by a list of fields.
pub open spec fn entries(v: Seq<Field>) -> Seq<Entry> {
    Seq::new(v.len(), |i: int| v[i]@)
}

/// The subsections held by a list of subsections.
pub open spec fn groups(v: Seq<Section>) -> Seq<Group> {
    Seq::new(v.len(), |i: int| v[i]@)
}

impl View for Record {
    type V = Block;

    open spec fn view(&self) -> Block {
        Block {
            header: self.header@,
            fields: entries(self.fields@),
            sections: groups(self.sections@),
        }
    }
}

/// The records held by a list of records.
pub open spec fn blocks(v: Seq<Record>) -> Seq<Block> {
    Seq::new(v.len(), |i: int| v[i]@)
}

/// How the blocks of a tool's output are told apart. A trimmed line that
/// begins with `boundary` starts a record. One that begins with an entry of
/// `sections` is the header of a subsection. A field line whose label is an
/// entry of `closers` ends the open subsection and is read as a field.
#[derive(Debug, Clone)]
pub struct BlockFormat {
    pub boundary: String,
    pub sections: Vec<String>,
    pub closers: Vec<String>,
}

/// A format as plain values.
pub struct Layout {
    pub boundary: Seq<char>,
    pub sections: Seq<Seq<char>>,
    pub closers: Seq<Seq<char>>,
}

impl View for BlockFormat {
    type V = Layout;

    open spec fn view(&self) -> Layout {
        Layout {
            boundary: self.boundary@,
            sections: texts(self.sections@),
            closers: texts(self.closers@),
        }
    }
}

/// The field that a trimmed line holds. Where a colon comes first, the label
/// is what stands before it and the value what follows, both trimmed. Where
/// ` = ` comes first, the key is what stands before it, trimmed, and the
/// value what follows without the double quotes at its ends; what stands
/// inside the quotes is kept as it is.
pub open spec fn field_of(t: Seq<char>) -> Option<Entry> {
    match (find(t, ":"@), find(t, " = "@)) {
        (Some(c), Some(q)) => if q < c {
            Some(property_at(t, q))
        } else {
            Some(labelled_at(t, c))
        },
        (None, Some(q)) => Some(property_at(t, q)),
        (Some(c), None) => Some(labelled_at(t, c)),
        (None, None) => None,
    }
}

/// The field of a line `label: value` with its colon at `c`.
pub open spec fn labelled_at(t: Seq<char>, c: int) -> Entry {
    Entry { label: trim(t.take(c)), value: trim(t.skip(c + 1)) }
}

/// The field of a line `key = "value"` with ` = ` at `q`.
pub open spec fn property_at(t: Seq<char>, q: int) -> Entry {
    Entry { label: trim(t.take(q)), value: strip_quotes(t.skip(q + 3)) }
}

/// Whether a field with this label is among `fields`.
pub open spec fn has_label(fields: Seq<Entry>, label: Seq<char>) -> bool {
    exists|i: int| 0 <= i < fields.len() && #[trigger] fields[i].label == label
}

/// The value of the first field with this label.
pub open spec fn lookup(fields: Seq<Entry>, label: Seq<char>) -> Option<Seq<char>>
    decreases fields.len(),
{
    if fields.len() == 0 {
        None
    } else {
        match lookup(fields.drop_last(), label) {
            Some(v) => Some(v),
            None => if fields.last().label == label {
                Some(fields.last().value)
            } else {
                None
            },
        }
    }
}

/// The fields after the trimmed line `t` was read as a field: a label that
/// is there already keeps its first value.
pub open spec fn add_field(fields: Seq<Entry>, t: Seq<char>) -> Seq<Entry> {
    match field_of(t) {
        Some(e) => if has_label(fields, e.label) {
            fields
        } else {
            fields.push(e)
        },
        None => fields,
    }
}

/// The first of the headers that the trimmed line `t` begins with.
pub open spec fn header_index(t: Seq<char>, headers: Seq<Seq<char>>) -> Option<int>
    decreases headers.len(),
{
    if headers.len() == 0 {
        None
    } else {
        match header_index(t, headers.drop_last()) {
            Some(k) => Some(k),
            None => if starts_with(t, headers.last()) {
                Some(headers.len() - 1)
            } else {
                None
            },
        }
    }
}

/// Whether the trimmed line `t` starts a record.
pub open spec fn is_boundary(t: Seq<char>, layout: Layout) -> bool {
    starts_with(t, layout.boundary)
}

/// Whether the trimmed line `t` is the header of a subsection.
pub open spec fn is_header(t: Seq<char>, layout: Layout) -> bool {
    header_index(t, layout.sections) is Some
}

/// Whether the trimmed line `t` is a field that ends the open subsection.
pub open spec fn is_closer(t: Seq<char>, layout: Layout) -> bool {
    match field_of(t) {
        Some(e) => layout.closers.contains(e.label),
        None => false,
    }
}

/// Whether a subsection is open once the lines `ls` are read.
pub open spec fn open_after(ls: Seq<Seq<char>>, layout: Layout) -> bool
    decreases ls.len(),
{
    if ls.len() == 0 {
        false
    } else {
        let t = trim(ls.last());
        if is_boundary(t, layout) {
            false
        } else if is_header(t, layout) {
            true
        } else if is_closer(t, layout) {
            false
        } else {
            open_after(ls.drop_last(), layout)
        }
    }
}

/// The record that the boundary line `t` starts: its header is what follows
/// the boundary on that line, trimmed; it has no field yet.
pub open spec fn started(t: Seq<char>, layout: Layout) -> Block {
    Block {
        header: trim(t.skip(layout.boundary.len() as int)),
        fields: Seq::empty(),
        sections: Seq::empty(),
    }
}

/// The record `r` after the trimmed line `t`, which is no boundary: a header
/// opens a subsection; with a subsection open, a line that does not close it
/// joins it; any other line is read as a field.
pub open spec fn absorb(r: Block, open: bool, t: Seq<char>, layout: Layout) -> Block {
    if is_header(t, layout) {
        let title = layout.sections[header_index(t, layout.sections).unwrap()];
        Block { sections: r.sections.push(Group { title, lines: Seq::empty() }), ..r }
    } else if open && r.sections.len() > 0 && !is_closer(t, layout) {
        let last = r.sections.last();
        Block {
            sections: r.sections.drop_last().push(Group { lines: last.lines.push(t), ..last }),
            ..r
        }
    } else {
        Block { fields: add_field(r.fields, t), ..r }
    }
}

/// The records that the lines `ls` hold. Lines before the first boundary
/// line belong to no record.
pub open spec fn records_of(ls: Seq<Seq<char>>, layout: Layout) -> Seq<Block>
    decreases ls.len(),
{
    if ls.len() == 0 {
        Seq::empty()
    } else {
        let before = records_of(ls.drop_last(), layout);
        let t = trim(ls.last());
        if is_boundary(t, layout) {
            before.push(started(t, layout))
        } else if before.len() == 0 {
            before
        } else {
            before.drop_last().push(
                absorb(before.last(), open_after(ls.drop_last(), layout), t, layout),
            )
        }
    }
}

/// The characters of each string of a list.
fn chars_of_all(v: &Vec<String>) -> (r: Vec<Vec<char>>)
    ensures
        rows(r@) == texts(v@),
{
    let mut r: Vec<Vec<char>> = Vec::new();
    let mut i: usize = 0;
    while i < v.len()
        invariant
            i <= v.len(),
            r.len() == i,
            forall|k: int| 0 <= k < i ==> r@[k]@ == v@[k]@,
        decreases v.len() - i,
    {
        r.push(chars_of(v[i].as_str()));
        i = i + 1;
    }
    assert(rows(r@) =~= texts(v@));
    r
}

/// The field that the trimmed line `t` holds.
pub fn field_in(t: &Vec<char>) -> (r: Option<Field>)
    ensures
        match r {
            Some(f) => field_of(t@) == Some(f@),
            None => field_of(t@) is None,
        },
{
    let colon = chars_of(":");
    let equals = chars_of(" = ");
    proof {
        reveal_strlit(":");
        reveal_strlit(" = ");
    }
    let c = position(t, &colon);
    let q = position(t, &equals);
    let property: Option<usize> = match (c, q) {
        (Some(c), Some(q)) => if q < c {
            Some(q)
        } else {
            None
        },
        (None, Some(q)) => Some(q),
        _ => None,
    };
    match property {
        Some(q) => {
            assert(q + " = "@.len() <= t.len());
            let label = trimmed(&slice(t, 0, q));
            let value = unquoted(&slice(t, q + 3, t.len()));
            Some(Field { label: string_of(&label), value: string_of(&value) })
        },
        None => match c {
            Some(c) => {
                assert(c + ":"@.len() <= t.len());
                let label = trimmed(&slice(t, 0, c));
                let value = trimmed(&slice(t, c + 1, t.len()));
                Some(Field { label: string_of(&label), value: string_of(&value) })
            },
            None => None,
        },
    }
}

/// The first of the headers that the trimmed line `t` begins with.
fn header_in(t: &Vec<char>, headers: &Vec<Vec<char>>) -> (r: Option<usize>)
    ensures
        match r {
            Some(k) => header_index(t@, rows(headers@)) == Some(k as int) && k < headers.len(),
            None => header_index(t@, rows(headers@)) is None,
        },
{
    let ghost all = rows(headers@);
    let mut i: usize = 0;
    assert(all.take(0) == Seq::<Seq<char>>::empty());
    while i < headers.len()
        invariant
            i <= headers.len(),
            all == rows(headers@),
            header_index(t@, all.take(i as int)) is None,
        decreases headers.len() - i,
    {
        assert(all.take(i + 1).drop_last() == all.take(i as int));
        assert(all.take(i + 1).last() == headers@[i as int]@);
        if begins_with(t, &headers[i]) {
            proof {
                lemma_header_found(t@, all, i + 1);
            }
            return Some(i);
        }
        i = i + 1;
    }
    assert(all.take(headers.len() as int) == all);
    None
}

/// A header found among the first `n` is the one found among all.
pub proof fn lemma_header_found(t: Seq<char>, headers: Seq<Seq<char>>, n: int)
    requires
        0 <= n <= headers.len(),
        header_index(t, headers.take(n)) is Some,
    ensures
        header_index(t, headers) == header_index(t, headers.take(n)),
    decreases headers.len() - n,
{
    if n == headers.len() {
        assert(headers.take(n) == headers);
    } else {
        assert(headers.take(n + 1).drop_last() == headers.take(n));
        lemma_header_found(t, headers, n + 1);
    }
}

/// Whether `label` is one of `labels`.
fn among(label: &Vec<char>, labels: &Vec<Vec<char>>) -> (b: bool)
    ensures
        b == rows(labels@).contains(label@),
{
    let mut i: usize = 0;
    while i < labels.len()
        invariant
            i <= labels.len(),
            forall|k: int| 0 <= k < i ==> rows(labels@)[k] != label@,
        decreases labels.len() - i,
    {
        if same(&labels[i], label) {
            assert(rows(labels@)[i as int] == label@);
            return true;
        }
        i = i + 1;
    }
    false
}

/// Whether the trimmed line `t` is a field that ends the open subsection.
fn closes(t: &Vec<char>, closers: &Vec<Vec<char>>) -> (b: bool)
    ensures
        b == match field_of(t@) {
            Some(e) => rows(closers@).contains(e.label),
            None => false,
        },
{
    match field_in(t) {
        Some(f) => {
            let label = chars_of(f.label.as_str());
            among(&label, closers)
        },
        None => false,
    }
}

/// Whether a field with this label is among `fields`.
fn labelled(fields: &Vec<Field>, label: &String) -> (b: bool)
    ensures
        b == has_label(entries(fields@), label@),
{
    let mut i: usize = 0;
    while i < fields.len()
        invariant
            i <= fields.len(),
            forall|k: int| 0 <= k < i ==> (#[trigger] entries(fields@)[k]).label != label@,
        decreases fields.len() - i,
    {
        if fields[i].label == *label {
            assert(entries(fields@)[i as int].label == label@);
            return true;
        }
        i = i + 1;
    }
    false
}

/// Reads the trimmed line `t` as a field of a record with these fields.
fn insert_field(fields: &mut Vec<Field>, t: &Vec<char>)
    ensures
        entries(final(fields)@) == add_field(entries(old(fields)@), t@),
{
    match field_in(t) {
        Some(f) => {
            if !labelled(fields, &f.label) {
                fields.push(f);
                assert(entries(fields@) =~= entries(old(fields)@).push(f@));
            }
        },
        None => {},
    }
}

/// The record `r` after the trimmed line `t`, which is no boundary.
fn absorbed(
    r: Record,
    open: bool,
    t: &Vec<char>,
    format: &BlockFormat,
    headers: &Vec<Vec<char>>,
    closers: &Vec<Vec<char>>,
) -> (out: Record)
    requires
        rows(headers@) == format@.sections,
        rows(closers@) == format@.closers,
    ensures
        out@ == absorb(r@, open, t@, format@),
{
    let header = r.header;
    let mut fields = r.fields;
    let mut sections = r.sections;
    let ghost before = groups(sections@);
    match header_in(t, headers) {
        Some(k) => {
            let title = format.sections[k].clone();
            assert(title@ == format@.sections[k as int]);
            let section = Section { title, lines: Vec::new() };
            assert(section@.lines =~= Seq::<Seq<char>>::empty());
            sections.push(section);
            assert(groups(sections@) =~= before.push(section@));
        },
        None => {
            if open && sections.len() > 0 && !closes(t, closers) {
                let last = sections.pop().unwrap();
                assert(last@ == before.last());
                assert(groups(sections@) =~= before.drop_last());
                let title = last.title;
                let mut lines = last.lines;
                let ghost lines_before = texts(lines@);
                let line = string_of(t);
                lines.push(line);
                assert(texts(lines@) =~= lines_before.push(t@));
                let section = Section { title, lines };
                sections.push(section);
                assert(groups(sections@) =~= before.drop_last().push(section@));
            } else {
                insert_field(&mut fields, t);
            }
        },
    }
    Record { header, fields, sections }
}

/// The records that the lines `ls` hold.
pub fn parse_lines(ls: &Vec<Vec<char>>, format: &BlockFormat) -> (records: Vec<Record>)
    ensures
        blocks(records@) == records_of(rows(ls@), format@),
{
    let boundary = chars_of(format.boundary.as_str());
    let headers = chars_of_all(&format.sections);
    let closers = chars_of_all(&format.closers);
    let ghost all = rows(ls@);
    let ghost layout = format@;
    let mut records: Vec<Record> = Vec::new();
    let mut open = false;
    let mut i: usize = 0;
    assert(all.take(0) == Seq::<Seq<char>>::empty());
    assert(blocks(records@) =~= Seq::<Block>::empty());
    while i < ls.len()
        invariant
            i <= ls.len(),
            all == rows(ls@),
            layout == format@,
            boundary@ == layout.boundary,
            rows(headers@) == layout.sections,
            rows(closers@) == layout.closers,
            blocks(records@) == records_of(all.take(i as int), layout),
            open == open_after(all.take(i as int), layout),
        decreases ls.len() - i,
    {
        let ghost done = blocks(records@);
        assert(all.take(i + 1).drop_last() == all.take(i as int));
        assert(all.take(i + 1).last() == ls@[i as int]@);
        let t = trimmed(&ls[i]);
        if begins_with(&t, &boundary) {
            let fields: Vec<Field> = Vec::new();
            assert(entries(fields@) =~= Seq::<Entry>::empty());
            let header = trimmed(&slice(&t, boundary.len(), t.len()));
            let record = Record { header: string_of(&header), fields, sections: Vec::new() };
            assert(record@.sections =~= Seq::<Group>::empty());
            assert(record@ == started(t@, layout));
            records.push(record);
            assert(blocks(records@) =~= done.push(record@));
            open = false;
        } else {
            if records.len() > 0 {
                let last = records.pop().unwrap();
                assert(last@ == done.last());
                assert(blocks(records@) =~= done.drop_last());
                let record = absorbed(last, open, &t, format, &headers, &closers);
                records.push(record);
                assert(blocks(records@) =~= done.drop_last().push(record@));
            }
            if header_in(&t, &headers).is_some() {
                open = true;
            } else if closes(&t, &closers) {
                open = false;
            }
        }
        i = i + 1;
    }
    assert(all.take(ls.len() as int) == all);
    records
}

/// The records that `text` holds in the given format: one for each line
/// that, trimmed, begins with the format's boundary, in the order of the
/// text. Each record holds the fields and subsections of the lines below its
/// boundary line, up to the next boundary line. Of the fields with one label
/// the first stays. Text without a boundary line holds no record.
pub fn parse_records(text: &str, format: &BlockFormat) -> (records: Vec<Record>)
    ensures
        blocks(records@) == records_of(lines(text@), format@),
{
    let chars = chars_of(text);
    let ls = split_lines(&chars);
    parse_lines(&ls, format)
}

/// The lines of all subsections with this title, in order.
pub open spec fn lines_under(sections: Seq<Group>, title: Seq<char>) -> Seq<Seq<char>>
    decreases sections.len(),
{
    if sections.len() == 0 {
        Seq::empty()
    } else {
        lines_under(sections.drop_last(), title) + if sections.last().title == title {
            sections.last().lines
        } else {
            Seq::empty()
        }
    }
}

impl Record {
    /// The value of the field with this label.
    pub fn field(&self, label: &str) -> (r: Option<String>)
        ensures
            crate::types::opt_text(r) == lookup(self@.fields, label@),
    {
        let ghost all = self@.fields;
        let wanted = String::from_str(label);
        let mut i: usize = 0;
        assert(all.take(0) == Seq::<Entry>::empty());
        while i < self.fields.len()
            invariant
                i <= self.fields.len(),
                all == self@.fields,
                wanted@ == label@,
                lookup(all.take(i as int), label@) is None,
            decreases self.fields.len() - i,
        {
            assert(all.take(i + 1).drop_last() == all.take(i as int));
            assert(all.take(i + 1).last() == self.fields@[i as int]@);
            if self.fields[i].label == wanted {
                proof {
                    lemma_lookup_found(all, label@, i + 1);
                }
                return Some(self.fields[i].value.clone());
            }
            i = i + 1;
        }
        assert(all.take(self.fields.len() as int) == all);
        None
    }

    /// The value of the field with this label, or the empty text.
    pub fn field_or_empty(&self, label: &str) -> (r: String)
        ensures
            r@ == value_or_empty(lookup(self@.fields, label@)),
    {
        match self.field(label) {
            Some(v) => v,
            None => String::new(),
        }
    }

    /// The lines of all subsections with this title, in order.
    pub fn section_lines(&self, title: &str) -> (r: Vec<String>)
        ensures
            texts(r@) == lines_under(self@.sections, title@),
    {
        let ghost all = self@.sections;
        let wanted = String::from_str(title);
        let mut r: Vec<String> = Vec::new();
        let mut i: usize = 0;
        assert(all.take(0) == Seq::<Group>::empty());
        assert(texts(r@) =~= Seq::<Seq<char>>::empty());
        while i < self.sections.len()
            invariant
                i <= self.sections.len(),
                all == self@.sections,
                wanted@ == title@,
                texts(r@) == lines_under(all.take(i as int), title@),
            decreases self.sections.len() - i,
        {
            assert(all.take(i + 1).drop_last() == all.take(i as int));
            assert(all.take(i + 1).last() == self.sections@[i as int]@);
            let section = &self.sections[i];
            let ghost before = texts(r@);
            if section.title == wanted {
                let mut k: usize = 0;
                assert(texts(section.lines@).take(0) == Seq::<Seq<char>>::empty());
                assert(before + Seq::<Seq<char>>::empty() == before);
                while k < section.lines.len()
                    invariant
                        k <= section.lines.len(),
                        texts(r@) == before + texts(section.lines@).take(k as int),
                    decreases section.lines.len() - k,
                {
                    let ghost sofar = texts(r@);
                    r.push(section.lines[k].clone());
                    assert(texts(r@) =~= sofar.push(section.lines@[k as int]@));
                    assert(texts(section.lines@).take(k + 1) == texts(section.lines@).take(
                        k as int,
                    ).push(section.lines@[k as int]@));
                    k = k + 1;
                }
                assert(texts(section.lines@).take(section.lines.len() as int) == texts(
                    section.lines@,
                ));
            } else {
                assert(before + Seq::<Seq<char>>::empty() == before);
            }
            i = i + 1;
        }
        assert(all.take(self.sections.len() as int) == all);
        r
    }
}

/// A text, or the empty text where there is none.
pub open spec fn value_or_empty(v: Option<Seq<char>>) -> Seq<char> {
    match v {
        Some(s) => s,
        None => Seq::empty(),
    }
}

/// A value found among the first `n` fields is the one found among all.
pub proof fn lemma_lookup_found(fields: Seq<Entry>, label: Seq<char>, n: int)
    requires
        0 <= n <= fields.len(),
        lookup(fields.take(n), label) is Some,
    ensures
        lookup(fields, label) == lookup(fields.take(n), label),
    decreases fields.len() - n,
{
    if n == fields.len() {
        assert(fields.take(n) == fields);
    } else {
        assert(fields.take(n + 1).drop_last() == fields.take(n));
        lemma_lookup_found(fields, label, n + 1);
    }
}

/// Lines of which none starts a record hold no record, whatever else they
/// hold.
pub proof fn law_no_boundary_no_record(ls: Seq<Seq<char>>, layout: Layout)
    requires
        forall|i: int| 0 <= i < ls.len() ==> !is_boundary(trim(#[trigger] ls[i]), layout),
    ensures
        records_of(ls, layout) == Seq::<Block>::empty(),
    decreases ls.len(),
{
    if ls.len() > 0 {
        law_no_boundary_no_record(ls.drop_last(), layout);
        assert(!is_boundary(trim(ls[ls.len() - 1]), layout));
    }
}

/// The position of the first record whose header is `name`.
pub open spec fn first_named(records: Seq<Block>, name: Seq<char>) -> Option<int>
    decreases records.len(),
{
    if records.len() == 0 {
        None
    } else {
        match first_named(records.drop_last(), name) {
            Some(k) => Some(k),
            None => if records.last().header == name {
                Some(records.len() - 1)
            } else {
                None
            },
        }
    }
}

/// A record found among the first `n` is the one found among all.
pub proof fn lemma_first_named_found(records: Seq<Block>, name: Seq<char>, n: int)
    requires
        0 <= n <= records.len(),
        first_named(records.take(n), name) is Some,
    ensures
        first_named(records, name) == first_named(records.take(n), name),
    decreases records.len() - n,
{
    if n == records.len() {
        assert(records.take(n) == records);
    } else {
        assert(records.take(n + 1).drop_last() == records.take(n));
        lemma_first_named_found(records, name, n + 1);
    }
}

/// The position of the first record whose header is `name`.
pub fn record_named(records: &Vec<Record>, name: &str) -> (r: Option<usize>)
    ensures
        match r {
            Some(k) => first_named(blocks(records@), name@) == Some(k as int) && k
                < records.len(),
            None => first_named(blocks(records@), name@) is None,
        },
{
    let ghost all = blocks(records@);
    let wanted = String::from_str(name);
    let mut i: usize = 0;
    assert(all.take(0) == Seq::<Block>::empty());
    while i < records.len()
        invariant
            i <= records.len(),
            all == blocks(records@),
            wanted@ == name@,
            first_named(all.take(i as int), name@) is None,
        decreases records.len() - i,
    {
        assert(all.take(i + 1).drop_last() == all.take(i as int));
        assert(all.take(i + 1).last() == records@[i as int]@);
        if records[i].header == wanted {
            proof {
                lemma_first_named_found(all, name@, i + 1);
            }
            return Some(i);
        }
        i = i + 1;
    }
    assert(all.take(records.len() as int) == all);
    None
}

} // verus!
