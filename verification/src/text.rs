//! Character-level primitives on text: whitespace, lines, searching,
//! numbers. Every function here works on the characters of a string, so that
//! what it computes can be stated over `Seq<char>`.

use vstd::prelude::*;
use vstd::string::*;

verus! {

/// The characters that count as white space when a line is trimmed.
pub open spec fn is_space(c: char) -> bool {
    c == ' ' || ('\u{9}' <= c && c <= '\u{d}') || c == '\u{85}' || c == '\u{a0}' || c
        == '\u{1680}' || ('\u{2000}' <= c && c <= '\u{200a}') || c == '\u{2028}' || c
        == '\u{2029}' || c == '\u{202f}' || c == '\u{205f}' || c == '\u{3000}'
}

/// `s` without the white space at its two ends.
pub open spec fn trim(s: Seq<char>) -> Seq<char>
    decreases s.len(),
{
    if s.len() == 0 {
        s
    } else if is_space(s[0]) {
        trim(s.drop_first())
    } else if is_space(s.last()) {
        trim(s.drop_last())
    } else {
        s
    }
}

/// The position of the first line feed in `s`, or the length of `s`.
pub open spec fn line_end(s: Seq<char>) -> int
    decreases s.len(),
{
    if s.len() == 0 || s[0] == '\n' {
        0
    } else {
        1 + line_end(s.drop_first())
    }
}

/// A line without the carriage return that stood before its line feed.
pub open spec fn chomp(line: Seq<char>) -> Seq<char> {
    if line.len() > 0 && line.last() == '\r' {
        line.drop_last()
    } else {
        line
    }
}

/// The lines of `s`. A line ends at a line feed, which is not part of it,
/// nor is a carriage return directly before it; what follows the last line
/// feed is a line if it is not empty.
pub open spec fn lines(s: Seq<char>) -> Seq<Seq<char>>
    decreases s.len(),
{
    if s.len() == 0 {
        Seq::empty()
    } else {
        let e = line_end(s);
        if e < 0 || e >= s.len() {
            seq![s]
        } else {
            seq![chomp(s.take(e))] + lines(s.skip(e + 1))
        }
    }
}

/// Whether `p` stands in `s` at position `i`.
pub open spec fn matches_at(s: Seq<char>, p: Seq<char>, i: int) -> bool {
    0 <= i && i + p.len() <= s.len() && s.subrange(i, i + p.len()) == p
}

/// Whether `s` begins with `p`.
pub open spec fn starts_with(s: Seq<char>, p: Seq<char>) -> bool {
    matches_at(s, p, 0)
}

/// The first position at or after `i` where `p` stands in `s`.
pub open spec fn find_from(s: Seq<char>, p: Seq<char>, i: int) -> Option<int>
    decreases s.len() - i,
{
    if i < 0 || i + p.len() > s.len() {
        None
    } else if matches_at(s, p, i) {
        Some(i)
    } else if i >= s.len() {
        None
    } else {
        find_from(s, p, i + 1)
    }
}

/// The first position where `p` stands in `s`.
pub open spec fn find(s: Seq<char>, p: Seq<char>) -> Option<int> {
    find_from(s, p, 0)
}

/// Whether `p` occurs in `s`.
pub open spec fn contains(s: Seq<char>, p: Seq<char>) -> bool {
    find(s, p) is Some
}

/// What `find_from` returns is the least match at or after `i`.
pub proof fn lemma_find_from(s: Seq<char>, p: Seq<char>, i: int)
    requires
        0 <= i,
    ensures
        match find_from(s, p, i) {
            Some(k) => i <= k && matches_at(s, p, k) && forall|j: int|
                i <= j < k ==> !matches_at(s, p, j),
            None => forall|j: int| i <= j ==> !matches_at(s, p, j),
        },
    decreases s.len() - i,
{
    if i + p.len() > s.len() {
    } else if matches_at(s, p, i) {
    } else if i >= s.len() {
        assert(s.subrange(i, i + p.len()) =~= p);
    } else {
        lemma_find_from(s, p, i + 1);
    }
}

/// `p` occurs in `s` exactly if it stands at some position.
pub proof fn lemma_contains(s: Seq<char>, p: Seq<char>)
    ensures
        contains(s, p) <==> exists|j: int| matches_at(s, p, j),
{
    lemma_find_from(s, p, 0);
    if contains(s, p) {
        assert(matches_at(s, p, find(s, p).unwrap()));
    }
}

/// The characters of `s`, in order.
pub fn chars_of(s: &str) -> (v: Vec<char>)
    ensures
        v@ == s@,
{
    let mut v: Vec<char> = Vec::new();
    for c in it: s.chars()
        invariant
            v@ == it.seq().take(it.index() as int),
            it.seq() == s@,
    {
        v.push(c);
    }
    v
}

/// Adds one character at the end of a string: `String::push`. The string
/// afterwards holds the characters it held before, then `c`.
#[verifier::external_body]
fn push_char(s: &mut String, c: char)
    ensures
        final(s)@ == old(s)@.push(c),
{
    s.push(c)
}

/// The string that holds the characters of `v`.
pub fn string_of(v: &Vec<char>) -> (s: String)
    ensures
        s@ == v@,
{
    let mut s = String::new();
    let mut i: usize = 0;
    while i < v.len()
        invariant
            i <= v.len(),
            s@ == v@.take(i as int),
        decreases v.len() - i,
    {
        push_char(&mut s, v[i]);
        i = i + 1;
    }
    s
}

/// Whether `c` counts as white space.
pub fn space(c: char) -> (b: bool)
    ensures
        b == is_space(c),
{
    c == ' ' || ('\u{9}' <= c && c <= '\u{d}') || c == '\u{85}' || c == '\u{a0}' || c
        == '\u{1680}' || ('\u{2000}' <= c && c <= '\u{200a}') || c == '\u{2028}' || c
        == '\u{2029}' || c == '\u{202f}' || c == '\u{205f}' || c == '\u{3000}'
}

/// The characters of `v` from position `from` up to `to`.
pub fn slice(v: &Vec<char>, from: usize, to: usize) -> (r: Vec<char>)
    requires
        from <= to <= v.len(),
    ensures
        r@ == v@.subrange(from as int, to as int),
{
    let mut r: Vec<char> = Vec::new();
    let mut i: usize = from;
    while i < to
        invariant
            from <= i <= to <= v.len(),
            r@ == v@.subrange(from as int, i as int),
        decreases to - i,
    {
        r.push(v[i]);
        i = i + 1;
    }
    r
}

/// `v` without the white space at its two ends.
pub fn trimmed(v: &Vec<char>) -> (r: Vec<char>)
    ensures
        r@ == trim(v@),
{
    let mut i: usize = 0;
    assert(v@.skip(0) == v@);
    while i < v.len() && space(v[i])
        invariant
            i <= v.len(),
            trim(v@) == trim(v@.skip(i as int)),
        decreases v.len() - i,
    {
        assert(v@.skip(i as int).drop_first() == v@.skip(i + 1));
        i = i + 1;
    }
    let mut j: usize = v.len();
    assert(v@.skip(i as int) == v@.subrange(i as int, j as int));
    while i < j && space(v[j - 1])
        invariant
            i <= j <= v.len(),
            trim(v@) == trim(v@.subrange(i as int, j as int)),
            i < v.len() ==> !is_space(v@[i as int]),
        decreases j - i,
    {
        assert(v@.subrange(i as int, j as int).drop_last() == v@.subrange(i as int, j - 1));
        j = j - 1;
    }
    slice(v, i, j)
}

/// The character sequences held by a list of character vectors.
pub open spec fn rows(v: Seq<Vec<char>>) -> Seq<Seq<char>> {
    Seq::new(v.len(), |i: int| v[i]@)
}

/// The character sequences held by a list of strings.
pub open spec fn texts(v: Seq<String>) -> Seq<Seq<char>> {
    Seq::new(v.len(), |i: int| v[i]@)
}

/// The lines of `v`.
pub fn split_lines(v: &Vec<char>) -> (r: Vec<Vec<char>>)
    ensures
        rows(r@) == lines(v@),
{
    let mut r: Vec<Vec<char>> = Vec::new();
    let mut i: usize = 0;
    assert(v@.skip(0) == v@);
    assert(rows(r@) + lines(v@) == lines(v@));
    while i < v.len()
        invariant
            i <= v.len(),
            lines(v@) == rows(r@) + lines(v@.skip(i as int)),
        decreases v.len() - i,
    {
        let ghost rest = v@.skip(i as int);
        let mut e: usize = i;
        assert(v@.skip(e as int) == rest);
        while e < v.len() && v[e] != '\n'
            invariant
                i <= e <= v.len(),
                line_end(rest) == (e - i) + line_end(v@.skip(e as int)),
                rest == v@.skip(i as int),
            decreases v.len() - e,
        {
            assert(v@.skip(e as int).drop_first() == v@.skip(e + 1));
            e = e + 1;
        }
        let ghost before = rows(r@);
        if e == v.len() {
            let line = slice(v, i, e);
            assert(line@ == rest);
            r.push(line);
            assert(rows(r@) == before + seq![rest]);
            assert(lines(v@.skip(e as int)) == Seq::<Seq<char>>::empty());
            i = e;
        } else {
            let end: usize = if e > i && v[e - 1] == '\r' {
                e - 1
            } else {
                e
            };
            let line = slice(v, i, end);
            assert(rest.take(e - i) == v@.subrange(i as int, e as int));
            assert(line@ == chomp(rest.take(e - i)));
            assert(rest.skip(e - i + 1) == v@.skip(e + 1));
            r.push(line);
            assert(rows(r@) == before + seq![chomp(rest.take(e - i))]);
            i = e + 1;
        }
    }
    assert(lines(v@.skip(i as int)) == Seq::<Seq<char>>::empty());
    assert(rows(r@) + Seq::<Seq<char>>::empty() == rows(r@));
    r
}

/// Whether `p` stands in `v` at position `i`.
pub fn stands_at(v: &Vec<char>, p: &Vec<char>, i: usize) -> (b: bool)
    ensures
        b == matches_at(v@, p@, i as int),
{
    if p.len() > v.len() || i > v.len() - p.len() {
        return false;
    }
    let mut k: usize = 0;
    while k < p.len()
        invariant
            k <= p.len(),
            i + p.len() <= v.len(),
            v@.subrange(i as int, i + k) == p@.take(k as int),
        decreases p.len() - k,
    {
        if v[i + k] != p[k] {
            assert(v@.subrange(i as int, i + p.len())[k as int] != p@[k as int]);
            return false;
        }
        assert(v@.subrange(i as int, i + k + 1) == v@.subrange(i as int, i + k).push(
            v@[i + k],
        ));
        assert(p@.take(k + 1) == p@.take(k as int).push(p@[k as int]));
        k = k + 1;
    }
    assert(p@.take(p.len() as int) == p@);
    true
}

/// Whether `v` begins with `p`.
pub fn begins_with(v: &Vec<char>, p: &Vec<char>) -> (b: bool)
    ensures
        b == starts_with(v@, p@),
{
    stands_at(v, p, 0)
}

/// The first position where `p` stands in `v`.
pub fn position(v: &Vec<char>, p: &Vec<char>) -> (r: Option<usize>)
    ensures
        match r {
            Some(k) => find(v@, p@) == Some(k as int) && k + p.len() <= v.len(),
            None => find(v@, p@) is None,
        },
{
    if p.len() > v.len() {
        return None;
    }
    let last: usize = v.len() - p.len();
    let mut i: usize = 0;
    while i <= last
        invariant
            i <= last + 1,
            last == v.len() - p.len(),
            find(v@, p@) == find_from(v@, p@, i as int),
        decreases last + 1 - i,
    {
        if stands_at(v, p, i) {
            return Some(i);
        }
        proof {
            if i >= v.len() {
                assert(v@.subrange(i as int, i + p.len()) =~= p@);
            }
        }
        i = i + 1;
    }
    None
}

/// Whether `p` occurs in `v`.
pub fn holds(v: &Vec<char>, p: &Vec<char>) -> (b: bool)
    ensures
        b == contains(v@, p@),
{
    position(v, p).is_some()
}

/// Whether `a` and `b` hold the same characters.
pub fn same(a: &Vec<char>, b: &Vec<char>) -> (r: bool)
    ensures
        r == (a@ == b@),
{
    if a.len() != b.len() {
        return false;
    }
    let r = stands_at(a, b, 0);
    assert(a@.subrange(0, a.len() as int) == a@);
    r
}

/// `s` without the double quotes at its two ends.
pub open spec fn strip_quotes(s: Seq<char>) -> Seq<char>
    decreases s.len(),
{
    if s.len() == 0 {
        s
    } else if s[0] == '"' {
        strip_quotes(s.drop_first())
    } else if s.last() == '"' {
        strip_quotes(s.drop_last())
    } else {
        s
    }
}

/// `v` without the double quotes at its two ends.
pub fn unquoted(v: &Vec<char>) -> (r: Vec<char>)
    ensures
        r@ == strip_quotes(v@),
{
    let mut i: usize = 0;
    assert(v@.skip(0) == v@);
    while i < v.len() && v[i] == '"'
        invariant
            i <= v.len(),
            strip_quotes(v@) == strip_quotes(v@.skip(i as int)),
        decreases v.len() - i,
    {
        assert(v@.skip(i as int).drop_first() == v@.skip(i + 1));
        i = i + 1;
    }
    let mut j: usize = v.len();
    assert(v@.skip(i as int) == v@.subrange(i as int, j as int));
    while i < j && v[j - 1] == '"'
        invariant
            i <= j <= v.len(),
            strip_quotes(v@) == strip_quotes(v@.subrange(i as int, j as int)),
            i < v.len() ==> v@[i as int] != '"',
        decreases j - i,
    {
        assert(v@.subrange(i as int, j as int).drop_last() == v@.subrange(i as int, j - 1));
        j = j - 1;
    }
    slice(v, i, j)
}

/// Whether `c` is one of the ten decimal digits.
pub open spec fn is_digit(c: char) -> bool {
    '0' <= c && c <= '9'
}

/// The number that the digit `c` stands for.
pub open spec fn digit_value(c: char) -> nat {
    (c as int - '0' as int) as nat
}

/// Whether `s` holds decimal digits only.
pub open spec fn all_digits(s: Seq<char>) -> bool {
    forall|i: int| 0 <= i < s.len() ==> is_digit(#[trigger] s[i])
}

/// The number that the digits of `s` write in base ten.
pub open spec fn number(s: Seq<char>) -> nat
    decreases s.len(),
{
    if s.len() == 0 {
        0
    } else {
        number(s.drop_last()) * 10 + digit_value(s.last())
    }
}

/// The digits of a number text: the text without a leading plus sign.
pub open spec fn unsigned_part(s: Seq<char>) -> Seq<char> {
    if s.len() > 0 && s[0] == '+' {
        s.drop_first()
    } else {
        s
    }
}

/// The number that `s` writes, where `s` is an optional plus sign and then
/// one or more decimal digits that write a number of 32 bits.
pub open spec fn parse_u32(s: Seq<char>) -> Option<u32> {
    let d = unsigned_part(s);
    if d.len() > 0 && all_digits(d) && number(d) <= u32::MAX {
        Some(number(d) as u32)
    } else {
        None
    }
}

/// A number only grows as digits are added to its text.
pub proof fn lemma_number_grows(s: Seq<char>, i: int)
    requires
        0 <= i <= s.len(),
    ensures
        number(s.take(i)) <= number(s),
    decreases s.len() - i,
{
    if i == s.len() {
        assert(s.take(i) == s);
    } else {
        assert(s.take(i + 1).drop_last() == s.take(i));
        lemma_number_grows(s, i + 1);
    }
}

/// Whether `c` is one of the ten decimal digits.
pub fn digit(c: char) -> (b: bool)
    ensures
        b == is_digit(c),
{
    '0' <= c && c <= '9'
}

/// The number that `v` writes, if it writes one of 32 bits.
pub fn to_u32(v: &Vec<char>) -> (r: Option<u32>)
    ensures
        r == parse_u32(v@),
{
    let start: usize = if v.len() > 0 && v[0] == '+' {
        1
    } else {
        0
    };
    let ghost d = unsigned_part(v@);
    assert(d == v@.skip(start as int));
    if start == v.len() {
        return None;
    }
    let mut acc: u64 = 0;
    let mut i: usize = start;
    assert(d.take(0) == Seq::<char>::empty());
    while i < v.len()
        invariant
            start <= i <= v.len(),
            d == v@.skip(start as int),
            d == unsigned_part(v@),
            all_digits(d.take(i - start)),
            acc == number(d.take(i - start)),
            acc <= u32::MAX,
        decreases v.len() - i,
    {
        let c = v[i];
        assert(d[i - start] == c);
        if !digit(c) {
            assert(!is_digit(d[i - start]));
            return None;
        }
        let value: u64 = (c as u32 - '0' as u32) as u64;
        assert(value == digit_value(c));
        acc = acc * 10 + value;
        proof {
            let next = d.take(i - start + 1);
            assert(next.drop_last() == d.take(i - start));
            assert(next.last() == c);
            assert(acc == number(next));
            lemma_number_grows(d, i - start + 1);
        }
        if acc > 0xffff_ffff {
            return None;
        }
        i = i + 1;
    }
    assert(d.take(i - start) == d);
    Some(acc as u32)
}

/// The character that writes a number below ten.
pub open spec fn digit_char(d: nat) -> char {
    ((d + 48) as u8) as char
}

/// The decimal text of `n`, without leading zeros.
pub open spec fn decimal(n: nat) -> Seq<char>
    decreases n,
{
    if n < 10 {
        seq![digit_char(n)]
    } else {
        decimal(n / 10).push(digit_char(n % 10))
    }
}

/// Adds the decimal text of `n` at the end of `out`.
pub fn push_decimal(out: &mut Vec<char>, n: u64)
    ensures
        final(out)@ == old(out)@ + decimal(n as nat),
    decreases n,
{
    if n >= 10 {
        push_decimal(out, n / 10);
    }
    let d: u8 = (n % 10) as u8;
    out.push((d + 48) as char);
    assert(out@ =~= old(out)@ + decimal(n as nat));
}

/// Adds the characters of `more` at the end of `out`.
pub fn push_all(out: &mut Vec<char>, more: &Vec<char>)
    ensures
        final(out)@ == old(out)@ + more@,
{
    let mut i: usize = 0;
    assert(out@ == old(out)@ + more@.take(0));
    while i < more.len()
        invariant
            i <= more.len(),
            out@ == old(out)@ + more@.take(i as int),
        decreases more.len() - i,
    {
        out.push(more[i]);
        assert(more@.take(i + 1) == more@.take(i as int).push(more@[i as int]));
        i = i + 1;
    }
    assert(more@.take(more.len() as int) == more@);
}

/// Adds the characters of `more` at the end of `out`.
pub fn push_str(out: &mut Vec<char>, more: &str)
    ensures
        final(out)@ == old(out)@ + more@,
{
    let chars = chars_of(more);
    push_all(out, &chars);
}

/// The parts in order, with `sep` between each two.
pub open spec fn join(parts: Seq<Seq<char>>, sep: Seq<char>) -> Seq<char>
    decreases parts.len(),
{
    if parts.len() == 0 {
        Seq::empty()
    } else if parts.len() == 1 {
        parts[0]
    } else {
        join(parts.drop_last(), sep) + sep + parts.last()
    }
}

/// The parts in order, with `sep` between each two.
pub fn joined(parts: &Vec<Vec<char>>, sep: &str) -> (r: Vec<char>)
    ensures
        r@ == join(rows(parts@), sep@),
{
    let mut r: Vec<char> = Vec::new();
    let mut i: usize = 0;
    assert(rows(parts@).take(0) == Seq::<Seq<char>>::empty());
    while i < parts.len()
        invariant
            i <= parts.len(),
            r@ == join(rows(parts@).take(i as int), sep@),
        decreases parts.len() - i,
    {
        let ghost done = rows(parts@).take(i as int);
        let ghost next = rows(parts@).take(i + 1);
        assert(next.drop_last() == done);
        assert(next.last() == parts@[i as int]@);
        if i > 0 {
            push_str(&mut r, sep);
        }
        push_all(&mut r, &parts[i]);
        assert(r@ == join(next, sep@));
        i = i + 1;
    }
    assert(rows(parts@).take(parts.len() as int) == rows(parts@));
    r
}

/// The small letter of a capital ASCII letter; any other character itself.
pub open spec fn ascii_lower(c: char) -> char {
    if 'A' <= c && c <= 'Z' {
        ((c as u8) + 32) as char
    } else {
        c
    }
}

/// Whether `a` and `b` are the same but for the case of ASCII letters.
pub open spec fn same_ignoring_ascii_case(a: Seq<char>, b: Seq<char>) -> bool {
    a.len() == b.len() && forall|i: int|
        0 <= i < a.len() ==> ascii_lower(#[trigger] a[i]) == ascii_lower(b[i])
}

/// The small letter of a capital ASCII letter; any other character itself.
pub fn lower(c: char) -> (r: char)
    ensures
        r == ascii_lower(c),
{
    if 'A' <= c && c <= 'Z' {
        ((c as u8) + 32) as char
    } else {
        c
    }
}

/// Whether `a` and `b` are the same but for the case of ASCII letters.
pub fn same_ignoring_case(a: &Vec<char>, b: &Vec<char>) -> (r: bool)
    ensures
        r == same_ignoring_ascii_case(a@, b@),
{
    if a.len() != b.len() {
        return false;
    }
    let mut i: usize = 0;
    while i < a.len()
        invariant
            i <= a.len(),
            a.len() == b.len(),
            forall|k: int| 0 <= k < i ==> ascii_lower(#[trigger] a@[k]) == ascii_lower(b@[k]),
        decreases a.len() - i,
    {
        if lower(a[i]) != lower(b[i]) {
            return false;
        }
        i = i + 1;
    }
    true
}

/// The first `n` characters of `v`, or all of it where it has fewer.
pub fn first_chars(v: &Vec<char>, n: usize) -> (r: Vec<char>)
    ensures
        r@ == v@.take(if n <= v.len() { n as int } else { v.len() as int }),
{
    let to: usize = if n <= v.len() {
        n
    } else {
        v.len()
    };
    slice(v, 0, to)
}

/// What `str::to_lowercase` returns for a string of these characters.
pub uninterp spec fn lowercase_of(s: Seq<char>) -> Seq<char>;

/// What `str::to_uppercase` returns for a string of these characters.
pub uninterp spec fn uppercase_of(s: Seq<char>) -> Seq<char>;

/// The lowercase form of `s` as Unicode defines it: `str::to_lowercase`, whose
/// result depends on the characters of `s` alone. Nothing more is claimed of
/// it.
#[verifier::external_body]
pub(crate) fn lowercase(s: &str) -> (r: String)
    ensures
        r@ == lowercase_of(s@),
{
    s.to_lowercase()
}

/// The uppercase form of `s` as Unicode defines it: `str::to_uppercase`, whose
/// result depends on the characters of `s` alone. Nothing more is claimed of
/// it.
#[verifier::external_body]
pub(crate) fn uppercase(s: &str) -> (r: String)
    ensures
        r@ == uppercase_of(s@),
{
    s.to_uppercase()
}

/// Whether one of `words` occurs in `line`.
pub open spec fn mentions_any(line: Seq<char>, words: Seq<Seq<char>>) -> bool {
    exists|k: int| 0 <= k < words.len() && contains(line, #[trigger] words[k])
}

/// Those of the lines in which one of `words` occurs, in order.
pub open spec fn lines_with(ls: Seq<Seq<char>>, words: Seq<Seq<char>>) -> Seq<Seq<char>>
    decreases ls.len(),
{
    if ls.len() == 0 {
        Seq::empty()
    } else if mentions_any(ls.last(), words) {
        lines_with(ls.drop_last(), words).push(ls.last())
    } else {
        lines_with(ls.drop_last(), words)
    }
}

/// Whether one of `words` occurs in `line`.
pub fn mentions(line: &Vec<char>, words: &Vec<Vec<char>>) -> (b: bool)
    ensures
        b == mentions_any(line@, rows(words@)),
{
    let mut k: usize = 0;
    while k < words.len()
        invariant
            k <= words.len(),
            forall|j: int| 0 <= j < k ==> !contains(line@, #[trigger] rows(words@)[j]),
        decreases words.len() - k,
    {
        if holds(line, &words[k]) {
            assert(contains(line@, rows(words@)[k as int]));
            return true;
        }
        k = k + 1;
    }
    false
}

/// Those of the lines in which one of `words` occurs, in order.
pub fn keep_lines_with(ls: &Vec<Vec<char>>, words: &Vec<Vec<char>>) -> (r: Vec<Vec<char>>)
    ensures
        rows(r@) == lines_with(rows(ls@), rows(words@)),
{
    let ghost all = rows(ls@);
    let mut r: Vec<Vec<char>> = Vec::new();
    let mut i: usize = 0;
    assert(all.take(0) == Seq::<Seq<char>>::empty());
    assert(rows(r@) =~= Seq::<Seq<char>>::empty());
    while i < ls.len()
        invariant
            i <= ls.len(),
            all == rows(ls@),
            rows(r@) == lines_with(all.take(i as int), rows(words@)),
        decreases ls.len() - i,
    {
        let ghost before = rows(r@);
        assert(all.take(i + 1).drop_last() == all.take(i as int));
        assert(all.take(i + 1).last() == ls@[i as int]@);
        if mentions(&ls[i], words) {
            r.push(ls[i].clone());
            assert(rows(r@) =~= before.push(ls@[i as int]@));
        }
        i = i + 1;
    }
    assert(all.take(ls.len() as int) == all);
    r
}

/// Whether `p` occurs in `s`.
pub fn str_contains(s: &str, p: &str) -> (b: bool)
    ensures
        b == contains(s@, p@),
{
    holds(&chars_of(s), &chars_of(p))
}

/// The lowercase forms of the given texts.
pub open spec fn lowered(ps: Seq<Seq<char>>) -> Seq<Seq<char>> {
    Seq::new(ps.len(), |i: int| lowercase_of(ps[i]))
}

/// The lowercase forms of the given strings.
pub fn lowercase_all(v: &Vec<String>) -> (r: Vec<String>)
    ensures
        texts(r@) == lowered(texts(v@)),
{
    let mut r: Vec<String> = Vec::new();
    let mut i: usize = 0;
    while i < v.len()
        invariant
            i <= v.len(),
            r.len() == i,
            forall|k: int| 0 <= k < i ==> (#[trigger] r@[k])@ == lowercase_of(v@[k]@),
        decreases v.len() - i,
    {
        r.push(lowercase(v[i].as_str()));
        i = i + 1;
    }
    assert(texts(r@) =~= lowered(texts(v@)));
    r
}

} // verus!
