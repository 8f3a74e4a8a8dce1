//! Facts about trimming, searching and lines that proofs elsewhere rest on.

use crate::text::{
    chomp, contains, find, is_space, lemma_contains, lemma_find_from, line_end, lines, matches_at,
    strip_quotes, trim,
};
use vstd::prelude::*;

verus! {

/// The trimmed text is a stretch of the text.
pub proof fn lemma_trim_range(s: Seq<char>) -> (r: (int, int))
    ensures
        0 <= r.0 <= r.1 <= s.len(),
        trim(s) == s.subrange(r.0, r.1),
    decreases s.len(),
{
    if s.len() == 0 {
        assert(s.subrange(0, 0) == s);
        (0, 0)
    } else if is_space(s[0]) {
        let (a, b) = lemma_trim_range(s.drop_first());
        assert(s.drop_first().subrange(a, b) == s.subrange(a + 1, b + 1));
        (a + 1, b + 1)
    } else if is_space(s.last()) {
        let (a, b) = lemma_trim_range(s.drop_last());
        assert(s.drop_last().subrange(a, b) == s.subrange(a, b));
        (a, b)
    } else {
        assert(s.subrange(0, s.len() as int) == s);
        (0, s.len() as int)
    }
}

/// A trimmed text neither begins nor ends with white space.
pub proof fn lemma_trim_ends(s: Seq<char>)
    ensures
        trim(s).len() > 0 ==> !is_space(trim(s)[0]) && !is_space(trim(s).last()),
    decreases s.len(),
{
    if s.len() == 0 {
    } else if is_space(s[0]) {
        lemma_trim_ends(s.drop_first());
    } else if is_space(s.last()) {
        lemma_trim_ends(s.drop_last());
    }
}

/// Trimming a trimmed text changes nothing.
pub proof fn lemma_trim_idempotent(s: Seq<char>)
    ensures
        trim(trim(s)) == trim(s),
{
    lemma_trim_ends(s);
}

/// White space before a text is trimmed away.
pub proof fn lemma_trim_after_space(c: char, s: Seq<char>)
    requires
        is_space(c),
    ensures
        trim(seq![c] + s) == trim(s),
{
    assert((seq![c] + s).drop_first() == s);
}

/// White space after a text is trimmed away, where the text does not begin
/// with white space.
pub proof fn lemma_trim_before_space(s: Seq<char>, c: char)
    requires
        is_space(c),
        s.len() > 0 ==> !is_space(s[0]),
    ensures
        trim(s + seq![c]) == trim(s),
{
    let t = s + seq![c];
    assert(t.drop_last() == s);
    if s.len() == 0 {
        assert(t.drop_first() == s);
    }
}

/// A match is where the characters agree.
pub proof fn lemma_matches_chars(s: Seq<char>, p: Seq<char>, i: int)
    ensures
        matches_at(s, p, i) <==> (0 <= i && i + p.len() <= s.len() && forall|k: int|
            0 <= k < p.len() ==> s[i + k] == #[trigger] p[k]),
{
    if 0 <= i && i + p.len() <= s.len() {
        let sub = s.subrange(i, i + p.len());
        if matches_at(s, p, i) {
            assert forall|k: int| 0 <= k < p.len() implies s[i + k] == #[trigger] p[k] by {
                assert(sub[k] == p[k]);
            }
        }
        if forall|k: int| 0 <= k < p.len() ==> s[i + k] == #[trigger] p[k] {
            assert(sub =~= p);
        }
    }
}

/// The first match is the one before which there is none.
pub proof fn lemma_find_is(s: Seq<char>, p: Seq<char>, k: int)
    requires
        matches_at(s, p, k),
        forall|j: int| 0 <= j < k ==> !matches_at(s, p, j),
    ensures
        find(s, p) == Some(k),
{
    lemma_find_from(s, p, 0);
}

/// What is found is the first match.
pub proof fn lemma_find_first(s: Seq<char>, p: Seq<char>)
    ensures
        match find(s, p) {
            Some(k) => matches_at(s, p, k) && forall|j: int| 0 <= j < k ==> !matches_at(s, p, j),
            None => forall|j: int| 0 <= j ==> !matches_at(s, p, j),
        },
{
    lemma_find_from(s, p, 0);
}

/// What occurs in a stretch of a text occurs in the text.
pub proof fn lemma_contains_in_range(s: Seq<char>, a: int, b: int, p: Seq<char>)
    requires
        0 <= a <= b <= s.len(),
        contains(s.subrange(a, b), p),
    ensures
        contains(s, p),
{
    let sub = s.subrange(a, b);
    lemma_contains(sub, p);
    lemma_contains(s, p);
    let j = choose|j: int| matches_at(sub, p, j);
    assert(sub.subrange(j, j + p.len()) == s.subrange(a + j, a + j + p.len()));
    assert(matches_at(s, p, a + j));
}

/// What occurs in a trimmed text occurs in the text.
pub proof fn lemma_contains_in_trim(s: Seq<char>, p: Seq<char>)
    requires
        contains(trim(s), p),
    ensures
        contains(s, p),
{
    let (a, b) = lemma_trim_range(s);
    lemma_contains_in_range(s, a, b, p);
}

/// The text that holds each of the lines followed by a line feed.
pub open spec fn text_of(ls: Seq<Seq<char>>) -> Seq<char>
    decreases ls.len(),
{
    if ls.len() == 0 {
        Seq::empty()
    } else {
        ls[0] + seq!['\n'] + text_of(ls.drop_first())
    }
}

/// Whether a text can stand as one line: it holds no line feed and does not
/// end with a carriage return.
pub open spec fn one_line(l: Seq<char>) -> bool {
    (forall|i: int| 0 <= i < l.len() ==> l[i] != '\n') && (l.len() > 0 ==> l.last() != '\r')
}

/// Where a text without line feed is followed by a line feed, the line ends
/// there.
pub proof fn lemma_line_end(l: Seq<char>, rest: Seq<char>)
    requires
        forall|i: int| 0 <= i < l.len() ==> l[i] != '\n',
    ensures
        line_end(l + seq!['\n'] + rest) == l.len(),
    decreases l.len(),
{
    let s = l + seq!['\n'] + rest;
    if l.len() == 0 {
        assert(s[0] == '\n');
    } else {
        assert(s[0] == l[0]);
        assert(s.drop_first() == l.drop_first() + seq!['\n'] + rest);
        lemma_line_end(l.drop_first(), rest);
    }
}

/// The lines of a text written line by line are those lines.
pub proof fn lemma_lines_of_text(ls: Seq<Seq<char>>)
    requires
        forall|i: int| 0 <= i < ls.len() ==> one_line(#[trigger] ls[i]),
    ensures
        lines(text_of(ls)) == ls,
    decreases ls.len(),
{
    if ls.len() == 0 {
    } else {
        let l = ls[0];
        let rest = text_of(ls.drop_first());
        let s = l + seq!['\n'] + rest;
        assert(one_line(l));
        lemma_line_end(l, rest);
        assert(s.take(l.len() as int) == l);
        assert(s.skip(l.len() as int + 1) == rest);
        assert(chomp(l) == l);
        assert forall|i: int| 0 <= i < ls.drop_first().len() implies one_line(
            #[trigger] ls.drop_first()[i],
        ) by {
            assert(ls.drop_first()[i] == ls[i + 1]);
        }
        lemma_lines_of_text(ls.drop_first());
        assert(seq![l] + ls.drop_first() == ls);
    }
}

/// A line of a text holds no line feed.
pub proof fn lemma_lines_hold_no_line_feed(s: Seq<char>)
    ensures
        forall|k: int, i: int|
            0 <= k < lines(s).len() && 0 <= i < lines(s)[k].len() ==> lines(s)[k][i] != '\n',
    decreases s.len(),
{
    if s.len() > 0 {
        let e = line_end(s);
        lemma_line_end_first(s);
        if e < 0 || e >= s.len() {
        } else {
            lemma_lines_hold_no_line_feed(s.skip(e + 1));
            let head = chomp(s.take(e));
            let tail = lines(s.skip(e + 1));
            assert forall|k: int, i: int|
                0 <= k < lines(s).len() && 0 <= i < lines(s)[k].len() implies lines(s)[k][i]
                != '\n' by {
                if k == 0 {
                    assert(lines(s)[0] == head);
                    assert(head[i] == s[i]);
                } else {
                    assert(lines(s)[k] == tail[k - 1]);
                }
            }
        }
    }
}

/// Before the end of the first line there is no line feed.
pub proof fn lemma_line_end_first(s: Seq<char>)
    ensures
        0 <= line_end(s) <= s.len(),
        forall|i: int| 0 <= i < line_end(s) ==> s[i] != '\n',
        line_end(s) < s.len() ==> s[line_end(s)] == '\n',
    decreases s.len(),
{
    if s.len() == 0 || s[0] == '\n' {
    } else {
        lemma_line_end_first(s.drop_first());
        assert forall|i: int| 0 <= i < line_end(s) implies s[i] != '\n' by {
            if i > 0 {
                assert(s[i] == s.drop_first()[i - 1]);
            }
        }
    }
}

/// The text without the quotes at its ends is a stretch of the text.
pub proof fn lemma_strip_range(s: Seq<char>) -> (r: (int, int))
    ensures
        0 <= r.0 <= r.1 <= s.len(),
        strip_quotes(s) == s.subrange(r.0, r.1),
    decreases s.len(),
{
    if s.len() == 0 {
        assert(s.subrange(0, 0) == s);
        (0, 0)
    } else if s[0] == '"' {
        let (a, b) = lemma_strip_range(s.drop_first());
        assert(s.drop_first().subrange(a, b) == s.subrange(a + 1, b + 1));
        (a + 1, b + 1)
    } else if s.last() == '"' {
        let (a, b) = lemma_strip_range(s.drop_last());
        assert(s.drop_last().subrange(a, b) == s.subrange(a, b));
        (a, b)
    } else {
        assert(s.subrange(0, s.len() as int) == s);
        (0, s.len() as int)
    }
}

/// What occurs in the beginning of a text stands in the text, within that
/// beginning.
pub proof fn lemma_match_in_prefix(s: Seq<char>, c: int, p: Seq<char>) -> (j: int)
    requires
        0 <= c <= s.len(),
        contains(s.take(c), p),
    ensures
        matches_at(s, p, j),
        j + p.len() <= c,
{
    let head = s.take(c);
    lemma_contains(head, p);
    let j = choose|j: int| matches_at(head, p, j);
    assert(head.subrange(j, j + p.len()) == s.subrange(j, j + p.len()));
    j
}

/// Writing one more line adds it, with its line feed, at the end of the
/// text.
pub proof fn lemma_text_of_push(ls: Seq<Seq<char>>, l: Seq<char>)
    ensures
        text_of(ls.push(l)) == text_of(ls) + l + seq!['\n'],
    decreases ls.len(),
{
    let all = ls.push(l);
    if ls.len() == 0 {
        assert(all.drop_first() =~= Seq::<Seq<char>>::empty());
        assert(text_of(all.drop_first()) == Seq::<char>::empty());
        assert(all[0] == l);
        assert(text_of(all) == l + seq!['\n'] + Seq::<char>::empty());
        assert(text_of(ls) == Seq::<char>::empty());
        assert(text_of(all) =~= text_of(ls) + l + seq!['\n']);
    } else {
        assert(all.drop_first() =~= ls.drop_first().push(l));
        lemma_text_of_push(ls.drop_first(), l);
        assert(all[0] == ls[0]);
        let tail = text_of(ls.drop_first());
        assert(text_of(all) == ls[0] + seq!['\n'] + (tail + l + seq!['\n']));
        assert(text_of(ls) == ls[0] + seq!['\n'] + tail);
        assert(text_of(all) =~= text_of(ls) + l + seq!['\n']);
    }
}


/// A text that does not end with white space is not trimmed to nothing.
pub proof fn lemma_trim_keeps_last(s: Seq<char>)
    requires
        s.len() > 0,
        !is_space(s.last()),
    ensures
        trim(s).len() > 0,
    decreases s.len(),
{
    if is_space(s[0]) {
        assert(s.drop_first().last() == s.last());
        lemma_trim_keeps_last(s.drop_first());
    }
}

} // verus!
