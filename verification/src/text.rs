//! Text as sequences of characters: lines, trimming and literal replacement.
//!
//! Every function here works on `Seq<char>`, the view of `str` and `String`.
//! The executable functions read a `&str` once into a vector of characters
//! and build their results character by character.

use vstd::prelude::*;
use vstd::std_specs::iter::IteratorSpec;

verus! {

/// `String::push` of the standard library: the character is appended at the
/// end and the rest of the string stays as it was.
pub assume_specification[ String::push ](s: &mut String, c: char)
    ensures
        final(s)@ == old(s)@.push(c),
;

/// The characters of `s`.
pub fn chars_of(s: &str) -> (out: Vec<char>)
    ensures
        out@ == s@,
{
    broadcast use vstd::string::group_string_axioms;

    let mut out: Vec<char> = Vec::new();
    let mut it = s.chars();
    loop
        invariant
            it.obeys_prophetic_iter_laws(),
            it.decrease() is Some,
            out@ + it.remaining() == s@,
        ensures
            out@ == s@,
        decreases it.decrease()->0,
    {
        match it.next() {
            Some(c) => {
                out.push(c);
            },
            None => {
                break ;
            },
        }
    }
    out
}

/// The string made of `chars[from..to]`.
pub fn string_of(chars: &Vec<char>, from: usize, to: usize) -> (out: String)
    requires
        from <= to <= chars.len(),
    ensures
        out@ == chars@.subrange(from as int, to as int),
{
    let mut out = String::new();
    let mut i: usize = from;
    while i < to
        invariant
            from <= i <= to <= chars.len(),
            out@ == chars@.subrange(from as int, i as int),
        decreases to - i,
    {
        out.push(chars[i]);
        i += 1;
    }
    out
}

/// Appends `chars[from..to]` to `out`.
pub fn push_chars(out: &mut String, chars: &Vec<char>, from: usize, to: usize)
    requires
        from <= to <= chars.len(),
    ensures
        final(out)@ == old(out)@ + chars@.subrange(from as int, to as int),
{
    let mut i: usize = from;
    while i < to
        invariant
            from <= i <= to <= chars.len(),
            out@ == old(out)@ + chars@.subrange(from as int, i as int),
        decreases to - i,
    {
        out.push(chars[i]);
        i += 1;
    }
}

/// The views of a sequence of strings, in order.
pub open spec fn views(v: Seq<String>) -> Seq<Seq<char>> {
    Seq::new(v.len(), |i: int| v[i]@)
}

/// Whether `a` and `b` hold the same characters.
pub fn equal(a: &str, b: &str) -> (same: bool)
    ensures
        same == (a@ == b@),
{
    broadcast use vstd::string::group_string_axioms;

    let mut x = a.chars();
    let mut y = b.chars();
    let ghost mut seen: Seq<char> = Seq::empty();
    loop
        invariant
            x.obeys_prophetic_iter_laws(),
            y.obeys_prophetic_iter_laws(),
            x.decrease() is Some,
            seen + x.remaining() == a@,
            seen + y.remaining() == b@,
        decreases x.decrease()->0,
    {
        let ghost ys = y.remaining();
        let c = x.next();
        let d = y.next();
        match (c, d) {
            (Some(c), Some(d)) => {
                if c != d {
                    assert(b@[seen.len() as int] == ys[0]);
                    return false;
                }
                proof {
                    seen = seen.push(c);
                }
            },
            (None, None) => {
                return true;
            },
            _ => {
                return false;
            },
        }
    }
}

/// The position of the first `c` in `s`, or the length of `s` where it
/// holds none.
pub open spec fn index_of(s: Seq<char>, c: char) -> nat
    decreases s.len(),
{
    if s.len() == 0 || s[0] == c {
        0
    } else {
        1 + index_of(s.skip(1), c)
    }
}

/// The end of the longest prefix of `s` that ends in `c`: one more than the
/// position of the last `c`, or 0 where `s` holds none.
pub open spec fn after_last(s: Seq<char>, c: char) -> nat
    decreases s.len(),
{
    if s.len() == 0 {
        0
    } else if s.last() == c {
        s.len()
    } else {
        after_last(s.drop_last(), c)
    }
}

/// `index_of` is the position of the first occurrence.
pub proof fn lemma_index_of(s: Seq<char>, c: char, n: int)
    requires
        0 <= n <= s.len(),
        forall|i: int| 0 <= i < n ==> s[i] != c,
        n == s.len() || s[n] == c,
    ensures
        index_of(s, c) == n,
    decreases n,
{
    if n > 0 {
        lemma_index_of(s.skip(1), c, n - 1);
    }
}

/// `index_of` never exceeds the length, no `c` stands before it, and one
/// stands at it unless it is the length.
pub proof fn lemma_index_of_bounds(s: Seq<char>, c: char)
    ensures
        index_of(s, c) <= s.len(),
        forall|i: int| 0 <= i < index_of(s, c) ==> s[i] != c,
        index_of(s, c) < s.len() ==> s[index_of(s, c) as int] == c,
    decreases s.len(),
{
    if s.len() == 0 || s[0] == c {
    } else {
        lemma_index_of_bounds(s.skip(1), c);
        assert forall|i: int| 0 <= i < index_of(s, c) implies s[i] != c by {
            if i > 0 {
                assert(s.skip(1)[i - 1] == s[i]);
            }
        }
    }
}

/// `after_last` is the end of the last occurrence.
pub proof fn lemma_after_last(s: Seq<char>, c: char, n: int)
    requires
        0 <= n <= s.len(),
        forall|i: int| n <= i < s.len() ==> s[i] != c,
        n == 0 || s[n - 1] == c,
    ensures
        after_last(s, c) == n,
    decreases s.len() - n,
{
    if n < s.len() {
        lemma_after_last(s.drop_last(), c, n);
    }
}

/// The position of the first `c` in `chars[from..to]`, or `to`.
pub fn find(chars: &Vec<char>, from: usize, to: usize, c: char) -> (end: usize)
    requires
        from <= to <= chars.len(),
    ensures
        from <= end <= to,
        end - from == index_of(chars@.subrange(from as int, to as int), c),
{
    let mut end: usize = from;
    while end < to && chars[end] != c
        invariant
            from <= end <= to <= chars.len(),
            forall|i: int| from <= i < end ==> chars@[i] != c,
        decreases to - end,
    {
        end += 1;
    }
    proof {
        lemma_index_of(chars@.subrange(from as int, to as int), c, end - from);
    }
    end
}

/// One more than the position of the last `c` in `chars[from..to]`, or
/// `from` where there is none.
pub fn find_last(chars: &Vec<char>, from: usize, to: usize, c: char) -> (end: usize)
    requires
        from <= to <= chars.len(),
    ensures
        from <= end <= to,
        end - from == after_last(chars@.subrange(from as int, to as int), c),
{
    let mut end: usize = to;
    while end > from && chars[end - 1] != c
        invariant
            from <= end <= to <= chars.len(),
            forall|i: int| end <= i < to ==> chars@[i] != c,
        decreases end - from,
    {
        end -= 1;
    }
    proof {
        lemma_after_last(chars@.subrange(from as int, to as int), c, end - from);
    }
    end
}

/// Whether `pattern` stands in `chars` at `at`.
pub fn starts_at(chars: &Vec<char>, at: usize, pattern: &Vec<char>) -> (found: bool)
    requires
        at <= chars.len(),
    ensures
        found == pattern@.is_prefix_of(chars@.skip(at as int)),
{
    if pattern.len() > chars.len() - at {
        return false;
    }
    let mut i: usize = 0;
    while i < pattern.len()
        invariant
            i <= pattern.len() <= chars.len() - at,
            forall|j: int| 0 <= j < i ==> pattern@[j] == chars@[at + j],
        decreases pattern.len() - i,
    {
        if pattern[i] != chars[at + i] {
            return false;
        }
        i += 1;
    }
    true
}

/// What follows `prefix` in `text`, where `text` starts with it.
pub fn strip_start(text: &str, prefix: &str) -> (out: Option<String>)
    ensures
        match out {
            Some(rest) => prefix@.is_prefix_of(text@) && rest@ == text@.skip(prefix@.len() as int),
            None => !prefix@.is_prefix_of(text@),
        },
{
    let chars = chars_of(text);
    let start = chars_of(prefix);
    if starts_at(&chars, 0, &start) {
        Some(string_of(&chars, start.len(), chars.len()))
    } else {
        None
    }
}

/// `line` without the carriage return that ends it, if one does.
pub open spec fn without_cr(line: Seq<char>) -> Seq<char> {
    if line.len() > 0 && line.last() == '\r' {
        line.drop_last()
    } else {
        line
    }
}

/// The lines of `s`. A line ends at a line feed, or at a carriage return
/// directly followed by a line feed; neither belongs to the line. What
/// follows the last line feed is a line of its own unless it is empty.
pub open spec fn lines(s: Seq<char>) -> Seq<Seq<char>>
    decreases s.len(),
{
    let n = index_of(s, '\n') as int;
    if s.len() == 0 {
        Seq::empty()
    } else if n >= s.len() {
        seq![s]
    } else {
        seq![without_cr(s.take(n))] + lines(s.skip(n + 1))
    }
}

/// The lines joined into one text, with a line feed after each of them,
/// the last included.
pub open spec fn unlines(ls: Seq<Seq<char>>) -> Seq<char>
    decreases ls.len(),
{
    if ls.len() == 0 {
        Seq::empty()
    } else {
        unlines(ls.drop_last()) + ls.last().push('\n')
    }
}

/// Splits `text` into its lines.
pub fn split_lines(text: &str) -> (out: Vec<String>)
    ensures
        views(out@) == lines(text@),
{
    let chars = chars_of(text);
    let mut out: Vec<String> = Vec::new();
    let mut start: usize = 0;
    assert(chars@.skip(0) == chars@);
    while start < chars.len()
        invariant
            start <= chars.len(),
            views(out@) + lines(chars@.skip(start as int)) == lines(chars@),
        decreases chars.len() - start,
    {
        let ghost rest = chars@.skip(start as int);
        let end = find(&chars, start, chars.len(), '\n');
        if end == chars.len() {
            let line = string_of(&chars, start, end);
            out.push(line);
            start = end;
        } else {
            let stop = if end > start && chars[end - 1] == '\r' {
                end - 1
            } else {
                end
            };
            let line = string_of(&chars, start, stop);
            out.push(line);
            proof {
                let n = end - start;
                let first = without_cr(rest.take(n));
                assert(first == chars@.subrange(start as int, stop as int));
                assert(rest.skip(n + 1) == chars@.skip(end + 1));
            }
            start = end + 1;
        }
    }
    out
}

/// The first line of `text`, where it has one.
pub fn first_line(text: &str) -> (out: Option<String>)
    ensures
        match out {
            Some(line) => lines(text@).len() > 0 && line@ == lines(text@)[0],
            None => lines(text@).len() == 0,
        },
{
    let chars = chars_of(text);
    if chars.len() == 0 {
        return None;
    }
    assert(chars@.subrange(0, chars.len() as int) == chars@);
    let end = find(&chars, 0, chars.len(), '\n');
    let stop = if end < chars.len() && end > 0 && chars[end - 1] == '\r' {
        end - 1
    } else {
        end
    };
    Some(string_of(&chars, 0, stop))
}

/// Joins `lines` into one text, with a line feed after each of them.
pub fn join_lines(lines: &Vec<String>) -> (out: String)
    ensures
        out@ == unlines(views(lines@)),
{
    let mut out = String::new();
    let mut i: usize = 0;
    while i < lines.len()
        invariant
            i <= lines.len(),
            out@ == unlines(views(lines@).take(i as int)),
        decreases lines.len() - i,
    {
        proof {
            let next = views(lines@).take(i + 1);
            assert(next.drop_last() == views(lines@).take(i as int));
        }
        out.append(lines[i].as_str());
        out.push('\n');
        i += 1;
    }
    assert(views(lines@).take(i as int) == views(lines@));
    out
}

/// `unlines` of a line followed by others.
pub proof fn lemma_unlines_front(first: Seq<char>, rest: Seq<Seq<char>>)
    ensures
        unlines(seq![first] + rest) == first.push('\n') + unlines(rest),
    decreases rest.len(),
{
    let all = seq![first] + rest;
    if rest.len() == 0 {
        assert(unlines(all) == unlines(all.drop_last()) + all.last().push('\n'));
    } else {
        lemma_unlines_front(first, rest.drop_last());
        assert(all.drop_last() == seq![first] + rest.drop_last());
    }
}

/// Whether a carriage return stands at `i - 1` and a line feed at `i`.
pub open spec fn crlf_at(s: Seq<char>, i: int) -> bool {
    0 < i < s.len() && s[i - 1] == '\r' && s[i] == '\n'
}

/// Whether every line of `s` ends in a line feed that no carriage return
/// precedes: the texts that splitting and joining hands back unchanged.
pub open spec fn is_normal(s: Seq<char>) -> bool {
    &&& s.len() == 0 || s.last() == '\n'
    &&& forall|i: int| !#[trigger] crlf_at(s, i)
}

/// Splitting a normal text into lines and joining them gives the text.
pub proof fn lemma_unlines_lines(s: Seq<char>)
    requires
        is_normal(s),
    ensures
        unlines(lines(s)) == s,
    decreases s.len(),
{
    if s.len() > 0 {
        let n = index_of(s, '\n') as int;
        lemma_index_of_bounds(s, '\n');
        let first = s.take(n);
        let rest = s.skip(n + 1);
        assert(without_cr(first) == first) by {
            if n > 0 {
                assert(!crlf_at(s, n));
            }
        }
        assert(is_normal(rest)) by {
            assert forall|i: int| !#[trigger] crlf_at(rest, i) by {
                if 0 < i < rest.len() {
                    assert(!crlf_at(s, n + 1 + i));
                }
            }
        }
        lemma_unlines_lines(rest);
        lemma_unlines_front(first, lines(rest));
    }
}

/// Joined lines are no longer than the text they were split from, and
/// shorter where a carriage return stood before a line feed.
pub proof fn lemma_unlines_lines_len(s: Seq<char>)
    requires
        s.len() == 0 || s.last() == '\n',
    ensures
        unlines(lines(s)).len() <= s.len(),
        (exists|i: int| crlf_at(s, i)) ==> unlines(lines(s)).len() < s.len(),
    decreases s.len(),
{
    if s.len() > 0 {
        let n = index_of(s, '\n') as int;
        lemma_index_of_bounds(s, '\n');
        let first = s.take(n);
        let rest = s.skip(n + 1);
        lemma_unlines_lines_len(rest);
        lemma_unlines_front(without_cr(first), lines(rest));
        if exists|i: int| crlf_at(s, i) {
            let i = choose|i: int| crlf_at(s, i);
            if i > n {
                assert(crlf_at(rest, i - n - 1));
            }
        }
    }
}

/// The normal texts are those that splitting and joining hands back
/// unchanged.
pub proof fn lemma_normal_iff_unchanged(s: Seq<char>)
    ensures
        is_normal(s) <==> unlines(lines(s)) == s,
{
    if is_normal(s) {
        lemma_unlines_lines(s);
    }
    if unlines(lines(s)) == s {
        lemma_unlines_lines_len(s);
    }
}

/// The line that opens and closes a block.
pub const DELIMITER: &'static str = "---";

/// The delimiter as a sequence of characters.
pub open spec fn delimiter() -> Seq<char> {
    DELIMITER@
}

/// Whether `line` is the delimiter.
pub fn is_delimiter(line: &str) -> (found: bool)
    ensures
        found == (line@ == delimiter()),
{
    equal(line, DELIMITER)
}

/// The characters with the Unicode property `White_Space`.
pub open spec fn is_whitespace(c: char) -> bool {
    let u = c as u32;
    ||| 0x09 <= u <= 0x0D
    ||| u == 0x20
    ||| u == 0x85
    ||| u == 0xA0
    ||| u == 0x1680
    ||| 0x2000 <= u <= 0x200A
    ||| u == 0x2028
    ||| u == 0x2029
    ||| u == 0x202F
    ||| u == 0x205F
    ||| u == 0x3000
}

/// Whether `c` is white space.
pub fn whitespace(c: char) -> (b: bool)
    ensures
        b == is_whitespace(c),
{
    let u: u32 = c as u32;
    (0x09 <= u && u <= 0x0D) || u == 0x20 || u == 0x85 || u == 0xA0 || u == 0x1680 || (0x2000 <= u
        && u <= 0x200A) || u == 0x2028 || u == 0x2029 || u == 0x202F || u == 0x205F || u == 0x3000
}

/// `s` without the white space it starts with.
pub open spec fn trim_start(s: Seq<char>) -> Seq<char>
    decreases s.len(),
{
    if s.len() > 0 && is_whitespace(s[0]) {
        trim_start(s.skip(1))
    } else {
        s
    }
}

/// `s` without the white space it ends with.
pub open spec fn trim_end(s: Seq<char>) -> Seq<char>
    decreases s.len(),
{
    if s.len() > 0 && is_whitespace(s.last()) {
        trim_end(s.drop_last())
    } else {
        s
    }
}

/// `s` without the white space on either side.
pub open spec fn trim(s: Seq<char>) -> Seq<char> {
    trim_end(trim_start(s))
}

/// The bounds of `chars[from..to]` once trimmed.
pub fn trim_bounds(chars: &Vec<char>, from: usize, to: usize) -> (bounds: (usize, usize))
    requires
        from <= to <= chars.len(),
    ensures
        from <= bounds.0 <= bounds.1 <= to,
        chars@.subrange(bounds.0 as int, bounds.1 as int) == trim(
            chars@.subrange(from as int, to as int),
        ),
{
    let mut a: usize = from;
    while a < to && whitespace(chars[a])
        invariant
            from <= a <= to <= chars.len(),
            trim_start(chars@.subrange(a as int, to as int)) == trim_start(
                chars@.subrange(from as int, to as int),
            ),
        decreases to - a,
    {
        assert(chars@.subrange(a as int, to as int).skip(1) == chars@.subrange(a + 1, to as int));
        a += 1;
    }
    let mut b: usize = to;
    while b > a && whitespace(chars[b - 1])
        invariant
            a <= b <= to <= chars.len(),
            trim_end(chars@.subrange(a as int, b as int)) == trim_end(
                chars@.subrange(a as int, to as int),
            ),
        decreases b - a,
    {
        assert(chars@.subrange(a as int, b as int).drop_last() == chars@.subrange(
            a as int,
            b - 1,
        ));
        b -= 1;
    }
    (a, b)
}

/// `s` with every occurrence of `from` replaced by `to`. The occurrences
/// are found from left to right and do not overlap. An empty `from` occurs
/// before every character and at the end.
pub open spec fn replace_all(s: Seq<char>, from: Seq<char>, to: Seq<char>) -> Seq<char>
    decreases s.len(),
{
    if from.len() == 0 {
        if s.len() == 0 {
            to
        } else {
            to.push(s[0]) + replace_all(s.skip(1), from, to)
        }
    } else if from.is_prefix_of(s) {
        to + replace_all(s.skip(from.len() as int), from, to)
    } else if s.len() == 0 {
        Seq::empty()
    } else {
        seq![s[0]] + replace_all(s.skip(1), from, to)
    }
}

/// Replacing passes over a stretch that holds the first character of
/// `from` nowhere: no occurrence starts in it.
pub proof fn lemma_replace_all_skips(
    stretch: Seq<char>,
    rest: Seq<char>,
    from: Seq<char>,
    to: Seq<char>,
)
    requires
        from.len() > 0,
        forall|i: int| 0 <= i < stretch.len() ==> stretch[i] != from[0],
    ensures
        replace_all(stretch + rest, from, to) == stretch + replace_all(rest, from, to),
    decreases stretch.len(),
{
    if stretch.len() == 0 {
        assert(stretch + rest == rest);
        assert(stretch + replace_all(rest, from, to) == replace_all(rest, from, to));
    } else {
        let all = stretch + rest;
        assert(all[0] == stretch[0]);
        assert(!from.is_prefix_of(all)) by {
            if from.is_prefix_of(all) {
                assert(all.subrange(0, from.len() as int)[0] == from[0]);
            }
        }
        assert(all.skip(1) == stretch.skip(1) + rest);
        lemma_replace_all_skips(stretch.skip(1), rest, from, to);
        assert(seq![all[0]] + (stretch.skip(1) + replace_all(rest, from, to)) == stretch
            + replace_all(rest, from, to));
    }
}

/// Replacing passes over a stretch that differs from `from` in its second
/// character and holds the first character of `from` nowhere else.
pub proof fn lemma_replace_all_passes(
    stretch: Seq<char>,
    rest: Seq<char>,
    from: Seq<char>,
    to: Seq<char>,
)
    requires
        from.len() >= 2,
        stretch.len() >= 2,
        stretch[1] != from[1],
        forall|i: int| 1 <= i < stretch.len() ==> stretch[i] != from[0],
    ensures
        replace_all(stretch + rest, from, to) == stretch + replace_all(rest, from, to),
{
    let all = stretch + rest;
    assert(all[1] == stretch[1]);
    assert(!from.is_prefix_of(all)) by {
        if from.is_prefix_of(all) {
            assert(all.subrange(0, from.len() as int)[1] == from[1]);
        }
    }
    assert(all.skip(1) == stretch.skip(1) + rest);
    lemma_replace_all_skips(stretch.skip(1), rest, from, to);
    assert(seq![all[0]] + (stretch.skip(1) + replace_all(rest, from, to)) == stretch + replace_all(
        rest,
        from,
        to,
    ));
}

/// Replacing leaves a text as it is that holds the first character of
/// `from` nowhere.
pub proof fn lemma_replace_all_stays(text: Seq<char>, from: Seq<char>, to: Seq<char>)
    requires
        from.len() > 0,
        forall|i: int| 0 <= i < text.len() ==> text[i] != from[0],
    ensures
        replace_all(text, from, to) == text,
{
    lemma_replace_all_skips(text, Seq::empty(), from, to);
    assert(text + Seq::<char>::empty() == text);
}

/// An occurrence at the start is replaced, and the search goes on behind
/// it.
pub proof fn lemma_replace_all_at(rest: Seq<char>, from: Seq<char>, to: Seq<char>)
    requires
        from.len() > 0,
    ensures
        replace_all(from + rest, from, to) == to + replace_all(rest, from, to),
{
    let all = from + rest;
    assert(all.subrange(0, from.len() as int) == from);
    assert(all.skip(from.len() as int) == rest);
}

/// Where `from` stands once, behind a stretch in which no occurrence
/// starts and before a text that replacing leaves as it is, `to` takes its
/// place and nothing else changes.
pub proof fn lemma_replace_all_once(
    before: Seq<char>,
    after: Seq<char>,
    from: Seq<char>,
    to: Seq<char>,
)
    requires
        from.len() > 0,
        forall|i: int| 0 <= i < before.len() ==> before[i] != from[0],
        replace_all(after, from, to) == after,
    ensures
        replace_all(before + from + after, from, to) == before + to + after,
{
    lemma_replace_all_at(after, from, to);
    lemma_replace_all_skips(before, from + after, from, to);
    assert(before + from + after == before + (from + after));
    assert(before + to + after == before + (to + after));
}

/// Replacing leaves a text as it is that is made of a stretch in which no
/// occurrence starts, a stretch that replacing passes over, and a text that
/// replacing leaves as it is.
pub proof fn lemma_replace_all_keeps(
    before: Seq<char>,
    other: Seq<char>,
    after: Seq<char>,
    from: Seq<char>,
    to: Seq<char>,
)
    requires
        from.len() >= 2,
        forall|i: int| 0 <= i < before.len() ==> before[i] != from[0],
        other.len() >= 2,
        other[1] != from[1],
        forall|i: int| 1 <= i < other.len() ==> other[i] != from[0],
        replace_all(after, from, to) == after,
    ensures
        replace_all(before + other + after, from, to) == before + other + after,
{
    lemma_replace_all_passes(other, after, from, to);
    lemma_replace_all_skips(before, other + after, from, to);
    assert(before + other + after == before + (other + after));
}

/// `text` with every occurrence of `from` replaced by `to`.
pub fn replace(text: &str, from: &str, to: &str) -> (out: String)
    ensures
        out@ == replace_all(text@, from@, to@),
{
    let chars = chars_of(text);
    let pattern = chars_of(from);
    let mut out = String::new();
    let mut i: usize = 0;
    assert(chars@.skip(0) == chars@);
    while i < chars.len()
        invariant
            i <= chars.len(),
            pattern@ == from@,
            out@ + replace_all(chars@.skip(i as int), from@, to@) == replace_all(
                chars@,
                from@,
                to@,
            ),
        decreases chars.len() - i,
    {
        let ghost rest = chars@.skip(i as int);
        if pattern.len() == 0 {
            out.append(to);
            out.push(chars[i]);
            proof {
                assert(rest.skip(1) == chars@.skip(i + 1));
            }
            i += 1;
        } else if starts_at(&chars, i, &pattern) {
            out.append(to);
            proof {
                let n = pattern@.len() as int;
                assert(rest.skip(n) == chars@.skip(i + n));
            }
            i += pattern.len();
        } else {
            out.push(chars[i]);
            proof {
                assert(rest.skip(1) == chars@.skip(i + 1));
            }
            i += 1;
        }
    }
    if pattern.len() == 0 {
        out.append(to);
    }
    out
}

} // verus!
