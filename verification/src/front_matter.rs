//! The header of a note: a block of `key: value` lines between two lines
//! that hold `---`, at the very top of the text.

use crate::string_map::StringMap;
use crate::text::{
    chars_of, delimiter, find, index_of, is_delimiter, is_normal, join_lines,
    lemma_normal_iff_unchanged, lines, split_lines, string_of, trim, trim_bounds, unlines, views,
};
use vstd::prelude::*;

verus! {

/// The number of lines before the first delimiter, or the number of lines
/// where none of them is one.
pub open spec fn header_len(ls: Seq<Seq<char>>) -> nat
    decreases ls.len(),
{
    if ls.len() == 0 || ls[0] == delimiter() {
        0
    } else {
        1 + header_len(ls.skip(1))
    }
}

/// Whether the first line of `text` is the delimiter.
pub open spec fn has_header(text: Seq<char>) -> bool {
    lines(text).len() > 0 && lines(text)[0] == delimiter()
}

/// The lines between the opening delimiter and the next one, or all the
/// lines after the opening delimiter where no other follows. Empty where
/// the text has no header.
pub open spec fn header_lines(text: Seq<char>) -> Seq<Seq<char>> {
    if has_header(text) {
        let rest = lines(text).skip(1);
        rest.take(header_len(rest) as int)
    } else {
        Seq::empty()
    }
}

/// The lines after the closing delimiter; none where the header is not
/// closed; all the lines where the text has no header.
pub open spec fn body_lines(text: Seq<char>) -> Seq<Seq<char>> {
    if has_header(text) {
        let rest = lines(text).skip(1);
        if header_len(rest) < rest.len() {
            rest.skip(header_len(rest) as int + 1)
        } else {
            Seq::empty()
        }
    } else {
        lines(text)
    }
}

/// The text without its header: the body lines, each followed by a line
/// feed.
pub open spec fn body(text: Seq<char>) -> Seq<char> {
    unlines(body_lines(text))
}

/// `header_len` is the position of the first delimiter.
pub proof fn lemma_header_len(ls: Seq<Seq<char>>, n: int)
    requires
        0 <= n <= ls.len(),
        forall|i: int| 0 <= i < n ==> ls[i] != delimiter(),
        n == ls.len() || ls[n] == delimiter(),
    ensures
        header_len(ls) == n,
    decreases n,
{
    if n > 0 {
        lemma_header_len(ls.skip(1), n - 1);
    }
}

/// A text that opens with the delimiter and holds another one has the
/// lines between the two as its header, and as its body the lines after the
/// second, each followed by a line feed.
pub proof fn lemma_closed_header(
    text: Seq<char>,
    interior: Seq<Seq<char>>,
    remainder: Seq<Seq<char>>,
)
    requires
        lines(text) == seq![delimiter()] + interior + seq![delimiter()] + remainder,
        forall|i: int| 0 <= i < interior.len() ==> interior[i] != delimiter(),
    ensures
        header_lines(text) == interior,
        body_lines(text) == remainder,
        body(text) == unlines(remainder),
{
    let rest = lines(text).skip(1);
    lemma_header_len(rest, interior.len() as int);
}

/// A text that opens with the delimiter and holds no other one has all the
/// lines after it as its header, and an empty body.
pub proof fn lemma_open_header(text: Seq<char>, rest: Seq<Seq<char>>)
    requires
        lines(text) == seq![delimiter()] + rest,
        forall|i: int| 0 <= i < rest.len() ==> rest[i] != delimiter(),
    ensures
        header_lines(text) == rest,
        body(text) == Seq::<char>::empty(),
{
    assert(lines(text).skip(1) == rest);
    lemma_header_len(rest, rest.len() as int);
}

/// A text whose first line is not the delimiter has no header, and its
/// body is the text with a line feed after each of its lines. That is the
/// text itself exactly where the text is normal: where each of its lines
/// ends in a line feed that no carriage return precedes.
pub proof fn lemma_no_header(text: Seq<char>)
    requires
        !has_header(text),
    ensures
        header_lines(text) == Seq::<Seq<char>>::empty(),
        body(text) == unlines(lines(text)),
        body(text) == text <==> is_normal(text),
{
    lemma_normal_iff_unchanged(text);
}

/// Takes the header off `input` and returns its lines. What stays in
/// `input` is the body, each of its lines followed by a line feed.
pub fn strip_yaml(input: &mut String) -> (header: Vec<String>)
    ensures
        views(header@) == header_lines(old(input)@),
        final(input)@ == body(old(input)@),
{
    let ghost text = input@;
    let mut all = split_lines(input.as_str());
    if all.len() > 0 && is_delimiter(all[0].as_str()) {
        let mut header = all.split_off(1);
        let ghost rest = views(header@);
        assert(rest == lines(text).skip(1));
        let mut n: usize = 0;
        while n < header.len() && !is_delimiter(header[n].as_str())
            invariant
                n <= header.len(),
                forall|i: int| 0 <= i < n ==> views(header@)[i] != delimiter(),
            decreases header.len() - n,
        {
            n += 1;
        }
        proof {
            lemma_header_len(rest, n as int);
        }
        if n < header.len() {
            let after = header.split_off(n + 1);
            header.pop();
            assert(views(after@) == rest.skip(n + 1));
            *input = join_lines(&after);
        } else {
            *input = String::new();
        }
        header
    } else {
        *input = join_lines(&all);
        Vec::new()
    }
}

/// The key and the value of a header line: what stands before its first
/// colon and what stands after it, both trimmed. `None` for a line without
/// a colon.
pub open spec fn split_pair(line: Seq<char>) -> Option<(Seq<char>, Seq<char>)> {
    let at = index_of(line, ':') as int;
    if at < line.len() {
        Some((trim(line.take(at)), trim(line.skip(at + 1))))
    } else {
        None
    }
}

/// The map that header lines stand for. Lines without a colon are left
/// out; where a key comes twice, the later line counts.
pub open spec fn pairs(lines: Seq<Seq<char>>) -> Map<Seq<char>, Seq<char>>
    decreases lines.len(),
{
    if lines.len() == 0 {
        Map::empty()
    } else {
        let before = pairs(lines.drop_last());
        match split_pair(lines.last()) {
            Some((key, value)) => before.insert(key, value),
            None => before,
        }
    }
}

/// The metadata of a note: a map from keys to values.
#[derive(Debug)]
pub struct Metadata {
    entries: StringMap<String>,
}

impl View for Metadata {
    type V = Map<Seq<char>, Seq<char>>;

    closed spec fn view(&self) -> Map<Seq<char>, Seq<char>> {
        self.entries@.map_values(|value: String| value@)
    }
}

impl Metadata {
    /// The keys, in the order in which they first came in.
    pub closed spec fn keys(&self) -> Seq<Seq<char>> {
        self.entries.keys()
    }

    /// Metadata without any key.
    pub fn new() -> (out: Self)
        ensures
            out@ == Map::<Seq<char>, Seq<char>>::empty(),
            out.keys() == Seq::<Seq<char>>::empty(),
    {
        let out = Metadata { entries: StringMap::new() };
        out
    }

    /// The number of keys.
    pub fn len(&self) -> (n: usize)
        ensures
            self@.dom().finite(),
            n == self@.dom().len(),
            n == self.keys().len(),
    {
        assert(self@.dom() =~= self.entries@.dom());
        self.entries.len()
    }

    /// Whether `key` has a value.
    pub fn contains_key(&self, key: &str) -> (found: bool)
        ensures
            found == self@.dom().contains(key@),
    {
        self.entries.contains_key(key)
    }

    /// The value of `key`.
    pub fn get(&self, key: &str) -> (value: Option<&String>)
        ensures
            value is Some == self@.dom().contains(key@),
            value matches Some(v) ==> v@ == self@[key@],
    {
        self.entries.get(key)
    }

    /// The `i`-th key in the order in which the keys first came in.
    pub fn key_at(&self, i: usize) -> (key: &String)
        requires
            i < self.keys().len(),
        ensures
            key@ == self.keys()[i as int],
    {
        self.entries.key_at(i)
    }

    /// Gives `key` the value `value` and returns the value it had.
    pub fn insert(&mut self, key: String, value: String) -> (before: Option<String>)
        ensures
            final(self)@ == old(self)@.insert(key@, value@),
            before is Some == old(self)@.dom().contains(key@),
            before matches Some(v) ==> v@ == old(self)@[key@],
            final(self).keys() == if old(self)@.dom().contains(key@) {
                old(self).keys()
            } else {
                old(self).keys().push(key@)
            },
    {
        let before = self.entries.insert(key, value);
        before
    }

    /// Takes `key` out and returns the value it had.
    pub fn remove(&mut self, key: &str) -> (value: Option<String>)
        ensures
            final(self)@ == old(self)@.remove(key@),
            value is Some == old(self)@.dom().contains(key@),
            value matches Some(v) ==> v@ == old(self)@[key@],
    {
        let value = self.entries.remove(key);
        value
    }
}

/// Splits a header line at its first colon.
pub fn split_line(line: &str) -> (pair: Option<(String, String)>)
    ensures
        match pair {
            Some((key, value)) => split_pair(line@) == Some((key@, value@)),
            None => split_pair(line@) is None,
        },
{
    let chars = chars_of(line);
    let end = chars.len();
    assert(chars@.subrange(0, end as int) == chars@);
    let at = find(&chars, 0, end, ':');
    if at == end {
        None
    } else {
        let key = trim_bounds(&chars, 0, at);
        let value = trim_bounds(&chars, at + 1, end);
        Some((string_of(&chars, key.0, key.1), string_of(&chars, value.0, value.1)))
    }
}

/// Reads header lines into metadata.
pub fn split_yaml_pairs(input: &[String]) -> (output: Metadata)
    ensures
        output@ == pairs(views(input@)),
{
    let mut output = Metadata::new();
    let mut i: usize = 0;
    while i < input.len()
        invariant
            i <= input.len(),
            output@ == pairs(views(input@).take(i as int)),
        decreases input.len() - i,
    {
        proof {
            let next = views(input@).take(i + 1);
            assert(next.drop_last() == views(input@).take(i as int));
        }
        match split_line(input[i].as_str()) {
            Some((key, value)) => {
                output.insert(key, value);
            },
            None => {},
        }
        i += 1;
    }
    assert(views(input@).take(i as int) == views(input@));
    output
}

} // verus!
