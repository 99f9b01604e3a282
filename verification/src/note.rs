//! A note: a file of the notebook with its title and metadata.

use crate::front_matter::{body, header_lines, pairs, split_yaml_pairs, strip_yaml, Metadata};
use crate::paths::{file_stem, stem};
use crate::text::{first_line, lines, strip_start};
use vstd::prelude::*;

verus! {

/// The key whose value is a note's title.
pub const TITLE_KEY: &'static str = "title";

/// What a heading of the first level starts with.
pub const HEADING_MARK: &'static str = "# ";

/// The metadata of a note with the contents `contents`: the pairs of its
/// header, without the title.
pub open spec fn note_metadata(contents: Seq<char>) -> Map<Seq<char>, Seq<char>> {
    pairs(header_lines(contents)).remove(TITLE_KEY@)
}

/// The title of the note at `path` with the contents `contents`: the title
/// of its header; without one, the first line of its body where that is a
/// heading of the first level, without the mark; else the stem of its file
/// name.
pub open spec fn note_title(path: Seq<char>, contents: Seq<char>) -> Seq<char> {
    let header = pairs(header_lines(contents));
    let text = lines(body(contents));
    if header.dom().contains(TITLE_KEY@) {
        header[TITLE_KEY@]
    } else if text.len() > 0 && HEADING_MARK@.is_prefix_of(text[0]) {
        text[0].skip(HEADING_MARK@.len() as int)
    } else {
        file_stem(path)
    }
}

/// A note of the notebook.
#[derive(Debug)]
pub struct Note {
    /// The full path of the note's file.
    pub path: String,
    /// The pairs of the header, but for the title.
    pub metadata: Metadata,
    pub title: String,
}

impl Note {
    /// Whether the note is what `contents` makes of the file at `path`.
    pub open spec fn is_read_from(&self, path: Seq<char>, contents: Seq<char>) -> bool {
        &&& self.path@ == path
        &&& self.metadata@ == note_metadata(contents)
        &&& self.title@ == note_title(path, contents)
    }

    /// The note at `path`, whose file holds `contents`.
    pub fn open(path: &str, contents: &str) -> (note: Self)
        ensures
            note.is_read_from(path@, contents@),
    {
        let mut note = Note {
            path: path.to_owned(),
            metadata: Metadata::new(),
            title: String::new(),
        };
        note.read(contents);
        note
    }

    /// Reads the note anew from `contents`, which its file now holds, and
    /// returns the body. Title and metadata are those of `contents`; what
    /// the note held before is gone.
    pub fn read(&mut self, contents: &str) -> (text: String)
        ensures
            text@ == body(contents@),
            final(self).is_read_from(old(self).path@, contents@),
    {
        let mut text = contents.to_owned();
        let mut metadata = split_yaml_pairs(strip_yaml(&mut text).as_slice());
        let title = match metadata.remove(TITLE_KEY) {
            Some(title) => title,
            None => {
                let heading = match first_line(text.as_str()) {
                    Some(line) => strip_start(line.as_str(), HEADING_MARK),
                    None => None,
                };
                match heading {
                    Some(heading) => heading,
                    None => stem(self.path.as_str()),
                }
            },
        };
        self.metadata = metadata;
        self.title = title;
        text
    }
}

} // verus!
