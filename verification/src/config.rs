//! The configuration of a notebook: `key: value` lines that give its title,
//! its directory and the directory of its documents.

use crate::front_matter::{pairs, split_yaml_pairs};
use crate::text::{lines, split_lines};
use vstd::prelude::*;

verus! {

/// A key that the configuration must hold.
#[derive(Debug, PartialEq, Eq, Clone, Copy)]
pub enum Field {
    /// `title`: the title of the notebook.
    Title,
    /// `path`: the directory that holds the notes.
    Path,
    /// `outdir`: the directory that the documents go to, seen from `path`.
    Outdir,
}

impl Field {
    /// The key as it is written.
    pub open spec fn key(self) -> Seq<char> {
        match self {
            Field::Title => "title"@,
            Field::Path => "path"@,
            Field::Outdir => "outdir"@,
        }
    }

    /// The key as it is written.
    pub fn name(&self) -> (out: &'static str)
        ensures
            out@ == self.key(),
    {
        match self {
            Field::Title => "title",
            Field::Path => "path",
            Field::Outdir => "outdir",
        }
    }
}

/// What a configuration says of a notebook.
#[derive(Debug, PartialEq, Eq)]
pub struct Config {
    pub title: String,
    pub path: String,
    pub outdir: String,
}

/// The first of `title`, `path` and `outdir` that `fields` does not hold.
pub open spec fn missing(fields: Map<Seq<char>, Seq<char>>) -> Option<Field> {
    if !fields.dom().contains(Field::Title.key()) {
        Some(Field::Title)
    } else if !fields.dom().contains(Field::Path.key()) {
        Some(Field::Path)
    } else if !fields.dom().contains(Field::Outdir.key()) {
        Some(Field::Outdir)
    } else {
        None
    }
}

/// Reads the configuration that `text` holds. It fails with the first of
/// `title`, `path` and `outdir` that no line of `text` gives.
pub fn read_config(text: &str) -> (config: Result<Config, Field>)
    ensures
        match config {
            Ok(config) => {
                let fields = pairs(lines(text@));
                &&& missing(fields) is None
                &&& config.title@ == fields[Field::Title.key()]
                &&& config.path@ == fields[Field::Path.key()]
                &&& config.outdir@ == fields[Field::Outdir.key()]
            },
            Err(field) => missing(pairs(lines(text@))) == Some(field),
        },
{
    proof {
        reveal_strlit("title");
        reveal_strlit("path");
        reveal_strlit("outdir");
        assert("title"@.len() == 5 && "path"@.len() == 4 && "outdir"@.len() == 6);
    }
    let mut fields = split_yaml_pairs(split_lines(text).as_slice());
    let title = match fields.remove("title") {
        Some(title) => title,
        None => {
            return Err(Field::Title);
        },
    };
    let path = match fields.remove("path") {
        Some(path) => path,
        None => {
            return Err(Field::Path);
        },
    };
    let outdir = match fields.remove("outdir") {
        Some(outdir) => outdir,
        None => {
            return Err(Field::Outdir);
        },
    };
    Ok(Config { title, path, outdir })
}

} // verus!
