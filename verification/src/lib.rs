//! Notes in plain text, compiled to HTML.
//!
//! A notebook is a directory of Markdown files. A note may open with a
//! header of `key: value` lines, may hold flashcards, and may point to other
//! notes by their names, in square brackets. The library reads the header,
//! replaces the flashcards by their rendered form, resolves the links and
//! fills the template of a document. It reads and writes no file: it takes
//! the contents of a file and returns the contents of another.

pub mod compiler;
pub mod config;
pub mod front_matter;
pub mod links;
pub mod note;
pub mod notebook;
pub mod parsers;
pub mod paths;
pub mod string_map;
pub mod text;

pub use front_matter::{split_yaml_pairs, strip_yaml};
pub use note::Note;
pub use notebook::Notebook;
