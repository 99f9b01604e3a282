//! The notebook: the notes of a directory, by name.

use crate::compiler::{decorated, Asset, NoteCompiler, ParseOptions, ENABLE_ALL};
use crate::front_matter::{body, Metadata};
use crate::note::Note;
use crate::paths::{
    extension, extension_of, file_stem, is_absolute, join, join_paths, lemma_strip_join,
    relative_to, replace_extension, stem, strip_prefix, with_extension,
};
use crate::string_map::{distinct, StringMap};
use crate::text::equal;
use crate::links::{resolution, target_view, LinkKind};
use vstd::prelude::*;

verus! {

/// The document that a new notebook compiles its notes into.
pub const DOCUMENT_TEMPLATE: &'static str = r#"<!DOCTYPE html>
<html>
    <head>
        <title>{title} | {notebook.title}</title>

        <link rel="stylesheet" href="https://cdn.jsdelivr.net/npm/katex@0.12.0/dist/katex.min.css" integrity="sha384-AfEj0r4/OFrOo5t7NnNe46zW/tFgW6x/bCJG8FqQCEo3+Aro6EYUG4+cU+KJWu/X" crossorigin="anonymous">

        <!-- The loading of KaTeX is deferred to speed up page rendering -->
        <script defer src="https://cdn.jsdelivr.net/npm/katex@0.12.0/dist/katex.min.js" integrity="sha384-g7c+Jr9ZivxKLnZTDUhnkOnsh30B4H0rpLUpJ4jAIKs4fnJI+sEnkvrMWph2EDg4" crossorigin="anonymous"></script>

        <!-- To automatically render math in text elements, include the auto-render extension: -->
        <script defer src="https://cdn.jsdelivr.net/npm/katex@0.12.0/dist/contrib/auto-render.min.js" integrity="sha384-mll67QQFJfxn0IYznZYonOWZ644AWYC+Pt2cHqMaRhXVrursRwvLnLaebdGIlYNa" crossorigin="anonymous"></script>
        <script>
            document.addEventListener("DOMContentLoaded", function() {
                renderMathInElement(document.body, {
                    "delimiters": [
                      {left: "$$", right: "$$", display: true},
                      {left: "$", right: "$", display: false},
                      {left: "\\(", right: "\\)", display: false},
                      {left: "\\[", right: "\\]", display: true}
                    ]
                });
            });
        </script>


        {assets}
    </head>
    <body>
        {content}
    </body>
</html>"#;

/// The directory that a new notebook sends its documents to.
pub const DEFAULT_OUTDIR: &'static str = "html";

/// The style sheet that the documents of a new notebook include.
pub const DEFAULT_STYLE: &'static str = "test.css";

/// The extension of a note's file.
pub const NOTE_EXTENSION: &'static str = "md";

/// The extension of a document's file.
pub const DOCUMENT_EXTENSION: &'static str = "html";

/// The title that a link to a note carries.
pub const LINK_TITLE: &'static str = "wikilink";

/// The view of a notebook.
pub struct NotebookView {
    pub title: Seq<char>,
    /// The directory that holds the notes.
    pub basedir: Seq<char>,
    /// The directory that the documents go to, seen from `basedir`.
    pub outdir: Seq<char>,
    /// The paths that a scan passes over.
    pub ignore: Seq<Seq<char>>,
    /// What turns the notes into documents.
    pub compiler: NoteCompiler,
    /// The notes, by name.
    pub notes: Map<Seq<char>, Note>,
    /// The names of the notes, in the order in which they were added.
    pub names: Seq<Seq<char>>,
}

impl NotebookView {
    /// The path of the document of the note `name`, seen from the output
    /// directory: the note's path below `basedir`, with the extension
    /// `html`. None for a name without a note and for a note that does not
    /// lie below `basedir`.
    pub open spec fn document(self, name: Seq<char>) -> Option<Seq<char>> {
        if self.notes.dom().contains(name) {
            match strip_prefix(self.notes[name].path@, self.basedir) {
                Some(path) => Some(with_extension(path, DOCUMENT_EXTENSION@)),
                None => None,
            }
        } else {
            None
        }
    }

    /// Where a reference to each note leads: to the note's document, with
    /// the title that marks a link between notes.
    pub open spec fn link_targets(self) -> Map<Seq<char>, (Seq<char>, Seq<char>)> {
        Map::new(
            |name: Seq<char>| self.document(name) is Some,
            |name: Seq<char>| (self.document(name)->0, LINK_TITLE@),
        )
    }

    /// The path of the file that the document of the note `name` is
    /// written to.
    pub open spec fn output_path(self, name: Seq<char>) -> Option<Seq<char>> {
        match self.document(name) {
            Some(path) => Some(join(join(self.basedir, self.outdir), path)),
            None => None,
        }
    }

    /// The notebook after the note `note` was added under `name`: the first
    /// note of a name stays, and a later one changes nothing.
    pub open spec fn with_note(self, name: Seq<char>, note: Note) -> NotebookView {
        if self.notes.dom().contains(name) {
            self
        } else {
            NotebookView { notes: self.notes.insert(name, note), names: self.names.push(name), ..self }
        }
    }
}

/// The name of the note at `path`: the stem of its file name.
pub open spec fn note_name(path: Seq<char>) -> Seq<char> {
    file_stem(path)
}

/// Whether the file at `path` is a note: its extension is `md`.
pub open spec fn is_note(path: Seq<char>) -> bool {
    extension(path) == Some(NOTE_EXTENSION@)
}

/// Whether the file at `path` is a note.
pub fn is_note_file(path: &str) -> (found: bool)
    ensures
        found == is_note(path@),
{
    match extension_of(path) {
        Some(ext) => equal(ext.as_str(), NOTE_EXTENSION),
        None => false,
    }
}

/// A note stays the first that was added under its name: adding another
/// under that name changes nothing.
pub proof fn lemma_first_note_stays(notebook: NotebookView, name: Seq<char>, first: Note, second: Note)
    ensures
        notebook.with_note(name, first).notes.dom().contains(name),
        notebook.with_note(name, first).with_note(name, second) == notebook.with_note(name, first),
        !notebook.notes.dom().contains(name) ==> notebook.with_note(name, first).notes[name]
            == first,
        notebook.notes.dom().contains(name) ==> notebook.with_note(name, first) == notebook,
{
}

/// A document and the file that it is written to.
#[derive(Debug, PartialEq, Eq)]
pub struct Page {
    pub path: String,
    pub html: String,
}

/// Why a note was not compiled.
#[derive(Debug, PartialEq, Eq, Clone, Copy)]
pub enum CompileError {
    /// The notebook has no note of that name.
    UnknownNote,
    /// The note does not lie below the notebook's directory.
    OutsideBasedir,
}

impl CompileError {
    /// The error in words.
    pub fn message(&self) -> (out: String)
        ensures
            out@ == match self {
                CompileError::UnknownNote => "Tried to compile an unknown note."@,
                CompileError::OutsideBasedir => "Tried to compile a note from outside the notebook."@,
            },
    {
        match self {
            CompileError::UnknownNote => "Tried to compile an unknown note.".to_owned(),
            CompileError::OutsideBasedir => "Tried to compile a note from outside the notebook.".to_owned(),
        }
    }
}

/// Where a notebook is and where its documents go.
struct NotebookConfig {
    basedir: String,
    outdir: String,
    ignore: Vec<String>,
}

/// The notes of a directory.
pub struct Notebook {
    config: NotebookConfig,
    title: String,
    compiler: NoteCompiler,
    notes: StringMap<Note>,
}

impl View for Notebook {
    type V = NotebookView;

    closed spec fn view(&self) -> NotebookView {
        NotebookView {
            title: self.title@,
            basedir: self.config.basedir@,
            outdir: self.config.outdir@,
            ignore: Seq::new(self.config.ignore@.len(), |i: int| self.config.ignore@[i]@),
            compiler: self.compiler,
            notes: self.notes@,
            names: self.notes.keys(),
        }
    }
}

impl Notebook {
    /// An empty notebook of the directory `basedir`, whose documents go to
    /// `DEFAULT_OUTDIR` below it. Its compiler reads every extension, runs
    /// no parser, fills `DOCUMENT_TEMPLATE` and includes `DEFAULT_STYLE`.
    pub fn new(title: &str, basedir: &str) -> (out: Self)
        ensures
            out@.title == title@,
            out@.basedir == basedir@,
            out@.outdir == DEFAULT_OUTDIR@,
            out@.ignore == Seq::<Seq<char>>::empty(),
            out@.notes == Map::<Seq<char>, Note>::empty(),
            out@.names == Seq::<Seq<char>>::empty(),
            out@.compiler.parse_options.bits == ENABLE_ALL,
            out@.compiler.template@ == DOCUMENT_TEMPLATE@,
            out@.compiler.assets@.len() == 1,
            out@.compiler.assets@[0] is Css,
            out@.compiler.assets@[0].path() == DEFAULT_STYLE@,
            out@.compiler.parsers@.len() == 0,
    {
        let mut assets: Vec<Asset> = Vec::new();
        assets.push(Asset::Css(DEFAULT_STYLE.to_owned()));
        Notebook::with_compiler(
            title,
            basedir,
            NoteCompiler {
                parse_options: ParseOptions::all(),
                template: DOCUMENT_TEMPLATE.to_owned(),
                assets,
                parsers: Vec::new(),
            },
        )
    }

    /// An empty notebook of the directory `basedir`, whose documents go to
    /// `DEFAULT_OUTDIR` below it and are made by `compiler`.
    pub fn with_compiler(title: &str, basedir: &str, compiler: NoteCompiler) -> (out: Self)
        ensures
            out@ == (NotebookView {
                title: title@,
                basedir: basedir@,
                outdir: DEFAULT_OUTDIR@,
                ignore: Seq::empty(),
                compiler,
                notes: Map::empty(),
                names: Seq::empty(),
            }),
    {
        let out = Notebook {
            title: title.to_owned(),
            config: NotebookConfig {
                basedir: basedir.to_owned(),
                outdir: DEFAULT_OUTDIR.to_owned(),
                ignore: Vec::new(),
            },
            compiler,
            notes: StringMap::new(),
        };
        assert(out@.ignore =~= Seq::<Seq<char>>::empty());
        out
    }

    /// The title of the notebook.
    pub fn title(&self) -> (title: &String)
        ensures
            title@ == self@.title,
    {
        &self.title
    }

    /// The directory that holds the notes.
    pub fn basedir(&self) -> (basedir: &String)
        ensures
            basedir@ == self@.basedir,
    {
        &self.config.basedir
    }

    /// The compiler of the notebook.
    pub fn compiler(&self) -> (compiler: &NoteCompiler)
        ensures
            *compiler == self@.compiler,
    {
        &self.compiler
    }

    /// Sends the documents to `outdir`, a path below the notebook's
    /// directory.
    pub fn set_outdir(&mut self, outdir: &str)
        ensures
            final(self)@ == (NotebookView { outdir: outdir@, ..old(self)@ }),
    {
        self.config.outdir = outdir.to_owned();
    }

    /// Adds `ignore` to the paths that a scan passes over. Paths are
    /// compared as they are written: the caller resolves them first.
    pub fn add_ignore(&mut self, ignore: &str)
        ensures
            final(self)@ == (NotebookView { ignore: old(self)@.ignore.push(ignore@), ..old(self)@ }),
    {
        self.config.ignore.push(ignore.to_owned());
        assert(self@.ignore =~= old(self)@.ignore.push(ignore@));
    }

    /// Whether a scan passes over `path`.
    pub fn is_ignored(&self, path: &str) -> (found: bool)
        ensures
            found == self@.ignore.contains(path@),
    {
        let mut i: usize = 0;
        while i < self.config.ignore.len()
            invariant
                i <= self.config.ignore.len(),
                forall|j: int| 0 <= j < i ==> self@.ignore[j] != path@,
            decreases self.config.ignore.len() - i,
        {
            if equal(self.config.ignore[i].as_str(), path) {
                assert(self@.ignore[i as int] == path@);
                return true;
            }
            i += 1;
        }
        false
    }

    /// The note of the name `note_name`.
    pub fn get(&self, note_name: &str) -> (note: Option<&Note>)
        ensures
            note is Some == self@.notes.dom().contains(note_name@),
            note matches Some(found) ==> *found == self@.notes[note_name@],
    {
        self.notes.get(note_name)
    }

    /// The note of the name `note_name`, to be changed in place.
    pub fn get_mut(&mut self, note_name: &str) -> (note: Option<&mut Note>)
        ensures
            note is Some == old(self)@.notes.dom().contains(note_name@),
            match note {
                Some(found) => *found == old(self)@.notes[note_name@] && final(self)@ == (
                NotebookView {
                    notes: old(self)@.notes.insert(note_name@, *final(found)),
                    ..old(self)@
                }),
                None => final(self)@ == old(self)@,
            },
    {
        self.notes.get_mut(note_name)
    }

    /// The number of notes. Each note has one name, and `names` lists
    /// each name once.
    pub fn len(&self) -> (n: usize)
        ensures
            n == self@.names.len(),
            self@.notes.dom().finite(),
            n == self@.notes.dom().len(),
            distinct(self@.names),
            forall|name: Seq<char>| self@.notes.dom().contains(name) <==> self@.names.contains(name),
    {
        let n = self.notes.len();
        proof {
            self.notes.lemma_keys();
        }
        n
    }

    /// The name of the `i`-th note, in the order in which the notes were
    /// added.
    pub fn name_at(&self, i: usize) -> (name: &String)
        requires
            i < self@.names.len(),
        ensures
            name@ == self@.names[i as int],
    {
        self.notes.key_at(i)
    }

    /// The path of `filename`, a path below the notebook's directory.
    pub fn path_of(&self, filename: &str) -> (path: String)
        ensures
            path@ == join(self@.basedir, filename@),
    {
        join_paths(self.config.basedir.as_str(), filename)
    }

    /// Adds the note at `path`, whose file holds `contents`, under the stem
    /// of its file name. Where the notebook has a note of that name
    /// already, it stays as it is. Returns the note of that name.
    pub fn add_abs(&mut self, path: &str, contents: &str) -> (note: &Note)
        ensures
            exists|added: Note| #[trigger]
                added.is_read_from(path@, contents@) && final(self)@ == old(self)@.with_note(
                    note_name(path@),
                    added,
                ),
            final(self)@.notes.dom().contains(note_name(path@)),
            *note == final(self)@.notes[note_name(path@)],
    {
        let note = Note::open(path, contents);
        let at = self.notes.find_or_insert(stem(path), note);
        self.notes.value_at(at)
    }

    /// Adds the note at `filename`, a path below the notebook's directory,
    /// whose file holds `contents`.
    pub fn add(&mut self, filename: &str, contents: &str) -> (note: &Note)
        ensures
            exists|added: Note| #[trigger]
                added.is_read_from(join(old(self)@.basedir, filename@), contents@) && final(self)@
                    == old(self)@.with_note(note_name(join(old(self)@.basedir, filename@)), added),
            final(self)@.notes.dom().contains(note_name(join(old(self)@.basedir, filename@))),
            *note == final(self)@.notes[note_name(join(old(self)@.basedir, filename@))],
            !is_absolute(filename@) && !old(self)@.notes.dom().contains(
                note_name(join(old(self)@.basedir, filename@)),
            ) ==> final(self)@.document(note_name(join(old(self)@.basedir, filename@))) == Some(
                with_extension(filename@, DOCUMENT_EXTENSION@),
            ),
    {
        proof {
            if !is_absolute(filename@) {
                lemma_strip_join(self@.basedir, filename@);
            }
        }
        let path = self.path_of(filename);
        self.add_abs(path.as_str(), contents)
    }

    /// The path of the document of the note `note_name`, seen from the
    /// output directory.
    pub fn document(&self, note_name: &str) -> (path: Option<String>)
        ensures
            match path {
                Some(path) => self@.document(note_name@) == Some(path@),
                None => self@.document(note_name@) is None,
            },
    {
        match self.notes.get(note_name) {
            Some(note) => match relative_to(note.path.as_str(), self.config.basedir.as_str()) {
                Some(path) => Some(replace_extension(path.as_str(), DOCUMENT_EXTENSION)),
                None => None,
            },
            None => None,
        }
    }

    /// The path of the file that the document of the note `note_name` is
    /// written to.
    pub fn output_path(&self, note_name: &str) -> (path: Option<String>)
        ensures
            match path {
                Some(path) => self@.output_path(note_name@) == Some(path@),
                None => self@.output_path(note_name@) is None,
            },
    {
        match self.document(note_name) {
            Some(path) => {
                let outdir = join_paths(self.config.basedir.as_str(), self.config.outdir.as_str());
                Some(join_paths(outdir.as_str(), path.as_str()))
            },
            None => None,
        }
    }

    /// Compiles the note `note_name`, whose file now holds `contents`, to a
    /// document that includes `assets`. The note is read anew from
    /// `contents`: the notebook then holds its new title and metadata, and
    /// the document shows the new title.
    pub fn compile_note(&mut self, note_name: &str, contents: &str, assets: &str) -> (page: Result<
        Page,
        CompileError,
    >)
        ensures
            match page {
                Ok(page) => {
                    let before = old(self)@.notes[note_name@];
                    let after = final(self)@.notes[note_name@];
                    &&& old(self)@.notes.dom().contains(note_name@)
                    &&& after.is_read_from(before.path@, contents@)
                    &&& final(self)@ == (NotebookView {
                        notes: old(self)@.notes.insert(note_name@, after),
                        ..old(self)@
                    })
                    &&& old(self)@.output_path(note_name@) == Some(page.path@)
                    &&& page.html@ == decorated(
                        old(self)@.compiler.template@,
                        after.title@,
                        old(self)@.title,
                        assets@,
                        old(self)@.compiler.html(body(contents@), old(self)@.link_targets()),
                    )
                },
                Err(CompileError::UnknownNote) => {
                    &&& !old(self)@.notes.dom().contains(note_name@)
                    &&& final(self)@ == old(self)@
                },
                Err(CompileError::OutsideBasedir) => {
                    &&& old(self)@.notes.dom().contains(note_name@)
                    &&& old(self)@.output_path(note_name@) is None
                    &&& final(self)@ == old(self)@
                },
            },
    {
        let source = match self.notes.get(note_name) {
            Some(note) => note.path.clone(),
            None => {
                return Err(CompileError::UnknownNote);
            },
        };
        let path = match self.output_path(note_name) {
            Some(path) => path,
            None => {
                return Err(CompileError::OutsideBasedir);
            },
        };
        let mut note = Note { path: source, metadata: Metadata::new(), title: String::new() };
        let text = note.read(contents);
        let html = self.compiler.to_decorated_html(&note, text.as_str(), &*self, assets);
        self.notes.insert(note_name.to_owned(), note);
        Ok(Page { path, html })
    }

    /// What the reference `reference`, written as a link of the kind
    /// `kind`, points to: destination and title. Only a shortcut that names
    /// a note resolves; it leads to the document of the note.
    pub fn resolve_link(&self, reference: &str, kind: LinkKind) -> (found: Option<(String, String)>)
        ensures
            target_view(found) == resolution(self@.link_targets(), reference@, kind),
    {
        match kind {
            LinkKind::Shortcut => match self.document(reference) {
                Some(path) => Some((path, LINK_TITLE.to_owned())),
                None => None,
            },
            _ => None,
        }
    }
}

} // verus!
