//! The compiler: from the body of a note to a whole HTML document.

use crate::links::{markdown_html, render};
use crate::note::Note;
use crate::notebook::Notebook;
use crate::parsers::{chained, run_chain, Parser};
use crate::paths::{climb, join, join_paths, way_up};
use crate::text::{replace, replace_all};
use vstd::prelude::*;

verus! {

/// A file that every document includes.
#[derive(Debug, PartialEq, Eq)]
pub enum Asset {
    /// A script, at this path below the notebook's directory.
    Js(String),
    /// A style sheet, at this path below the notebook's directory.
    Css(String),
}

impl Asset {
    /// The path of the asset.
    pub open spec fn path(&self) -> Seq<char> {
        match self {
            Asset::Js(path) => path@,
            Asset::Css(path) => path@,
        }
    }
}

/// What a tag that includes a script starts with.
pub const SCRIPT_START: &'static str = "<script src=\"";

/// What a tag that includes a script ends with.
pub const SCRIPT_END: &'static str = "\"></script>\n";

/// What a tag that includes a style sheet starts with.
pub const STYLE_START: &'static str = "<link rel=\"stylesheet\" href=\"";

/// What a tag that includes a style sheet ends with.
pub const STYLE_END: &'static str = "\">\n";

/// The tag that includes `asset`, which was found at `found`, seen from the
/// directory `base`: empty where the asset was not found; else a tag whose
/// address is the way up from the place of the asset to `base`, followed by
/// the asset's path.
pub open spec fn include_tag(asset: Asset, found: Option<Seq<char>>, base: Seq<char>) -> Seq<
    char,
> {
    match found {
        None => Seq::empty(),
        Some(place) => {
            let address = join(way_up(place, base), asset.path());
            match asset {
                Asset::Js(_) => SCRIPT_START@ + address + SCRIPT_END@,
                Asset::Css(_) => STYLE_START@ + address + STYLE_END@,
            }
        },
    }
}

/// The place of the `i`-th asset: `found[i]`, or none where `found` is too
/// short.
pub open spec fn place_of(found: Seq<Option<String>>, i: int) -> Option<Seq<char>> {
    if 0 <= i < found.len() && found[i] is Some {
        Some(found[i]->0@)
    } else {
        None
    }
}

/// The tags that include `assets`, one after the other.
pub open spec fn includes(assets: Seq<Asset>, found: Seq<Option<String>>, base: Seq<char>) -> Seq<
    char,
>
    decreases assets.len(),
{
    if assets.len() == 0 {
        Seq::empty()
    } else {
        includes(assets.drop_last(), found, base) + include_tag(
            assets.last(),
            place_of(found, assets.len() - 1),
            base,
        )
    }
}

/// What stands for the note's title in the template of a document.
pub const TITLE: &'static str = "{title}";

/// What stands for the notebook's title in the template of a document.
pub const NOTEBOOK_TITLE: &'static str = "{notebook.title}";

/// What stands for the tags that include the assets in the template of a
/// document.
pub const ASSETS: &'static str = "{assets}";

/// What stands for the note's body in the template of a document.
pub const CONTENT: &'static str = "{content}";

/// `template` with the parts of a document in place of `TITLE`,
/// `NOTEBOOK_TITLE`, `ASSETS` and `CONTENT`, put in one after the other, in
/// this order, each wherever its placeholder then stands.
pub open spec fn decorated(
    template: Seq<char>,
    title: Seq<char>,
    notebook_title: Seq<char>,
    assets: Seq<char>,
    content: Seq<char>,
) -> Seq<char> {
    replace_all(
        replace_all(
            replace_all(replace_all(template, TITLE@, title), NOTEBOOK_TITLE@, notebook_title),
            ASSETS@,
            assets,
        ),
        CONTENT@,
        content,
    )
}

/// Fills the template of a document.
pub fn decorate(
    template: &str,
    title: &str,
    notebook_title: &str,
    assets: &str,
    content: &str,
) -> (out: String)
    ensures
        out@ == decorated(template@, title@, notebook_title@, assets@, content@),
{
    let out = replace(template, TITLE, title);
    let out = replace(out.as_str(), NOTEBOOK_TITLE, notebook_title);
    let out = replace(out.as_str(), ASSETS, assets);
    replace(out.as_str(), CONTENT, content)
}

/// The bit of the extension that reads tables. Each extension has the bit
/// that `pulldown-cmark` gives to the option of the same name.
pub const ENABLE_TABLES: u32 = 2;

/// The bit of the extension that reads footnotes.
pub const ENABLE_FOOTNOTES: u32 = 4;

/// The bit of the extension that reads struck-through text.
pub const ENABLE_STRIKETHROUGH: u32 = 8;

/// The bit of the extension that reads task lists.
pub const ENABLE_TASKLISTS: u32 = 16;

/// The bit of the extension that turns quotes and dashes into their
/// typographic forms.
pub const ENABLE_SMART_PUNCTUATION: u32 = 32;

/// The bits of all the extensions.
pub const ENABLE_ALL: u32 = ENABLE_TABLES + ENABLE_FOOTNOTES + ENABLE_STRIKETHROUGH
    + ENABLE_TASKLISTS + ENABLE_SMART_PUNCTUATION;

/// The extensions of Markdown that a compiler reads, as the sum of their
/// bits. Bits that stand for no extension count for nothing.
#[derive(Debug, PartialEq, Eq, Clone, Copy)]
pub struct ParseOptions {
    pub bits: u32,
}

impl ParseOptions {
    /// No extension.
    pub fn empty() -> (out: Self)
        ensures
            out.bits == 0,
    {
        ParseOptions { bits: 0 }
    }

    /// Every extension.
    pub fn all() -> (out: Self)
        ensures
            out.bits == ENABLE_ALL,
    {
        ParseOptions { bits: ENABLE_ALL }
    }
}

/// Turns notes into HTML.
pub struct NoteCompiler {
    pub parse_options: ParseOptions,
    /// The document, with `TITLE`, `NOTEBOOK_TITLE`, `ASSETS` and `CONTENT`
    /// where these parts go.
    pub template: String,
    pub assets: Vec<Asset>,
    /// The parsers that the body passes through, in this order, before it
    /// is rendered.
    pub parsers: Vec<Box<dyn Parser>>,
}

impl NoteCompiler {
    /// What the compiler makes of the body `text` of a note of a notebook
    /// with the link targets `targets`: the HTML for what the parsers made
    /// of the text.
    pub open spec fn html(
        &self,
        text: Seq<char>,
        targets: Map<Seq<char>, (Seq<char>, Seq<char>)>,
    ) -> Seq<char> {
        markdown_html(chained(self.parsers@, text), self.parse_options.bits, targets)
    }

    /// Compiles the body `text` of a note of `notebook` to HTML.
    pub fn to_html(&self, text: &str, notebook: &Notebook) -> (out: String)
        ensures
            out@ == self.html(text@, notebook@.link_targets()),
    {
        let contents = run_chain(&self.parsers, text.to_owned());
        render(contents.as_str(), self.parse_options.bits, notebook)
    }

    /// Compiles the body `text` of `note`, a note of `notebook`, to a whole
    /// document that includes `assets`.
    pub fn to_decorated_html(
        &self,
        note: &Note,
        text: &str,
        notebook: &Notebook,
        assets: &str,
    ) -> (out: String)
        ensures
            out@ == decorated(
                self.template@,
                note.title@,
                notebook@.title,
                assets@,
                self.html(text@, notebook@.link_targets()),
            ),
    {
        let html = self.to_html(text, notebook);
        decorate(
            self.template.as_str(),
            note.title.as_str(),
            notebook.title().as_str(),
            assets,
            html.as_str(),
        )
    }

    /// The tags that include the assets in a document. `found` holds for
    /// each asset the place where its file is, or none for a file that is
    /// not there; `basedir` is the notebook's directory. Both are resolved
    /// paths.
    pub fn assets(&self, basedir: &str, found: &[Option<String>]) -> (out: String)
        ensures
            out@ == includes(self.assets@, found@, basedir@),
    {
        let mut out = String::new();
        let mut i: usize = 0;
        while i < self.assets.len()
            invariant
                i <= self.assets.len(),
                out@ == includes(self.assets@.take(i as int), found@, basedir@),
            decreases self.assets.len() - i,
        {
            proof {
                let next = self.assets@.take(i + 1);
                assert(next.drop_last() == self.assets@.take(i as int));
            }
            if i < found.len() {
                match &found[i] {
                    Some(place) => {
                        let up = climb(place.as_str(), basedir);
                        match &self.assets[i] {
                            Asset::Js(path) => {
                                out.append(SCRIPT_START);
                                out.append(join_paths(up.as_str(), path.as_str()).as_str());
                                out.append(SCRIPT_END);
                            },
                            Asset::Css(path) => {
                                out.append(STYLE_START);
                                out.append(join_paths(up.as_str(), path.as_str()).as_str());
                                out.append(STYLE_END);
                            },
                        }
                    },
                    None => {},
                }
            }
            i += 1;
        }
        assert(self.assets@.take(i as int) == self.assets@);
        out
    }
}

} // verus!
