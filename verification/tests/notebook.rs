use notes::compiler::{Asset, NoteCompiler, ParseOptions};
use notes::parsers::FlashcardParser;
use notes::links::LinkKind;
use notes::notebook::{is_note_file, CompileError};
use notes::Notebook;

fn target(destination: &str) -> Option<(String, String)> {
    Some((String::from(destination), String::from("wikilink")))
}

#[test]
fn new_notebook_is_empty() {
    let notebook = Notebook::new("My notes", "/home/me/notes");
    assert_eq!(notebook.title(), "My notes");
    assert_eq!(notebook.basedir(), "/home/me/notes");
    assert_eq!(notebook.len(), 0);
    assert!(notebook.get("anything").is_none());
    assert!(!notebook.is_ignored("/home/me/notes/html"));
    let compiler = notebook.compiler();
    assert_eq!(compiler.parse_options, ParseOptions::all());
    assert_eq!(compiler.assets, vec![Asset::Css(String::from("test.css"))]);
    assert!(compiler.parsers.is_empty());
    assert!(compiler.template.starts_with("<!DOCTYPE html>\n<html>\n    <head>\n        <title>{title} | {notebook.title}</title>\n"));
    assert!(compiler.template.ends_with("        {assets}\n    </head>\n    <body>\n        {content}\n    </body>\n</html>"));
    assert!(compiler.template.contains("{left: \"\\\\(\", right: \"\\\\)\", display: false},"));
    assert_eq!(compiler.template.len(), 1488);
}

#[test]
fn shortcut_to_a_note_resolves_to_its_document() {
    let mut notebook = Notebook::new("Notes", "base/");
    notebook.add_abs("base/sub/Target.md", "# Target\n");
    assert_eq!(notebook.resolve_link("Target", LinkKind::Shortcut), target("sub/Target.html"));
    assert_eq!(notebook.resolve_link("Missing", LinkKind::Shortcut), None);
    assert_eq!(notebook.resolve_link("target", LinkKind::Shortcut), None);
}

#[test]
fn only_a_shortcut_resolves() {
    let mut notebook = Notebook::new("Notes", "base");
    notebook.add("sub/Target.md", "");
    for kind in [
        LinkKind::Inline,
        LinkKind::Reference,
        LinkKind::ReferenceUnknown,
        LinkKind::Collapsed,
        LinkKind::CollapsedUnknown,
        LinkKind::ShortcutUnknown,
        LinkKind::Autolink,
        LinkKind::Email,
    ] {
        assert_eq!(notebook.resolve_link("Target", kind), None);
    }
    assert_eq!(notebook.resolve_link("Target", LinkKind::Shortcut), target("sub/Target.html"));
}

#[test]
fn note_outside_the_directory_does_not_resolve() {
    let mut notebook = Notebook::new("Notes", "/base");
    notebook.add_abs("/elsewhere/Far.md", "");
    assert!(notebook.get("Far").is_some());
    assert_eq!(notebook.resolve_link("Far", LinkKind::Shortcut), None);
    assert_eq!(notebook.document("Far"), None);
    assert_eq!(notebook.output_path("Far"), None);
}

#[test]
fn first_note_of_a_name_stays() {
    let mut notebook = Notebook::new("Notes", "base");
    assert_eq!(notebook.add_abs("base/a/Dup.md", "---\ntitle: first\n---\n").title, "first");
    assert_eq!(notebook.add_abs("base/b/Dup.md", "---\ntitle: second\n---\n").title, "first");
    assert_eq!(notebook.len(), 1);
    let note = notebook.get("Dup").unwrap();
    assert_eq!(note.path, "base/a/Dup.md");
    assert_eq!(note.title, "first");
    assert_eq!(notebook.resolve_link("Dup", LinkKind::Shortcut), target("a/Dup.html"));
}

#[test]
fn notes_are_listed_in_the_order_they_were_added() {
    let mut notebook = Notebook::new("Notes", "base");
    notebook.add("b.md", "");
    notebook.add("a.md", "");
    notebook.add("sub/b.md", "");
    notebook.add("c.txt", "");
    assert_eq!(notebook.len(), 3);
    assert_eq!(notebook.name_at(0), "b");
    assert_eq!(notebook.name_at(1), "a");
    assert_eq!(notebook.name_at(2), "c");
    assert_eq!(notebook.get("b").unwrap().path, "base/b.md");
}

#[test]
fn add_joins_the_file_name_to_the_directory() {
    let mut notebook = Notebook::new("Notes", "/home/me/notes");
    assert_eq!(notebook.path_of("sub/Note.md"), "/home/me/notes/sub/Note.md");
    let note = notebook.add("sub/Note.md", "# A title\n");
    assert_eq!(note.path, "/home/me/notes/sub/Note.md");
    assert_eq!(note.title, "A title");
    assert_eq!(notebook.document("Note"), Some(String::from("sub/Note.html")));
    assert_eq!(
        notebook.output_path("Note"),
        Some(String::from("/home/me/notes/html/sub/Note.html"))
    );
    assert_eq!(notebook.output_path("Other"), None);
}

#[test]
fn ignored_paths_are_found_again() {
    let mut notebook = Notebook::new("Notes", "/n");
    notebook.add_ignore("/n/html");
    notebook.add_ignore("/n/.git");
    assert!(notebook.is_ignored("/n/html"));
    assert!(notebook.is_ignored("/n/.git"));
    assert!(!notebook.is_ignored("/n/htm"));
    assert!(!notebook.is_ignored("/n/html/"));
    assert!(!notebook.is_ignored(""));
}

#[test]
fn notes_are_the_files_with_the_extension_md() {
    assert!(is_note_file("/n/a.md"));
    assert!(is_note_file("a.b.md"));
    assert!(!is_note_file("/n/a.MD"));
    assert!(!is_note_file("/n/a.md.bak"));
    assert!(!is_note_file("/n/md"));
    assert!(!is_note_file("/n/.md"));
    assert!(!is_note_file("/n.md/a"));
}

#[test]
fn compile_note_fills_the_document() {
    let mut notebook = Notebook::new("My notes", "/n");
    notebook.add("sub/Note.md", "---\ntitle: Old title\n---\n");
    notebook.add("Other.md", "");
    let page = notebook
        .compile_note("Note", "---\ntitle: New title\nk: v\n---\nSee [Other] and [Nothing].\n", "<assets/>")
        .unwrap();
    assert_eq!(page.path, "/n/html/sub/Note.html");
    let expected = notebook
        .compiler()
        .template
        .replace("{title}", "New title")
        .replace("{notebook.title}", "My notes")
        .replace("{assets}", "<assets/>")
        .replace(
            "{content}",
            "<p>See <a href=\"Other.html\" title=\"wikilink\">Other</a> and [Nothing].</p>\n",
        );
    assert_eq!(page.html, expected);
    assert!(page.html.contains("<title>New title | My notes</title>"));
    let note = notebook.get("Note").unwrap();
    assert_eq!(note.title, "New title");
    assert_eq!(note.path, "/n/sub/Note.md");
    assert_eq!(note.metadata.get("k").map(String::as_str), Some("v"));
    assert_eq!(notebook.name_at(0), "Note");
    assert_eq!(notebook.len(), 2);
}

#[test]
fn compile_note_of_an_unknown_note_fails() {
    let mut notebook = Notebook::new("My notes", "/n");
    notebook.add("Note.md", "");
    assert_eq!(notebook.compile_note("Missing", "text", ""), Err(CompileError::UnknownNote));
    assert_eq!(CompileError::UnknownNote.message(), "Tried to compile an unknown note.");
    assert_eq!(notebook.len(), 1);
}

#[test]
fn compile_note_of_a_note_outside_the_directory_fails() {
    let mut notebook = Notebook::new("My notes", "/n");
    notebook.add_abs("/m/Note.md", "---\ntitle: kept\n---\n");
    assert_eq!(notebook.compile_note("Note", "# changed\n", ""), Err(CompileError::OutsideBasedir));
    assert_eq!(
        CompileError::OutsideBasedir.message(),
        "Tried to compile a note from outside the notebook."
    );
    assert_eq!(notebook.get("Note").unwrap().title, "kept");
}

#[test]
fn get_mut_changes_a_note_in_place() {
    let mut notebook = Notebook::new("Notes", "/n");
    notebook.add("a.md", "");
    notebook.add("b.md", "");
    assert!(notebook.get_mut("c").is_none());
    let note = notebook.get_mut("a").unwrap();
    assert_eq!(note.title, "a");
    note.title = String::from("changed");
    note.read("---\nkey: value\n---\n# read anew\n");
    assert_eq!(notebook.get("a").unwrap().title, "read anew");
    assert_eq!(notebook.get("a").unwrap().metadata.get("key").map(String::as_str), Some("value"));
    assert_eq!(notebook.get("b").unwrap().title, "b");
    assert_eq!(notebook.name_at(0), "a");
    assert_eq!(notebook.len(), 2);
}

#[test]
fn set_outdir_moves_the_documents() {
    let mut notebook = Notebook::new("Notes", "/n");
    notebook.add("sub/Note.md", "");
    notebook.set_outdir("out/pages");
    assert_eq!(notebook.output_path("Note"), Some(String::from("/n/out/pages/sub/Note.html")));
    assert_eq!(notebook.document("Note"), Some(String::from("sub/Note.html")));
    notebook.set_outdir("/elsewhere");
    assert_eq!(notebook.output_path("Note"), Some(String::from("/elsewhere/sub/Note.html")));
}

#[test]
fn with_compiler_sets_what_makes_the_documents() {
    let compiler = NoteCompiler {
        parse_options: ParseOptions::empty(),
        template: String::from("{title}: {content}"),
        assets: Vec::new(),
        parsers: vec![Box::new(FlashcardParser::new())],
    };
    let mut notebook = Notebook::with_compiler("Notes", "/n", compiler);
    assert_eq!(notebook.title(), "Notes");
    assert_eq!(notebook.basedir(), "/n");
    assert_eq!(notebook.len(), 0);
    notebook.add("Cards.md", "");
    notebook.add("Paris.md", "");
    let page = notebook
        .compile_note("Cards", "# Cards\n\nCapital of France: [Paris] #flashcard #geo\n", "")
        .unwrap();
    assert_eq!(page.path, "/n/html/Cards.html");
    assert_eq!(
        page.html,
        "Cards: <h1>Cards</h1>\n<div class=\"flashcard\">\n<div class=\"question\">\nCapital of France\n</div>\n<div class=\"answer\">\n<p><a href=\"Paris.html\" title=\"wikilink\">Paris</a></p>\n</div>\n<div class=\"tags\">#geo</div>\n</div>\n"
    );
}
