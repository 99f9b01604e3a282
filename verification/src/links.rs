//! Links between notes, and the rendering of a note's body with them.
//!
//! The body of a note is Markdown, which the `pulldown-cmark` crate turns
//! into HTML. Where it meets a reference that the text does not define, it
//! asks the notebook what the reference points to.

use crate::notebook::Notebook;
use pulldown_cmark::{html, BrokenLink, CowStr, LinkType, Options, Parser};
use vstd::prelude::*;

verus! {

/// The ways in which Markdown writes a link.
#[derive(Debug, PartialEq, Eq, Clone, Copy)]
pub enum LinkKind {
    /// `[text](destination)`
    Inline,
    /// `[text][label]`
    Reference,
    /// `[text][label]`, with a label that the text does not define
    ReferenceUnknown,
    /// `[label][]`
    Collapsed,
    /// `[label][]`, with a label that the text does not define
    CollapsedUnknown,
    /// `[label]`
    Shortcut,
    /// `[label]`, with a label that the text does not define
    ShortcutUnknown,
    /// `<http://example.org>`
    Autolink,
    /// `<someone@example.org>`
    Email,
}

/// What a reference resolves to: only a shortcut does, and only to what
/// `targets` holds for it.
pub open spec fn resolution(
    targets: Map<Seq<char>, (Seq<char>, Seq<char>)>,
    reference: Seq<char>,
    kind: LinkKind,
) -> Option<(Seq<char>, Seq<char>)> {
    if kind == LinkKind::Shortcut && targets.dom().contains(reference) {
        Some(targets[reference])
    } else {
        None
    }
}

/// The view of a destination and title.
pub open spec fn target_view(found: Option<(String, String)>) -> Option<(Seq<char>, Seq<char>)> {
    match found {
        Some((destination, title)) => Some((destination@, title@)),
        None => None,
    }
}

/// The HTML that `pulldown-cmark` writes for the Markdown `text`, read with
/// the extensions whose bits `options` holds. A reference that `text` does
/// not define is a link to the destination, with the title, that
/// `resolution` gives for it in `targets`, and plain text where it gives
/// none.
pub uninterp spec fn markdown_html(
    text: Seq<char>,
    options: u32,
    targets: Map<Seq<char>, (Seq<char>, Seq<char>)>,
) -> Seq<char>;

/// `LinkType` of `pulldown-cmark`. Nothing is known of a value of it but
/// what `link_kind` makes of it.
#[verifier::external_type_specification]
#[verifier::external_body]
pub struct ExLinkType(LinkType);

/// The kind of link that `pulldown-cmark` names by `link_type`: each
/// variant of `LinkType` is the variant of the same name.
#[verifier::external_body]
fn link_kind(link_type: LinkType) -> LinkKind {
    match link_type {
        LinkType::Inline => LinkKind::Inline,
        LinkType::Reference => LinkKind::Reference,
        LinkType::ReferenceUnknown => LinkKind::ReferenceUnknown,
        LinkType::Collapsed => LinkKind::Collapsed,
        LinkType::CollapsedUnknown => LinkKind::CollapsedUnknown,
        LinkType::Shortcut => LinkKind::Shortcut,
        LinkType::ShortcutUnknown => LinkKind::ShortcutUnknown,
        LinkType::Autolink => LinkKind::Autolink,
        LinkType::Email => LinkKind::Email,
    }
}

/// Reads `text` with `Parser::new_with_broken_link_callback`, with the
/// options that `Options::from_bits_truncate` makes of `options`, and
/// writes it with `html::push_html`. The parser asks the callback for every
/// reference that `text` does not define, and the callback answers with
/// `Notebook::resolve_link`; so the result is the HTML that `markdown_html`
/// names for the link targets of `notebook`.
#[verifier::external_body]
pub(crate) fn render(text: &str, options: u32, notebook: &Notebook) -> (out: String)
    ensures
        out@ == markdown_html(text@, options, notebook@.link_targets()),
{
    let mut resolve = |link: BrokenLink| {
        let found = notebook.resolve_link(link.reference, link_kind(link.link_type));
        found.map(|(destination, title)| (CowStr::from(destination), CowStr::from(title)))
    };
    let options = Options::from_bits_truncate(options);
    let events = Parser::new_with_broken_link_callback(text, options, Some(&mut resolve));
    let mut out = String::new();
    html::push_html(&mut out, events);
    out
}

} // verus!
