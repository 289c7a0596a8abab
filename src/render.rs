//! The document pipeline: parse Markdown, give every inline image and link
//! its new destination, and write the result as HTML.
use vstd::prelude::*;
use pulldown_cmark::{Event, LinkType, Options, Parser, Tag};
use crate::embed::{bytes_of, embed, embedded};
use crate::link::{is_url, parses_as_url, rewrite_link_classified, rewritten};
use crate::path::{join_and_canonicalize, resolve, text_of, texts};

verus! {

/// An event of a parsed document, as far as the pipeline cares: the start of
/// an inline image or an inline link, with its destination, or anything else.
pub enum Piece {
    Image(String),
    Link(String),
    Other,
}

impl View for Piece {
    /// `Some((is_image, destination))` for an inline image or link, else `None`.
    type V = Option<(bool, Seq<char>)>;

    open spec fn view(&self) -> Option<(bool, Seq<char>)> {
        match self {
            Piece::Image(d) => Some((true, d@)),
            Piece::Link(d) => Some((false, d@)),
            Piece::Other => None,
        }
    }
}

pub open spec fn pieces_view(v: Seq<Piece>) -> Seq<Option<(bool, Seq<char>)>> {
    v.map_values(|p: Piece| p@)
}

/// The events of the Markdown document `text`, parsed with every extension,
/// seen as pieces.
pub uninterp spec fn markdown_pieces(text: Seq<char>) -> Seq<Option<(bool, Seq<char>)>>;

/// The HTML of the Markdown document `text` once the destination of its
/// `i`-th event, where that is an inline image or link, is `dests[i]`.
pub uninterp spec fn markdown_html(text: Seq<char>, dests: Seq<Seq<char>>) -> Seq<char>;

/// Relies on `pulldown_cmark::Parser::new_ext` with `Options::all()`: the
/// document's events in order, inline images and links told apart from the rest.
#[verifier::external_body]
fn parse_pieces(text: &str) -> (r: Vec<Piece>)
    ensures
        pieces_view(r@) == markdown_pieces(text@),
{
    Parser::new_ext(text, Options::all()).map(|event| match event {
        Event::Start(Tag::Image { link_type: LinkType::Inline, dest_url, .. }) => Piece::Image(dest_url.to_string()),
        Event::Start(Tag::Link { link_type: LinkType::Inline, dest_url, .. }) => Piece::Link(dest_url.to_string()),
        _ => Piece::Other,
    }).collect()
}

/// Relies on `pulldown_cmark::Parser::new_ext` with `Options::all()` and
/// `pulldown_cmark::html::push_html`: the HTML of `text` with the destination
/// of each inline image or link event replaced by the entry of `dests` at that
/// event's position.
#[verifier::external_body]
fn render_html(text: &str, dests: &Vec<String>) -> (r: String)
    ensures
        r@ == markdown_html(text@, texts(dests@)),
{
    let mut events: Vec<Event> = Parser::new_ext(text, Options::all()).collect();
    for (event, new) in events.iter_mut().zip(dests.iter()) {
        if let Event::Start(Tag::Image { link_type: LinkType::Inline, dest_url, .. } | Tag::Link { link_type: LinkType::Inline, dest_url, .. }) = event {
            *dest_url = new.clone().into();
        }
    }
    let mut body = String::new();
    pulldown_cmark::html::push_html(&mut body, events.into_iter());
    body
}

/// The outcome of reading the image for the `i`-th event, where one was given.
pub open spec fn content_at(contents: Seq<Option<Vec<u8>>>, i: int) -> Option<Seq<u8>> {
    if 0 <= i < contents.len() {
        bytes_of(contents[i])
    } else {
        None
    }
}

/// The file an inline image stands for, where it is a local path and not a URL.
pub open spec fn image_target(piece: Option<(bool, Seq<char>)>, base: Seq<char>) -> Option<Seq<char>> {
    match piece {
        Some((true, d)) => if parses_as_url(d) {
            None
        } else {
            Some(resolve(d, base))
        },
        _ => None,
    }
}

/// The new destination of a piece of the document `base`: a URL is kept; a
/// local image becomes its embedded form, given what reading it gave; a local
/// link becomes a previewer address. Other events carry no destination.
pub open spec fn new_destination(
    piece: Option<(bool, Seq<char>)>,
    base: Seq<char>,
    cwd: Option<Seq<char>>,
    content: Option<Seq<u8>>,
) -> Seq<char> {
    match piece {
        Some((true, d)) => if parses_as_url(d) {
            d
        } else {
            embedded(resolve(d, base), content)
        },
        Some((false, d)) => rewritten(d, parses_as_url(d), base, cwd),
        None => seq![],
    }
}

/// The new destination of each event of the document `text` at `base`.
pub open spec fn new_destinations(
    text: Seq<char>,
    base: Seq<char>,
    cwd: Option<Seq<char>>,
    contents: Seq<Option<Vec<u8>>>,
) -> Seq<Seq<char>> {
    Seq::new(
        markdown_pieces(text).len(),
        |i: int| new_destination(markdown_pieces(text)[i], base, cwd, content_at(contents, i)),
    )
}

/// For each piece, the file to read for it: `Some` path for an inline image
/// that is a local path (resolved against the document `base`), else `None`.
pub fn images_to_read(pieces: &Vec<Piece>, base: &str) -> (r: Vec<Option<String>>)
    ensures
        r.len() == pieces.len(),
        forall|i: int|
            0 <= i < r.len() ==> text_of_string(#[trigger] r[i]) == image_target(pieces[i]@, base@),
{
    let mut out: Vec<Option<String>> = Vec::new();
    let mut i: usize = 0;
    while i < pieces.len()
        invariant
            i <= pieces.len(),
            out.len() == i,
            forall|k: int|
                0 <= k < i ==> text_of_string(#[trigger] out[k]) == image_target(pieces[k]@, base@),
        decreases pieces.len() - i,
    {
        let target = match &pieces[i] {
            Piece::Image(d) => if is_url(d.as_str()) {
                None
            } else {
                Some(join_and_canonicalize(d.as_str(), base))
            },
            _ => None,
        };
        out.push(target);
        i = i + 1;
    }
    out
}

/// The text of an optional string.
pub open spec fn text_of_string(o: Option<String>) -> Option<Seq<char>> {
    match o {
        Some(s) => Some(s@),
        None => None,
    }
}

/// The files to read for the document `text` at `base`, one entry per event
/// of the document: `Some` path for each inline image that is a local path.
pub fn image_paths(text: &str, base: &str) -> (r: Vec<Option<String>>)
    ensures
        r.len() == markdown_pieces(text@).len(),
        forall|i: int|
            0 <= i < r.len() ==> text_of_string(#[trigger] r[i]) == image_target(
                markdown_pieces(text@)[i],
                base@,
            ),
{
    let pieces = parse_pieces(text);
    let r = images_to_read(&pieces, base);
    assert forall|i: int| 0 <= i < r.len() implies text_of_string(#[trigger] r[i]) == image_target(
        markdown_pieces(text@)[i],
        base@,
    ) by {
        assert(pieces_view(pieces@)[i] == pieces@[i]@);
    }
    r
}

/// The new destination of every piece of the document `base`, given for
/// each the outcome of reading its image (`contents[i]`; missing entries
/// count as failed reads).
pub fn destinations(
    pieces: &Vec<Piece>,
    base: &str,
    cwd: Option<&str>,
    contents: &Vec<Option<Vec<u8>>>,
) -> (r: Vec<String>)
    ensures
        r.len() == pieces.len(),
        forall|i: int|
            0 <= i < r.len() ==> (#[trigger] r[i])@ == new_destination(
                pieces[i]@,
                base@,
                text_of(cwd),
                content_at(contents@, i),
            ),
{
    let mut out: Vec<String> = Vec::new();
    let none: Option<Vec<u8>> = None;
    let mut i: usize = 0;
    while i < pieces.len()
        invariant
            i <= pieces.len(),
            out.len() == i,
            none is None,
            forall|k: int|
                0 <= k < i ==> (#[trigger] out[k])@ == new_destination(
                    pieces[k]@,
                    base@,
                    text_of(cwd),
                    content_at(contents@, k),
                ),
        decreases pieces.len() - i,
    {
        let content = if i < contents.len() {
            &contents[i]
        } else {
            &none
        };
        let dest = match &pieces[i] {
            Piece::Image(d) => if is_url(d.as_str()) {
                String::from_str(d.as_str())
            } else {
                let target = join_and_canonicalize(d.as_str(), base);
                embed(target.as_str(), content)
            },
            Piece::Link(d) => {
                let url = is_url(d.as_str());
                rewrite_link_classified(d.as_str(), url, base, cwd)
            },
            Piece::Other => String::new(),
        };
        out.push(dest);
        i = i + 1;
    }
    out
}

/// The HTML body of the document `text` at `base`: every inline image and
/// link gets its new destination, `contents` holding what reading the image
/// of each event gave (see `image_paths`).
pub fn render_body(
    text: &str,
    base: &str,
    cwd: Option<&str>,
    contents: &Vec<Option<Vec<u8>>>,
) -> (r: String)
    ensures
        r@ == markdown_html(text@, new_destinations(text@, base@, text_of(cwd), contents@)),
{
    let pieces = parse_pieces(text);
    let dests = destinations(&pieces, base, cwd, contents);
    let r = render_html(text, &dests);
    assert forall|i: int| 0 <= i < texts(dests@).len() implies #[trigger] texts(dests@)[i]
        == new_destinations(text@, base@, text_of(cwd), contents@)[i] by {
        assert(pieces_view(pieces@)[i] == pieces@[i]@);
        assert(texts(dests@)[i] == dests[i]@);
    }
    assert(texts(dests@) =~= new_destinations(text@, base@, text_of(cwd), contents@));
    r
}

/// A request to render the document at `path`.
pub struct IndexParams {
    pub path: String,
}

/// What the page around a rendered document is made from.
pub struct PageTemplate {
    pub title: String,
    pub body: String,
    pub use_websocket: bool,
}

/// Renders the document `text`, read from the canonical path `path`, into the
/// parts of its page: the path as title, the HTML body, and whether the page
/// reloads itself when the file changes.
pub fn render_document(
    path: &str,
    text: &str,
    cwd: Option<&str>,
    contents: &Vec<Option<Vec<u8>>>,
    use_websocket: bool,
) -> (r: PageTemplate)
    ensures
        r.title@ == path@,
        r.use_websocket == use_websocket,
        r.body@ == markdown_html(text@, new_destinations(text@, path@, text_of(cwd), contents@)),
{
    let body = render_body(text, path, cwd, contents);
    PageTemplate { title: String::from_str(path), body, use_websocket }
}

} // verus!
