//! Turning image bytes into inline `data:` URLs, and the error graphic that
//! stands in for an image that cannot be read.
use vstd::prelude::*;
use vstd::utf8::encode_utf8;

verus! {

/// What the standard, padded base64 encoding makes of `data`.
pub uninterp spec fn base64_of(data: Seq<u8>) -> Seq<char>;

/// The MIME type that the extension of `path` suggests first, if any.
pub uninterp spec fn guessed_mime(path: Seq<char>) -> Option<Seq<char>>;

/// A character of the standard base64 alphabet, or the padding `'='`.
pub open spec fn is_base64_char(c: char) -> bool {
    ('A' <= c && c <= 'Z') || ('a' <= c && c <= 'z') || ('0' <= c && c <= '9') || c == '+' || c
        == '/' || c == '='
}

pub open spec fn is_base64_text(s: Seq<char>) -> bool {
    forall|i: int| 0 <= i < s.len() ==> is_base64_char(#[trigger] s[i])
}

/// Relies on `base64::engine::general_purpose::STANDARD.encode`: the padded
/// standard encoding, whose characters come from the standard alphabet and
/// `'='`. (It panics only where the encoded length overflows `usize`, which no
/// slice in memory reaches.)
#[verifier::external_body]
fn base64_encode(data: &[u8]) -> (r: String)
    ensures
        r@ == base64_of(data@),
        is_base64_text(r@),
{
    base64::Engine::encode(&base64::engine::general_purpose::STANDARD, data)
}

/// Relies on `mime_guess::from_path(..).first_raw()`: the first MIME type
/// known for the extension of `path`.
#[verifier::external_body]
fn guess_mime(path: &str) -> (r: Option<String>)
    ensures
        r matches Some(m) ==> guessed_mime(path@) == Some(m@),
        r is None ==> guessed_mime(path@) is None,
{
    mime_guess::from_path(path).first_raw().map(|m| m.to_string())
}

/// `s` with the characters that are special in HTML and XML replaced by
/// their entities.
pub open spec fn html_escape(s: Seq<char>) -> Seq<char>
    decreases s.len(),
{
    if s.len() == 0 {
        seq![]
    } else {
        html_escape(s.drop_last()) + escape_char(s.last())
    }
}

pub open spec fn escape_char(c: char) -> Seq<char> {
    if c == '<' {
        "&lt;"@
    } else if c == '>' {
        "&gt;"@
    } else if c == '&' {
        "&amp;"@
    } else if c == '"' {
        "&quot;"@
    } else if c == '\'' {
        "&#x27;"@
    } else {
        seq![c]
    }
}

/// Relies on askama's `Html` escaper (through `MarkupDisplay`), which
/// replaces `<`, `>`, `&`, `"` and `'` by entities and keeps every other
/// character.
#[verifier::external_body]
fn escape_html(s: &str) -> (r: String)
    ensures
        r@ == html_escape(s@),
{
    askama::MarkupDisplay::new_unsafe(s, askama::Html).to_string()
}

/// The `data:` URL text for a MIME type and an already encoded payload.
pub open spec fn data_url_text(mime: Seq<char>, payload: Seq<char>) -> Seq<char> {
    "data:"@ + mime + ";base64,"@ + payload
}

/// The `data:` URL that carries `data` as `mime`.
pub open spec fn data_url_of(data: Seq<u8>, mime: Seq<char>) -> Seq<char> {
    data_url_text(mime, base64_of(data))
}

/// `s` reads `data:<mime>;base64,<payload>` with a base64 payload.
pub open spec fn has_data_url_shape(s: Seq<char>) -> bool {
    exists|mime: Seq<char>, payload: Seq<char>|
        s == #[trigger] data_url_text(mime, payload) && is_base64_text(payload)
}

/// Writes the `data:` URL for `mime` around a payload that is already encoded.
pub fn data_url_from_encoded(encoded: &str, mime_type: &str) -> (r: String)
    ensures
        r@ == data_url_text(mime_type@, encoded@),
{
    let mut out = String::from_str("data:");
    out.append(mime_type);
    out.append(";base64,");
    out.append(encoded);
    out
}

/// The `data:` URL that carries `data`, base64-encoded, as `mime_type`.
pub fn data_url(data: &[u8], mime_type: &str) -> (r: String)
    ensures
        r@ == data_url_of(data@, mime_type@),
        has_data_url_shape(r@),
{
    let encoded = base64_encode(data);
    let r = data_url_from_encoded(encoded.as_str(), mime_type);
    assert(r@ == data_url_text(mime_type@, encoded@) && is_base64_text(encoded@));
    r
}

/// The MIME type that the extension of `path` suggests, or `text/plain`.
pub open spec fn mime_type_of(path: Seq<char>) -> Seq<char> {
    match guessed_mime(path) {
        Some(m) => m,
        None => "text/plain"@,
    }
}

/// The MIME type for the file at `path`, guessed from its extension, with
/// `text/plain` where nothing is known of it.
pub fn mime_type_for(path: &str) -> (r: String)
    ensures
        r@ == mime_type_of(path@),
{
    match guess_mime(path) {
        Some(m) => m,
        None => String::from_str("text/plain"),
    }
}

/// The error graphic: a fixed SVG picture that shows `text` on a ground of
/// colour `fill`.
pub struct SvgTemplate {
    pub fill: String,
    pub text: String,
}

/// The SVG source of the error graphic; both parameters are escaped.
pub open spec fn svg_text(fill: Seq<char>, text: Seq<char>) -> Seq<char> {
    "<svg xmlns=\"http://www.w3.org/2000/svg\" width=\"400\" height=\"100\" viewBox=\"0 0 400 100\"><rect width=\"100%\" height=\"100%\" fill=\""@
        + html_escape(fill)
        + "\"/><text x=\"50%\" y=\"50%\" dominant-baseline=\"middle\" text-anchor=\"middle\" font-family=\"sans-serif\" font-size=\"20\" fill=\"white\">"@
        + html_escape(text) + "</text></svg>"@
}

impl SvgTemplate {
    /// The SVG source of this graphic.
    pub fn render(&self) -> (r: String)
        ensures
            r@ == svg_text(self.fill@, self.text@),
    {
        let mut out = String::from_str(
            "<svg xmlns=\"http://www.w3.org/2000/svg\" width=\"400\" height=\"100\" viewBox=\"0 0 400 100\"><rect width=\"100%\" height=\"100%\" fill=\"",
        );
        let fill = escape_html(self.fill.as_str());
        out.append(fill.as_str());
        out.append(
            "\"/><text x=\"50%\" y=\"50%\" dominant-baseline=\"middle\" text-anchor=\"middle\" font-family=\"sans-serif\" font-size=\"20\" fill=\"white\">",
        );
        let text = escape_html(self.text.as_str());
        out.append(text.as_str());
        out.append("</text></svg>");
        out
    }
}

/// The `data:` URL of the error graphic that shows `message` in `color`.
pub open spec fn message_data_url(message: Seq<char>, color: Seq<char>) -> Seq<char> {
    data_url_of(encode_utf8(svg_text(color, message)), "image/svg+xml"@)
}

/// Draws `message` on a ground of `color` as an SVG picture and returns it as
/// an `image/svg+xml` data URL.
pub fn generate_message_data_url(message: &str, color: &str) -> (r: String)
    ensures
        r@ == message_data_url(message@, color@),
        has_data_url_shape(r@),
{
    let template = SvgTemplate { fill: String::from_str(color), text: String::from_str(message) };
    let svg = template.render();
    let bytes = svg.as_str().as_bytes_vec();
    data_url(bytes.as_slice(), "image/svg+xml")
}

/// What stands for an image at `path`: its bytes, where they could be read,
/// as a data URL of the type its extension suggests; else the error graphic.
pub open spec fn embedded(path: Seq<char>, contents: Option<Seq<u8>>) -> Seq<char> {
    match contents {
        Some(data) => data_url_of(data, mime_type_of(path)),
        None => message_data_url("Disk error."@, "red"@),
    }
}

/// The bytes that an optional read holds.
pub open spec fn bytes_of(contents: Option<Vec<u8>>) -> Option<Seq<u8>> {
    match contents {
        Some(v) => Some(v@),
        None => None,
    }
}

/// Embeds the image at `path` given the outcome of reading it: `Some` bytes
/// become a data URL, a failed read (`None`) the red "Disk error." graphic.
/// Either way the result is a data URL.
pub fn embed(path: &str, contents: &Option<Vec<u8>>) -> (r: String)
    ensures
        r@ == embedded(path@, bytes_of(*contents)),
        has_data_url_shape(r@),
{
    match contents {
        Some(data) => {
            let mime = mime_type_for(path);
            data_url(data.as_slice(), mime.as_str())
        },
        None => generate_message_data_url("Disk error.", "red"),
    }
}

} // verus!
