use base64::Engine;
use tatum::embed::{data_url, data_url_from_encoded, embed, generate_message_data_url, mime_type_for, SvgTemplate};
use tatum::link::{rewrite_link, rewrite_link_classified};
use tatum::render::{destinations, image_paths, images_to_read, render_body, render_document, Piece};
use tatum::watch::{next_watch_action, WatchAction, WatchEvent};

const DOC: &str = "/notes/a/doc.md";

fn payload_of(url: &str, mime: &str) -> Vec<u8> {
    let prefix = format!("data:{};base64,", mime);
    assert!(url.starts_with(&prefix), "{url}");
    base64::engine::general_purpose::STANDARD
        .decode(&url[prefix.len()..])
        .unwrap()
}

fn has_data_url_shape(s: &str) -> bool {
    match s.strip_prefix("data:").and_then(|rest| rest.split_once(";base64,")) {
        Some((_, payload)) => payload
            .chars()
            .all(|c| c.is_ascii_alphanumeric() || c == '+' || c == '/' || c == '='),
        None => false,
    }
}

#[test]
fn data_url_encodes_bytes() {
    assert_eq!(data_url(b"hello", "text/plain"), "data:text/plain;base64,aGVsbG8=");
    assert_eq!(data_url(b"", "image/png"), "data:image/png;base64,");
}

#[test]
fn data_url_from_encoded_writes_shape() {
    assert_eq!(data_url_from_encoded("AAAA", "image/gif"), "data:image/gif;base64,AAAA");
}

#[test]
fn mime_type_follows_extension() {
    assert_eq!(mime_type_for("/x/pic.png"), "image/png");
    assert_eq!(mime_type_for("/x/pic.jpg"), "image/jpeg");
    assert_eq!(mime_type_for("/x/pic.svg"), "image/svg+xml");
    assert_eq!(mime_type_for("/x/no_extension"), "text/plain");
    assert_eq!(mime_type_for("/x/file.unknownext"), "text/plain");
}

#[test]
fn svg_template_escapes_its_parameters() {
    let svg = SvgTemplate { fill: "red".to_string(), text: "a < b & \"c\" 'd' > e".to_string() }.render();
    assert!(svg.starts_with("<svg"));
    assert!(svg.contains("fill=\"red\""));
    assert!(svg.contains("a &lt; b &amp; &quot;c&quot; &#x27;d&#x27; &gt; e"));
    assert!(!svg.contains("a < b"));
}

#[test]
fn message_graphic_is_svg_data_url() {
    let url = generate_message_data_url("Disk error.", "red");
    let svg = String::from_utf8(payload_of(&url, "image/svg+xml")).unwrap();
    assert!(svg.contains("Disk error."));
    assert!(svg.contains("red"));
    assert!(has_data_url_shape(&url));
}

#[test]
fn embed_reads_bytes_with_their_type() {
    let url = embed("/notes/img/pic.png", &Some(vec![137, 80, 78, 71]));
    assert_eq!(payload_of(&url, "image/png"), vec![137, 80, 78, 71]);
}

#[test]
fn embed_of_missing_file_is_error_graphic() {
    let url = embed("/definitely/not/here.png", &None);
    assert!(has_data_url_shape(&url));
    let svg = String::from_utf8(payload_of(&url, "image/svg+xml")).unwrap();
    assert!(svg.contains("Disk error."));
}

#[test]
fn embed_always_gives_data_url() {
    for (path, contents) in [
        ("/a.png", Some(vec![1u8, 2, 3])),
        ("/a", Some(Vec::new())),
        ("", None),
        ("/nonexistent/dir/x.gif", None),
    ] {
        assert!(has_data_url_shape(&embed(path, &contents)));
    }
}

#[test]
fn url_links_are_kept() {
    assert_eq!(rewrite_link("https://example.com", DOC, None), "https://example.com");
    assert_eq!(rewrite_link("mailto:someone@example.com", DOC, None), "mailto:someone@example.com");
}

#[test]
fn local_links_become_navigation_urls() {
    assert_eq!(rewrite_link("../other.md", DOC, None), "/?path=/notes/other.md");
    assert_eq!(rewrite_link("../other.md", DOC, Some("/srv")), "/?path=/notes/other.md");
    assert_eq!(rewrite_link("../other.md", DOC, Some("/notes")), "/?path=other.md");
    assert_eq!(rewrite_link("/abs/./x.md", DOC, None), "/?path=/abs/x.md");
    for dest in ["x.md", "", "#anchor", "./a/../b"] {
        assert!(rewrite_link(dest, DOC, None).starts_with("/?path="));
    }
}

#[test]
fn classified_link_rewrite_follows_the_flag() {
    assert_eq!(rewrite_link_classified("a.md", true, DOC, None), "a.md");
    assert_eq!(rewrite_link_classified("a.md", false, DOC, None), "/?path=/notes/a/a.md");
}

fn contents_for(paths: &[Option<String>], existing: &[(&str, Vec<u8>)]) -> Vec<Option<Vec<u8>>> {
    paths
        .iter()
        .map(|p| {
            p.as_ref().and_then(|p| {
                existing.iter().find(|(q, _)| q == p).map(|(_, bytes)| bytes.clone())
            })
        })
        .collect()
}

#[test]
fn image_paths_lists_local_images() {
    let text = "![a](../img/pic.png) ![b](https://example.com/x.png) [c](d.md)";
    let paths = image_paths(text, DOC);
    let wanted: Vec<&String> = paths.iter().flatten().collect();
    assert_eq!(wanted, vec!["/notes/img/pic.png"]);
}

#[test]
fn existing_image_is_inlined() {
    let text = "![alt](../img/pic.png)\n";
    let paths = image_paths(text, DOC);
    let contents = contents_for(&paths, &[("/notes/img/pic.png", vec![1, 2, 3, 4])]);
    let html = render_body(text, DOC, Some("/srv"), &contents);
    let expected = format!("src=\"{}\"", data_url(&[1, 2, 3, 4], "image/png"));
    assert!(html.contains(&expected), "{html}");
}

#[test]
fn missing_image_becomes_error_graphic() {
    let text = "![alt](../img/missing.png)\n";
    let paths = image_paths(text, DOC);
    let contents = contents_for(&paths, &[]);
    let html = render_body(text, DOC, Some("/srv"), &contents);
    let start = html.find("src=\"").unwrap() + 5;
    let end = start + html[start..].find('"').unwrap();
    let svg = String::from_utf8(payload_of(&html[start..end], "image/svg+xml")).unwrap();
    assert!(svg.contains("Disk error."));
}

#[test]
fn relative_link_is_rewritten() {
    let html = render_body("[text](../other.md)\n", DOC, Some("/srv"), &Vec::new());
    assert!(html.contains("href=\"/?path=/notes/other.md\""), "{html}");
    let html = render_body("[text](../other.md)\n", DOC, Some("/notes"), &Vec::new());
    assert!(html.contains("href=\"/?path=other.md\""), "{html}");
}

#[test]
fn url_link_is_unchanged() {
    let html = render_body("[text](https://example.com)\n", DOC, Some("/srv"), &Vec::new());
    assert!(html.contains("href=\"https://example.com\""), "{html}");
}

#[test]
fn reference_links_are_left_alone() {
    let html = render_body("[text][r]\n\n[r]: ../other.md\n", DOC, Some("/srv"), &Vec::new());
    assert!(html.contains("href=\"../other.md\""), "{html}");
}

#[test]
fn destinations_follow_each_piece() {
    let pieces = vec![
        Piece::Other,
        Piece::Link("b.md".to_string()),
        Piece::Image("https://example.com/p.png".to_string()),
        Piece::Image("p.gif".to_string()),
    ];
    let dests = destinations(&pieces, DOC, None, &vec![None, None, None, Some(vec![7])]);
    assert_eq!(dests.len(), 4);
    assert_eq!(dests[0], "");
    assert_eq!(dests[1], "/?path=/notes/a/b.md");
    assert_eq!(dests[2], "https://example.com/p.png");
    assert_eq!(dests[3], data_url(&[7], "image/gif"));
    let reads = images_to_read(&pieces, DOC);
    assert_eq!(reads, vec![None, None, None, Some("/notes/a/p.gif".to_string())]);
}

#[test]
fn document_page_carries_title_and_flag() {
    let page = render_document(DOC, "# Title\n", None, &Vec::new(), true);
    assert_eq!(page.title, DOC);
    assert!(page.use_websocket);
    assert!(page.body.contains("<h1>Title</h1>"));
}

#[test]
fn watch_forwards_changes_until_closed() {
    assert!(matches!(next_watch_action(&WatchEvent::Changed), WatchAction::Notify));
    assert!(matches!(next_watch_action(&WatchEvent::EventsClosed), WatchAction::Stop));
    assert!(matches!(next_watch_action(&WatchEvent::SendFailed), WatchAction::Stop));
}
