//! Bodies that are fetched.

use sicompass_ui::ffon::FfonElement;
use sicompass_ui::http::{
    decode_body, fetch_body, fetch_bytes, has_body_fetcher, link_source, page_form,
    register_body_fetcher, BodyFetcher, LinkSource, PageForm,
};
use sicompass_ui::pages::{answer_elements, fetch_url_to_elements, page_elements, take_json};

/// Without a fetcher the call is an error, not a panic and not a hang.
#[test]
fn an_unregistered_fetch_is_a_reported_error() {
    let slot: BodyFetcher<fn(&str) -> Result<Vec<u8>, String>> = BodyFetcher::new();
    match fetch_body(&slot, "https://example.invalid/") {
        Err(e) => assert!(!e.is_empty(), "an error must say something"),
        Ok(_) => assert!(has_body_fetcher(&slot), "a body implies a registered fetcher"),
    }
}

#[test]
fn without_a_client_the_error_names_the_link() {
    let slot: BodyFetcher<fn(&str) -> Result<Vec<u8>, String>> = BodyFetcher::new();
    assert!(!has_body_fetcher(&slot));
    assert_eq!(
        fetch_bytes(&slot, "https://example.com/"),
        Err("cannot follow https://example.com/: this build has no HTTP client".to_owned()),
    );
}

#[test]
fn a_body_is_fetched_and_decoded() {
    let mut slot = BodyFetcher::new();
    register_body_fetcher(&mut slot, |url: &str| Ok(format!("<{url}>\u{e9}").into_bytes()));
    assert!(has_body_fetcher(&slot));
    assert_eq!(fetch_body(&slot, "a"), Ok("<a>\u{e9}".to_owned()));
}

#[test]
fn the_first_client_stays() {
    let mut slot = BodyFetcher::new();
    let client = |answer: u8| move |_: &str| -> Result<Vec<u8>, String> { Ok(vec![answer]) };
    register_body_fetcher(&mut slot, client(b'1'));
    register_body_fetcher(&mut slot, client(b'2'));
    assert_eq!(fetch_body(&slot, "a"), Ok("1".to_owned()));
}

#[test]
fn bytes_that_are_no_text_are_an_error() {
    let e = decode_body("https://example.com/", Ok(vec![0xff, 0xfe])).unwrap_err();
    assert!(e.starts_with("https://example.com/ is not valid UTF-8: "), "{e}");
    assert!(e.len() > "https://example.com/ is not valid UTF-8: ".len());
    assert_eq!(decode_body("a", Err("timed out".to_owned())), Err("timed out".to_owned()));
}

#[test]
fn a_link_leads_to_a_page_or_a_file() {
    assert_eq!(link_source("https://example.com/a.ffon"), LinkSource::Page);
    assert_eq!(link_source("http://example.com"), LinkSource::Page);
    assert_eq!(link_source("/home/a.ffon"), LinkSource::BinaryFile);
    assert_eq!(link_source("/home/a.json"), LinkSource::JsonFile);
}

#[test]
fn a_page_is_read_by_its_name_and_body() {
    assert_eq!(page_form("https://example.com/a.ffon", "x"), PageForm::Binary);
    assert_eq!(page_form("https://example.com/", "x"), PageForm::JsonOrHtml);
    assert_eq!(page_form("https://example.com/", ""), PageForm::Empty);
}

/// Elements as one line: leaves as they are, branches with their children in
/// brackets.
fn shown(elements: &[FfonElement]) -> String {
    let parts: Vec<String> = elements
        .iter()
        .map(|e| match e {
            FfonElement::Str(s) => s.clone(),
            FfonElement::Obj(o) => format!("{}[{}]", o.key, shown(&o.children)),
        })
        .collect();
    parts.join(" ")
}

#[test]
fn a_page_in_json_gives_its_elements() {
    let body = "[\"a\", {\"k\": [\"b\", {\"m\": []}, \"c\"]}, \"d\"]";
    assert_eq!(shown(&page_elements("https://example.com/", body)), "a k[b m[] c] d");
}

#[test]
fn a_page_in_html_gives_its_paragraphs() {
    let body = "<html><body><h1>Title</h1><p>one</p><p>two</p></body></html>";
    assert_eq!(shown(&page_elements("https://example.com/", body)), "Title[one two]");
}

#[test]
fn links_of_a_page_are_relative_to_it() {
    let body = "<p><a href=\"b\">go</a></p>";
    let elements = page_elements("https://example.com/a", body);
    assert_eq!(shown(&elements), "go <link>https://example.com/b</link>[]");
}

#[test]
fn a_page_in_binary_form_gives_its_tree() {
    let body = "\0\0\0\0\u{2}\0\0\0k:\u{1}\0\0\0\u{1}\0\0\0b\0\0\0\0\u{1}\0\0\0c";
    assert_eq!(shown(&page_elements("https://example.com/a.ffon", body)), "k[b] c");
    assert_eq!(shown(&page_elements("https://example.com/a.ffon", "")), "");
}

#[test]
fn json_without_elements_is_read_as_a_page() {
    assert_eq!(shown(&page_elements("https://example.com/", "[]")), "(empty)");
    assert!(take_json(Some(vec![])).is_none());
    assert!(take_json(None).is_none());
    assert_eq!(shown(&take_json(Some(vec![FfonElement::new_str("a")])).unwrap()), "a");
}

#[test]
fn a_page_that_does_not_come_has_no_elements() {
    assert!(answer_elements("a", Err("timed out".to_owned())).is_empty());
    let none: BodyFetcher<fn(&str) -> Result<Vec<u8>, String>> = BodyFetcher::new();
    assert!(fetch_url_to_elements(&none, "https://example.com/").is_empty());
    let mut slot = BodyFetcher::new();
    register_body_fetcher(&mut slot, |_: &str| Ok(b"[\"x\"]".to_vec()));
    assert_eq!(shown(&fetch_url_to_elements(&slot, "https://example.com/")), "x");
}
