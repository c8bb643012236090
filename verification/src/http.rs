//! Where the body of a page comes from.
//!
//! A login screen has no links to follow and does not bring a client for them,
//! so the body is asked for through a function that is installed from outside.
//! Where none is, a link cannot be followed and says so.

use vstd::prelude::*;

use crate::markup;
use crate::text;

verus! {

/// The function that fetches, where one is installed.
pub struct BodyFetcher<F> {
    pub fetch: Option<F>,
}

impl<F: Fn(&str) -> Result<Vec<u8>, String>> BodyFetcher<F> {
    /// No function that fetches.
    pub fn new() -> (res: Self)
        ensures
            res.fetch is None,
    {
        BodyFetcher { fetch: None }
    }
}

/// Install the function that fetches. Only the first one is kept.
pub fn register_body_fetcher<F: Fn(&str) -> Result<Vec<u8>, String>>(
    slot: &mut BodyFetcher<F>,
    f: F,
)
    ensures
        final(slot).fetch == if old(slot).fetch is Some {
            old(slot).fetch
        } else {
            Some(f)
        },
{
    if slot.fetch.is_none() {
        slot.fetch = Some(f);
    }
}

/// Whether a function that fetches is installed.
pub fn has_body_fetcher<F: Fn(&str) -> Result<Vec<u8>, String>>(slot: &BodyFetcher<F>) -> (r: bool)
    ensures
        r == (slot.fetch is Some),
{
    slot.fetch.is_some()
}

/// The error where nothing is installed.
pub open spec fn no_client(url: Seq<char>) -> Seq<char> {
    "cannot follow "@ + url + ": this build has no HTTP client"@
}

/// Fetch the bytes at `url`, or say why not.
pub fn fetch_bytes<F: Fn(&str) -> Result<Vec<u8>, String>>(slot: &BodyFetcher<F>, url: &str) -> (res:
    Result<Vec<u8>, String>)
    requires
        slot.fetch matches Some(f) ==> call_requires(f, (url,)),
    ensures
        match slot.fetch {
            Some(f) => call_ensures(f, (url,), res),
            None => res matches Err(e) && e@ == no_client(url@),
        },
{
    match &slot.fetch {
        Some(f) => f(url),
        None => Err(text::concat3("cannot follow ", url, ": this build has no HTTP client")),
    }
}

/// What is wrong with bytes that are no text, in the words of
/// `std::string::FromUtf8Error`.
pub uninterp spec fn utf8_error(bytes: Seq<u8>) -> Seq<char>;

/// `String::from_utf8`: the text that the bytes encode, where they are UTF-8.
/// How the error words what is wrong is named, not said.
#[verifier::external_body]
fn decode(bytes: Vec<u8>) -> (res: Result<String, String>)
    ensures
        match res {
            Ok(s) => vstd::utf8::valid_utf8(bytes@) && s@ == vstd::utf8::decode_utf8(bytes@),
            Err(e) => !vstd::utf8::valid_utf8(bytes@) && e@ == utf8_error(bytes@),
        },
{
    String::from_utf8(bytes).map_err(|e| e.to_string())
}

/// What a body is, from the bytes or the error that came back.
pub open spec fn decoded(url: Seq<char>, raw: Result<Seq<u8>, Seq<char>>) -> Result<
    Seq<char>,
    Seq<char>,
> {
    match raw {
        Ok(bytes) => if vstd::utf8::valid_utf8(bytes) {
            Ok(vstd::utf8::decode_utf8(bytes))
        } else {
            Err(url + " is not valid UTF-8: "@ + utf8_error(bytes))
        },
        Err(e) => Err(e),
    }
}

/// What bytes or an error are.
pub open spec fn raw_view(raw: Result<Vec<u8>, String>) -> Result<Seq<u8>, Seq<char>> {
    match raw {
        Ok(bytes) => Ok(bytes@),
        Err(e) => Err(e@),
    }
}

/// What a text or an error is.
pub open spec fn text_view(t: Result<String, String>) -> Result<Seq<char>, Seq<char>> {
    match t {
        Ok(s) => Ok(s@),
        Err(e) => Err(e@),
    }
}

/// The text that came back from `url`, from its bytes.
pub fn decode_body(url: &str, raw: Result<Vec<u8>, String>) -> (res: Result<String, String>)
    ensures
        text_view(res) == decoded(url@, raw_view(raw)),
{
    match raw {
        Ok(bytes) => match decode(bytes) {
            Ok(s) => Ok(s),
            Err(e) => Err(text::concat3(url, " is not valid UTF-8: ", e.as_str())),
        },
        Err(e) => Err(e),
    }
}

/// Fetch the text at `url`, or say why not.
pub fn fetch_body<F: Fn(&str) -> Result<Vec<u8>, String>>(slot: &BodyFetcher<F>, url: &str) -> (res:
    Result<String, String>)
    requires
        slot.fetch matches Some(f) ==> call_requires(f, (url,)),
    ensures
        match slot.fetch {
            Some(f) => exists|raw: Result<Vec<u8>, String>|
                #[trigger] call_ensures(f, (url,), raw) && text_view(res) == decoded(
                    url@,
                    raw_view(raw),
                ),
            None => text_view(res) == Err::<Seq<char>, Seq<char>>(no_client(url@)),
        },
{
    let raw = fetch_bytes(slot, url);
    let ghost kept = raw;
    let res = decode_body(url, raw);
    assert(slot.fetch matches Some(f) ==> call_ensures(f, (url,), kept));
    res
}

/// Where the elements behind a link come from.
#[derive(Debug, Clone, Copy, PartialEq, Eq, Structural)]
pub enum LinkSource {
    /// A page.
    Page,
    /// A file with a tree in binary form.
    BinaryFile,
    /// A file with a tree in JSON.
    JsonFile,
}

/// Where the elements behind a link come from.
pub open spec fn source_of(url: Seq<char>) -> LinkSource {
    if markup::starts_with(url, "http://"@) || markup::starts_with(url, "https://"@) {
        LinkSource::Page
    } else if markup::ends_with(url, ".ffon"@) {
        LinkSource::BinaryFile
    } else {
        LinkSource::JsonFile
    }
}

/// Where the elements behind a link come from.
pub fn link_source(url: &str) -> (res: LinkSource)
    ensures
        res == source_of(url@),
{
    if text::starts_with(url, "http://") || text::starts_with(url, "https://") {
        LinkSource::Page
    } else if text::ends_with(url, ".ffon") {
        LinkSource::BinaryFile
    } else {
        LinkSource::JsonFile
    }
}

/// How the body of a page is read.
#[derive(Debug, Clone, Copy, PartialEq, Eq, Structural)]
pub enum PageForm {
    /// It holds nothing.
    Empty,
    /// As a tree in binary form.
    Binary,
    /// As a tree in JSON; as a page where that gives no elements.
    JsonOrHtml,
}

/// How the body of the page at `url` is read.
pub open spec fn form_of(url: Seq<char>, body: Seq<char>) -> PageForm {
    if body.len() == 0 {
        PageForm::Empty
    } else if markup::ends_with(url, ".ffon"@) {
        PageForm::Binary
    } else {
        PageForm::JsonOrHtml
    }
}

/// How the body of the page at `url` is read.
pub fn page_form(url: &str, body: &str) -> (res: PageForm)
    ensures
        res == form_of(url@, body@),
{
    if body.unicode_len() == 0 {
        PageForm::Empty
    } else if text::ends_with(url, ".ffon") {
        PageForm::Binary
    } else {
        PageForm::JsonOrHtml
    }
}

} // verus!
