//! The elements that the body of a page holds.

use sicompass_sdk::ffon::FfonElement as OutsideElement;
use vstd::prelude::*;

use crate::ffon;
use crate::ffon::{FfonElement, FfonObject, Node};
use crate::http;
use crate::http::{BodyFetcher, PageForm};
use crate::offsets;

verus! {

/// An element as the providers' crate has it.
#[verifier::external_type_specification]
#[verifier::external_body]
pub struct ExElement(OutsideElement);

/// What an element of the providers' crate holds: [`take_apart`] says of each
/// element what that is.
pub uninterp spec fn tree_of(e: OutsideElement) -> Node;

/// What elements of the providers' crate hold.
pub open spec fn trees(s: Seq<OutsideElement>) -> Seq<Node> {
    Seq::new(s.len(), |i: int| tree_of(s[i]))
}

/// Takes a `sicompass_sdk::ffon::FfonElement` apart by its two variants: the
/// text of a leaf, or the key of a branch and its children.
#[verifier::external_body]
fn take_apart(e: OutsideElement) -> (r: (String, Option<Vec<OutsideElement>>))
    ensures
        tree_of(e) == match r.1 {
            Some(children) => Node::Obj { key: r.0@, children: trees(children@) },
            None => Node::Str(r.0@),
        },
{
    match e {
        OutsideElement::Str(s) => (s, None),
        OutsideElement::Obj(o) => (o.key, Some(o.children)),
    }
}

fn convert(e: OutsideElement) -> (r: FfonElement)
    ensures
        r@ == tree_of(e),
    decreases tree_of(e),
{
    let ghost tree = tree_of(e);
    match take_apart(e) {
        (s, None) => FfonElement::Str(s),
        (key, Some(children)) => {
            assert(decreases_to!(tree => tree->children));
            let o = FfonObject { key, children: convert_all(children) };
            proof {
                ffon::lemma_obj_view(o);
            }
            FfonElement::Obj(o)
        },
    }
}

fn convert_all(v: Vec<OutsideElement>) -> (r: Vec<FfonElement>)
    ensures
        ffon::forest(r@) == trees(v@),
    decreases trees(v@),
{
    let ghost all = v@;
    let mut rest = v;
    let mut turned: Vec<FfonElement> = Vec::new();
    while rest.len() > 0
        invariant
            all == v@,
            rest@.len() <= all.len(),
            rest@ == all.take(rest@.len() as int),
            turned@.len() == all.len() - rest@.len(),
            forall|k: int|
                0 <= k < turned@.len() ==> (#[trigger] turned@[k])@ == tree_of(
                    all[all.len() - 1 - k],
                ),
        decreases rest@.len(),
    {
        let ghost at = rest@.len() - 1;
        if let Some(e) = rest.pop() {
            assert(e == all[at]);
            assert(trees(all)[at] == tree_of(e));
            assert(rest@ =~= all.take(at));
            turned.push(convert(e));
        }
    }
    let mut r: Vec<FfonElement> = Vec::new();
    while turned.len() > 0
        invariant
            r@.len() + turned@.len() == all.len(),
            forall|k: int|
                0 <= k < turned@.len() ==> (#[trigger] turned@[k])@ == tree_of(
                    all[all.len() - 1 - k],
                ),
            forall|k: int| 0 <= k < r@.len() ==> (#[trigger] r@[k])@ == tree_of(all[k]),
        decreases turned@.len(),
    {
        if let Some(e) = turned.pop() {
            r.push(e);
        }
    }
    assert(ffon::forest(r@) =~= trees(all));
    r
}

/// The tree that the bytes of a text hold in binary form.
pub uninterp spec fn binary_tree(body: Seq<char>) -> Seq<Node>;

/// Whether the places in a tree in binary form can be counted. The length of
/// an entry is read from four bytes of a text, of which none is over `0xF4`.
pub open spec fn can_count(body: Seq<char>) -> bool {
    offsets::byte_len(body) + 0xF500_0000 <= usize::MAX
}

/// `sicompass_sdk::ffon::deserialize_binary` on the bytes of a text: a function
/// of the text. How a tree is written in binary form is not said here. It adds
/// the length of an entry to the place where the entry starts.
#[verifier::external_body]
fn read_binary(body: &str) -> (r: Vec<OutsideElement>)
    requires
        can_count(body@),
    ensures
        trees(r@) == binary_tree(body@),
{
    sicompass_sdk::ffon::deserialize_binary(body.as_bytes())
}

/// The elements that a text in JSON holds, where it is a list of elements.
pub uninterp spec fn json_tree(body: Seq<char>) -> Option<Seq<Node>>;

/// `sicompass_sdk::ffon::parse_json`: a function of the text. Which texts are
/// lists of elements is not said here.
#[verifier::external_body]
fn read_json(body: &str) -> (r: Option<Vec<OutsideElement>>)
    ensures
        match r {
            Some(v) => json_tree(body@) == Some(trees(v@)),
            None => json_tree(body@) is None,
        },
{
    sicompass_sdk::ffon::parse_json(body).ok()
}

/// The elements of a page in HTML, with its links relative to `url`.
pub uninterp spec fn html_tree(body: Seq<char>, url: Seq<char>) -> Seq<Node>;

/// The longest page that is read, in bytes. The buffers of the parser grow to a
/// power of two that must fit in 32 bits, so to at most 2,147,483,648 bytes, and
/// one byte of a page can stand for three.
pub const LONGEST_PAGE: usize = 715_827_882;

/// `sicompass_sdk::ffon::html_to_ffon`: a function of the page and of the base
/// for its links. What elements a page has is not said here. Pages that are
/// too long for its parser are left out. It walks the page by recursion: how
/// deep elements may be nested rests on the stack.
#[verifier::external_body]
fn read_html(body: &str, url: &str) -> (r: Vec<OutsideElement>)
    requires
        offsets::byte_len(body@) <= LONGEST_PAGE,
    ensures
        trees(r@) == html_tree(body@, url@),
{
    sicompass_sdk::ffon::html_to_ffon(body, url)
}

/// What JSON gave, where that is more than nothing.
pub open spec fn taken(json: Option<Seq<Node>>) -> Option<Seq<Node>> {
    match json {
        Some(elements) if elements.len() > 0 => Some(elements),
        _ => None,
    }
}

/// What optional elements are.
pub open spec fn opt_forest(v: Option<Vec<FfonElement>>) -> Option<Seq<Node>> {
    match v {
        Some(elements) => Some(ffon::forest(elements@)),
        None => None,
    }
}

/// What JSON gave, where the page is read as that and not as HTML.
pub fn take_json(json: Option<Vec<FfonElement>>) -> (r: Option<Vec<FfonElement>>)
    ensures
        opt_forest(r) == taken(opt_forest(json)),
{
    match json {
        Some(elements) => if elements.len() > 0 {
            Some(elements)
        } else {
            None
        },
        None => None,
    }
}

/// What the body of the page at `url` holds. A body that is too long to be
/// read holds nothing.
pub open spec fn page_tree(url: Seq<char>, body: Seq<char>) -> Seq<Node> {
    match http::form_of(url, body) {
        PageForm::Empty => Seq::empty(),
        PageForm::Binary => if can_count(body) {
            binary_tree(body)
        } else {
            Seq::empty()
        },
        PageForm::JsonOrHtml => match taken(json_tree(body)) {
            Some(elements) => elements,
            None => if offsets::byte_len(body) <= LONGEST_PAGE {
                html_tree(body, url)
            } else {
                Seq::empty()
            },
        },
    }
}

/// The elements that the body of the page at `url` holds.
pub fn page_elements(url: &str, body: &str) -> (r: Vec<FfonElement>)
    ensures
        ffon::forest(r@) == page_tree(url@, body@),
{
    let none: Vec<FfonElement> = Vec::new();
    assert(ffon::forest(none@) =~= Seq::<Node>::empty());
    let n: usize = offsets::byte_length(body);
    match http::page_form(url, body) {
        PageForm::Empty => none,
        PageForm::Binary => match n.checked_add(0xF500_0000) {
            Some(_) => convert_all(read_binary(body)),
            None => none,
        },
        PageForm::JsonOrHtml => {
            let json = match read_json(body) {
                Some(v) => Some(convert_all(v)),
                None => None,
            };
            match take_json(json) {
                Some(elements) => elements,
                None => if n <= LONGEST_PAGE {
                    convert_all(read_html(body, url))
                } else {
                    none
                },
            }
        },
    }
}

/// What came back from `url`, as elements: nothing where no text did.
pub open spec fn answered(url: Seq<char>, body: Result<Seq<char>, Seq<char>>) -> Seq<Node> {
    match body {
        Ok(s) => page_tree(url, s),
        Err(_) => Seq::empty(),
    }
}

/// The elements that came back from `url`.
pub fn answer_elements(url: &str, body: Result<String, String>) -> (r: Vec<FfonElement>)
    ensures
        ffon::forest(r@) == answered(url@, http::text_view(body)),
{
    match body {
        Ok(s) => page_elements(url, s.as_str()),
        Err(_) => {
            let none: Vec<FfonElement> = Vec::new();
            assert(ffon::forest(none@) =~= Seq::<Node>::empty());
            none
        },
    }
}

/// Fetch the page at `url`, and read the elements that it holds.
pub fn fetch_url_to_elements<F: Fn(&str) -> Result<Vec<u8>, String>>(
    slot: &BodyFetcher<F>,
    url: &str,
) -> (r: Vec<FfonElement>)
    requires
        slot.fetch matches Some(f) ==> call_requires(f, (url,)),
    ensures
        match slot.fetch {
            Some(f) => exists|raw: Result<Vec<u8>, String>|
                #[trigger] call_ensures(f, (url,), raw) && ffon::forest(r@) == answered(
                    url@,
                    http::decoded(url@, http::raw_view(raw)),
                ),
            None => ffon::forest(r@) == Seq::<Node>::empty(),
        },
{
    let body = http::fetch_body(slot, url);
    answer_elements(url, body)
}

} // verus!
