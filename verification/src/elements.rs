//! What the text of an element says, and how it changes when the element is
//! used.

use vstd::prelude::*;

use crate::ffon;
use crate::ffon::{FfonElement, IdArray};
use crate::markup;
use crate::moves;
use crate::text;

verus! {

/// The directory and the file that a path names.
pub open spec fn nav_parts(path: Seq<char>) -> (Seq<char>, Seq<char>) {
    match text::last_index_before(path, '/', path.len() as int) {
        Some(i) => if i > 0 {
            (path.take(i), path.skip(i + 1))
        } else {
            ("/"@, path.skip(1))
        },
        None => (Seq::empty(), path),
    }
}

/// Split a path at its last slash.
pub fn split_nav_path(nav_path: &str) -> (res: (String, String))
    ensures
        (res.0@, res.1@) == nav_parts(nav_path@),
{
    let n: usize = nav_path.unicode_len();
    match text::rfind_char(nav_path, '/') {
        Some(i) => {
            let rest = text::substring(nav_path, i + 1, n);
            assert(rest@ =~= nav_path@.skip(i + 1));
            if i > 0 {
                let dir = text::substring(nav_path, 0, i);
                assert(dir@ =~= nav_path@.take(i as int));
                (dir, rest)
            } else {
                ("/".to_owned(), rest)
            }
        },
        None => {
            proof {
                reveal_strlit("");
                assert(""@ =~= Seq::<char>::empty());
            }
            ("".to_owned(), nav_path.to_owned())
        },
    }
}

/// A path is its directory, a slash and its file, wherever the slash is not
/// at the start.
pub proof fn law_nav_parts(path: Seq<char>)
    ensures
        text::last_index_before(path, '/', path.len() as int) matches Some(i) && i > 0
            ==> nav_parts(path).0 + seq!['/'] + nav_parts(path).1 == path,
{
    lemma_last_index(path, '/', path.len() as int);
    if let Some(i) = text::last_index_before(path, '/', path.len() as int) {
        if i > 0 {
            assert(path.take(i) + seq!['/'] + path.skip(i + 1) =~= path);
        }
    }
}

proof fn lemma_last_index(s: Seq<char>, c: char, to: int)
    requires
        0 <= to <= s.len(),
    ensures
        text::last_index_before(s, c, to) matches Some(i) ==> 0 <= i < to && s[i] == c,
    decreases to,
{
    if to > 0 && s[to - 1] != c {
        lemma_last_index(s, c, to - 1);
    }
}

/// The text or nothing.
pub open spec fn or_empty(s: Option<Seq<char>>) -> Seq<char> {
    match s {
        Some(t) => t,
        None => Seq::empty(),
    }
}

/// The text or nothing.
pub(crate) fn text_or_empty(s: Option<String>) -> (res: String)
    ensures
        res@ == or_empty(text::opt_text(s)),
{
    match s {
        Some(t) => t,
        None => {
            proof {
                reveal_strlit("");
                assert(""@ =~= Seq::<char>::empty());
            }
            "".to_owned()
        },
    }
}

/// The text of a box after it is checked or unchecked.
pub open spec fn toggled_text(s: Seq<char>) -> Option<Seq<char>> {
    if markup::is_checkbox_checked(s) {
        Some("<checkbox>"@ + or_empty(markup::checkbox_checked_text(s)))
    } else if markup::is_checkbox(s) {
        Some("<checkbox checked>"@ + or_empty(markup::checkbox_text(s)))
    } else {
        None
    }
}

/// Check or uncheck a box.
pub fn toggle_checkbox(elem: &FfonElement) -> (res: Option<String>)
    ensures
        text::opt_text(res) == toggled_text(ffon::node_text(elem@)),
{
    let s = elem.text();
    if sicompass_sdk::tags::has_checkbox_checked(s) {
        let content = text_or_empty(sicompass_sdk::tags::extract_checkbox_checked(s));
        Some(sicompass_sdk::tags::format_checkbox(content.as_str()))
    } else if sicompass_sdk::tags::has_checkbox(s) {
        let content = text_or_empty(sicompass_sdk::tags::extract_checkbox(s));
        Some(sicompass_sdk::tags::format_checkbox_checked(content.as_str()))
    } else {
        None
    }
}

/// An element with another text.
pub open spec fn retitled(n: ffon::Node, s: Seq<char>) -> ffon::Node {
    match n {
        ffon::Node::Str(_) => ffon::Node::Str(s),
        ffon::Node::Obj { children, .. } => ffon::Node::Obj { key: s, children },
    }
}

/// A copy of an element with another text.
pub(crate) fn retitle(elem: &FfonElement, s: &str) -> (res: FfonElement)
    ensures
        res@ == retitled(elem@, s@),
{
    match elem {
        FfonElement::Str(_) => FfonElement::new_str(s),
        FfonElement::Obj(o) => {
            let copy = FfonElement::Obj(
                ffon::FfonObject { key: s.to_owned(), children: ffon::clone_elements(&o.children) },
            );
            proof {
                ffon::lemma_obj_view(*o);
                ffon::lemma_obj_view(copy->Obj_0);
            }
            copy
        },
    }
}

/// A radio button that is not chosen.
pub open spec fn unchosen(n: ffon::Node) -> ffon::Node {
    match n {
        ffon::Node::Str(s) => if markup::is_checked(s) {
            match markup::checked_text(s) {
                Some(t) => ffon::Node::Str(t),
                None => n,
            }
        } else {
            n
        },
        _ => n,
    }
}

/// The buttons of a group after the one at `idx` is chosen.
pub open spec fn chosen_layer(layer: Seq<ffon::Node>, idx: int) -> Seq<ffon::Node> {
    Seq::new(
        layer.len(),
        |i: int|
            match unchosen(layer[i]) {
                ffon::Node::Str(s) if i == idx => ffon::Node::Str(
                    "<checked>"@ + markup::display_text(s),
                ),
                n => n,
            },
    )
}

/// Whether the position is a button of a group.
pub open spec fn in_radio_group(root: Seq<ffon::Node>, id: Seq<usize>) -> bool {
    &&& id.len() >= 2
    &&& moves::node_at(root, id.drop_last()) matches Some(n) && n is Obj && markup::is_radio(
        ffon::node_text(n),
    )
    &&& ffon::layer_of(root, id) is Some
}

/// The tree after the button at `id` is chosen.
#[verifier::opaque]
pub open spec fn radio_chosen(root: Seq<ffon::Node>, id: Seq<usize>) -> Option<Seq<ffon::Node>> {
    if in_radio_group(root, id) {
        match ffon::layer_of(root, id) {
            Some(layer) => Some(
                ffon::with_layer(root, id, chosen_layer(layer, id.last() as int)),
            ),
            None => None,
        }
    } else {
        None
    }
}

fn choose_button(layer: &mut Vec<FfonElement>, idx: usize)
    ensures
        ffon::forest(final(layer)@) == chosen_layer(ffon::forest(old(layer)@), idx as int),
{
    let ghost before = ffon::forest(layer@);
    let n: usize = layer.len();
    let mut i: usize = 0;
    while i < n
        invariant
            i <= n,
            n == layer.len(),
            before.len() == n,
            forall|k: int|
                0 <= k < n ==> (#[trigger] layer@[k])@ == if k < i {
                    chosen_layer(before, idx as int)[k]
                } else {
                    before[k]
                },
        decreases n - i,
    {
        let ghost mid = layer@;
        let changed = match &layer[i] {
            FfonElement::Str(s) => {
                let plain = if sicompass_sdk::tags::has_checked(s.as_str()) {
                    match sicompass_sdk::tags::extract_checked(s.as_str()) {
                        Some(t) => t,
                        None => s.clone(),
                    }
                } else {
                    s.clone()
                };
                if i == idx {
                    let shown = sicompass_sdk::tags::strip_display(plain.as_str());
                    let marked = sicompass_sdk::tags::format_checked(shown.as_str());
                    Some(FfonElement::Str(marked))
                } else {
                    Some(FfonElement::Str(plain))
                }
            },
            FfonElement::Obj(_) => None,
        };
        assert(mid[i as int]@ == before[i as int]);
        if let Some(e) = changed {
            assert(e@ == chosen_layer(before, idx as int)[i as int]);
            layer[i] = e;
        }
        i += 1;
    }
    assert(ffon::forest(layer@) =~= chosen_layer(before, idx as int));
}

/// Choose the radio button at `id`, and no other of its group. Whether it is
/// one is told.
pub fn toggle_radio(tree: &mut Vec<FfonElement>, id: &IdArray) -> (res: bool)
    ensures
        res == radio_chosen(ffon::forest(old(tree)@), id@) is Some,
        ffon::forest(final(tree)@) == match radio_chosen(ffon::forest(old(tree)@), id@) {
            Some(new) => new,
            None => ffon::forest(old(tree)@),
        },
{
    proof {
        reveal(radio_chosen);
    }
    if id.depth() < 2 {
        return false;
    }
    let mut parent = id.clone();
    parent.pop();
    let is_group = match moves::element_ref(tree, &parent) {
        Some(FfonElement::Obj(o)) => sicompass_sdk::tags::has_radio(o.key.as_str()),
        _ => false,
    };
    if !is_group {
        return false;
    }
    let idx: usize = id.ids[id.depth() - 1];
    match ffon::navigate_to_slice_mut(tree, id) {
        Some(layer) => {
            choose_button(layer, idx);
            true
        },
        None => false,
    }
}

/// Only the chosen button of a group is marked after it is chosen, where no
/// text is marked twice.
pub proof fn law_one_button_is_chosen(layer: Seq<ffon::Node>, idx: int, i: int)
    requires
        0 <= i < layer.len(),
        i != idx,
        unchosen(layer[i]) matches ffon::Node::Str(s) ==> !markup::is_checked(s),
    ensures
        chosen_layer(layer, idx)[i] matches ffon::Node::Str(s) ==> !markup::is_checked(s),
{
}

/// What a name typed into the file browser asks for: whether it is a file,
/// whether it is a directory, and the name.
pub open spec fn creation(input: Seq<char>) -> (bool, bool, Seq<char>) {
    if input.len() > 0 && input[0] == '-' {
        (true, false, text::trimmed_start(input.drop_first()))
    } else if input.len() > 0 && input[0] == '+' {
        (false, true, text::trimmed_start(input.drop_first()))
    } else {
        let name = text::trimmed(input);
        if name.len() > 0 && name.last() == ':' {
            let dir = text::trimmed(text::without_trailing(name, ':'));
            (false, dir.len() > 0, dir)
        } else {
            (name.len() > 0, false, name)
        }
    }
}

/// Read a name typed into the file browser: `-` stands before a file, `+`
/// before a directory, and a colon behind a directory.
pub fn parse_creation_prefix(input: &str) -> (res: (bool, bool, String))
    ensures
        (res.0, res.1, res.2@) == creation(input@),
{
    let n: usize = input.unicode_len();
    if n > 0 {
        let first = input.get_char(0);
        if first == '-' || first == '+' {
            let rest = text::substring(input, 1, n);
            assert(rest@ =~= input@.drop_first());
            let name = text::trim_start(rest.as_str());
            return (first == '-', first == '+', name);
        }
    }
    let name = text::trim(input);
    if text::ends_with_char(name.as_str(), ':') {
        let bare = text::trim_end_matches(name.as_str(), ':');
        let dir = text::trim(bare.as_str());
        let named = dir.as_str().unicode_len() > 0;
        (false, named, dir)
    } else {
        let named = name.as_str().unicode_len() > 0;
        (named, false, name)
    }
}

/// Whether a text is an empty element to be filled in.
pub open spec fn is_blank_input(key: Seq<char>) -> bool {
    match markup::input_text(key) {
        Some(content) => content.len() == 0,
        None => markup::between(key, "<input-all>"@, "</input-all>"@) matches Some(content)
            && content.len() == 0,
    }
}

/// Whether `key` is an empty element to be filled in.
pub fn is_empty_placeholder(key: &str) -> (b: bool)
    ensures
        b == is_blank_input(key@),
{
    match sicompass_sdk::tags::extract_input(key) {
        Some(content) => content.as_str().unicode_len() == 0,
        None => match markup::extract_input_all(key) {
            Some(content) => content.as_str().unicode_len() == 0,
            None => false,
        },
    }
}

proof fn lemma_only_tag(label: Seq<char>, open: Seq<char>, i: int, tag: Seq<char>)
    requires
        forall|j: int| 0 <= j < label.len() ==> #[trigger] label[j] != '<',
        open.len() > 0,
        forall|j: int| 0 < j < open.len() ==> #[trigger] open[j] != '<',
        tag.len() > 0,
        tag[0] == '<',
        i > 0,
    ensures
        !markup::occurs(open + label, tag, i),
{
    let s = open + label;
    if markup::occurs(s, tag, i) {
        assert(s.subrange(i, i + tag.len())[0] == s[i]);
        assert(s[i] == '<');
        if i < open.len() {
            assert(s[i] == open[i]);
        } else {
            assert(s[i] == label[i - open.len()]);
        }
    }
}

/// Checking a box and unchecking it gives its text back, where the label holds
/// no tags.
pub proof fn law_checkbox_there_and_back(label: Seq<char>)
    requires
        forall|j: int| 0 <= j < label.len() ==> #[trigger] label[j] != '<',
    ensures
        toggled_text("<checkbox>"@ + label) == Some("<checkbox checked>"@ + label),
        toggled_text("<checkbox checked>"@ + label) == Some("<checkbox>"@ + label),
        markup::is_checkbox("<checkbox>"@ + label),
        !markup::is_checkbox_checked("<checkbox>"@ + label),
        markup::is_checkbox_checked("<checkbox checked>"@ + label),
{
    reveal_strlit("<checkbox>");
    reveal_strlit("<checkbox checked>");
    reveal_strlit("</checkbox>");
    let off = "<checkbox>"@;
    let on = "<checkbox checked>"@;
    let end = "</checkbox>"@;
    let a = off + label;
    let b = on + label;
    assert forall|i: int| !markup::occurs(a, on, i) by {
        if i > 0 {
            lemma_only_tag(label, off, i, on);
        } else if i == 0 && markup::occurs(a, on, 0) {
            assert(a.subrange(0, on.len() as int)[9] == a[9]);
            assert(a[9] == '>');
            assert(on[9] == ' ');
        }
    }
    assert(a.subrange(0, off.len() as int) =~= off);
    assert(b.subrange(0, on.len() as int) =~= on);
    assert(markup::occurs_unescaped(a, off, 0));
    assert(markup::occurs_unescaped(b, on, 0));
    markup::lemma_find_from(a, end, off.len() as int);
    markup::lemma_find_from(b, end, on.len() as int);
    assert forall|i: int| i > 0 implies !markup::occurs(a, end, i) by {
        lemma_only_tag(label, off, i, end);
    }
    assert forall|i: int| i > 0 implies !markup::occurs(b, end, i) by {
        lemma_only_tag(label, on, i, end);
    }
    assert(a.skip(off.len() as int) =~= label);
    assert(b.skip(on.len() as int) =~= label);
}

} // verus!
