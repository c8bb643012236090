//! The list on the screen.

use vstd::prelude::*;

use crate::app_state;
use crate::app_state::{
    AppRenderer, CommandPhase, Coordinate, ItemView, ListItem, ProviderInfo, ProviderView,
    RenderListItem, TimelineState, Ui,
};
use crate::ffon;
use crate::ffon::{FfonElement, FfonObject, IdArray, Node};
use crate::fuzzy;
use crate::markup;
use crate::sorting;
use crate::text;
use crate::timeline::{
    ChatOpKind, ChatView, EntryView, FsOpKind, FsSideEffect, ImapOpKind, ImapView, NavKind,
    SideEffectView, StructuralOp, TimelineEntry,
};

use sicompass_sdk::placeholders::is_ci_placeholder;
use sicompass_sdk::tags::{
    extract_checkbox, extract_checkbox_checked, extract_checked, extract_image, extract_input,
    extract_radio, has_button, has_checkbox, has_checkbox_checked, has_checked, has_dir, has_file,
    has_image, has_input, has_link, has_many_opt, has_one_opt, has_radio, has_src, strip_display,
    strip_many_opt, strip_one_opt,
};

verus! {

/// `s` without the marker of an optional element at its start.
pub open spec fn without_opt(s: Seq<char>) -> Seq<char> {
    if markup::starts_with(s, "<one-opt></one-opt>"@) {
        markup::without_prefix(s, "<one-opt></one-opt>"@)
    } else {
        markup::without_prefix(s, "<many-opt></many-opt>"@)
    }
}

/// Whether the part of `s` that can be edited is a line of a file.
pub open spec fn is_editor_line(s: Seq<char>) -> bool {
    markup::input_text(s) matches Some(inner) && markup::is_source_line(inner)
}

/// `o`, or the text of `s` without its tags.
pub open spec fn or_display(o: Option<Seq<char>>, s: Seq<char>) -> Seq<char> {
    match o {
        Some(x) => x,
        None => markup::display_text(s),
    }
}

/// The label of a leaf: a prefix that tells its kind, and its text.
pub open spec fn str_label(text: Seq<char>, parent_has_radio: bool) -> Seq<char> {
    let s = without_opt(text);
    if s == "ci <input></input>"@ {
        "ci"@
    } else if is_editor_line(s) {
        "-ci "@ + markup::display_text(s)
    } else if markup::is_image(s) {
        "-p "@ + markup::display_text(s)
    } else if markup::is_checkbox_checked(s) {
        "-cc "@ + or_display(markup::checkbox_checked_text(s), s)
    } else if markup::is_checkbox(s) {
        "-c "@ + or_display(markup::checkbox_text(s), s)
    } else if markup::is_checked(s) {
        "-rc "@ + or_display(markup::checked_text(s), s)
    } else if markup::is_button(s) {
        "-b "@ + markup::display_text(s)
    } else if markup::is_input(s) {
        if text::trimmed(markup::display_text(s)) == "i"@ {
            "i"@
        } else {
            "-i "@ + markup::display_text(s)
        }
    } else if parent_has_radio {
        "-r "@ + markup::display_text(s)
    } else {
        "- "@ + markup::display_text(s)
    }
}

/// The text of the first of the first `n` children that is the chosen radio
/// button; empty where there is none.
pub open spec fn chosen_text(children: Seq<Node>, from: int) -> Seq<char>
    decreases children.len() - from,
{
    if from < 0 || from >= children.len() {
        Seq::empty()
    } else if children[from] is Str && markup::is_checked(children[from]->Str_0) {
        or_display(markup::checked_text(children[from]->Str_0), children[from]->Str_0)
    } else {
        chosen_text(children, from + 1)
    }
}

/// The label of a branch: a prefix that tells its kind, and its key.
pub open spec fn obj_label(raw_key: Seq<char>, children: Seq<Node>) -> Seq<char> {
    let key = without_opt(raw_key);
    if is_editor_line(key) {
        "+ci "@ + markup::display_text(key)
    } else if markup::contains(key, "<dir>"@) {
        "+di "@ + markup::display_text(key)
    } else if markup::contains(key, "<file>"@) {
        "+fi "@ + markup::display_text(key)
    } else if markup::is_checkbox_checked(key) {
        "+cc "@ + or_display(markup::checkbox_checked_text(key), key)
    } else if markup::is_checkbox(key) {
        "+c "@ + or_display(markup::checkbox_text(key), key)
    } else if markup::is_link(key) {
        "+l "@ + markup::display_text(key)
    } else if markup::is_radio(key) {
        "+R "@ + or_display(markup::radio_text(key), key) + " ["@ + chosen_text(children, 0) + "]"@
    } else if markup::is_input(key) {
        "+i "@ + markup::display_text(key)
    } else {
        "+ "@ + markup::display_text(key)
    }
}

/// The label of an element.
pub open spec fn node_label(n: Node, parent_has_radio: bool) -> Seq<char> {
    match n {
        Node::Str(s) => str_label(s, parent_has_radio),
        Node::Obj { key, children } => obj_label(key, children),
    }
}

fn strip_opt(s: &str) -> (r: String)
    ensures
        r@ == without_opt(s@),
{
    if has_one_opt(s) {
        strip_one_opt(s).to_owned()
    } else if has_many_opt(s) {
        strip_many_opt(s).to_owned()
    } else {
        s.to_owned()
    }
}

fn editor_line(s: &str) -> (r: bool)
    ensures
        r == is_editor_line(s@),
{
    match extract_input(s) {
        Some(inner) => has_src(inner.as_str()),
        None => false,
    }
}

fn unwrap_or_display(o: Option<String>, s: &str) -> (r: String)
    ensures
        r@ == or_display(text::opt_text(o), s@),
{
    match o {
        Some(x) => x,
        None => strip_display(s),
    }
}

/// The label of a leaf.
pub fn build_str_label(text: &str, parent_has_radio: bool) -> (r: String)
    ensures
        r@ == str_label(text@, parent_has_radio),
{
    let stripped = strip_opt(text);
    let s = stripped.as_str();
    if is_ci_placeholder(s) {
        return "ci".to_owned();
    }
    if editor_line(s) {
        return text::concat("-ci ", strip_display(s).as_str());
    }
    if has_image(s) {
        text::concat("-p ", strip_display(s).as_str())
    } else if has_checkbox_checked(s) {
        text::concat("-cc ", unwrap_or_display(extract_checkbox_checked(s), s).as_str())
    } else if has_checkbox(s) {
        text::concat("-c ", unwrap_or_display(extract_checkbox(s), s).as_str())
    } else if has_checked(s) {
        text::concat("-rc ", unwrap_or_display(extract_checked(s), s).as_str())
    } else if has_button(s) {
        text::concat("-b ", strip_display(s).as_str())
    } else if has_input(s) {
        let content = strip_display(s);
        if text::same(text::trim(content.as_str()).as_str(), "i") {
            return "i".to_owned();
        }
        text::concat("-i ", content.as_str())
    } else if parent_has_radio {
        text::concat("-r ", strip_display(s).as_str())
    } else {
        text::concat("- ", strip_display(s).as_str())
    }
}

fn chosen_child(children: &Vec<FfonElement>) -> (r: String)
    ensures
        r@ == chosen_text(ffon::forest(children@), 0),
{
    let mut i: usize = 0;
    while i < children.len()
        invariant
            i <= children.len(),
            chosen_text(ffon::forest(children@), 0) == chosen_text(
                ffon::forest(children@),
                i as int,
            ),
        decreases children.len() - i,
    {
        assert(ffon::forest(children@)[i as int] == children@[i as int]@);
        match &children[i] {
            FfonElement::Str(s) => {
                if has_checked(s.as_str()) {
                    return unwrap_or_display(extract_checked(s.as_str()), s.as_str());
                }
            },
            FfonElement::Obj(_) => {},
        }
        i += 1;
    }
    String::new()
}

/// The label of a branch.
pub fn build_obj_label(obj: &FfonObject) -> (r: String)
    ensures
        r@ == obj_label(obj.key@, ffon::forest(obj.children@)),
{
    let stripped = strip_opt(obj.key.as_str());
    let key = stripped.as_str();
    if editor_line(key) {
        return text::concat("+ci ", strip_display(key).as_str());
    }
    if has_dir(key) {
        return text::concat("+di ", strip_display(key).as_str());
    }
    if has_file(key) {
        return text::concat("+fi ", strip_display(key).as_str());
    }
    if has_checkbox_checked(key) {
        text::concat("+cc ", unwrap_or_display(extract_checkbox_checked(key), key).as_str())
    } else if has_checkbox(key) {
        text::concat("+c ", unwrap_or_display(extract_checkbox(key), key).as_str())
    } else if has_link(key) {
        text::concat("+l ", strip_display(key).as_str())
    } else if has_radio(key) {
        let group = unwrap_or_display(extract_radio(key), key);
        let state = chosen_child(&obj.children);
        let head = text::concat3("+R ", group.as_str(), " [");
        text::concat3(head.as_str(), state.as_str(), "]")
    } else if has_input(key) {
        text::concat("+i ", strip_display(key).as_str())
    } else {
        text::concat("+ ", strip_display(key).as_str())
    }
}

/// The label of an element.
pub fn build_label_for_element(elem: &FfonElement, parent_has_radio: bool) -> (r: String)
    ensures
        r@ == node_label(elem@, parent_has_radio),
{
    match elem {
        FfonElement::Str(s) => build_str_label(s.as_str(), parent_has_radio),
        FfonElement::Obj(obj) => {
            proof {
                ffon::lemma_obj_view(*obj);
            }
            build_obj_label(obj)
        },
    }
}

/// The first `n` items that match, in the order of the list.
pub open spec fn matching(list: Seq<ItemView>, search: Seq<char>, n: int) -> Seq<usize>
    decreases n,
{
    if n <= 0 {
        Seq::empty()
    } else if fuzzy::label_match(search, list[n - 1].label) is Some {
        matching(list, search, n - 1).push((n - 1) as usize)
    } else {
        matching(list, search, n - 1)
    }
}

/// The score of an item.
pub open spec fn score(list: Seq<ItemView>, search: Seq<char>, i: usize) -> u32 {
    (fuzzy::label_match(search, list[i as int].label)->0).0
}

/// The order of matching items: the better match first, and of equal matches
/// the one that is first in the list.
pub open spec fn better(list: Seq<ItemView>, search: Seq<char>) -> spec_fn(usize, usize) -> bool {
    |a: usize, b: usize|
        score(list, search, a) > score(list, search, b) || (score(list, search, a) == score(
            list,
            search,
            b,
        ) && a <= b)
}

/// The items that match, best first.
pub open spec fn ranking(list: Seq<ItemView>, search: Seq<char>) -> Seq<usize> {
    matching(list, search, list.len() as int).sort_by(better(list, search))
}

/// The places in an item's label that match, in ascending order.
pub open spec fn places(list: Seq<ItemView>, search: Seq<char>, i: usize) -> Seq<u32> {
    (fuzzy::label_match(search, list[i as int].label)->0).1.sort_by(sorting::ascending())
}

/// `i`, or the last index of a list of `len` items where `i` is behind it.
pub open spec fn clamped(i: usize, len: nat) -> usize {
    if i < len {
        i
    } else if len > 0 {
        (len - 1) as usize
    } else {
        0
    }
}

/// `u` with its list searched for `search`.
#[verifier::opaque]
pub open spec fn filtered(u: Ui, search: Seq<char>) -> Ui {
    if search.len() == 0 {
        Ui { filtered_list_indices: Seq::empty(), fuzzy_match_positions: Seq::empty(), ..u }
    } else {
        let rank = ranking(u.total_list, search);
        Ui {
            filtered_list_indices: rank,
            fuzzy_match_positions: Seq::new(
                rank.len(),
                |k: int| places(u.total_list, search, rank[k]),
            ),
            list_index: clamped(u.list_index, rank.len()),
            ..u
        }
    }
}

proof fn lemma_better_total(list: Seq<ItemView>, search: Seq<char>)
    ensures
        vstd::relations::total_ordering(better(list, search)),
{
}

struct Scored {
    index: usize,
    score: u32,
    places: Vec<u32>,
}

spec fn indices(s: Seq<Scored>) -> Seq<usize> {
    Seq::new(s.len(), |i: int| s[i].index)
}

spec fn scored_ok(s: Seq<Scored>, list: Seq<ItemView>, search: Seq<char>) -> bool {
    forall|i: int|
        0 <= i < s.len() ==> {
            &&& (#[trigger] s[i]).index < list.len()
            &&& fuzzy::label_match(search, list[s[i].index as int].label) is Some
            &&& s[i].score == score(list, search, s[i].index)
            &&& s[i].places@ == places(list, search, s[i].index)
        }
}

fn rank_items(list: &Vec<RenderListItem>, search: &str) -> (r: Vec<Scored>)
    ensures
        scored_ok(r@, app_state::items(list@), search@),
        indices(r@) == ranking(app_state::items(list@), search@),
{
    let ghost views = app_state::items(list@);
    let ghost leq = better(views, search@);
    let mut r: Vec<Scored> = Vec::new();
    let mut i: usize = 0;
    proof {
        assert(indices(r@) =~= Seq::<usize>::empty());
    }
    while i < list.len()
        invariant
            i <= list.len(),
            views == app_state::items(list@),
            leq == better(views, search@),
            scored_ok(r@, views, search@),
            vstd::relations::sorted_by(indices(r@), leq),
            indices(r@).to_multiset() == matching(views, search@, i as int).to_multiset(),
            forall|k: int| 0 <= k < r@.len() ==> (#[trigger] r@[k]).index < i,
        decreases list.len() - i,
    {
        let label = list[i].label.as_str();
        assert(views[i as int].label == label@);
        let found = fuzzy::match_label(search, label);
        if let Some((points, unsorted)) = found {
            let mut k: usize = 0;
            while k < r.len() && r[k].score >= points
                invariant
                    k <= r.len(),
                    forall|m: int| 0 <= m < k ==> (#[trigger] r@[m]).score >= points,
                decreases r.len() - k,
            {
                k += 1;
            }
            let ghost before = r@;
            let sorted = sorting::sort_ascending(&unsorted);
            r.insert(k, Scored { index: i, score: points, places: sorted });
            proof {
                broadcast use vstd::seq_lib::group_to_multiset_ensures;

                assert(indices(r@) =~= indices(before).insert(k as int, i));
                sorting::lemma_insert_multiset(indices(before), k as int, i);
                assert forall|a: int, b: int| 0 <= a < b < r@.len() implies leq(
                    indices(r@)[a],
                    indices(r@)[b],
                ) by {
                    let pa = if a < k {
                        a
                    } else {
                        a - 1
                    };
                    let pb = if b < k {
                        b
                    } else {
                        b - 1
                    };
                    if a != k && b != k {
                        assert(leq(indices(before)[pa], indices(before)[pb]));
                    } else if a == k {
                        assert(before[k as int].score < points);
                        if k < pb {
                            assert(leq(indices(before)[k as int], indices(before)[pb]));
                        }
                        assert(before[pb].score == score(views, search@, before[pb].index));
                    } else {
                        assert(before[pa].score >= points);
                    }
                }
            }
        }
        i += 1;
    }
    proof {
        lemma_better_total(views, search@);
        sorting::lemma_is_sort(indices(r@), matching(views, search@, list@.len() as int), leq);
    }
    r
}

/// Search the list for `search`: keep what matches, the best match first.
#[verifier::rlimit(40)]
pub fn populate_list_current_layer(renderer: &mut AppRenderer, search: &str)
    ensures
        final(renderer)@ == filtered(old(renderer)@, search@),
{
    proof {
        reveal(filtered);
    }
    renderer.filtered_list_indices.clear();
    renderer.fuzzy_match_positions.clear();
    assert(renderer@.fuzzy_match_positions =~= Seq::<Seq<u32>>::empty());
    if search.is_empty() {
        return;
    }
    let scored = rank_items(&renderer.total_list, search);
    let ghost list = renderer@.total_list;
    let ghost rank = ranking(list, search@);
    let mut places_of: Vec<Vec<u32>> = Vec::new();
    let mut index_of: Vec<usize> = Vec::new();
    let mut i: usize = 0;
    while i < scored.len()
        invariant
            i <= scored.len(),
            index_of.len() == i,
            places_of.len() == i,
            scored_ok(scored@, list, search@),
            indices(scored@) == rank,
            forall|k: int| 0 <= k < i ==> index_of@[k] == rank[k],
            forall|k: int|
                0 <= k < i ==> (#[trigger] places_of@[k])@ == places(list, search@, rank[k]),
        decreases scored.len() - i,
    {
        assert(rank[i as int] == scored@[i as int].index);
        index_of.push(scored[i].index);
        places_of.push(vstd::slice::slice_to_vec(scored[i].places.as_slice()));
        i += 1;
    }
    assert(index_of@ =~= rank);
    let active_len: usize = index_of.len();
    renderer.filtered_list_indices = index_of;
    renderer.fuzzy_match_positions = places_of;
    assert(renderer@.fuzzy_match_positions =~= Seq::new(
        rank.len(),
        |k: int| places(list, search@, rank[k]),
    ));
    if renderer.list_index >= active_len {
        renderer.list_index = if active_len > 0 {
            active_len - 1
        } else {
            0
        };
    }
}

/// An item without more than its place and its label.
pub open spec fn plain_item(id: Seq<usize>, label: Seq<char>) -> ItemView {
    ItemView { id, label, data: None, nav_path: None }
}

/// Whether an element is left out while a file to open is chosen.
pub open spec fn hidden(n: Node) -> bool {
    match n {
        Node::Str(s) => !markup::ends_with(
            (match markup::input_text(s) {
                Some(x) => x,
                None => s,
            }),
            ".json"@,
        ),
        Node::Obj { .. } => false,
    }
}

/// The image that an element shows.
pub open spec fn node_image(n: Node) -> Option<Seq<char>> {
    match n {
        Node::Str(s) => if markup::is_image(s) {
            markup::image_text(s)
        } else {
            None
        },
        Node::Obj { .. } => None,
    }
}

/// The items of the first `n` elements of a layer; with `only_json` those
/// that are no candidates for opening are left out.
pub open spec fn layer_items(
    layer: Seq<Node>,
    base_id: Seq<usize>,
    parent_has_radio: bool,
    only_json: bool,
    n: int,
) -> Seq<ItemView>
    decreases n,
{
    if n <= 0 {
        Seq::empty()
    } else {
        let before = layer_items(layer, base_id, parent_has_radio, only_json, n - 1);
        let e = layer[n - 1];
        if only_json && hidden(e) {
            before
        } else {
            before.push(
                ItemView {
                    id: ffon::with_last(base_id, (n - 1) as usize),
                    label: node_label(e, parent_has_radio),
                    data: node_image(e),
                    nav_path: None,
                },
            )
        }
    }
}

/// The first item at or behind `from` whose place ends in `idx`; 0 where
/// there is none.
pub open spec fn item_index(list: Seq<ItemView>, idx: usize, from: int) -> usize
    decreases list.len() - from,
{
    if from < 0 || from >= list.len() {
        0
    } else if list[from].id.len() > 0 && list[from].id.last() == idx {
        from as usize
    } else {
        item_index(list, idx, from + 1)
    }
}

/// Whether the branch that the layer of `id` belongs to is a group of radio
/// buttons.
pub open spec fn radio_above(root: Seq<Node>, id: Seq<usize>) -> bool {
    id.len() >= 2 && (ffon::element_at(root, id.drop_last()) matches Some(Node::Obj {
        key,
        ..
    }) && markup::is_radio(key))
}

/// `u` without a list and without an error.
pub open spec fn unlisted(u: Ui) -> Ui {
    Ui {
        total_list: Seq::empty(),
        filtered_list_indices: Seq::empty(),
        error_message: Seq::empty(),
        ..u
    }
}

/// `u` with the layer of its position listed.
#[verifier::opaque]
pub open spec fn layer_listed(u: Ui) -> Ui {
    match ffon::layer_at(u.ffon, u.current_id) {
        Some(layer) => {
            let rows = layer_items(
                layer,
                u.current_id,
                radio_above(u.ffon, u.current_id),
                u.pending_file_browser_open,
                layer.len() as int,
            );
            let v = Ui {
                total_list: rows,
                list_index: item_index(rows, ffon::last_or_zero(u.current_id), 0),
                ..unlisted(u)
            };
            if u.search_string.len() > 0 {
                filtered(v, u.search_string)
            } else {
                v
            }
        },
        None => Ui { list_index: 0, ..unlisted(u) },
    }
}

/// The items of the first `n` elements of `arr` and of everything below them,
/// each with the path to it.
pub open spec fn deep_items(
    arr: Seq<Node>,
    base_id: Seq<usize>,
    breadcrumb: Seq<char>,
    parent_has_radio: bool,
    n: int,
) -> Seq<ItemView>
    decreases arr, n,
{
    if n <= 0 || n > arr.len() {
        Seq::empty()
    } else {
        let e = arr[n - 1];
        let id = ffon::with_last(base_id, (n - 1) as usize);
        let upto = deep_items(arr, base_id, breadcrumb, parent_has_radio, n - 1).push(
            ItemView {
                id,
                label: node_label(e, parent_has_radio),
                data: if breadcrumb.len() == 0 {
                    None
                } else {
                    Some(breadcrumb)
                },
                nav_path: None,
            },
        );
        match e {
            Node::Obj { key, children } => upto + deep_items(
                children,
                id.push(0),
                breadcrumb + markup::display_text(key) + " > "@,
                markup::is_radio(key),
                children.len() as int,
            ),
            Node::Str(_) => upto,
        }
    }
}

/// `u` with everything at and below its position listed.
#[verifier::opaque]
pub open spec fn search_listed(u: Ui) -> Ui {
    match ffon::layer_at(u.ffon, u.current_id) {
        Some(layer) => {
            let rows = deep_items(
                layer,
                u.current_id,
                Seq::empty(),
                false,
                layer.len() as int,
            );
            Ui { total_list: rows, list_index: clamped(u.list_index, rows.len()), ..unlisted(u) }
        },
        None => unlisted(u),
    }
}

fn check_parent_has_radio(ffon: &Vec<FfonElement>, id: &IdArray) -> (r: bool)
    ensures
        r == radio_above(ffon::forest(ffon@), id@),
{
    if id.depth() < 2 {
        return false;
    }
    let mut parent_id = id.clone();
    parent_id.pop();
    match ffon::get_element_at(ffon, &parent_id) {
        Some(e) => match e.as_obj() {
            Some(o) => has_radio(o.key.as_str()),
            None => false,
        },
        None => false,
    }
}

fn is_hidden(elem: &FfonElement) -> (r: bool)
    ensures
        r == hidden(elem@),
{
    match elem {
        FfonElement::Str(s) => {
            let name = match extract_input(s.as_str()) {
                Some(x) => x,
                None => s.clone(),
            };
            !text::ends_with(name.as_str(), ".json")
        },
        FfonElement::Obj(_) => false,
    }
}

fn image_of(elem: &FfonElement) -> (r: Option<String>)
    ensures
        text::opt_text(r) == node_image(elem@),
{
    match elem {
        FfonElement::Str(s) => {
            if has_image(s.as_str()) {
                extract_image(s.as_str())
            } else {
                None
            }
        },
        FfonElement::Obj(_) => None,
    }
}

fn find_item(list: &Vec<RenderListItem>, idx: usize) -> (r: usize)
    ensures
        r == item_index(app_state::items(list@), idx, 0),
{
    let mut i: usize = 0;
    while i < list.len()
        invariant
            i <= list.len(),
            item_index(app_state::items(list@), idx, 0) == item_index(
                app_state::items(list@),
                idx,
                i as int,
            ),
        decreases list.len() - i,
    {
        if let Some(last) = list[i].id.last() {
            if last == idx {
                return i;
            }
        }
        i += 1;
    }
    0
}

fn items_of_layer(
    layer: &Vec<FfonElement>,
    base_id: &IdArray,
    parent_has_radio: bool,
    only_json: bool,
) -> (r: Vec<RenderListItem>)
    ensures
        app_state::items(r@) == layer_items(
            ffon::forest(layer@),
            base_id@,
            parent_has_radio,
            only_json,
            layer@.len() as int,
        ),
{
    let mut r: Vec<RenderListItem> = Vec::new();
    let mut i: usize = 0;
    assert(app_state::items(r@) =~= Seq::<ItemView>::empty());
    while i < layer.len()
        invariant
            i <= layer.len(),
            app_state::items(r@) == layer_items(
                ffon::forest(layer@),
                base_id@,
                parent_has_radio,
                only_json,
                i as int,
            ),
        decreases layer.len() - i,
    {
        let elem = &layer[i];
        assert(ffon::forest(layer@)[i as int] == elem@);
        if !(only_json && is_hidden(elem)) {
            let mut id = base_id.clone();
            id.set_last(i);
            let item = RenderListItem {
                id,
                label: build_label_for_element(elem, parent_has_radio),
                data: image_of(elem),
                nav_path: None,
            };
            let ghost before = r@;
            r.push(item);
            assert(app_state::items(r@) =~= app_state::items(before).push(item@));
        }
        i += 1;
    }
    r
}

fn collect_items_recursive(
    arr: &Vec<FfonElement>,
    base_id: &IdArray,
    breadcrumb: &str,
    parent_has_radio: bool,
    out: &mut Vec<RenderListItem>,
)
    ensures
        app_state::items(final(out)@) == app_state::items(old(out)@) + deep_items(
            ffon::forest(arr@),
            base_id@,
            breadcrumb@,
            parent_has_radio,
            arr@.len() as int,
        ),
    decreases arr,
{
    let ghost nodes = ffon::forest(arr@);
    let ghost start = app_state::items(out@);
    let mut i: usize = 0;
    assert(start + Seq::<ItemView>::empty() =~= start);
    while i < arr.len()
        invariant
            i <= arr.len(),
            nodes == ffon::forest(arr@),
            app_state::items(out@) == start + deep_items(
                nodes,
                base_id@,
                breadcrumb@,
                parent_has_radio,
                i as int,
            ),
        decreases arr.len() - i,
    {
        let elem = &arr[i];
        assert(nodes[i as int] == elem@);
        let mut id = base_id.clone();
        id.set_last(i);
        let item = RenderListItem {
            id: id.clone(),
            label: build_label_for_element(elem, parent_has_radio),
            data: if breadcrumb.is_empty() {
                None
            } else {
                Some(breadcrumb.to_owned())
            },
            nav_path: None,
        };
        let ghost before = out@;
        out.push(item);
        assert(app_state::items(out@) =~= app_state::items(before).push(item@));
        if let FfonElement::Obj(obj) = elem {
            proof {
                ffon::lemma_obj_view(*obj);
            }
            let crumb = text::concat3(breadcrumb, strip_display(obj.key.as_str()).as_str(), " > ");
            let radio = has_radio(obj.key.as_str());
            id.push(0);
            assert(decreases_to!(arr@ => arr@[i as int]));
            collect_items_recursive(&obj.children, &id, crumb.as_str(), radio, out);
        }
        assert(app_state::items(out@) =~= start + deep_items(
            nodes,
            base_id@,
            breadcrumb@,
            parent_has_radio,
            i + 1,
        ));
        i += 1;
    }
}

/// Take the list and the error away.
fn clear_list(renderer: &mut AppRenderer)
    ensures
        final(renderer)@ == unlisted(old(renderer)@),
{
    renderer.total_list.clear();
    renderer.filtered_list_indices.clear();
    renderer.error_message = String::new();
    assert(renderer@.total_list =~= Seq::<ItemView>::empty());
}

/// List everything at and below the position.
#[verifier::rlimit(40)]
pub fn create_list_extended_search(renderer: &mut AppRenderer)
    ensures
        final(renderer)@ == search_listed(old(renderer)@),
{
    proof {
        reveal(search_listed);
    }
    clear_list(renderer);
    let mut rows: Vec<RenderListItem> = Vec::new();
    assert(app_state::items(rows@) =~= Seq::<ItemView>::empty());
    match ffon::get_ffon_at_id(&renderer.ffon, &renderer.current_id) {
        Some(layer) => {
            proof {
                reveal_strlit("");
                assert(""@ =~= Seq::<char>::empty());
            }
            collect_items_recursive(layer, &renderer.current_id, "", false, &mut rows);
        },
        None => {
            return;
        },
    }
    proof {
        let deep = deep_items(
            ffon::layer_at(renderer@.ffon, renderer@.current_id)->0,
            renderer@.current_id,
            Seq::empty(),
            false,
            ffon::layer_at(renderer@.ffon, renderer@.current_id)->0.len() as int,
        );
        assert(Seq::<ItemView>::empty() + deep =~= deep);
    }
    let n: usize = rows.len();
    renderer.total_list = rows;
    if renderer.list_index >= n {
        renderer.list_index = if n > 0 {
            n - 1
        } else {
            0
        };
    }
}

/// What the label of a step needs to know of a provider.
pub struct TimelineProviderInfo {
    pub display_name: String,
    pub path_is_filesystem: bool,
}

/// What the label of a step needs to know of a provider, as values.
pub struct ProviderLabel {
    pub display_name: Seq<char>,
    pub path_is_filesystem: bool,
}

impl View for TimelineProviderInfo {
    type V = ProviderLabel;

    open spec fn view(&self) -> ProviderLabel {
        ProviderLabel {
            display_name: self.display_name@,
            path_is_filesystem: self.path_is_filesystem,
        }
    }
}

/// What the labels of steps need to know of the providers.
pub open spec fn provider_labels(s: Seq<TimelineProviderInfo>) -> Seq<ProviderLabel> {
    Seq::new(s.len(), |i: int| s[i]@)
}

/// A path as the user reads it: a file path as it is, another one as the names
/// on the way, and the name of the provider where there are none.
pub open spec fn nav_path_text(path: Seq<char>, is_fs: bool, fallback: Seq<char>) -> Seq<char> {
    let segments = text::nonempty(text::split(path, '/', '/'));
    if is_fs {
        path
    } else if segments.len() == 0 {
        fallback
    } else {
        text::joined(segments, " > "@)
    }
}

/// A path as the user reads it.
pub fn render_nav_path(path: &str, is_fs: bool, fallback: &str) -> (r: String)
    ensures
        r@ == nav_path_text(path@, is_fs, fallback@),
{
    if is_fs {
        return path.to_owned();
    }
    let segments = text::split_nonempty(path, '/', '/');
    assert(text::texts(segments@).len() == segments.len());
    if segments.len() == 0 {
        fallback.to_owned()
    } else {
        text::join(&segments, " > ")
    }
}

/// One end of a navigation as the user reads it.
pub open spec fn nav_end_text(
    id: Seq<usize>,
    path: Option<Seq<char>>,
    providers: Seq<ProviderLabel>,
) -> Seq<char> {
    let known = id.len() > 0 && id[0] < providers.len();
    let fallback = if known {
        providers[id[0] as int].display_name
    } else {
        "?"@
    };
    match path {
        Some(p) => nav_path_text(p, known && providers[id[0] as int].path_is_filesystem, fallback),
        None => fallback,
    }
}

fn render_nav_end(
    id: &IdArray,
    path: &Option<String>,
    providers: &Vec<TimelineProviderInfo>,
) -> (r: String)
    ensures
        r@ == nav_end_text(id@, text::opt_text(*path), provider_labels(providers@)),
{
    let (fallback, is_fs) = match id.get(0) {
        Some(i) => if i < providers.len() {
            (providers[i].display_name.clone(), providers[i].path_is_filesystem)
        } else {
            ("?".to_owned(), false)
        },
        None => ("?".to_owned(), false),
    };
    match path {
        Some(p) => render_nav_path(p.as_str(), is_fs, fallback.as_str()),
        None => fallback,
    }
}

/// The name of an arrow key.
pub open spec fn nav_name(kind: NavKind) -> Seq<char> {
    match kind {
        NavKind::ArrowUp => "ArrowUp"@,
        NavKind::ArrowDown => "ArrowDown"@,
        NavKind::ArrowLeft => "ArrowLeft"@,
        NavKind::ArrowRight => "ArrowRight"@,
    }
}

fn nav_kind_name(kind: NavKind) -> (r: &'static str)
    ensures
        r@ == nav_name(kind),
{
    match kind {
        NavKind::ArrowUp => "ArrowUp",
        NavKind::ArrowDown => "ArrowDown",
        NavKind::ArrowLeft => "ArrowLeft",
        NavKind::ArrowRight => "ArrowRight",
    }
}

/// The name of a structural change.
pub open spec fn structural_name(op: StructuralOp) -> Seq<char> {
    match op {
        StructuralOp::Append => "Append"@,
        StructuralOp::Insert => "Insert"@,
        StructuralOp::Delete => "Delete"@,
        StructuralOp::Cut => "Cut"@,
        StructuralOp::Paste => "Paste"@,
        StructuralOp::Replace => "Replace"@,
    }
}

fn structural_op_name(op: StructuralOp) -> (r: &'static str)
    ensures
        r@ == structural_name(op),
{
    match op {
        StructuralOp::Append => "Append",
        StructuralOp::Insert => "Insert",
        StructuralOp::Delete => "Delete",
        StructuralOp::Cut => "Cut",
        StructuralOp::Paste => "Paste",
        StructuralOp::Replace => "Replace",
    }
}

/// The name of a file operation.
pub open spec fn fs_name(op: FsOpKind) -> Seq<char> {
    match op {
        FsOpKind::Create => "Create"@,
        FsOpKind::Rename => "Rename"@,
        FsOpKind::Delete => "Delete"@,
        FsOpKind::Move => "Move"@,
        FsOpKind::Paste => "Paste"@,
    }
}

fn fs_op_name(op: FsOpKind) -> (r: &'static str)
    ensures
        r@ == fs_name(op),
{
    match op {
        FsOpKind::Create => "Create",
        FsOpKind::Rename => "Rename",
        FsOpKind::Delete => "Delete",
        FsOpKind::Move => "Move",
        FsOpKind::Paste => "Paste",
    }
}

/// The indices of a path.
pub open spec fn id_text(id: Seq<usize>) -> Seq<char> {
    text::joined(Seq::new(id.len(), |i: int| text::decimal(id[i] as nat)), ","@)
}

fn id_display(id: &IdArray) -> (r: String)
    ensures
        r@ == id_text(id@),
{
    let mut parts: Vec<String> = Vec::new();
    let mut i: usize = 0;
    while i < id.depth()
        invariant
            i <= id@.len(),
            parts.len() == i,
            forall|k: int| 0 <= k < i ==> (#[trigger] parts@[k])@ == text::decimal(id@[k] as nat),
        decreases id@.len() - i,
    {
        parts.push(text::number(id.ids[i] as u64));
        i += 1;
    }
    assert(text::texts(parts@) =~= Seq::new(id@.len(), |k: int| text::decimal(id@[k] as nat)));
    text::join(&parts, ",")
}

/// `s`, or its first `max` characters with an ellipsis.
pub open spec fn shortened(s: Seq<char>, max: nat) -> Seq<char> {
    if s.len() <= max {
        s
    } else {
        s.take(max as int) + "\u{2026}"@
    }
}

fn shorten(s: &str, max: usize) -> (r: String)
    ensures
        r@ == shortened(s@, max as nat),
{
    if s.unicode_len() <= max {
        s.to_owned()
    } else {
        text::concat(text::take_chars(s, max).as_str(), "\u{2026}")
    }
}

/// A short form of an element's text.
pub open spec fn snippet(n: Node, max: nat) -> Seq<char> {
    let raw = ffon::node_text(n);
    shortened(
        match markup::input_text(raw) {
            Some(x) => x,
            None => raw,
        },
        max,
    )
}

fn ffon_str_snippet(elem: &FfonElement, max: usize) -> (r: String)
    ensures
        r@ == snippet(elem@, max as nat),
{
    let raw = elem.text();
    match extract_input(raw) {
        Some(x) => shorten(x.as_str(), max),
        None => shorten(raw, max),
    }
}

/// What a file operation was about.
pub open spec fn fs_text(
    before: Option<Node>,
    after: Option<Node>,
    side_effect: SideEffectView,
) -> Seq<char> {
    match side_effect {
        SideEffectView::RenameOnly { from, to } => from + " > "@ + to,
        SideEffectView::TrashedFile { original_path, .. } => original_path,
        SideEffectView::TrashedDir { original_path, .. } => original_path,
        SideEffectView::NoSideEffect => match (before, after) {
            (Some(b), Some(a)) => snippet(b, 30) + " > "@ + snippet(a, 30),
            (None, Some(a)) => snippet(a, 60),
            (Some(b), None) => snippet(b, 60),
            (None, None) => Seq::empty(),
        },
    }
}

fn fs_summary(
    before: &Option<FfonElement>,
    after: &Option<FfonElement>,
    side_effect: &FsSideEffect,
) -> (r: String)
    ensures
        r@ == fs_text(ffon::opt_node(*before), ffon::opt_node(*after), side_effect@),
{
    match side_effect {
        FsSideEffect::RenameOnly { from, to } => {
            text::concat3(from.as_str(), " > ", to.as_str())
        },
        FsSideEffect::TrashedFile { original_path, .. } => original_path.clone(),
        FsSideEffect::TrashedDir { original_path, .. } => original_path.clone(),
        FsSideEffect::NoSideEffect => match (before, after) {
            (Some(b), Some(a)) => text::concat3(
                ffon_str_snippet(b, 30).as_str(),
                " > ",
                ffon_str_snippet(a, 30).as_str(),
            ),
            (None, Some(a)) => ffon_str_snippet(a, 60),
            (Some(b), None) => ffon_str_snippet(b, 60),
            (None, None) => String::new(),
        },
    }
}

/// A truth value in words.
pub open spec fn bool_text(b: bool) -> Seq<char> {
    if b {
        "true"@
    } else {
        "false"@
    }
}

fn bool_name(b: bool) -> (r: &'static str)
    ensures
        r@ == bool_text(b),
{
    if b {
        "true"
    } else {
        "false"
    }
}

/// What a mailbox operation was about.
pub open spec fn imap_text(op: ImapView) -> Seq<char> {
    match op {
        ImapView::Trash { msg_id, src_folder, .. } => "Trash "@ + msg_id + " from "@ + src_folder,
        ImapView::Archive { msg_id, src_folder, .. } => "Archive "@ + msg_id + " from "@
            + src_folder,
        ImapView::Move { msg_id, src_folder, dst_folder } => "Move "@ + msg_id + " "@ + src_folder
            + " > "@ + dst_folder,
        ImapView::SetSeen { msg_uid, folder, new, .. } => "SetSeen uid="@ + text::decimal(
            msg_uid as nat,
        ) + " "@ + folder + " > "@ + bool_text(new),
        ImapView::SetFlagged { msg_uid, folder, new, .. } => "SetFlagged uid="@ + text::decimal(
            msg_uid as nat,
        ) + " "@ + folder + " > "@ + bool_text(new),
    }
}

fn imap_op_summary(op: &ImapOpKind) -> (r: String)
    ensures
        r@ == imap_text(op@),
{
    let mut r = String::new();
    proof {
        assert(forall|a: Seq<char>| Seq::<char>::empty() + a =~= a);
    }
    match op {
        ImapOpKind::Trash { msg_id, src_folder, .. } => {
            r.append("Trash ");
            r.append(msg_id.as_str());
            r.append(" from ");
            r.append(src_folder.as_str());
        },
        ImapOpKind::Archive { msg_id, src_folder, .. } => {
            r.append("Archive ");
            r.append(msg_id.as_str());
            r.append(" from ");
            r.append(src_folder.as_str());
        },
        ImapOpKind::Move { msg_id, src_folder, dst_folder } => {
            r.append("Move ");
            r.append(msg_id.as_str());
            r.append(" ");
            r.append(src_folder.as_str());
            r.append(" > ");
            r.append(dst_folder.as_str());
        },
        ImapOpKind::SetSeen { msg_uid, folder, new, .. } => {
            r.append("SetSeen uid=");
            r.append(text::number(*msg_uid as u64).as_str());
            r.append(" ");
            r.append(folder.as_str());
            r.append(" > ");
            r.append(bool_name(*new));
        },
        ImapOpKind::SetFlagged { msg_uid, folder, new, .. } => {
            r.append("SetFlagged uid=");
            r.append(text::number(*msg_uid as u64).as_str());
            r.append(" ");
            r.append(folder.as_str());
            r.append(" > ");
            r.append(bool_name(*new));
        },
    }
    r
}

/// What a chat operation was about.
pub open spec fn chat_text(op: ChatView) -> Seq<char> {
    match op {
        ChatView::LeaveRoom { room_id } => "LeaveRoom "@ + room_id,
        ChatView::AcceptInvite { room_id } => "AcceptInvite "@ + room_id,
        ChatView::RejectInvite { room_id } => "RejectInvite "@ + room_id,
        ChatView::KickMember { room_id, user_id, .. } => "KickMember "@ + user_id + " from "@
            + room_id,
        ChatView::BanMember { room_id, user_id, .. } => "BanMember "@ + user_id + " from "@
            + room_id,
        ChatView::PostMessage { room_id, body, .. } => "PostMessage "@ + room_id + " \""@
            + shortened(body, 30) + "\""@,
    }
}

fn chat_op_summary(op: &ChatOpKind) -> (r: String)
    ensures
        r@ == chat_text(op@),
{
    match op {
        ChatOpKind::LeaveRoom { room_id } => text::concat("LeaveRoom ", room_id.as_str()),
        ChatOpKind::AcceptInvite { room_id } => text::concat("AcceptInvite ", room_id.as_str()),
        ChatOpKind::RejectInvite { room_id } => text::concat("RejectInvite ", room_id.as_str()),
        ChatOpKind::KickMember { room_id, user_id, .. } => {
            let head = text::concat("KickMember ", user_id.as_str());
            text::concat3(head.as_str(), " from ", room_id.as_str())
        },
        ChatOpKind::BanMember { room_id, user_id, .. } => {
            let head = text::concat("BanMember ", user_id.as_str());
            text::concat3(head.as_str(), " from ", room_id.as_str())
        },
        ChatOpKind::PostMessage { room_id, body, .. } => {
            let head = text::concat3("PostMessage ", room_id.as_str(), " \"");
            text::concat3(head.as_str(), shorten(body.as_str(), 30).as_str(), "\"")
        },
    }
}

/// One line that says what a step was.
pub open spec fn entry_text(entry: EntryView, providers: Seq<ProviderLabel>) -> Seq<char> {
    match entry {
        EntryView::Navigate { kind, from_id, to_id, from_path, to_path, .. } => {
            let from = nav_end_text(from_id, from_path, providers);
            let to = nav_end_text(to_id, to_path, providers);
            if from == to {
                "nav "@ + nav_name(kind) + " "@ + to
            } else {
                "nav "@ + nav_name(kind) + " "@ + from + " > "@ + to
            }
        },
        EntryView::TextChunk { id, after, chunk_seq, .. } => "type #"@ + text::decimal(
            chunk_seq as nat,
        ) + " id="@ + id_text(id) + " \""@ + snippet(after, 30) + "\""@,
        EntryView::Structure { id, op, .. } => "struct "@ + structural_name(op) + " id="@ + id_text(
            id,
        ),
        EntryView::FsOp { op, before, after, side_effect, .. } => "fs "@ + fs_name(op) + " "@
            + fs_text(before, after, side_effect),
        EntryView::ImapOp { op, .. } => "imap "@ + imap_text(op),
        EntryView::ChatOp { op, .. } => "chat "@ + chat_text(op),
        EntryView::ProviderOp { label, command, .. } => label + " ("@ + command + ")"@,
    }
}

/// One line that says what a step was.
pub fn timeline_entry_label(
    entry: &TimelineEntry,
    providers: &Vec<TimelineProviderInfo>,
) -> (r: String)
    ensures
        r@ == entry_text(entry@, provider_labels(providers@)),
{
    match entry {
        TimelineEntry::Navigate { kind, from_id, to_id, from_path, to_path, .. } => {
            let from = render_nav_end(from_id, from_path, providers);
            let to = render_nav_end(to_id, to_path, providers);
            let mut r = "nav ".to_owned();
            r.append(nav_kind_name(*kind));
            r.append(" ");
            if !text::same(from.as_str(), to.as_str()) {
                r.append(from.as_str());
                r.append(" > ");
            }
            r.append(to.as_str());
            r
        },
        TimelineEntry::TextChunk { id, after, chunk_seq, .. } => {
            let mut r = "type #".to_owned();
            r.append(text::number(*chunk_seq as u64).as_str());
            r.append(" id=");
            r.append(id_display(id).as_str());
            r.append(" \"");
            r.append(ffon_str_snippet(after, 30).as_str());
            r.append("\"");
            r
        },
        TimelineEntry::Structure { id, op, .. } => {
            let mut r = "struct ".to_owned();
            r.append(structural_op_name(*op));
            r.append(" id=");
            r.append(id_display(id).as_str());
            r
        },
        TimelineEntry::FsOp { op, before, after, side_effect, .. } => {
            let mut r = "fs ".to_owned();
            r.append(fs_op_name(*op));
            r.append(" ");
            r.append(fs_summary(before, after, side_effect).as_str());
            r
        },
        TimelineEntry::ImapOp { op, .. } => text::concat("imap ", imap_op_summary(op).as_str()),
        TimelineEntry::ChatOp { op, .. } => text::concat("chat ", chat_op_summary(op).as_str()),
        TimelineEntry::ProviderOp { label, command, .. } => {
            let mut r = label.clone();
            r.append(" (");
            r.append(command.as_str());
            r.append(")");
            r
        },
    }
}

/// What the labels of steps need to know of the providers on the screen.
pub open spec fn labels_of(providers: Seq<ProviderView>) -> Seq<ProviderLabel> {
    Seq::new(
        providers.len(),
        |i: int|
            ProviderLabel {
                display_name: providers[i].display_name,
                path_is_filesystem: providers[i].path_is_filesystem,
            },
    )
}

/// How a step is marked: the next one to undo, one that is undone, or an
/// older one.
pub open spec fn entry_mark(len: nat, position: nat, i: int) -> Seq<char> {
    if i == len - position - 1 {
        "> "@
    } else if i >= len - position {
        "\u{00B7} "@
    } else {
        "  "@
    }
}

/// The steps of a timeline, the last one first.
pub open spec fn timeline_items(
    tl: TimelineState,
    providers: Seq<ProviderLabel>,
) -> Seq<ItemView> {
    if tl.entries.len() == 0 {
        seq![plain_item(seq![0usize], "  (no history)"@)]
    } else {
        Seq::new(
            tl.entries.len(),
            |k: int|
                timeline_item(tl, providers, tl.entries.len() - 1 - k),
        )
    }
}

/// The item of the step at `i`.
pub open spec fn timeline_item(
    tl: TimelineState,
    providers: Seq<ProviderLabel>,
    i: int,
) -> ItemView {
    plain_item(
        seq![i as usize],
        entry_mark(tl.entries.len(), tl.position as nat, i) + entry_text(tl.entries[i], providers),
    )
}

/// One item for each label.
pub open spec fn numbered(labels: Seq<Seq<char>>) -> Seq<ItemView> {
    Seq::new(labels.len(), |i: int| plain_item(seq![i as usize], labels[i]))
}

/// The provider that the position is in.
pub open spec fn active_provider(u: Ui) -> Option<ProviderView> {
    if u.current_id.len() > 0 && u.current_id[0] < u.providers.len() {
        Some(u.providers[u.current_id[0] as int])
    } else {
        None
    }
}

/// The hints on shortcuts at the position.
pub open spec fn meta_of(u: Ui) -> Seq<Seq<char>> {
    if u.current_id.len() <= 1 {
        u.root_meta
    } else {
        match active_provider(u) {
            Some(p) => p.meta,
            None => Seq::empty(),
        }
    }
}

/// The list of command mode: the commands of the provider, or what the chosen
/// command offers.
pub open spec fn command_items(u: Ui) -> Seq<ItemView> {
    match active_provider(u) {
        Some(p) => match u.current_command {
            CommandPhase::NoCommand => numbered(p.commands),
            CommandPhase::Provider => Seq::new(
                p.command_items.len(),
                |i: int|
                    ItemView {
                        id: seq![i as usize],
                        label: p.command_items[i].label,
                        data: None,
                        nav_path: if p.command_items[i].data.len() == 0 {
                            None
                        } else {
                            Some(p.command_items[i].data)
                        },
                    },
            ),
        },
        None => Seq::empty(),
    }
}

/// `u` with its list built anew.
#[verifier::opaque]
pub open spec fn listed(u: Ui) -> Ui {
    match u.coordinate {
        Coordinate::General | Coordinate::Insert | Coordinate::SimpleSearch => layer_listed(u),
        Coordinate::ExtendedSearch => search_listed(u),
        Coordinate::Command => Ui { total_list: command_items(u), list_index: 0, ..unlisted(u) },
        Coordinate::Meta => Ui { total_list: numbered(meta_of(u)), list_index: 0, ..unlisted(u) },
        Coordinate::TimelineView => Ui {
            total_list: timeline_items(
                u.tab_timelines[u.active_tab as int],
                labels_of(u.providers),
            ),
            list_index: 0,
            ..unlisted(u)
        },
        _ => Ui { list_index: 0, ..unlisted(u) },
    }
}

/// `u` with the list of `v`, where it stands in it, and the error of `v`.
pub open spec fn with_list_of(u: Ui, v: Ui) -> Ui {
    Ui {
        total_list: v.total_list,
        filtered_list_indices: v.filtered_list_indices,
        fuzzy_match_positions: v.fuzzy_match_positions,
        list_index: v.list_index,
        error_message: v.error_message,
        ..u
    }
}

/// Building the list anew changes the list, the place in it and the error,
/// which it takes away, and nothing else.
pub proof fn law_listing_keeps_the_rest(u: Ui)
    ensures
        listed(u) == with_list_of(u, listed(u)),
        listed(u).error_message == Seq::<char>::empty(),
{
    reveal(listed);
    reveal(layer_listed);
    reveal(search_listed);
    reveal(filtered);
}

/// Listing everything at and below the position changes the list, the place
/// in it and the error, and nothing else.
pub proof fn law_search_listing_keeps_the_rest(u: Ui)
    ensures
        search_listed(u) == with_list_of(u, search_listed(u)),
        search_listed(u).error_message == Seq::<char>::empty(),
{
    reveal(search_listed);
}

/// Searching the list changes what is kept of it and the place in it, and
/// nothing else.
pub proof fn law_filtering_keeps_the_rest(u: Ui, search: Seq<char>)
    ensures
        filtered(u, search) == (Ui {
            filtered_list_indices: filtered(u, search).filtered_list_indices,
            fuzzy_match_positions: filtered(u, search).fuzzy_match_positions,
            list_index: filtered(u, search).list_index,
            ..u
        }),
{
    reveal(filtered);
}

/// The provider that the position is in.
pub fn get_active_provider_ref(renderer: &AppRenderer) -> (r: Option<&ProviderInfo>)
    ensures
        match r {
            Some(p) => active_provider(renderer@) == Some(p@),
            None => active_provider(renderer@) is None,
        },
{
    match renderer.current_id.get(0) {
        Some(i) => if i < renderer.providers.len() {
            Some(&renderer.providers[i])
        } else {
            None
        },
        None => None,
    }
}

fn number_labels(labels: &Vec<String>) -> (r: Vec<RenderListItem>)
    ensures
        app_state::items(r@) == numbered(text::texts(labels@)),
{
    let mut r: Vec<RenderListItem> = Vec::new();
    let mut i: usize = 0;
    while i < labels.len()
        invariant
            i <= labels.len(),
            r.len() == i,
            forall|k: int|
                0 <= k < i ==> (#[trigger] r@[k])@ == plain_item(seq![k as usize], labels@[k]@),
        decreases labels.len() - i,
    {
        r.push(
            RenderListItem {
                id: IdArray::single(i),
                label: labels[i].clone(),
                data: None,
                nav_path: None,
            },
        );
        i += 1;
    }
    assert(app_state::items(r@) =~= numbered(text::texts(labels@)));
    r
}

fn number_offers(offers: &Vec<ListItem>) -> (r: Vec<RenderListItem>)
    ensures
        app_state::items(r@) == Seq::new(
            offers@.len(),
            |i: int|
                ItemView {
                    id: seq![i as usize],
                    label: offers@[i].label@,
                    data: None,
                    nav_path: if offers@[i].data@.len() == 0 {
                        None
                    } else {
                        Some(offers@[i].data@)
                    },
                },
        ),
{
    let mut r: Vec<RenderListItem> = Vec::new();
    let mut i: usize = 0;
    while i < offers.len()
        invariant
            i <= offers.len(),
            r.len() == i,
            forall|k: int|
                0 <= k < i ==> (#[trigger] r@[k])@ == (ItemView {
                    id: seq![k as usize],
                    label: offers@[k].label@,
                    data: None,
                    nav_path: if offers@[k].data@.len() == 0 {
                        None
                    } else {
                        Some(offers@[k].data@)
                    },
                }),
        decreases offers.len() - i,
    {
        let offer = &offers[i];
        r.push(
            RenderListItem {
                id: IdArray::single(i),
                label: offer.label.clone(),
                data: None,
                nav_path: if offer.data.as_str().is_empty() {
                    None
                } else {
                    Some(offer.data.clone())
                },
            },
        );
        i += 1;
    }
    r
}

fn provider_infos(providers: &Vec<ProviderInfo>) -> (r: Vec<TimelineProviderInfo>)
    ensures
        provider_labels(r@) == labels_of(app_state::infos(providers@)),
{
    let mut r: Vec<TimelineProviderInfo> = Vec::new();
    let mut i: usize = 0;
    while i < providers.len()
        invariant
            i <= providers.len(),
            r.len() == i,
            forall|k: int|
                0 <= k < i ==> (#[trigger] r@[k])@ == (ProviderLabel {
                    display_name: providers@[k].display_name@,
                    path_is_filesystem: providers@[k].path_is_filesystem,
                }),
        decreases providers.len() - i,
    {
        r.push(
            TimelineProviderInfo {
                display_name: providers[i].display_name.clone(),
                path_is_filesystem: providers[i].path_is_filesystem,
            },
        );
        i += 1;
    }
    assert(provider_labels(r@) =~= labels_of(app_state::infos(providers@)));
    r
}

/// The steps of the active tab's timeline, the last one first.
pub fn build_timeline_list(renderer: &AppRenderer) -> (r: Vec<RenderListItem>)
    requires
        app_state::tabs_ok(renderer@),
    ensures
        app_state::items(r@) == timeline_items(
            renderer@.tab_timelines[renderer@.active_tab as int],
            labels_of(renderer@.providers),
        ),
{
    let providers = provider_infos(&renderer.providers);
    let ghost labels = labels_of(renderer@.providers);
    let tl = renderer.active_timeline();
    let len: usize = tl.entries.len();
    let mut r: Vec<RenderListItem> = Vec::new();
    if len == 0 {
        r.push(
            RenderListItem {
                id: IdArray::single(0),
                label: "  (no history)".to_owned(),
                data: None,
                nav_path: None,
            },
        );
        assert(app_state::items(r@) =~= timeline_items(tl@, labels));
        return r;
    }
    let redo_start: usize = len - tl.position;
    let mut i: usize = len;
    while i > 0
        invariant
            i <= len,
            len == tl.entries.len(),
            redo_start == len - tl.position,
            tl.position <= len,
            provider_labels(providers@) == labels,
            r.len() == len - i,
            forall|k: int|
                0 <= k < len - i ==> (#[trigger] r@[k])@ == timeline_item(tl@, labels, len - 1 - k),
        decreases i,
    {
        i -= 1;
        let mark = if i + 1 == redo_start {
            "> "
        } else if i >= redo_start {
            "\u{00B7} "
        } else {
            "  "
        };
        let label = timeline_entry_label(&tl.entries[i], &providers);
        let item = RenderListItem {
            id: IdArray::single(i),
            label: text::concat(mark, label.as_str()),
            data: None,
            nav_path: None,
        };
        assert(tl@.entries[i as int] == tl.entries@[i as int]@);
        r.push(item);
    }
    assert(app_state::items(r@) =~= timeline_items(tl@, labels));
    r
}

/// The hints on shortcuts at the position.
pub fn build_meta_list(renderer: &AppRenderer) -> (r: Vec<RenderListItem>)
    ensures
        app_state::items(r@) == numbered(meta_of(renderer@)),
{
    if renderer.current_id.depth() <= 1 {
        return number_labels(&renderer.root_meta);
    }
    match get_active_provider_ref(renderer) {
        Some(p) => number_labels(&p.meta),
        None => {
            let r: Vec<RenderListItem> = Vec::new();
            assert(app_state::items(r@) =~= numbered(meta_of(renderer@)));
            r
        },
    }
}

/// The commands of the provider, or what the chosen command offers.
pub fn build_command_list(renderer: &AppRenderer) -> (r: Vec<RenderListItem>)
    ensures
        app_state::items(r@) == command_items(renderer@),
{
    match get_active_provider_ref(renderer) {
        Some(p) => match renderer.current_command {
            CommandPhase::NoCommand => number_labels(&p.commands),
            CommandPhase::Provider => {
                let r = number_offers(&p.command_items);
                assert(app_state::items(r@) =~= command_items(renderer@));
                r
            },
        },
        None => {
            let r: Vec<RenderListItem> = Vec::new();
            assert(app_state::items(r@) =~= command_items(renderer@));
            r
        },
    }
}

/// List the layer of the position.
fn create_layer_list(renderer: &mut AppRenderer)
    ensures
        final(renderer)@ == layer_listed(old(renderer)@),
{
    proof {
        reveal(layer_listed);
    }
    clear_list(renderer);
    let parent_has_radio = check_parent_has_radio(&renderer.ffon, &renderer.current_id);
    let selected: usize = renderer.current_id.last().unwrap_or(0);
    let rows = match ffon::get_ffon_at_id(&renderer.ffon, &renderer.current_id) {
        Some(layer) => items_of_layer(
            layer,
            &renderer.current_id,
            parent_has_radio,
            renderer.pending_file_browser_open,
        ),
        None => {
            renderer.list_index = 0;
            return;
        },
    };
    renderer.list_index = find_item(&rows, selected);
    renderer.total_list = rows;
    let search = renderer.search_string.clone();
    if !search.as_str().is_empty() {
        populate_list_current_layer(renderer, search.as_str());
    }
}

/// Build the list anew, for the mode and the position.
#[verifier::rlimit(40)]
pub fn create_list_current_layer(renderer: &mut AppRenderer)
    requires
        app_state::tabs_ok(old(renderer)@),
    ensures
        final(renderer)@ == listed(old(renderer)@),
        app_state::tabs_ok(final(renderer)@),
{
    proof {
        reveal(listed);
        law_listing_keeps_the_rest(renderer@);
    }
    let ghost u = renderer@;
    match renderer.coordinate {
        Coordinate::General | Coordinate::Insert | Coordinate::SimpleSearch => {
            create_layer_list(renderer);
        },
        Coordinate::ExtendedSearch => {
            create_list_extended_search(renderer);
        },
        _ => {
            let rows = match renderer.coordinate {
                Coordinate::Command => build_command_list(renderer),
                Coordinate::Meta => build_meta_list(renderer),
                Coordinate::TimelineView => build_timeline_list(renderer),
                _ => Vec::new(),
            };
            clear_list(renderer);
            assert(app_state::items(rows@) =~= listed(u).total_list);
            renderer.total_list = rows;
            renderer.list_index = 0;
        },
    }
}

proof fn lemma_matching(list: Seq<ItemView>, search: Seq<char>, n: int)
    requires
        0 <= n <= list.len() <= usize::MAX,
    ensures
        matching(list, search, n).no_duplicates(),
        forall|i: usize|
            #[trigger] matching(list, search, n).contains(i) <==> i < n && fuzzy::label_match(
                search,
                list[i as int].label,
            ) is Some,
    decreases n,
{
    if n > 0 {
        lemma_matching(list, search, n - 1);
        let before = matching(list, search, n - 1);
        let all = matching(list, search, n);
        let last = (n - 1) as usize;
        assert forall|i: usize| #[trigger] all.contains(i) <==> i < n && fuzzy::label_match(
            search,
            list[i as int].label,
        ) is Some by {
            assert(before.contains(i) <==> i < n - 1 && fuzzy::label_match(search, list[i as int].label)
                is Some);
            if before.contains(i) {
                let k = choose|k: int| 0 <= k < before.len() && before[k] == i;
                assert(all[k] == i);
            }
            if i == last && fuzzy::label_match(search, list[n - 1].label) is Some {
                assert(all[before.len() as int] == i);
            }
            if all.contains(i) {
                let k = choose|k: int| 0 <= k < all.len() && all[k] == i;
                if k < before.len() {
                    assert(before[k] == i);
                }
            }
        }
        assert forall|i: int, j: int| 0 <= i < all.len() && 0 <= j < all.len() && i != j implies
            all[i] != all[j] by {
            if i < before.len() {
                assert(before.contains(before[i]));
            }
            if j < before.len() {
                assert(before.contains(before[j]));
            }
        }
    }
}

/// A search shows every item that matches, once, and no other item, and it
/// shows the better match first; of equal matches the one that is first in the
/// list.
pub proof fn law_search_shows_the_matches(list: Seq<ItemView>, search: Seq<char>)
    requires
        list.len() <= usize::MAX,
    ensures
        ranking(list, search).no_duplicates(),
        forall|i: usize|
            #[trigger] ranking(list, search).contains(i) <==> i < list.len() && fuzzy::label_match(
                search,
                list[i as int].label,
            ) is Some,
        forall|j: int, k: int|
            0 <= j < k < ranking(list, search).len() ==> {
                let a = #[trigger] ranking(list, search)[j];
                let b = #[trigger] ranking(list, search)[k];
                score(list, search, a) > score(list, search, b) || score(list, search, a) == score(
                    list,
                    search,
                    b,
                ) && a < b
            },
{
    broadcast use vstd::seq_lib::group_to_multiset_ensures;

    let m = matching(list, search, list.len() as int);
    let r = ranking(list, search);
    let leq = better(list, search);
    lemma_matching(list, search, list.len() as int);
    lemma_better_total(list, search);
    m.lemma_sort_by_ensures(leq);
    m.lemma_multiset_has_no_duplicates();
    assert forall|x: usize| r.to_multiset().contains(x) implies r.to_multiset().count(x) == 1 by {
        assert(m.to_multiset().contains(x));
    }
    r.lemma_multiset_has_no_duplicates_conv();
    assert forall|i: usize| #[trigger] r.contains(i) <==> m.contains(i) by {
        assert(r.contains(i) <==> r.to_multiset().count(i) > 0);
        assert(m.contains(i) <==> m.to_multiset().count(i) > 0);
    }
    assert forall|j: int, k: int| 0 <= j < k < r.len() implies {
        let a = #[trigger] r[j];
        let b = #[trigger] r[k];
        score(list, search, a) > score(list, search, b) || score(list, search, a) == score(
            list,
            search,
            b,
        ) && a < b
    } by {
        assert(leq(r[j], r[k]));
        assert(r[j] != r[k]);
    }
}

/// A layer is listed as it is: one item for each element, in its order, with
/// its label and its place.
pub proof fn law_list_shows_the_layer(layer: Seq<Node>, base_id: Seq<usize>, radio: bool, n: int)
    requires
        0 <= n <= layer.len(),
    ensures
        layer_items(layer, base_id, radio, false, n).len() == n,
        forall|i: int|
            0 <= i < n ==> {
                let item = #[trigger] layer_items(layer, base_id, radio, false, n)[i];
                item.id == ffon::with_last(base_id, i as usize) && item.label == node_label(
                    layer[i],
                    radio,
                )
            },
    decreases n,
{
    if n > 0 {
        law_list_shows_the_layer(layer, base_id, radio, n - 1);
    }
}

proof fn lemma_item_index(list: Seq<ItemView>, idx: usize, from: int)
    requires
        0 <= from <= idx < list.len() <= usize::MAX,
        forall|i: int|
            0 <= i < list.len() ==> (#[trigger] list[i]).id.len() > 0 && list[i].id.last() == i,
    ensures
        item_index(list, idx, from) == idx,
    decreases list.len() - from,
{
    if from < idx {
        lemma_item_index(list, idx, from + 1);
    }
}

/// After a layer is listed the selected item is the element at the position,
/// where there is one, and the position stays where it is.
pub proof fn law_listing_selects_the_position(u: Ui)
    requires
        u.coordinate is General || u.coordinate is Insert,
        u.search_string.len() == 0,
        !u.pending_file_browser_open,
        ffon::element_at(u.ffon, u.current_id) is Some,
        ffon::layer_len(u.ffon, u.current_id) <= usize::MAX,
    ensures
        app_state::selected_item(listed(u)) matches Some(item) && item.id == u.current_id,
        app_state::synced(listed(u)).current_id == u.current_id,
{
    reveal(listed);
    reveal(layer_listed);
    reveal(app_state::synced);
    reveal(ffon::layer_of);
    let id = u.current_id;
    let layer = ffon::layer_of(u.ffon, id)->0;
    let radio = radio_above(u.ffon, id);
    let rows = layer_items(layer, id, radio, false, layer.len() as int);
    law_list_shows_the_layer(layer, id, radio, layer.len() as int);
    assert forall|i: int| 0 <= i < rows.len() implies (#[trigger] rows[i]).id.len() > 0
        && rows[i].id.last() == i by {
        assert(rows[i].id == ffon::with_last(id, i as usize));
    }
    lemma_item_index(rows, id.last(), 0);
    assert(ffon::with_last(id, id.last()) =~= id);
}

/// Whether every layer of a tree can be counted.
pub open spec fn countable(layer: Seq<Node>) -> bool
    decreases layer,
{
    &&& layer.len() <= usize::MAX
    &&& forall|i: int|
        0 <= i < layer.len() ==> match #[trigger] layer[i] {
            Node::Obj { children, .. } => countable(children),
            Node::Str(_) => true,
        }
}

/// Whether an item stands for the element at its place in `root`.
pub open spec fn stands_for_element(root: Seq<Node>, item: ItemView) -> bool {
    ffon::element_at(root, item.id) matches Some(n) && (item.label == node_label(n, false)
        || item.label == node_label(n, true))
}

proof fn lemma_deep_items(
    root: Seq<Node>,
    arr: Seq<Node>,
    base_id: Seq<usize>,
    breadcrumb: Seq<char>,
    radio: bool,
    n: int,
)
    requires
        base_id.len() > 0,
        ffon::descend(root, base_id.drop_last()) == Some(arr),
        countable(arr),
        0 <= n <= arr.len(),
    ensures
        forall|j: int|
            0 <= j < deep_items(arr, base_id, breadcrumb, radio, n).len() ==> stands_for_element(
                root,
                #[trigger] deep_items(arr, base_id, breadcrumb, radio, n)[j],
            ),
    decreases arr, n,
{
    if n > 0 {
        lemma_deep_items(root, arr, base_id, breadcrumb, radio, n - 1);
        let e = arr[n - 1];
        let i = (n - 1) as usize;
        let id = ffon::with_last(base_id, i);
        let before = deep_items(arr, base_id, breadcrumb, radio, n - 1);
        let own = ItemView {
            id,
            label: node_label(e, radio),
            data: if breadcrumb.len() == 0 {
                None
            } else {
                Some(breadcrumb)
            },
            nav_path: None,
        };
        assert(id.drop_last() =~= base_id.drop_last());
        assert(stands_for_element(root, own)) by {
            reveal(ffon::layer_of);
        }
        let all = deep_items(arr, base_id, breadcrumb, radio, n);
        match e {
            Node::Obj { key, children } => {
                ffon::lemma_descend_into(root, base_id.drop_last(), i, arr);
                assert(id.push(0).drop_last() =~= base_id.drop_last().push(i));
                let crumb = breadcrumb + markup::display_text(key) + " > "@;
                let group = markup::is_radio(key);
                lemma_deep_items(root, children, id.push(0), crumb, group, children.len() as int);
                let below = deep_items(children, id.push(0), crumb, group, children.len() as int);
                assert(all == before.push(own) + below);
                assert forall|j: int| 0 <= j < all.len() implies stands_for_element(
                    root,
                    #[trigger] all[j],
                ) by {
                    if j < before.len() {
                        assert(all[j] == before[j]);
                    } else if j == before.len() {
                        assert(all[j] == own);
                    } else {
                        assert(all[j] == below[j - before.len() - 1]);
                    }
                }
            },
            Node::Str(_) => {
                assert(all == before.push(own));
                assert forall|j: int| 0 <= j < all.len() implies stands_for_element(
                    root,
                    #[trigger] all[j],
                ) by {
                    if j < before.len() {
                        assert(all[j] == before[j]);
                    }
                }
            },
        }
    }
}

/// Everything that an extended search lists stands for the element at its
/// place in the tree, however deep that is.
pub proof fn law_search_list_leads_to_elements(u: Ui, j: int)
    requires
        u.current_id.len() > 0,
        ffon::layer_at(u.ffon, u.current_id) matches Some(layer) ==> countable(layer),
        0 <= j < search_listed(u).total_list.len(),
    ensures
        stands_for_element(u.ffon, search_listed(u).total_list[j]),
{
    reveal(search_listed);
    reveal(ffon::layer_of);
    let layer = ffon::layer_at(u.ffon, u.current_id)->0;
    lemma_deep_items(
        u.ffon,
        layer,
        u.current_id,
        Seq::empty(),
        false,
        layer.len() as int,
    );
}

} // verus!
