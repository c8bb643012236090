//! What the lists show: the labels of elements, and the items of each mode.

use vstd::prelude::*;

use crate::accesskit_sdl;
use crate::app_state::{CommandPhase, Coordinate, ItemView, Ui};
use crate::enter_laws;
use crate::events;
use crate::events::OutsideView;
use crate::ffon::Node;
use crate::handlers;
use crate::list;
use crate::list::ProviderLabel;
use crate::markup;
use crate::moves;
use crate::shortcuts::Action;
use crate::state;
use crate::text;
use crate::timeline::{
    ChatView, EntryView, FsOpKind, ImapView, NavKind, PayloadView, SideEffectView, StructuralOp,
};

verus! {

/// A text that starts with the only bracket in it holds no other tag.
proof fn lemma_other_tag(open: Seq<char>, label: Seq<char>, tag: Seq<char>, j: int)
    requires
        enter_laws::is_tag(open),
        enter_laws::untagged(label),
        tag.len() > 0,
        tag[0] == '<',
        0 <= j < open.len(),
        j < tag.len(),
        open[j] != tag[j],
    ensures
        !markup::has_tag(open + label, tag),
        !markup::contains(open + label, tag),
        !markup::starts_with(open + label, tag),
{
    let s = open + label;
    assert forall|i: int| !markup::occurs(s, tag, i) by {
        if markup::occurs(s, tag, i) {
            let sub = s.subrange(i, i + tag.len());
            assert(sub[0] == s[i]);
            if 0 < i < open.len() {
                assert(s[i] == open[i]);
            } else if i >= open.len() {
                assert(s[i] == label[i - open.len()]);
            } else {
                assert(sub[j] == s[j]);
            }
        }
    }
}

/// A text without brackets holds no tag.
proof fn lemma_no_tag(s: Seq<char>, tag: Seq<char>)
    requires
        enter_laws::untagged(s),
        tag.len() > 0,
        tag[0] == '<',
    ensures
        !markup::has_tag(s, tag),
        !markup::contains(s, tag),
        !markup::starts_with(s, tag),
{
    assert forall|i: int| !markup::occurs(s, tag, i) by {
        if markup::occurs(s, tag, i) {
            assert(s.subrange(i, i + tag.len())[0] == s[i]);
        }
    }
}

/// A text that is told from the tags of other elements.
spec fn has_no_other_tag(s: Seq<char>) -> bool {
    &&& !markup::starts_with(s, "<one-opt></one-opt>"@)
    &&& !markup::starts_with(s, "<many-opt></many-opt>"@)
    &&& s != "ci <input></input>"@
    &&& !markup::has_tag(s, "<input>"@)
    &&& !markup::has_tag(s, "<image>"@)
    &&& !markup::has_tag(s, "<button>"@)
    &&& !markup::contains(s, "<dir>"@)
    &&& !markup::contains(s, "<file>"@)
    &&& !markup::has_tag(s, "<link>"@)
}

proof fn lemma_plain(s: Seq<char>)
    requires
        enter_laws::untagged(s),
    ensures
        has_no_other_tag(s),
        !markup::has_tag(s, "<checkbox>"@),
        !markup::has_tag(s, "<checkbox checked>"@),
        !markup::has_tag(s, "<checked>"@),
        !markup::has_tag(s, "<radio>"@),
{
    reveal_strlit("<one-opt></one-opt>");
    lemma_no_tag(s, "<one-opt></one-opt>"@);
    reveal_strlit("<many-opt></many-opt>");
    lemma_no_tag(s, "<many-opt></many-opt>"@);
    reveal_strlit("<input>");
    lemma_no_tag(s, "<input>"@);
    reveal_strlit("<image>");
    lemma_no_tag(s, "<image>"@);
    reveal_strlit("<button>");
    lemma_no_tag(s, "<button>"@);
    reveal_strlit("<dir>");
    lemma_no_tag(s, "<dir>"@);
    reveal_strlit("<file>");
    lemma_no_tag(s, "<file>"@);
    reveal_strlit("<link>");
    lemma_no_tag(s, "<link>"@);
    reveal_strlit("<checkbox>");
    lemma_no_tag(s, "<checkbox>"@);
    reveal_strlit("<checkbox checked>");
    lemma_no_tag(s, "<checkbox checked>"@);
    reveal_strlit("<checked>");
    lemma_no_tag(s, "<checked>"@);
    reveal_strlit("<radio>");
    lemma_no_tag(s, "<radio>"@);
    reveal_strlit("ci <input></input>");
    assert("ci <input></input>"@[3] == '<');
}

/// The tags that a text holds that starts with its only tag, which is none of
/// those of other elements.
proof fn lemma_one_tag(open: Seq<char>, label: Seq<char>)
    requires
        enter_laws::is_tag(open),
        enter_laws::untagged(label),
        open.len() >= 3,
        open[1] == 'c' || open[1] == 'r',
    ensures
        has_no_other_tag(open + label),
{
    let s = open + label;
    reveal_strlit("<one-opt></one-opt>");
    lemma_other_tag(open, label, "<one-opt></one-opt>"@, 1);
    reveal_strlit("<many-opt></many-opt>");
    lemma_other_tag(open, label, "<many-opt></many-opt>"@, 1);
    reveal_strlit("<input>");
    lemma_other_tag(open, label, "<input>"@, 1);
    reveal_strlit("<image>");
    lemma_other_tag(open, label, "<image>"@, 1);
    reveal_strlit("<button>");
    lemma_other_tag(open, label, "<button>"@, 1);
    reveal_strlit("<dir>");
    lemma_other_tag(open, label, "<dir>"@, 1);
    reveal_strlit("<file>");
    lemma_other_tag(open, label, "<file>"@, 1);
    reveal_strlit("<link>");
    lemma_other_tag(open, label, "<link>"@, 1);
    reveal_strlit("ci <input></input>");
    assert("ci <input></input>"@[0] == 'c');
    assert(s[0] == '<');
}

proof fn lemma_not_optional(s: Seq<char>)
    requires
        has_no_other_tag(s),
    ensures
        list::without_opt(s) == s,
        !list::is_editor_line(s),
{
    markup::lemma_find_tag_from(s, "<input>"@, 0);
}

/// A leaf without tags is shown behind a minus, and a branch behind a plus; in a
/// group of buttons the leaf is one that is not chosen.
pub proof fn law_plain_elements_are_shown(s: Seq<char>, children: Seq<Node>)
    requires
        enter_laws::untagged(s),
    ensures
        list::node_label(Node::Str(s), false) == "- "@ + markup::display_text(s),
        list::node_label(Node::Str(s), true) == "-r "@ + markup::display_text(s),
        list::node_label(Node::Obj { key: s, children }, false) == "+ "@ + markup::display_text(s),
        list::node_label(Node::Obj { key: s, children }, true) == "+ "@ + markup::display_text(s),
{
    lemma_plain(s);
    lemma_not_optional(s);
}

/// The label of a box tells whether it is checked, and whether something is in
/// it.
pub proof fn law_boxes_are_shown(label: Seq<char>, children: Seq<Node>, radio: bool)
    requires
        enter_laws::untagged(label),
    ensures
        list::node_label(Node::Str(enter_laws::box_text(false, label)), radio) == "-c "@ + label,
        list::node_label(Node::Str(enter_laws::box_text(true, label)), radio) == "-cc "@ + label,
        list::node_label(
            Node::Obj { key: enter_laws::box_text(false, label), children },
            radio,
        ) == "+c "@ + label,
        list::node_label(
            Node::Obj { key: enter_laws::box_text(true, label), children },
            radio,
        ) == "+cc "@ + label,
{
    crate::elements::law_checkbox_there_and_back(label);
    assert(enter_laws::is_tag("<checkbox>"@) && enter_laws::is_tag("</checkbox>"@)
        && "<checkbox>"@[1] == 'c' && "<checkbox>"@.len() >= 3) by {
        reveal_strlit("<checkbox>");
        reveal_strlit("</checkbox>");
    }
    assert(enter_laws::is_tag("<checkbox checked>"@) && "<checkbox checked>"@[1] == 'c'
        && "<checkbox checked>"@.len() >= 3) by {
        reveal_strlit("<checkbox checked>");
    }
    enter_laws::law_text_is_found_behind_a_tag("<checkbox>"@, "</checkbox>"@, label);
    enter_laws::law_text_is_found_behind_a_tag("<checkbox checked>"@, "</checkbox>"@, label);
    lemma_one_tag("<checkbox>"@, label);
    lemma_one_tag("<checkbox checked>"@, label);
    lemma_not_optional(enter_laws::box_text(false, label));
    lemma_not_optional(enter_laws::box_text(true, label));
}

/// The chosen button of a group is marked, and the group shows which one it is.
pub proof fn law_groups_are_shown(
    name: Seq<char>,
    labels: Seq<Seq<char>>,
    i: int,
    radio: bool,
)
    requires
        enter_laws::untagged(name),
        0 <= i < labels.len(),
        forall|j: int| 0 <= j < labels.len() ==> enter_laws::untagged(#[trigger] labels[j]),
    ensures
        list::node_label(enter_laws::buttons(labels, Some(i))[i], true) == "-rc "@ + labels[i],
        list::node_label(
            Node::Obj {
                key: "<radio>"@ + name,
                children: enter_laws::buttons(labels, Some(i)),
            },
            radio,
        ) == "+R "@ + name + " ["@ + labels[i] + "]"@,
{
    lemma_chosen(labels[i]);
    lemma_group(name);
    lemma_chosen_text(labels, i, 0);
}

proof fn lemma_chosen(label: Seq<char>)
    requires
        enter_laws::untagged(label),
    ensures
        list::str_label("<checked>"@ + label, true) == "-rc "@ + label,
{
    let open = "<checked>"@;
    assert(enter_laws::is_tag(open) && open[1] == 'c' && open.len() == 9 && open[6] == 'e') by {
        reveal_strlit("<checked>");
    }
    lemma_one_tag(open, label);
    lemma_not_optional(open + label);
    enter_laws::lemma_mark(label);
    reveal_strlit("<checkbox>");
    lemma_other_tag(open, label, "<checkbox>"@, 6);
    reveal_strlit("<checkbox checked>");
    lemma_other_tag(open, label, "<checkbox checked>"@, 6);
}

proof fn lemma_group(name: Seq<char>)
    requires
        enter_laws::untagged(name),
    ensures
        forall|children: Seq<Node>| #[trigger]
            list::obj_label("<radio>"@ + name, children) == "+R "@ + name + " ["@
                + list::chosen_text(children, 0) + "]"@,
{
    let open = "<radio>"@;
    assert(enter_laws::is_tag(open) && open[1] == 'r' && open.len() >= 3) by {
        reveal_strlit("<radio>");
    }
    assert(enter_laws::is_tag("</radio>"@)) by {
        reveal_strlit("</radio>");
    }
    lemma_one_tag(open, name);
    lemma_not_optional(open + name);
    enter_laws::law_text_is_found_behind_a_tag(open, "</radio>"@, name);
    reveal_strlit("<checkbox>");
    lemma_other_tag(open, name, "<checkbox>"@, 1);
    reveal_strlit("<checkbox checked>");
    lemma_other_tag(open, name, "<checkbox checked>"@, 1);
}

proof fn lemma_chosen_text(labels: Seq<Seq<char>>, i: int, from: int)
    requires
        0 <= from <= i < labels.len(),
        forall|j: int| 0 <= j < labels.len() ==> enter_laws::untagged(#[trigger] labels[j]),
    ensures
        list::chosen_text(enter_laws::buttons(labels, Some(i)), from) == labels[i],
    decreases i - from,
{
    enter_laws::lemma_mark(labels[from]);
    if from < i {
        lemma_chosen_text(labels, i, from + 1);
    }
}

/// Whether a list has an item for each of the texts, in their order.
pub open spec fn shows_texts(items: Seq<ItemView>, texts: Seq<Seq<char>>) -> bool {
    &&& items.len() == texts.len()
    &&& forall|i: int| 0 <= i < texts.len() ==> (#[trigger] items[i]).label == texts[i]
}

/// The key for a command lists the commands of the provider; the key for hints
/// lists the hints of the provider, or at a root those for the roots.
pub proof fn law_commands_and_hints_are_listed(u: Ui, o: OutsideView)
    requires
        u.coordinate is General,
        u.current_id.len() > 0,
        u.current_id[0] < u.providers.len(),
    ensures
        u.current_id.len() > 1 ==> shows_texts(
            events::performed(u, Action::Colon, o).0.total_list,
            u.providers[u.current_id[0] as int].commands,
        ),
        !state::in_editor(u) ==> shows_texts(
            events::performed(u, Action::Meta, o).0.total_list,
            if u.current_id.len() > 1 {
                u.providers[u.current_id[0] as int].meta
            } else {
                u.root_meta
            },
        ),
{
    if u.current_id.len() > 1 {
        let s = moves::without_input(
            handlers::with_command(
                moves::in_phase(moves::entered(u, Coordinate::Command), CommandPhase::NoCommand),
                Seq::empty(),
            ),
        );
        assert(s.coordinate == Coordinate::Command && s.current_command
            == CommandPhase::NoCommand && s.providers == u.providers && s.current_id
            == u.current_id) by {
            reveal(moves::entered);
            reveal(moves::in_phase);
            reveal(handlers::with_command);
            reveal(moves::without_input);
        }
        assert(events::performed(u, Action::Colon, o).0 == moves::redrawn(list::listed(s))) by {
            reveal(events::performed);
            reveal(events::switched);
            reveal(handlers::command_started);
        }
        assert(moves::redrawn(list::listed(s)).total_list == list::command_items(s)) by {
            reveal(moves::redrawn);
            reveal(list::listed);
        }
    }
    if !state::in_editor(u) {
        let s = moves::at_item(moves::entered(u, Coordinate::Meta), 0);
        assert(s.coordinate == Coordinate::Meta && s.providers == u.providers && s.current_id
            == u.current_id && s.root_meta == u.root_meta) by {
            reveal(moves::entered);
            reveal(moves::at_item);
        }
        assert(events::performed(u, Action::Meta, o).0 == moves::redrawn(list::listed(s))) by {
            reveal(events::performed);
            reveal(events::switched);
            reveal(handlers::hints_opened);
        }
        assert(moves::redrawn(list::listed(s)).total_list == list::numbered(list::meta_of(s))) by {
            reveal(moves::redrawn);
            reveal(list::listed);
        }
    }
}

/// What a command offers is listed, each offer with what it stands for.
pub proof fn law_offers_are_listed(u: Ui, i: int)
    requires
        u.coordinate is Command,
        u.current_command == CommandPhase::Provider,
        u.current_id.len() > 0,
        u.current_id[0] < u.providers.len(),
        0 <= i < u.providers[u.current_id[0] as int].command_items.len(),
    ensures
        ({
            let v = list::listed(u);
            let offers = u.providers[u.current_id[0] as int].command_items;
            &&& v.total_list.len() == offers.len()
            &&& v.total_list[i].label == offers[i].label
            &&& offers[i].data.len() > 0 ==> v.total_list[i].nav_path == Some(offers[i].data)
            &&& v.list_index == 0
        }),
{
    reveal(list::listed);
}

/// The steps of a timeline are listed from the last to the first. The one to be
/// taken back next is marked with an arrow, those that are undone with a dot.
pub proof fn law_steps_are_listed_backwards(u: Ui, k: int)
    requires
        u.coordinate is TimelineView,
        u.active_tab < u.tab_timelines.len(),
        0 <= k < u.tab_timelines[u.active_tab as int].entries.len() <= usize::MAX,
        u.tab_timelines[u.active_tab as int].position <= u.tab_timelines[u.active_tab as int].entries.len(),
    ensures
        ({
            let v = list::listed(u);
            let tl = u.tab_timelines[u.active_tab as int];
            let entry = tl.entries[tl.entries.len() - 1 - k];
            let told = list::entry_text(entry, list::labels_of(u.providers));
            &&& v.total_list.len() == tl.entries.len()
            &&& v.total_list[k].label == (if k < tl.position {
                "\u{00B7} "@
            } else if k == tl.position {
                "> "@
            } else {
                "  "@
            }) + told
        }),
{
    reveal(list::listed);
}

/// Steps are told in words: what was done, and where or to what.
pub proof fn law_steps_are_told(
    id: Seq<usize>,
    to: Seq<usize>,
    from_path: Seq<char>,
    to_path: Seq<char>,
    n: Node,
    payload: PayloadView,
    providers: Seq<ProviderLabel>,
)
    requires
        id.len() > 0,
        to.len() > 0,
        id[0] < providers.len(),
        to[0] == id[0],
        providers[id[0] as int].path_is_filesystem,
        from_path != to_path,
    ensures
        list::entry_text(
            EntryView::Navigate {
                provider_idx: id[0],
                from_id: id,
                to_id: to,
                from_path: Some(from_path),
                to_path: Some(to_path),
                kind: NavKind::ArrowRight,
            },
            providers,
        ) == "nav "@ + "ArrowRight"@ + " "@ + from_path + " > "@ + to_path,
        list::entry_text(
            EntryView::Structure { id, op: StructuralOp::Delete, payload },
            providers,
        ) == "struct "@ + "Delete"@ + " id="@ + list::id_text(id),
        list::entry_text(
            EntryView::FsOp {
                provider_idx: id[0],
                id,
                op: FsOpKind::Rename,
                before: None,
                after: None,
                side_effect: SideEffectView::RenameOnly { from: from_path, to: to_path },
            },
            providers,
        ) == "fs "@ + "Rename"@ + " "@ + (from_path + " > "@ + to_path),
{
}

/// The number that digits stand for.
pub open spec fn number_of(s: Seq<char>) -> int
    decreases s.len(),
{
    if s.len() == 0 {
        0
    } else {
        number_of(s.drop_last()) * 10 + (s.last() as int - '0' as int)
    }
}

/// A number is written in digits that stand for it, with no zero before them.
pub proof fn law_numbers_read_back(n: nat)
    ensures
        number_of(text::decimal(n)) == n,
        text::decimal(n).len() > 0,
        forall|i: int|
            0 <= i < text::decimal(n).len() ==> '0' <= #[trigger] text::decimal(n)[i] <= '9',
        n > 0 ==> text::decimal(n)[0] != '0',
    decreases n,
{
    let s = text::decimal(n);
    if n >= 10 {
        law_numbers_read_back(n / 10);
        assert(s.drop_last() =~= text::decimal(n / 10));
    } else {
        assert(s.drop_last() =~= Seq::<char>::empty());
        assert(number_of(Seq::<char>::empty()) == 0);
    }
    assert(s.last() as int - '0' as int == n % 10);
    assert(number_of(s) == number_of(s.drop_last()) * 10 + (s.last() as int - '0' as int));
}

/// A text with two brackets, at its start and where its first tag is closed,
/// holds no other tag.
proof fn lemma_other_in_pair(
    open: Seq<char>,
    t: Seq<char>,
    close: Seq<char>,
    rest: Seq<char>,
    tag: Seq<char>,
    j: int,
)
    requires
        enter_laws::is_tag(open),
        enter_laws::is_tag(close),
        enter_laws::untagged(t),
        enter_laws::untagged(rest),
        close.len() > 1,
        close[1] == '/',
        tag.len() > 1,
        tag[0] == '<',
        tag[1] != '/',
        0 <= j < open.len(),
        j < tag.len(),
        open[j] != tag[j],
    ensures
        !markup::has_tag(open + t + close + rest, tag),
        !markup::contains(open + t + close + rest, tag),
        !markup::starts_with(open + t + close + rest, tag),
{
    let s = open + t + close + rest;
    let k = open.len() + t.len();
    assert forall|i: int| !markup::occurs(s, tag, i) by {
        if markup::occurs(s, tag, i) {
            let sub = s.subrange(i, i + tag.len());
            assert(sub[0] == s[i]);
            assert(sub[1] == s[i + 1]);
            if i == 0 {
                assert(sub[j] == s[j]);
            } else if i < open.len() {
                assert(s[i] == open[i]);
            } else if i < k {
                assert(s[i] == t[i - open.len()]);
            } else if i < k + close.len() {
                assert(s[i] == close[i - k]);
            } else {
                assert(s[i] == rest[i - k - close.len()]);
            }
        }
    }
}

/// The tags of other elements that a text with one pair of tags does not hold,
/// where the first tag starts with another letter than they do.
proof fn lemma_pair(open: Seq<char>, t: Seq<char>, close: Seq<char>, rest: Seq<char>)
    requires
        enter_laws::is_tag(open),
        enter_laws::is_tag(close),
        enter_laws::untagged(t),
        enter_laws::untagged(rest),
        close.len() > 1,
        close[1] == '/',
        open.len() > 2,
        open[1] == 'b' || open[1] == 'i' || open[1] == 'l',
    ensures
        ({
            let s = open + t + close + rest;
            &&& list::without_opt(s) == s
            &&& s != "ci <input></input>"@
            &&& !markup::has_tag(s, "<checkbox>"@)
            &&& !markup::has_tag(s, "<checkbox checked>"@)
            &&& !markup::has_tag(s, "<checked>"@)
            &&& !markup::has_tag(s, "<radio>"@)
            &&& !markup::contains(s, "<dir>"@)
            &&& !markup::contains(s, "<file>"@)
        }),
{
    reveal_strlit("<one-opt></one-opt>");
    lemma_other_in_pair(open, t, close, rest, "<one-opt></one-opt>"@, 1);
    reveal_strlit("<many-opt></many-opt>");
    lemma_other_in_pair(open, t, close, rest, "<many-opt></many-opt>"@, 1);
    reveal_strlit("<checkbox>");
    lemma_other_in_pair(open, t, close, rest, "<checkbox>"@, 1);
    reveal_strlit("<checkbox checked>");
    lemma_other_in_pair(open, t, close, rest, "<checkbox checked>"@, 1);
    reveal_strlit("<checked>");
    lemma_other_in_pair(open, t, close, rest, "<checked>"@, 1);
    reveal_strlit("<radio>");
    lemma_other_in_pair(open, t, close, rest, "<radio>"@, 1);
    reveal_strlit("<dir>");
    lemma_other_in_pair(open, t, close, rest, "<dir>"@, 1);
    reveal_strlit("<file>");
    lemma_other_in_pair(open, t, close, rest, "<file>"@, 1);
    reveal_strlit("ci <input></input>");
    let s = open + t + close + rest;
    assert(s[0] == '<');
    assert("ci <input></input>"@[0] == 'c');
}

/// A button, a link and a text that can be edited are told by their prefixes.
pub proof fn law_buttons_links_and_inputs_are_shown(
    t: Seq<char>,
    rest: Seq<char>,
    children: Seq<Node>,
    radio: bool,
)
    requires
        enter_laws::untagged(t),
        t.len() > 0 ==> t.last() != '\\',
        enter_laws::untagged(rest),
    ensures
        ({
            let button = "<button>"@ + t + "</button>"@ + rest;
            list::node_label(Node::Str(button), radio) == "-b "@ + markup::display_text(button)
        }),
        ({
            let link = "<link>"@ + t + "</link>"@ + rest;
            list::node_label(Node::Obj { key: link, children }, radio) == "+l "@
                + markup::display_text(link)
        }),
        ({
            let input = "<input>"@ + t + "</input>"@ + rest;
            let shown = markup::display_text(input);
            &&& text::trimmed(shown) != "i"@ ==> list::node_label(Node::Str(input), radio)
                == "-i "@ + shown
            &&& list::node_label(Node::Obj { key: input, children }, radio) == "+i "@ + shown
        }),
{
    lemma_button_label(t, rest, radio);
    lemma_link_label(t, rest, children);
    lemma_input_label(t, rest, children, radio);
}

proof fn lemma_button_label(t: Seq<char>, rest: Seq<char>, radio: bool)
    requires
        enter_laws::untagged(t),
        t.len() > 0 ==> t.last() != '\\',
        enter_laws::untagged(rest),
    ensures
        ({
            let s = "<button>"@ + t + "</button>"@ + rest;
            list::str_label(s, radio) == "-b "@ + markup::display_text(s)
        }),
{
    let open = "<button>"@;
    let close = "</button>"@;
    let none = Seq::<char>::empty();
    assert(enter_laws::is_tag(open) && enter_laws::is_tag(close) && open.last() != '\\'
        && close.len() > 1 && close[1] == '/' && open.len() > 2 && open[1] == 'b') by {
        reveal_strlit("<button>");
        reveal_strlit("</button>");
    }
    let s = open + t + close + rest;
    assert(none + open + t + close + rest =~= s);
    enter_laws::law_text_is_found_between_tags(none, open, t, close, rest);
    lemma_pair(open, t, close, rest);
    reveal_strlit("<image>");
    lemma_other_in_pair(open, t, close, rest, "<image>"@, 1);
    reveal_strlit("<input>");
    lemma_other_in_pair(open, t, close, rest, "<input>"@, 1);
    markup::lemma_find_tag_from(s, "<input>"@, 0);
}

proof fn lemma_link_label(t: Seq<char>, rest: Seq<char>, children: Seq<Node>)
    requires
        enter_laws::untagged(t),
        t.len() > 0 ==> t.last() != '\\',
        enter_laws::untagged(rest),
    ensures
        ({
            let s = "<link>"@ + t + "</link>"@ + rest;
            list::obj_label(s, children) == "+l "@ + markup::display_text(s)
        }),
{
    let open = "<link>"@;
    let close = "</link>"@;
    let none = Seq::<char>::empty();
    assert(enter_laws::is_tag(open) && enter_laws::is_tag(close) && open.last() != '\\'
        && close.len() > 1 && close[1] == '/' && open.len() > 2 && open[1] == 'l') by {
        reveal_strlit("<link>");
        reveal_strlit("</link>");
    }
    let s = open + t + close + rest;
    assert(none + open + t + close + rest =~= s);
    enter_laws::law_text_is_found_between_tags(none, open, t, close, rest);
    lemma_pair(open, t, close, rest);
    reveal_strlit("<input>");
    lemma_other_in_pair(open, t, close, rest, "<input>"@, 1);
    markup::lemma_find_tag_from(s, "<input>"@, 0);
}

proof fn lemma_input_label(t: Seq<char>, rest: Seq<char>, children: Seq<Node>, radio: bool)
    requires
        enter_laws::untagged(t),
        t.len() > 0 ==> t.last() != '\\',
        enter_laws::untagged(rest),
    ensures
        ({
            let s = "<input>"@ + t + "</input>"@ + rest;
            let shown = markup::display_text(s);
            &&& text::trimmed(shown) != "i"@ ==> list::str_label(s, radio) == "-i "@ + shown
            &&& list::obj_label(s, children) == "+i "@ + shown
        }),
{
    let open = "<input>"@;
    let close = "</input>"@;
    let none = Seq::<char>::empty();
    assert(enter_laws::is_tag(open) && enter_laws::is_tag(close) && open.last() != '\\'
        && close.len() > 1 && close[1] == '/' && open.len() > 2 && open[1] == 'i' && open[2]
        == 'n') by {
        reveal_strlit("<input>");
        reveal_strlit("</input>");
    }
    let s = open + t + close + rest;
    assert(none + open + t + close + rest =~= s);
    enter_laws::law_text_is_found_between_tags(none, open, t, close, rest);
    lemma_pair(open, t, close, rest);
    reveal_strlit("<image>");
    lemma_other_in_pair(open, t, close, rest, "<image>"@, 2);
    reveal_strlit("<button>");
    lemma_other_in_pair(open, t, close, rest, "<button>"@, 1);
    reveal_strlit("<link>");
    lemma_other_in_pair(open, t, close, rest, "<link>"@, 1);
    reveal_strlit("<src=");
    reveal_strlit("<srcins=");
    lemma_no_tag(t, "<src="@);
    lemma_no_tag(t, "<srcins="@);
}

/// A step on a mail names what was done, the mail and where it was or went; a
/// mark that was set shows what it is now, and not what it was.
pub proof fn law_mail_step_names_the_mail(op: ImapView)
    ensures
        op matches ImapView::Trash { msg_id, src_folder, .. } ==> list::imap_text(op) == "Trash "@
            + msg_id + " from "@ + src_folder,
        op matches ImapView::Archive { msg_id, src_folder, .. } ==> list::imap_text(op)
            == "Archive "@ + msg_id + " from "@ + src_folder,
        op matches ImapView::Move { msg_id, src_folder, dst_folder } ==> list::imap_text(op)
            == "Move "@ + msg_id + " "@ + src_folder + " > "@ + dst_folder,
        op matches ImapView::SetSeen { msg_uid, folder, new, .. } ==> list::imap_text(op)
            == "SetSeen uid="@ + text::decimal(msg_uid as nat) + " "@ + folder + " > "@ + (if new {
            "true"@
        } else {
            "false"@
        }),
        op matches ImapView::SetFlagged { msg_uid, folder, new, .. } ==> list::imap_text(op)
            == "SetFlagged uid="@ + text::decimal(msg_uid as nat) + " "@ + folder + " > "@ + (
        if new {
            "true"@
        } else {
            "false"@
        }),
{
}

/// A step in a chat names what was done, to whom and in which room; a message
/// is shown by how it starts.
pub proof fn law_chat_step_names_the_room(op: ChatView)
    ensures
        op matches ChatView::LeaveRoom { room_id } ==> list::chat_text(op) == "LeaveRoom "@ + room_id,
        op matches ChatView::AcceptInvite { room_id } ==> list::chat_text(op) == "AcceptInvite "@
            + room_id,
        op matches ChatView::RejectInvite { room_id } ==> list::chat_text(op) == "RejectInvite "@
            + room_id,
        op matches ChatView::KickMember { room_id, user_id, .. } ==> list::chat_text(op)
            == "KickMember "@ + user_id + " from "@ + room_id,
        op matches ChatView::BanMember { room_id, user_id, .. } ==> list::chat_text(op)
            == "BanMember "@ + user_id + " from "@ + room_id,
        op matches ChatView::PostMessage { room_id, body, .. } ==> {
            let shown = list::chat_text(op);
            let head = "PostMessage "@ + room_id + " \""@;
            &&& body.len() <= 30 ==> shown == head + body + "\""@
            &&& body.len() > 30 ==> exists|rest: Seq<char>|
                shown == #[trigger] (head + body.take(30) + rest)
        },
{
    if let ChatView::PostMessage { room_id, body, .. } = op {
        let head = "PostMessage "@ + room_id + " \""@;
        if body.len() > 30 {
            let rest = list::shortened(body, 30).skip(30) + "\""@;
            assert(list::shortened(body, 30).take(30) =~= body.take(30));
            assert(list::chat_text(op) =~= head + body.take(30) + rest);
        }
    }
}

/// A language is spoken by its tag of two letters where it is one of those that
/// there are voices for; no two of them share a tag. It is taken where it is at
/// least as sure as not.
pub proof fn law_language_has_its_own_tag(code: Seq<char>, other: Seq<char>, sure: u64)
    ensures
        accesskit_sdl::language_tag(code) is Some <==> (code == "eng"@ || code == "nld"@ || code
            == "fra"@ || code == "deu"@ || code == "spa"@ || code == "ita"@ || code == "por"@),
        accesskit_sdl::language_tag(code) matches Some(t) ==> t.len() == 2 && (t == code.take(2)
            || (code == "spa"@ && t == "es"@) || (code == "por"@ && t == "pt"@)),
        accesskit_sdl::language_tag(code) is Some && accesskit_sdl::language_tag(code)
            == accesskit_sdl::language_tag(other) ==> code == other,
        accesskit_sdl::accepted_language(Some((code, sure))) == if sure >= 0x3FE0_0000_0000_0000 {
            accesskit_sdl::language_tag(code)
        } else {
            None
        },
        accesskit_sdl::accepted_language(None) is None,
{
    reveal_strlit("eng");
    reveal_strlit("nld");
    reveal_strlit("fra");
    reveal_strlit("deu");
    reveal_strlit("spa");
    reveal_strlit("ita");
    reveal_strlit("por");
    reveal_strlit("en");
    reveal_strlit("nl");
    reveal_strlit("fr");
    reveal_strlit("de");
    reveal_strlit("es");
    reveal_strlit("it");
    reveal_strlit("pt");
    assert(code.take(2).len() == 2 || code.len() < 2);
    assert("en"@[0] == 'e' && "en"@[1] == 'n');
    assert("nl"@[0] == 'n' && "fr"@[0] == 'f' && "de"@[0] == 'd' && "it"@[0] == 'i');
    assert("es"@[0] == 'e' && "es"@[1] == 's' && "pt"@[0] == 'p');
}

} // verus!
