//! How the modes are entered and left, and what is there to be typed into.

use vstd::prelude::*;

use crate::app_state::{CommandPhase, Coordinate, Ui};
use crate::enter_laws;
use crate::events;
use crate::events::OutsideView;
use crate::ffon;
use crate::ffon::Node;
use crate::handlers;
use crate::list;
use crate::markup;
use crate::move_laws;
use crate::moves;
use crate::offsets;
use crate::paths;
use crate::provider::{PathEnd, StepView};
use crate::shortcuts::Action;
use crate::state;
use crate::text_laws;
use crate::tree_laws;
use crate::typing;

verus! {

/// Whether `v` has the tree, the position and the timelines of `u`.
pub open spec fn same_place(u: Ui, v: Ui) -> bool {
    &&& v.ffon == u.ffon
    &&& v.current_id == u.current_id
    &&& v.providers == u.providers
    &&& v.tab_timelines == u.tab_timelines
    &&& v.active_tab == u.active_tab
}

/// The mode that a key leads to from moving about.
pub open spec fn mode_of(action: Action) -> Coordinate {
    match action {
        Action::Tab => Coordinate::SimpleSearch,
        Action::Colon => Coordinate::Command,
        Action::Insert => Coordinate::Insert,
        Action::InsertAtEnd => Coordinate::Insert,
        Action::Dashboard => Coordinate::Dashboard,
        Action::Scroll => Coordinate::Scroll,
        Action::Meta => Coordinate::Meta,
        Action::Find => Coordinate::ExtendedSearch,
        _ => Coordinate::General,
    }
}

/// Whether a key leads to another mode from moving about in `u`. There is a
/// command for what is in a root only; the text is scrolled and the hints are
/// shown outside the editor; and the dashboard is shown where the provider has
/// one.
pub open spec fn leads_on(u: Ui, action: Action) -> bool {
    match action {
        Action::Tab => true,
        Action::Colon => u.current_id.len() > 1,
        Action::Insert => true,
        Action::InsertAtEnd => true,
        Action::Dashboard => u.current_id.len() > 0 && u.current_id[0] < u.providers.len()
            && u.providers[u.current_id[0] as int].dashboard_image_path is Some,
        Action::Scroll => !state::in_editor(u),
        Action::Meta => !state::in_editor(u),
        Action::Find => true,
        _ => false,
    }
}

proof fn lemma_listed(u: Ui)
    ensures
        same_place(u, list::listed(u)),
        list::listed(u).coordinate == u.coordinate,
        list::listed(u).previous_coordinate == u.previous_coordinate,
        list::listed(u).search_string == u.search_string,
        list::listed(u).input_buffer == u.input_buffer,
        list::listed(u).cursor_position == u.cursor_position,
        list::listed(u).selection_anchor == u.selection_anchor,
        list::listed(u).current_command == u.current_command,
        list::listed(u).provider_command_name == u.provider_command_name,
{
    list::law_listing_keeps_the_rest(u);
}

/// From moving about a key leads to its mode, with moving about remembered as
/// the mode before and the position as it is. What is searched for or typed is
/// empty then. Where the key leads nowhere everything stays as it is.
pub proof fn law_keys_lead_to_their_modes(u: Ui, action: Action, o: OutsideView)
    requires
        u.coordinate is General,
        mode_of(action) != Coordinate::General,
    ensures
        ({
            let (v, effects) = events::performed(u, action, o);
            &&& effects.step == StepView::Done
            &&& leads_on(u, action) ==> {
                &&& v.coordinate == mode_of(action)
                &&& v.previous_coordinate == Coordinate::General
                &&& same_place(u, v)
            }
            &&& !leads_on(u, action) && (action == Action::Colon || u.current_id.len() > 0)
                ==> v == u
        }),
        leads_on(u, action) ==> {
            let v = events::performed(u, action, o).0;
            &&& action == Action::Tab ==> v.search_string.len() == 0 && v.cursor_position == 0
            &&& action == Action::Colon ==> {
                &&& v.input_buffer.len() == 0
                &&& v.cursor_position == 0
                &&& v.current_command == CommandPhase::NoCommand
                &&& v.provider_command_name.len() == 0
            }
            &&& action == Action::Find ==> {
                &&& v.input_buffer.len() == 0
                &&& v.cursor_position == 0
                &&& v.selection_anchor is None
            }
            &&& action == Action::Dashboard
                ==> u.providers[u.current_id[0] as int].dashboard_image_path == Some(
                v.dashboard_image_path,
            )
        },
{
    reveal(events::performed);
    reveal(events::switched);
    match action {
        Action::Tab => {
            lemma_tab(u);
        },
        Action::Colon => {
            lemma_colon(u);
        },
        Action::Insert => {
            lemma_editing(u, false, o.now);
        },
        Action::InsertAtEnd => {
            lemma_editing(u, true, o.now);
        },
        Action::Dashboard => {
            reveal(handlers::dashboard_opened);
            reveal(handlers::with_dashboard);
            reveal(moves::redrawn);
            reveal(moves::entered);
        },
        Action::Scroll => {
            reveal(handlers::scrolling_started);
            reveal(handlers::scroll_unset);
            reveal(moves::redrawn);
            reveal(moves::entered);
        },
        Action::Meta => {
            lemma_meta(u);
        },
        Action::Find => {
            lemma_find(u, o.now);
        },
        _ => {},
    }
}

proof fn lemma_tab(u: Ui)
    requires
        u.coordinate is General,
    ensures
        ({
            let v = handlers::search_started(u);
            &&& v.coordinate == Coordinate::SimpleSearch
            &&& v.previous_coordinate == Coordinate::General
            &&& same_place(u, v)
            &&& v.search_string.len() == 0
            &&& v.cursor_position == 0
        }),
{
    reveal(handlers::search_started);
    let e = moves::entered(u, Coordinate::SimpleSearch);
    let s = moves::with_cursor(moves::without_search(e), 0);
    assert(same_place(u, s) && s.coordinate == Coordinate::SimpleSearch && s.previous_coordinate
        == Coordinate::General && s.search_string.len() == 0 && s.cursor_position == 0) by {
        reveal(moves::entered);
        reveal(moves::without_search);
        reveal(moves::with_cursor);
    }
    lemma_listed(s);
    reveal(moves::redrawn);
}

proof fn lemma_colon(u: Ui)
    ensures
        ({
            let v = handlers::command_started(u);
            if u.current_id.len() <= 1 {
                v == u
            } else {
                &&& v.coordinate == Coordinate::Command
                &&& v.previous_coordinate == u.coordinate
                &&& same_place(u, v)
                &&& v.input_buffer.len() == 0
                &&& v.cursor_position == 0
                &&& v.current_command == CommandPhase::NoCommand
                &&& v.provider_command_name.len() == 0
            }
        }),
{
    reveal(handlers::command_started);
    let s = moves::without_input(
        handlers::with_command(
            moves::in_phase(moves::entered(u, Coordinate::Command), CommandPhase::NoCommand),
            Seq::empty(),
        ),
    );
    assert(same_place(u, s) && s.coordinate == Coordinate::Command && s.previous_coordinate
        == u.coordinate && s.input_buffer.len() == 0 && s.cursor_position == 0
        && s.current_command == CommandPhase::NoCommand && s.provider_command_name.len() == 0)
        by {
        reveal(moves::entered);
        reveal(moves::in_phase);
        reveal(handlers::with_command);
        reveal(moves::without_input);
    }
    lemma_listed(s);
    reveal(moves::redrawn);
}

proof fn lemma_meta(u: Ui)
    requires
        u.coordinate is General,
    ensures
        ({
            let v = handlers::hints_opened(u);
            if state::in_editor(u) {
                v == u
            } else {
                &&& v.coordinate == Coordinate::Meta
                &&& v.previous_coordinate == Coordinate::General
                &&& same_place(u, v)
            }
        }),
{
    reveal(handlers::hints_opened);
    let s = moves::at_item(moves::entered(u, Coordinate::Meta), 0);
    assert(same_place(u, s) && s.coordinate == Coordinate::Meta && s.previous_coordinate
        == Coordinate::General) by {
        reveal(moves::entered);
        reveal(moves::at_item);
    }
    lemma_listed(s);
    reveal(moves::redrawn);
}

proof fn lemma_search_opened(u: Ui)
    ensures
        ({
            let v = handlers::search_opened(u);
            &&& same_place(u, v)
            &&& v.coordinate == u.coordinate
            &&& v.previous_coordinate == u.previous_coordinate
            &&& v.input_buffer.len() == 0
            &&& v.cursor_position == 0
            &&& v.selection_anchor is None
            &&& v.search_string == u.search_string
        }),
{
    reveal(handlers::search_opened);
    let s = moves::list_scrolled(moves::unselected(moves::without_input(u)), 0);
    assert(same_place(u, s) && s.coordinate == u.coordinate && s.previous_coordinate
        == u.previous_coordinate && s.input_buffer.len() == 0 && s.cursor_position == 0
        && s.selection_anchor is None && s.search_string == u.search_string) by {
        reveal(moves::list_scrolled);
        reveal(moves::unselected);
        reveal(moves::without_input);
    }
    list::law_search_listing_keeps_the_rest(s);
}

proof fn lemma_find(u: Ui, now: u64)
    requires
        u.coordinate is General,
    ensures
        ({
            let v = handlers::after_find(u, now);
            &&& v.coordinate == Coordinate::ExtendedSearch
            &&& v.previous_coordinate == Coordinate::General
            &&& same_place(u, v)
            &&& v.input_buffer.len() == 0
            &&& v.cursor_position == 0
            &&& v.selection_anchor is None
        }),
{
    reveal(handlers::after_find);
    let e = moves::entered(u, Coordinate::ExtendedSearch);
    assert(same_place(u, e) && e.coordinate == Coordinate::ExtendedSearch
        && e.previous_coordinate == Coordinate::General) by {
        reveal(moves::entered);
    }
    lemma_search_opened(e);
    reveal(moves::redrawn);
    reveal(moves::tapped);
    reveal(moves::at_position);
}

/// The element that is edited, with the cursor before or behind its text.
pub(crate) proof fn lemma_editing(u: Ui, at_end: bool, now: u64)
    requires
        u.coordinate is General,
    ensures
        ({
            let v = handlers::editing_started(u, at_end, now);
            let parts = handlers::input_parts(moves::focused_node(u));
            &&& v.coordinate == Coordinate::Insert
            &&& v.previous_coordinate == Coordinate::General
            &&& same_place(u, v)
            &&& v.input_buffer == parts.0
            &&& v.input_prefix == parts.1
            &&& v.input_suffix == parts.2
            &&& v.cursor_position == if at_end {
                offsets::byte_len(parts.0) as usize
            } else {
                0
            }
            &&& v.selection_anchor is None
            &&& v.in_history_action == u.in_history_action
            &&& v.tabs == u.tabs
        }),
{
    reveal(handlers::editing_started);
    let e = moves::entered(u, Coordinate::Insert);
    assert(same_place(u, e) && e.coordinate == Coordinate::Insert && e.previous_coordinate
        == Coordinate::General && e.in_history_action == u.in_history_action && e.tabs == u.tabs)
        by {
        reveal(moves::entered);
    }
    assert(moves::focused_node(e) == moves::focused_node(u));
    reveal(handlers::populated);
    reveal(moves::with_parts);
    reveal(moves::with_cursor);
    reveal(moves::unselected);
    reveal(moves::touched);
}

/// The mode that the escape key leads to.
pub open spec fn mode_behind(u: Ui) -> Coordinate {
    match u.coordinate {
        Coordinate::Command
        | Coordinate::SimpleSearch
        | Coordinate::ExtendedSearch
        | Coordinate::Meta
        | Coordinate::Dashboard
        | Coordinate::Scroll => u.previous_coordinate,
        Coordinate::ScrollSearch => Coordinate::Scroll,
        _ => Coordinate::General,
    }
}

/// Whether a mode shows a list of its own.
pub open spec fn shows_a_list(c: Coordinate) -> bool {
    c is Command || c is SimpleSearch || c is ExtendedSearch || c is Meta
}

/// The escape key leads out of a mode and back to the one before; nothing is
/// selected then, what was searched for or typed there is forgotten, and the
/// tree and the position stay as they are. Behind a list the element at the
/// position is selected again.
pub proof fn law_escape_leads_back(u: Ui, action: Action, o: OutsideView)
    requires
        action == Action::Escape || action == Action::ConfirmEditor,
        !(u.coordinate is Insert && state::in_editor(u)),
    ensures
        ({
            let (v, effects) = events::performed(u, action, o);
            &&& v.coordinate == mode_behind(u)
            &&& same_place(u, v)
            &&& v.selection_anchor is None
            &&& v.needs_redraw
            &&& effects.step == StepView::Done
            &&& u.coordinate is SimpleSearch ==> v.search_string.len() == 0
            &&& u.coordinate is Command || u.coordinate is ExtendedSearch
                ==> v.input_buffer.len() == 0 && v.cursor_position == 0
            &&& u.coordinate is ScrollSearch ==> v.scroll_search_match_count == 0
            &&& u.coordinate is Scroll ==> v.text_scroll_offset == 0
            &&& shows_a_list(u.coordinate) ==> v.list_index == ffon::last_or_zero(u.current_id)
                && v.scroll_offset == 0
        }),
{
    reveal(events::performed);
    reveal(events::switched);
    lemma_escaped(u, o.now);
}

proof fn lemma_escaped(u: Ui, now: u64)
    requires
        !(u.coordinate is Insert && state::in_editor(u)),
    ensures
        ({
            let v = handlers::escaped(u, now);
            &&& v.coordinate == mode_behind(u)
            &&& same_place(u, v)
            &&& v.selection_anchor is None
            &&& v.needs_redraw
            &&& u.coordinate is SimpleSearch ==> v.search_string.len() == 0
            &&& u.coordinate is Command || u.coordinate is ExtendedSearch
                ==> v.input_buffer.len() == 0 && v.cursor_position == 0
            &&& u.coordinate is ScrollSearch ==> v.scroll_search_match_count == 0
            &&& u.coordinate is Scroll ==> v.text_scroll_offset == 0
            &&& shows_a_list(u.coordinate) ==> v.list_index == ffon::last_or_zero(u.current_id)
                && v.scroll_offset == 0
        }),
{
    reveal(handlers::escaped);
    let w = moves::unselected(u);
    assert(same_place(u, w) && w.selection_anchor is None && w.coordinate == u.coordinate
        && w.previous_coordinate == u.previous_coordinate) by {
        reveal(moves::unselected);
    }
    match u.coordinate {
        Coordinate::Command => {
            lemma_list_left(w, moves::without_input(moves::left_mode(w)), now);
        },
        Coordinate::SimpleSearch => {
            lemma_list_left(w, moves::without_search(moves::left_mode(w)), now);
        },
        Coordinate::ExtendedSearch => {
            lemma_list_left(w, moves::without_input(moves::left_mode(w)), now);
        },
        Coordinate::Meta => {
            lemma_list_left(w, moves::left_mode(w), now);
        },
        _ => {
            reveal(moves::touched);
            reveal(moves::left_mode);
            reveal(moves::in_mode);
            reveal(handlers::without_matches);
            reveal(handlers::scroll_unset);
            reveal(handlers::edit_ended);
        },
    }
}

/// A mode with a list is left: with what was typed or searched for forgotten.
proof fn lemma_list_left(w: Ui, s: Ui, now: u64)
    requires
        s == moves::without_input(moves::left_mode(w)) || s == moves::without_search(
            moves::left_mode(w),
        ) || s == moves::left_mode(w),
    ensures
        ({
            let v = handlers::list_left(s);
            let t = moves::touched(v, now);
            let r = moves::redrawn(v);
            &&& same_place(w, t)
            &&& same_place(w, r)
            &&& t.coordinate == w.previous_coordinate
            &&& r.coordinate == w.previous_coordinate
            &&& t.selection_anchor == w.selection_anchor
            &&& r.selection_anchor == w.selection_anchor
            &&& t.needs_redraw
            &&& r.needs_redraw
            &&& t.list_index == ffon::last_or_zero(w.current_id)
            &&& t.scroll_offset == 0
            &&& r.list_index == ffon::last_or_zero(w.current_id)
            &&& r.scroll_offset == 0
            &&& s == moves::without_input(moves::left_mode(w)) ==> {
                &&& t.input_buffer.len() == 0
                &&& t.cursor_position == 0
                &&& r.input_buffer.len() == 0
                &&& r.cursor_position == 0
            }
            &&& s == moves::without_search(moves::left_mode(w)) ==> t.search_string.len() == 0
        }),
{
    assert(same_place(w, s) && s.coordinate == w.previous_coordinate && s.selection_anchor
        == w.selection_anchor && (s == moves::without_input(moves::left_mode(w))
        ==> s.input_buffer.len() == 0 && s.cursor_position == 0) && (s == moves::without_search(
        moves::left_mode(w),
    ) ==> s.search_string.len() == 0)) by {
        reveal(moves::without_input);
        reveal(moves::without_search);
        reveal(moves::left_mode);
    }
    lemma_listed(s);
    reveal(handlers::list_left);
    reveal(moves::list_scrolled);
    reveal(moves::at_position);
    reveal(moves::touched);
    reveal(moves::redrawn);
}

/// What a key opens from moving about, the escape key closes again.
pub proof fn law_escape_closes_what_was_opened(
    u: Ui,
    action: Action,
    o: OutsideView,
    p: OutsideView,
)
    requires
        u.coordinate is General,
        mode_of(action) != Coordinate::General,
        mode_of(action) == Coordinate::Insert ==> !state::in_editor(u),
        leads_on(u, action),
    ensures
        ({
            let v = events::performed(u, action, o).0;
            let w = events::performed(v, Action::Escape, p).0;
            &&& v.coordinate != u.coordinate
            &&& w.coordinate == u.coordinate
            &&& same_place(u, w)
        }),
{
    law_keys_lead_to_their_modes(u, action, o);
    let v = events::performed(u, action, o).0;
    assert(state::in_editor(v) == state::in_editor(u));
    law_escape_leads_back(v, Action::Escape, p);
}

/// A text that is edited between its tags is in the buffer as it stands there,
/// and what stands around the tags is kept for later.
pub proof fn law_editing_starts_with_the_text(
    u: Ui,
    n: Node,
    before: Seq<char>,
    t: Seq<char>,
    behind: Seq<char>,
    o: OutsideView,
)
    requires
        u.coordinate is General,
        enter_laws::untagged(before),
        before.len() > 0 ==> before.last() != '\\',
        enter_laws::untagged(t),
        t.len() > 0 ==> t.last() != '\\',
        enter_laws::untagged(behind),
        ffon::element_at(u.ffon, u.current_id) == Some(n),
        ffon::node_text(n) == before + "<input>"@ + t + "</input>"@ + behind,
        offsets::byte_len(t) <= usize::MAX,
    ensures
        ({
            let v = events::performed(u, Action::Insert, o).0;
            &&& v.coordinate == Coordinate::Insert
            &&& v.input_buffer == t
            &&& v.input_prefix == before
            &&& v.input_suffix == behind
            &&& text_laws::cursor_behind(v, Seq::empty())
            &&& same_place(u, v)
        }),
        ({
            let v = events::performed(u, Action::InsertAtEnd, o).0;
            &&& v.coordinate == Coordinate::Insert
            &&& v.input_buffer == t
            &&& v.input_prefix == before
            &&& v.input_suffix == behind
            &&& text_laws::cursor_behind(v, t)
            &&& same_place(u, v)
        }),
{
    reveal(events::performed);
    reveal(events::switched);
    lemma_editing(u, false, o.now);
    lemma_editing(u, true, o.now);
    enter_laws::lemma_focused(u, n);
    lemma_input_parts(n, before, t, behind);
    assert(offsets::byte_len(Seq::<char>::empty()) == 0);
}

/// The parts of a text that is edited between its tags.
pub(crate) proof fn lemma_input_parts(n: Node, before: Seq<char>, t: Seq<char>, behind: Seq<char>)
    requires
        enter_laws::untagged(before),
        before.len() > 0 ==> before.last() != '\\',
        enter_laws::untagged(t),
        t.len() > 0 ==> t.last() != '\\',
        enter_laws::untagged(behind),
        ffon::node_text(n) == before + "<input>"@ + t + "</input>"@ + behind,
    ensures
        handlers::input_parts(Some(n)) == (t, before, behind),
        markup::is_input(ffon::node_text(n)),
        !markup::is_input_all(ffon::node_text(n)),
        handlers::editable_text(ffon::node_text(n)) == Some(t),
{
    let open = "<input>"@;
    let close = "</input>"@;
    assert(enter_laws::is_tag(open) && enter_laws::is_tag(close) && open.last() != '\\') by {
        reveal_strlit("<input>");
        reveal_strlit("</input>");
    }
    enter_laws::law_text_is_found_between_tags(before, open, t, close, behind);
    lemma_not_spanning(before, t, behind);
    lemma_around(before, open, t, close, behind);
}

/// What stands around two tags.
proof fn lemma_around(
    before: Seq<char>,
    open: Seq<char>,
    t: Seq<char>,
    close: Seq<char>,
    behind: Seq<char>,
)
    requires
        enter_laws::untagged(before),
        enter_laws::untagged(t),
        enter_laws::is_tag(open),
        enter_laws::is_tag(close),
    ensures
        handlers::around(before + open + t + close + behind, t, open, close) == (
            t,
            before,
            behind,
        ),
{
    let s = before + open + t + close + behind;
    let i = before.len() as int;
    let j = i + open.len() + t.len();
    assert(s.subrange(i, i + open.len()) =~= open);
    assert(s.subrange(j, j + close.len()) =~= close);
    assert forall|k: int| 0 <= k < i implies #[trigger] s[k] != '<' by {
        assert(s[k] == before[k]);
    }
    enter_laws::lemma_tag_at(s, open, 0, i);
    assert forall|k: int| i + open.len() <= k < j implies #[trigger] s[k] != '<' by {
        assert(s[k] == t[k - i - open.len()]);
    }
    enter_laws::lemma_tag_at(s, close, i + open.len(), j);
    assert(s.take(i) =~= before);
    assert(s.skip(j + close.len()) =~= behind);
}

/// A text with the tags of an input is none that spans its element.
pub(crate) proof fn lemma_not_spanning(before: Seq<char>, t: Seq<char>, behind: Seq<char>)
    requires
        enter_laws::untagged(before),
        enter_laws::untagged(t),
        enter_laws::untagged(behind),
    ensures
        !markup::is_input_all(before + "<input>"@ + t + "</input>"@ + behind),
{
    reveal_strlit("<input>");
    reveal_strlit("</input>");
    reveal_strlit("<input-all>");
    let s = before + "<input>"@ + t + "</input>"@ + behind;
    let tag = "<input-all>"@;
    let i = before.len() as int;
    let j = i + 7 + t.len();
    assert forall|k: int| !markup::occurs(s, tag, k) by {
        if markup::occurs(s, tag, k) {
            let sub = s.subrange(k, k + tag.len());
            assert(sub[0] == s[k]);
            assert(sub[1] == s[k + 1]);
            assert(sub[6] == s[k + 6]);
            if k < i {
                assert(s[k] == before[k]);
            } else if i + 7 <= k < j {
                assert(s[k] == t[k - i - 7]);
            } else if k >= j + 8 {
                assert(s[k] == behind[k - j - 8]);
            }
        }
    }
}

/// A text without tags is edited as it stands, and the name of a branch with a
/// colon behind it. Where nothing is typed, the escape key leaves the tree as it
/// was.
pub proof fn law_editing_and_leaving_changes_nothing(u: Ui, n: Node, o: OutsideView, p: OutsideView)
    requires
        u.coordinate is General,
        ffon::element_at(u.ffon, u.current_id) == Some(n),
        enter_laws::untagged(ffon::node_text(n)),
        n is Str ==> !(ffon::node_text(n).len() > 0 && ffon::node_text(n).last() == ':'),
    ensures
        ({
            let v = events::performed(u, Action::Insert, o).0;
            let w = events::performed(v, Action::Escape, p).0;
            &&& v.input_buffer == if n is Obj {
                ffon::node_text(n) + seq![':']
            } else {
                ffon::node_text(n)
            }
            &&& v.input_prefix.len() == 0
            &&& v.input_suffix.len() == 0
            &&& w.ffon == u.ffon
            &&& w.current_id == u.current_id
            &&& w.coordinate == Coordinate::General
        }),
{
    let v = events::performed(u, Action::Insert, o).0;
    let key = ffon::node_text(n);
    assert(v == handlers::editing_started(u, false, o.now)) by {
        reveal(events::performed);
        reveal(events::switched);
    }
    lemma_editing(u, false, o.now);
    enter_laws::lemma_focused(u, n);
    lemma_no_input(key);
    assert(":"@ =~= seq![':']) by {
        reveal_strlit(":");
    }
    let layer = ffon::layer_of(u.ffon, u.current_id)->0;
    let i = u.current_id.last() as int;
    tree_laws::law_escape_writes_what_is_typed(v, layer, Action::Escape, p);
    let c = tree_laws::committed(n, v.input_buffer);
    match n {
        Node::Obj { key: k, children } => {
            assert(v.input_buffer.drop_last() =~= k);
        },
        Node::Str(_) => {},
    }
    assert(c == n);
    assert(layer.update(i, c) =~= layer);
    let w = events::performed(v, Action::Escape, p).0;
    if state::in_editor(v) {
        lemma_same(u.ffon, w.ffon, u.current_id.drop_last(), layer);
    }
}

/// Trees that differ in a layer that is the same in both are the same.
proof fn lemma_same(a: Seq<Node>, b: Seq<Node>, path: Seq<usize>, layer: Seq<Node>)
    requires
        tree_laws::differ_at(a, b, path, layer, layer),
    ensures
        a == b,
    decreases path.len(),
{
    if path.len() > 0 {
        let i = path[0] as int;
        lemma_same(a[i]->children, b[i]->children, path.drop_first(), layer);
        assert(a =~= b);
    }
}

pub(crate) proof fn lemma_no_input(key: Seq<char>)
    requires
        enter_laws::untagged(key),
    ensures
        !markup::is_input(key),
        !markup::is_input_all(key),
{
    reveal_strlit("<input>");
    reveal_strlit("<input-all>");
    assert forall|k: int|
        !markup::occurs(key, "<input>"@, k) && !markup::occurs(key, "<input-all>"@, k) by {
        if markup::occurs(key, "<input>"@, k) {
            assert(key.subrange(k, k + "<input>"@.len())[0] == key[k]);
        }
        if markup::occurs(key, "<input-all>"@, k) {
            assert(key.subrange(k, k + "<input-all>"@.len())[0] == key[k]);
        }
    }
}

/// Outside the editor a key puts an empty element before the current one, or
/// behind it, and starts to edit it; in the file browser it is the name of a
/// file or a directory that is asked for.
pub proof fn law_empty_element_is_put_in_and_edited(
    u: Ui,
    layer: Seq<Node>,
    behind: bool,
    o: OutsideView,
)
    requires
        u.coordinate is General,
        !state::in_editor(u),
        move_laws::shows_all(u),
        u.current_id.len() > 0,
        ffon::layer_of(u.ffon, u.current_id) == Some(layer),
        u.current_id.last() < layer.len() < usize::MAX,
    ensures
        ({
            let action = if behind {
                Action::AppendPlaceholder
            } else {
                Action::InsertPlaceholder
            };
            let v = events::performed(u, action, o).0;
            let i = u.current_id.last() + if behind {
                1int
            } else {
                0
            };
            let empty = Node::Str("<input></input>"@);
            &&& tree_laws::differ_at(
                u.ffon,
                v.ffon,
                u.current_id.drop_last(),
                layer,
                layer.insert(i, empty),
            )
            &&& v.current_id == move_laws::sibling(u.current_id, i)
            &&& ffon::element_at(v.ffon, v.current_id) == Some(empty)
            &&& v.list_index == i
            &&& v.coordinate == Coordinate::Insert
            &&& v.input_buffer.len() == 0
            &&& v.cursor_position == 0
            &&& v.placeholder_insert_mode == handlers::in_filebrowser(u)
        }),
{
    let action = if behind {
        Action::AppendPlaceholder
    } else {
        Action::InsertPlaceholder
    };
    let id = u.current_id;
    let i = (id.last() + if behind {
        1int
    } else {
        0
    }) as usize;
    let v = events::performed(u, action, o).0;
    move_laws::lemma_sibling(u.ffon, id, i);
    assert(v == handlers::placeholder_inserted(u, i, o.now)) by {
        reveal(events::performed);
        reveal(events::edited);
        reveal(handlers::after_placeholder);
    }
    lemma_placeholder(u, layer, i, o.now);
}

proof fn lemma_placeholder(u: Ui, layer: Seq<Node>, i: usize, now: u64)
    requires
        u.coordinate is General,
        move_laws::shows_all(u),
        u.current_id.len() > 0,
        ffon::layer_of(u.ffon, u.current_id) == Some(layer),
        i <= layer.len() < usize::MAX,
    ensures
        ({
            let v = handlers::placeholder_inserted(u, i, now);
            let empty = Node::Str("<input></input>"@);
            &&& tree_laws::differ_at(
                u.ffon,
                v.ffon,
                u.current_id.drop_last(),
                layer,
                layer.insert(i as int, empty),
            )
            &&& v.current_id == move_laws::sibling(u.current_id, i as int)
            &&& ffon::element_at(v.ffon, v.current_id) == Some(empty)
            &&& v.list_index == i
            &&& v.coordinate == Coordinate::Insert
            &&& v.input_buffer.len() == 0
            &&& v.cursor_position == 0
            &&& v.placeholder_insert_mode == handlers::in_filebrowser(u)
        }),
{
    let id = u.current_id;
    let empty = Node::Str("<input></input>"@);
    let after = layer.insert(i as int, empty);
    let p = handlers::asking_for_names(
        moves::placed_last(moves::node_inserted(u, i, handlers::placeholder()), i),
        handlers::in_filebrowser(u),
    );
    tree_laws::lemma_layered(u.ffon, id, layer, after);
    move_laws::lemma_sibling(u.ffon, id, i);
    let at = move_laws::sibling(id, i as int);
    assert(p.ffon == ffon::with_layer(u.ffon, id, after) && p.current_id == at && p.coordinate
        == u.coordinate && p.placeholder_insert_mode == handlers::in_filebrowser(u)) by {
        reveal(handlers::asking_for_names);
        reveal(moves::placed_last);
        reveal(moves::node_inserted);
    }
    move_laws::lemma_sibling(p.ffon, id, i);
    let l = list::listed(p);
    list::law_listing_keeps_the_rest(p);
    let s = moves::list_scrolled(moves::at_item(l, i), 0);
    assert(s.ffon == p.ffon && s.current_id == at && s.coordinate is General && s.list_index == i
        && s.placeholder_insert_mode == handlers::in_filebrowser(u)) by {
        reveal(moves::list_scrolled);
        reveal(moves::at_item);
    }
    assert(ffon::element_at(s.ffon, at) == Some(empty));
    lemma_editing(s, false, now);
    lemma_editing_keeps(s, now);
    enter_laws::lemma_focused(s, empty);
    lemma_empty_input();
    assert(handlers::placeholder_inserted(u, i, now) == handlers::editing_started(s, false, now))
        by {
        reveal(handlers::placeholder_inserted);
    }
}

/// Where the way leads to the directory that something is to be saved in, an
/// empty name is first in its layer and is typed over; the name that is typed
/// is the one to save under.
pub proof fn law_name_to_save_under_is_asked_for(u: Ui, layer: Seq<Node>, there: bool, now: u64)
    requires
        u.current_id.len() >= 2,
        ffon::layer_of(u.ffon, u.current_id) == Some(layer),
        layer.len() < usize::MAX,
    ensures
        ({
            let (v, next) = paths::led(u, paths::WayView::Ended(there), PathEnd::SaveAs, now);
            let empty = Node::Str("<input></input>"@);
            &&& next is Done
            &&& tree_laws::differ_at(
                u.ffon,
                v.ffon,
                u.current_id.drop_last(),
                layer,
                seq![empty] + layer,
            )
            &&& v.current_id == move_laws::sibling(u.current_id, 0)
            &&& ffon::element_at(v.ffon, v.current_id) == Some(empty)
            &&& v.list_index == 0
            &&& v.coordinate == Coordinate::Insert
            &&& v.input_buffer.len() == 0
            &&& v.cursor_position == 0
            &&& v.pending_file_browser_save_as
            &&& !v.placeholder_insert_mode
        }),
{
    let id = u.current_id;
    let empty = Node::Str("<input></input>"@);
    let after = layer.insert(0, empty);
    assert(after =~= seq![empty] + layer);
    let at = move_laws::sibling(id, 0);
    list::law_listing_keeps_the_rest(u);
    tree_laws::lemma_layered(u.ffon, id, layer, after);
    move_laws::lemma_sibling(u.ffon, id, 0);
    let q = moves::placed_last(paths::name_asked(list::listed(u)), 0);
    assert(q.ffon == ffon::with_layer(u.ffon, id, after) && q.current_id == at) by {
        reveal(moves::placed_last);
        reveal(moves::node_inserted);
    }
    move_laws::lemma_sibling(q.ffon, id, 0);
    let p = moves::in_mode(paths::saving_as(q, true), Coordinate::General);
    assert(p.ffon == q.ffon && p.current_id == at && p.coordinate is General
        && p.pending_file_browser_save_as) by {
        reveal(moves::in_mode);
        reveal(paths::saving_as);
    }
    list::law_listing_keeps_the_rest(p);
    let s = handlers::asking_for_names(
        moves::list_scrolled(moves::at_item(list::listed(p), 0), 0),
        false,
    );
    assert(s.ffon == p.ffon && s.current_id == at && s.coordinate is General && s.list_index == 0
        && !s.placeholder_insert_mode && s.pending_file_browser_save_as) by {
        reveal(moves::list_scrolled);
        reveal(moves::at_item);
        reveal(handlers::asking_for_names);
    }
    assert(ffon::element_at(s.ffon, at) == Some(empty));
    lemma_editing(s, false, now);
    lemma_editing_keeps(s, now);
    enter_laws::lemma_focused(s, empty);
    lemma_empty_input();
    reveal(paths::led);
    reveal(paths::path_done);
    reveal(paths::save_as_ready);
    reveal(moves::redrawn);
}

proof fn lemma_empty_input()
    ensures
        handlers::input_parts(Some(Node::Str("<input></input>"@))) == (
            Seq::<char>::empty(),
            Seq::<char>::empty(),
            Seq::<char>::empty(),
        ),
{
    let none = Seq::<char>::empty();
    assert(none + "<input>"@ + none + "</input>"@ + none =~= "<input></input>"@) by {
        reveal_strlit("<input>");
        reveal_strlit("</input>");
        reveal_strlit("<input></input>");
    }
    lemma_input_parts(Node::Str("<input></input>"@), none, none, none);
}

proof fn lemma_editing_keeps(u: Ui, now: u64)
    requires
        u.coordinate is General,
    ensures
        handlers::editing_started(u, false, now).list_index == u.list_index,
        handlers::editing_started(u, false, now).placeholder_insert_mode
            == u.placeholder_insert_mode,
        handlers::editing_started(u, false, now).pending_file_browser_save_as
            == u.pending_file_browser_save_as,
{
    reveal(handlers::editing_started);
    reveal(moves::entered);
    reveal(handlers::populated);
    reveal(moves::with_parts);
    reveal(moves::with_cursor);
    reveal(moves::unselected);
    reveal(moves::touched);
}

/// The key for a line break types one where an element is edited, and does
/// nothing elsewhere.
pub proof fn law_line_break_is_typed(u: Ui, o: OutsideView)
    ensures
        u.coordinate is Insert ==> events::performed(u, Action::Newline, o).0
            == typing::after_input(u, seq!['\n'], o.now),
        !(u.coordinate is Insert) ==> events::performed(u, Action::Newline, o).0 == u,
{
    reveal(events::performed);
    reveal(events::erased);
    reveal(handlers::after_newline);
    reveal_strlit("\n");
    assert("\n"@ =~= seq!['\n']);
}

/// The find key searches the text that is scrolled or edited, and everything
/// below the position elsewhere; nothing is searched for at first. A second tap
/// in that search goes on from the root.
pub proof fn law_find_searches_where_it_is_pressed(u: Ui, o: OutsideView)
    ensures
        ({
            let v = events::performed(u, Action::Find, o).0;
            &&& u.coordinate is Scroll ==> {
                &&& v.coordinate == Coordinate::ScrollSearch
                &&& v.input_buffer.len() == 0
                &&& v.scroll_search_match_count == 0
                &&& same_place(u, v)
            }
            &&& u.coordinate is Insert ==> {
                &&& v.coordinate == Coordinate::InputSearch
                &&& v.previous_coordinate == Coordinate::Insert
                &&& v.input_buffer.len() == 0
                &&& same_place(u, v)
            }
            &&& u.coordinate is SimpleSearch ==> {
                &&& v.coordinate == Coordinate::ExtendedSearch
                &&& v.previous_coordinate == u.previous_coordinate
                &&& v.input_buffer.len() == 0
                &&& same_place(u, v)
            }
            &&& u.coordinate is ExtendedSearch ==> {
                &&& v.coordinate == Coordinate::ExtendedSearch
                &&& v.last_keypress_time == o.now
                &&& v.ffon == u.ffon
                &&& o.now - u.last_keypress_time <= 400 && u.current_id.len() > 0 ==> {
                    &&& v.current_id == seq![u.current_id[0]]
                    &&& v.input_buffer.len() == 0
                    &&& v.list_index == 0
                }
                &&& o.now - u.last_keypress_time > 400 ==> v.current_id == u.current_id
                    && v.input_buffer == u.input_buffer
            }
        }),
{
    reveal(events::performed);
    reveal(events::switched);
    reveal(handlers::after_find);
    match u.coordinate {
        Coordinate::Scroll | Coordinate::Insert => {
            reveal(moves::redrawn);
            reveal(handlers::without_matches);
            reveal(moves::unselected);
            reveal(moves::without_input);
            reveal(moves::in_mode);
            reveal(moves::entered);
        },
        Coordinate::SimpleSearch => {
            let e = moves::in_mode(u, Coordinate::ExtendedSearch);
            assert(same_place(u, e) && e.coordinate == Coordinate::ExtendedSearch
                && e.previous_coordinate == u.previous_coordinate) by {
                reveal(moves::in_mode);
            }
            lemma_search_opened(e);
            reveal(moves::redrawn);
            reveal(moves::tapped);
            reveal(moves::at_position);
        },
        Coordinate::ExtendedSearch => {
            let root = handlers::root_of(u.current_id);
            if u.current_id.len() > 0 {
                assert(root =~= seq![u.current_id[0]]);
            }
            let e = moves::placed(u, root);
            assert(e.ffon == u.ffon && e.current_id == root && e.coordinate == u.coordinate) by {
                reveal(moves::placed);
            }
            lemma_search_opened(e);
            reveal(moves::redrawn);
            reveal(moves::tapped);
            reveal(moves::at_item);
        },
        _ => {},
    }
}

} // verus!
