//! Where paths lead, and what is said of the place that they lead to.

use vstd::prelude::*;

use crate::accesskit_sdl;
use crate::app_state::{ProviderView, TimelineState, Ui};
use crate::disk_laws;
use crate::entry_laws;
use crate::ffon;
use crate::ffon::Node;
use crate::files;
use crate::list;
use crate::markup;
use crate::move_laws;
use crate::moves;
use crate::paths;
use crate::paths::{LegView, WayView};
use crate::provider;
use crate::provider::{OpView, ReplyView, StepView, ThenView};
use crate::rebuild;
use crate::registry;
use crate::resume;
use crate::saving;
use crate::state;
use crate::steps;
use crate::text;
use crate::timeline::{EntryView, NavKind};

verus! {

/// Whether a part of a path is one: it is not empty and holds no separator.
pub open spec fn is_part(s: Seq<char>, a: char, b: char) -> bool {
    s.len() > 0 && forall|i: int| 0 <= i < s.len() ==> #[trigger] s[i] != a && s[i] != b
}

proof fn lemma_split_on(x: Seq<char>, piece: Seq<char>, a: char, b: char)
    requires
        forall|i: int| 0 <= i < piece.len() ==> #[trigger] piece[i] != a && piece[i] != b,
    ensures
        text::split(x, a, b).len() > 0,
        text::split(x + piece, a, b) == text::split(x, a, b).drop_last().push(
            text::split(x, a, b).last() + piece,
        ),
    decreases x.len() + piece.len(),
{
    lemma_split_some(x, a, b);
    let before = text::split(x, a, b);
    if piece.len() == 0 {
        assert(x + piece =~= x);
        assert(before.last() + piece =~= before.last());
        assert(before.drop_last().push(before.last()) =~= before);
    } else {
        let p = piece.drop_last();
        lemma_split_on(x, p, a, b);
        assert((x + piece).drop_last() =~= x + p);
        assert((x + piece).last() == piece[piece.len() - 1]);
        let mid = text::split(x + p, a, b);
        assert(mid.drop_last() =~= before.drop_last());
        assert((before.last() + p).push(piece.last()) =~= before.last() + piece);
    }
}

proof fn lemma_split_some(x: Seq<char>, a: char, b: char)
    ensures
        text::split(x, a, b).len() > 0,
    decreases x.len(),
{
    if x.len() > 0 {
        lemma_split_some(x.drop_last(), a, b);
    }
}

proof fn lemma_split_joined(parts: Seq<Seq<char>>, a: char, b: char)
    requires
        parts.len() > 0,
        forall|i: int| 0 <= i < parts.len() ==> is_part(#[trigger] parts[i], a, b),
    ensures
        text::split(text::joined(parts, seq![a]), a, b) == parts,
    decreases parts.len(),
{
    let none = Seq::<char>::empty();
    if parts.len() == 1 {
        lemma_split_on(none, parts[0], a, b);
        assert(none + parts[0] =~= parts[0]);
        let first = text::split(none, a, b);
        assert(first =~= seq![none]);
        assert(first.drop_last().push(none + parts[0]) =~= parts);
    } else {
        let above = parts.drop_last();
        assert forall|i: int| 0 <= i < above.len() implies is_part(#[trigger] above[i], a, b) by {
            assert(above[i] == parts[i]);
        }
        lemma_split_joined(above, a, b);
        let x = text::joined(above, seq![a]) + seq![a];
        assert(x.drop_last() =~= text::joined(above, seq![a]));
        assert(text::split(x, a, b) == above.push(none));
        lemma_split_on(x, parts.last(), a, b);
        assert(above.push(none).drop_last() =~= above);
        assert(none + parts.last() =~= parts.last());
        assert(above.push(parts.last()) =~= parts);
    }
}

proof fn lemma_all_kept(parts: Seq<Seq<char>>)
    requires
        forall|i: int| 0 <= i < parts.len() ==> (#[trigger] parts[i]).len() > 0,
    ensures
        text::nonempty(parts) == parts,
    decreases parts.len(),
{
    if parts.len() > 0 {
        let above = parts.drop_last();
        assert forall|i: int| 0 <= i < above.len() implies (#[trigger] above[i]).len() > 0 by {
            assert(above[i] == parts[i]);
        }
        lemma_all_kept(above);
        assert(above.push(parts.last()) =~= parts);
    }
}

/// A path that is put together from its parts comes apart into them again.
pub proof fn law_paths_come_apart(parts: Seq<Seq<char>>)
    requires
        parts.len() > 0,
        forall|i: int| 0 <= i < parts.len() ==> is_part(#[trigger] parts[i], '/', '\\'),
    ensures
        paths::path_parts(text::joined(parts, seq!['/'])) == parts,
        paths::path_parts(seq!['/'] + text::joined(parts, seq!['/'])) == parts,
        rebuild::parts_of(text::joined(parts, seq!['/'])) == parts,
{
    let s = text::joined(parts, seq!['/']);
    lemma_split_joined(parts, '/', '\\');
    lemma_all_kept(parts);
    assert forall|i: int| 0 <= i < parts.len() implies is_part(#[trigger] parts[i], '/', '/') by {
        assert(is_part(parts[i], '/', '\\'));
    }
    lemma_split_joined(parts, '/', '/');
    lemma_joined_starts(parts);
    assert((seq!['/'] + s).drop_first() =~= s);
    assert(text::without_leading(s, '/') == s);
    assert(text::without_leading(seq!['/'] + s, '/') == text::without_leading(s, '/'));
}

proof fn lemma_joined_starts(parts: Seq<Seq<char>>)
    requires
        parts.len() > 0,
        forall|i: int| 0 <= i < parts.len() ==> is_part(#[trigger] parts[i], '/', '\\'),
    ensures
        text::joined(parts, seq!['/']).len() > 0,
        text::joined(parts, seq!['/'])[0] == parts[0][0],
        text::joined(parts, seq!['/'])[0] != '/',
    decreases parts.len(),
{
    assert(is_part(parts[0], '/', '\\'));
    if parts.len() > 1 {
        let above = parts.drop_last();
        assert forall|i: int| 0 <= i < above.len() implies is_part(
            #[trigger] above[i],
            '/',
            '\\',
        ) by {
            assert(above[i] == parts[i]);
        }
        lemma_joined_starts(above);
    }
}

/// Whether the element `i` of a layer is the first that is shown as `name`.
pub open spec fn is_first_shown(layer: Seq<Node>, name: Seq<char>, i: int) -> bool {
    &&& 0 <= i < layer.len()
    &&& markup::display_text(ffon::node_text(layer[i])) == name
    &&& forall|j: int|
        0 <= j < i ==> markup::display_text(ffon::node_text(#[trigger] layer[j])) != name
}

proof fn lemma_first_shown(layer: Seq<Node>, name: Seq<char>, i: int, from: int)
    requires
        is_first_shown(layer, name, i),
        0 <= from <= i,
    ensures
        steps::shown_as(layer, name, false, from) == Some(i),
    decreases i - from,
{
    if from < i {
        lemma_first_shown(layer, name, i, from + 1);
    }
}

/// The way to a directory goes into the branch of the layer that is shown as the
/// next part of the path: the provider goes there, and what is there is fetched.
pub proof fn law_the_way_goes_into_the_next_part(
    u: Ui,
    layer: Seq<Node>,
    i: int,
    rest: Seq<Seq<char>>,
    target: Seq<char>,
)
    requires
        u.current_id.len() > 1,
        u.current_id[0] < u.providers.len(),
        ffon::layer_of(u.ffon, u.current_id) == Some(layer),
        layer.len() <= usize::MAX,
        rest.len() > 0,
        is_first_shown(layer, rest[0], i),
        layer[i] is Obj,
    ensures
        ({
            let (v, way) = paths::next_leg(u, rest, target);
            &&& v.current_id == move_laws::sibling(u.current_id, i)
            &&& v.ffon == u.ffon
            &&& way == WayView::Ask {
                provider: Some(u.current_id[0]),
                ops: seq![OpView::PushPath(rest[0]), OpView::Fetch],
                leg: LegView::Part { rest: rest.drop_first(), target },
            }
        }),
{
    reveal(paths::next_leg);
    lemma_first_shown(layer, rest[0], i, 0);
    move_laws::lemma_sibling(u.ffon, u.current_id, i as usize);
    reveal(moves::placed_last);
    reveal(moves::node_at);
    let at = move_laws::sibling(u.current_id, i);
    assert(at[0] == u.current_id[0]);
    assert(moves::node_at(u.ffon, at) == Some(layer[i]));
}

/// The way ends at the file that was asked for.
pub proof fn law_the_way_ends_at_the_file(
    u: Ui,
    layer: Seq<Node>,
    i: int,
    target: Seq<char>,
)
    requires
        u.current_id.len() > 0,
        ffon::layer_of(u.ffon, u.current_id) == Some(layer),
        layer.len() <= usize::MAX,
        target.len() > 0,
        is_first_shown(layer, target, i),
    ensures
        ({
            let (v, way) = paths::next_leg(u, Seq::empty(), target);
            &&& v.current_id == move_laws::sibling(u.current_id, i)
            &&& v.ffon == u.ffon
            &&& way == WayView::Ended(true)
        }),
{
    reveal(paths::next_leg);
    lemma_first_shown(layer, target, i, 0);
    move_laws::lemma_sibling(u.ffon, u.current_id, i as usize);
    reveal(moves::placed_last);
}

/// A position behind the end of its layer is put on the last element of it, and
/// one that leads nowhere goes up to the layer above.
pub proof fn law_positions_are_put_back(tree: Seq<Node>, id: Seq<usize>, layer: Seq<Node>)
    requires
        id.len() > 0,
        layer.len() > 0,
        layer.len() <= usize::MAX,
    ensures
        ffon::layer_of(tree, id) == Some(layer) && id.last() >= layer.len() ==> rebuild::clamped(
            tree,
            id,
        ) == move_laws::sibling(id, layer.len() - 1),
        ffon::layer_of(tree, id) is None ==> rebuild::clamped(tree, id) == rebuild::clamped(
            tree,
            id.drop_last(),
        ),
{
    move_laws::lemma_sibling(tree, id, (layer.len() - 1) as usize);
}

/// A provider that is added has its tree behind the others: its name, with what
/// it fetched below it.
pub proof fn law_added_provider_has_its_tree(
    u: Ui,
    p: ProviderView,
    children: Seq<Node>,
    error: Option<Seq<char>>,
)
    requires
        u.ffon.len() == u.providers.len(),
    ensures
        ({
            let v = registry::registered(u, p, children, error);
            let n = u.providers.len() as int;
            &&& v.providers.len() == n + 1
            &&& v.providers[n] == p
            &&& v.ffon[n] == (Node::Obj { key: p.display_name, children })
            &&& forall|i: int|
                0 <= i < n ==> v.ffon[i] == u.ffon[i] && #[trigger] v.providers[i]
                    == u.providers[i]
            &&& error is Some ==> v.error_message == error->0
            &&& error is None ==> v.error_message == u.error_message
        }),
{
    reveal(registry::registered);
}

/// The folder that is saved in: a name that is no absolute path is taken from
/// the home directory; without a name it is the folder for downloads.
pub proof fn law_save_folder_is_found(
    name: Seq<char>,
    home: Seq<char>,
    downloads: Seq<char>,
    absolute: bool,
)
    requires
        entry_laws::is_name(name),
        home.len() > 0,
    ensures
        saving::save_folder(name, true, home, Some(downloads)) == name,
        saving::save_folder(name, false, home, Some(downloads)) == home + "/"@ + name,
        saving::save_folder(Seq::empty(), absolute, home, Some(downloads)) == downloads,
        saving::save_folder(seq![' '] + name + seq![' '], true, home, Some(downloads)) == name,
{
    assert(text::trimmed(name) == name);
    let spaced = seq![' '] + name + seq![' '];
    assert(spaced.drop_first() =~= name + seq![' ']);
    assert((name + seq![' ']).drop_last() =~= name);
    assert(text::trimmed_start(name + seq![' ']) == name + seq![' ']);
    assert(text::trimmed_start(spaced) == name + seq![' ']);
    assert(text::trimmed_end(name + seq![' ']) == text::trimmed_end(name));
    assert(text::trimmed(Seq::<char>::empty()) =~= Seq::<char>::empty());
    reveal(saving::save_folder);
}

/// The prefix of a label is said in words: the sign, and then the letters.
pub proof fn law_prefixes_are_said(prefix: Seq<char>, word: Seq<char>)
    requires
        accesskit_sdl::prefix_word(prefix) == Some(word),
        prefix.len() > 0,
    ensures
        prefix[0] == '-' && prefix.len() == 1 ==> word == "minus"@,
        prefix[0] == '-' && prefix.len() > 1 ==> word == "minus "@ + prefix.skip(1),
        prefix[0] == '+' && prefix.len() == 1 ==> word == "plus"@,
        prefix[0] == '+' && prefix.len() > 1 ==> word == "plus "@ + prefix.skip(1),
        forall|i: int| 0 <= i < prefix.len() ==> #[trigger] prefix[i] != ' ',
{
    reveal_strlit("-");
    reveal_strlit("+");
    reveal_strlit(">");
    reveal_strlit("\u{00B7}");
    reveal_strlit("minus");
    reveal_strlit("plus");
    reveal_strlit("minus ");
    reveal_strlit("plus ");
    reveal_strlit("current");
    reveal_strlit("undone");
    if prefix[0] == '-' && prefix.len() > 1 {
        lemma_minus(prefix, word);
    } else if prefix[0] == '+' && prefix.len() > 1 {
        lemma_plus(prefix, word);
    } else {
        lemma_sign(prefix);
    }
}

proof fn lemma_minus(prefix: Seq<char>, word: Seq<char>)
    requires
        accesskit_sdl::prefix_word(prefix) == Some(word),
        prefix.len() > 1,
        prefix[0] == '-',
    ensures
        word == "minus "@ + prefix.skip(1),
        forall|i: int| 0 <= i < prefix.len() ==> #[trigger] prefix[i] != ' ',
{
    reveal_strlit("-");
    reveal_strlit("+");
    reveal_strlit(">");
    reveal_strlit("\u{00B7}");
    reveal_strlit("+cc");
    reveal_strlit("+c");
    reveal_strlit("+l");
    reveal_strlit("+R");
    reveal_strlit("+i");
    reveal_strlit("minus ");
    reveal_strlit("-p");
    reveal_strlit("minus p");
    reveal_strlit("-cc");
    reveal_strlit("minus cc");
    reveal_strlit("-c");
    reveal_strlit("minus c");
    reveal_strlit("-rc");
    reveal_strlit("minus rc");
    reveal_strlit("-b");
    reveal_strlit("minus b");
    reveal_strlit("-i");
    reveal_strlit("minus i");
    reveal_strlit("-r");
    reveal_strlit("minus r");
    assert(word =~= "minus "@ + prefix.skip(1));
}

proof fn lemma_plus(prefix: Seq<char>, word: Seq<char>)
    requires
        accesskit_sdl::prefix_word(prefix) == Some(word),
        prefix.len() > 1,
        prefix[0] == '+',
    ensures
        word == "plus "@ + prefix.skip(1),
        forall|i: int| 0 <= i < prefix.len() ==> #[trigger] prefix[i] != ' ',
{
    reveal_strlit("-");
    reveal_strlit("+");
    reveal_strlit(">");
    reveal_strlit("\u{00B7}");
    reveal_strlit("-p");
    reveal_strlit("-cc");
    reveal_strlit("-c");
    reveal_strlit("-rc");
    reveal_strlit("-b");
    reveal_strlit("-i");
    reveal_strlit("-r");
    reveal_strlit("plus ");
    reveal_strlit("+cc");
    reveal_strlit("plus cc");
    reveal_strlit("+c");
    reveal_strlit("plus c");
    reveal_strlit("+l");
    reveal_strlit("plus l");
    reveal_strlit("+R");
    reveal_strlit("plus R");
    reveal_strlit("+i");
    reveal_strlit("plus i");
    assert(word =~= "plus "@ + prefix.skip(1));
}

proof fn lemma_sign(prefix: Seq<char>)
    requires
        accesskit_sdl::prefix_word(prefix) is Some,
        prefix.len() > 0,
        (prefix[0] != '-' && prefix[0] != '+') || prefix.len() == 1,
    ensures
        forall|i: int| 0 <= i < prefix.len() ==> #[trigger] prefix[i] != ' ',
        prefix[0] == '-' ==> accesskit_sdl::prefix_word(prefix) == Some("minus"@),
        prefix[0] == '+' ==> accesskit_sdl::prefix_word(prefix) == Some("plus"@),
{
    reveal_strlit("-");
    reveal_strlit("+");
    reveal_strlit(">");
    reveal_strlit("\u{00B7}");
    reveal_strlit("-p");
    reveal_strlit("-cc");
    reveal_strlit("-c");
    reveal_strlit("-rc");
    reveal_strlit("-b");
    reveal_strlit("-i");
    reveal_strlit("-r");
    reveal_strlit("+cc");
    reveal_strlit("+c");
    reveal_strlit("+l");
    reveal_strlit("+R");
    reveal_strlit("+i");
    if prefix[0] == '-' {
        assert(prefix =~= "-"@);
    }
    if prefix[0] == '+' {
        assert(prefix =~= "+"@);
    }
}

/// What is said of the selected item is its label, with the prefix in words.
pub proof fn law_selected_item_is_said(u: Ui, prefix: Seq<char>, word: Seq<char>, content: Seq<char>)
    requires
        move_laws::item_shown(u) matches Some(item) && item.label == prefix + seq![' '] + content,
        accesskit_sdl::prefix_word(prefix) == Some(word),
        prefix.len() > 0,
        forall|i: int| 0 <= i < content.len() ==> #[trigger] content[i] != ' ',
    ensures
        accesskit_sdl::focused(u) == (word + " "@ + content, content),
{
    let label = prefix + seq![' '] + content;
    law_prefixes_are_said(prefix, word);
    text::lemma_split_at_first(label, ' ');
    text::lemma_split_at_first(content, ' ');
    lemma_index(label, prefix.len() as int, 0);
    lemma_no_index(content, 0);
    assert(label.take(prefix.len() as int) =~= prefix);
    assert(label.skip(prefix.len() as int + 1) =~= content);
    assert(text::split_at_first(label, ' ') == Some((prefix, content)));
    assert(text::split_at_first(content, ' ') is None);
    reveal_with_fuel(accesskit_sdl::bare_content, 2);
    reveal(accesskit_sdl::focused_label);
}

proof fn lemma_index(s: Seq<char>, k: int, from: int)
    requires
        0 <= from <= k < s.len(),
        s[k] == ' ',
        forall|i: int| 0 <= i < k ==> s[i] != ' ',
    ensures
        text::index_from(s, ' ', from) == Some(k),
    decreases k - from,
{
    if from < k {
        lemma_index(s, k, from + 1);
    }
}

proof fn lemma_no_index(s: Seq<char>, from: int)
    requires
        0 <= from <= s.len(),
        forall|i: int| 0 <= i < s.len() ==> s[i] != ' ',
    ensures
        text::index_from(s, ' ', from) is None,
    decreases s.len() - from,
{
    if from < s.len() {
        lemma_no_index(s, from + 1);
    }
}

/// Going about at one path is one step: from where it started to where it ended.
pub proof fn law_going_about_is_one_step(
    tl: TimelineState,
    i: usize,
    a: Seq<usize>,
    b: Seq<usize>,
    c: Seq<usize>,
    from: Option<Seq<char>>,
    path: Option<Seq<char>>,
    first: NavKind,
    second: NavKind,
    now: u64,
)
    requires
        tl.position == 0,
        !tl.coalesce_break,
        tl.entries.len() > 0,
        tl.entries.last() == (EntryView::Navigate {
            provider_idx: i,
            from_id: a,
            to_id: b,
            from_path: from,
            to_path: path,
            kind: first,
        }),
    ensures
        state::recorded(
            tl,
            EntryView::Navigate {
                provider_idx: i,
                from_id: b,
                to_id: c,
                from_path: path,
                to_path: path,
                kind: second,
            },
            now,
        ).entries == tl.entries.drop_last().push(
            EntryView::Navigate {
                provider_idx: i,
                from_id: a,
                to_id: c,
                from_path: from,
                to_path: path,
                kind: second,
            },
        ),
{
    assert(state::done_entries(tl) =~= tl.entries);
    let merged = EntryView::Navigate {
        provider_idx: i,
        from_id: a,
        to_id: c,
        from_path: from,
        to_path: path,
        kind: second,
    };
    assert(tl.entries.update(tl.entries.len() - 1, merged) =~= tl.entries.drop_last().push(
        merged,
    ));
}

/// When the directory that a file was pasted into was fetched, the position is
/// at the file.
pub proof fn law_pasted_file_is_selected(
    u: Ui,
    name: Seq<char>,
    i: int,
    ops: Seq<OpView>,
    reply: ReplyView,
    now: u64,
)
    requires
        u.current_id.len() == 2,
        u.current_id[0] < u.providers.len(),
        u.current_id[0] < u.ffon.len(),
        is_first_shown(reply.children, name, i),
        reply.children.len() <= usize::MAX,
    ensures
        ({
            let step = StepView::Ask {
                provider: Some(u.current_id[0]),
                ops,
                then: ThenView::PasteFetched { name },
            };
            let (v, end) = disk_laws::answered(u, step, reply, now);
            &&& v.current_id == seq![u.current_id[0], i as usize]
            &&& v.list_index == i
            &&& ffon::layer_of(v.ffon, v.current_id) == Some(reply.children)
            &&& end == StepView::Done
        }),
{
    let p = Some(u.current_id[0]);
    let step = StepView::Ask { provider: p, ops, then: ThenView::PasteFetched { name } };
    let a = resume::answer_of(reply);
    let k = provider::learned(u, p, reply.info);
    disk_laws::lemma_learned(u, p, reply);
    assert(disk_laws::answered(u, step, reply, now) == (
        files::paste_shown(k, p, a, name),
        StepView::Done,
    )) by {
        reveal(resume::going_on);
        reveal(resume::command_going_on);
        reveal(resume::search_going_on);
        reveal(resume::file_going_on);
    }
    let r = provider::refreshed(k, p, a);
    let root = u.current_id[0];
    assert(r.current_id == u.current_id && r.ffon.len() == u.ffon.len() && r.ffon[root as int]
        is Obj && r.ffon[root as int]->children == reply.children) by {
        reveal(provider::refreshed);
    }
    list::law_listing_keeps_the_rest(r);
    let l = list::listed(r);
    move_laws::lemma_root_layer(r.ffon, root);
    let id = u.current_id;
    move_laws::lemma_sibling(r.ffon, seq![root, 0], id[1]);
    assert(move_laws::sibling(seq![root, 0], id[1] as int) =~= id);
    lemma_first_shown(reply.children, name, i, 0);
    move_laws::lemma_sibling(r.ffon, id, i as usize);
    assert(move_laws::sibling(id, i) =~= seq![root, i as usize]);
    reveal(files::paste_shown);
    reveal(moves::redrawn);
    reveal(moves::at_item);
    reveal(moves::placed_last);
}

} // verus!
