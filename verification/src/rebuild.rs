//! Bringing a tab back: the tree of its provider is fetched again level by
//! level, and the position is put where the tree still has it.

use vstd::prelude::*;

use crate::app_state;
use crate::app_state::{AppRenderer, ProviderInfo, ProviderView, Ui};
use crate::ffon;
use crate::ffon::{FfonElement, FfonObject, IdArray, Node};
use crate::markup;
use crate::text;

verus! {

/// A directory on the way to a native path: the path itself, or one above it.
pub struct Ancestor {
    /// The last part of its path.
    pub name: Option<String>,
    pub path: String,
}

/// What a directory on the way to a native path is.
#[verifier::ext_equal]
pub struct AncestorView {
    pub name: Option<Seq<char>>,
    pub path: Seq<char>,
}

impl View for Ancestor {
    type V = AncestorView;

    open spec fn view(&self) -> AncestorView {
        AncestorView { name: text::opt_text(self.name), path: self.path@ }
    }
}

/// What the directories on the way to a native path are.
pub open spec fn ancestry(s: Seq<Ancestor>) -> Seq<AncestorView> {
    Seq::new(s.len(), |i: int| s[i]@)
}

/// Where a provider is led to.
pub enum Place {
    At(String),
    /// The native path `root` with the parts behind it.
    Native { root: String, parts: Vec<String> },
}

/// What a place is.
pub enum PlaceView {
    At(Seq<char>),
    Native { root: Seq<char>, parts: Seq<Seq<char>> },
}

impl View for Place {
    type V = PlaceView;

    open spec fn view(&self) -> PlaceView {
        match self {
            Place::At(path) => PlaceView::At(path@),
            Place::Native { root, parts } => PlaceView::Native {
                root: root@,
                parts: text::texts(parts@),
            },
        }
    }
}

/// A tree that is being fetched again.
pub struct Rebuild {
    pub provider: usize,
    /// Where the provider is to end.
    pub path: String,
    /// The text of the root.
    pub key: String,
    pub native: bool,
    /// Where the first level is fetched.
    pub root: String,
    /// The parts of the path below that, one for each level.
    pub segments: Vec<String>,
    /// How many of them were found.
    pub found: usize,
    /// What was fetched.
    pub tree: Vec<FfonElement>,
    /// Where the next level goes.
    pub id: IdArray,
    /// Whether there is nothing left to fetch.
    pub done: bool,
    /// Whether the provider is led to the path at the end.
    pub restores: bool,
}

/// A tree that is being fetched again, as values.
#[verifier::ext_equal]
pub struct RebuildView {
    pub provider: usize,
    pub path: Seq<char>,
    pub key: Seq<char>,
    pub native: bool,
    pub root: Seq<char>,
    pub segments: Seq<Seq<char>>,
    pub found: usize,
    pub tree: Seq<Node>,
    pub id: Seq<usize>,
    pub done: bool,
    pub restores: bool,
}

impl View for Rebuild {
    type V = RebuildView;

    open spec fn view(&self) -> RebuildView {
        RebuildView {
            provider: self.provider,
            path: self.path@,
            key: self.key@,
            native: self.native,
            root: self.root@,
            segments: text::texts(self.segments@),
            found: self.found,
            tree: ffon::forest(self.tree@),
            id: self.id@,
            done: self.done,
            restores: self.restores,
        }
    }
}

/// The path of the parts, from the root.
pub open spec fn absolute(parts: Seq<Seq<char>>) -> Seq<char> {
    if parts.len() == 0 {
        "/"@
    } else {
        "/"@ + text::joined(parts, "/"@)
    }
}

/// The parts of a path.
pub open spec fn parts_of(path: Seq<char>) -> Seq<Seq<char>> {
    text::nonempty(text::split(path, '/', '/'))
}

/// How many levels a position is below the root of a provider.
pub open spec fn navigated(depth: nat) -> nat {
    if depth > 2 {
        (depth - 2) as nat
    } else {
        0
    }
}

/// How many of the parts of a path are above the first level.
pub open spec fn kept(parts: Seq<Seq<char>>, depth: nat) -> int {
    if navigated(depth) < parts.len() {
        parts.len() - navigated(depth)
    } else {
        0
    }
}

/// How many of the first `n` directories have a name and one above them.
pub open spec fn named(ancestors: Seq<AncestorView>, n: nat) -> nat
    decreases n,
{
    if n == 0 {
        0
    } else {
        let k = named(ancestors, (n - 1) as nat);
        if k == n - 1 && k + 1 < ancestors.len() && ancestors[k as int].name is Some {
            n
        } else {
            k
        }
    }
}

/// The names of the first `k` directories, the innermost last.
pub open spec fn names_down(ancestors: Seq<AncestorView>, k: nat) -> Seq<Seq<char>> {
    Seq::new(k, |i: int| ancestors[k - 1 - i].name->0)
}

/// Where the fetching starts and which parts it goes through, for a provider
/// that is to end at `path` with a position of the depth `depth`.
pub open spec fn plan(
    p: ProviderView,
    path: Seq<char>,
    depth: nat,
    ancestors: Seq<AncestorView>,
) -> (Seq<char>, Seq<Seq<char>>) {
    if p.name == "settings"@ {
        (path, Seq::empty())
    } else if p.path_is_filesystem {
        let k = named(ancestors, navigated(depth));
        if ancestors.len() > 0 {
            (ancestors[k as int].path, names_down(ancestors, k))
        } else {
            (path, Seq::empty())
        }
    } else {
        let parts = parts_of(path);
        (absolute(parts.take(kept(parts, depth))), parts.skip(kept(parts, depth)))
    }
}

/// A tree of which nothing is fetched yet.
pub open spec fn started(
    p: ProviderView,
    provider: usize,
    path: Seq<char>,
    depth: nat,
    ancestors: Seq<AncestorView>,
) -> RebuildView {
    RebuildView {
        provider,
        path,
        key: p.display_name,
        native: p.name != "settings"@ && p.path_is_filesystem,
        root: plan(p, path, depth, ancestors).0,
        segments: plan(p, path, depth, ancestors).1,
        found: 0,
        tree: Seq::empty(),
        id: seq![0usize],
        done: false,
        restores: p.name != "settings"@,
    }
}

/// A copy of the strings from `from` up to `to`.
fn strings_between(parts: &Vec<String>, from: usize, to: usize) -> (res: Vec<String>)
    requires
        from <= to <= parts.len(),
    ensures
        text::texts(res@) == text::texts(parts@).subrange(from as int, to as int),
{
    let mut res: Vec<String> = Vec::new();
    let mut i: usize = from;
    let ghost all = text::texts(parts@);
    assert(text::texts(res@) =~= all.subrange(from as int, from as int));
    while i < to
        invariant
            from <= i <= to <= parts.len(),
            all == text::texts(parts@),
            text::texts(res@) == all.subrange(from as int, i as int),
        decreases to - i,
    {
        let ghost before = text::texts(res@);
        res.push(parts[i].clone());
        assert(text::texts(res@) =~= before.push(all[i as int]));
        assert(all.subrange(from as int, i + 1) =~= all.subrange(from as int, i as int).push(
            all[i as int],
        ));
        i = i + 1;
    }
    res
}

fn path_of_parts(parts: &Vec<String>) -> (res: String)
    ensures
        res@ == absolute(text::texts(parts@)),
{
    if parts.len() == 0 {
        "/".to_owned()
    } else {
        text::concat("/", text::join(parts, "/").as_str())
    }
}

fn count_named(ancestors: &Vec<Ancestor>, n: usize) -> (k: usize)
    ensures
        k == named(ancestry(ancestors@), n as nat),
        k <= n,
        ancestors.len() > 0 ==> k < ancestors.len(),
        forall|i: int| 0 <= i < k ==> (#[trigger] ancestors@[i]).name is Some,
{
    let ghost views = ancestry(ancestors@);
    let mut k: usize = 0;
    let mut i: usize = 0;
    while i < n
        invariant
            views == ancestry(ancestors@),
            i <= n,
            k <= i,
            k == named(views, i as nat),
            ancestors.len() > 0 ==> k < ancestors.len(),
            forall|j: int| 0 <= j < k ==> (#[trigger] ancestors@[j]).name is Some,
        decreases n - i,
    {
        if k == i && k + 1 < ancestors.len() {
            assert(views[k as int] == ancestors@[k as int]@);
            if ancestors[k].name.is_some() {
                k = k + 1;
            }
        }
        i = i + 1;
    }
    k
}

fn name_of(a: &Ancestor) -> (res: String)
    requires
        a.name is Some,
    ensures
        res@ == a@.name->0,
{
    match &a.name {
        Some(name) => name.clone(),
        None => String::new(),
    }
}

fn names_of(ancestors: &Vec<Ancestor>, k: usize) -> (res: Vec<String>)
    requires
        k <= ancestors.len(),
        forall|i: int| 0 <= i < k ==> (#[trigger] ancestors@[i]).name is Some,
    ensures
        text::texts(res@) == names_down(ancestry(ancestors@), k as nat),
{
    let ghost views = ancestry(ancestors@);
    let ghost down = names_down(views, k as nat);
    let mut res: Vec<String> = Vec::new();
    let mut i: usize = 0;
    while i < k
        invariant
            i <= k <= ancestors.len(),
            views == ancestry(ancestors@),
            down == names_down(views, k as nat),
            forall|j: int| 0 <= j < k ==> (#[trigger] ancestors@[j]).name is Some,
            res.len() == i,
            forall|j: int| 0 <= j < i ==> (#[trigger] res@[j])@ == down[j],
        decreases k - i,
    {
        assert(views[k - 1 - i] == ancestors@[k - 1 - i]@);
        res.push(name_of(&ancestors[k - 1 - i]));
        i = i + 1;
    }
    assert(text::texts(res@) =~= down);
    res
}

fn find_plan(p: &ProviderInfo, path: &str, depth: usize, ancestors: &Vec<Ancestor>) -> (res: (
    String,
    Vec<String>,
))
    ensures
        (res.0@, text::texts(res.1@)) == plan(p@, path@, depth as nat, ancestry(ancestors@)),
{
    let n: usize = if depth > 2 {
        depth - 2
    } else {
        0
    };
    if text::same(p.name.as_str(), "settings") {
        let none: Vec<String> = Vec::new();
        assert(text::texts(none@) =~= Seq::empty());
        return (path.to_owned(), none);
    }
    if p.path_is_filesystem {
        if ancestors.len() == 0 {
            let none: Vec<String> = Vec::new();
            assert(text::texts(none@) =~= Seq::empty());
            return (path.to_owned(), none);
        }
        let k = count_named(ancestors, n);
        assert(ancestry(ancestors@)[k as int] == ancestors@[k as int]@);
        return (ancestors[k].path.clone(), names_of(ancestors, k));
    }
    let parts = text::split_nonempty(path, '/', '/');
    let ghost views = parts_of(path@);
    assert(views.len() == parts.len());
    let at: usize = if n < parts.len() {
        parts.len() - n
    } else {
        0
    };
    let above = strings_between(&parts, 0, at);
    let below = strings_between(&parts, at, parts.len());
    assert(views.subrange(0, at as int) =~= views.take(at as int));
    assert(views.subrange(at as int, views.len() as int) =~= views.skip(at as int));
    (path_of_parts(&above), below)
}

/// The path `root` with the parts behind it.
pub open spec fn grown(root: Seq<char>, parts: Seq<Seq<char>>) -> Seq<char>
    decreases parts.len(),
{
    if parts.len() == 0 {
        root
    } else {
        let above = grown(root, parts.drop_last());
        if above == "/"@ {
            "/"@ + parts.last()
        } else {
            above + "/"@ + parts.last()
        }
    }
}

fn grow(root: &str, parts: &Vec<String>) -> (res: String)
    ensures
        res@ == grown(root@, text::texts(parts@)),
{
    let ghost all = text::texts(parts@);
    let mut res = root.to_owned();
    let mut i: usize = 0;
    assert(all.take(0) =~= Seq::empty());
    while i < parts.len()
        invariant
            i <= parts.len(),
            all == text::texts(parts@),
            res@ == grown(root@, all.take(i as int)),
        decreases parts.len() - i,
    {
        assert(all.take(i + 1).drop_last() =~= all.take(i as int));
        res = if text::same(res.as_str(), "/") {
            text::concat("/", parts[i].as_str())
        } else {
            text::concat3(res.as_str(), "/", parts[i].as_str())
        };
        i = i + 1;
    }
    assert(all.take(all.len() as int) =~= all);
    res
}

/// Where the next level is fetched.
pub open spec fn next_place(v: RebuildView) -> PlaceView {
    let parts = v.segments.take(v.found as int);
    if v.native {
        PlaceView::Native { root: v.root, parts }
    } else {
        PlaceView::At(grown(v.root, parts))
    }
}

/// The first branch from `from` on whose shown text is `name`.
pub open spec fn branch_named(level: Seq<Node>, name: Seq<char>, from: int) -> Option<int>
    decreases level.len() - from,
{
    if from < 0 || from >= level.len() {
        None
    } else if level[from] matches Node::Obj { key, .. } && markup::display_text(key) == name {
        Some(from)
    } else {
        branch_named(level, name, from + 1)
    }
}

fn find_branch(level: &Vec<FfonElement>, name: &str) -> (res: Option<usize>)
    ensures
        match res {
            Some(i) => i < level.len() && branch_named(ffon::forest(level@), name@, 0) == Some(
                i as int,
            ),
            None => branch_named(ffon::forest(level@), name@, 0) is None,
        },
{
    let ghost nodes = ffon::forest(level@);
    let mut i: usize = 0;
    while i < level.len()
        invariant
            i <= level.len(),
            nodes == ffon::forest(level@),
            branch_named(nodes, name@, 0) == branch_named(nodes, name@, i as int),
        decreases level.len() - i,
    {
        assert(nodes[i as int] == level@[i as int]@);
        if let FfonElement::Obj(o) = &level[i] {
            proof {
                ffon::lemma_obj_view(*o);
            }
            let shown = sicompass_sdk::tags::strip_display(o.key.as_str());
            if text::same(shown.as_str(), name) {
                return Some(i);
            }
        }
        i = i + 1;
    }
    None
}

/// `v` after the next level was fetched: it goes where it belongs, and the
/// part that follows is looked for in it.
pub open spec fn fetched(v: RebuildView, level: Seq<Node>) -> RebuildView {
    let tree = ffon::with_layer(v.tree, v.id, level);
    if v.found < v.segments.len() {
        match branch_named(level, v.segments[v.found as int], 0) {
            Some(i) => RebuildView {
                tree,
                id: ffon::with_last(v.id, i as usize).push(0),
                found: (v.found + 1) as usize,
                ..v
            },
            None => RebuildView { tree, done: true, ..v },
        }
    } else {
        RebuildView { tree, done: true, ..v }
    }
}

impl Rebuild {
    /// Start to fetch the tree of the provider `p` again. `ancestors` are the
    /// directories on the way to `path`, the innermost first; they are asked
    /// for where the provider has native paths.
    pub fn begin(
        p: &ProviderInfo,
        provider: usize,
        path: &str,
        depth: usize,
        ancestors: &Vec<Ancestor>,
    ) -> (res: Self)
        ensures
            res@ == started(p@, provider, path@, depth as nat, ancestry(ancestors@)),
            res.wf(),
    {
        let (root, segments) = find_plan(p, path, depth, ancestors);
        let settings = text::same(p.name.as_str(), "settings");
        let res = Rebuild {
            provider,
            path: path.to_owned(),
            key: p.display_name.clone(),
            native: !settings && p.path_is_filesystem,
            root,
            segments,
            found: 0,
            tree: Vec::new(),
            id: IdArray::single(0),
            done: false,
            restores: !settings,
        };
        proof {
            reveal(ffon::layer_of);
            assert(res@.tree =~= Seq::<Node>::empty());
            assert(res@.id =~= seq![0usize]);
            assert(res@.id.drop_last() =~= Seq::<usize>::empty());
        }
        res
    }

    /// The next level has a place in what was fetched.
    pub open spec fn wf(&self) -> bool {
        &&& self@.found <= self@.segments.len()
        &&& self@.id.len() > 0
        &&& ffon::layer_of(self@.tree, self@.id) is Some
    }

    /// Where the next level is fetched.
    pub fn place(&self) -> (res: Place)
        requires
            self.wf(),
        ensures
            res@ == next_place(self@),
    {
        assert(self@.segments.len() == self.segments.len());
        let parts = strings_between(&self.segments, 0, self.found);
        assert(self@.segments.subrange(0, self.found as int) =~= self@.segments.take(
            self.found as int,
        ));
        if self.native {
            Place::Native { root: self.root.clone(), parts }
        } else {
            Place::At(grow(self.root.as_str(), &parts))
        }
    }

    /// Take in the next level.
    pub fn level_fetched(&mut self, level: Vec<FfonElement>)
        requires
            old(self).wf(),
        ensures
            final(self)@ == fetched(old(self)@, ffon::forest(level@)),
            final(self).wf(),
    {
        let ghost before = self@;
        let ghost nodes = ffon::forest(level@);
        assert(nodes.len() == level@.len());
        assert(before.segments.len() == self.segments.len());
        let next: Option<usize> = if self.found < self.segments.len() {
            assert(before.segments[self.found as int] == self.segments@[self.found as int]@);
            find_branch(&level, self.segments[self.found].as_str())
        } else {
            None
        };
        proof {
            reveal(ffon::layer_of);
            ffon::law_graft_descend(before.tree, before.id.drop_last(), nodes);
        }
        put_layer(&mut self.tree, &self.id, level);
        match next {
            Some(i) => {
                self.id.set_last(i);
                self.id.push(0);
                self.found = self.found + 1;
                proof {
                    let path = before.id.drop_last();
                    let id = ffon::with_last(before.id, i).push(0);
                    assert(id.drop_last() =~= path.push(i));
                    lemma_branch_named(nodes, before.segments[before.found as int], 0);
                    ffon::lemma_descend_into(self@.tree, path, i, nodes);
                }
            },
            None => {
                self.done = true;
            },
        }
    }
}

fn put_layer(tree: &mut Vec<FfonElement>, id: &IdArray, level: Vec<FfonElement>)
    ensures
        ffon::forest(final(tree)@) == if ffon::layer_of(ffon::forest(old(tree)@), id@) is Some {
            ffon::with_layer(ffon::forest(old(tree)@), id@, ffon::forest(level@))
        } else {
            ffon::forest(old(tree)@)
        },
{
    match ffon::navigate_to_slice_mut(tree, id) {
        Some(layer) => {
            *layer = level;
        },
        None => {},
    }
}

proof fn lemma_branch_named(level: Seq<Node>, name: Seq<char>, from: int)
    ensures
        branch_named(level, name, from) matches Some(i) ==> 0 <= i < level.len() && level[i] is Obj,
    decreases level.len() - from,
{
    if 0 <= from < level.len() {
        lemma_branch_named(level, name, from + 1);
    }
}

/// What is left of a position in a tree: it goes up as long as it leads
/// nowhere, and is then put on the last element where it is behind it.
pub open spec fn clamped(tree: Seq<Node>, id: Seq<usize>) -> Seq<usize>
    decreases id.len(),
{
    match ffon::layer_at(tree, id) {
        Some(layer) => if ffon::last_or_zero(id) >= layer.len() {
            ffon::with_last(
                id,
                if layer.len() > 0 {
                    (layer.len() - 1) as usize
                } else {
                    0
                },
            )
        } else {
            id
        },
        None => if id.len() > 0 {
            clamped(tree, id.drop_last())
        } else {
            id
        },
    }
}

/// What is left of a position in a tree.
pub fn clamp_id(tree: &Vec<FfonElement>, id: IdArray) -> (res: IdArray)
    ensures
        res@ == clamped(ffon::forest(tree@), id@),
{
    let mut id = id;
    let ghost nodes = ffon::forest(tree@);
    let ghost whole = id@;
    while id.depth() > 0 && ffon::get_ffon_at_id(tree, &id).is_none()
        invariant
            nodes == ffon::forest(tree@),
            clamped(nodes, whole) == clamped(nodes, id@),
        decreases id@.len(),
    {
        id.pop();
    }
    match ffon::get_ffon_at_id(tree, &id) {
        Some(layer) => {
            let last: usize = id.last().unwrap_or(0);
            assert(ffon::forest(layer@).len() == layer@.len());
            let max: usize = if layer.len() > 0 {
                layer.len() - 1
            } else {
                0
            };
            if last > max {
                id.set_last(max);
            }
            assert(last == ffon::last_or_zero(id@) || last > max);
            assert(last == 0 && max == 0 ==> ffon::with_last(id@, 0) =~= id@);
        },
        None => {},
    }
    id
}

/// `u` with the position put where the tree has it.
#[verifier::opaque]
pub open spec fn position_restored(u: Ui, id: Seq<usize>) -> Ui {
    Ui {
        current_id: clamped(u.ffon, id),
        list_index: ffon::last_or_zero(clamped(u.ffon, id)),
        ..u
    }
}

fn restore_position(r: &mut AppRenderer, id: IdArray)
    ensures
        final(r)@ == position_restored(old(r)@, id@),
        app_state::tabs_ok(old(r)@) ==> app_state::tabs_ok(final(r)@),
{
    proof {
        reveal(position_restored);
    }
    let id = clamp_id(&r.ffon, id);
    r.list_index = id.last().unwrap_or(0);
    r.current_id = id;
}

/// `u` with what was fetched again in the place of the tree of the provider.
#[verifier::opaque]
pub open spec fn installed(u: Ui, v: RebuildView) -> Ui {
    Ui {
        ffon: if v.provider < u.ffon.len() {
            u.ffon.update(v.provider as int, Node::Obj { key: v.key, children: v.tree })
        } else {
            u.ffon
        },
        ..u
    }
}

fn install(r: &mut AppRenderer, rebuild: Rebuild)
    ensures
        final(r)@ == installed(old(r)@, rebuild@),
        app_state::tabs_ok(old(r)@) ==> app_state::tabs_ok(final(r)@),
{
    proof {
        reveal(installed);
    }
    let ghost before = r@.ffon;
    let i = rebuild.provider;
    if i < r.ffon.len() {
        let root = FfonObject { key: rebuild.key, children: rebuild.tree };
        proof {
            ffon::lemma_obj_view(root);
        }
        r.ffon.set(i, FfonElement::Obj(root));
        assert(r@.ffon =~= before.update(
            i as int,
            Node::Obj { key: rebuild@.key, children: rebuild@.tree },
        ));
    }
}

/// Whether the tree of the provider that `id` is in is to be fetched again, so
/// that it is at `path`.
pub open spec fn is_elsewhere(u: Ui, path: Seq<char>, id: Seq<usize>) -> bool {
    id.len() > 0 && id[0] < u.providers.len() && id[0] < u.ffon.len() && path.len() > 0
        && u.providers[id[0] as int].current_path != path
}

impl AppRenderer {
    /// Put the position where the tree has `current_id`. Where the provider is
    /// not at `provider_path` the tree is fetched again first: what comes back
    /// says so, and [`AppRenderer::rebuilt`] ends it.
    pub fn rebuild_and_clamp(
        &mut self,
        provider_path: &str,
        current_id: IdArray,
        ancestors: &Vec<Ancestor>,
    ) -> (res: Option<Rebuild>)
        ensures
            match res {
                Some(rebuild) => {
                    &&& is_elsewhere(old(self)@, provider_path@, current_id@)
                    &&& rebuild@ == started(
                        old(self)@.providers[current_id@[0] as int],
                        current_id@[0],
                        provider_path@,
                        current_id@.len(),
                        ancestry(ancestors@),
                    )
                    &&& rebuild.wf()
                    &&& final(self)@ == old(self)@
                },
                None => {
                    &&& !is_elsewhere(old(self)@, provider_path@, current_id@)
                    &&& final(self)@ == position_restored(old(self)@, current_id@)
                },
            },
            app_state::tabs_ok(old(self)@) ==> app_state::tabs_ok(final(self)@),
    {
        if let Some(p) = current_id.get(0) {
            if p < self.providers.len() && p < self.ffon.len() && provider_path.unicode_len() > 0
                && !text::same(self.providers[p].current_path.as_str(), provider_path) {
                return Some(
                    Rebuild::begin(
                        &self.providers[p],
                        p,
                        provider_path,
                        current_id.depth(),
                        ancestors,
                    ),
                );
            }
        }
        restore_position(self, current_id);
        None
    }

    /// End what [`AppRenderer::rebuild_and_clamp`] began: the tree is put in
    /// its place, and the position where the tree has it.
    pub fn rebuilt(&mut self, rebuild: Rebuild, current_id: IdArray)
        ensures
            final(self)@ == position_restored(
                installed(old(self)@, rebuild@),
                current_id@,
            ),
            app_state::tabs_ok(old(self)@) ==> app_state::tabs_ok(final(self)@),
    {
        install(self, rebuild);
        restore_position(self, current_id);
    }

    /// Put the position where the tree has that of the active tab.
    pub fn load_active_tab(&mut self, ancestors: &Vec<Ancestor>) -> (res: Option<Rebuild>)
        requires
            app_state::tabs_ok(old(self)@),
        ensures
            ({
                let tab = old(self)@.tabs[old(self)@.active_tab as int];
                match res {
                    Some(rebuild) => {
                        &&& is_elsewhere(old(self)@, tab.provider_path, tab.current_id)
                        &&& rebuild@ == started(
                            old(self)@.providers[tab.current_id[0] as int],
                            tab.current_id[0],
                            tab.provider_path,
                            tab.current_id.len(),
                            ancestry(ancestors@),
                        )
                        &&& rebuild.wf()
                        &&& final(self)@ == old(self)@
                    },
                    None => {
                        &&& !is_elsewhere(old(self)@, tab.provider_path, tab.current_id)
                        &&& final(self)@ == position_restored(old(self)@, tab.current_id)
                    },
                }
            }),
            app_state::tabs_ok(final(self)@),
    {
        proof {
            reveal(app_state::timelines_ok);
        }
        let i = self.active_tab;
        let path = self.tabs[i].provider_path.clone();
        let id = self.tabs[i].current_id.clone();
        self.rebuild_and_clamp(path.as_str(), id, ancestors)
    }
}

/// A restored position leads into the tree, and to an element wherever the
/// layer has one.
pub proof fn law_clamped_leads_somewhere(tree: Seq<Node>, id: Seq<usize>)
    ensures
        clamped(tree, id).len() <= id.len(),
        ffon::layer_at(tree, clamped(tree, id)) is Some,
        ffon::layer_at(tree, clamped(tree, id))->0.len() > 0 ==> ffon::last_or_zero(
            clamped(tree, id),
        ) < ffon::layer_at(tree, clamped(tree, id))->0.len(),
    decreases id.len(),
{
    reveal(ffon::layer_of);
    match ffon::layer_at(tree, id) {
        Some(layer) => {
            if id.len() > 0 {
                let last = if layer.len() > 0 {
                    (layer.len() - 1) as usize
                } else {
                    0usize
                };
                assert(ffon::with_last(id, last).drop_last() =~= id.drop_last());
            }
        },
        None => {
            law_clamped_leads_somewhere(tree, id.drop_last());
        },
    }
}

/// A position that leads to an element stays as it is.
pub proof fn law_clamped_keeps(tree: Seq<Node>, id: Seq<usize>)
    requires
        ffon::element_at(tree, id) is Some,
    ensures
        clamped(tree, id) == id,
{
    reveal(ffon::layer_of);
}

proof fn lemma_joined_nonempty(parts: Seq<Seq<char>>)
    requires
        parts.len() > 0,
        parts.last().len() > 0,
    ensures
        text::joined(parts, "/"@).len() > 0,
{
}

proof fn lemma_nonempty(parts: Seq<Seq<char>>)
    ensures
        forall|i: int|
            0 <= i < text::nonempty(parts).len() ==> (#[trigger] text::nonempty(parts)[i]).len()
                > 0,
    decreases parts.len(),
{
    if parts.len() > 0 {
        lemma_nonempty(parts.drop_last());
        let before = text::nonempty(parts.drop_last());
        let all = text::nonempty(parts);
        assert forall|i: int| 0 <= i < all.len() implies (#[trigger] all[i]).len() > 0 by {
            if i < before.len() {
                assert(all[i] == before[i]);
            }
        }
    }
}

proof fn lemma_grown(parts: Seq<Seq<char>>, at: int, k: int)
    requires
        0 <= at <= parts.len(),
        0 <= k <= parts.len() - at,
        forall|i: int| 0 <= i < parts.len() ==> (#[trigger] parts[i]).len() > 0,
    ensures
        grown(absolute(parts.take(at)), parts.skip(at).take(k)) == absolute(parts.take(at + k)),
    decreases k,
{
    reveal_strlit("/");
    if k == 0 {
        assert(parts.skip(at).take(0) =~= Seq::<Seq<char>>::empty());
    } else {
        lemma_grown(parts, at, k - 1);
        let s = parts.skip(at).take(k);
        assert(s.drop_last() =~= parts.skip(at).take(k - 1));
        assert(s.last() == parts[at + k - 1]);
        let above = parts.take(at + k - 1);
        let whole = parts.take(at + k);
        assert(whole.drop_last() =~= above);
        assert(whole.last() == s.last());
        if above.len() == 0 {
            assert(absolute(above) == "/"@);
            assert(text::joined(whole, "/"@) == s.last());
        } else {
            assert(above.last() == parts[at + k - 2]);
            lemma_joined_nonempty(above);
            assert(absolute(above).len() > 1);
            assert(absolute(above) + "/"@ + s.last() =~= "/"@ + (text::joined(above, "/"@) + "/"@
                + s.last()));
        }
    }
}

/// Fetching level by level leads a provider whose paths are not native to its
/// path, however many of the parts are fetched one by one.
pub proof fn law_the_way_leads_to_the_path(path: Seq<char>, depth: nat)
    ensures
        ({
            let parts = parts_of(path);
            let at = kept(parts, depth);
            grown(absolute(parts.take(at)), parts.skip(at)) == absolute(parts)
        }),
{
    let parts = parts_of(path);
    let at = kept(parts, depth);
    lemma_nonempty(text::split(path, '/', '/'));
    lemma_grown(parts, at, parts.len() - at);
    assert(parts.skip(at).take(parts.len() - at) =~= parts.skip(at));
    assert(parts.take(parts.len() as int) =~= parts);
}

/// A level that was fetched is where it belongs in the tree, and the next one
/// goes below the branch that was found in it.
pub proof fn law_levels_are_kept(v: RebuildView, level: Seq<Node>)
    requires
        v.id.len() > 0,
        ffon::layer_of(v.tree, v.id) is Some,
    ensures
        ffon::layer_of(fetched(v, level).tree, v.id) == Some(level),
        !fetched(v, level).done && !v.done ==> {
            &&& v.found < v.segments.len()
            &&& branch_named(level, v.segments[v.found as int], 0) is Some
            &&& fetched(v, level).id.drop_last().len() == v.id.len()
        },
{
    reveal(ffon::layer_of);
    ffon::law_graft_descend(v.tree, v.id.drop_last(), level);
}

} // verus!
