//! The tree that every list is a layer of.
//!
//! A tree is a sequence of elements. An element is a leaf string or a named
//! branch with elements below it. A position in the tree is a path of indices:
//! all but the last select the branches on the way down, the last selects an
//! element in the layer reached there.

use vstd::prelude::*;

verus! {

/// What an element of the tree is: a leaf with its text, or a branch with its
/// key and its children.
pub enum Node {
    Str(Seq<char>),
    Obj { key: Seq<char>, children: Seq<Node> },
}

/// An element of the tree.
pub enum FfonElement {
    Str(String),
    Obj(FfonObject),
}

/// A named branch.
pub struct FfonObject {
    pub key: String,
    pub children: Vec<FfonElement>,
}

pub open spec fn node(e: FfonElement) -> Node
    decreases e,
{
    match e {
        FfonElement::Str(s) => Node::Str(s@),
        FfonElement::Obj(o) => Node::Obj {
            key: o.key@,
            children: Seq::new(
                o.children@.len(),
                |i: int|
                    if 0 <= i < o.children@.len() {
                        node(o.children@[i])
                    } else {
                        arbitrary()
                    },
            ),
        },
    }
}

impl View for FfonElement {
    type V = Node;

    open spec fn view(&self) -> Node {
        node(*self)
    }
}

/// What a sequence of elements is.
pub open spec fn forest(s: Seq<FfonElement>) -> Seq<Node> {
    Seq::new(s.len(), |i: int| s[i]@)
}

/// What an optional element is.
pub open spec fn opt_node(e: Option<FfonElement>) -> Option<Node> {
    match e {
        Some(x) => Some(x@),
        None => None,
    }
}

/// The text of a leaf, or the key of a branch.
pub open spec fn node_text(n: Node) -> Seq<char> {
    match n {
        Node::Str(s) => s,
        Node::Obj { key, .. } => key,
    }
}

/// The layer below the branches that `path` selects one after the other.
pub open spec fn descend(root: Seq<Node>, path: Seq<usize>) -> Option<Seq<Node>>
    decreases path.len(),
{
    if path.len() == 0 {
        Some(root)
    } else if path[0] < root.len() && root[path[0] as int] is Obj {
        descend(root[path[0] as int]->children, path.drop_first())
    } else {
        None
    }
}

/// `root` with the layer that `path` leads to replaced by `layer`; `root`
/// itself where `path` leads nowhere.
pub open spec fn graft(root: Seq<Node>, path: Seq<usize>, layer: Seq<Node>) -> Seq<Node>
    decreases path.len(),
{
    if path.len() == 0 {
        layer
    } else if path[0] < root.len() && root[path[0] as int] is Obj {
        let o = root[path[0] as int];
        root.update(
            path[0] as int,
            Node::Obj {
                key: o->key,
                children: graft(o->children, path.drop_first(), layer),
            },
        )
    } else {
        root
    }
}

/// The layer that holds the element at `id`.
#[verifier::opaque]
pub open spec fn layer_of(root: Seq<Node>, id: Seq<usize>) -> Option<Seq<Node>> {
    if id.len() == 0 {
        None
    } else {
        descend(root, id.drop_last())
    }
}

/// `root` with the layer that holds the element at `id` replaced by `layer`.
pub open spec fn with_layer(root: Seq<Node>, id: Seq<usize>, layer: Seq<Node>) -> Seq<Node> {
    graft(root, id.drop_last(), layer)
}

/// The element at `id`.
pub open spec fn element_at(root: Seq<Node>, id: Seq<usize>) -> Option<Node> {
    match layer_of(root, id) {
        Some(layer) if id.last() < layer.len() => Some(layer[id.last() as int]),
        _ => None,
    }
}

/// `root` with the element at index `idx` of the layer of `id` replaced.
pub open spec fn replaced(root: Seq<Node>, id: Seq<usize>, idx: int, n: Node) -> Seq<Node> {
    match layer_of(root, id) {
        Some(layer) if 0 <= idx < layer.len() => with_layer(root, id, layer.update(idx, n)),
        _ => root,
    }
}

/// `root` without the element at index `idx` of the layer of `id`.
pub open spec fn removed(root: Seq<Node>, id: Seq<usize>, idx: int) -> Seq<Node> {
    match layer_of(root, id) {
        Some(layer) if 0 <= idx < layer.len() => with_layer(root, id, layer.remove(idx)),
        _ => root,
    }
}

/// `root` with `n` inserted in the layer of `id`, at index `idx` or at the end
/// where the layer is shorter.
pub open spec fn inserted(root: Seq<Node>, id: Seq<usize>, idx: int, n: Node) -> Seq<Node> {
    match layer_of(root, id) {
        Some(layer) => {
            let at = if idx <= layer.len() {
                idx
            } else {
                layer.len() as int
            };
            with_layer(root, id, layer.insert(at, n))
        },
        None => root,
    }
}

/// `root` with the branch at index `idx` of the layer of `id` renamed.
pub open spec fn rekeyed(root: Seq<Node>, id: Seq<usize>, idx: int, key: Seq<char>) -> Seq<Node> {
    match layer_of(root, id) {
        Some(layer) if 0 <= idx < layer.len() && layer[idx] is Obj => with_layer(
            root,
            id,
            layer.update(idx, Node::Obj { key, children: layer[idx]->children }),
        ),
        _ => root,
    }
}

/// The number of elements in the layer of `id`; 0 where there is none.
pub open spec fn layer_len(root: Seq<Node>, id: Seq<usize>) -> nat {
    match layer_of(root, id) {
        Some(layer) => layer.len(),
        None => 0,
    }
}

/// The last index in the layer of `id`; 0 where it is empty or there is none.
pub open spec fn max_index(root: Seq<Node>, id: Seq<usize>) -> nat {
    if layer_len(root, id) > 0 {
        (layer_len(root, id) - 1) as nat
    } else {
        0
    }
}

pub open spec fn is_branch_at(root: Seq<Node>, id: Seq<usize>) -> bool {
    element_at(root, id) matches Some(n) && n is Obj
}

/// A branch's children seen through its view.
pub proof fn lemma_obj_view(o: FfonObject)
    ensures
        FfonElement::Obj(o)@ == (Node::Obj { key: o.key@, children: forest(o.children@) }),
{
    assert(FfonElement::Obj(o)@->children =~= forest(o.children@));
}

/// Replacing a layer and then reading it gives the new layer.
pub proof fn law_graft_descend(root: Seq<Node>, path: Seq<usize>, layer: Seq<Node>)
    requires
        descend(root, path) is Some,
    ensures
        descend(graft(root, path, layer), path) == Some(layer),
    decreases path.len(),
{
    if path.len() != 0 {
        law_graft_descend(root[path[0] as int]->children, path.drop_first(), layer);
    }
}

/// Replacing a layer by itself changes nothing.
pub proof fn law_graft_same(root: Seq<Node>, path: Seq<usize>)
    requires
        descend(root, path) is Some,
    ensures
        graft(root, path, descend(root, path)->0) == root,
    decreases path.len(),
{
    if path.len() != 0 {
        let o = root[path[0] as int];
        law_graft_same(o->children, path.drop_first());
        assert(graft(root, path, descend(root, path)->0) =~= root);
    }
}

/// The second of two replacements of one layer is the one that stays.
pub proof fn law_graft_graft(root: Seq<Node>, path: Seq<usize>, a: Seq<Node>, b: Seq<Node>)
    requires
        descend(root, path) is Some,
    ensures
        graft(graft(root, path, a), path, b) == graft(root, path, b),
    decreases path.len(),
{
    if path.len() != 0 {
        let o = root[path[0] as int];
        law_graft_graft(o->children, path.drop_first(), a, b);
        assert(graft(graft(root, path, a), path, b) =~= graft(root, path, b));
    }
}

/// The layer below a branch of a layer.
pub proof fn lemma_descend_into(root: Seq<Node>, path: Seq<usize>, i: usize, layer: Seq<Node>)
    requires
        descend(root, path) == Some(layer),
        i < layer.len(),
        layer[i as int] is Obj,
    ensures
        descend(root, path.push(i)) == Some(layer[i as int]->children),
    decreases path.len(),
{
    if path.len() == 0 {
        assert(path.push(i).drop_first() =~= Seq::<usize>::empty());
        assert(descend(layer[i as int]->children, Seq::<usize>::empty()) == Some(
            layer[i as int]->children,
        ));
    } else {
        assert(path.push(i).drop_first() =~= path.drop_first().push(i));
        lemma_descend_into(root[path[0] as int]->children, path.drop_first(), i, layer);
    }
}

/// Inserting an element and then removing it gives the tree back.
pub proof fn law_insert_remove(root: Seq<Node>, id: Seq<usize>, n: Node)
    requires
        layer_of(root, id) matches Some(layer) && id.last() <= layer.len(),
    ensures
        removed(inserted(root, id, id.last() as int, n), id, id.last() as int) == root,
        element_at(inserted(root, id, id.last() as int, n), id) == Some(n),
{
    reveal(layer_of);
    let path = id.drop_last();
    let layer = descend(root, path)->0;
    let i = id.last() as int;
    law_graft_descend(root, path, layer.insert(i, n));
    law_graft_graft(root, path, layer.insert(i, n), layer.insert(i, n).remove(i));
    assert(layer.insert(i, n).remove(i) =~= layer);
    law_graft_same(root, path);
}

/// Removing an element and inserting it again gives the tree back.
pub proof fn law_remove_insert(root: Seq<Node>, id: Seq<usize>)
    requires
        element_at(root, id) is Some,
    ensures
        inserted(
            removed(root, id, id.last() as int),
            id,
            id.last() as int,
            element_at(root, id)->0,
        ) == root,
{
    reveal(layer_of);
    let path = id.drop_last();
    let layer = descend(root, path)->0;
    let i = id.last() as int;
    law_graft_descend(root, path, layer.remove(i));
    law_graft_graft(root, path, layer.remove(i), layer.remove(i).insert(i, layer[i]));
    assert(layer.remove(i).insert(i, layer[i]) =~= layer);
    law_graft_same(root, path);
}

/// Replacing an element and then replacing it by what it was gives the tree
/// back, and in between the new element is at its place.
pub proof fn law_replace_replace(root: Seq<Node>, id: Seq<usize>, n: Node)
    requires
        element_at(root, id) is Some,
    ensures
        element_at(replaced(root, id, id.last() as int, n), id) == Some(n),
        replaced(
            replaced(root, id, id.last() as int, n),
            id,
            id.last() as int,
            element_at(root, id)->0,
        ) == root,
{
    reveal(layer_of);
    let path = id.drop_last();
    let layer = descend(root, path)->0;
    let i = id.last() as int;
    law_graft_descend(root, path, layer.update(i, n));
    law_graft_graft(root, path, layer.update(i, n), layer.update(i, n).update(i, layer[i]));
    assert(layer.update(i, n).update(i, layer[i]) =~= layer);
    law_graft_same(root, path);
}

impl Clone for FfonElement {
    fn clone(&self) -> (res: Self)
        ensures
            res@ == self@,
        decreases self,
    {
        match self {
            FfonElement::Str(s) => FfonElement::Str(s.clone()),
            FfonElement::Obj(o) => {
                let children = clone_elements(&o.children);
                let copy = FfonObject { key: o.key.clone(), children };
                proof {
                    lemma_obj_view(*o);
                    lemma_obj_view(copy);
                }
                FfonElement::Obj(copy)
            },
        }
    }
}

/// A copy of the elements of `v`.
pub fn clone_elements(v: &Vec<FfonElement>) -> (res: Vec<FfonElement>)
    ensures
        forest(res@) == forest(v@),
    decreases v,
{
    let mut res: Vec<FfonElement> = Vec::new();
    let mut i: usize = 0;
    while i < v.len()
        invariant
            i <= v.len(),
            res.len() == i,
            forall|k: int| 0 <= k < i ==> res@[k]@ == v@[k]@,
        decreases v.len() - i,
    {
        let e = v[i].clone();
        res.push(e);
        i += 1;
    }
    assert(forest(res@) =~= forest(v@));
    res
}

impl FfonElement {
    /// A leaf.
    pub fn new_str(s: &str) -> (res: Self)
        ensures
            res@ == Node::Str(s@),
    {
        FfonElement::Str(s.to_owned())
    }

    /// A branch without children.
    pub fn new_obj(key: &str) -> (res: Self)
        ensures
            res@ == (Node::Obj { key: key@, children: Seq::empty() }),
    {
        let o = FfonObject { key: key.to_owned(), children: Vec::new() };
        proof {
            lemma_obj_view(o);
            assert(forest(o.children@) =~= Seq::<Node>::empty());
        }
        FfonElement::Obj(o)
    }

    pub fn is_str(&self) -> (r: bool)
        ensures
            r == (self@ is Str),
    {
        match self {
            FfonElement::Str(_) => true,
            FfonElement::Obj(_) => false,
        }
    }

    pub fn is_obj(&self) -> (r: bool)
        ensures
            r == (self@ is Obj),
    {
        match self {
            FfonElement::Str(_) => false,
            FfonElement::Obj(_) => true,
        }
    }

    /// The text of a leaf, or the key of a branch.
    pub fn text(&self) -> (r: &str)
        ensures
            r@ == node_text(self@),
    {
        match self {
            FfonElement::Str(s) => s.as_str(),
            FfonElement::Obj(o) => o.key.as_str(),
        }
    }

    /// The text of a leaf.
    pub fn as_str(&self) -> (r: Option<&str>)
        ensures
            match r {
                Some(s) => self@ == Node::Str(s@),
                None => self@ is Obj,
            },
    {
        match self {
            FfonElement::Str(s) => Some(s.as_str()),
            FfonElement::Obj(_) => None,
        }
    }

    /// The branch.
    pub fn as_obj(&self) -> (r: Option<&FfonObject>)
        ensures
            match r {
                Some(o) => self@ == (Node::Obj { key: o.key@, children: forest(o.children@) }),
                None => self@ is Str,
            },
    {
        match self {
            FfonElement::Str(_) => None,
            FfonElement::Obj(o) => {
                proof {
                    lemma_obj_view(*o);
                }
                Some(o)
            },
        }
    }
}

impl FfonObject {
    /// A branch without children.
    pub fn new(key: &str) -> (res: Self)
        ensures
            res.key@ == key@,
            res.children@ == Seq::<FfonElement>::empty(),
    {
        FfonObject { key: key.to_owned(), children: Vec::new() }
    }

    /// Add `elem` behind the last child.
    pub fn push(&mut self, elem: FfonElement)
        ensures
            final(self).key == old(self).key,
            final(self).children@ == old(self).children@.push(elem),
    {
        self.children.push(elem);
    }
}

/// A position in the tree.
pub struct IdArray {
    pub ids: Vec<usize>,
}

impl View for IdArray {
    type V = Seq<usize>;

    open spec fn view(&self) -> Seq<usize> {
        self.ids@
    }
}

impl Clone for IdArray {
    fn clone(&self) -> (res: Self)
        ensures
            res@ == self@,
    {
        IdArray::from_slice(self.ids.as_slice())
    }
}

impl IdArray {
    /// The empty path.
    pub fn new() -> (res: Self)
        ensures
            res@ == Seq::<usize>::empty(),
    {
        IdArray { ids: Vec::new() }
    }

    /// The path with the indices of `s`.
    pub fn from_slice(s: &[usize]) -> (res: Self)
        ensures
            res@ == s@,
    {
        IdArray { ids: vstd::slice::slice_to_vec(s) }
    }

    /// The path of one index.
    pub fn single(idx: usize) -> (res: Self)
        ensures
            res@ == seq![idx],
    {
        let mut ids: Vec<usize> = Vec::new();
        ids.push(idx);
        IdArray { ids }
    }

    pub fn depth(&self) -> (r: usize)
        ensures
            r == self@.len(),
    {
        self.ids.len()
    }

    pub fn push(&mut self, idx: usize)
        ensures
            final(self)@ == old(self)@.push(idx),
    {
        self.ids.push(idx);
    }

    pub fn pop(&mut self) -> (r: Option<usize>)
        ensures
            old(self)@.len() == 0 ==> r is None && final(self)@ == old(self)@,
            old(self)@.len() > 0 ==> r == Some(old(self)@.last()) && final(self)@
                == old(self)@.drop_last(),
    {
        self.ids.pop()
    }

    pub fn get(&self, depth: usize) -> (r: Option<usize>)
        ensures
            r == (if depth < self@.len() {
                Some(self@[depth as int])
            } else {
                None
            }),
    {
        if depth < self.ids.len() {
            Some(self.ids[depth])
        } else {
            None
        }
    }

    /// The last index of the path.
    pub fn last(&self) -> (r: Option<usize>)
        ensures
            r == (if self@.len() > 0 {
                Some(self@.last())
            } else {
                None
            }),
    {
        let n = self.ids.len();
        if n > 0 {
            Some(self.ids[n - 1])
        } else {
            None
        }
    }

    /// Replace the last index of the path.
    pub fn set_last(&mut self, idx: usize)
        ensures
            final(self)@ == with_last(old(self)@, idx),
    {
        let n = self.ids.len();
        if n > 0 {
            self.ids.set(n - 1, idx);
        }
    }

    /// Whether the two paths are the same.
    pub fn same(&self, other: &IdArray) -> (r: bool)
        ensures
            r == (self@ == other@),
    {
        if self.ids.len() != other.ids.len() {
            return false;
        }
        let mut i: usize = 0;
        while i < self.ids.len()
            invariant
                i <= self.ids.len(),
                self.ids.len() == other.ids.len(),
                forall|k: int| 0 <= k < i ==> self@[k] == other@[k],
            decreases self.ids.len() - i,
        {
            if self.ids[i] != other.ids[i] {
                return false;
            }
            i += 1;
        }
        assert(self@ =~= other@);
        true
    }
}

/// `id` with its last index replaced; the empty path stays as it is.
pub open spec fn with_last(id: Seq<usize>, idx: usize) -> Seq<usize> {
    if id.len() > 0 {
        id.update(id.len() - 1, idx)
    } else {
        id
    }
}

/// The last index of `id`, 0 for the empty path.
pub open spec fn last_or_zero(id: Seq<usize>) -> usize {
    if id.len() > 0 {
        id.last()
    } else {
        0
    }
}

fn descend_ref<'a>(elems: &'a Vec<FfonElement>, id: &IdArray, d: usize) -> (r: Option<
    &'a Vec<FfonElement>,
>)
    requires
        d < id@.len(),
    ensures
        match r {
            Some(v) => descend(forest(elems@), id@.drop_last().skip(d as int)) == Some(forest(v@)),
            None => descend(forest(elems@), id@.drop_last().skip(d as int)) is None,
        },
    decreases id@.len() - d,
{
    let ghost path = id@.drop_last().skip(d as int);
    if id.ids.len() - d <= 1 {
        return Some(elems);
    }
    let idx: usize = id.ids[d];
    assert(path[0] == idx);
    assert(path.drop_first() =~= id@.drop_last().skip(d + 1));
    if idx >= elems.len() {
        return None;
    }
    match &elems[idx] {
        FfonElement::Obj(obj) => {
            proof {
                lemma_obj_view(*obj);
            }
            descend_ref(&obj.children, id, d + 1)
        },
        FfonElement::Str(_) => None,
    }
}

/// The layer that holds the element at `id`.
pub fn navigate_to_slice<'a>(ffon: &'a Vec<FfonElement>, id: &IdArray) -> (r: Option<
    &'a Vec<FfonElement>,
>)
    ensures
        match r {
            Some(v) => layer_of(forest(ffon@), id@) == Some(forest(v@)),
            None => layer_of(forest(ffon@), id@) is None,
        },
{
    proof {
        reveal(layer_of);
    }
    if id.depth() == 0 {
        return None;
    }
    assert(id@.drop_last().skip(0) =~= id@.drop_last());
    descend_ref(ffon, id, 0)
}

fn descend_mut<'a>(elems: &'a mut Vec<FfonElement>, id: &IdArray, d: usize) -> (r: Option<
    &'a mut Vec<FfonElement>,
>)
    requires
        d < id@.len(),
    ensures
        match r {
            Some(v) => {
                &&& descend(forest(old(elems)@), id@.drop_last().skip(d as int)) == Some(
                    forest(v@),
                )
                &&& forest(final(elems)@) == graft(
                    forest(old(elems)@),
                    id@.drop_last().skip(d as int),
                    forest(final(v)@),
                )
            },
            None => {
                &&& descend(forest(old(elems)@), id@.drop_last().skip(d as int)) is None
                &&& forest(final(elems)@) == forest(old(elems)@)
            },
        },
    decreases id@.len() - d,
{
    let ghost path = id@.drop_last().skip(d as int);
    if id.ids.len() - d <= 1 {
        return Some(elems);
    }
    let idx: usize = id.ids[d];
    assert(path[0] == idx);
    assert(path.drop_first() =~= id@.drop_last().skip(d + 1));
    if idx >= elems.len() {
        return None;
    }
    let ghost before = elems@;
    match &mut elems[idx] {
        FfonElement::Obj(obj) => {
            proof {
                lemma_obj_view(*obj);
                lemma_obj_view(*final(obj));
                assert(forest(before.update(idx as int, FfonElement::Obj(*final(obj))))
                    =~= forest(before).update(idx as int, FfonElement::Obj(*final(obj))@));
            }
            descend_mut(&mut obj.children, id, d + 1)
        },
        FfonElement::Str(_) => None,
    }
}

/// The layer that holds the element at `id`, to be changed in place.
pub fn navigate_to_slice_mut<'a>(ffon: &'a mut Vec<FfonElement>, id: &IdArray) -> (r: Option<
    &'a mut Vec<FfonElement>,
>)
    ensures
        match r {
            Some(v) => {
                &&& layer_of(forest(old(ffon)@), id@) == Some(forest(v@))
                &&& forest(final(ffon)@) == with_layer(
                    forest(old(ffon)@),
                    id@,
                    forest(final(v)@),
                )
            },
            None => {
                &&& layer_of(forest(old(ffon)@), id@) is None
                &&& forest(final(ffon)@) == forest(old(ffon)@)
            },
        },
{
    proof {
        reveal(layer_of);
    }
    if id.depth() == 0 {
        return None;
    }
    assert(id@.drop_last().skip(0) =~= id@.drop_last());
    descend_mut(ffon, id, 0)
}

/// The layer that holds the element at `id`; the root layer for the empty
/// path.
pub fn get_ffon_at_id<'a>(ffon: &'a Vec<FfonElement>, id: &IdArray) -> (r: Option<
    &'a Vec<FfonElement>,
>)
    ensures
        match r {
            Some(v) => layer_at(forest(ffon@), id@) == Some(forest(v@)),
            None => layer_at(forest(ffon@), id@) is None,
        },
{
    if id.depth() == 0 {
        return Some(ffon);
    }
    navigate_to_slice(ffon, id)
}

/// The layer of `id`, where the empty path stands for the root layer.
pub open spec fn layer_at(root: Seq<Node>, id: Seq<usize>) -> Option<Seq<Node>> {
    if id.len() == 0 {
        Some(root)
    } else {
        layer_of(root, id)
    }
}

/// The element at `id`.
pub fn get_element_at<'a>(ffon: &'a Vec<FfonElement>, id: &IdArray) -> (r: Option<&'a FfonElement>)
    ensures
        match r {
            Some(e) => element_at(forest(ffon@), id@) == Some(e@),
            None => element_at(forest(ffon@), id@) is None,
        },
{
    proof {
        reveal(layer_of);
    }
    match navigate_to_slice(ffon, id) {
        Some(layer) => {
            let idx: usize = id.ids[id.ids.len() - 1];
            if idx < layer.len() {
                Some(&layer[idx])
            } else {
                None
            }
        },
        None => None,
    }
}

/// Whether the element at `id` is a branch.
pub fn next_layer_exists(ffon: &Vec<FfonElement>, id: &IdArray) -> (r: bool)
    ensures
        r == is_branch_at(forest(ffon@), id@),
{
    match get_element_at(ffon, id) {
        Some(e) => e.is_obj(),
        None => false,
    }
}

/// The number of elements in the layer of `id`.
pub fn get_parent_len(ffon: &Vec<FfonElement>, id: &IdArray) -> (r: usize)
    ensures
        r == layer_len(forest(ffon@), id@),
{
    match navigate_to_slice(ffon, id) {
        Some(layer) => layer.len(),
        None => 0,
    }
}

/// The last index in the layer of `id`.
pub fn get_ffon_max_id_at_path(ffon: &Vec<FfonElement>, id: &IdArray) -> (r: usize)
    ensures
        r == max_index(forest(ffon@), id@),
        r < usize::MAX,
{
    let n: usize = get_parent_len(ffon, id);
    if n > 0 {
        n - 1
    } else {
        0
    }
}

/// Replace the element at index `idx` in the layer of `parent_id`.
pub fn replace_at(
    ffon: &mut Vec<FfonElement>,
    parent_id: &IdArray,
    idx: usize,
    new_elem: FfonElement,
)
    ensures
        forest(final(ffon)@) == replaced(forest(old(ffon)@), parent_id@, idx as int, new_elem@),
{
    proof {
        lemma_with_layer_same(forest(ffon@), parent_id@);
    }
    if let Some(arr) = navigate_to_slice_mut(ffon, parent_id) {
        let ghost before = arr@;
        if idx < arr.len() {
            arr[idx] = new_elem;
            assert(forest(arr@) =~= forest(before).update(idx as int, new_elem@));
        }
    }
}

/// Remove the element at index `idx` in the layer of `parent_id`.
pub fn remove_at(ffon: &mut Vec<FfonElement>, parent_id: &IdArray, idx: usize) -> (r: Option<
    FfonElement,
>)
    ensures
        forest(final(ffon)@) == removed(forest(old(ffon)@), parent_id@, idx as int),
        opt_node(r) == (match layer_of(forest(old(ffon)@), parent_id@) {
            Some(layer) if idx < layer.len() => Some(layer[idx as int]),
            _ => None,
        }),
{
    proof {
        lemma_with_layer_same(forest(ffon@), parent_id@);
    }
    match navigate_to_slice_mut(ffon, parent_id) {
        Some(arr) => {
            let ghost before = arr@;
            if idx < arr.len() {
                let e = arr.remove(idx);
                assert(forest(arr@) =~= forest(before).remove(idx as int));
                Some(e)
            } else {
                None
            }
        },
        None => None,
    }
}

/// Insert `elem` at index `idx` in the layer of `parent_id`, or at its end.
pub fn insert_at(ffon: &mut Vec<FfonElement>, parent_id: &IdArray, idx: usize, elem: FfonElement)
    ensures
        forest(final(ffon)@) == inserted(forest(old(ffon)@), parent_id@, idx as int, elem@),
{
    if let Some(arr) = navigate_to_slice_mut(ffon, parent_id) {
        let ghost before = arr@;
        let at: usize = if idx <= arr.len() {
            idx
        } else {
            arr.len()
        };
        arr.insert(at, elem);
        assert(forest(arr@) =~= forest(before).insert(at as int, elem@));
    }
}

/// Rename the branch at index `idx` in the layer of `parent_id`.
pub fn rekey_obj_at(
    ffon: &mut Vec<FfonElement>,
    parent_id: &IdArray,
    idx: usize,
    new_key: String,
)
    ensures
        forest(final(ffon)@) == rekeyed(forest(old(ffon)@), parent_id@, idx as int, new_key@),
{
    proof {
        lemma_with_layer_same(forest(ffon@), parent_id@);
    }
    if let Some(arr) = navigate_to_slice_mut(ffon, parent_id) {
        let ghost before = arr@;
        if idx < arr.len() {
            if let FfonElement::Obj(obj) = &mut arr[idx] {
                proof {
                    lemma_obj_view(*obj);
                    lemma_obj_view(*final(obj));
                }
                obj.key = new_key;
            }
        }
        assert(forest(arr@) =~= (if idx < before.len() && before[idx as int]@ is Obj {
            forest(before).update(
                idx as int,
                Node::Obj { key: new_key@, children: before[idx as int]@->children },
            )
        } else {
            forest(before)
        }));
    }
}

proof fn lemma_with_layer_same(root: Seq<Node>, id: Seq<usize>)
    ensures
        layer_of(root, id) matches Some(layer) ==> with_layer(root, id, layer) == root,
{
    reveal(layer_of);
    if layer_of(root, id) is Some {
        law_graft_same(root, id.drop_last());
    }
}

} // verus!
