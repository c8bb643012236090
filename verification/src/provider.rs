//! What is asked of the providers, and what their answers change.
//!
//! A key that needs a provider or the file system gives a [`Step`] that says
//! what to do there. Whoever holds the providers does it, in order, and hands
//! the [`Reply`] back.

use vstd::prelude::*;

use crate::app_state;
use crate::app_state::{AppRenderer, ProviderInfo, ProviderView, Ui};
use crate::ffon;
use crate::ffon::{FfonElement, FfonObject, IdArray, Node};
use crate::list;
use crate::text;
use crate::timeline::{EntryView, TimelineEntry};

verus! {

/// One thing to do outside.
pub enum Op {
    /// Go into the part `0` of the path.
    PushPath(String),
    /// Go out of the last part of the path.
    PopPath,
    SetPath(String),
    /// Fetch what is at the path.
    Fetch,
    /// Take the error that the provider holds.
    TakeError,
    /// Take the error that the provider holds, where the last call failed.
    TakeErrorOfFailure,
    CommitEdit { before: String, after: String },
    CreateFile(String),
    CreateDirectory(String),
    DeleteItem(String),
    CopyItem { from_dir: String, from_name: String, to_dir: String, to_name: String },
    HandleCommand { command: String, key: String, is_branch: bool },
    ExecuteCommand { command: String, item: String },
    CheckboxChange { label: String, checked: bool },
    RadioChange { group: String, value: String },
    ButtonPress(String),
    CreateElement(String),
    /// Hand over the lines of a body that is being written.
    SyncBody(Vec<FfonElement>),
    Undo(TimelineEntry),
    Redo(TimelineEntry),
    /// Load what a link leads to.
    ResolveLink(String),
    /// Open a file with the program of the system.
    OpenFile(String),
    /// Whether there is something at a path.
    Exists(String),
    /// Whether there is a directory at a path.
    IsDirectory(String),
    SaveTree { path: String, tree: FfonElement },
    LoadTree(String),
    /// Throw away the steps that the providers recorded.
    DiscardSteps,
}

/// What an [`Op`] is, as values.
pub enum OpView {
    PushPath(Seq<char>),
    PopPath,
    SetPath(Seq<char>),
    Fetch,
    TakeError,
    TakeErrorOfFailure,
    CommitEdit { before: Seq<char>, after: Seq<char> },
    CreateFile(Seq<char>),
    CreateDirectory(Seq<char>),
    DeleteItem(Seq<char>),
    CopyItem { from_dir: Seq<char>, from_name: Seq<char>, to_dir: Seq<char>, to_name: Seq<char> },
    HandleCommand { command: Seq<char>, key: Seq<char>, is_branch: bool },
    ExecuteCommand { command: Seq<char>, item: Seq<char> },
    CheckboxChange { label: Seq<char>, checked: bool },
    RadioChange { group: Seq<char>, value: Seq<char> },
    ButtonPress(Seq<char>),
    CreateElement(Seq<char>),
    SyncBody(Seq<Node>),
    Undo(EntryView),
    Redo(EntryView),
    ResolveLink(Seq<char>),
    OpenFile(Seq<char>),
    Exists(Seq<char>),
    IsDirectory(Seq<char>),
    SaveTree { path: Seq<char>, tree: Node },
    LoadTree(Seq<char>),
    DiscardSteps,
}

impl View for Op {
    type V = OpView;

    open spec fn view(&self) -> OpView {
        match self {
            Op::PushPath(s) => OpView::PushPath(s@),
            Op::PopPath => OpView::PopPath,
            Op::SetPath(s) => OpView::SetPath(s@),
            Op::Fetch => OpView::Fetch,
            Op::TakeError => OpView::TakeError,
            Op::TakeErrorOfFailure => OpView::TakeErrorOfFailure,
            Op::CommitEdit { before, after } => OpView::CommitEdit {
                before: before@,
                after: after@,
            },
            Op::CreateFile(s) => OpView::CreateFile(s@),
            Op::CreateDirectory(s) => OpView::CreateDirectory(s@),
            Op::DeleteItem(s) => OpView::DeleteItem(s@),
            Op::CopyItem { from_dir, from_name, to_dir, to_name } => OpView::CopyItem {
                from_dir: from_dir@,
                from_name: from_name@,
                to_dir: to_dir@,
                to_name: to_name@,
            },
            Op::HandleCommand { command, key, is_branch } => OpView::HandleCommand {
                command: command@,
                key: key@,
                is_branch: *is_branch,
            },
            Op::ExecuteCommand { command, item } => OpView::ExecuteCommand {
                command: command@,
                item: item@,
            },
            Op::CheckboxChange { label, checked } => OpView::CheckboxChange {
                label: label@,
                checked: *checked,
            },
            Op::RadioChange { group, value } => OpView::RadioChange {
                group: group@,
                value: value@,
            },
            Op::ButtonPress(s) => OpView::ButtonPress(s@),
            Op::CreateElement(s) => OpView::CreateElement(s@),
            Op::SyncBody(children) => OpView::SyncBody(ffon::forest(children@)),
            Op::Undo(e) => OpView::Undo(e@),
            Op::Redo(e) => OpView::Redo(e@),
            Op::ResolveLink(s) => OpView::ResolveLink(s@),
            Op::OpenFile(s) => OpView::OpenFile(s@),
            Op::Exists(s) => OpView::Exists(s@),
            Op::IsDirectory(s) => OpView::IsDirectory(s@),
            Op::SaveTree { path, tree } => OpView::SaveTree { path: path@, tree: tree@ },
            Op::LoadTree(s) => OpView::LoadTree(s@),
            Op::DiscardSteps => OpView::DiscardSteps,
        }
    }
}

/// What a list of things to do is.
#[verifier::opaque]
pub open spec fn ops_of(ops: Seq<Op>) -> Seq<OpView> {
    Seq::new(ops.len(), |i: int| ops[i]@)
}

/// A list of one thing to do.
pub(crate) fn one_op(a: Op) -> (res: Vec<Op>)
    ensures
        ops_of(res@) == seq![a@],
{
    proof {
        reveal(ops_of);
    }
    let res = vec![a];
    assert(ops_of(res@) =~= seq![a@]);
    res
}

/// A list of two things to do.
pub(crate) fn two_ops(a: Op, b: Op) -> (res: Vec<Op>)
    ensures
        ops_of(res@) == seq![a@, b@],
{
    proof {
        reveal(ops_of);
    }
    let res = vec![a, b];
    assert(ops_of(res@) =~= seq![a@, b@]);
    res
}

/// A list of three things to do.
pub(crate) fn three_ops(a: Op, b: Op, c: Op) -> (res: Vec<Op>)
    ensures
        ops_of(res@) == seq![a@, b@, c@],
{
    proof {
        reveal(ops_of);
    }
    let res = vec![a, b, c];
    assert(ops_of(res@) =~= seq![a@, b@, c@]);
    res
}

/// A list of four things to do.
pub(crate) fn four_ops(a: Op, b: Op, c: Op, d: Op) -> (res: Vec<Op>)
    ensures
        ops_of(res@) == seq![a@, b@, c@, d@],
{
    proof {
        reveal(ops_of);
    }
    let res = vec![a, b, c, d];
    assert(ops_of(res@) =~= seq![a@, b@, c@, d@]);
    res
}

/// A list of five things to do.
pub(crate) fn five_ops(a: Op, b: Op, c: Op, d: Op, e: Op) -> (res: Vec<Op>)
    ensures
        ops_of(res@) == seq![a@, b@, c@, d@, e@],
{
    proof {
        reveal(ops_of);
    }
    let res = vec![a, b, c, d, e];
    assert(ops_of(res@) =~= seq![a@, b@, c@, d@, e@]);
    res
}

/// What came of the things that were done.
pub struct Reply {
    /// Whether the last call that can fail did not.
    pub ok: bool,
    /// The last error that was taken or reported.
    pub error: Option<String>,
    /// What was fetched or loaded last.
    pub children: Vec<FfonElement>,
    /// The element that was made.
    pub element: Option<FfonElement>,
    /// What is known of the provider now.
    pub info: Option<ProviderInfo>,
    /// The last part of the path that the provider is at now.
    pub file_name: Option<String>,
    /// The last part of the path that the provider was at before.
    pub left_name: Option<String>,
}

/// What a [`Reply`] is, as values.
pub struct ReplyView {
    pub ok: bool,
    pub error: Option<Seq<char>>,
    pub children: Seq<Node>,
    pub element: Option<Node>,
    pub info: Option<ProviderView>,
    pub file_name: Option<Seq<char>>,
    pub left_name: Option<Seq<char>>,
}

/// What is known of an optional provider.
pub open spec fn opt_info(p: Option<ProviderInfo>) -> Option<ProviderView> {
    match p {
        Some(x) => Some(x@),
        None => None,
    }
}

impl View for Reply {
    type V = ReplyView;

    open spec fn view(&self) -> ReplyView {
        ReplyView {
            ok: self.ok,
            error: text::opt_text(self.error),
            children: ffon::forest(self.children@),
            element: ffon::opt_node(self.element),
            info: opt_info(self.info),
            file_name: text::opt_text(self.file_name),
            left_name: text::opt_text(self.left_name),
        }
    }
}

impl Reply {
    /// The reply where there is nothing to answer.
    pub fn nothing() -> (res: Self)
        ensures
            !res@.ok,
            res@.error is None,
            res@.children == Seq::<Node>::empty(),
            res@.element is None,
            res@.info is None,
            res@.file_name is None,
            res@.left_name is None,
    {
        let res = Reply {
            ok: false,
            error: None,
            children: Vec::new(),
            element: None,
            info: None,
            file_name: None,
            left_name: None,
        };
        assert(res@.children =~= Seq::<Node>::empty());
        res
    }
}

/// Why the position goes into an element.
#[derive(Debug, Clone, Copy, PartialEq, Eq, Structural)]
pub enum RightEnd {
    /// A key asks for it.
    Key,
    /// An edit of the element is done.
    Commit,
}

/// Why the position goes out of an element.
#[derive(Debug, Clone, Copy, PartialEq, Eq, Structural)]
pub enum LeftEnd {
    /// A key asks for it.
    Key,
    /// It goes on to the root, for a double tap at `tap`.
    Home { tap: u64 },
    /// A command changed the state of the provider, which starts anew.
    Toggle,
}

/// Why a provider is led to a directory.
#[derive(Debug, Clone, Copy, PartialEq, Eq, Structural)]
pub enum PathEnd {
    /// A search found something there.
    Search,
    /// Something is to be saved there.
    SaveAs,
}

/// How a new file or directory was asked for.
#[derive(Debug, Clone, Copy, PartialEq, Eq, Structural)]
pub enum Creation {
    /// With a name that tells a file from a directory.
    Prefixed,
    /// As the text of an element that spans it.
    Spanning,
    /// As the name of a branch.
    Branch,
    /// As the text of a leaf.
    Leaf,
}

/// What to go on with when the reply is there.
#[allow(inconsistent_fields)]
pub enum Then {
    F5,
    Finished,
    Asked,
    Commanded,
    Entered,
    Refreshed,
    Relisted,
    Pressed,
    RightLinked { end: RightEnd },
    RightEntered { end: RightEnd },
    LeftPopped { before: Option<String>, end: LeftEnd },
    LeftFetched { name: Option<String>, end: LeftEnd },
    HomeOn { tap: u64 },
    ToggleOn,
    ToggleFetched,
    CommandDone,
    CommandExecuted,
    InputCommitted,
    InputFetched,
    SearchToggled { index: usize, extended: bool },
    SearchChosen { extended: bool },
    ElementCreated { function: String },
    PathFetched { root: usize, rest: Vec<String>, target: String, end: PathEnd },
    PathEntered { rest: Vec<String>, target: String, end: PathEnd },
    FileDeleted,
    FilesFetched,
    CutCopied { name: String, cached: String },
    CutDeleted { cached: String },
    PasteTried { from_dir: String, from_name: String, to_dir: String, candidate: String, n: u32 },
    PasteCopied { name: String },
    PasteFetched { name: String },
    EditUnchanged,
    Created { name: String, id: IdArray, is_dir: bool, way: Creation },
    CreatedFetched { name: String, way: Creation },
    EditCommitted { element: FfonElement },
    EditFetched,
    SaveTried { dir: String, base: String, candidate: String, n: u32 },
    SaveWritten { path: String },
    SaveReset { path: String, error: Option<String> },
    SaveFolderChecked { dir: String, browser: usize },
    Saved { path: String },
    Loaded { path: String },
    LoadReset { path: String },
    Undone,
    UndoFetched { id: IdArray },
    HistoryFetched,
    ProviderUndone { provider: usize, name: Option<String>, redo: bool },
    FsUndone { id: IdArray, element: Option<FfonElement> },
    FsTidied { id: IdArray },
    FsRenamed { id: IdArray, element: FfonElement },
    FsEntered,
    FsLeft { id: IdArray, name: String },
}

/// What a [`Then`] is, as values.
#[allow(inconsistent_fields)]
pub enum ThenView {
    F5,
    Finished,
    Asked,
    Commanded,
    Entered,
    Refreshed,
    Relisted,
    Pressed,
    RightLinked { end: RightEnd },
    RightEntered { end: RightEnd },
    LeftPopped { before: Option<Seq<char>>, end: LeftEnd },
    LeftFetched { name: Option<Seq<char>>, end: LeftEnd },
    HomeOn { tap: u64 },
    ToggleOn,
    ToggleFetched,
    CommandDone,
    CommandExecuted,
    InputCommitted,
    InputFetched,
    SearchToggled { index: usize, extended: bool },
    SearchChosen { extended: bool },
    ElementCreated { function: Seq<char> },
    PathFetched { root: usize, rest: Seq<Seq<char>>, target: Seq<char>, end: PathEnd },
    PathEntered { rest: Seq<Seq<char>>, target: Seq<char>, end: PathEnd },
    FileDeleted,
    FilesFetched,
    CutCopied { name: Seq<char>, cached: Seq<char> },
    CutDeleted { cached: Seq<char> },
    PasteTried { from_dir: Seq<char>, from_name: Seq<char>, to_dir: Seq<char>, candidate: Seq<char>, n: u32 },
    PasteCopied { name: Seq<char> },
    PasteFetched { name: Seq<char> },
    EditUnchanged,
    Created { name: Seq<char>, id: Seq<usize>, is_dir: bool, way: Creation },
    CreatedFetched { name: Seq<char>, way: Creation },
    EditCommitted { element: Node },
    EditFetched,
    SaveTried { dir: Seq<char>, base: Seq<char>, candidate: Seq<char>, n: u32 },
    SaveWritten { path: Seq<char> },
    SaveReset { path: Seq<char>, error: Option<Seq<char>> },
    SaveFolderChecked { dir: Seq<char>, browser: usize },
    Saved { path: Seq<char> },
    Loaded { path: Seq<char> },
    LoadReset { path: Seq<char> },
    Undone,
    UndoFetched { id: Seq<usize> },
    HistoryFetched,
    ProviderUndone { provider: usize, name: Option<Seq<char>>, redo: bool },
    FsUndone { id: Seq<usize>, element: Option<Node> },
    FsTidied { id: Seq<usize> },
    FsRenamed { id: Seq<usize>, element: Node },
    FsEntered,
    FsLeft { id: Seq<usize>, name: Seq<char> },
}

impl View for Then {
    type V = ThenView;

    open spec fn view(&self) -> ThenView {
        match self {
            Then::F5 => ThenView::F5,
            Then::Finished => ThenView::Finished,
            Then::Asked => ThenView::Asked,
            Then::Commanded => ThenView::Commanded,
            Then::Entered => ThenView::Entered,
            Then::Refreshed => ThenView::Refreshed,
            Then::Relisted => ThenView::Relisted,
            Then::Pressed => ThenView::Pressed,
            Then::RightLinked { end } => ThenView::RightLinked { end: *end },
            Then::RightEntered { end } => ThenView::RightEntered { end: *end },
            Then::LeftPopped { before, end } => ThenView::LeftPopped { before: text::opt_text(*before), end: *end },
            Then::LeftFetched { name, end } => ThenView::LeftFetched { name: text::opt_text(*name), end: *end },
            Then::HomeOn { tap } => ThenView::HomeOn { tap: *tap },
            Then::ToggleOn => ThenView::ToggleOn,
            Then::ToggleFetched => ThenView::ToggleFetched,
            Then::CommandDone => ThenView::CommandDone,
            Then::CommandExecuted => ThenView::CommandExecuted,
            Then::InputCommitted => ThenView::InputCommitted,
            Then::InputFetched => ThenView::InputFetched,
            Then::SearchToggled { index, extended } => ThenView::SearchToggled { index: *index, extended: *extended },
            Then::SearchChosen { extended } => ThenView::SearchChosen { extended: *extended },
            Then::ElementCreated { function } => ThenView::ElementCreated { function: function@ },
            Then::PathFetched { root, rest, target, end } => ThenView::PathFetched { root: *root, rest: text::texts(rest@), target: target@, end: *end },
            Then::PathEntered { rest, target, end } => ThenView::PathEntered { rest: text::texts(rest@), target: target@, end: *end },
            Then::FileDeleted => ThenView::FileDeleted,
            Then::FilesFetched => ThenView::FilesFetched,
            Then::CutCopied { name, cached } => ThenView::CutCopied { name: name@, cached: cached@ },
            Then::CutDeleted { cached } => ThenView::CutDeleted { cached: cached@ },
            Then::PasteTried { from_dir, from_name, to_dir, candidate, n } => ThenView::PasteTried { from_dir: from_dir@, from_name: from_name@, to_dir: to_dir@, candidate: candidate@, n: *n },
            Then::PasteCopied { name } => ThenView::PasteCopied { name: name@ },
            Then::PasteFetched { name } => ThenView::PasteFetched { name: name@ },
            Then::EditUnchanged => ThenView::EditUnchanged,
            Then::Created { name, id, is_dir, way } => ThenView::Created { name: name@, id: id@, is_dir: *is_dir, way: *way },
            Then::CreatedFetched { name, way } => ThenView::CreatedFetched { name: name@, way: *way },
            Then::EditCommitted { element } => ThenView::EditCommitted { element: element@ },
            Then::EditFetched => ThenView::EditFetched,
            Then::SaveTried { dir, base, candidate, n } => ThenView::SaveTried { dir: dir@, base: base@, candidate: candidate@, n: *n },
            Then::SaveWritten { path } => ThenView::SaveWritten { path: path@ },
            Then::SaveReset { path, error } => ThenView::SaveReset { path: path@, error: text::opt_text(*error) },
            Then::SaveFolderChecked { dir, browser } => ThenView::SaveFolderChecked { dir: dir@, browser: *browser },
            Then::Saved { path } => ThenView::Saved { path: path@ },
            Then::Loaded { path } => ThenView::Loaded { path: path@ },
            Then::LoadReset { path } => ThenView::LoadReset { path: path@ },
            Then::Undone => ThenView::Undone,
            Then::UndoFetched { id } => ThenView::UndoFetched { id: id@ },
            Then::HistoryFetched => ThenView::HistoryFetched,
            Then::ProviderUndone { provider, name, redo } => ThenView::ProviderUndone { provider: *provider, name: text::opt_text(*name), redo: *redo },
            Then::FsUndone { id, element } => ThenView::FsUndone { id: id@, element: ffon::opt_node(*element) },
            Then::FsTidied { id } => ThenView::FsTidied { id: id@ },
            Then::FsRenamed { id, element } => ThenView::FsRenamed { id: id@, element: element@ },
            Then::FsEntered => ThenView::FsEntered,
            Then::FsLeft { id, name } => ThenView::FsLeft { id: id@, name: name@ },
        }
    }
}

/// What to do next outside, and what to go on with then.
pub enum Step {
    Done,
    Ask { provider: Option<usize>, ops: Vec<Op>, then: Then },
}

/// What a [`Step`] is, as values.
pub enum StepView {
    Done,
    Ask { provider: Option<usize>, ops: Seq<OpView>, then: ThenView },
}

impl View for Step {
    type V = StepView;

    open spec fn view(&self) -> StepView {
        match self {
            Step::Done => StepView::Done,
            Step::Ask { provider, ops, then } => StepView::Ask {
                provider: *provider,
                ops: ops_of(ops@),
                then: then@,
            },
        }
    }
}

/// A fetch by the provider of the position.
pub open spec fn fetching(u: Ui, then: ThenView) -> StepView {
    StepView::Ask {
        provider: active_index(u),
        ops: seq![OpView::Fetch, OpView::TakeError],
        then,
    }
}

/// Have the provider of the position fetch what it has at its path.
pub fn refresh_current_directory(r: &AppRenderer, then: Then) -> (res: Step)
    ensures
        res@ == fetching(r@, then@),
{
    Step::Ask {
        provider: present_provider_index(r),
        ops: two_ops(Op::Fetch, Op::TakeError),
        then,
    }
}

/// The index of the provider that the position is in.
pub open spec fn active_index(u: Ui) -> Option<usize> {
    if u.current_id.len() > 0 && u.current_id[0] < u.providers.len() {
        Some(u.current_id[0])
    } else {
        None
    }
}

/// The index of the provider that the position is in.
pub fn present_provider_index(r: &AppRenderer) -> (res: Option<usize>)
    ensures
        res == active_index(r@),
{
    match r.current_id.get(0) {
        Some(i) => if i < r.providers.len() {
            Some(i)
        } else {
            None
        },
        None => None,
    }
}

/// The path of the provider that the position is in; the root where there is
/// none.
pub open spec fn path_here(u: Ui) -> Seq<char> {
    match active_index(u) {
        Some(i) => u.providers[i as int].current_path,
        None => "/"@,
    }
}

/// The path of the provider that the position is in.
pub fn current_path(r: &AppRenderer) -> (res: String)
    ensures
        res@ == path_here(r@),
{
    match present_provider_index(r) {
        Some(i) => r.providers[i].current_path.clone(),
        None => "/".to_owned(),
    }
}

/// `u` after `info` is learned of the provider `p`.
#[verifier::opaque]
pub open spec fn learned(u: Ui, p: Option<usize>, info: Option<ProviderView>) -> Ui {
    Ui {
        providers: match (p, info) {
            (Some(i), Some(v)) if i < u.providers.len() => u.providers.update(i as int, v),
            _ => u.providers,
        },
        ..u
    }
}

fn learn_info(providers: &mut Vec<ProviderInfo>, p: Option<usize>, info: Option<ProviderInfo>)
    ensures
        app_state::infos(final(providers)@) == match (p, opt_info(info)) {
            (Some(i), Some(v)) if i < old(providers)@.len() => app_state::infos(
                old(providers)@,
            ).update(i as int, v),
            _ => app_state::infos(old(providers)@),
        },
{
    if let Some(i) = p {
        if i < providers.len() {
            if let Some(known) = info {
                let ghost before = providers@;
                providers[i] = known;
                assert(app_state::infos(providers@) =~= app_state::infos(before).update(
                    i as int,
                    known@,
                ));
            }
        }
    }
}

/// Learn `info` of the provider `p`.
pub fn learn(r: &mut AppRenderer, p: Option<usize>, info: Option<ProviderInfo>)
    ensures
        final(r)@ == learned(old(r)@, p, opt_info(info)),
        app_state::tabs_ok(old(r)@) ==> app_state::tabs_ok(final(r)@),
{
    proof {
        reveal(learned);
    }
    learn_info(&mut r.providers, p, info);
}

/// The name of the root of a provider that is at `path`.
pub open spec fn root_key(
    path: Seq<char>,
    display_name: Seq<char>,
    file_name: Option<Seq<char>>,
) -> Seq<char> {
    if path == "/"@ {
        display_name
    } else {
        match file_name {
            Some(n) => n,
            None => display_name,
        }
    }
}

/// The roots with that of the provider `i` replaced.
pub open spec fn with_root(tree: Seq<Node>, i: usize, key: Seq<char>, children: Seq<Node>) -> Seq<
    Node,
> {
    if i < tree.len() {
        tree.update(i as int, Node::Obj { key, children })
    } else {
        tree
    }
}

fn set_root(tree: &mut Vec<FfonElement>, i: usize, key: String, children: Vec<FfonElement>)
    ensures
        ffon::forest(final(tree)@) == with_root(
            ffon::forest(old(tree)@),
            i,
            key@,
            ffon::forest(children@),
        ),
{
    if i < tree.len() {
        let ghost before = tree@;
        let root = FfonElement::Obj(FfonObject { key, children });
        proof {
            ffon::lemma_obj_view(root->Obj_0);
        }
        tree[i] = root;
        assert(ffon::forest(tree@) =~= ffon::forest(before).update(i as int, root@));
    }
}

/// The error after a fetch of the provider `p`.
pub open spec fn fetched_error(
    providers: Seq<ProviderView>,
    error: Seq<char>,
    p: Option<usize>,
    reply: ReplyView,
) -> Seq<char> {
    match (p, reply.error) {
        (Some(i), Some(e)) if i < providers.len() => e,
        _ => error,
    }
}

/// The tree after a fetch of the provider `p`.
pub open spec fn fetched_tree(
    providers: Seq<ProviderView>,
    tree: Seq<Node>,
    p: Option<usize>,
    reply: ReplyView,
) -> Seq<Node> {
    match p {
        Some(i) if i < providers.len() => with_root(
            tree,
            i,
            root_key(
                providers[i as int].current_path,
                providers[i as int].display_name,
                reply.file_name,
            ),
            reply.children,
        ),
        _ => tree,
    }
}

/// `u` after what the provider `p` has at its path is fetched.
#[verifier::opaque]
pub open spec fn refreshed(u: Ui, p: Option<usize>, reply: ReplyView) -> Ui {
    Ui {
        error_message: fetched_error(u.providers, u.error_message, p, reply),
        ffon: fetched_tree(u.providers, u.ffon, p, reply),
        ..u
    }
}

fn fetch_into(
    providers: &Vec<ProviderInfo>,
    tree: &mut Vec<FfonElement>,
    error: &mut String,
    p: Option<usize>,
    reply: Reply,
)
    ensures
        ffon::forest(final(tree)@) == fetched_tree(
            app_state::infos(providers@),
            ffon::forest(old(tree)@),
            p,
            reply@,
        ),
        final(error)@ == fetched_error(app_state::infos(providers@), old(error)@, p, reply@),
{
    if let Some(i) = p {
        if i < providers.len() {
            let key = root_name(&providers[i], reply.file_name);
            set_root(tree, i, key, reply.children);
            if let Some(e) = reply.error {
                *error = e;
            }
        }
    }
}

/// Put what the provider `p` has at its path into the tree.
pub(crate) fn apply_refresh(r: &mut AppRenderer, p: Option<usize>, reply: Reply)
    ensures
        final(r)@ == refreshed(old(r)@, p, reply@),
        app_state::tabs_ok(old(r)@) ==> app_state::tabs_ok(final(r)@),
{
    proof {
        reveal(refreshed);
    }
    fetch_into(&r.providers, &mut r.ffon, &mut r.error_message, p, reply);
}

fn root_name(p: &ProviderInfo, file_name: Option<String>) -> (res: String)
    ensures
        res@ == root_key(p@.current_path, p@.display_name, text::opt_text(file_name)),
{
    if text::same(p.current_path.as_str(), "/") {
        p.display_name.clone()
    } else {
        match file_name {
            Some(n) => n,
            None => p.display_name.clone(),
        }
    }
}

/// `u` with the error of a call that failed.
#[verifier::opaque]
pub open spec fn failure_noted(u: Ui, p: Option<usize>, reply: ReplyView) -> Ui {
    Ui {
        error_message: match reply.error {
            Some(e) if p is Some && !reply.ok => e,
            _ => u.error_message,
        },
        ..u
    }
}

/// Show the error of a call that failed. Whether it succeeded is told.
pub fn note_failure(r: &mut AppRenderer, p: Option<usize>, reply: &Reply) -> (ok: bool)
    ensures
        final(r)@ == failure_noted(old(r)@, p, reply@),
        ok == (p is Some && reply.ok),
        app_state::tabs_ok(old(r)@) ==> app_state::tabs_ok(final(r)@),
{
    proof {
        reveal(failure_noted);
    }
    let message = match &reply.error {
        Some(e) => if p.is_some() && !reply.ok {
            e.clone()
        } else {
            r.error_message.clone()
        },
        None => r.error_message.clone(),
    };
    r.error_message = message;
    p.is_some() && reply.ok
}

/// The index that the position starts with.
pub fn active_provider_index(r: &AppRenderer) -> (res: Option<usize>)
    ensures
        res == (if r@.current_id.len() > 0 {
            Some(r@.current_id[0])
        } else {
            None
        }),
{
    r.current_id.get(0)
}

/// One thing is asked of the provider of the position.
pub open spec fn asking(u: Ui, op: OpView, then: ThenView) -> StepView {
    StepView::Ask { provider: active_index(u), ops: seq![op], then }
}

/// One thing that can fail is asked of the provider of the position. Its error
/// is shown where it fails.
pub open spec fn trying(u: Ui, op: OpView) -> StepView {
    StepView::Ask {
        provider: active_index(u),
        ops: seq![op, OpView::TakeErrorOfFailure],
        then: ThenView::Asked,
    }
}

fn ask(r: &AppRenderer, op: Op, then: Then) -> (res: Step)
    ensures
        res@ == asking(r@, op@, then@),
{
    Step::Ask { provider: present_provider_index(r), ops: one_op(op), then }
}

fn attempt(r: &AppRenderer, op: Op) -> (res: Step)
    ensures
        res@ == trying(r@, op@),
{
    Step::Ask {
        provider: present_provider_index(r),
        ops: two_ops(op, Op::TakeErrorOfFailure),
        then: Then::Asked,
    }
}

/// Have the provider of the position go into a part of the path.
pub fn push_path(r: &AppRenderer, segment: &str) -> (res: Step)
    ensures
        res@ == asking(r@, OpView::PushPath(segment@), ThenView::Finished),
{
    ask(r, Op::PushPath(segment.to_owned()), Then::Finished)
}

/// Have the provider of the position go out of the last part of the path.
pub fn pop_path(r: &AppRenderer) -> (res: Step)
    ensures
        res@ == asking(r@, OpView::PopPath, ThenView::Finished),
{
    ask(r, Op::PopPath, Then::Finished)
}

/// Have the provider of the position go to a path.
pub fn set_provider_path(r: &AppRenderer, path: &str) -> (res: Step)
    ensures
        res@ == asking(r@, OpView::SetPath(path@), ThenView::Finished),
{
    ask(r, Op::SetPath(path.to_owned()), Then::Finished)
}

/// Have the provider of the position commit an edit.
pub fn commit_edit(r: &AppRenderer, before: &str, after: &str) -> (res: Step)
    ensures
        res@ == trying(r@, (OpView::CommitEdit { before: before@, after: after@ })),
{
    attempt(r, Op::CommitEdit { before: before.to_owned(), after: after.to_owned() })
}

/// Have the provider of the position delete a file or a directory.
pub fn delete_item_by_name(r: &AppRenderer, name: &str) -> (res: Step)
    ensures
        res@ == trying(r@, OpView::DeleteItem(name@)),
{
    attempt(r, Op::DeleteItem(name.to_owned()))
}

/// Have the provider of the position copy a file or a directory.
pub fn copy_item(
    r: &AppRenderer,
    from_dir: &str,
    from_name: &str,
    to_dir: &str,
    to_name: &str,
) -> (res: Step)
    ensures
        res@ == trying(
            r@,
            (OpView::CopyItem {
                from_dir: from_dir@,
                from_name: from_name@,
                to_dir: to_dir@,
                to_name: to_name@,
            }),
        ),
{
    attempt(
        r,
        Op::CopyItem {
            from_dir: from_dir.to_owned(),
            from_name: from_name.to_owned(),
            to_dir: to_dir.to_owned(),
            to_name: to_name.to_owned(),
        },
    )
}

/// Have the provider of the position create a file.
pub fn create_file(r: &AppRenderer, name: &str) -> (res: Step)
    ensures
        res@ == trying(r@, OpView::CreateFile(name@)),
{
    attempt(r, Op::CreateFile(name.to_owned()))
}

/// Have the provider of the position create a directory.
pub fn create_directory(r: &AppRenderer, name: &str) -> (res: Step)
    ensures
        res@ == trying(r@, OpView::CreateDirectory(name@)),
{
    attempt(r, Op::CreateDirectory(name.to_owned()))
}

/// Have the provider of the position carry out a command on an element.
pub fn handle_command(r: &AppRenderer, command: &str, key: &str, is_branch: bool) -> (res: Step)
    ensures
        res@ == asking(
            r@,
            (OpView::HandleCommand { command: command@, key: key@, is_branch }),
            ThenView::Commanded,
        ),
{
    ask(
        r,
        Op::HandleCommand { command: command.to_owned(), key: key.to_owned(), is_branch },
        Then::Commanded,
    )
}

/// `u` with the error of a command.
#[verifier::opaque]
pub open spec fn command_noted(u: Ui, reply: ReplyView) -> Ui {
    Ui {
        error_message: match reply.error {
            Some(e) => e,
            None => u.error_message,
        },
        ..u
    }
}

/// Show the error of a command. The element that it made is handed over.
pub fn note_command(r: &mut AppRenderer, reply: Reply) -> (res: Option<FfonElement>)
    ensures
        final(r)@ == command_noted(old(r)@, reply@),
        ffon::opt_node(res) == reply@.element,
        app_state::tabs_ok(old(r)@) ==> app_state::tabs_ok(final(r)@),
{
    proof {
        reveal(command_noted);
    }
    match reply.error {
        Some(e) => {
            r.error_message = e;
        },
        None => {},
    }
    reply.element
}

/// Have the provider of the position carry out a command with what was chosen
/// for it.
pub fn execute_command(r: &AppRenderer, command: &str, item: &str) -> (res: Step)
    ensures
        res@ == asking(
            r@,
            (OpView::ExecuteCommand { command: command@, item: item@ }),
            ThenView::Finished,
        ),
{
    ask(
        r,
        Op::ExecuteCommand { command: command.to_owned(), item: item.to_owned() },
        Then::Finished,
    )
}

/// The commands of the provider of the position.
pub open spec fn commands_of(u: Ui) -> Seq<Seq<char>> {
    match active_index(u) {
        Some(i) => u.providers[i as int].commands,
        None => Seq::empty(),
    }
}

/// The commands of the provider of the position.
pub fn get_commands(r: &AppRenderer) -> (res: Vec<String>)
    ensures
        text::texts(res@) == commands_of(r@),
{
    match present_provider_index(r) {
        Some(i) => {
            assert(r@.providers[i as int] == r.providers@[i as int]@);
            text::clone_texts(&r.providers[i].commands)
        },
        None => {
            let res: Vec<String> = Vec::new();
            assert(text::texts(res@) =~= Seq::<Seq<char>>::empty());
            res
        },
    }
}

/// The hints on shortcuts at the position.
pub fn get_meta(r: &AppRenderer) -> (res: Vec<String>)
    ensures
        text::texts(res@) == list::meta_of(r@),
{
    if r.current_id.depth() <= 1 {
        return text::clone_texts(&r.root_meta);
    }
    match list::get_active_provider_ref(r) {
        Some(p) => text::clone_texts(&p.meta),
        None => {
            let res: Vec<String> = Vec::new();
            assert(text::texts(res@) =~= Seq::<Seq<char>>::empty());
            res
        },
    }
}

} // verus!
