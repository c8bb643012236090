//! What the undo timeline records.

use vstd::prelude::*;

use crate::ffon;
use crate::ffon::{FfonElement, IdArray, Node};
use crate::text;

verus! {

/// The arrow key that caused a navigation.
#[derive(Debug, Clone, Copy, PartialEq, Eq, Structural)]
pub enum NavKind {
    ArrowUp,
    ArrowDown,
    ArrowLeft,
    ArrowRight,
}

/// A change of the tree's structure.
#[derive(Debug, Clone, Copy, PartialEq, Eq, Structural)]
pub enum StructuralOp {
    Append,
    Insert,
    Delete,
    Cut,
    Paste,
    Replace,
}

/// What a structural change put in or took out.
pub enum StructuralPayload {
    Inserted(FfonElement),
    Removed(FfonElement),
    Pasted { before: FfonElement, after: FfonElement },
    Replaced { before: FfonElement, after: FfonElement },
}

/// An operation on the file system.
#[derive(Debug, Clone, Copy, PartialEq, Eq, Structural)]
pub enum FsOpKind {
    Create,
    Rename,
    Delete,
    Move,
    Paste,
}

/// What a file operation left outside the tree.
#[allow(inconsistent_fields)]
pub enum FsSideEffect {
    NoSideEffect,
    TrashedFile { original_path: String, content_snapshot: Vec<u8> },
    TrashedDir { original_path: String, content_tree: TrashedTree },
    RenameOnly { from: String, to: String },
}

/// A directory that was moved to the trash.
pub enum TrashedTree {
    File(Vec<u8>),
    Dir(Vec<(String, TrashedTree)>),
}

/// An operation on a mailbox.
#[allow(inconsistent_fields)]
pub enum ImapOpKind {
    Trash { msg_id: String, src_folder: String, trash_folder: String },
    Archive { msg_id: String, src_folder: String, archive_folder: String },
    Move { msg_id: String, src_folder: String, dst_folder: String },
    SetSeen { msg_uid: u32, folder: String, prev: bool, new: bool },
    SetFlagged { msg_uid: u32, folder: String, prev: bool, new: bool },
}

/// An operation in a chat room.
#[allow(inconsistent_fields)]
pub enum ChatOpKind {
    LeaveRoom { room_id: String },
    AcceptInvite { room_id: String },
    RejectInvite { room_id: String },
    KickMember { room_id: String, user_id: String, reason: Option<String> },
    BanMember { room_id: String, user_id: String, reason: Option<String> },
    PostMessage { room_id: String, event_id: String, body: String },
}

/// One step of the timeline.
#[allow(inconsistent_fields)]
pub enum TimelineEntry {
    Navigate {
        provider_idx: usize,
        from_id: IdArray,
        to_id: IdArray,
        from_path: Option<String>,
        to_path: Option<String>,
        kind: NavKind,
    },
    TextChunk { id: IdArray, before: FfonElement, after: FfonElement, chunk_seq: u32 },
    Structure { id: IdArray, op: StructuralOp, payload: StructuralPayload },
    FsOp {
        provider_idx: usize,
        id: IdArray,
        op: FsOpKind,
        before: Option<FfonElement>,
        after: Option<FfonElement>,
        side_effect: FsSideEffect,
    },
    ImapOp { provider_idx: usize, id: IdArray, op: ImapOpKind },
    ChatOp { provider_idx: usize, id: IdArray, op: ChatOpKind },
    ProviderOp { provider_idx: usize, command: String, payload: FfonElement, label: String },
}

/// What a structural payload is.
pub enum PayloadView {
    Inserted(Node),
    Removed(Node),
    Pasted { before: Node, after: Node },
    Replaced { before: Node, after: Node },
}

/// What a trashed directory is.
pub enum TrashView {
    File(Seq<u8>),
    Dir(Seq<(Seq<char>, TrashView)>),
}

/// What a file operation's side effect is.
#[allow(inconsistent_fields)]
pub enum SideEffectView {
    NoSideEffect,
    TrashedFile { original_path: Seq<char>, content_snapshot: Seq<u8> },
    TrashedDir { original_path: Seq<char>, content_tree: TrashView },
    RenameOnly { from: Seq<char>, to: Seq<char> },
}

/// What a mailbox operation is.
#[allow(inconsistent_fields)]
pub enum ImapView {
    Trash { msg_id: Seq<char>, src_folder: Seq<char>, trash_folder: Seq<char> },
    Archive { msg_id: Seq<char>, src_folder: Seq<char>, archive_folder: Seq<char> },
    Move { msg_id: Seq<char>, src_folder: Seq<char>, dst_folder: Seq<char> },
    SetSeen { msg_uid: u32, folder: Seq<char>, prev: bool, new: bool },
    SetFlagged { msg_uid: u32, folder: Seq<char>, prev: bool, new: bool },
}

/// What a chat operation is.
#[allow(inconsistent_fields)]
pub enum ChatView {
    LeaveRoom { room_id: Seq<char> },
    AcceptInvite { room_id: Seq<char> },
    RejectInvite { room_id: Seq<char> },
    KickMember { room_id: Seq<char>, user_id: Seq<char>, reason: Option<Seq<char>> },
    BanMember { room_id: Seq<char>, user_id: Seq<char>, reason: Option<Seq<char>> },
    PostMessage { room_id: Seq<char>, event_id: Seq<char>, body: Seq<char> },
}

/// What a step of the timeline is.
#[allow(inconsistent_fields)]
pub enum EntryView {
    Navigate {
        provider_idx: usize,
        from_id: Seq<usize>,
        to_id: Seq<usize>,
        from_path: Option<Seq<char>>,
        to_path: Option<Seq<char>>,
        kind: NavKind,
    },
    TextChunk { id: Seq<usize>, before: Node, after: Node, chunk_seq: u32 },
    Structure { id: Seq<usize>, op: StructuralOp, payload: PayloadView },
    FsOp {
        provider_idx: usize,
        id: Seq<usize>,
        op: FsOpKind,
        before: Option<Node>,
        after: Option<Node>,
        side_effect: SideEffectView,
    },
    ImapOp { provider_idx: usize, id: Seq<usize>, op: ImapView },
    ChatOp { provider_idx: usize, id: Seq<usize>, op: ChatView },
    ProviderOp { provider_idx: usize, command: Seq<char>, payload: Node, label: Seq<char> },
}

impl View for StructuralPayload {
    type V = PayloadView;

    open spec fn view(&self) -> PayloadView {
        match self {
            StructuralPayload::Inserted(e) => PayloadView::Inserted(e@),
            StructuralPayload::Removed(e) => PayloadView::Removed(e@),
            StructuralPayload::Pasted { before, after } => PayloadView::Pasted {
                before: before@,
                after: after@,
            },
            StructuralPayload::Replaced { before, after } => PayloadView::Replaced {
                before: before@,
                after: after@,
            },
        }
    }
}

pub open spec fn trash_view(t: TrashedTree) -> TrashView
    decreases t,
{
    match t {
        TrashedTree::File(bytes) => TrashView::File(bytes@),
        TrashedTree::Dir(entries) => TrashView::Dir(
            Seq::new(
                entries@.len(),
                |i: int|
                    if 0 <= i < entries@.len() {
                        (entries@[i].0@, trash_view(entries@[i].1))
                    } else {
                        arbitrary()
                    },
            ),
        ),
    }
}

impl View for TrashedTree {
    type V = TrashView;

    open spec fn view(&self) -> TrashView {
        trash_view(*self)
    }
}

impl View for FsSideEffect {
    type V = SideEffectView;

    open spec fn view(&self) -> SideEffectView {
        match self {
            FsSideEffect::NoSideEffect => SideEffectView::NoSideEffect,
            FsSideEffect::TrashedFile {
                original_path,
                content_snapshot,
            } => SideEffectView::TrashedFile {
                original_path: original_path@,
                content_snapshot: content_snapshot@,
            },
            FsSideEffect::TrashedDir { original_path, content_tree } => SideEffectView::TrashedDir {
                original_path: original_path@,
                content_tree: content_tree@,
            },
            FsSideEffect::RenameOnly { from, to } => SideEffectView::RenameOnly {
                from: from@,
                to: to@,
            },
        }
    }
}

impl View for ImapOpKind {
    type V = ImapView;

    open spec fn view(&self) -> ImapView {
        match self {
            ImapOpKind::Trash { msg_id, src_folder, trash_folder } => ImapView::Trash {
                msg_id: msg_id@,
                src_folder: src_folder@,
                trash_folder: trash_folder@,
            },
            ImapOpKind::Archive { msg_id, src_folder, archive_folder } => ImapView::Archive {
                msg_id: msg_id@,
                src_folder: src_folder@,
                archive_folder: archive_folder@,
            },
            ImapOpKind::Move { msg_id, src_folder, dst_folder } => ImapView::Move {
                msg_id: msg_id@,
                src_folder: src_folder@,
                dst_folder: dst_folder@,
            },
            ImapOpKind::SetSeen { msg_uid, folder, prev, new } => ImapView::SetSeen {
                msg_uid: *msg_uid,
                folder: folder@,
                prev: *prev,
                new: *new,
            },
            ImapOpKind::SetFlagged { msg_uid, folder, prev, new } => ImapView::SetFlagged {
                msg_uid: *msg_uid,
                folder: folder@,
                prev: *prev,
                new: *new,
            },
        }
    }
}

impl View for ChatOpKind {
    type V = ChatView;

    open spec fn view(&self) -> ChatView {
        match self {
            ChatOpKind::LeaveRoom { room_id } => ChatView::LeaveRoom { room_id: room_id@ },
            ChatOpKind::AcceptInvite { room_id } => ChatView::AcceptInvite { room_id: room_id@ },
            ChatOpKind::RejectInvite { room_id } => ChatView::RejectInvite { room_id: room_id@ },
            ChatOpKind::KickMember { room_id, user_id, reason } => ChatView::KickMember {
                room_id: room_id@,
                user_id: user_id@,
                reason: text::opt_text(*reason),
            },
            ChatOpKind::BanMember { room_id, user_id, reason } => ChatView::BanMember {
                room_id: room_id@,
                user_id: user_id@,
                reason: text::opt_text(*reason),
            },
            ChatOpKind::PostMessage { room_id, event_id, body } => ChatView::PostMessage {
                room_id: room_id@,
                event_id: event_id@,
                body: body@,
            },
        }
    }
}

impl View for TimelineEntry {
    type V = EntryView;

    open spec fn view(&self) -> EntryView {
        match self {
            TimelineEntry::Navigate { provider_idx, from_id, to_id, from_path, to_path, kind } =>
                EntryView::Navigate {
                provider_idx: *provider_idx,
                from_id: from_id@,
                to_id: to_id@,
                from_path: text::opt_text(*from_path),
                to_path: text::opt_text(*to_path),
                kind: *kind,
            },
            TimelineEntry::TextChunk { id, before, after, chunk_seq } => EntryView::TextChunk {
                id: id@,
                before: before@,
                after: after@,
                chunk_seq: *chunk_seq,
            },
            TimelineEntry::Structure { id, op, payload } => EntryView::Structure {
                id: id@,
                op: *op,
                payload: payload@,
            },
            TimelineEntry::FsOp { provider_idx, id, op, before, after, side_effect } =>
                EntryView::FsOp {
                provider_idx: *provider_idx,
                id: id@,
                op: *op,
                before: ffon::opt_node(*before),
                after: ffon::opt_node(*after),
                side_effect: side_effect@,
            },
            TimelineEntry::ImapOp { provider_idx, id, op } => EntryView::ImapOp {
                provider_idx: *provider_idx,
                id: id@,
                op: op@,
            },
            TimelineEntry::ChatOp { provider_idx, id, op } => EntryView::ChatOp {
                provider_idx: *provider_idx,
                id: id@,
                op: op@,
            },
            TimelineEntry::ProviderOp { provider_idx, command, payload, label } =>
                EntryView::ProviderOp {
                provider_idx: *provider_idx,
                command: command@,
                payload: payload@,
                label: label@,
            },
        }
    }
}

impl Clone for StructuralPayload {
    fn clone(&self) -> (res: Self)
        ensures
            res@ == self@,
    {
        match self {
            StructuralPayload::Inserted(e) => StructuralPayload::Inserted(e.clone()),
            StructuralPayload::Removed(e) => StructuralPayload::Removed(e.clone()),
            StructuralPayload::Pasted { before, after } => StructuralPayload::Pasted {
                before: before.clone(),
                after: after.clone(),
            },
            StructuralPayload::Replaced { before, after } => StructuralPayload::Replaced {
                before: before.clone(),
                after: after.clone(),
            },
        }
    }
}

impl Clone for TrashedTree {
    fn clone(&self) -> (res: Self)
        ensures
            res@ == self@,
        decreases self,
    {
        match self {
            TrashedTree::File(bytes) => {
                TrashedTree::File(vstd::slice::slice_to_vec(bytes.as_slice()))
            },
            TrashedTree::Dir(entries) => {
                let copy = clone_trashed(entries);
                let res = TrashedTree::Dir(copy);
                assert(res@->Dir_0 =~= self@->Dir_0);
                res
            },
        }
    }
}

fn clone_trashed(entries: &Vec<(String, TrashedTree)>) -> (copy: Vec<(String, TrashedTree)>)
    ensures
        copy@.len() == entries@.len(),
        forall|k: int|
            0 <= k < entries@.len() ==> (#[trigger] copy@[k]).0@ == entries@[k].0@ && trash_view(
                copy@[k].1,
            ) == trash_view(entries@[k].1),
    decreases entries,
{
    let mut copy: Vec<(String, TrashedTree)> = Vec::new();
    let mut i: usize = 0;
    while i < entries.len()
        invariant
            i <= entries.len(),
            copy.len() == i,
            forall|k: int|
                0 <= k < i ==> (#[trigger] copy@[k]).0@ == entries@[k].0@ && trash_view(copy@[k].1)
                    == trash_view(entries@[k].1),
        decreases entries.len() - i,
    {
        let pair = &entries[i];
        assert(decreases_to!(entries@ => entries@[i as int]));
        assert(decreases_to!(entries@[i as int] => entries@[i as int].1));
        let name = pair.0.clone();
        let tree = pair.1.clone();
        copy.push((name, tree));
        i += 1;
    }
    copy
}

impl Clone for FsSideEffect {
    fn clone(&self) -> (res: Self)
        ensures
            res@ == self@,
    {
        match self {
            FsSideEffect::NoSideEffect => FsSideEffect::NoSideEffect,
            FsSideEffect::TrashedFile {
                original_path,
                content_snapshot,
            } => FsSideEffect::TrashedFile {
                original_path: original_path.clone(),
                content_snapshot: vstd::slice::slice_to_vec(content_snapshot.as_slice()),
            },
            FsSideEffect::TrashedDir { original_path, content_tree } => FsSideEffect::TrashedDir {
                original_path: original_path.clone(),
                content_tree: content_tree.clone(),
            },
            FsSideEffect::RenameOnly { from, to } => FsSideEffect::RenameOnly {
                from: from.clone(),
                to: to.clone(),
            },
        }
    }
}

impl Clone for ImapOpKind {
    fn clone(&self) -> (res: Self)
        ensures
            res@ == self@,
    {
        match self {
            ImapOpKind::Trash { msg_id, src_folder, trash_folder } => ImapOpKind::Trash {
                msg_id: msg_id.clone(),
                src_folder: src_folder.clone(),
                trash_folder: trash_folder.clone(),
            },
            ImapOpKind::Archive { msg_id, src_folder, archive_folder } => ImapOpKind::Archive {
                msg_id: msg_id.clone(),
                src_folder: src_folder.clone(),
                archive_folder: archive_folder.clone(),
            },
            ImapOpKind::Move { msg_id, src_folder, dst_folder } => ImapOpKind::Move {
                msg_id: msg_id.clone(),
                src_folder: src_folder.clone(),
                dst_folder: dst_folder.clone(),
            },
            ImapOpKind::SetSeen { msg_uid, folder, prev, new } => ImapOpKind::SetSeen {
                msg_uid: *msg_uid,
                folder: folder.clone(),
                prev: *prev,
                new: *new,
            },
            ImapOpKind::SetFlagged { msg_uid, folder, prev, new } => ImapOpKind::SetFlagged {
                msg_uid: *msg_uid,
                folder: folder.clone(),
                prev: *prev,
                new: *new,
            },
        }
    }
}

impl Clone for ChatOpKind {
    fn clone(&self) -> (res: Self)
        ensures
            res@ == self@,
    {
        match self {
            ChatOpKind::LeaveRoom { room_id } => ChatOpKind::LeaveRoom { room_id: room_id.clone() },
            ChatOpKind::AcceptInvite { room_id } => ChatOpKind::AcceptInvite {
                room_id: room_id.clone(),
            },
            ChatOpKind::RejectInvite { room_id } => ChatOpKind::RejectInvite {
                room_id: room_id.clone(),
            },
            ChatOpKind::KickMember { room_id, user_id, reason } => ChatOpKind::KickMember {
                room_id: room_id.clone(),
                user_id: user_id.clone(),
                reason: text::clone_opt(reason),
            },
            ChatOpKind::BanMember { room_id, user_id, reason } => ChatOpKind::BanMember {
                room_id: room_id.clone(),
                user_id: user_id.clone(),
                reason: text::clone_opt(reason),
            },
            ChatOpKind::PostMessage { room_id, event_id, body } => ChatOpKind::PostMessage {
                room_id: room_id.clone(),
                event_id: event_id.clone(),
                body: body.clone(),
            },
        }
    }
}

/// A copy of an optional element.
pub fn clone_opt_element(e: &Option<FfonElement>) -> (res: Option<FfonElement>)
    ensures
        ffon::opt_node(res) == ffon::opt_node(*e),
{
    match e {
        Some(x) => Some(x.clone()),
        None => None,
    }
}

impl Clone for TimelineEntry {
    fn clone(&self) -> (res: Self)
        ensures
            res@ == self@,
    {
        match self {
            TimelineEntry::Navigate { provider_idx, from_id, to_id, from_path, to_path, kind } =>
                TimelineEntry::Navigate {
                provider_idx: *provider_idx,
                from_id: from_id.clone(),
                to_id: to_id.clone(),
                from_path: text::clone_opt(from_path),
                to_path: text::clone_opt(to_path),
                kind: *kind,
            },
            TimelineEntry::TextChunk { id, before, after, chunk_seq } => TimelineEntry::TextChunk {
                id: id.clone(),
                before: before.clone(),
                after: after.clone(),
                chunk_seq: *chunk_seq,
            },
            TimelineEntry::Structure { id, op, payload } => TimelineEntry::Structure {
                id: id.clone(),
                op: *op,
                payload: payload.clone(),
            },
            TimelineEntry::FsOp { provider_idx, id, op, before, after, side_effect } =>
                TimelineEntry::FsOp {
                provider_idx: *provider_idx,
                id: id.clone(),
                op: *op,
                before: clone_opt_element(before),
                after: clone_opt_element(after),
                side_effect: side_effect.clone(),
            },
            TimelineEntry::ImapOp { provider_idx, id, op } => TimelineEntry::ImapOp {
                provider_idx: *provider_idx,
                id: id.clone(),
                op: op.clone(),
            },
            TimelineEntry::ChatOp { provider_idx, id, op } => TimelineEntry::ChatOp {
                provider_idx: *provider_idx,
                id: id.clone(),
                op: op.clone(),
            },
            TimelineEntry::ProviderOp { provider_idx, command, payload, label } =>
                TimelineEntry::ProviderOp {
                provider_idx: *provider_idx,
                command: command.clone(),
                payload: payload.clone(),
                label: label.clone(),
            },
        }
    }
}

} // verus!
