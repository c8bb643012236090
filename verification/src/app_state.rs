//! The state of the user interface.

use vstd::prelude::*;

use crate::accesskit_sdl;
use crate::caret::CaretState;
use crate::ffon;
use crate::ffon::{FfonElement, IdArray, Node};
use crate::markup;
use crate::text;
use crate::timeline::{EntryView, TimelineEntry};

verus! {

/// How many frames are prepared at a time.
pub const MAX_FRAMES_IN_FLIGHT: usize = 2;

/// The title of the window.
pub const WINDOW_TITLE: &'static str = "sicompass";

/// The width of a new window.
pub const WINDOW_WIDTH: u32 = 800;

/// The height of a new window.
pub const WINDOW_HEIGHT: u32 = 600;

/// How many steps a timeline holds.
pub const TIMELINE_CAPACITY: usize = 1024;

/// How long a pause in typing may be within one step of the timeline.
pub const TEXT_CHUNK_IDLE_MS: u64 = 500;

/// The theme that the user chose.
#[derive(Debug, Clone, Copy, PartialEq, Eq, Structural)]
pub enum PaletteTheme {
    Dark,
    Light,
}

impl Default for PaletteTheme {
    fn default() -> (res: Self)
        ensures
            res == PaletteTheme::Dark,
    {
        PaletteTheme::Dark
    }
}

/// The colors of everything that is drawn, as 0xRRGGBBAA.
#[derive(Debug, Clone, Copy, PartialEq, Eq, Structural)]
pub struct ColorPalette {
    pub background: u32,
    pub text: u32,
    pub header_sep: u32,
    pub selected: u32,
    pub ext_search: u32,
    pub scroll_search: u32,
    pub error: u32,
}

/// The colors of a theme.
pub open spec fn theme_palette(theme: PaletteTheme) -> ColorPalette {
    match theme {
        PaletteTheme::Dark => ColorPalette {
            background: 0x000000FF,
            text: 0xFFFFFFFF,
            header_sep: 0x333333FF,
            selected: 0x2D4A28FF,
            ext_search: 0x696969FF,
            scroll_search: 0x264F78FF,
            error: 0xFF0000FF,
        },
        PaletteTheme::Light => ColorPalette {
            background: 0xFFFFFFFF,
            text: 0x000000FF,
            header_sep: 0xE0E0E0FF,
            selected: 0xC0ECB8FF,
            ext_search: 0x333333FF,
            scroll_search: 0xA8C7FAFF,
            error: 0xFF0000FF,
        },
    }
}

impl PaletteTheme {
    /// The colors of the theme.
    pub fn palette(self) -> (r: ColorPalette)
        ensures
            r == theme_palette(self),
    {
        match self {
            PaletteTheme::Dark => ColorPalette {
                background: 0x000000FF,
                text: 0xFFFFFFFF,
                header_sep: 0x333333FF,
                selected: 0x2D4A28FF,
                ext_search: 0x696969FF,
                scroll_search: 0x264F78FF,
                error: 0xFF0000FF,
            },
            PaletteTheme::Light => ColorPalette {
                background: 0xFFFFFFFF,
                text: 0x000000FF,
                header_sep: 0xE0E0E0FF,
                selected: 0xC0ECB8FF,
                ext_search: 0x333333FF,
                scroll_search: 0xA8C7FAFF,
                error: 0xFF0000FF,
            },
        }
    }
}

/// What keys mean. Whether an edit works on the tree or through the provider
/// is decided by the provider, not by the mode.
#[derive(Debug, Clone, Copy, PartialEq, Eq, Structural)]
pub enum Coordinate {
    General,
    Insert,
    Normal,
    Visual,
    SimpleSearch,
    ExtendedSearch,
    Command,
    Scroll,
    ScrollSearch,
    ScrollPrefixSearch,
    InputSearch,
    Dashboard,
    Meta,
    TimelineView,
    /// The question whether to close a tab whose providers are busy.
    ConfirmCloseTab,
}

impl Default for Coordinate {
    fn default() -> (res: Self)
        ensures
            res == Coordinate::General,
    {
        Coordinate::General
    }
}

/// The English name of a mode.
pub open spec fn coordinate_name(c: Coordinate) -> Seq<char> {
    match c {
        Coordinate::General => "general mode"@,
        Coordinate::Insert => "insert mode"@,
        Coordinate::Normal => "normal mode"@,
        Coordinate::Visual => "visual mode"@,
        Coordinate::SimpleSearch => "search"@,
        Coordinate::ExtendedSearch => "extended search"@,
        Coordinate::Command => "command"@,
        Coordinate::Scroll => "scroll mode"@,
        Coordinate::ScrollSearch => "scroll search"@,
        Coordinate::ScrollPrefixSearch => "scroll prefix search"@,
        Coordinate::InputSearch => "input search"@,
        Coordinate::Dashboard => "dashboard"@,
        Coordinate::Meta => "meta"@,
        Coordinate::TimelineView => "timeline"@,
        Coordinate::ConfirmCloseTab => "confirm close tab"@,
    }
}

/// The key under which the name of a mode is translated.
pub open spec fn coordinate_key(c: Coordinate) -> Seq<char> {
    match c {
        Coordinate::General => "mode-general"@,
        Coordinate::Insert => "mode-insert"@,
        Coordinate::Normal => "mode-normal"@,
        Coordinate::Visual => "mode-visual"@,
        Coordinate::SimpleSearch => "mode-search"@,
        Coordinate::ExtendedSearch => "mode-extended-search"@,
        Coordinate::Command => "mode-command"@,
        Coordinate::Scroll => "mode-scroll"@,
        Coordinate::ScrollSearch => "mode-scroll-search"@,
        Coordinate::ScrollPrefixSearch => "mode-scroll-prefix-search"@,
        Coordinate::InputSearch => "mode-input-search"@,
        Coordinate::Dashboard => "mode-dashboard"@,
        Coordinate::Meta => "mode-meta"@,
        Coordinate::TimelineView => "mode-timeline"@,
        Coordinate::ConfirmCloseTab => "mode-confirm-close-tab"@,
    }
}

impl Coordinate {
    pub fn is_general(self) -> (r: bool)
        ensures
            r == (self == Coordinate::General),
    {
        match self {
            Coordinate::General => true,
            _ => false,
        }
    }

    /// The English name of the mode.
    pub fn as_str(self) -> (r: &'static str)
        ensures
            r@ == coordinate_name(self),
    {
        match self {
            Coordinate::General => "general mode",
            Coordinate::Insert => "insert mode",
            Coordinate::Normal => "normal mode",
            Coordinate::Visual => "visual mode",
            Coordinate::SimpleSearch => "search",
            Coordinate::ExtendedSearch => "extended search",
            Coordinate::Command => "command",
            Coordinate::Scroll => "scroll mode",
            Coordinate::ScrollSearch => "scroll search",
            Coordinate::ScrollPrefixSearch => "scroll prefix search",
            Coordinate::InputSearch => "input search",
            Coordinate::Dashboard => "dashboard",
            Coordinate::Meta => "meta",
            Coordinate::TimelineView => "timeline",
            Coordinate::ConfirmCloseTab => "confirm close tab",
        }
    }

    /// The key under which the name of the mode is translated.
    pub fn label_key(self) -> (r: &'static str)
        ensures
            r@ == coordinate_key(self),
    {
        match self {
            Coordinate::General => "mode-general",
            Coordinate::Insert => "mode-insert",
            Coordinate::Normal => "mode-normal",
            Coordinate::Visual => "mode-visual",
            Coordinate::SimpleSearch => "mode-search",
            Coordinate::ExtendedSearch => "mode-extended-search",
            Coordinate::Command => "mode-command",
            Coordinate::Scroll => "mode-scroll",
            Coordinate::ScrollSearch => "mode-scroll-search",
            Coordinate::ScrollPrefixSearch => "mode-scroll-prefix-search",
            Coordinate::InputSearch => "mode-input-search",
            Coordinate::Dashboard => "mode-dashboard",
            Coordinate::Meta => "mode-meta",
            Coordinate::TimelineView => "mode-timeline",
            Coordinate::ConfirmCloseTab => "mode-confirm-close-tab",
        }
    }
}

/// An edit that is to be done.
#[derive(Debug, Clone, Copy, PartialEq, Eq, Structural)]
pub enum Task {
    NoTask,
    Input,
    Append,
    AppendAppend,
    Insert,
    InsertInsert,
    Delete,
    ArrowUp,
    ArrowDown,
    ArrowLeft,
    ArrowRight,
    Cut,
    Copy,
    Paste,
}

impl Default for Task {
    fn default() -> (res: Self)
        ensures
            res == Task::NoTask,
    {
        Task::NoTask
    }
}

/// The name of a task.
pub open spec fn task_name(t: Task) -> Seq<char> {
    match t {
        Task::NoTask => "none"@,
        Task::Input => "input"@,
        Task::Append => "append"@,
        Task::AppendAppend => "append append"@,
        Task::Insert => "insert"@,
        Task::InsertInsert => "insert insert"@,
        Task::Delete => "delete"@,
        Task::ArrowUp => "up"@,
        Task::ArrowDown => "down"@,
        Task::ArrowLeft => "left"@,
        Task::ArrowRight => "right"@,
        Task::Cut => "cut"@,
        Task::Copy => "copy"@,
        Task::Paste => "paste"@,
    }
}

impl Task {
    pub fn as_str(self) -> (r: &'static str)
        ensures
            r@ == task_name(self),
    {
        match self {
            Task::NoTask => "none",
            Task::Input => "input",
            Task::Append => "append",
            Task::AppendAppend => "append append",
            Task::Insert => "insert",
            Task::InsertInsert => "insert insert",
            Task::Delete => "delete",
            Task::ArrowUp => "up",
            Task::ArrowDown => "down",
            Task::ArrowLeft => "left",
            Task::ArrowRight => "right",
            Task::Cut => "cut",
            Task::Copy => "copy",
            Task::Paste => "paste",
        }
    }
}

/// Whether an edit is new, or one that is undone or done again.
#[derive(Debug, Clone, Copy, PartialEq, Eq, Structural)]
pub enum History {
    NoHistory,
    Undo,
    Redo,
}

impl Default for History {
    fn default() -> (res: Self)
        ensures
            res == History::NoHistory,
    {
        History::NoHistory
    }
}

/// Which of the two lists of command mode is shown: the commands, or what the
/// chosen command offers.
#[derive(Debug, Clone, Copy, PartialEq, Eq, Structural)]
pub enum CommandPhase {
    NoCommand,
    Provider,
}

impl Default for CommandPhase {
    fn default() -> (res: Self)
        ensures
            res == CommandPhase::NoCommand,
    {
        CommandPhase::NoCommand
    }
}

/// An item of a list that a provider offers for a command.
pub struct ListItem {
    pub label: String,
    pub data: String,
}

/// What an item offered for a command is.
pub struct ListItemView {
    pub label: Seq<char>,
    pub data: Seq<char>,
}

impl View for ListItem {
    type V = ListItemView;

    open spec fn view(&self) -> ListItemView {
        ListItemView { label: self.label@, data: self.data@ }
    }
}

/// What a sequence of offered items is.
pub open spec fn offers(s: Seq<ListItem>) -> Seq<ListItemView> {
    Seq::new(s.len(), |i: int| s[i]@)
}

/// What is known of a provider: the answers to the questions that the user
/// interface asks it without changing it.
pub struct ProviderInfo {
    /// Which provider this is, for whoever holds the providers.
    pub handle: usize,
    pub name: String,
    pub display_name: String,
    pub current_path: String,
    /// Whether edits work on the tree.
    pub has_editor_semantics: bool,
    /// Whether the tree is fetched anew when the path changes.
    pub refresh_on_navigate: bool,
    pub needs_refresh: bool,
    pub path_is_filesystem: bool,
    pub dashboard_image_path: Option<String>,
    pub commands: Vec<String>,
    /// What the chosen command offers.
    pub command_items: Vec<ListItem>,
    /// The hints on shortcuts.
    pub meta: Vec<String>,
}

/// What is known of a provider, as values.
#[verifier::ext_equal]
pub struct ProviderView {
    pub handle: usize,
    pub name: Seq<char>,
    pub display_name: Seq<char>,
    pub current_path: Seq<char>,
    pub has_editor_semantics: bool,
    pub refresh_on_navigate: bool,
    pub needs_refresh: bool,
    pub path_is_filesystem: bool,
    pub dashboard_image_path: Option<Seq<char>>,
    pub commands: Seq<Seq<char>>,
    pub command_items: Seq<ListItemView>,
    pub meta: Seq<Seq<char>>,
}

impl View for ProviderInfo {
    type V = ProviderView;

    open spec fn view(&self) -> ProviderView {
        ProviderView {
            handle: self.handle,
            name: self.name@,
            display_name: self.display_name@,
            current_path: self.current_path@,
            has_editor_semantics: self.has_editor_semantics,
            refresh_on_navigate: self.refresh_on_navigate,
            needs_refresh: self.needs_refresh,
            path_is_filesystem: self.path_is_filesystem,
            dashboard_image_path: text::opt_text(self.dashboard_image_path),
            commands: text::texts(self.commands@),
            command_items: offers(self.command_items@),
            meta: text::texts(self.meta@),
        }
    }
}

/// An item of the list on the screen.
pub struct RenderListItem {
    /// Where the element is in the tree.
    pub id: IdArray,
    /// What is shown, with the prefix that tells the kind of the element.
    pub label: String,
    /// The path above a search result, or the image of an element.
    pub data: Option<String>,
    /// Where the provider has what the item stands for.
    pub nav_path: Option<String>,
}

/// What an item of the list is.
#[verifier::ext_equal]
pub struct ItemView {
    pub id: Seq<usize>,
    pub label: Seq<char>,
    pub data: Option<Seq<char>>,
    pub nav_path: Option<Seq<char>>,
}

impl View for RenderListItem {
    type V = ItemView;

    open spec fn view(&self) -> ItemView {
        ItemView {
            id: self.id@,
            label: self.label@,
            data: text::opt_text(self.data),
            nav_path: text::opt_text(self.nav_path),
        }
    }
}

impl Clone for RenderListItem {
    fn clone(&self) -> (res: Self)
        ensures
            res@ == self@,
    {
        RenderListItem {
            id: self.id.clone(),
            label: self.label.clone(),
            data: text::clone_opt(&self.data),
            nav_path: text::clone_opt(&self.nav_path),
        }
    }
}

/// What a list is.
pub open spec fn items(s: Seq<RenderListItem>) -> Seq<ItemView> {
    Seq::new(s.len(), |i: int| s[i]@)
}

/// The steps that can be undone and done again in one tab.
pub struct Timeline {
    pub entries: Vec<TimelineEntry>,
    /// How many steps are undone.
    pub position: usize,
    /// When the last typing was recorded.
    pub last_text_edit_at: Option<u64>,
    /// Where the last typing was.
    pub last_text_id: Option<IdArray>,
    pub next_chunk_seq: u32,
    /// Whether the next step starts a new entry in any case.
    pub coalesce_break: bool,
}

/// What a timeline is.
#[verifier::ext_equal]
pub struct TimelineState {
    pub entries: Seq<EntryView>,
    pub position: usize,
    pub last_text_edit_at: Option<u64>,
    pub last_text_id: Option<Seq<usize>>,
    pub next_chunk_seq: u32,
    pub coalesce_break: bool,
}

/// What a sequence of steps is.
pub open spec fn entries(s: Seq<TimelineEntry>) -> Seq<EntryView> {
    Seq::new(s.len(), |i: int| s[i]@)
}

/// What an optional path is.
pub open spec fn opt_id(id: Option<IdArray>) -> Option<Seq<usize>> {
    match id {
        Some(x) => Some(x@),
        None => None,
    }
}

impl View for Timeline {
    type V = TimelineState;

    open spec fn view(&self) -> TimelineState {
        TimelineState {
            entries: entries(self.entries@),
            position: self.position,
            last_text_edit_at: self.last_text_edit_at,
            last_text_id: opt_id(self.last_text_id),
            next_chunk_seq: self.next_chunk_seq,
            coalesce_break: self.coalesce_break,
        }
    }
}

/// The timeline of a new tab.
pub open spec fn empty_timeline() -> TimelineState {
    TimelineState {
        entries: Seq::empty(),
        position: 0,
        last_text_edit_at: None,
        last_text_id: None,
        next_chunk_seq: 0,
        coalesce_break: false,
    }
}

impl Timeline {
    pub fn new() -> (res: Self)
        ensures
            res@ == empty_timeline(),
    {
        Timeline {
            entries: Vec::new(),
            position: 0,
            last_text_edit_at: None,
            last_text_id: None,
            next_chunk_seq: 0,
            coalesce_break: false,
        }
    }
}

/// One tab. The providers and trees of the active tab are those on the
/// screen; those of the others wait here.
pub struct TabSnapshot {
    pub current_id: IdArray,
    /// The path of the provider that `current_id` is in.
    pub provider_path: String,
    pub providers: Vec<ProviderInfo>,
    pub ffon: Vec<FfonElement>,
}

/// What a tab is.
#[verifier::ext_equal]
pub struct TabView {
    pub current_id: Seq<usize>,
    pub provider_path: Seq<char>,
    pub providers: Seq<ProviderView>,
    pub ffon: Seq<Node>,
}

/// What is known of a sequence of providers.
pub open spec fn infos(s: Seq<ProviderInfo>) -> Seq<ProviderView> {
    Seq::new(s.len(), |i: int| s[i]@)
}

impl View for TabSnapshot {
    type V = TabView;

    open spec fn view(&self) -> TabView {
        TabView {
            current_id: self.current_id@,
            provider_path: self.provider_path@,
            providers: infos(self.providers@),
            ffon: ffon::forest(self.ffon@),
        }
    }
}

impl TabSnapshot {
    /// A tab with nothing waiting in it.
    pub fn nav_only(current_id: IdArray, provider_path: String) -> (res: Self)
        ensures
            res@ == (TabView {
                current_id: current_id@,
                provider_path: provider_path@,
                providers: Seq::empty(),
                ffon: Seq::empty(),
            }),
    {
        TabSnapshot { current_id, provider_path, providers: Vec::new(), ffon: Vec::new() }
    }
}

/// What a sequence of rows of numbers is.
pub open spec fn rows(s: Seq<Vec<u32>>) -> Seq<Seq<u32>> {
    Seq::new(s.len(), |i: int| s[i]@)
}

/// What a sequence of tabs is.
pub open spec fn tabs(s: Seq<TabSnapshot>) -> Seq<TabView> {
    Seq::new(s.len(), |i: int| s[i]@)
}

/// What a sequence of timelines is.
pub open spec fn timelines(s: Seq<Timeline>) -> Seq<TimelineState> {
    Seq::new(s.len(), |i: int| s[i]@)
}

/// The state of the user interface.
pub struct AppRenderer {
    /// One root element for each provider.
    pub ffon: Vec<FfonElement>,
    pub providers: Vec<ProviderInfo>,
    pub current_id: IdArray,
    pub previous_id: IdArray,
    pub coordinate: Coordinate,
    /// The mode to go back to.
    pub previous_coordinate: Coordinate,
    pub total_list: Vec<RenderListItem>,
    /// Which items match the search, best first; empty where nothing is
    /// searched.
    pub filtered_list_indices: Vec<usize>,
    /// For each item that matches, the places in its label that match.
    pub fuzzy_match_positions: Vec<Vec<u32>>,
    pub list_index: usize,
    /// The text that is being edited.
    pub input_buffer: String,
    /// Where the cursor is in it, as a byte offset.
    pub cursor_position: usize,
    /// Where the selection starts, as a byte offset.
    pub selection_anchor: Option<usize>,
    pub input_prefix: String,
    pub input_suffix: String,
    pub scroll_offset: i32,
    pub text_scroll_offset: i32,
    pub text_scroll_total_height: i32,
    pub input_search_scroll_offset: i32,
    pub scroll_search_match_count: usize,
    pub scroll_search_current_match: usize,
    pub scroll_search_needs_position: bool,
    pub scroll_search_snap: bool,
    pub dashboard_image_path: String,
    pub last_keypress_time: u64,
    pub search_string: String,
    pub caret: CaretState,
    pub clipboard: Option<FfonElement>,
    pub file_clipboard_path: String,
    pub file_clipboard_is_cut: bool,
    pub needs_redraw: bool,
    /// Whether the text that is typed names a file or directory to create.
    pub placeholder_insert_mode: bool,
    pub window_height: i32,
    pub cached_line_height: i32,
    /// The hints on shortcuts above the providers.
    pub root_meta: Vec<String>,
    pub error_message: String,
    /// The last error that was spoken.
    pub last_spoken_error: String,
    pub current_command: CommandPhase,
    pub provider_command_name: String,
    pub palette_theme: PaletteTheme,
    pub current_save_path: String,
    pub pending_file_browser_save_as: bool,
    pub pending_file_browser_open: bool,
    pub save_as_source_root_idx: usize,
    pub save_as_return_id: IdArray,
    pub save_folder_path: String,
    /// What a screen reader is to say.
    pub pending_announcement: Option<String>,
    pub announcement_parity: bool,
    /// Whether what is being edited is a password.
    pub input_is_password: bool,
    pub tabs: Vec<TabSnapshot>,
    pub active_tab: usize,
    /// One timeline for each tab.
    pub tab_timelines: Vec<Timeline>,
    /// Whether a step is being undone or done again.
    pub in_history_action: bool,
}

/// The state of the user interface, as values.
pub struct Ui {
    pub ffon: Seq<Node>,
    pub providers: Seq<ProviderView>,
    pub current_id: Seq<usize>,
    pub previous_id: Seq<usize>,
    pub coordinate: Coordinate,
    pub previous_coordinate: Coordinate,
    pub total_list: Seq<ItemView>,
    pub filtered_list_indices: Seq<usize>,
    pub fuzzy_match_positions: Seq<Seq<u32>>,
    pub list_index: usize,
    pub input_buffer: Seq<char>,
    pub cursor_position: usize,
    pub selection_anchor: Option<usize>,
    pub input_prefix: Seq<char>,
    pub input_suffix: Seq<char>,
    pub scroll_offset: i32,
    pub text_scroll_offset: i32,
    pub text_scroll_total_height: i32,
    pub input_search_scroll_offset: i32,
    pub scroll_search_match_count: usize,
    pub scroll_search_current_match: usize,
    pub scroll_search_needs_position: bool,
    pub scroll_search_snap: bool,
    pub dashboard_image_path: Seq<char>,
    pub last_keypress_time: u64,
    pub search_string: Seq<char>,
    pub caret: CaretState,
    pub clipboard: Option<Node>,
    pub file_clipboard_path: Seq<char>,
    pub file_clipboard_is_cut: bool,
    pub needs_redraw: bool,
    pub placeholder_insert_mode: bool,
    pub window_height: i32,
    pub cached_line_height: i32,
    pub root_meta: Seq<Seq<char>>,
    pub error_message: Seq<char>,
    pub last_spoken_error: Seq<char>,
    pub current_command: CommandPhase,
    pub provider_command_name: Seq<char>,
    pub palette_theme: PaletteTheme,
    pub current_save_path: Seq<char>,
    pub pending_file_browser_save_as: bool,
    pub pending_file_browser_open: bool,
    pub save_as_source_root_idx: usize,
    pub save_as_return_id: Seq<usize>,
    pub save_folder_path: Seq<char>,
    pub pending_announcement: Option<Seq<char>>,
    pub announcement_parity: bool,
    pub input_is_password: bool,
    pub tabs: Seq<TabView>,
    pub active_tab: usize,
    pub tab_timelines: Seq<TimelineState>,
    pub in_history_action: bool,
}

impl View for AppRenderer {
    type V = Ui;

    open spec fn view(&self) -> Ui {
        Ui {
            ffon: ffon::forest(self.ffon@),
            providers: infos(self.providers@),
            current_id: self.current_id@,
            previous_id: self.previous_id@,
            coordinate: self.coordinate,
            previous_coordinate: self.previous_coordinate,
            total_list: items(self.total_list@),
            filtered_list_indices: self.filtered_list_indices@,
            fuzzy_match_positions: rows(self.fuzzy_match_positions@),
            list_index: self.list_index,
            input_buffer: self.input_buffer@,
            cursor_position: self.cursor_position,
            selection_anchor: self.selection_anchor,
            input_prefix: self.input_prefix@,
            input_suffix: self.input_suffix@,
            scroll_offset: self.scroll_offset,
            text_scroll_offset: self.text_scroll_offset,
            text_scroll_total_height: self.text_scroll_total_height,
            input_search_scroll_offset: self.input_search_scroll_offset,
            scroll_search_match_count: self.scroll_search_match_count,
            scroll_search_current_match: self.scroll_search_current_match,
            scroll_search_needs_position: self.scroll_search_needs_position,
            scroll_search_snap: self.scroll_search_snap,
            dashboard_image_path: self.dashboard_image_path@,
            last_keypress_time: self.last_keypress_time,
            search_string: self.search_string@,
            caret: self.caret,
            clipboard: ffon::opt_node(self.clipboard),
            file_clipboard_path: self.file_clipboard_path@,
            file_clipboard_is_cut: self.file_clipboard_is_cut,
            needs_redraw: self.needs_redraw,
            placeholder_insert_mode: self.placeholder_insert_mode,
            window_height: self.window_height,
            cached_line_height: self.cached_line_height,
            root_meta: text::texts(self.root_meta@),
            error_message: self.error_message@,
            last_spoken_error: self.last_spoken_error@,
            current_command: self.current_command,
            provider_command_name: self.provider_command_name@,
            palette_theme: self.palette_theme,
            current_save_path: self.current_save_path@,
            pending_file_browser_save_as: self.pending_file_browser_save_as,
            pending_file_browser_open: self.pending_file_browser_open,
            save_as_source_root_idx: self.save_as_source_root_idx,
            save_as_return_id: self.save_as_return_id@,
            save_folder_path: self.save_folder_path@,
            pending_announcement: text::opt_text(self.pending_announcement),
            announcement_parity: self.announcement_parity,
            input_is_password: self.input_is_password,
            tabs: tabs(self.tabs@),
            active_tab: self.active_tab,
            tab_timelines: timelines(self.tab_timelines@),
            in_history_action: self.in_history_action,
        }
    }
}

/// Every tab has its timeline, one tab is the active one, and no timeline has
/// more undone steps than steps.
pub open spec fn tabs_ok(u: Ui) -> bool {
    timelines_ok(u.tabs.len(), u.active_tab, u.tab_timelines)
}

/// Whether there is a timeline for each of `n` tabs, `active` is one of them,
/// and no timeline has more undone steps than steps.
#[verifier::opaque]
pub open spec fn timelines_ok(n: nat, active: usize, timelines: Seq<TimelineState>) -> bool {
    &&& n == timelines.len()
    &&& active < timelines.len()
    &&& forall|i: int|
        0 <= i < timelines.len() ==> (#[trigger] timelines[i]).position
            <= timelines[i].entries.len()
}

/// The user interface before anything is loaded.
pub open spec fn new_ui() -> Ui {
    Ui {
        ffon: Seq::empty(),
        providers: Seq::empty(),
        current_id: seq![0usize],
        previous_id: Seq::empty(),
        coordinate: Coordinate::General,
        previous_coordinate: Coordinate::General,
        total_list: Seq::empty(),
        filtered_list_indices: Seq::empty(),
        fuzzy_match_positions: Seq::empty(),
        list_index: 0,
        input_buffer: Seq::empty(),
        cursor_position: 0,
        selection_anchor: None,
        input_prefix: Seq::empty(),
        input_suffix: Seq::empty(),
        scroll_offset: 0,
        text_scroll_offset: 0,
        text_scroll_total_height: 0,
        input_search_scroll_offset: 0,
        scroll_search_match_count: 0,
        scroll_search_current_match: 0,
        scroll_search_needs_position: false,
        scroll_search_snap: false,
        dashboard_image_path: Seq::empty(),
        last_keypress_time: 0,
        search_string: Seq::empty(),
        caret: CaretState { visible: false, last_toggle_ms: 0 },
        clipboard: None,
        file_clipboard_path: Seq::empty(),
        file_clipboard_is_cut: false,
        needs_redraw: true,
        placeholder_insert_mode: false,
        window_height: WINDOW_HEIGHT as i32,
        cached_line_height: 20,
        root_meta: Seq::empty(),
        error_message: Seq::empty(),
        last_spoken_error: Seq::empty(),
        current_command: CommandPhase::NoCommand,
        provider_command_name: Seq::empty(),
        palette_theme: PaletteTheme::Dark,
        current_save_path: Seq::empty(),
        pending_file_browser_save_as: false,
        pending_file_browser_open: false,
        save_as_source_root_idx: 0,
        save_as_return_id: Seq::empty(),
        save_folder_path: Seq::empty(),
        pending_announcement: None,
        announcement_parity: false,
        input_is_password: false,
        tabs: seq![
            TabView {
                current_id: seq![0usize],
                provider_path: Seq::empty(),
                providers: Seq::empty(),
                ffon: Seq::empty(),
            },
        ],
        active_tab: 0,
        tab_timelines: seq![empty_timeline()],
        in_history_action: false,
    }
}

impl AppRenderer {
    /// The user interface before anything is loaded.
    pub fn new() -> (res: Self)
        ensures
            res@ == new_ui(),
            tabs_ok(res@),
    {
        let mut tabs: Vec<TabSnapshot> = Vec::new();
        tabs.push(TabSnapshot::nav_only(IdArray::single(0), String::new()));
        let mut tab_timelines: Vec<Timeline> = Vec::new();
        tab_timelines.push(Timeline::new());
        let res = AppRenderer {
            ffon: Vec::new(),
            providers: Vec::new(),
            current_id: IdArray::single(0),
            previous_id: IdArray::new(),
            coordinate: Coordinate::General,
            previous_coordinate: Coordinate::General,
            total_list: Vec::new(),
            filtered_list_indices: Vec::new(),
            fuzzy_match_positions: Vec::new(),
            list_index: 0,
            input_buffer: String::new(),
            cursor_position: 0,
            selection_anchor: None,
            input_prefix: String::new(),
            input_suffix: String::new(),
            scroll_offset: 0,
            text_scroll_offset: 0,
            text_scroll_total_height: 0,
            input_search_scroll_offset: 0,
            scroll_search_match_count: 0,
            scroll_search_current_match: 0,
            scroll_search_needs_position: false,
            scroll_search_snap: false,
            dashboard_image_path: String::new(),
            last_keypress_time: 0,
            search_string: String::new(),
            caret: CaretState::new(),
            clipboard: None,
            file_clipboard_path: String::new(),
            file_clipboard_is_cut: false,
            needs_redraw: true,
            placeholder_insert_mode: false,
            window_height: WINDOW_HEIGHT as i32,
            cached_line_height: 20,
            root_meta: Vec::new(),
            error_message: String::new(),
            last_spoken_error: String::new(),
            current_command: CommandPhase::NoCommand,
            provider_command_name: String::new(),
            palette_theme: PaletteTheme::Dark,
            current_save_path: String::new(),
            pending_file_browser_save_as: false,
            pending_file_browser_open: false,
            save_as_source_root_idx: 0,
            save_as_return_id: IdArray::new(),
            save_folder_path: String::new(),
            pending_announcement: None,
            announcement_parity: false,
            input_is_password: false,
            tabs,
            active_tab: 0,
            tab_timelines,
            in_history_action: false,
        };
        proof {
            reveal(timelines_ok);
            let v = res@;
            assert(v.ffon =~= Seq::<Node>::empty());
            assert(v.providers =~= Seq::<ProviderView>::empty());
            assert(v.current_id =~= seq![0usize]);
            assert(v.total_list =~= Seq::<ItemView>::empty());
            assert(v.fuzzy_match_positions =~= Seq::<Seq<u32>>::empty());
            assert(v.root_meta =~= Seq::<Seq<char>>::empty());
            assert(v.tabs =~= new_ui().tabs);
            assert(v.tab_timelines =~= new_ui().tab_timelines);
        }
        res
    }

    /// The timeline of the active tab.
    pub fn active_timeline(&self) -> (r: &Timeline)
        requires
            tabs_ok(self@),
        ensures
            r@ == self@.tab_timelines[self@.active_tab as int],
            r@.position <= r@.entries.len(),
    {
        proof {
            reveal(timelines_ok);
        }
        &self.tab_timelines[self.active_tab]
    }

    /// The timeline of the active tab, to be changed in place.
    pub fn active_timeline_mut(&mut self) -> (r: &mut Timeline)
        requires
            tabs_ok(old(self)@),
        ensures
            r@ == old(self)@.tab_timelines[old(self)@.active_tab as int],
            final(self)@ == with_timeline(old(self)@, final(r)@),
    {
        proof {
            reveal(timelines_ok);
        }
        let i: usize = self.active_tab;
        let ghost before = self.tab_timelines@;
        let r = &mut self.tab_timelines[i];
        proof {
            assert(timelines(before.update(i as int, *final(r))) =~= timelines(before).update(
                i as int,
                final(r)@,
            ));
        }
        r
    }
}

/// `u` with the timeline of the active tab replaced.
pub open spec fn with_timeline(u: Ui, tl: TimelineState) -> Ui {
    Ui { tab_timelines: u.tab_timelines.update(u.active_tab as int, tl), ..u }
}

/// `sicompass_sdk::localize::t`: the text for a key in the language of the
/// user interface, or the key where there is none. The language can change
/// between two calls, so nothing is said of the text here.
#[verifier::external_body]
fn translate(key: &str) -> (r: String) {
    sicompass_sdk::localize::t(key)
}

/// `sicompass_sdk::localize::t_args` for a message on a change of tabs. The
/// language can change between two calls, so nothing is said of the text here.
#[verifier::external_body]
fn translate_tab_change(key: &str, idx: i64, total: i64, label: &str) -> (r: String) {
    let mut args = sicompass_sdk::localize::Args::new();
    args.set("idx", idx);
    args.set("total", total);
    args.set("label", label.to_owned());
    sicompass_sdk::localize::t_args(key, &args)
}

/// The name of a mode, given what its key is translated to.
pub open spec fn mode_label(c: Coordinate, resolved: Seq<char>) -> Seq<char> {
    if resolved == coordinate_key(c) {
        coordinate_name(c)
    } else {
        resolved
    }
}

impl Coordinate {
    /// The name of the mode, given what its key is translated to: the English
    /// name where there is no translation.
    pub fn label_for(self, resolved: &str) -> (r: String)
        ensures
            r@ == mode_label(self, resolved@),
    {
        if text::same(resolved, self.label_key()) {
            self.as_str().to_owned()
        } else {
            resolved.to_owned()
        }
    }

    /// The name of the mode in the language of the user interface.
    pub fn display_label(self) -> (r: String)
        ensures
            exists|resolved: Seq<char>| r@ == #[trigger] mode_label(self, resolved),
    {
        let resolved = translate(self.label_key());
        self.label_for(resolved.as_str())
    }
}

/// `u` with `text` to be said. A mark that is not heard makes it differ from
/// what was said before.
pub open spec fn announced(u: Ui, text: Seq<char>) -> Ui {
    Ui {
        announcement_parity: !u.announcement_parity,
        pending_announcement: Some(
            if !u.announcement_parity {
                text + "\u{200B}"@
            } else {
                text
            },
        ),
        ..u
    }
}

/// What is said of a mode, with what is going on in it.
pub open spec fn mode_text(mode: Seq<char>, context: Option<Seq<char>>) -> Seq<char> {
    match context {
        Some(ctx) if ctx.len() > 0 => mode + " - "@ + ctx,
        _ => mode,
    }
}

/// The name of a mode as it is said: the English one ends in the word mode.
pub open spec fn spoken_name(c: Coordinate, label: Seq<char>) -> Seq<char> {
    if label == coordinate_name(c) && !markup::ends_with(label, " mode"@) {
        label + " mode"@
    } else {
        label
    }
}

/// What is going on in a mode as it is said: of a password only the length.
pub open spec fn spoken_context(u: Ui, context: Option<Seq<char>>) -> Option<Seq<char>> {
    match context {
        Some(ctx) if u.input_is_password => Some(text::starred(ctx)),
        _ => context,
    }
}

/// What is said of the mode of `u`, given what its key is translated to.
pub open spec fn mode_said(u: Ui, context: Option<Seq<char>>, resolved: Seq<char>) -> Seq<char> {
    mode_text(
        spoken_name(u.coordinate, mode_label(u.coordinate, resolved)),
        spoken_context(u, context),
    )
}

/// What is said of a change of tabs, given what the message is translated to.
pub open spec fn tab_text(
    active: nat,
    total: nat,
    label: Seq<char>,
    resolved: Seq<char>,
) -> Seq<char> {
    if resolved == "speak-tab-change"@ {
        "tab "@ + text::decimal(active + 1) + "/"@ + text::decimal(total) + ": "@ + label
    } else {
        resolved
    }
}

/// `u` after its error, if it is a new one, is to be said.
pub open spec fn error_announced(u: Ui) -> Ui {
    if u.error_message.len() == 0 {
        Ui { last_spoken_error: Seq::empty(), ..u }
    } else if u.error_message == u.last_spoken_error {
        u
    } else {
        announced(Ui { last_spoken_error: u.error_message, ..u }, u.error_message)
    }
}

/// The number of items in the list that is shown.
pub open spec fn active_len(u: Ui) -> nat {
    if u.filtered_list_indices.len() == 0 {
        u.total_list.len()
    } else {
        u.filtered_list_indices.len()
    }
}

/// The selected item.
pub open spec fn selected_item(u: Ui) -> Option<ItemView> {
    if u.filtered_list_indices.len() == 0 {
        if u.list_index < u.total_list.len() {
            Some(u.total_list[u.list_index as int])
        } else {
            None
        }
    } else if u.list_index < u.filtered_list_indices.len() {
        let raw = u.filtered_list_indices[u.list_index as int];
        if raw < u.total_list.len() {
            Some(u.total_list[raw as int])
        } else {
            None
        }
    } else {
        None
    }
}

/// `u` with its position at the selected item.
#[verifier::opaque]
pub open spec fn synced(u: Ui) -> Ui {
    match selected_item(u) {
        Some(item) if item.id.len() > 0 => Ui {
            current_id: ffon::with_last(u.current_id, item.id.last()),
            ..u
        },
        _ => u,
    }
}

/// The path of the provider that the position is in.
pub open spec fn provider_path(u: Ui) -> Seq<char> {
    if u.current_id.len() > 0 && u.current_id[0] < u.providers.len() {
        u.providers[u.current_id[0] as int].current_path
    } else {
        Seq::empty()
    }
}

/// The path of the provider that the position is in; empty where there is
/// none.
pub fn active_provider_path(r: &AppRenderer) -> (res: String)
    ensures
        res@ == provider_path(r@),
{
    match r.current_id.get(0) {
        Some(i) => if i < r.providers.len() {
            r.providers[i].current_path.clone()
        } else {
            String::new()
        },
        None => String::new(),
    }
}

/// All but the last of a sequence.
pub open spec fn but_last<A>(s: Seq<A>) -> Seq<A> {
    if s.len() > 0 {
        s.drop_last()
    } else {
        s
    }
}

/// The last of a sequence, alone.
pub open spec fn only_last<A>(s: Seq<A>) -> Seq<A> {
    if s.len() > 0 {
        seq![s.last()]
    } else {
        s
    }
}

/// `u` in the tab `target`: what is on the screen but the settings, which are
/// the last provider, waits in the tab that is left, and what waited in
/// `target` is on the screen.
pub open spec fn tab_switched(u: Ui, target: usize) -> Ui {
    if target >= u.tabs.len() || target == u.active_tab {
        u
    } else {
        let left = TabView {
            current_id: u.current_id,
            provider_path: provider_path(u),
            providers: but_last(u.providers),
            ffon: but_last(u.ffon),
        };
        let entered = u.tabs[target as int];
        let emptied = TabView { providers: Seq::empty(), ffon: Seq::empty(), ..entered };
        Ui {
            tabs: u.tabs.update(u.active_tab as int, left).update(target as int, emptied),
            active_tab: target,
            providers: entered.providers + only_last(u.providers),
            ffon: entered.ffon + only_last(u.ffon),
            current_id: entered.current_id,
            list_index: ffon::last_or_zero(entered.current_id),
            ..u
        }
    }
}

impl AppRenderer {
    /// Say a text.
    pub(crate) fn announce(&mut self, text: &str)
        ensures
            final(self)@ == announced(old(self)@, text@),
    {
        self.announcement_parity = !self.announcement_parity;
        let said = if self.announcement_parity {
            text::concat(text, "\u{200B}")
        } else {
            text.to_owned()
        };
        self.pending_announcement = Some(said);
    }

    /// Say the change to the active tab, given what the message on it is
    /// translated to.
    pub fn speak_tab_change_as(&mut self, label: &str, resolved: &str)
        requires
            tabs_ok(old(self)@),
        ensures
            final(self)@ == announced(
                old(self)@,
                tab_text(
                    old(self)@.active_tab as nat,
                    old(self)@.tabs.len(),
                    label@,
                    resolved@,
                ),
            ),
    {
        proof {
            reveal(timelines_ok);
        }
        if text::same(resolved, "speak-tab-change") {
            let mut said = "tab ".to_owned();
            assert(self.active_tab < self.tabs.len());
            said.append(text::number((self.active_tab + 1) as u64).as_str());
            said.append("/");
            said.append(text::number(self.tabs.len() as u64).as_str());
            said.append(": ");
            said.append(label);
            self.announce(said.as_str());
        } else {
            self.announce(resolved);
        }
    }

    /// Say the change to the active tab.
    pub fn speak_tab_change(&mut self, label: &str)
        requires
            tabs_ok(old(self)@),
        ensures
            exists|resolved: Seq<char>|
                final(self)@ == announced(
                    old(self)@,
                    #[trigger] tab_text(
                        old(self)@.active_tab as nat,
                        old(self)@.tabs.len(),
                        label@,
                        resolved,
                    ),
                ),
    {
        proof {
            reveal(timelines_ok);
        }
        assert(self.active_tab < self.tabs.len());
        let idx: i64 = (self.active_tab + 1) as i64;
        let total: i64 = self.tabs.len() as i64;
        let resolved = translate_tab_change("speak-tab-change", idx, total, label);
        self.speak_tab_change_as(label, resolved.as_str());
    }

    /// The name of the mode as it is said, given its label.
    fn spoken_mode(&self, label: &str) -> (r: String)
        ensures
            r@ == spoken_name(self@.coordinate, label@),
    {
        if text::same(label, self.coordinate.as_str()) && !text::ends_with(label, " mode") {
            text::concat(label, " mode")
        } else {
            label.to_owned()
        }
    }

    /// Say the mode, given what its key is translated to.
    pub fn speak_mode_change_as(&mut self, context: &Option<String>, resolved: &str)
        ensures
            final(self)@ == announced(
                old(self)@,
                mode_said(old(self)@, text::opt_text(*context), resolved@),
            ),
    {
        let label = self.coordinate.label_for(resolved);
        let mode = self.spoken_mode(label.as_str());
        match context {
            Some(ctx) => {
                if ctx.as_str().is_empty() {
                    self.announce(mode.as_str());
                } else if self.input_is_password {
                    let hidden = text::stars(ctx.as_str());
                    let said = text::concat3(mode.as_str(), " - ", hidden.as_str());
                    self.announce(said.as_str());
                } else {
                    let said = text::concat3(mode.as_str(), " - ", ctx.as_str());
                    self.announce(said.as_str());
                }
            },
            None => {
                self.announce(mode.as_str());
            },
        }
    }

    /// Say the mode in the language of the user interface.
    pub fn speak_mode_change(&mut self, context: &Option<String>)
        ensures
            exists|resolved: Seq<char>|
                final(self)@ == announced(
                    old(self)@,
                    #[trigger] mode_said(old(self)@, text::opt_text(*context), resolved),
                ),
    {
        let resolved = translate(self.coordinate.label_key());
        self.speak_mode_change_as(context, resolved.as_str());
    }

    /// Say the error, if it is a new one.
    pub fn announce_error_if_new(&mut self)
        ensures
            final(self)@ == error_announced(old(self)@),
    {
        if self.error_message.as_str().is_empty() {
            self.last_spoken_error = String::new();
        } else if !text::same(self.error_message.as_str(), self.last_spoken_error.as_str()) {
            let said = self.error_message.clone();
            self.last_spoken_error = self.error_message.clone();
            self.announce(said.as_str());
        }
    }

    /// Say the selected item.
    pub fn speak_current_element(&mut self)
        ensures
            final(self)@ == (match selected_item(old(self)@) {
                Some(item) => announced(old(self)@, accesskit_sdl::speech(item.label)),
                None => old(self)@,
            }),
    {
        let said = match self.current_list_item() {
            Some(item) => accesskit_sdl::label_to_speech(item.label.as_str()),
            None => {
                return;
            },
        };
        self.announce(said.as_str());
    }

    /// The colors of the theme that the user chose.
    pub fn palette(&self) -> (r: ColorPalette)
        ensures
            r == theme_palette(self@.palette_theme),
    {
        self.palette_theme.palette()
    }

    /// The number of items in the list that is shown.
    pub fn active_list_len(&self) -> (r: usize)
        ensures
            r == active_len(self@),
    {
        if self.filtered_list_indices.len() == 0 {
            self.total_list.len()
        } else {
            self.filtered_list_indices.len()
        }
    }

    /// The selected item.
    pub fn current_list_item(&self) -> (r: Option<&RenderListItem>)
        ensures
            match r {
                Some(item) => selected_item(self@) == Some(item@),
                None => selected_item(self@) is None,
            },
    {
        let raw: usize = if self.filtered_list_indices.len() == 0 {
            self.list_index
        } else if self.list_index < self.filtered_list_indices.len() {
            self.filtered_list_indices[self.list_index]
        } else {
            return None;
        };
        if raw < self.total_list.len() {
            Some(&self.total_list[raw])
        } else {
            None
        }
    }

    /// The place of the selected item.
    pub fn current_list_item_id(&self) -> (r: Option<IdArray>)
        ensures
            match r {
                Some(id) => selected_item(self@) matches Some(item) && item.id == id@,
                None => selected_item(self@) is None,
            },
    {
        match self.current_list_item() {
            Some(item) => Some(item.id.clone()),
            None => None,
        }
    }

    /// Move the position to the selected item.
    pub fn sync_current_id_from_list(&mut self)
        ensures
            final(self)@ == synced(old(self)@),
            tabs_ok(old(self)@) ==> tabs_ok(final(self)@),
    {
        proof {
            reveal(synced);
        }
        let last = match self.current_list_item() {
            Some(item) => item.id.last(),
            None => None,
        };
        if let Some(idx) = last {
            self.current_id.set_last(idx);
        }
    }

    /// Take what is on the screen but the settings away.
    pub fn detach_content(&mut self) -> (r: (Vec<ProviderInfo>, Vec<FfonElement>))
        ensures
            infos(r.0@) == but_last(old(self)@.providers),
            ffon::forest(r.1@) == but_last(old(self)@.ffon),
            final(self)@ == (Ui {
                providers: only_last(old(self)@.providers),
                ffon: only_last(old(self)@.ffon),
                ..old(self)@
            }),
    {
        let mut content_p: Vec<ProviderInfo> = Vec::new();
        std::mem::swap(&mut content_p, &mut self.providers);
        let mut content_f: Vec<FfonElement> = Vec::new();
        std::mem::swap(&mut content_f, &mut self.ffon);
        if let Some(p) = content_p.pop() {
            self.providers.push(p);
        }
        if let Some(f) = content_f.pop() {
            self.ffon.push(f);
        }
        proof {
            assert(infos(content_p@) =~= but_last(old(self)@.providers));
            assert(ffon::forest(content_f@) =~= but_last(old(self)@.ffon));
            assert(infos(self.providers@) =~= only_last(old(self)@.providers));
            assert(ffon::forest(self.ffon@) =~= only_last(old(self)@.ffon));
        }
        (content_p, content_f)
    }

    /// Put content on the screen, before the settings.
    pub fn attach_content(&mut self, content_p: Vec<ProviderInfo>, content_f: Vec<FfonElement>)
        ensures
            final(self)@ == (Ui {
                providers: infos(content_p@) + only_last(old(self)@.providers),
                ffon: ffon::forest(content_f@) + only_last(old(self)@.ffon),
                ..old(self)@
            }),
    {
        let mut providers = content_p;
        let mut roots = content_f;
        let settings_p = self.providers.pop();
        let settings_f = self.ffon.pop();
        if let Some(p) = settings_p {
            providers.push(p);
        }
        if let Some(f) = settings_f {
            roots.push(f);
        }
        proof {
            assert(infos(providers@) =~= infos(content_p@) + only_last(old(self)@.providers));
            assert(ffon::forest(roots@) =~= ffon::forest(content_f@) + only_last(old(self)@.ffon));
        }
        self.providers = providers;
        self.ffon = roots;
    }

    /// Go to the tab `target`.
    pub fn switch_to_tab(&mut self, target: usize)
        requires
            tabs_ok(old(self)@),
        ensures
            final(self)@ == tab_switched(old(self)@, target),
            tabs_ok(final(self)@),
    {
        if target >= self.tabs.len() || target == self.active_tab {
            return;
        }
        proof {
            reveal(timelines_ok);
        }
        let ghost u = self@;
        let active: usize = self.active_tab;
        let path = active_provider_path(self);
        let (cp, cf) = self.detach_content();
        let left = TabSnapshot {
            current_id: self.current_id.clone(),
            provider_path: path,
            providers: cp,
            ffon: cf,
        };
        let ghost before = self.tabs@;
        self.tabs.set(active, left);
        let emptied = TabSnapshot {
            current_id: self.tabs[target].current_id.clone(),
            provider_path: self.tabs[target].provider_path.clone(),
            providers: Vec::new(),
            ffon: Vec::new(),
        };
        let mut entered = emptied;
        std::mem::swap(&mut entered, &mut self.tabs[target]);
        proof {
            let now = self.tabs@[target as int]@;
            assert(now.providers =~= Seq::<ProviderView>::empty());
            assert(now.ffon =~= Seq::<Node>::empty());
            let want = tab_switched(u, target).tabs;
            assert(want[target as int] == now);
            assert(want[active as int] == self.tabs@[active as int]@);
            assert(tabs(self.tabs@) =~= want);
        }
        self.active_tab = target;
        self.attach_content(entered.providers, entered.ffon);
        self.list_index = entered.current_id.last().unwrap_or(0);
        self.current_id = entered.current_id;
    }
}

/// An error is said once: the second time nothing changes.
pub proof fn law_error_is_said_once(u: Ui)
    ensures
        error_announced(error_announced(u)) == error_announced(u),
        u.error_message.len() > 0 && u.error_message != u.last_spoken_error
            ==> error_announced(u).pending_announcement is Some,
{
}

/// A password is never said: passwords of the same length are announced alike.
pub proof fn law_password_is_not_said(
    u: Ui,
    a: Seq<char>,
    b: Seq<char>,
    resolved: Seq<char>,
)
    requires
        u.input_is_password,
        a.len() == b.len(),
    ensures
        mode_said(u, Some(a), resolved) == mode_said(u, Some(b), resolved),
{
    assert(text::starred(a) =~= text::starred(b));
}

/// An error that comes again after it was taken away is said again.
pub proof fn law_error_is_said_again(u: Ui, v: Ui)
    requires
        u.error_message.len() == 0,
        v.last_spoken_error == error_announced(u).last_spoken_error,
        v.error_message.len() > 0,
    ensures
        error_announced(v) == announced(
            Ui { last_spoken_error: v.error_message, ..v },
            v.error_message,
        ),
{
}

/// Two announcements one after the other differ, even of the same text, so
/// that both are heard.
pub proof fn law_announcements_differ(u: Ui, text: Seq<char>)
    ensures
        announced(announced(u, text), text).pending_announcement != announced(
            u,
            text,
        ).pending_announcement,
{
    reveal_strlit("\u{200B}");
    assert((text + "\u{200B}"@).len() == text.len() + 1);
}

/// An announcement is heard as its text: the mark at its end is not heard.
pub proof fn law_announcement_keeps_its_text(u: Ui, text: Seq<char>)
    requires
        text.len() > 0 ==> text.last() != '\u{200B}',
    ensures
        announced(u, text).pending_announcement is Some,
        text::without_trailing(announced(u, text).pending_announcement->0, '\u{200B}') == text,
{
    reveal_strlit("\u{200B}");
    let marked = text + "\u{200B}"@;
    assert(marked.drop_last() =~= text);
    assert(marked.last() == '\u{200B}');
    reveal_with_fuel(text::without_trailing, 3);
}

/// Going to another tab and back gives the providers, the trees and the
/// position back, where the settings are the last provider as they should be.
/// What waited in the other tab waits there again.
pub proof fn law_tabs_there_and_back(u: Ui, target: usize)
    requires
        u.active_tab < u.tabs.len(),
        target < u.tabs.len(),
        target != u.active_tab,
        u.providers.len() > 0,
        u.ffon.len() > 0,
    ensures
        ({
            let there = tab_switched(u, target);
            let back = tab_switched(there, u.active_tab);
            &&& there.active_tab == target
            &&& there.providers.last() == u.providers.last()
            &&& there.ffon.last() == u.ffon.last()
            &&& back.providers == u.providers
            &&& back.ffon == u.ffon
            &&& back.current_id == u.current_id
            &&& back.active_tab == u.active_tab
            &&& back.tabs.len() == u.tabs.len()
            &&& back.tabs[target as int].providers == u.tabs[target as int].providers
            &&& back.tabs[target as int].ffon == u.tabs[target as int].ffon
            &&& back.tabs[target as int].current_id == u.tabs[target as int].current_id
            &&& forall|i: int|
                0 <= i < u.tabs.len() && i != target && i != u.active_tab ==> #[trigger] back.tabs[i]
                    == u.tabs[i]
        }),
{
    let a = u.active_tab as int;
    let t = target as int;
    let there = tab_switched(u, target);
    let back = tab_switched(there, u.active_tab);
    let entered = u.tabs[t];
    assert(there.providers.drop_last() =~= entered.providers);
    assert(there.ffon.drop_last() =~= entered.ffon);
    assert(there.tabs[a].providers == but_last(u.providers));
    assert(back.providers =~= u.providers);
    assert(back.ffon =~= u.ffon);
}

/// Nothing waits in the tab that is switched to, since it is on the screen.
pub proof fn law_active_tab_is_empty(u: Ui, target: usize)
    requires
        u.active_tab < u.tabs.len(),
        target < u.tabs.len(),
        target != u.active_tab,
    ensures
        tab_switched(u, target).tabs[target as int].providers == Seq::<ProviderView>::empty(),
        tab_switched(u, target).tabs[target as int].ffon == Seq::<Node>::empty(),
{
}

} // verus!
