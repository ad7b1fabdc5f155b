//! The state of the terminal user interface.
use crate::discovery::summaries;
use crate::domain::{
    DeviceStatus, DeviceStatusView, DeviceSummary, DeviceSummaryView, RemoteEntry, RemoteEntryType,
    RemoteEntryView,
};
use crate::paths::{parent_of, parent_path};
use crate::text::{
    chars_of, is_blank, is_space, slice_text, strip_back, strip_front, trim, trim_both_of, trimmed,
    CharClass,
};
use crate::tree::collections::{
    copy_rows, row_views, ListingCache, ListingView, RowView, TextSet, TreeRow,
};
use crate::tree::rows::{tree_rows, walk_tree};
use vstd::prelude::*;
use vstd::string::*;

verus! {

/// The three screens.
#[derive(Debug, Clone, Copy, PartialEq, Eq, Structural)]
pub enum Screen {
    Launcher,
    AddDevice,
    Browser,
}

/// The two fields of the screen that adds a device.
#[derive(Debug, Clone, Copy, PartialEq, Eq, Structural)]
pub enum AddField {
    Ip,
    Pin,
}

/// A key that was pressed.
#[derive(Debug, Clone, Copy, PartialEq, Eq, Structural)]
pub enum Key {
    Char(char),
    Enter,
    Esc,
    Tab,
    BackTab,
    Backspace,
    Up,
    Down,
    Left,
    Right,
    Other,
}

/// What the mouse did.
#[derive(Debug, Clone, Copy, PartialEq, Eq, Structural)]
pub enum MouseKind {
    ScrollDown,
    ScrollUp,
    Left,
    Right,
    Other,
}

/// What the mouse did, and where.
#[derive(Debug, Clone, Copy)]
pub struct Mouse {
    pub kind: MouseKind,
    pub column: u16,
    pub row: u16,
}

/// A rectangle of the terminal.
#[derive(Debug, Clone, Copy)]
pub struct Area {
    pub x: u16,
    pub y: u16,
    pub width: u16,
    pub height: u16,
}

/// What a prompt asks for.
pub enum PromptKind {
    Rename { path: String, current_name: String },
    Delete { path: String },
    Import { folder: String },
    Export { entry: RemoteEntry },
}

/// The content of a [`PromptKind`].
pub enum PromptKindView {
    Rename { path: Seq<char>, current_name: Seq<char> },
    Delete { path: Seq<char> },
    Import { folder: Seq<char> },
    Export { entry: RemoteEntryView },
}

impl DeepView for PromptKind {
    type V = PromptKindView;

    open spec fn deep_view(&self) -> PromptKindView {
        match self {
            PromptKind::Rename { path, current_name } => PromptKindView::Rename {
                path: path@,
                current_name: current_name@,
            },
            PromptKind::Delete { path } => PromptKindView::Delete { path: path@ },
            PromptKind::Import { folder } => PromptKindView::Import { folder: folder@ },
            PromptKind::Export { entry } => PromptKindView::Export { entry: entry.deep_view() },
        }
    }
}

/// A prompt over the screen.
pub struct PromptState {
    pub title: String,
    pub detail: String,
    pub input: String,
    pub kind: PromptKind,
}

/// The content of a [`PromptState`].
#[verifier::ext_equal]
pub struct PromptView {
    pub title: Seq<char>,
    pub detail: Seq<char>,
    pub input: Seq<char>,
    pub kind: PromptKindView,
}

impl DeepView for PromptState {
    type V = PromptView;

    open spec fn deep_view(&self) -> PromptView {
        PromptView {
            title: self.title@,
            detail: self.detail@,
            input: self.input@,
            kind: self.kind.deep_view(),
        }
    }
}

/// What can be done in the library.
pub enum BrowserAction {
    OpenOrToggle,
    ImportInto(String),
    Export(RemoteEntry),
    RevealLocalCopy(RemoteEntry),
    Rename(RemoteEntry),
    Delete(RemoteEntry),
    Reload,
    Back,
}

/// The content of a [`BrowserAction`].
pub enum ActionView {
    OpenOrToggle,
    ImportInto(Seq<char>),
    Export(RemoteEntryView),
    RevealLocalCopy(RemoteEntryView),
    Rename(RemoteEntryView),
    Delete(RemoteEntryView),
    Reload,
    Back,
}

impl DeepView for BrowserAction {
    type V = ActionView;

    open spec fn deep_view(&self) -> ActionView {
        match self {
            BrowserAction::OpenOrToggle => ActionView::OpenOrToggle,
            BrowserAction::ImportInto(folder) => ActionView::ImportInto(folder@),
            BrowserAction::Export(entry) => ActionView::Export(entry.deep_view()),
            BrowserAction::RevealLocalCopy(entry) => ActionView::RevealLocalCopy(entry.deep_view()),
            BrowserAction::Rename(entry) => ActionView::Rename(entry.deep_view()),
            BrowserAction::Delete(entry) => ActionView::Delete(entry.deep_view()),
            BrowserAction::Reload => ActionView::Reload,
            BrowserAction::Back => ActionView::Back,
        }
    }
}

impl Clone for BrowserAction {
    fn clone(&self) -> (r: Self)
        ensures
            r.deep_view() == self.deep_view(),
    {
        match self {
            BrowserAction::OpenOrToggle => BrowserAction::OpenOrToggle,
            BrowserAction::ImportInto(folder) => BrowserAction::ImportInto(
                folder.as_str().to_owned(),
            ),
            BrowserAction::Export(entry) => BrowserAction::Export(entry.clone()),
            BrowserAction::RevealLocalCopy(entry) => BrowserAction::RevealLocalCopy(entry.clone()),
            BrowserAction::Rename(entry) => BrowserAction::Rename(entry.clone()),
            BrowserAction::Delete(entry) => BrowserAction::Delete(entry.clone()),
            BrowserAction::Reload => BrowserAction::Reload,
            BrowserAction::Back => BrowserAction::Back,
        }
    }
}

/// The label of a button.
#[derive(Debug, Clone, Copy, PartialEq, Eq, Structural)]
pub enum Label {
    Toggle,
    Open,
    Back,
    Reload,
    Import,
    Rename,
    Delete,
    Export,
    Reveal,
}

impl Label {
    /// The label's text.
    pub open spec fn shown(self) -> Seq<char> {
        match self {
            Label::Toggle => "Toggle"@,
            Label::Open => "Open"@,
            Label::Back => "Back"@,
            Label::Reload => "Reload"@,
            Label::Import => "Import"@,
            Label::Rename => "Rename"@,
            Label::Delete => "Delete"@,
            Label::Export => "Export"@,
            Label::Reveal => "Reveal"@,
        }
    }

    /// The label's text.
    pub fn text(self) -> (r: &'static str)
        ensures
            r@ == self.shown(),
    {
        match self {
            Label::Toggle => "Toggle",
            Label::Open => "Open",
            Label::Back => "Back",
            Label::Reload => "Reload",
            Label::Import => "Import",
            Label::Rename => "Rename",
            Label::Delete => "Delete",
            Label::Export => "Export",
            Label::Reveal => "Reveal",
        }
    }

    /// How many columns the label takes.
    pub fn width(self) -> (r: u16)
        ensures
            r == self.shown().len(),
            r <= 6,
    {
        proof {
            reveal_strlit("Toggle");
            reveal_strlit("Open");
            reveal_strlit("Back");
            reveal_strlit("Reload");
            reveal_strlit("Import");
            reveal_strlit("Rename");
            reveal_strlit("Delete");
            reveal_strlit("Export");
            reveal_strlit("Reveal");
        }
        match self {
            Label::Open => 4,
            Label::Back => 4,
            _ => 6,
        }
    }
}

/// A button: its label and what it does.
pub struct ActionButton {
    pub label: Label,
    pub action: BrowserAction,
}

/// The content of an [`ActionButton`].
#[verifier::ext_equal]
pub struct ButtonView {
    pub label: Label,
    pub action: ActionView,
}

impl DeepView for ActionButton {
    type V = ButtonView;

    open spec fn deep_view(&self) -> ButtonView {
        ButtonView { label: self.label, action: self.action.deep_view() }
    }
}

/// The contents of buttons.
pub open spec fn button_views(buttons: Seq<ActionButton>) -> Seq<ButtonView> {
    buttons.map_values(|b: ActionButton| b.deep_view())
}

/// A menu over the screen.
pub struct ContextMenuState {
    pub x: u16,
    pub y: u16,
    pub selected: usize,
    pub buttons: Vec<ActionButton>,
}

/// The content of a [`ContextMenuState`].
#[verifier::ext_equal]
pub struct MenuView {
    pub x: u16,
    pub y: u16,
    pub selected: usize,
    pub buttons: Seq<ButtonView>,
}

impl DeepView for ContextMenuState {
    type V = MenuView;

    open spec fn deep_view(&self) -> MenuView {
        MenuView {
            x: self.x,
            y: self.y,
            selected: self.selected,
            buttons: button_views(self.buttons@),
        }
    }
}

/// The library of one device.
pub struct BrowserState {
    pub device: DeviceSummary,
    pub root_path: String,
    pub children_cache: ListingCache,
    pub expanded_folders: TextSet,
    /// Folders whose listing failed and is not tried again for now.
    pub given_up: TextSet,
    pub status: Option<DeviceStatus>,
    pub message: Option<String>,
    pub selected_path: Option<String>,
    pub selected_row: usize,
    pub search_query: String,
    pub search_mode: bool,
    pub search_results: Option<Vec<TreeRow>>,
    pub search_progress: Option<String>,
}

/// The content of a [`BrowserState`].
#[verifier::ext_equal]
pub struct BrowserView {
    pub device: DeviceSummaryView,
    pub root_path: Seq<char>,
    pub cache: Seq<ListingView>,
    pub expanded: Set<Seq<char>>,
    pub given_up: Set<Seq<char>>,
    pub status: Option<DeviceStatusView>,
    pub message: Option<Seq<char>>,
    pub selected_path: Option<Seq<char>>,
    pub selected_row: usize,
    pub search_query: Seq<char>,
    pub search_mode: bool,
    pub search_results: Option<Seq<RowView>>,
    pub search_progress: Option<Seq<char>>,
}

impl DeepView for BrowserState {
    type V = BrowserView;

    open spec fn deep_view(&self) -> BrowserView {
        BrowserView {
            device: self.device.deep_view(),
            root_path: self.root_path@,
            cache: self.children_cache@,
            expanded: self.expanded_folders@,
            given_up: self.given_up@,
            status: self.status.deep_view(),
            message: self.message.deep_view(),
            selected_path: self.selected_path.deep_view(),
            selected_row: self.selected_row,
            search_query: self.search_query@,
            search_mode: self.search_mode,
            search_results: match self.search_results {
                Some(rows) => Some(row_views(rows@)),
                None => None,
            },
            search_progress: self.search_progress.deep_view(),
        }
    }
}

/// A library that was just opened.
pub open spec fn new_browser(device: DeviceSummaryView) -> BrowserView {
    BrowserView {
        device,
        root_path: "Document"@,
        cache: Seq::empty(),
        expanded: set!["Document"@],
        given_up: Set::empty(),
        status: None,
        message: None,
        selected_path: None,
        selected_row: 0,
        search_query: Seq::empty(),
        search_mode: false,
        search_results: None,
        search_progress: None,
    }
}

impl BrowserView {
    /// The visible rows: what a search found while there is a query, else the tree.
    pub open spec fn rows(self) -> Seq<RowView> {
        if trimmed(self.search_query).len() > 0 {
            match self.search_results {
                Some(rows) => rows,
                None => Seq::empty(),
            }
        } else {
            tree_rows(self.cache, self.expanded, self.root_path, 0, self.cache.len())
        }
    }

    /// The selected entry, if any row is visible.
    pub open spec fn selected(self) -> Option<RemoteEntryView> {
        let rows = self.rows();
        if rows.len() == 0 {
            None
        } else if self.selected_row < rows.len() {
            Some(rows[self.selected_row as int].entry)
        } else {
            Some(rows.last().entry)
        }
    }

    /// The folder that an import goes into: the selected folder, the selected
    /// file's folder, or the root.
    pub open spec fn target_folder(self) -> Seq<char> {
        match self.selected() {
            Some(entry) => if entry.entry_type == RemoteEntryType::Folder {
                entry.path
            } else {
                parent_of(entry.path)
            },
            None => self.root_path,
        }
    }

    /// The library with a message.
    pub open spec fn saying(self, message: Seq<char>) -> BrowserView {
        BrowserView { message: Some(message), ..self }
    }
}

impl BrowserState {
    /// A library that was just opened.
    pub fn new(device: DeviceSummary) -> (r: BrowserState)
        ensures
            r.deep_view() == new_browser(device.deep_view()),
    {
        let none = TextSet { items: Vec::new() };
        let query = String::new();
        proof {
            assert(none@ =~= Set::<Seq<char>>::empty());
            assert(query@ =~= Seq::<char>::empty());
        }
        BrowserState {
            device,
            root_path: "Document".to_owned(),
            children_cache: ListingCache::new(),
            expanded_folders: TextSet::with("Document"),
            given_up: none,
            status: None,
            message: None,
            selected_path: None,
            selected_row: 0,
            search_query: query,
            search_mode: false,
            search_results: None,
            search_progress: None,
        }
    }

    /// The visible rows.
    pub fn visible_nodes(&self) -> (r: Vec<TreeRow>)
        ensures
            row_views(r@) == self.deep_view().rows(),
    {
        let mut out: Vec<TreeRow> = Vec::new();
        assert(row_views(out@) =~= Seq::<RowView>::empty());
        if !is_blank(trim(self.search_query.as_str()).as_str()) {
            return match &self.search_results {
                Some(rows) => copy_rows(rows),
                None => out,
            };
        }
        let fuel: usize = self.children_cache.listings.len();
        walk_tree(
            &self.children_cache,
            &self.expanded_folders,
            self.root_path.as_str(),
            0,
            fuel,
            &mut out,
        );
        proof {
            let rows = tree_rows(
                self.children_cache@,
                self.expanded_folders@,
                self.root_path@,
                0,
                fuel as nat,
            );
            assert(Seq::<RowView>::empty() + rows =~= rows);
        }
        out
    }

    /// The selected entry, if any row is visible.
    pub fn selected_browser_entry(&self) -> (r: Option<RemoteEntry>)
        ensures
            r.deep_view() == self.deep_view().selected(),
    {
        let rows = self.visible_nodes();
        let ghost views = row_views(rows@);
        let count: usize = rows.len();
        if count == 0 {
            return None;
        }
        let index: usize = if self.selected_row < count {
            self.selected_row
        } else {
            count - 1
        };
        assert(views[index as int] == rows@[index as int].deep_view());
        let entry = rows[index].entry.clone();
        assert(entry.deep_view() == views[index as int].entry);
        Some(entry)
    }

    /// The folder that an import goes into.
    pub fn target_folder(&self) -> (r: String)
        ensures
            r@ == self.deep_view().target_folder(),
    {
        match self.selected_browser_entry() {
            Some(entry) => if entry.entry_type == RemoteEntryType::Folder {
                entry.path
            } else {
                parent_path(entry.path.as_str())
            },
            None => self.root_path.as_str().to_owned(),
        }
    }

    /// The buttons for what can be done in the library.
    pub fn browser_action_buttons(&self) -> (r: Vec<ActionButton>)
        ensures
            button_views(r@) == action_buttons(self.deep_view()),
            4 <= r@.len() + 1 <= 9,
    {
        let mut buttons: Vec<ActionButton> = Vec::new();
        let ghost view = self.deep_view();
        let selected = self.selected_browser_entry();
        if let Some(entry) = &selected {
            let label = if entry.entry_type == RemoteEntryType::Folder {
                Label::Toggle
            } else {
                Label::Open
            };
            buttons.push(ActionButton { label, action: BrowserAction::OpenOrToggle });
        }
        buttons.push(ActionButton { label: Label::Back, action: BrowserAction::Back });
        buttons.push(ActionButton { label: Label::Reload, action: BrowserAction::Reload });
        buttons.push(
            ActionButton {
                label: Label::Import,
                action: BrowserAction::ImportInto(self.target_folder()),
            },
        );
        if let Some(entry) = selected {
            buttons.push(
                ActionButton { label: Label::Rename, action: BrowserAction::Rename(entry.clone()) },
            );
            buttons.push(
                ActionButton { label: Label::Delete, action: BrowserAction::Delete(entry.clone()) },
            );
            if entry.entry_type != RemoteEntryType::Folder {
                buttons.push(
                    ActionButton {
                        label: Label::Export,
                        action: BrowserAction::Export(entry.clone()),
                    },
                );
                buttons.push(
                    ActionButton {
                        label: Label::Reveal,
                        action: BrowserAction::RevealLocalCopy(entry),
                    },
                );
            }
        }
        assert(button_views(buttons@) =~= action_buttons(view));
        buttons
    }
}

/// A button.
pub open spec fn button(label: Label, action: ActionView) -> ButtonView {
    ButtonView { label, action }
}

/// The buttons for what can be done in the library.
pub open spec fn action_buttons(b: BrowserView) -> Seq<ButtonView> {
    let always = seq![
        button(Label::Back, ActionView::Back),
        button(Label::Reload, ActionView::Reload),
        button(Label::Import, ActionView::ImportInto(b.target_folder())),
    ];
    match b.selected() {
        None => always,
        Some(entry) => {
            let folder = entry.entry_type == RemoteEntryType::Folder;
            let first = button(
                if folder {
                    Label::Toggle
                } else {
                    Label::Open
                },
                ActionView::OpenOrToggle,
            );
            let more = seq![
                button(Label::Rename, ActionView::Rename(entry)),
                button(Label::Delete, ActionView::Delete(entry)),
            ];
            let for_files = seq![
                button(Label::Export, ActionView::Export(entry)),
                button(Label::Reveal, ActionView::RevealLocalCopy(entry)),
            ];
            if folder {
                seq![first] + always + more
            } else {
                seq![first] + always + more + for_files
            }
        },
    }
}

/// The state of the terminal user interface.
pub struct TuiApp {
    pub screen: Screen,
    pub should_quit: bool,
    pub devices: Vec<DeviceSummary>,
    pub launcher_index: usize,
    pub launcher_message: Option<String>,
    pub launcher_error: Option<String>,
    pub usb_hint: Option<String>,
    pub usb_candidate: Option<String>,
    pub usb_attached: bool,
    pub add_ip: String,
    pub add_pin: String,
    pub add_field: AddField,
    pub add_message: Option<String>,
    pub add_connected: Option<DeviceSummary>,
    pub browser: Option<BrowserState>,
    pub prompt: Option<PromptState>,
    pub context_menu: Option<ContextMenuState>,
    /// Whether a search is under way.
    pub searching: bool,
    pub last_browser_click: Option<(String, u64)>,
    pub last_launcher_click: Option<(usize, u64)>,
}

/// The content of a [`TuiApp`].
#[verifier::ext_equal]
pub struct TuiView {
    pub screen: Screen,
    pub should_quit: bool,
    pub devices: Seq<DeviceSummaryView>,
    pub launcher_index: usize,
    pub launcher_message: Option<Seq<char>>,
    pub launcher_error: Option<Seq<char>>,
    pub usb_hint: Option<Seq<char>>,
    pub usb_candidate: Option<Seq<char>>,
    pub usb_attached: bool,
    pub add_ip: Seq<char>,
    pub add_pin: Seq<char>,
    pub add_field: AddField,
    pub add_message: Option<Seq<char>>,
    pub add_connected: Option<DeviceSummaryView>,
    pub browser: Option<BrowserView>,
    pub prompt: Option<PromptView>,
    pub context_menu: Option<MenuView>,
    pub searching: bool,
    pub last_browser_click: Option<(Seq<char>, u64)>,
    pub last_launcher_click: Option<(usize, u64)>,
}

impl DeepView for TuiApp {
    type V = TuiView;

    open spec fn deep_view(&self) -> TuiView {
        TuiView {
            screen: self.screen,
            should_quit: self.should_quit,
            devices: summaries(self.devices@),
            launcher_index: self.launcher_index,
            launcher_message: self.launcher_message.deep_view(),
            launcher_error: self.launcher_error.deep_view(),
            usb_hint: self.usb_hint.deep_view(),
            usb_candidate: self.usb_candidate.deep_view(),
            usb_attached: self.usb_attached,
            add_ip: self.add_ip@,
            add_pin: self.add_pin@,
            add_field: self.add_field,
            add_message: self.add_message.deep_view(),
            add_connected: self.add_connected.deep_view(),
            browser: self.browser.deep_view(),
            prompt: self.prompt.deep_view(),
            context_menu: self.context_menu.deep_view(),
            searching: self.searching,
            last_browser_click: match self.last_browser_click {
                Some((path, at)) => Some((path@, at)),
                None => None,
            },
            last_launcher_click: self.last_launcher_click,
        }
    }
}

/// What the interface asks of the world.
pub enum Effect {
    Nothing,
    /// Look for devices.
    Scan,
    /// Bring up the network of a device on USB.
    RecoverUsb,
    Connect(String),
    /// Connect, then open the library of what was connected.
    ConnectThenOpen(String),
    Pair(String),
    BeginPair(String),
    /// Connect to the address, if any, and load the library.
    OpenLibrary(Option<String>),
    /// Load the library again.
    Reload,
    /// Search below a folder.
    Search(String, String),
    /// List a folder, unless that is at hand.
    Load(String),
    OpenFile(RemoteEntry),
    Reveal(RemoteEntry),
    Rename(String, String),
    Delete(String),
    /// Upload a local file or folder into a folder.
    Import(String, String),
    /// Download a file to a local path.
    Export(String, String),
}

/// The content of an [`Effect`].
pub enum EffectView {
    Nothing,
    Scan,
    RecoverUsb,
    Connect(Seq<char>),
    ConnectThenOpen(Seq<char>),
    Pair(Seq<char>),
    BeginPair(Seq<char>),
    OpenLibrary(Option<Seq<char>>),
    Reload,
    Search(Seq<char>, Seq<char>),
    Load(Seq<char>),
    OpenFile(RemoteEntryView),
    Reveal(RemoteEntryView),
    Rename(Seq<char>, Seq<char>),
    Delete(Seq<char>),
    Import(Seq<char>, Seq<char>),
    Export(Seq<char>, Seq<char>),
}

impl DeepView for Effect {
    type V = EffectView;

    open spec fn deep_view(&self) -> EffectView {
        match self {
            Effect::Nothing => EffectView::Nothing,
            Effect::Scan => EffectView::Scan,
            Effect::RecoverUsb => EffectView::RecoverUsb,
            Effect::Connect(ip) => EffectView::Connect(ip@),
            Effect::ConnectThenOpen(ip) => EffectView::ConnectThenOpen(ip@),
            Effect::Pair(pin) => EffectView::Pair(pin@),
            Effect::BeginPair(ip) => EffectView::BeginPair(ip@),
            Effect::OpenLibrary(addr) => EffectView::OpenLibrary(addr.deep_view()),
            Effect::Reload => EffectView::Reload,
            Effect::Search(root, query) => EffectView::Search(root@, query@),
            Effect::Load(path) => EffectView::Load(path@),
            Effect::OpenFile(entry) => EffectView::OpenFile(entry.deep_view()),
            Effect::Reveal(entry) => EffectView::Reveal(entry.deep_view()),
            Effect::Rename(path, name) => EffectView::Rename(path@, name@),
            Effect::Delete(path) => EffectView::Delete(path@),
            Effect::Import(local, folder) => EffectView::Import(local@, folder@),
            Effect::Export(remote, local) => EffectView::Export(remote@, local@),
        }
    }
}

/// Where a device is looked for by default: where the user says, if anywhere,
/// else under the announced name.
pub open spec fn default_addr(named: Option<Seq<char>>) -> Seq<char> {
    match named {
        Some(text) if trimmed(text).len() > 0 => trimmed(text),
        _ => crate::domain::DEFAULT_DEVICE_HOST@,
    }
}

/// Where a device is looked for by default.
pub fn default_device_addr(named: &Option<String>) -> (r: String)
    ensures
        r@ == default_addr(named.deep_view()),
{
    if let Some(text) = named {
        let clean = trim(text.as_str());
        if !is_blank(clean.as_str()) {
            return clean;
        }
    }
    crate::domain::DEFAULT_DEVICE_HOST.to_owned()
}

/// A pasted text without the white space and quotes around it.
pub open spec fn pasted(text: Seq<char>) -> Seq<char> {
    let bare = trimmed(text);
    let inner = strip_back(
        strip_front(bare, CharClass::Only('"')),
        CharClass::Only('"'),
    );
    strip_back(strip_front(inner, CharClass::Only('\'')), CharClass::Only('\''))
}

/// A pasted text without the white space and quotes around it.
pub fn normalize_paste_text(text: &str) -> (r: String)
    ensures
        r@ == pasted(text@),
{
    let bare = trim(text);
    let inner = trim_both_of(bare.as_str(), '"');
    trim_both_of(inner.as_str(), '\'')
}

/// Whether a character is a control character.
pub open spec fn is_control(c: char) -> bool {
    c <= '\u{1f}' || '\u{7f}' <= c <= '\u{9f}'
}

/// Whether a character is a control character.
pub fn control(c: char) -> (r: bool)
    ensures
        r == is_control(c),
{
    c <= '\u{1f}' || ('\u{7f}' <= c && c <= '\u{9f}')
}

/// A text without its last character.
pub open spec fn shortened(s: Seq<char>) -> Seq<char> {
    if s.len() == 0 {
        s
    } else {
        s.drop_last()
    }
}

/// A text without its last character.
pub fn without_last(s: &str) -> (r: String)
    ensures
        r@ == shortened(s@),
{
    let chars = chars_of(s);
    let count: usize = chars.len();
    if count == 0 {
        s.to_owned()
    } else {
        let r = slice_text(&chars, 0, count - 1);
        assert(r@ =~= s@.drop_last());
        r
    }
}

/// The interface as it starts.
pub open spec fn new_tui(addr: Seq<char>) -> TuiView {
    TuiView {
        screen: Screen::Launcher,
        should_quit: false,
        devices: Seq::empty(),
        launcher_index: 0,
        launcher_message: None,
        launcher_error: None,
        usb_hint: None,
        usb_candidate: None,
        usb_attached: false,
        add_ip: addr,
        add_pin: Seq::empty(),
        add_field: AddField::Ip,
        add_message: None,
        add_connected: None,
        browser: None,
        prompt: None,
        context_menu: None,
        searching: false,
        last_browser_click: None,
        last_launcher_click: None,
    }
}

impl TuiApp {
    /// The interface as it starts, with the address that is offered first.
    pub fn new(addr: String) -> (r: TuiApp)
        ensures
            r.deep_view() == new_tui(addr@),
    {
        let devices: Vec<DeviceSummary> = Vec::new();
        let pin = String::new();
        proof {
            assert(summaries(devices@) =~= Seq::<DeviceSummaryView>::empty());
            assert(pin@ =~= Seq::<char>::empty());
        }
        TuiApp {
            screen: Screen::Launcher,
            should_quit: false,
            devices,
            launcher_index: 0,
            launcher_message: None,
            launcher_error: None,
            usb_hint: None,
            usb_candidate: None,
            usb_attached: false,
            add_ip: addr,
            add_pin: pin,
            add_field: AddField::Ip,
            add_message: None,
            add_connected: None,
            browser: None,
            prompt: None,
            context_menu: None,
            searching: false,
            last_browser_click: None,
            last_launcher_click: None,
        }
    }
}

/// A path that is pasted with quotes around it, as a file manager gives it, comes
/// without them; one without quotes comes as it is.
pub proof fn pasted_path_loses_its_quotes(path: Seq<char>)
    requires
        path.len() > 0,
        !is_space(path[0]) && path[0] != '"' && path[0] != '\'',
        !is_space(path.last()) && path.last() != '"' && path.last() != '\'',
    ensures
        pasted(path) == path,
        pasted(seq!['"'] + path + seq!['"']) == path,
        pasted(seq!['\''] + path + seq!['\'']) == path,
{
    reveal_with_fuel(strip_front, 3);
    reveal_with_fuel(strip_back, 3);
    let double = seq!['"'] + path + seq!['"'];
    let single = seq!['\''] + path + seq!['\''];
    assert(!is_space('"') && !is_space('\''));
    assert(trimmed(path) == path);
    assert(trimmed(double) == double);
    assert(trimmed(single) == single);
    assert(double.skip(1) =~= path + seq!['"']);
    assert((path + seq!['"']).drop_last() =~= path);
    assert(single.skip(1) =~= path + seq!['\'']);
    assert((path + seq!['\'']).drop_last() =~= path);
}

} // verus!
