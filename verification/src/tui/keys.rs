//! What keys and pasted texts do.
use crate::domain::{DeviceSummary, DeviceSummaryView, RemoteEntry, RemoteEntryType, RemoteEntryView};
use crate::text::{cat2, cat3, cat5, is_blank, same, trim, trimmed};
use crate::tree::collections::{row_views, toggled, RowView, TreeRow};
use crate::tui::state::{
    action_buttons, button_views, control, is_control, new_browser, normalize_paste_text, pasted,
    shortened, without_last, ActionView, AddField, BrowserAction, BrowserState, BrowserView,
    ContextMenuState, Effect, EffectView, Key, MenuView, PromptKind, PromptKindView, PromptState,
    PromptView, Screen, TuiApp, TuiView,
};
use vstd::prelude::*;
use vstd::string::*;

verus! {

/// The next state, and what it asks of the world.
pub type Outcome = (TuiView, EffectView);

/// A state that asks for nothing.
pub open spec fn quiet(s: TuiView) -> Outcome {
    (s, EffectView::Nothing)
}

/// The row below, but for the last one.
pub open spec fn row_below(row: usize, count: nat) -> usize {
    if row + 1 < count {
        (row + 1) as usize
    } else {
        (count - 1) as usize
    }
}

/// The row above, but for the first one.
pub open spec fn row_above(row: usize) -> usize {
    if row > 0 {
        (row - 1) as usize
    } else {
        0
    }
}

/// The row below, but for the last one.
pub fn below(row: usize, count: usize) -> (r: usize)
    requires
        count > 0,
    ensures
        r == row_below(row, count as nat),
{
    if row < count - 1 {
        row + 1
    } else {
        count - 1
    }
}

/// The row above, but for the first one.
pub fn above(row: usize) -> (r: usize)
    ensures
        r == row_above(row),
{
    if row > 0 {
        row - 1
    } else {
        0
    }
}

/// Opening the library of a device.
pub open spec fn opened(s: TuiView, device: DeviceSummaryView) -> Outcome {
    (
        TuiView { browser: Some(new_browser(device)), screen: Screen::Browser, ..s },
        EffectView::OpenLibrary(
            if device.reachable_addrs.len() > 0 {
                Some(device.reachable_addrs[0])
            } else {
                None
            },
        ),
    )
}

/// Choosing a device: the library of a paired one is opened, another one is
/// offered for pairing.
pub open spec fn chosen(s: TuiView, device: DeviceSummaryView) -> Outcome {
    if device.paired {
        opened(s, device)
    } else {
        quiet(
            TuiView {
                add_ip: if device.reachable_addrs.len() > 0 {
                    device.reachable_addrs[0]
                } else {
                    s.add_ip
                },
                screen: Screen::AddDevice,
                add_message: Some("Device detected but not paired yet."@),
                ..s
            },
        )
    }
}

/// A key on the launcher.
pub open spec fn launcher_key(s: TuiView, key: Key) -> Outcome {
    match key {
        Key::Char('q') => quiet(TuiView { should_quit: true, ..s }),
        Key::Char('r') => (s, EffectView::Scan),
        Key::Down | Key::Char('j') => quiet(
            if s.devices.len() > 0 {
                TuiView { launcher_index: row_below(s.launcher_index, s.devices.len()), ..s }
            } else {
                s
            },
        ),
        Key::Up | Key::Char('k') => quiet(
            TuiView { launcher_index: row_above(s.launcher_index), ..s },
        ),
        Key::Enter => if s.launcher_index < s.devices.len() {
            chosen(s, s.devices[s.launcher_index as int])
        } else {
            quiet(s)
        },
        Key::Char('a') => quiet(TuiView { screen: Screen::AddDevice, add_message: None, ..s }),
        Key::Char('u') => (s, EffectView::RecoverUsb),
        _ => quiet(s),
    }
}

/// Asking for a connection to the address that was typed.
pub open spec fn connect_typed(s: TuiView, then_open: bool) -> Outcome {
    let ip = trimmed(s.add_ip);
    if ip.len() == 0 {
        quiet(TuiView { add_message: Some("Device IP is required."@), ..s })
    } else if then_open {
        (s, EffectView::ConnectThenOpen(ip))
    } else {
        (s, EffectView::Connect(ip))
    }
}

/// Asking for a pairing with the PIN that was typed.
pub open spec fn pair_typed(s: TuiView) -> Outcome {
    let pin = trimmed(s.add_pin);
    if pin.len() == 0 {
        quiet(TuiView { add_message: Some("PIN is required."@), ..s })
    } else {
        (s, EffectView::Pair(pin))
    }
}

/// A key on the screen that adds a device.
pub open spec fn add_device_key(s: TuiView, key: Key) -> Outcome {
    match key {
        Key::Esc => quiet(TuiView { screen: Screen::Launcher, add_message: None, ..s }),
        Key::Tab | Key::BackTab => quiet(
            TuiView {
                add_field: match s.add_field {
                    AddField::Ip => AddField::Pin,
                    AddField::Pin => AddField::Ip,
                },
                ..s
            },
        ),
        Key::Backspace => quiet(
            match s.add_field {
                AddField::Ip => TuiView { add_ip: shortened(s.add_ip), ..s },
                AddField::Pin => TuiView { add_pin: shortened(s.add_pin), ..s },
            },
        ),
        Key::Char('c') => connect_typed(s, false),
        Key::Char('p') => pair_typed(s),
        Key::Char('o') => match s.add_connected {
            Some(device) => opened(s, device),
            None => connect_typed(s, true),
        },
        Key::Enter => match s.add_field {
            AddField::Ip => connect_typed(s, false),
            AddField::Pin => pair_typed(s),
        },
        Key::Char(c) => quiet(
            if is_control(c) {
                s
            } else {
                match s.add_field {
                    AddField::Ip => TuiView { add_ip: s.add_ip.push(c), ..s },
                    AddField::Pin => TuiView { add_pin: s.add_pin.push(c), ..s },
                }
            },
        ),
        _ => quiet(s),
    }
}

/// The state with a library in place of the one that is open.
pub open spec fn with_browser(s: TuiView, b: BrowserView) -> TuiView {
    TuiView { browser: Some(b), ..s }
}

/// The prompt for a new name.
pub open spec fn rename_prompt(entry: RemoteEntryView) -> PromptView {
    PromptView {
        title: "Rename"@,
        detail: "Rename "@ + entry.name,
        input: entry.name,
        kind: PromptKindView::Rename { path: entry.path, current_name: entry.name },
    }
}

/// The prompt that has a deletion confirmed.
pub open spec fn delete_prompt(entry: RemoteEntryView) -> PromptView {
    PromptView {
        title: "Delete"@,
        detail: "Type DELETE to remove "@ + entry.name,
        input: ""@,
        kind: PromptKindView::Delete { path: entry.path },
    }
}

/// The prompt for what is uploaded into a folder, with more said after it.
pub open spec fn import_prompt(folder: Seq<char>, more: Seq<char>) -> PromptView {
    PromptView {
        title: "Import"@,
        detail: "Local file or folder to upload into "@ + folder + more,
        input: ""@,
        kind: PromptKindView::Import { folder },
    }
}

/// The prompt for where a file is downloaded to, with more said after it.
pub open spec fn export_prompt(entry: RemoteEntryView, more: Seq<char>) -> PromptView {
    PromptView {
        title: "Export"@,
        detail: "Save path for "@ + entry.name + more,
        input: entry.name,
        kind: PromptKindView::Export { entry },
    }
}

/// The state with a prompt.
pub open spec fn asking(s: TuiView, prompt: PromptView) -> Outcome {
    quiet(TuiView { prompt: Some(prompt), ..s })
}

/// Opening an entry: a file is opened, of a folder that is refused.
pub open spec fn open_entry(s: TuiView, b: BrowserView, entry: RemoteEntryView) -> Outcome {
    if entry.entry_type == RemoteEntryType::Folder {
        quiet(with_browser(s, b.saying("Open works for files only."@)))
    } else {
        (s, EffectView::OpenFile(entry))
    }
}

/// Opening the selected file, or folding or unfolding the selected folder.
pub open spec fn open_or_toggle(s: TuiView, b: BrowserView) -> Outcome {
    match b.selected() {
        None => quiet(s),
        Some(entry) => if entry.entry_type == RemoteEntryType::Folder {
            (
                with_browser(s, BrowserView { expanded: toggled(b.expanded, entry.path), ..b }),
                EffectView::Load(entry.path),
            )
        } else {
            open_entry(s, b, entry)
        },
    }
}

/// Opening the menu of what can be done.
pub open spec fn open_menu(s: TuiView, b: BrowserView, x: u16, y: u16) -> TuiView {
    TuiView {
        context_menu: Some(MenuView { x, y, selected: 0, buttons: action_buttons(b) }),
        ..s
    }
}

/// A key in the library, where no search is being typed.
pub open spec fn library_key(s: TuiView, b: BrowserView, key: Key) -> Outcome {
    let rows = b.rows();
    match key {
        Key::Char('q') => quiet(TuiView { should_quit: true, ..s }),
        Key::Esc | Key::Char('b') => (TuiView { screen: Screen::Launcher, ..s }, EffectView::Scan),
        Key::Char('m') => quiet(open_menu(s, b, 8, 8)),
        Key::Char('/') => quiet(
            with_browser(
                s,
                BrowserView {
                    search_mode: true,
                    ..b.saying(
                        "Recursive search mode. Type to filter, Enter to keep, Esc to exit."@,
                    )
                },
            ),
        ),
        Key::Down | Key::Char('j') => quiet(
            if rows.len() > 0 {
                let row = row_below(b.selected_row, rows.len());
                with_browser(
                    s,
                    BrowserView {
                        selected_row: row,
                        selected_path: Some(rows[row as int].entry.path),
                        ..b
                    },
                )
            } else {
                s
            },
        ),
        Key::Up | Key::Char('k') => {
            let row = row_above(b.selected_row);
            quiet(
                with_browser(
                    s,
                    BrowserView {
                        selected_row: row,
                        selected_path: if row < rows.len() {
                            Some(rows[row as int].entry.path)
                        } else {
                            b.selected_path
                        },
                        ..b
                    },
                ),
            )
        },
        Key::Char('r') => match b.selected() {
            Some(entry) => asking(s, rename_prompt(entry)),
            None => quiet(with_browser(s, b.saying("Select a file or folder first."@))),
        },
        Key::Char('d') => match b.selected() {
            Some(entry) => asking(s, delete_prompt(entry)),
            None => quiet(s),
        },
        Key::Char('i') => asking(s, import_prompt(b.target_folder(), ""@)),
        Key::Char('e') => match b.selected() {
            Some(entry) => if entry.entry_type == RemoteEntryType::Folder {
                quiet(with_browser(s, b.saying("Export works for files only."@)))
            } else {
                asking(s, export_prompt(entry, ""@))
            },
            None => quiet(s),
        },
        Key::Char('o') => match b.selected() {
            Some(entry) => open_entry(s, b, entry),
            None => quiet(s),
        },
        Key::Char('R') => (s, EffectView::Reload),
        Key::Enter | Key::Right | Key::Char(' ') => open_or_toggle(s, b),
        Key::Left => quiet(
            match b.selected() {
                Some(entry) if entry.entry_type == RemoteEntryType::Folder => with_browser(
                    s,
                    BrowserView { expanded: b.expanded.remove(entry.path), ..b },
                ),
                _ => s,
            },
        ),
        _ => quiet(s),
    }
}

/// Starting the search that the query asks for, or ending any.
pub open spec fn search_started(s: TuiView, b: BrowserView) -> Outcome {
    let query = trimmed(b.search_query);
    if query.len() == 0 {
        quiet(
            TuiView {
                searching: false,
                ..with_browser(s, BrowserView { search_results: None, search_progress: None, ..b })
            },
        )
    } else {
        (
            TuiView {
                searching: true,
                ..with_browser(
                    s,
                    BrowserView {
                        search_results: Some(Seq::empty()),
                        search_progress: Some("Searching '"@ + query + "'..."@),
                        ..b
                    },
                )
            },
            EffectView::Search(b.root_path, query),
        )
    }
}

/// What a key does to the search that is being typed.
pub open spec fn search_edited(b: BrowserView, key: Key) -> BrowserView {
    match key {
        Key::Esc => if b.search_query.len() == 0 {
            BrowserView {
                search_mode: false,
                search_results: None,
                search_progress: None,
                ..b.saying("Search closed."@)
            }
        } else {
            BrowserView {
                search_mode: false,
                ..b.saying(
                    "Search kept: "@ + b.search_query + " matching recursively under "@
                        + b.root_path + "."@,
                )
            }
        },
        Key::Enter => BrowserView {
            search_mode: false,
            ..b.saying(
                if b.search_query.len() == 0 {
                    "Search cleared."@
                } else {
                    "Filtered recursively by '"@ + b.search_query + "'."@
                },
            )
        },
        Key::Backspace => BrowserView {
            search_query: shortened(b.search_query),
            selected_row: 0,
            ..b
        },
        Key::Char(c) => if is_control(c) {
            b
        } else {
            BrowserView { search_query: b.search_query.push(c), selected_row: 0, ..b }
        },
        _ => b,
    }
}

/// The library with its first row selected, or nothing where there is none.
pub open spec fn first_selected(b: BrowserView) -> BrowserView {
    BrowserView {
        selected_path: if b.rows().len() > 0 {
            Some(b.rows()[0].entry.path)
        } else {
            None
        },
        ..b
    }
}

/// A key while a search is being typed: the query is edited and searched for,
/// and the first row is selected.
pub open spec fn search_key(s: TuiView, b: BrowserView, key: Key) -> Outcome {
    let (next, effect) = search_started(s, search_edited(b, key));
    (with_browser(next, first_selected(next.browser->Some_0)), effect)
}

/// A key on the screen of the library.
pub open spec fn browser_key(s: TuiView, key: Key) -> Outcome {
    match s.browser {
        None => quiet(TuiView { screen: Screen::Launcher, ..s }),
        Some(b) => if b.search_mode {
            search_key(s, b, key)
        } else {
            library_key(s, b, key)
        },
    }
}

/// The state with a message in the library, if one is open.
pub open spec fn browser_saying(s: TuiView, message: Seq<char>) -> TuiView {
    match s.browser {
        Some(b) => with_browser(s, b.saying(message)),
        None => s,
    }
}

/// A confirmed prompt, on the state without it.
pub open spec fn prompt_applied(s: TuiView, prompt: PromptView) -> Outcome {
    let input = trimmed(prompt.input);
    match prompt.kind {
        PromptKindView::Rename { path, current_name } => if input.len() == 0 || input
            == current_name {
            quiet(browser_saying(s, "Rename cancelled."@))
        } else {
            (s, EffectView::Rename(path, input))
        },
        PromptKindView::Delete { path } => if input != "DELETE"@ {
            quiet(browser_saying(s, "Delete cancelled."@))
        } else {
            (s, EffectView::Delete(path))
        },
        PromptKindView::Import { folder } => (s, EffectView::Import(input, folder)),
        PromptKindView::Export { entry } => if input.len() == 0 {
            quiet(browser_saying(s, "Export cancelled."@))
        } else {
            (s, EffectView::Export(entry.path, input))
        },
    }
}

/// A key in a prompt.
pub open spec fn prompt_key(s: TuiView, prompt: PromptView, key: Key) -> Outcome {
    match key {
        Key::Esc => quiet(TuiView { prompt: None, ..s }),
        Key::Backspace => asking(s, PromptView { input: shortened(prompt.input), ..prompt }),
        Key::Enter => prompt_applied(TuiView { prompt: None, ..s }, prompt),
        Key::Char(c) => if is_control(c) {
            quiet(s)
        } else {
            asking(s, PromptView { input: prompt.input.push(c), ..prompt })
        },
        _ => quiet(s),
    }
}

/// Doing what a button is for.
pub open spec fn action_run(s: TuiView, action: ActionView) -> Outcome {
    match action {
        ActionView::OpenOrToggle => match s.browser {
            Some(b) => open_or_toggle(s, b),
            None => quiet(s),
        },
        ActionView::ImportInto(folder) => asking(
            s,
            import_prompt(folder, ". You can paste or drop a path here."@),
        ),
        ActionView::Export(entry) => asking(
            s,
            export_prompt(entry, ". You can paste or drop a destination path here."@),
        ),
        ActionView::RevealLocalCopy(entry) => if entry.entry_type == RemoteEntryType::Folder {
            quiet(browser_saying(s, "Reveal local copy works for files only."@))
        } else {
            (s, EffectView::Reveal(entry))
        },
        ActionView::Rename(entry) => asking(s, rename_prompt(entry)),
        ActionView::Delete(entry) => asking(s, delete_prompt(entry)),
        ActionView::Reload => (s, EffectView::Reload),
        ActionView::Back => (TuiView { screen: Screen::Launcher, ..s }, EffectView::Scan),
    }
}

/// A key in a menu.
pub open spec fn menu_key(s: TuiView, menu: MenuView, key: Key) -> Outcome {
    let closed = TuiView { context_menu: None, ..s };
    match key {
        Key::Esc => quiet(closed),
        Key::Down | Key::Char('j') => quiet(
            if menu.buttons.len() > 0 {
                TuiView {
                    context_menu: Some(
                        MenuView { selected: row_below(menu.selected, menu.buttons.len()), ..menu },
                    ),
                    ..s
                }
            } else {
                s
            },
        ),
        Key::Up | Key::Char('k') => quiet(
            TuiView {
                context_menu: Some(MenuView { selected: row_above(menu.selected), ..menu }),
                ..s
            },
        ),
        Key::Enter => if menu.selected < menu.buttons.len() {
            action_run(closed, menu.buttons[menu.selected as int].action)
        } else {
            quiet(closed)
        },
        _ => quiet(s),
    }
}

/// A key: a prompt takes it first, then a menu, then the screen.
pub open spec fn key_pressed(s: TuiView, key: Key) -> Outcome {
    match s.prompt {
        Some(prompt) => prompt_key(s, prompt, key),
        None => match s.context_menu {
            Some(menu) => menu_key(s, menu, key),
            None => match s.screen {
                Screen::Launcher => launcher_key(s, key),
                Screen::AddDevice => add_device_key(s, key),
                Screen::Browser => browser_key(s, key),
            },
        },
    }
}

/// The library with its selection within the rows.
pub open spec fn selection_kept(b: BrowserView) -> BrowserView {
    let rows = b.rows();
    if rows.len() == 0 {
        BrowserView { selected_row: 0, selected_path: None, ..b }
    } else {
        let row = if b.selected_row < rows.len() {
            b.selected_row
        } else {
            (rows.len() - 1) as usize
        };
        BrowserView { selected_row: row, selected_path: Some(rows[row as int].entry.path), ..b }
    }
}

/// A pasted text: it goes into a prompt, into the search that is being typed, or
/// into the field of the screen that adds a device.
pub open spec fn text_pasted(s: TuiView, text: Seq<char>) -> Outcome {
    let more = pasted(text);
    match s.prompt {
        Some(prompt) => asking(s, PromptView { input: prompt.input + more, ..prompt }),
        None => match s.screen {
            Screen::Browser => match s.browser {
                Some(b) if b.search_mode => {
                    let (next, effect) = search_started(
                        s,
                        BrowserView { search_query: b.search_query + more, selected_row: 0, ..b },
                    );
                    (with_browser(next, selection_kept(next.browser->Some_0)), effect)
                },
                _ => quiet(s),
            },
            Screen::AddDevice => quiet(
                match s.add_field {
                    AddField::Ip => TuiView { add_ip: s.add_ip + more, ..s },
                    AddField::Pin => TuiView { add_pin: s.add_pin + more, ..s },
                },
            ),
            Screen::Launcher => quiet(s),
        },
    }
}

fn make_rename_prompt(entry: &RemoteEntry) -> (r: PromptState)
    ensures
        r.deep_view() == rename_prompt(entry.deep_view()),
{
    PromptState {
        title: "Rename".to_owned(),
        detail: cat2("Rename ", entry.name.as_str()),
        input: entry.name.as_str().to_owned(),
        kind: PromptKind::Rename {
            path: entry.path.as_str().to_owned(),
            current_name: entry.name.as_str().to_owned(),
        },
    }
}

fn make_delete_prompt(entry: &RemoteEntry) -> (r: PromptState)
    ensures
        r.deep_view() == delete_prompt(entry.deep_view()),
{
    PromptState {
        title: "Delete".to_owned(),
        detail: cat2("Type DELETE to remove ", entry.name.as_str()),
        input: "".to_owned(),
        kind: PromptKind::Delete { path: entry.path.as_str().to_owned() },
    }
}

fn make_import_prompt(folder: String, more: &str) -> (r: PromptState)
    ensures
        r.deep_view() == import_prompt(folder@, more@),
{
    PromptState {
        title: "Import".to_owned(),
        detail: cat3("Local file or folder to upload into ", folder.as_str(), more),
        input: "".to_owned(),
        kind: PromptKind::Import { folder },
    }
}

fn make_export_prompt(entry: RemoteEntry, more: &str) -> (r: PromptState)
    ensures
        r.deep_view() == export_prompt(entry.deep_view(), more@),
{
    PromptState {
        title: "Export".to_owned(),
        detail: cat3("Save path for ", entry.name.as_str(), more),
        input: entry.name.as_str().to_owned(),
        kind: PromptKind::Export { entry },
    }
}

impl BrowserState {
    /// Selects the first row, or nothing where there is none.
    fn select_first(&mut self)
        ensures
            final(self).deep_view() == first_selected(old(self).deep_view()),
    {
        let rows = self.visible_nodes();
        let ghost views = row_views(rows@);
        if rows.len() > 0 {
            assert(views[0] == rows@[0].deep_view());
            self.selected_path = Some(rows[0].entry.path.as_str().to_owned());
        } else {
            self.selected_path = None;
        }
    }

    /// Keeps the selection within the rows.
    pub fn sync_browser_selection(&mut self)
        ensures
            final(self).deep_view() == selection_kept(old(self).deep_view()),
    {
        let rows = self.visible_nodes();
        let ghost views = row_views(rows@);
        let count: usize = rows.len();
        if count == 0 {
            self.selected_row = 0;
            self.selected_path = None;
        } else {
            if self.selected_row >= count {
                self.selected_row = count - 1;
            }
            assert(views[self.selected_row as int] == rows@[self.selected_row as int].deep_view());
            self.selected_path = Some(rows[self.selected_row].entry.path.as_str().to_owned());
        }
    }

    /// Edits the search that is being typed.
    fn edit_search(&mut self, key: Key)
        ensures
            final(self).deep_view() == search_edited(old(self).deep_view(), key),
    {
        match key {
            Key::Esc => {
                self.search_mode = false;
                if is_blank(self.search_query.as_str()) {
                    self.message = Some("Search closed.".to_owned());
                    self.search_results = None;
                    self.search_progress = None;
                } else {
                    self.message = Some(
                        cat5(
                            "Search kept: ",
                            self.search_query.as_str(),
                            " matching recursively under ",
                            self.root_path.as_str(),
                            ".",
                        ),
                    );
                }
            },
            Key::Enter => {
                self.search_mode = false;
                self.message = Some(
                    if is_blank(self.search_query.as_str()) {
                        "Search cleared.".to_owned()
                    } else {
                        cat3("Filtered recursively by '", self.search_query.as_str(), "'.")
                    },
                );
            },
            Key::Backspace => {
                self.search_query = without_last(self.search_query.as_str());
                self.selected_row = 0;
            },
            Key::Char(c) => {
                if !control(c) {
                    self.search_query.push(c);
                    self.selected_row = 0;
                }
            },
            _ => {},
        }
    }
}

/// What a device's library is opened at.
fn first_addr(device: &DeviceSummary) -> (r: Option<String>)
    ensures
        r.deep_view() == if device.deep_view().reachable_addrs.len() > 0 {
            Some(device.deep_view().reachable_addrs[0])
        } else {
            None
        },
{
    if device.reachable_addrs.len() > 0 {
        assert(device.deep_view().reachable_addrs[0] == device.reachable_addrs@[0]@);
        Some(device.reachable_addrs[0].as_str().to_owned())
    } else {
        None
    }
}

impl TuiApp {
    /// Opens the library of a device.
    pub fn open_browser(&mut self, device: DeviceSummary) -> (r: Effect)
        ensures
            (final(self).deep_view(), r.deep_view()) == opened(
                old(self).deep_view(),
                device.deep_view(),
            ),
    {
        let addr = first_addr(&device);
        self.browser = Some(BrowserState::new(device));
        self.screen = Screen::Browser;
        Effect::OpenLibrary(addr)
    }

    /// Opens the library of a paired device, or offers another one for pairing.
    pub fn choose_device(&mut self, device: DeviceSummary) -> (r: Effect)
        ensures
            (final(self).deep_view(), r.deep_view()) == chosen(
                old(self).deep_view(),
                device.deep_view(),
            ),
    {
        if device.paired {
            return self.open_browser(device);
        }
        if let Some(addr) = first_addr(&device) {
            self.add_ip = addr;
        }
        self.screen = Screen::AddDevice;
        self.add_message = Some("Device detected but not paired yet.".to_owned());
        Effect::Nothing
    }

    /// Handles a key on the launcher.
    pub fn handle_launcher_key(&mut self, key: Key) -> (r: Effect)
        ensures
            (final(self).deep_view(), r.deep_view()) == launcher_key(old(self).deep_view(), key),
    {
        match key {
            Key::Char('q') => {
                self.should_quit = true;
                Effect::Nothing
            },
            Key::Char('r') => Effect::Scan,
            Key::Down | Key::Char('j') => {
                if self.devices.len() > 0 {
                    self.launcher_index = below(self.launcher_index, self.devices.len());
                }
                Effect::Nothing
            },
            Key::Up | Key::Char('k') => {
                self.launcher_index = above(self.launcher_index);
                Effect::Nothing
            },
            Key::Enter => {
                let index = self.launcher_index;
                if index < self.devices.len() {
                    let device = self.devices[index].clone();
                    assert(device.deep_view() == self.deep_view().devices[index as int]);
                    self.choose_device(device)
                } else {
                    Effect::Nothing
                }
            },
            Key::Char('a') => {
                self.screen = Screen::AddDevice;
                self.add_message = None;
                Effect::Nothing
            },
            Key::Char('u') => Effect::RecoverUsb,
            _ => Effect::Nothing,
        }
    }

    /// Asks for a connection to the address that was typed.
    pub fn connect_current_ip(&mut self, then_open: bool) -> (r: Effect)
        ensures
            (final(self).deep_view(), r.deep_view()) == connect_typed(
                old(self).deep_view(),
                then_open,
            ),
    {
        let ip = trim(self.add_ip.as_str());
        if is_blank(ip.as_str()) {
            self.add_message = Some("Device IP is required.".to_owned());
            Effect::Nothing
        } else if then_open {
            Effect::ConnectThenOpen(ip)
        } else {
            Effect::Connect(ip)
        }
    }

    /// Asks for a pairing with the PIN that was typed.
    pub fn pair_current_pin(&mut self) -> (r: Effect)
        ensures
            (final(self).deep_view(), r.deep_view()) == pair_typed(old(self).deep_view()),
    {
        let pin = trim(self.add_pin.as_str());
        if is_blank(pin.as_str()) {
            self.add_message = Some("PIN is required.".to_owned());
            Effect::Nothing
        } else {
            Effect::Pair(pin)
        }
    }

    /// Handles a key on the screen that adds a device.
    pub fn handle_add_device_key(&mut self, key: Key) -> (r: Effect)
        ensures
            (final(self).deep_view(), r.deep_view()) == add_device_key(old(self).deep_view(), key),
    {
        match key {
            Key::Esc => {
                self.screen = Screen::Launcher;
                self.add_message = None;
                Effect::Nothing
            },
            Key::Tab | Key::BackTab => {
                self.add_field = match self.add_field {
                    AddField::Ip => AddField::Pin,
                    AddField::Pin => AddField::Ip,
                };
                Effect::Nothing
            },
            Key::Backspace => {
                match self.add_field {
                    AddField::Ip => {
                        self.add_ip = without_last(self.add_ip.as_str());
                    },
                    AddField::Pin => {
                        self.add_pin = without_last(self.add_pin.as_str());
                    },
                }
                Effect::Nothing
            },
            Key::Char('c') => self.connect_current_ip(false),
            Key::Char('p') => self.pair_current_pin(),
            Key::Char('o') => {
                let connected = match &self.add_connected {
                    Some(device) => Some(device.clone()),
                    None => None,
                };
                match connected {
                    Some(device) => self.open_browser(device),
                    None => self.connect_current_ip(true),
                }
            },
            Key::Enter => match self.add_field {
                AddField::Ip => self.connect_current_ip(false),
                AddField::Pin => self.pair_current_pin(),
            },
            Key::Char(c) => {
                if !control(c) {
                    match self.add_field {
                        AddField::Ip => {
                            self.add_ip.push(c);
                        },
                        AddField::Pin => {
                            self.add_pin.push(c);
                        },
                    }
                }
                Effect::Nothing
            },
            _ => Effect::Nothing,
        }
    }

    /// Shows a prompt.
    fn ask(&mut self, prompt: PromptState) -> (r: Effect)
        ensures
            (final(self).deep_view(), r.deep_view()) == asking(
                old(self).deep_view(),
                prompt.deep_view(),
            ),
    {
        self.prompt = Some(prompt);
        Effect::Nothing
    }

    /// Shows a message in the library, if one is open.
    pub fn browser_message(&mut self, message: &str)
        ensures
            final(self).deep_view() == browser_saying(old(self).deep_view(), message@),
    {
        if let Some(mut b) = self.browser.take() {
            b.message = Some(message.to_owned());
            self.browser = Some(b);
        }
    }

    /// Opens an entry.
    fn open_this(&mut self, entry: RemoteEntry) -> (r: Effect)
        requires
            old(self).browser is Some,
        ensures
            (final(self).deep_view(), r.deep_view()) == open_entry(
                old(self).deep_view(),
                old(self).deep_view().browser->Some_0,
                entry.deep_view(),
            ),
    {
        if entry.entry_type == RemoteEntryType::Folder {
            self.browser_message("Open works for files only.");
            Effect::Nothing
        } else {
            Effect::OpenFile(entry)
        }
    }

    /// The selected entry of the library that is open.
    pub fn selected_entry(&self) -> (r: Option<RemoteEntry>)
        ensures
            r.deep_view() == match self.deep_view().browser {
                Some(b) => b.selected(),
                None => None,
            },
    {
        match &self.browser {
            Some(b) => b.selected_browser_entry(),
            None => None,
        }
    }

    /// Opens the selected file, or folds or unfolds the selected folder.
    pub(crate) fn open_selected(&mut self) -> (r: Effect)
        requires
            old(self).browser is Some,
        ensures
            (final(self).deep_view(), r.deep_view()) == open_or_toggle(
                old(self).deep_view(),
                old(self).deep_view().browser->Some_0,
            ),
    {
        let entry = match self.selected_entry() {
            None => {
                return Effect::Nothing;
            },
            Some(entry) => entry,
        };
        if entry.entry_type == RemoteEntryType::Folder {
            if let Some(mut b) = self.browser.take() {
                b.expanded_folders.toggle(entry.path.as_str());
                self.browser = Some(b);
            }
            Effect::Load(entry.path)
        } else {
            self.open_this(entry)
        }
    }

    /// Opens the menu of what can be done.
    pub(crate) fn open_browser_context_menu(&mut self, x: u16, y: u16)
        requires
            old(self).browser is Some,
        ensures
            final(self).deep_view() == open_menu(
                old(self).deep_view(),
                old(self).deep_view().browser->Some_0,
                x,
                y,
            ),
    {
        if let Some(b) = &self.browser {
            let buttons = b.browser_action_buttons();
            self.context_menu = Some(ContextMenuState { x, y, selected: 0, buttons });
        }
    }

    /// Handles a key in the library, where no search is being typed.
    fn handle_library_key(&mut self, key: Key) -> (r: Effect)
        requires
            old(self).browser is Some,
        ensures
            (final(self).deep_view(), r.deep_view()) == library_key(
                old(self).deep_view(),
                old(self).deep_view().browser->Some_0,
                key,
            ),
    {
        match key {
            Key::Char('q') => {
                self.should_quit = true;
                Effect::Nothing
            },
            Key::Esc | Key::Char('b') => {
                self.screen = Screen::Launcher;
                Effect::Scan
            },
            Key::Char('m') => {
                self.open_browser_context_menu(8, 8);
                Effect::Nothing
            },
            Key::Char('/') => {
                if let Some(mut b) = self.browser.take() {
                    b.search_mode = true;
                    b.message = Some(
                        "Recursive search mode. Type to filter, Enter to keep, Esc to exit.".to_owned(),
                    );
                    self.browser = Some(b);
                }
                Effect::Nothing
            },
            Key::Down | Key::Char('j') => {
                if let Some(mut b) = self.browser.take() {
                    let rows = b.visible_nodes();
                    let ghost views = row_views(rows@);
                    if rows.len() > 0 {
                        let row = below(b.selected_row, rows.len());
                        assert(views[row as int] == rows@[row as int].deep_view());
                        b.selected_row = row;
                        b.selected_path = Some(rows[row].entry.path.as_str().to_owned());
                    }
                    self.browser = Some(b);
                }
                Effect::Nothing
            },
            Key::Up | Key::Char('k') => {
                if let Some(mut b) = self.browser.take() {
                    let rows = b.visible_nodes();
                    let ghost views = row_views(rows@);
                    let row = above(b.selected_row);
                    b.selected_row = row;
                    if row < rows.len() {
                        assert(views[row as int] == rows@[row as int].deep_view());
                        b.selected_path = Some(rows[row].entry.path.as_str().to_owned());
                    }
                    self.browser = Some(b);
                }
                Effect::Nothing
            },
            Key::Char('r') => match self.selected_entry() {
                Some(entry) => self.ask(make_rename_prompt(&entry)),
                None => {
                    self.browser_message("Select a file or folder first.");
                    Effect::Nothing
                },
            },
            Key::Char('d') => match self.selected_entry() {
                Some(entry) => self.ask(make_delete_prompt(&entry)),
                None => Effect::Nothing,
            },
            Key::Char('i') => {
                let folder = match &self.browser {
                    Some(b) => b.target_folder(),
                    None => String::new(),
                };
                self.ask(make_import_prompt(folder, ""))
            },
            Key::Char('e') => match self.selected_entry() {
                Some(entry) => if entry.entry_type == RemoteEntryType::Folder {
                    self.browser_message("Export works for files only.");
                    Effect::Nothing
                } else {
                    self.ask(make_export_prompt(entry, ""))
                },
                None => Effect::Nothing,
            },
            Key::Char('o') => match self.selected_entry() {
                Some(entry) => self.open_this(entry),
                None => Effect::Nothing,
            },
            Key::Char('R') => Effect::Reload,
            Key::Enter | Key::Right | Key::Char(' ') => self.open_selected(),
            Key::Left => {
                if let Some(entry) = self.selected_entry() {
                    if entry.entry_type == RemoteEntryType::Folder {
                        if let Some(mut b) = self.browser.take() {
                            b.expanded_folders.remove(entry.path.as_str());
                            self.browser = Some(b);
                        }
                    }
                }
                Effect::Nothing
            },
            _ => Effect::Nothing,
        }
    }

    /// Starts the search that a library's query asks for, or ends any; `b` takes
    /// the place of the library that is open.
    fn start_search(&mut self, b: BrowserState) -> (r: Effect)
        ensures
            (final(self).deep_view(), r.deep_view()) == search_started(
                old(self).deep_view(),
                b.deep_view(),
            ),
    {
        let mut b = b;
        let query = trim(b.search_query.as_str());
        if is_blank(query.as_str()) {
            b.search_results = None;
            b.search_progress = None;
            self.browser = Some(b);
            self.searching = false;
            return Effect::Nothing;
        }
        let none: Vec<TreeRow> = Vec::new();
        assert(row_views(none@) =~= Seq::<RowView>::empty());
        b.search_results = Some(none);
        b.search_progress = Some(cat3("Searching '", query.as_str(), "'..."));
        let root = b.root_path.as_str().to_owned();
        self.browser = Some(b);
        self.searching = true;
        Effect::Search(root, query)
    }

    /// Starts the search that the query asks for, or ends any.
    pub fn trigger_search_if_needed(&mut self) -> (r: Effect)
        ensures
            (final(self).deep_view(), r.deep_view()) == match old(self).deep_view().browser {
                Some(b) => search_started(old(self).deep_view(), b),
                None => quiet(old(self).deep_view()),
            },
    {
        match self.browser.take() {
            Some(b) => self.start_search(b),
            None => Effect::Nothing,
        }
    }

    /// Handles a key while a search is being typed.
    fn handle_browser_search_key(&mut self, key: Key) -> (r: Effect)
        requires
            old(self).browser is Some,
        ensures
            (final(self).deep_view(), r.deep_view()) == search_key(
                old(self).deep_view(),
                old(self).deep_view().browser->Some_0,
                key,
            ),
    {
        match self.browser.take() {
            Some(mut b) => {
                b.edit_search(key);
                let effect = self.start_search(b);
                if let Some(mut b) = self.browser.take() {
                    b.select_first();
                    self.browser = Some(b);
                }
                effect
            },
            None => Effect::Nothing,
        }
    }

    /// Handles a key on the screen of the library.
    pub fn handle_browser_key(&mut self, key: Key) -> (r: Effect)
        ensures
            (final(self).deep_view(), r.deep_view()) == browser_key(old(self).deep_view(), key),
    {
        let typing = match &self.browser {
            None => {
                self.screen = Screen::Launcher;
                return Effect::Nothing;
            },
            Some(b) => b.search_mode,
        };
        if typing {
            self.handle_browser_search_key(key)
        } else {
            self.handle_library_key(key)
        }
    }

    /// Applies a confirmed prompt.
    pub fn apply_prompt(&mut self, prompt: PromptState) -> (r: Effect)
        ensures
            (final(self).deep_view(), r.deep_view()) == prompt_applied(
                old(self).deep_view(),
                prompt.deep_view(),
            ),
    {
        let input = trim(prompt.input.as_str());
        match prompt.kind {
            PromptKind::Rename { path, current_name } => {
                if is_blank(input.as_str()) || same(input.as_str(), current_name.as_str()) {
                    self.browser_message("Rename cancelled.");
                    Effect::Nothing
                } else {
                    Effect::Rename(path, input)
                }
            },
            PromptKind::Delete { path } => {
                if !same(input.as_str(), "DELETE") {
                    self.browser_message("Delete cancelled.");
                    Effect::Nothing
                } else {
                    Effect::Delete(path)
                }
            },
            PromptKind::Import { folder } => Effect::Import(input, folder),
            PromptKind::Export { entry } => {
                if is_blank(input.as_str()) {
                    self.browser_message("Export cancelled.");
                    Effect::Nothing
                } else {
                    Effect::Export(entry.path, input)
                }
            },
        }
    }

    /// Handles a key in a prompt.
    fn handle_prompt_key(&mut self, key: Key) -> (r: Effect)
        requires
            old(self).prompt is Some,
        ensures
            (final(self).deep_view(), r.deep_view()) == prompt_key(
                old(self).deep_view(),
                old(self).deep_view().prompt->Some_0,
                key,
            ),
    {
        let mut prompt = match self.prompt.take() {
            Some(prompt) => prompt,
            None => {
                return Effect::Nothing;
            },
        };
        match key {
            Key::Esc => Effect::Nothing,
            Key::Backspace => {
                prompt.input = without_last(prompt.input.as_str());
                self.ask(prompt)
            },
            Key::Enter => self.apply_prompt(prompt),
            Key::Char(c) => {
                if !control(c) {
                    prompt.input.push(c);
                }
                self.ask(prompt)
            },
            _ => self.ask(prompt),
        }
    }

    /// Does what a button is for.
    pub fn run_browser_action(&mut self, action: BrowserAction) -> (r: Effect)
        ensures
            (final(self).deep_view(), r.deep_view()) == action_run(
                old(self).deep_view(),
                action.deep_view(),
            ),
    {
        match action {
            BrowserAction::OpenOrToggle => {
                if self.browser.is_some() {
                    self.open_selected()
                } else {
                    Effect::Nothing
                }
            },
            BrowserAction::ImportInto(folder) => self.ask(
                make_import_prompt(folder, ". You can paste or drop a path here."),
            ),
            BrowserAction::Export(entry) => self.ask(
                make_export_prompt(entry, ". You can paste or drop a destination path here."),
            ),
            BrowserAction::RevealLocalCopy(entry) => {
                if entry.entry_type == RemoteEntryType::Folder {
                    self.browser_message("Reveal local copy works for files only.");
                    Effect::Nothing
                } else {
                    Effect::Reveal(entry)
                }
            },
            BrowserAction::Rename(entry) => self.ask(make_rename_prompt(&entry)),
            BrowserAction::Delete(entry) => self.ask(make_delete_prompt(&entry)),
            BrowserAction::Reload => Effect::Reload,
            BrowserAction::Back => {
                self.screen = Screen::Launcher;
                Effect::Scan
            },
        }
    }

    /// Handles a key in a menu.
    fn handle_context_menu_key(&mut self, key: Key) -> (r: Effect)
        requires
            old(self).context_menu is Some,
        ensures
            (final(self).deep_view(), r.deep_view()) == menu_key(
                old(self).deep_view(),
                old(self).deep_view().context_menu->Some_0,
                key,
            ),
    {
        let mut menu = match self.context_menu.take() {
            Some(menu) => menu,
            None => {
                return Effect::Nothing;
            },
        };
        let ghost buttons = button_views(menu.buttons@);
        match key {
            Key::Esc => Effect::Nothing,
            Key::Down | Key::Char('j') => {
                if menu.buttons.len() > 0 {
                    menu.selected = below(menu.selected, menu.buttons.len());
                }
                self.context_menu = Some(menu);
                Effect::Nothing
            },
            Key::Up | Key::Char('k') => {
                menu.selected = above(menu.selected);
                self.context_menu = Some(menu);
                Effect::Nothing
            },
            Key::Enter => {
                if menu.selected < menu.buttons.len() {
                    assert(buttons[menu.selected as int]
                        == menu.buttons@[menu.selected as int].deep_view());
                    let action = menu.buttons[menu.selected].action.clone();
                    assert(action.deep_view() == buttons[menu.selected as int].action);
                    self.run_browser_action(action)
                } else {
                    Effect::Nothing
                }
            },
            _ => {
                self.context_menu = Some(menu);
                Effect::Nothing
            },
        }
    }

    /// Handles a key.
    pub fn handle_key(&mut self, key: Key) -> (r: Effect)
        ensures
            (final(self).deep_view(), r.deep_view()) == key_pressed(old(self).deep_view(), key),
    {
        if self.prompt.is_some() {
            return self.handle_prompt_key(key);
        }
        if self.context_menu.is_some() {
            return self.handle_context_menu_key(key);
        }
        match self.screen {
            Screen::Launcher => self.handle_launcher_key(key),
            Screen::AddDevice => self.handle_add_device_key(key),
            Screen::Browser => self.handle_browser_key(key),
        }
    }

    /// Handles a pasted text.
    pub fn handle_paste(&mut self, text: &str) -> (r: Effect)
        ensures
            (final(self).deep_view(), r.deep_view()) == text_pasted(old(self).deep_view(), text@),
    {
        let more = normalize_paste_text(text);
        if let Some(mut prompt) = self.prompt.take() {
            prompt.input = cat2(prompt.input.as_str(), more.as_str());
            return self.ask(prompt);
        }
        match self.screen {
            Screen::Browser => match self.browser.take() {
                Some(mut b) => {
                    if b.search_mode {
                        b.search_query = cat2(b.search_query.as_str(), more.as_str());
                        b.selected_row = 0;
                        let effect = self.start_search(b);
                        if let Some(mut b) = self.browser.take() {
                            b.sync_browser_selection();
                            self.browser = Some(b);
                        }
                        effect
                    } else {
                        self.browser = Some(b);
                        Effect::Nothing
                    }
                },
                None => Effect::Nothing,
            },
            Screen::AddDevice => {
                match self.add_field {
                    AddField::Ip => {
                        self.add_ip = cat2(self.add_ip.as_str(), more.as_str());
                    },
                    AddField::Pin => {
                        self.add_pin = cat2(self.add_pin.as_str(), more.as_str());
                    },
                }
                Effect::Nothing
            },
            Screen::Launcher => Effect::Nothing,
        }
    }
}

/// Leaving a prompt by escape changes nothing but the prompt, and asks for nothing.
pub proof fn escape_cancels_a_prompt(s: TuiView)
    requires
        s.prompt is Some,
    ensures
        key_pressed(s, Key::Esc) == quiet(TuiView { prompt: None, ..s }),
{
}

/// Nothing is deleted unless the prompt for it holds the word for it.
pub proof fn deletion_is_confirmed(s: TuiView, key: Key, path: Seq<char>)
    requires
        key_pressed(s, key).1 == EffectView::Delete(path),
    ensures
        key == Key::Enter,
        s.prompt matches Some(prompt) && prompt.kind == (PromptKindView::Delete { path })
            && trimmed(prompt.input) == "DELETE"@,
{
}

/// Keeping the selection within the rows leaves the rows alone; the selected row
/// is one of them, and the selected path is its path.
pub proof fn kept_selection_is_a_row(b: BrowserView)
    ensures
        selection_kept(b).rows() == b.rows(),
        b.rows().len() > 0 ==> selection_kept(b).selected_row < b.rows().len()
            && selection_kept(b).selected_path == Some(
            b.rows()[selection_kept(b).selected_row as int].entry.path,
        ) && selection_kept(b).selected() == Some(
            b.rows()[selection_kept(b).selected_row as int].entry,
        ),
        b.rows().len() == 0 ==> selection_kept(b).selected_path is None,
        selection_kept(selection_kept(b)) == selection_kept(b),
{
}

/// Unfolding and folding a folder by the same key gives the state back.
pub proof fn toggling_twice_folds_again(s: TuiView, b: BrowserView)
    requires
        s.browser == Some(b),
        b.selected() matches Some(entry) && entry.entry_type == RemoteEntryType::Folder,
        ({
            let once = open_or_toggle(s, b).0.browser->Some_0;
            once.selected() == b.selected()
        }),
    ensures
        ({
            let once = open_or_toggle(s, b).0;
            open_or_toggle(once, once.browser->Some_0).0 == s
        }),
{
    let entry = b.selected()->Some_0;
    let once = open_or_toggle(s, b).0;
    let twice = open_or_toggle(once, once.browser->Some_0).0;
    crate::tree::collections::toggle_twice(b.expanded, entry.path);
    assert(twice.browser->Some_0 =~= b);
    assert(twice =~= s);
}

} // verus!
