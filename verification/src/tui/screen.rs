//! What the screens of the terminal user interface show.
use crate::domain::{
    DeviceStatus, DeviceStatusView, DeviceSummary, DeviceSummaryView, RemoteEntryType,
};
use crate::numbers::{decimal, number_text};
use crate::text::{cat2, cat3, cat4, cat6, is_blank};
use crate::tree::collections::{row_views, RowView, TreeRow};
use crate::tui::state::{
    action_buttons, button_views, AddField, BrowserState, BrowserView, ButtonView, Label, TuiApp,
    TuiView,
};
use vstd::prelude::*;
use vstd::string::*;

verus! {

/// A device on the launcher.
pub struct DeviceLine {
    pub name: String,
    pub badge: String,
    pub addr: String,
}

/// The content of a [`DeviceLine`].
#[verifier::ext_equal]
pub struct DeviceLineView {
    pub name: Seq<char>,
    pub badge: Seq<char>,
    pub addr: Seq<char>,
}

impl DeepView for DeviceLine {
    type V = DeviceLineView;

    open spec fn deep_view(&self) -> DeviceLineView {
        DeviceLineView { name: self.name@, badge: self.badge@, addr: self.addr@ }
    }
}

/// How a device is shown on the launcher.
pub open spec fn device_line(device: DeviceSummaryView) -> DeviceLineView {
    DeviceLineView {
        name: device.name,
        badge: if device.paired {
            "[paired]"@
        } else {
            "[detected]"@
        },
        addr: if device.reachable_addrs.len() > 0 {
            device.reachable_addrs[0]
        } else {
            "unknown"@
        },
    }
}

/// The launcher.
pub struct LauncherScreen {
    /// What is said where there is no device.
    pub discovery: String,
    pub lines: Vec<DeviceLine>,
    pub selected: usize,
    pub status: String,
    pub transport: String,
}

/// What the launcher says where there is no device.
pub open spec fn discovery_text(s: TuiView) -> Seq<char> {
    match s.usb_candidate {
        Some(addr) => "USB endpoint detected at "@ + addr
            + ". Press 'u' to recover/recheck before pairing."@,
        None => match s.usb_hint {
            Some(hint) => hint,
            None =>
                "Looking for your Digital Paper device. Press 'r' to rescan or 'a' for manual setup."@,
        },
    }
}

/// The last line of the launcher.
pub open spec fn launcher_status(s: TuiView) -> Seq<char> {
    match s.launcher_message {
        Some(message) => message,
        None => match s.launcher_error {
            Some(error) => error,
            None =>
                "Keys: ↑↓ select  Enter open  a add device  u usb recover  r refresh  q quit"@,
        },
    }
}

/// A row within a list.
pub open spec fn within(row: usize, count: nat) -> usize {
    if row < count {
        row
    } else if count > 0 {
        (count - 1) as usize
    } else {
        0
    }
}

fn clamp_row(row: usize, count: usize) -> (r: usize)
    ensures
        r == within(row, count as nat),
{
    if row < count {
        row
    } else if count > 0 {
        count - 1
    } else {
        0
    }
}

/// The contents of lines.
pub open spec fn line_views(lines: Seq<DeviceLine>) -> Seq<DeviceLineView> {
    lines.map_values(|l: DeviceLine| l.deep_view())
}

fn show_device(device: &DeviceSummary) -> (r: DeviceLine)
    ensures
        r.deep_view() == device_line(device.deep_view()),
{
    let badge = if device.paired {
        "[paired]"
    } else {
        "[detected]"
    };
    let addr = if device.reachable_addrs.len() > 0 {
        assert(device.deep_view().reachable_addrs[0] == device.reachable_addrs@[0]@);
        device.reachable_addrs[0].as_str().to_owned()
    } else {
        "unknown".to_owned()
    };
    DeviceLine { name: device.name.as_str().to_owned(), badge: badge.to_owned(), addr }
}

/// The text of an option, or another one where it has none.
pub open spec fn text_or(text: Option<Seq<char>>, other: Seq<char>) -> Seq<char> {
    match text {
        Some(text) => text,
        None => other,
    }
}

fn show_or(text: &Option<String>, other: &str) -> (r: String)
    ensures
        r@ == text_or(text.deep_view(), other@),
{
    match text {
        Some(text) => text.as_str().to_owned(),
        None => other.to_owned(),
    }
}

/// The screen that adds a device.
pub struct AddDeviceScreen {
    pub ip: String,
    pub pin: String,
    pub ip_focused: bool,
    pub connected: String,
    pub status: String,
}

/// What the screen that adds a device says of the device that was connected.
pub open spec fn connected_text(s: TuiView) -> Seq<char> {
    match s.add_connected {
        Some(device) => device.name + " ("@ + (if device.reachable_addrs.len() > 0 {
            device.reachable_addrs[0]
        } else {
            ""@
        }) + ")"@,
        None => "Not connected yet"@,
    }
}

/// What is told of an entry's content.
#[derive(Debug, Clone, Copy, PartialEq, Eq, Structural)]
pub enum EntryMeta {
    Folder,
    /// Its size in bytes.
    Bytes(u64),
    File,
}

/// A row of the library as it is shown.
pub struct LibraryLine {
    pub depth: usize,
    pub icon: String,
    pub name: String,
    pub meta: EntryMeta,
}

/// The content of a [`LibraryLine`].
#[verifier::ext_equal]
pub struct LibraryLineView {
    pub depth: nat,
    pub icon: Seq<char>,
    pub name: Seq<char>,
    pub meta: EntryMeta,
}

impl DeepView for LibraryLine {
    type V = LibraryLineView;

    open spec fn deep_view(&self) -> LibraryLineView {
        LibraryLineView {
            depth: self.depth as nat,
            icon: self.icon@,
            name: self.name@,
            meta: self.meta,
        }
    }
}

/// How a row of the library is shown.
pub open spec fn library_line(row: RowView) -> LibraryLineView {
    LibraryLineView {
        depth: row.depth,
        icon: match row.entry.entry_type {
            RemoteEntryType::Folder => "▸"@,
            RemoteEntryType::Document => "•"@,
            RemoteEntryType::Unknown => "?"@,
        },
        name: row.entry.name,
        meta: match (row.entry.entry_type, row.entry.size) {
            (RemoteEntryType::Folder, _) => EntryMeta::Folder,
            (_, Some(bytes)) => EntryMeta::Bytes(bytes),
            _ => EntryMeta::File,
        },
    }
}

fn show_row(row: &TreeRow) -> (r: LibraryLine)
    ensures
        r.deep_view() == library_line(row.deep_view()),
{
    let icon = match row.entry.entry_type {
        RemoteEntryType::Folder => "▸",
        RemoteEntryType::Document => "•",
        RemoteEntryType::Unknown => "?",
    };
    let meta = match (row.entry.entry_type, row.entry.size) {
        (RemoteEntryType::Folder, _) => EntryMeta::Folder,
        (_, Some(bytes)) => EntryMeta::Bytes(bytes),
        _ => EntryMeta::File,
    };
    LibraryLine {
        depth: row.depth,
        icon: icon.to_owned(),
        name: row.entry.name.as_str().to_owned(),
        meta,
    }
}

/// The contents of rows as they are shown.
pub open spec fn library_lines(lines: Seq<LibraryLine>) -> Seq<LibraryLineView> {
    lines.map_values(|l: LibraryLine| l.deep_view())
}

/// The library as it is shown.
pub struct LibraryScreen {
    pub title: String,
    pub summary: String,
    pub progress: String,
    /// What is said where there is no row.
    pub empty: String,
    pub lines: Vec<LibraryLine>,
    pub selected: usize,
    pub battery: String,
    pub wifi: String,
    pub firmware: String,
    pub owner: String,
    pub buttons: Vec<Label>,
    pub status: String,
}

/// The second line of the library.
pub open spec fn summary_text(b: BrowserView) -> Seq<char> {
    b.root_path + "  |  "@ + decimal(b.rows().len()) + " items  |  search "@ + (
    if b.search_query.len() == 0 {
        "off"@
    } else {
        b.search_query
    }) + (if b.search_mode {
        " _"@
    } else {
        ""@
    })
}

/// What the library says where there is no row.
pub open spec fn empty_text(b: BrowserView) -> Seq<char> {
    if b.search_query.len() == 0 {
        "This folder is empty. Press 'i' to import a file."@
    } else {
        "No recursive matches. Press '/' to edit search or backspace inside search mode."@
    }
}

/// The battery level as it is shown.
pub open spec fn battery_text(status: Option<DeviceStatusView>) -> Seq<char> {
    match status {
        Some(status) => match status.battery.level_percent {
            Some(level) => decimal(level as nat) + "%"@,
            None => "unknown"@,
        },
        None => "unknown"@,
    }
}

/// The Wi-Fi state as it is shown.
pub open spec fn wifi_text(status: Option<DeviceStatusView>) -> Seq<char> {
    match status {
        Some(status) if status.wifi_enabled => "on"@,
        _ => "off"@,
    }
}

/// Whether a screen shows a library: one line for each row, the selected one
/// among them, the device's state and the buttons.
pub open spec fn shows_library(screen: LibraryScreen, b: BrowserView) -> bool {
    &&& screen.title@ == b.device.name
    &&& screen.summary@ == summary_text(b)
    &&& screen.progress@ == text_or(b.search_progress, "Press '/' for recursive search."@)
    &&& screen.empty@ == empty_text(b)
    &&& library_lines(screen.lines@) == b.rows().map_values(|r: RowView| library_line(r))
    &&& screen.selected == within(b.selected_row, b.rows().len())
    &&& screen.battery@ == battery_text(b.status)
    &&& screen.wifi@ == wifi_text(b.status)
    &&& screen.firmware@ == text_or(
        match b.status {
            Some(status) => status.firmware_version,
            None => None,
        },
        "unknown"@,
    )
    &&& screen.owner@ == text_or(
        match b.status {
            Some(status) => status.owner,
            None => None,
        },
        "unknown"@,
    )
    &&& screen.buttons@ == action_buttons(b).map_values(|a: ButtonView| a.label)
    &&& screen.status@ == text_or(
        b.message,
        "Keys: ↑↓ move  Enter open/toggle  / search  right click menu  mouse click/select  wheel scroll  drag/paste path into prompts  q quit"@,
    )
}

fn show_battery(status: &Option<DeviceStatus>) -> (r: String)
    ensures
        r@ == battery_text(status.deep_view()),
{
    match status {
        Some(status) => match status.battery.level_percent {
            Some(level) => cat2(number_text(level as u64).as_str(), "%"),
            None => "unknown".to_owned(),
        },
        None => "unknown".to_owned(),
    }
}

fn show_summary(b: &BrowserState, count: usize) -> (r: String)
    requires
        count == b.deep_view().rows().len(),
    ensures
        r@ == summary_text(b.deep_view()),
{
    let query = if is_blank(b.search_query.as_str()) {
        "off"
    } else {
        b.search_query.as_str()
    };
    let cursor = if b.search_mode {
        " _"
    } else {
        ""
    };
    let number = number_text(count as u64);
    cat6(b.root_path.as_str(), "  |  ", number.as_str(), " items  |  search ", query, cursor)
}

fn show_rows(rows: &Vec<TreeRow>) -> (r: Vec<LibraryLine>)
    ensures
        library_lines(r@) == row_views(rows@).map_values(|r: RowView| library_line(r)),
{
    let mut out: Vec<LibraryLine> = Vec::new();
    for i in 0..rows.len()
        invariant
            out@.len() == i,
            forall|k: int|
                0 <= k < i ==> (#[trigger] out@[k]).deep_view() == library_line(
                    rows@[k].deep_view(),
                ),
    {
        let line = show_row(&rows[i]);
        out.push(line);
    }
    assert(library_lines(out@) =~= row_views(rows@).map_values(|r: RowView| library_line(r)));
    out
}

impl BrowserState {
    /// The library as it is shown.
    pub fn draw_browser(&self) -> (r: LibraryScreen)
        ensures
            shows_library(r, self.deep_view()),
    {
        let rows = self.visible_nodes();
        let buttons = self.browser_action_buttons();
        let ghost views = button_views(buttons@);
        let mut labels: Vec<Label> = Vec::new();
        for i in 0..buttons.len()
            invariant
                views == button_views(buttons@),
                labels@.len() == i,
                forall|k: int| 0 <= k < i ==> #[trigger] labels@[k] == views[k].label,
        {
            assert(views[i as int] == buttons@[i as int].deep_view());
            labels.push(buttons[i].label);
        }
        assert(labels@ =~= views.map_values(|a: ButtonView| a.label));
        let empty = if is_blank(self.search_query.as_str()) {
            "This folder is empty. Press 'i' to import a file."
        } else {
            "No recursive matches. Press '/' to edit search or backspace inside search mode."
        };
        let (wifi, firmware, owner) = match &self.status {
            Some(status) => (
                if status.wifi_enabled {
                    "on"
                } else {
                    "off"
                },
                show_or(&status.firmware_version, "unknown"),
                show_or(&status.owner, "unknown"),
            ),
            None => ("off", "unknown".to_owned(), "unknown".to_owned()),
        };
        assert(row_views(rows@).len() == rows@.len());
        LibraryScreen {
            title: self.device.name.as_str().to_owned(),
            summary: show_summary(self, rows.len()),
            progress: show_or(&self.search_progress, "Press '/' for recursive search."),
            empty: empty.to_owned(),
            lines: show_rows(&rows),
            selected: clamp_row(self.selected_row, rows.len()),
            battery: show_battery(&self.status),
            wifi: wifi.to_owned(),
            firmware,
            owner,
            buttons: labels,
            status: show_or(
                &self.message,
                "Keys: ↑↓ move  Enter open/toggle  / search  right click menu  mouse click/select  wheel scroll  drag/paste path into prompts  q quit",
            ),
        }
    }
}

impl TuiApp {
    /// The launcher as it is shown.
    pub fn draw_launcher(&self) -> (r: LauncherScreen)
        ensures
            r.discovery@ == discovery_text(self.deep_view()),
            line_views(r.lines@) == self.deep_view().devices.map_values(
                |d: DeviceSummaryView| device_line(d),
            ),
            r.selected == within(self.launcher_index, self.deep_view().devices.len()),
            r.status@ == launcher_status(self.deep_view()),
            r.transport@ == if self.usb_attached {
                "USB hardware detected"@
            } else {
                "Wi-Fi path available"@
            },
    {
        let mut lines: Vec<DeviceLine> = Vec::new();
        let ghost devices = self.deep_view().devices;
        for i in 0..self.devices.len()
            invariant
                devices == self.deep_view().devices,
                lines@.len() == i,
                forall|k: int|
                    0 <= k < i ==> (#[trigger] lines@[k]).deep_view() == device_line(devices[k]),
        {
            let line = show_device(&self.devices[i]);
            assert(devices[i as int] == self.devices@[i as int].deep_view());
            lines.push(line);
        }
        assert(line_views(lines@) =~= devices.map_values(
            |d: DeviceSummaryView| device_line(d),
        ));
        let discovery = match &self.usb_candidate {
            Some(addr) => cat3(
                "USB endpoint detected at ",
                addr.as_str(),
                ". Press 'u' to recover/recheck before pairing.",
            ),
            None => show_or(
                &self.usb_hint,
                "Looking for your Digital Paper device. Press 'r' to rescan or 'a' for manual setup.",
            ),
        };
        let status = match &self.launcher_message {
            Some(message) => message.as_str().to_owned(),
            None => show_or(
                &self.launcher_error,
                "Keys: ↑↓ select  Enter open  a add device  u usb recover  r refresh  q quit",
            ),
        };
        let transport = if self.usb_attached {
            "USB hardware detected"
        } else {
            "Wi-Fi path available"
        };
        LauncherScreen {
            discovery,
            lines,
            selected: clamp_row(self.launcher_index, self.devices.len()),
            status,
            transport: transport.to_owned(),
        }
    }

    /// The screen that adds a device as it is shown.
    pub fn draw_add_device(&self) -> (r: AddDeviceScreen)
        ensures
            r.ip@ == self.add_ip@,
            r.pin@ == self.add_pin@,
            r.ip_focused == (self.add_field == AddField::Ip),
            r.connected@ == connected_text(self.deep_view()),
            r.status@ == text_or(
                self.add_message.deep_view(),
                "Enter the device IP and press 'c' to connect."@,
            ),
    {
        let connected = match &self.add_connected {
            Some(device) => {
                let addr = if device.reachable_addrs.len() > 0 {
                    assert(device.deep_view().reachable_addrs[0] == device.reachable_addrs@[0]@);
                    device.reachable_addrs[0].as_str()
                } else {
                    ""
                };
                cat4(device.name.as_str(), " (", addr, ")")
            },
            None => "Not connected yet".to_owned(),
        };
        AddDeviceScreen {
            ip: self.add_ip.as_str().to_owned(),
            pin: self.add_pin.as_str().to_owned(),
            ip_focused: self.add_field == AddField::Ip,
            connected,
            status: show_or(&self.add_message, "Enter the device IP and press 'c' to connect."),
        }
    }
}

} // verus!
