//! What the world's answers do to the terminal user interface.
use crate::discovery::summaries;
use crate::domain::{
    entries, DeviceStatus, DeviceStatusView, DeviceSummary, DeviceSummaryView, RemoteEntry,
    RemoteEntryView, UsbStatus, UsbStatusKind,
};
use crate::numbers::{decimal, number_text};
use crate::text::{cat2, cat3, cat5, cat6, copy_option, is_blank, same, trim, trimmed};
use crate::tree::collections::{row_views, ListingCache, RowView, TextSet, TreeRow};
use crate::tui::keys::{opened, quiet, search_started, with_browser, Outcome};
use crate::tree::rows::{find_missing, first_missing};
use crate::tui::search::SearchUpdate;
use crate::tui::state::{BrowserView, Effect, EffectView, Screen, TuiApp, TuiView};
use vstd::prelude::*;
use vstd::string::*;

verus! {

/// Devices that are offered: paired ones, and others that can be reached.
pub open spec fn is_offered(device: DeviceSummaryView) -> bool {
    device.paired || device.reachable_addrs.len() > 0
}

/// What is said of a device on USB.
pub open spec fn usb_hint_of(status: UsbStatus) -> Seq<char> {
    match status.kind {
        UsbStatusKind::DptEndpointReachable => status.message@
            + " Press 'u' to recover/recheck and start pairing."@,
        UsbStatusKind::UsbSerialOnly => status.message@
            + " Press 'u' to switch USB mode to network and retry."@,
        UsbStatusKind::UsbNetworkVisible => status.message@
            + " Press 'u' to retry endpoint recovery."@,
        UsbStatusKind::NoUsbHardware => status.message@,
    }
}

/// The outcome of looking for devices: those that are offered, or, where there
/// is none, what is known of USB.
pub open spec fn scanned(
    s: TuiView,
    found: Option<Seq<DeviceSummaryView>>,
    usb: Option<UsbStatus>,
) -> TuiView {
    let base = TuiView { launcher_error: None, launcher_message: None, ..s };
    match found {
        Some(devices) if devices.len() > 0 => {
            let offered = devices.filter(|d: DeviceSummaryView| is_offered(d));
            TuiView {
                devices: offered,
                launcher_index: if s.launcher_index < offered.len() {
                    s.launcher_index
                } else if offered.len() > 0 {
                    (offered.len() - 1) as usize
                } else {
                    0
                },
                usb_candidate: None,
                usb_attached: false,
                usb_hint: None,
                ..base
            }
        },
        _ => {
            let none = TuiView { devices: Seq::empty(), ..base };
            match usb {
                Some(status) => TuiView {
                    usb_attached: status.kind != UsbStatusKind::NoUsbHardware,
                    usb_candidate: status.endpoint_addr.deep_view(),
                    usb_hint: Some(usb_hint_of(status)),
                    ..none
                },
                None => none,
            }
        },
    }
}

/// Asking for a pairing at the address that was typed.
pub open spec fn begin_typed(s: TuiView) -> Outcome {
    let ip = trimmed(s.add_ip);
    if ip.len() == 0 {
        quiet(TuiView { add_message: Some("Device IP is required."@), ..s })
    } else {
        (s, EffectView::BeginPair(ip))
    }
}

/// The outcome of bringing up the network of a device on USB: a pairing is begun
/// where a device can be reached, else devices are looked for.
pub open spec fn usb_recovered(s: TuiView, result: Result<UsbStatus, String>) -> Outcome {
    match result {
        Ok(status) => {
            let told = TuiView {
                usb_candidate: status.endpoint_addr.deep_view(),
                launcher_message: Some(status.message@),
                ..s
            };
            match status.endpoint_addr {
                Some(addr) => begin_typed(
                    TuiView { add_ip: addr@, screen: Screen::AddDevice, ..told },
                ),
                None => (told, EffectView::Scan),
            }
        },
        Err(e) => quiet(TuiView { launcher_error: Some("USB recover failed: "@ + e@), ..s }),
    }
}

/// The library after it was loaded again: its folders are forgotten but for the
/// root, a failure is told, and the search is started anew.
pub open spec fn library_loaded(
    b: BrowserView,
    status: Option<DeviceStatusView>,
    listing: Result<Seq<RemoteEntryView>, Seq<char>>,
) -> BrowserView {
    let base = BrowserView {
        cache: Seq::empty(),
        status,
        search_results: None,
        search_progress: None,
        ..b
    };
    match listing {
        Ok(list) => BrowserView { cache: seq![(b.root_path, list)], message: None, ..base },
        Err(e) => base.saying("Failed to load browser: "@ + e),
    }
}

/// The library with its selection within the rows, where there are any.
pub open spec fn selection_settled(b: BrowserView) -> BrowserView {
    let rows = b.rows();
    if rows.len() == 0 {
        b
    } else {
        let row = if b.selected_row < rows.len() {
            b.selected_row
        } else {
            (rows.len() - 1) as usize
        };
        BrowserView { selected_row: row, selected_path: Some(rows[row as int].entry.path), ..b }
    }
}

/// The library with a folder's listing, or with the failure told and the folder
/// given up for now.
pub open spec fn folder_loaded(
    b: BrowserView,
    path: Seq<char>,
    listing: Result<Seq<RemoteEntryView>, Seq<char>>,
) -> BrowserView {
    match listing {
        Ok(list) => BrowserView { cache: b.cache.push((path, list)), ..b },
        Err(e) => BrowserView {
            given_up: b.given_up.insert(path),
            ..b.saying("Failed to load "@ + path + ": "@ + e)
        },
    }
}

/// The content of a listing or its failure.
pub open spec fn listing_view(listing: Result<Vec<RemoteEntry>, String>) -> Result<
    Seq<RemoteEntryView>,
    Seq<char>,
> {
    match listing {
        Ok(list) => Ok(entries(list@)),
        Err(e) => Err(e@),
    }
}

/// What an update of a search does: it counts only while its query is the one
/// that is typed; the end of a search ends it in any case.
pub open spec fn search_updated(s: TuiView, update: SearchUpdate) -> TuiView {
    match s.browser {
        None => s,
        Some(b) => match update {
            SearchUpdate::Progress { query, current_path, visited_folders } => if query@
                == b.search_query {
                with_browser(
                    s,
                    BrowserView {
                        search_progress: Some(
                            "Searching '"@ + query@ + "'... "@ + decimal(visited_folders as nat)
                                + " folders scanned, now at "@ + current_path@,
                        ),
                        ..b
                    },
                )
            } else {
                s
            },
            SearchUpdate::Finished { query, results, visited_folders } => {
                let ended = TuiView { searching: false, ..s };
                if query@ == b.search_query {
                    with_browser(
                        ended,
                        BrowserView {
                            search_results: Some(row_views(results@)),
                            search_progress: Some(
                                "Search complete for '"@ + query@ + "': "@ + decimal(
                                    visited_folders as nat,
                                ) + " folders scanned."@,
                            ),
                            selected_row: 0,
                            ..b
                        },
                    )
                } else {
                    ended
                }
            },
            SearchUpdate::Failed { query, error } => {
                let ended = TuiView { searching: false, ..s };
                if query@ == b.search_query {
                    with_browser(
                        ended,
                        BrowserView {
                            search_results: Some(Seq::empty()),
                            search_progress: Some(
                                "Search failed for '"@ + query@ + "': "@ + error@,
                            ),
                            ..b
                        },
                    )
                } else {
                    ended
                }
            },
        },
    }
}

/// Leaves the devices that are offered.
fn offer(devices: Vec<DeviceSummary>) -> (r: Vec<DeviceSummary>)
    ensures
        summaries(r@) == summaries(devices@).filter(|d: DeviceSummaryView| is_offered(d)),
{
    let ghost all = summaries(devices@);
    let ghost keep = |d: DeviceSummaryView| is_offered(d);
    let mut out: Vec<DeviceSummary> = Vec::new();
    proof {
        reveal(Seq::filter);
        assert(all.take(0) =~= Seq::<DeviceSummaryView>::empty());
        assert(summaries(out@) =~= all.take(0).filter(keep));
    }
    for i in 0..devices.len()
        invariant
            all == summaries(devices@),
            keep == (|d: DeviceSummaryView| is_offered(d)),
            summaries(out@) == all.take(i as int).filter(keep),
    {
        let ghost was = summaries(out@);
        proof {
            reveal(Seq::filter);
            assert(all.take(i + 1).drop_last() =~= all.take(i as int));
            assert(all.take(i + 1).last() == devices@[i as int].deep_view());
            assert(devices@[i as int].deep_view().reachable_addrs.len()
                == devices@[i as int].reachable_addrs@.len());
        }
        if devices[i].paired || devices[i].reachable_addrs.len() > 0 {
            let device = devices[i].clone();
            assert(device.deep_view() == devices@[i as int].deep_view());
            out.push(device);
            assert(summaries(out@) =~= was.push(device.deep_view()));
        }
    }
    assert(all.take(all.len() as int) =~= all);
    out
}

impl TuiApp {
    /// Takes over the outcome of looking for devices. `found` is nothing where
    /// that failed; `usb` is what is known of USB, if anything.
    pub fn scan_devices(&mut self, found: Option<Vec<DeviceSummary>>, usb: Option<UsbStatus>)
        ensures
            final(self).deep_view() == scanned(
                old(self).deep_view(),
                match found {
                    Some(devices) => Some(summaries(devices@)),
                    None => None,
                },
                usb,
            ),
    {
        self.launcher_error = None;
        self.launcher_message = None;
        if let Some(devices) = found {
            assert(summaries(devices@).len() == devices@.len());
            if devices.len() > 0 {
                let offered = offer(devices);
                assert(summaries(offered@).len() == offered@.len());
                let count: usize = offered.len();
                if self.launcher_index >= count {
                    self.launcher_index = if count > 0 {
                        count - 1
                    } else {
                        0
                    };
                }
                self.devices = offered;
                self.usb_candidate = None;
                self.usb_attached = false;
                self.usb_hint = None;
                return;
            }
        }
        self.devices = Vec::new();
        assert(summaries(self.devices@) =~= Seq::<DeviceSummaryView>::empty());
        if let Some(status) = usb {
            self.usb_attached = status.kind != UsbStatusKind::NoUsbHardware;
            self.usb_candidate = copy_option(&status.endpoint_addr);
            let message = status.message.as_str();
            self.usb_hint = Some(
                match status.kind {
                    UsbStatusKind::DptEndpointReachable => cat2(
                        message,
                        " Press 'u' to recover/recheck and start pairing.",
                    ),
                    UsbStatusKind::UsbSerialOnly => cat2(
                        message,
                        " Press 'u' to switch USB mode to network and retry.",
                    ),
                    UsbStatusKind::UsbNetworkVisible => cat2(
                        message,
                        " Press 'u' to retry endpoint recovery.",
                    ),
                    UsbStatusKind::NoUsbHardware => message.to_owned(),
                },
            );
        }
    }

    /// Asks for a pairing at the address that was typed.
    pub fn begin_pair_for_current_ip(&mut self) -> (r: Effect)
        ensures
            (final(self).deep_view(), r.deep_view()) == begin_typed(old(self).deep_view()),
    {
        let ip = trim(self.add_ip.as_str());
        if is_blank(ip.as_str()) {
            self.add_message = Some("Device IP is required.".to_owned());
            Effect::Nothing
        } else {
            Effect::BeginPair(ip)
        }
    }

    /// Takes over the outcome of bringing up the network of a device on USB.
    pub fn recover_usb_network(&mut self, result: Result<UsbStatus, String>) -> (r: Effect)
        ensures
            (final(self).deep_view(), r.deep_view()) == usb_recovered(
                old(self).deep_view(),
                result,
            ),
    {
        match result {
            Ok(status) => {
                self.usb_candidate = copy_option(&status.endpoint_addr);
                self.launcher_message = Some(status.message.as_str().to_owned());
                match status.endpoint_addr {
                    Some(addr) => {
                        self.add_ip = addr;
                        self.screen = Screen::AddDevice;
                        self.begin_pair_for_current_ip()
                    },
                    None => Effect::Scan,
                }
            },
            Err(e) => {
                self.launcher_error = Some(cat2("USB recover failed: ", e.as_str()));
                Effect::Nothing
            },
        }
    }

    /// Takes over the outcome of beginning a pairing.
    pub fn pairing_begun(&mut self, ip: &str, failure: Option<String>)
        ensures
            final(self).deep_view() == (TuiView {
                add_message: Some(
                    match failure {
                        None => "The DPT should now show a PIN for "@ + ip@
                            + ". Enter it, then press 'p'."@,
                        Some(e) => "Could not start pairing: "@ + e@,
                    },
                ),
                ..old(self).deep_view()
            }),
    {
        self.add_message = Some(
            match failure {
                None => cat3(
                    "The DPT should now show a PIN for ",
                    ip,
                    ". Enter it, then press 'p'.",
                ),
                Some(e) => cat2("Could not start pairing: ", e.as_str()),
            },
        );
    }

    /// Takes over the outcome of connecting.
    pub fn connected(&mut self, result: Result<DeviceSummary, String>)
        ensures
            final(self).deep_view() == match result {
                Ok(device) => TuiView {
                    add_connected: Some(device.deep_view()),
                    add_message: Some("Connected to "@ + device.name@),
                    ..old(self).deep_view()
                },
                Err(e) => TuiView {
                    add_connected: None,
                    add_message: Some("Connect failed: "@ + e@),
                    ..old(self).deep_view()
                },
            },
    {
        match result {
            Ok(device) => {
                self.add_message = Some(cat2("Connected to ", device.name.as_str()));
                self.add_connected = Some(device);
            },
            Err(e) => {
                self.add_connected = None;
                self.add_message = Some(cat2("Connect failed: ", e.as_str()));
            },
        }
    }

    /// Opens the library of the device that was connected, if one was.
    pub fn open_connected(&mut self) -> (r: Effect)
        ensures
            (final(self).deep_view(), r.deep_view()) == match old(self).deep_view().add_connected {
                Some(device) => opened(old(self).deep_view(), device),
                None => quiet(old(self).deep_view()),
            },
    {
        let connected = match &self.add_connected {
            Some(device) => Some(device.clone()),
            None => None,
        };
        match connected {
            Some(device) => self.open_browser(device),
            None => Effect::Nothing,
        }
    }

    /// Takes over the outcome of a pairing; after one that went well devices are
    /// looked for.
    pub fn paired(&mut self, result: Result<DeviceSummary, String>) -> (r: Effect)
        ensures
            (final(self).deep_view(), r.deep_view()) == match result {
                Ok(device) => (
                    TuiView {
                        add_connected: Some(device.deep_view()),
                        add_message: Some("Paired with "@ + device.name@),
                        ..old(self).deep_view()
                    },
                    EffectView::Scan,
                ),
                Err(e) => quiet(
                    TuiView {
                        add_message: Some("Pair failed: "@ + e@),
                        ..old(self).deep_view()
                    },
                ),
            },
    {
        match result {
            Ok(device) => {
                self.add_message = Some(cat2("Paired with ", device.name.as_str()));
                self.add_connected = Some(device);
                Effect::Scan
            },
            Err(e) => {
                self.add_message = Some(cat2("Pair failed: ", e.as_str()));
                Effect::Nothing
            },
        }
    }

    /// Takes over what loading the library again gave.
    pub fn reload_browser(
        &mut self,
        status: Option<DeviceStatus>,
        listing: Result<Vec<RemoteEntry>, String>,
    ) -> (r: Effect)
        ensures
            (final(self).deep_view(), r.deep_view()) == match old(self).deep_view().browser {
                None => quiet(old(self).deep_view()),
                Some(b) => search_started(
                    old(self).deep_view(),
                    library_loaded(b, status.deep_view(), listing_view(listing)),
                ),
            },
    {
        if let Some(mut b) = self.browser.take() {
            b.children_cache = ListingCache::new();
            b.status = status;
            b.search_results = None;
            b.search_progress = None;
            match listing {
                Ok(list) => {
                    let ghost views = entries(list@);
                    b.children_cache.add(b.root_path.as_str(), list);
                    assert(b.children_cache@ =~= seq![(b.root_path@, views)]);
                    b.message = None;
                },
                Err(e) => {
                    b.message = Some(cat2("Failed to load browser: ", e.as_str()));
                },
            }
            self.browser = Some(b);
        }
        self.trigger_search_if_needed()
    }

    /// Settles the selection once the library has been loaded.
    pub fn settle_selection(&mut self)
        ensures
            final(self).deep_view() == match old(self).deep_view().browser {
                None => old(self).deep_view(),
                Some(b) => with_browser(old(self).deep_view(), selection_settled(b)),
            },
    {
        if let Some(mut b) = self.browser.take() {
            let rows = b.visible_nodes();
            let ghost views = row_views(rows@);
            let count: usize = rows.len();
            if count > 0 {
                let row: usize = if b.selected_row < count {
                    b.selected_row
                } else {
                    count - 1
                };
                assert(views[row as int] == rows@[row as int].deep_view());
                b.selected_row = row;
                b.selected_path = Some(rows[row].entry.path.as_str().to_owned());
            }
            self.browser = Some(b);
        }
    }

    /// The next folder whose listing the visible rows lack.
    pub fn missing_folder(&self) -> (r: Option<String>)
        ensures
            r.deep_view() == match self.deep_view().browser {
                Some(b) if trimmed(b.search_query).len() == 0 && b.cache.len() < usize::MAX =>
                    first_missing(b.cache, b.expanded, b.given_up, b.root_path, b.cache.len() + 1),
                _ => None,
            },
    {
        match &self.browser {
            None => None,
            Some(b) => {
                let count: usize = b.children_cache.listings.len();
                assert(count == b.children_cache@.len());
                if !is_blank(trim(b.search_query.as_str()).as_str()) || count == usize::MAX {
                    return None;
                }
                find_missing(
                    &b.children_cache,
                    &b.expanded_folders,
                    &b.given_up,
                    b.root_path.as_str(),
                    count + 1,
                )
            },
        }
    }

    /// Whether a folder's listing is at hand.
    pub fn has_listing(&self, path: &str) -> (r: bool)
        ensures
            r == (self.deep_view().browser matches Some(b)
                && crate::tree::collections::listing_of(b.cache, path@) is Some),
    {
        match &self.browser {
            Some(b) => b.children_cache.get(path).is_some(),
            None => false,
        }
    }

    /// Takes over a folder's listing, unless one is at hand.
    pub fn load_children(&mut self, path: &str, listing: Result<Vec<RemoteEntry>, String>)
        ensures
            final(self).deep_view() == match old(self).deep_view().browser {
                None => old(self).deep_view(),
                Some(b) => if crate::tree::collections::listing_of(b.cache, path@) is Some {
                    old(self).deep_view()
                } else {
                    with_browser(
                        old(self).deep_view(),
                        folder_loaded(b, path@, listing_view(listing)),
                    )
                },
            },
    {
        if let Some(mut b) = self.browser.take() {
            if b.children_cache.get(path).is_none() {
                match listing {
                    Ok(list) => {
                        b.children_cache.add(path, list);
                    },
                    Err(e) => {
                        b.given_up.insert(path);
                        b.message = Some(
                            crate::text::cat4("Failed to load ", path, ": ", e.as_str()),
                        );
                    },
                }
            }
            self.browser = Some(b);
        }
    }

    /// Has folders whose listing failed tried again.
    pub fn retry_folders(&mut self)
        ensures
            final(self).deep_view() == match old(self).deep_view().browser {
                None => old(self).deep_view(),
                Some(b) => with_browser(
                    old(self).deep_view(),
                    BrowserView { given_up: Set::empty(), ..b },
                ),
            },
    {
        if let Some(mut b) = self.browser.take() {
            b.given_up = TextSet { items: Vec::new() };
            assert(b.given_up@ =~= Set::<Seq<char>>::empty());
            self.browser = Some(b);
        }
    }

    /// Takes over an update of a search.
    pub fn apply_search_update(&mut self, update: SearchUpdate)
        ensures
            final(self).deep_view() == search_updated(old(self).deep_view(), update),
    {
        let mut b = match self.browser.take() {
            None => {
                return;
            },
            Some(b) => b,
        };
        match update {
            SearchUpdate::Progress { query, current_path, visited_folders } => {
                if same(query.as_str(), b.search_query.as_str()) {
                    b.search_progress = Some(
                        cat6(
                            "Searching '",
                            query.as_str(),
                            "'... ",
                            number_text(visited_folders as u64).as_str(),
                            " folders scanned, now at ",
                            current_path.as_str(),
                        ),
                    );
                }
            },
            SearchUpdate::Finished { query, results, visited_folders } => {
                if same(query.as_str(), b.search_query.as_str()) {
                    b.search_results = Some(results);
                    b.search_progress = Some(
                        cat5(
                            "Search complete for '",
                            query.as_str(),
                            "': ",
                            number_text(visited_folders as u64).as_str(),
                            " folders scanned.",
                        ),
                    );
                    b.selected_row = 0;
                }
                self.searching = false;
            },
            SearchUpdate::Failed { query, error } => {
                if same(query.as_str(), b.search_query.as_str()) {
                    let none: Vec<TreeRow> = Vec::new();
                    assert(row_views(none@) =~= Seq::<RowView>::empty());
                    b.search_results = Some(none);
                    b.search_progress = Some(
                        crate::text::cat4(
                            "Search failed for '",
                            query.as_str(),
                            "': ",
                            error.as_str(),
                        ),
                    );
                }
                self.searching = false;
            },
        }
        self.browser = Some(b);
    }
}

/// How a helper program that was started has ended.
pub enum HelperEnd {
    Success,
    /// It ended with this exit code, as text.
    Code(String),
    /// It could not be started, with this error text.
    Unstarted(String),
}

/// How opening or revealing a local copy has ended.
pub enum CopyEnd {
    /// No folder for the copy, with this error text.
    NoFolder(String),
    /// The download failed, with this error text.
    NoDownload(String),
    Shown(HelperEnd),
}

/// What is said of opening a file.
pub fn open_message(end: &CopyEnd) -> (r: String)
    ensures
        r@ == match *end {
            CopyEnd::NoFolder(e) => "Open failed: "@ + e@,
            CopyEnd::NoDownload(e) => "Download failed: "@ + e@,
            CopyEnd::Shown(HelperEnd::Success) => "Opened file locally."@,
            CopyEnd::Shown(HelperEnd::Code(code)) => "open exited with status "@ + code@,
            CopyEnd::Shown(HelperEnd::Unstarted(e)) => "open failed: "@ + e@,
        },
{
    match end {
        CopyEnd::NoFolder(e) => cat2("Open failed: ", e.as_str()),
        CopyEnd::NoDownload(e) => cat2("Download failed: ", e.as_str()),
        CopyEnd::Shown(HelperEnd::Success) => "Opened file locally.".to_owned(),
        CopyEnd::Shown(HelperEnd::Code(code)) => cat2("open exited with status ", code.as_str()),
        CopyEnd::Shown(HelperEnd::Unstarted(e)) => cat2("open failed: ", e.as_str()),
    }
}

/// What is said of revealing a local copy.
pub fn reveal_message(end: &CopyEnd) -> (r: String)
    ensures
        r@ == match *end {
            CopyEnd::NoFolder(e) => "Reveal failed: "@ + e@,
            CopyEnd::NoDownload(e) => "Download failed: "@ + e@,
            CopyEnd::Shown(HelperEnd::Success) =>
                "Downloaded and revealed a local copy in Finder. Drag from Finder if needed."@,
            CopyEnd::Shown(HelperEnd::Code(code)) => "Reveal exited with status "@ + code@,
            CopyEnd::Shown(HelperEnd::Unstarted(e)) => "Reveal failed: "@ + e@,
        },
{
    match end {
        CopyEnd::NoFolder(e) => cat2("Reveal failed: ", e.as_str()),
        CopyEnd::NoDownload(e) => cat2("Download failed: ", e.as_str()),
        CopyEnd::Shown(HelperEnd::Success) =>
            "Downloaded and revealed a local copy in Finder. Drag from Finder if needed.".to_owned(),
        CopyEnd::Shown(HelperEnd::Code(code)) => cat2("Reveal exited with status ", code.as_str()),
        CopyEnd::Shown(HelperEnd::Unstarted(e)) => cat2("Reveal failed: ", e.as_str()),
    }
}

/// What is said of an import of so many files.
pub fn imported_message(count: usize) -> (r: String)
    ensures
        r@ == "Imported "@ + decimal(count as nat) + " file(s)."@,
{
    cat3("Imported ", number_text(count as u64).as_str(), " file(s).")
}

/// A search under another query than the one that is typed leaves the library alone.
pub proof fn stale_updates_are_ignored(s: TuiView, update: SearchUpdate)
    requires
        s.browser matches Some(b) && b.search_query != match update {
            SearchUpdate::Progress { query, .. } => query@,
            SearchUpdate::Finished { query, .. } => query@,
            SearchUpdate::Failed { query, .. } => query@,
        },
    ensures
        search_updated(s, update).browser == s.browser,
{
}

/// Of the devices that were found, exactly those are offered that are paired or
/// can be reached, and the cursor stands on one of them.
pub proof fn usable_devices_are_offered(
    s: TuiView,
    devices: Seq<DeviceSummaryView>,
    usb: Option<UsbStatus>,
    device: DeviceSummaryView,
)
    requires
        0 < devices.len() <= usize::MAX,
    ensures
        scanned(s, Some(devices), usb).devices.contains(device) <==> devices.contains(device) && (
        device.paired || device.reachable_addrs.len() > 0),
        ({
            let next = scanned(s, Some(devices), usb);
            next.devices.len() > 0 ==> next.launcher_index < next.devices.len()
        }),
{
    let offer = |d: DeviceSummaryView| is_offered(d);
    let offered = devices.filter(offer);
    assert(scanned(s, Some(devices), usb).devices == offered);
    devices.lemma_filter_len(offer);
    if devices.contains(device) && is_offered(device) {
        let i = choose|i: int| 0 <= i < devices.len() && devices[i] == device;
        devices.lemma_filter_contains(offer, i);
    }
    if offered.contains(device) {
        let i = choose|i: int| 0 <= i < offered.len() && offered[i] == device;
        devices.lemma_filter_pred(offer, i);
        devices.lemma_filter_contains_rev(offer, device);
    }
}

/// A device on USB that can be reached is paired at its address.
pub proof fn reachable_device_is_paired(s: TuiView, status: UsbStatus)
    requires
        status.endpoint_addr matches Some(addr) && trimmed(addr@) == addr@ && addr@.len() > 0,
    ensures
        usb_recovered(s, Ok(status)).1 == EffectView::BeginPair(status.endpoint_addr->Some_0@),
        usb_recovered(s, Ok(status)).0.screen == Screen::AddDevice,
{
}

/// A library that was loaded, with all folders folded, shows what stands in the root.
pub proof fn loaded_library_shows_its_root(
    b: BrowserView,
    status: Option<DeviceStatusView>,
    list: Seq<RemoteEntryView>,
)
    requires
        trimmed(b.search_query).len() == 0,
        b.expanded == Set::<Seq<char>>::empty(),
    ensures
        ({
            let next = library_loaded(b, status, Ok(list));
            &&& next.status == status
            &&& next.rows().len() == list.len()
            &&& forall|i: int|
                0 <= i < list.len() ==> (#[trigger] next.rows()[i]).entry == list[i]
        }),
{
    let next = library_loaded(b, status, Ok(list));
    crate::tree::rows::folded_tree_is_the_listing(next.cache, b.root_path, list, 0, 1);
}

/// A search that has ended shows what it has found, if its query still stands.
pub proof fn ended_search_shows_its_results(
    s: TuiView,
    b: BrowserView,
    query: String,
    results: Vec<TreeRow>,
    visited_folders: usize,
)
    requires
        s.browser == Some(b),
        query@ == b.search_query,
        trimmed(query@).len() > 0,
    ensures
        ({
            let next = search_updated(
                s,
                SearchUpdate::Finished { query, results, visited_folders },
            );
            &&& !next.searching
            &&& next.browser is Some
            &&& next.browser->Some_0.rows() == row_views(results@)
            &&& results@.len() > 0 ==> next.browser->Some_0.selected() == Some(
                results@[0].deep_view().entry,
            )
        }),
{
}

} // verus!
