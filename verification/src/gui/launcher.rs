//! The window that looks for the device and opens its library or its pairing.
use crate::domain::{DeviceSummary, DeviceSummaryView, TransportKind, DEFAULT_DEVICE_HOST};
use crate::text::{cat2, cat3, cat4, copy_option, same};
use vstd::prelude::*;
use vstd::string::*;

verus! {

/// A note over a window that something is under way.
pub struct Modal {
    pub title: String,
    pub detail: String,
}

/// The content of a [`Modal`].
#[verifier::ext_equal]
pub struct ModalView {
    pub title: Seq<char>,
    pub detail: Seq<char>,
}

impl DeepView for Modal {
    type V = ModalView;

    open spec fn deep_view(&self) -> ModalView {
        ModalView { title: self.title@, detail: self.detail@ }
    }
}

/// A note that something is under way.
pub fn modal(title: &str, detail: String) -> (r: Modal)
    ensures
        r.deep_view() == (ModalView { title: title@, detail: detail@ }),
{
    Modal { title: title.to_owned(), detail }
}

/// The state of the launcher window. Times are in milliseconds.
pub struct LauncherState {
    pub error: Option<String>,
    pub busy_modal: Option<Modal>,
    pub seen_refresh_nonce: u64,
    pub pending_auto_open: Option<DeviceSummary>,
    pub pending_auto_pair_addr: Option<String>,
    pub scanning: bool,
    pub last_scan_at: u64,
}

/// The content of a [`LauncherState`].
#[verifier::ext_equal]
pub struct LauncherView {
    pub error: Option<Seq<char>>,
    pub busy: Option<ModalView>,
    pub seen_nonce: u64,
    pub auto_open: Option<DeviceSummaryView>,
    pub auto_pair: Option<Seq<char>>,
    pub scanning: bool,
    pub last_scan_at: u64,
}

impl DeepView for LauncherState {
    type V = LauncherView;

    open spec fn deep_view(&self) -> LauncherView {
        LauncherView {
            error: self.error.deep_view(),
            busy: self.busy_modal.deep_view(),
            seen_nonce: self.seen_refresh_nonce,
            auto_open: self.pending_auto_open.deep_view(),
            auto_pair: self.pending_auto_pair_addr.deep_view(),
            scanning: self.scanning,
            last_scan_at: self.last_scan_at,
        }
    }
}

/// Starting to look for the device, unless that is under way.
pub open spec fn scan_started(s: LauncherView, now: u64) -> LauncherView {
    if s.scanning {
        s
    } else {
        LauncherView { scanning: true, last_scan_at: now, error: None, auto_pair: None, ..s }
    }
}

/// Failures after which a pairing is offered.
pub open spec fn asks_for_pairing(message: Seq<char>) -> bool {
    message == "pairing required"@ || message == "authentication failed"@ || message
        == "device not found"@
}

/// What looking for the device has given: a paired one is opened, another one is
/// paired, and a failure that pairing does not mend is told.
pub open spec fn scan_ended(
    s: LauncherView,
    result: Result<DeviceSummaryView, Seq<char>>,
) -> LauncherView {
    let idle = LauncherView { scanning: false, auto_open: None, auto_pair: None, error: None, ..s };
    match result {
        Ok(device) => if device.paired {
            LauncherView { auto_open: Some(device), ..idle }
        } else {
            LauncherView { auto_pair: Some(DEFAULT_DEVICE_HOST@), ..idle }
        },
        Err(message) => if asks_for_pairing(message) {
            LauncherView { auto_pair: Some(DEFAULT_DEVICE_HOST@), ..idle }
        } else {
            LauncherView {
                error: Some("Could not reach "@ + DEFAULT_DEVICE_HOST@ + ": "@ + message),
                ..idle
            }
        },
    }
}

/// Whether it is time to look for the device again: nothing is under way, and
/// three seconds have passed.
pub open spec fn is_scan_due(s: LauncherView, now: u64) -> bool {
    !s.scanning && s.auto_open is None && s.auto_pair is None && now >= s.last_scan_at && now
        - s.last_scan_at >= 3000
}

/// What is done once the device that was to be opened has been connected to.
pub enum OpenStep {
    /// See whether its library can be read.
    Validate(DeviceSummary),
    /// Pair at the address.
    Pair(String),
    Failed(String),
}

/// The content of an [`OpenStep`].
pub enum OpenStepView {
    Validate(DeviceSummaryView),
    Pair(Seq<char>),
    Failed(Seq<char>),
}

impl DeepView for OpenStep {
    type V = OpenStepView;

    open spec fn deep_view(&self) -> OpenStepView {
        match self {
            OpenStep::Validate(device) => OpenStepView::Validate(device.deep_view()),
            OpenStep::Pair(addr) => OpenStepView::Pair(addr@),
            OpenStep::Failed(e) => OpenStepView::Failed(e@),
        }
    }
}

/// The first address of a device, or else another one.
pub open spec fn first_or(device: DeviceSummaryView, other: Seq<char>) -> Seq<char> {
    if device.reachable_addrs.len() > 0 {
        device.reachable_addrs[0]
    } else {
        other
    }
}

fn first_addr_or(device: &DeviceSummary, other: String) -> (r: String)
    ensures
        r@ == first_or(device.deep_view(), other@),
{
    if device.reachable_addrs.len() > 0 {
        assert(device.deep_view().reachable_addrs[0] == device.reachable_addrs@[0]@);
        device.reachable_addrs[0].as_str().to_owned()
    } else {
        other
    }
}

/// The first item of a list, if it has one.
pub open spec fn first_of<T>(list: Seq<T>) -> Option<T> {
    if list.len() > 0 {
        Some(list[0])
    } else {
        None
    }
}

/// What a device is connected to with: its first address, its serial number and
/// its first kind of transport, where they are known.
pub struct ConnectWith {
    pub addr: Option<String>,
    pub serial: Option<String>,
    pub transport: Option<TransportKind>,
}

/// What is done once the device that was to be opened has been connected to: the
/// library of a paired one is tried, another one is paired at its address.
pub open spec fn open_step(
    device: DeviceSummaryView,
    result: Result<DeviceSummaryView, Seq<char>>,
) -> OpenStepView {
    match result {
        Ok(connected) => if connected.paired {
            OpenStepView::Validate(connected)
        } else {
            OpenStepView::Pair(first_or(connected, first_or(device, ""@)))
        },
        Err(e) => OpenStepView::Failed(e),
    }
}

/// The content of what connecting gave.
pub open spec fn connect_view(result: Result<DeviceSummary, String>) -> Result<
    DeviceSummaryView,
    Seq<char>,
> {
    match result {
        Ok(device) => Ok(device.deep_view()),
        Err(e) => Err(e@),
    }
}

impl LauncherState {
    /// The launcher as it opens, with the first look for the device under way.
    pub fn new(now: u64) -> (r: LauncherState)
        ensures
            r.deep_view() == (LauncherView {
                error: None,
                busy: None,
                seen_nonce: 0,
                auto_open: None,
                auto_pair: None,
                scanning: true,
                last_scan_at: now,
            }),
    {
        LauncherState {
            error: None,
            busy_modal: None,
            seen_refresh_nonce: 0,
            pending_auto_open: None,
            pending_auto_pair_addr: None,
            scanning: true,
            last_scan_at: now,
        }
    }

    /// Starts to look for the device, unless that is under way; tells whether it did.
    pub fn request_scan(&mut self, now: u64) -> (r: bool)
        ensures
            r == !old(self).scanning,
            final(self).deep_view() == scan_started(old(self).deep_view(), now),
    {
        if self.scanning {
            return false;
        }
        self.scanning = true;
        self.last_scan_at = now;
        self.error = None;
        self.pending_auto_pair_addr = None;
        true
    }

    /// Takes over what looking for the device has given.
    pub fn scanned(&mut self, result: Result<DeviceSummary, String>)
        ensures
            final(self).deep_view() == scan_ended(old(self).deep_view(), connect_view(result)),
    {
        self.scanning = false;
        self.error = None;
        self.pending_auto_open = None;
        self.pending_auto_pair_addr = None;
        match result {
            Ok(device) => {
                if device.paired {
                    self.pending_auto_open = Some(device);
                } else {
                    self.pending_auto_pair_addr = Some(DEFAULT_DEVICE_HOST.to_owned());
                }
            },
            Err(message) => {
                if same(message.as_str(), "pairing required") || same(
                    message.as_str(),
                    "authentication failed",
                ) || same(message.as_str(), "device not found") {
                    self.pending_auto_pair_addr = Some(DEFAULT_DEVICE_HOST.to_owned());
                } else {
                    self.error = Some(
                        cat4("Could not reach ", DEFAULT_DEVICE_HOST, ": ", message.as_str()),
                    );
                }
            },
        }
    }

    /// Whether it is time to look for the device again.
    pub fn scan_due(&self, now: u64) -> (r: bool)
        ensures
            r == is_scan_due(self.deep_view(), now),
    {
        !self.scanning && self.pending_auto_open.is_none() && self.pending_auto_pair_addr.is_none()
            && now >= self.last_scan_at && now - self.last_scan_at >= 3000
    }

    /// Looks for the device again where another window has asked for that; tells
    /// whether it started to.
    pub fn sync_external_refresh(&mut self, nonce: u64, now: u64) -> (r: bool)
        ensures
            r == (nonce != old(self).seen_refresh_nonce && !old(self).scanning),
            final(self).deep_view() == if nonce == old(self).seen_refresh_nonce {
                old(self).deep_view()
            } else {
                scan_started(
                    LauncherView { seen_nonce: nonce, ..old(self).deep_view() },
                    now,
                )
            },
    {
        if nonce == self.seen_refresh_nonce {
            return false;
        }
        self.seen_refresh_nonce = nonce;
        self.request_scan(now)
    }

    /// Takes the device that is to be opened, if any.
    pub fn take_auto_open(&mut self) -> (r: Option<DeviceSummary>)
        ensures
            r.deep_view() == old(self).deep_view().auto_open,
            final(self).deep_view() == (LauncherView { auto_open: None, ..old(self).deep_view() }),
    {
        self.pending_auto_open.take()
    }

    /// Takes the address at which a pairing is to be begun, if any.
    pub fn take_auto_pair(&mut self) -> (r: Option<String>)
        ensures
            r.deep_view() == old(self).deep_view().auto_pair,
            final(self).deep_view() == (LauncherView { auto_pair: None, ..old(self).deep_view() }),
    {
        self.pending_auto_pair_addr.take()
    }

    /// Notes that a device is being connected to; gives what to connect with.
    pub fn begin_open_device(&mut self, device: &DeviceSummary) -> (r: ConnectWith)
        ensures
            r.addr.deep_view() == first_of(device.deep_view().reachable_addrs),
            r.serial.deep_view() == device.deep_view().serial,
            r.transport == first_of(device.deep_view().transport_kinds),
            final(self).deep_view() == (LauncherView {
                busy: Some(
                    ModalView {
                        title: "Connecting"@,
                        detail: "Connecting to "@ + device.name@ + "…"@,
                    },
                ),
                ..old(self).deep_view()
            }),
    {
        self.busy_modal = Some(
            modal("Connecting", cat3("Connecting to ", device.name.as_str(), "…")),
        );
        let addr = if device.reachable_addrs.len() > 0 {
            assert(device.deep_view().reachable_addrs[0] == device.reachable_addrs@[0]@);
            Some(device.reachable_addrs[0].as_str().to_owned())
        } else {
            None
        };
        let transport = if device.transport_kinds.len() > 0 {
            Some(device.transport_kinds[0])
        } else {
            None
        };
        ConnectWith { addr, serial: copy_option(&device.serial), transport }
    }

    /// Decides what is done once the device has been connected to.
    pub fn opened(device: &DeviceSummary, result: Result<DeviceSummary, String>) -> (r: OpenStep)
        ensures
            r.deep_view() == open_step(device.deep_view(), connect_view(result)),
    {
        match result {
            Ok(connected) => {
                if connected.paired {
                    OpenStep::Validate(connected)
                } else {
                    let other = first_addr_or(device, "".to_owned());
                    OpenStep::Pair(first_addr_or(&connected, other))
                }
            },
            Err(e) => OpenStep::Failed(e),
        }
    }

    /// Ends the connecting; a failure is told.
    pub fn settle(&mut self, error: Option<String>)
        ensures
            final(self).deep_view() == (LauncherView {
                busy: None,
                error: match error {
                    Some(e) => Some(e@),
                    None => old(self).deep_view().error,
                },
                ..old(self).deep_view()
            }),
    {
        self.busy_modal = None;
        if let Some(e) = error {
            self.error = Some(e);
        }
    }

    /// What the launcher says: a badge, a headline, two lines about the address,
    /// and the address.
    pub fn face(&self) -> (r: (String, String, String, String, String))
        ensures
            r.0@ == if self.scanning {
                "Connecting"@
            } else {
                "Ready"@
            },
            r.1@ == if self.scanning {
                "Connecting to device..."@
            } else {
                "Open or pair your Digital Paper device."@
            },
            r.2@ == "Only "@ + DEFAULT_DEVICE_HOST@ + " is supported in launcher mode."@,
            r.3@ == "Launcher uses only "@ + DEFAULT_DEVICE_HOST@
                + ". If credentials are missing, pairing starts automatically."@,
            r.4@ == "Target: "@ + DEFAULT_DEVICE_HOST@,
    {
        let (badge, headline) = if self.scanning {
            ("Connecting", "Connecting to device...")
        } else {
            ("Ready", "Open or pair your Digital Paper device.")
        };
        (
            badge.to_owned(),
            headline.to_owned(),
            cat3("Only ", DEFAULT_DEVICE_HOST, " is supported in launcher mode."),
            cat3(
                "Launcher uses only ",
                DEFAULT_DEVICE_HOST,
                ". If credentials are missing, pairing starts automatically.",
            ),
            cat2("Target: ", DEFAULT_DEVICE_HOST),
        )
    }
}

/// The failure that tells that a library could not be read.
pub fn unreadable_message(e: &str) -> (r: String)
    ensures
        r@ == "This address was discovered, but the DPT library could not be opened: "@ + e@,
{
    cat2("This address was discovered, but the DPT library could not be opened: ", e)
}

/// The failure that tells that a pairing could not be begun.
pub fn unpaired_message(addr: &str, e: &str) -> (r: String)
    ensures
        r@ == "Could not start pairing for "@ + addr@ + ": "@ + e@,
{
    cat4("Could not start pairing for ", addr, ": ", e)
}

/// A look for the device ends in exactly one of three ways: something to open,
/// something to pair, or a failure.
pub proof fn scan_ends_one_way(s: LauncherView, result: Result<DeviceSummaryView, Seq<char>>)
    ensures
        ({
            let end = scan_ended(s, result);
            &&& !end.scanning
            &&& end.auto_open is Some ==> end.auto_pair is None && end.error is None
            &&& end.auto_pair is Some ==> end.auto_open is None && end.error is None
            &&& end.auto_open is Some || end.auto_pair is Some || end.error is Some
        }),
{
}

/// A paired device that was found is opened, an unpaired one is paired, and so is
/// the device where it asks for that; nothing else is.
pub proof fn found_device_is_opened(s: LauncherView, device: DeviceSummaryView, e: Seq<char>)
    ensures
        device.paired ==> scan_ended(s, Ok(device)).auto_open == Some(device),
        !device.paired ==> scan_ended(s, Ok(device)).auto_open is None && scan_ended(
            s,
            Ok(device),
        ).auto_pair is Some,
        scan_ended(s, Err(e)).auto_open is None,
        e == "pairing required"@ ==> scan_ended(s, Err(e)).auto_pair is Some,
        scan_ended(s, Err(e)).auto_pair is None ==> scan_ended(s, Err(e)).error is Some,
{
}

/// A look for the device that was started is under way, and no other one is due
/// until it has ended.
pub proof fn one_scan_at_a_time(s: LauncherView, now: u64, later: u64)
    ensures
        scan_started(s, now).scanning,
        !is_scan_due(scan_started(s, now), later),
        scan_started(scan_started(s, now), later) == scan_started(s, now),
{
}

/// After a look for the device that has failed the next one is due three seconds
/// after the last one began, and not before.
pub proof fn next_scan_comes_in_three_seconds(
    s: LauncherView,
    e: Seq<char>,
    began: u64,
    now: u64,
)
    requires
        !s.scanning,
        began <= now,
        scan_ended(scan_started(s, began), Err(e)).error is Some,
    ensures
        is_scan_due(scan_ended(scan_started(s, began), Err(e)), now) <==> now - began >= 3000,
{
}

} // verus!
