//! The types that the device operations speak of.
use crate::text::{copy_option, copy_texts, same, texts};
use vstd::prelude::*;

verus! {

/// Host name under which a device announces itself.
pub const DEFAULT_DEVICE_HOST: &'static str = "digitalpaper.local";

/// Address of a device attached over USB networking.
pub const USB_FALLBACK_ADDR: &'static str = "172.25.47.1";

/// How a device is reached.
#[derive(Debug, Clone, Copy, PartialEq, Eq, Structural)]
pub enum TransportKind {
    Wifi,
    UsbNetwork,
    Manual,
}

/// What a remote entry is.
#[derive(Debug, Clone, Copy, PartialEq, Eq, Structural)]
pub enum RemoteEntryType {
    Document,
    Folder,
    Unknown,
}

/// A device as shown to the user.
#[derive(Debug, PartialEq, Eq)]
pub struct DeviceSummary {
    pub id: String,
    pub serial: Option<String>,
    pub name: String,
    pub reachable_addrs: Vec<String>,
    pub transport_kinds: Vec<TransportKind>,
    pub paired: bool,
}

/// The content of a [`DeviceSummary`].
#[verifier::ext_equal]
pub struct DeviceSummaryView {
    pub id: Seq<char>,
    pub serial: Option<Seq<char>>,
    pub name: Seq<char>,
    pub reachable_addrs: Seq<Seq<char>>,
    pub transport_kinds: Seq<TransportKind>,
    pub paired: bool,
}

impl DeepView for DeviceSummary {
    type V = DeviceSummaryView;

    open spec fn deep_view(&self) -> DeviceSummaryView {
        DeviceSummaryView {
            id: self.id@,
            serial: self.serial.deep_view(),
            name: self.name@,
            reachable_addrs: texts(self.reachable_addrs@),
            transport_kinds: self.transport_kinds@,
            paired: self.paired,
        }
    }
}

impl Clone for DeviceSummary {
    fn clone(&self) -> (r: Self)
        ensures
            r.deep_view() == self.deep_view(),
    {
        let mut kinds: Vec<TransportKind> = Vec::new();
        for i in 0..self.transport_kinds.len()
            invariant
                kinds@ == self.transport_kinds@.take(i as int),
        {
            kinds.push(self.transport_kinds[i]);
            assert(kinds@ =~= self.transport_kinds@.take(i + 1));
        }
        assert(kinds@ =~= self.transport_kinds@);
        DeviceSummary {
            id: self.id.as_str().to_owned(),
            serial: copy_option(&self.serial),
            name: self.name.as_str().to_owned(),
            reachable_addrs: copy_texts(&self.reachable_addrs),
            transport_kinds: kinds,
            paired: self.paired,
        }
    }
}

/// A device that the user has kept, with what was last done with it.
#[derive(Debug, Clone, PartialEq, Eq)]
pub struct SavedDevice {
    pub summary: DeviceSummary,
    pub is_default: bool,
    pub last_connected_at: Option<String>,
    pub last_remote_path: Option<String>,
    pub last_local_path: Option<String>,
}

/// A document or folder on the device.
#[derive(Debug, PartialEq, Eq)]
pub struct RemoteEntry {
    pub path: String,
    pub name: String,
    pub entry_type: RemoteEntryType,
    pub size: Option<u64>,
    pub modified_at: Option<String>,
}

/// The content of a [`RemoteEntry`].
#[verifier::ext_equal]
pub struct RemoteEntryView {
    pub path: Seq<char>,
    pub name: Seq<char>,
    pub entry_type: RemoteEntryType,
    pub size: Option<u64>,
    pub modified_at: Option<Seq<char>>,
}

impl DeepView for RemoteEntry {
    type V = RemoteEntryView;

    open spec fn deep_view(&self) -> RemoteEntryView {
        RemoteEntryView {
            path: self.path@,
            name: self.name@,
            entry_type: self.entry_type,
            size: self.size,
            modified_at: self.modified_at.deep_view(),
        }
    }
}

impl Clone for RemoteEntry {
    fn clone(&self) -> (r: Self)
        ensures
            r.deep_view() == self.deep_view(),
    {
        RemoteEntry {
            path: self.path.as_str().to_owned(),
            name: self.name.as_str().to_owned(),
            entry_type: self.entry_type,
            size: self.size,
            modified_at: copy_option(&self.modified_at),
        }
    }
}

/// The contents of the entries of a list.
pub open spec fn entries(list: Seq<RemoteEntry>) -> Seq<RemoteEntryView> {
    list.map_values(|e: RemoteEntry| e.deep_view())
}

/// A copy of a list of entries.
pub fn copy_entries(list: &Vec<RemoteEntry>) -> (r: Vec<RemoteEntry>)
    ensures
        entries(r@) == entries(list@),
{
    let mut out: Vec<RemoteEntry> = Vec::new();
    for i in 0..list.len()
        invariant
            entries(out@) == entries(list@).take(i as int),
    {
        let ghost was = entries(out@);
        let copied = list[i].clone();
        assert(copied.deep_view() == entries(list@)[i as int]);
        out.push(copied);
        assert(entries(out@) =~= was.push(copied.deep_view()));
        assert(entries(out@) =~= entries(list@).take(i + 1));
    }
    assert(entries(out@) =~= entries(list@));
    out
}

#[derive(Debug, Clone, Copy, PartialEq, Eq)]
pub struct BatteryStatus {
    pub level_percent: Option<u8>,
    pub charging: bool,
}

#[derive(Debug, Clone, Copy, PartialEq, Eq)]
pub struct StorageStatus {
    pub total_bytes: Option<u64>,
    pub free_bytes: Option<u64>,
}

/// State of a device.
#[derive(Debug, Clone, PartialEq, Eq)]
pub struct DeviceStatus {
    pub battery: BatteryStatus,
    pub storage: StorageStatus,
    pub firmware_version: Option<String>,
    pub owner: Option<String>,
    pub wifi_enabled: bool,
}

/// The content of a [`DeviceStatus`].
#[verifier::ext_equal]
pub struct DeviceStatusView {
    pub battery: BatteryStatus,
    pub storage: StorageStatus,
    pub firmware_version: Option<Seq<char>>,
    pub owner: Option<Seq<char>>,
    pub wifi_enabled: bool,
}

impl DeepView for DeviceStatus {
    type V = DeviceStatusView;

    open spec fn deep_view(&self) -> DeviceStatusView {
        DeviceStatusView {
            battery: self.battery,
            storage: self.storage,
            firmware_version: self.firmware_version.deep_view(),
            owner: self.owner.deep_view(),
            wifi_enabled: self.wifi_enabled,
        }
    }
}

/// A Wi-Fi network known to, or seen by, the device.
#[derive(Debug, Clone, PartialEq, Eq)]
pub struct WifiNetwork {
    pub id: Option<String>,
    pub ssid: String,
    pub security: String,
    pub connected: bool,
}

/// The content of a [`WifiNetwork`].
#[verifier::ext_equal]
pub struct WifiNetworkView {
    pub id: Option<Seq<char>>,
    pub ssid: Seq<char>,
    pub security: Seq<char>,
    pub connected: bool,
}

impl DeepView for WifiNetwork {
    type V = WifiNetworkView;

    open spec fn deep_view(&self) -> WifiNetworkView {
        WifiNetworkView {
            id: self.id.deep_view(),
            ssid: self.ssid@,
            security: self.security@,
            connected: self.connected,
        }
    }
}

/// Everything that a Wi-Fi network can be configured with.
#[derive(Debug, Clone, PartialEq, Eq)]
pub struct WifiConfigInput {
    pub ssid: String,
    pub security: String,
    pub passwd: String,
    pub dhcp: String,
    pub static_address: String,
    pub gateway: String,
    pub network_mask: String,
    pub dns1: String,
    pub dns2: String,
    pub proxy: String,
}

#[derive(Debug, Clone, Copy, PartialEq, Eq, Structural)]
pub enum UsbSwitchMode {
    Auto,
    Ecm,
    Rndis,
}

#[derive(Debug, Clone, Copy, PartialEq, Eq, Structural)]
pub enum UsbStatusKind {
    NoUsbHardware,
    UsbSerialOnly,
    UsbNetworkVisible,
    DptEndpointReachable,
}

/// What is known of a device on the USB bus.
#[derive(Debug, Clone, PartialEq, Eq)]
pub struct UsbStatus {
    pub kind: UsbStatusKind,
    pub tty_paths: Vec<String>,
    pub iface_names: Vec<String>,
    pub candidate_addrs: Vec<String>,
    pub endpoint_addr: Option<String>,
    pub message: String,
}

#[derive(Debug, Clone, PartialEq, Eq)]
pub struct AdvancedCapabilities {
    pub apk_install_supported: bool,
    pub apk_install_message: Option<String>,
}

/// One line of the connection log.
#[derive(Debug, PartialEq, Eq)]
pub struct ConnectionLog {
    pub id: String,
    pub timestamp: String,
    pub message: String,
}

/// The content of a [`ConnectionLog`].
#[verifier::ext_equal]
pub struct ConnectionLogView {
    pub id: Seq<char>,
    pub timestamp: Seq<char>,
    pub message: Seq<char>,
}

impl DeepView for ConnectionLog {
    type V = ConnectionLogView;

    open spec fn deep_view(&self) -> ConnectionLogView {
        ConnectionLogView { id: self.id@, timestamp: self.timestamp@, message: self.message@ }
    }
}

impl Clone for ConnectionLog {
    fn clone(&self) -> (r: Self)
        ensures
            r.deep_view() == self.deep_view(),
    {
        ConnectionLog {
            id: self.id.as_str().to_owned(),
            timestamp: self.timestamp.as_str().to_owned(),
            message: self.message.as_str().to_owned(),
        }
    }
}

/// What kind of failure a caller is told of.
#[derive(Debug, Clone, Copy, PartialEq, Eq, Structural)]
pub enum BridgeErrorCode {
    DeviceNotFound,
    PairingRequired,
    PinInvalid,
    AuthFailed,
    TransportUnreachable,
    ConflictDetected,
    UnsupportedOverUsb,
    InternalError,
}

impl BridgeErrorCode {
    /// The code's name on the wire.
    pub open spec fn wire(self) -> Seq<char> {
        match self {
            BridgeErrorCode::DeviceNotFound => "device_not_found"@,
            BridgeErrorCode::PairingRequired => "pairing_required"@,
            BridgeErrorCode::PinInvalid => "pin_invalid"@,
            BridgeErrorCode::AuthFailed => "auth_failed"@,
            BridgeErrorCode::TransportUnreachable => "transport_unreachable"@,
            BridgeErrorCode::ConflictDetected => "conflict_detected"@,
            BridgeErrorCode::UnsupportedOverUsb => "unsupported_over_usb"@,
            BridgeErrorCode::InternalError => "internal_error"@,
        }
    }

    /// The code with the given wire name; an unknown name is an internal error.
    pub fn from_wire(value: &str) -> (r: Self)
        ensures
            r !is InternalError ==> r.wire() == value@,
            r is InternalError ==> forall|c: BridgeErrorCode| #[trigger]
                c.wire() == value@ ==> c is InternalError,
    {
        if same(value, "device_not_found") {
            BridgeErrorCode::DeviceNotFound
        } else if same(value, "pairing_required") {
            BridgeErrorCode::PairingRequired
        } else if same(value, "pin_invalid") {
            BridgeErrorCode::PinInvalid
        } else if same(value, "auth_failed") {
            BridgeErrorCode::AuthFailed
        } else if same(value, "transport_unreachable") {
            BridgeErrorCode::TransportUnreachable
        } else if same(value, "conflict_detected") {
            BridgeErrorCode::ConflictDetected
        } else if same(value, "unsupported_over_usb") {
            BridgeErrorCode::UnsupportedOverUsb
        } else {
            BridgeErrorCode::InternalError
        }
    }
}

/// Different codes have different wire names.
pub proof fn wire_names_differ(a: BridgeErrorCode, b: BridgeErrorCode)
    requires
        a.wire() == b.wire(),
    ensures
        a == b,
{
    reveal_strlit("device_not_found");
    reveal_strlit("pairing_required");
    reveal_strlit("pin_invalid");
    reveal_strlit("auth_failed");
    reveal_strlit("transport_unreachable");
    reveal_strlit("conflict_detected");
    reveal_strlit("unsupported_over_usb");
    reveal_strlit("internal_error");
    assert("device_not_found"@[0] == 'd');
    assert("pairing_required"@[1] == 'a');
    assert("pin_invalid"@[1] == 'i');
    assert("auth_failed"@[0] == 'a');
    assert("transport_unreachable"@[0] == 't');
    assert("conflict_detected"@[0] == 'c');
    assert("unsupported_over_usb"@[0] == 'u');
    assert("internal_error"@[0] == 'i');
    assert("pairing_required"@[0] == 'p' && "pin_invalid"@[0] == 'p');
}

/// A failure as told to a caller; its text is the message.
#[derive(Debug)]
pub struct BridgeError {
    pub code: BridgeErrorCode,
    pub message: String,
    pub details: Option<String>,
}

impl BridgeError {
    /// A failure of the given kind; its message is what `into` makes of `message`.
    pub fn new<M: Into<String>>(code: BridgeErrorCode, message: M, details: Option<String>) -> (r:
        Self)
        ensures
            r.code == code,
            call_ensures(M::into, (message,), r.message),
            r.details == details,
    {
        BridgeError { code, message: message.into(), details }
    }

    /// The text shown for the failure.
    pub fn text(&self) -> (r: String)
        ensures
            r@ == self.message@,
    {
        self.message.as_str().to_owned()
    }
}

} // verus!
