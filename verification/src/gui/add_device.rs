//! The window that connects to a device and pairs with it.
use crate::domain::{DeviceSummary, DeviceSummaryView};
use crate::gui::launcher::{modal, Modal, ModalView};
use crate::text::{cat2, cat3, cat4, is_blank, trim, trimmed};
use vstd::prelude::*;
use vstd::string::*;

verus! {

/// The state of the window, but for its two inputs.
pub struct AddDeviceState {
    pub message: Option<String>,
    pub connected: Option<DeviceSummary>,
    pub busy_modal: Option<Modal>,
}

/// The content of an [`AddDeviceState`].
#[verifier::ext_equal]
pub struct AddDeviceView {
    pub message: Option<Seq<char>>,
    pub connected: Option<DeviceSummaryView>,
    pub busy: Option<ModalView>,
}

impl DeepView for AddDeviceState {
    type V = AddDeviceView;

    open spec fn deep_view(&self) -> AddDeviceView {
        AddDeviceView {
            message: self.message.deep_view(),
            connected: self.connected.deep_view(),
            busy: self.busy_modal.deep_view(),
        }
    }
}

/// The address that the window starts with: the given one, else where the user
/// says, else the announced name.
pub fn initial_ip(given: Option<String>, named: &Option<String>) -> (r: String)
    ensures
        r@ == match given {
            Some(ip) => ip@,
            None => crate::tui::state::default_addr(named.deep_view()),
        },
{
    match given {
        Some(ip) => ip,
        None => crate::tui::state::default_device_addr(named),
    }
}

impl AddDeviceState {
    /// The window as it opens.
    pub fn new() -> (r: AddDeviceState)
        ensures
            r.deep_view() == (AddDeviceView { message: None, connected: None, busy: None }),
    {
        AddDeviceState { message: None, connected: None, busy_modal: None }
    }

    /// Asks for a pairing at the address that was typed; gives the address.
    pub fn begin_pair_for_current_ip(&mut self, typed: &str) -> (r: Option<String>)
        ensures
            ({
                let ip = trimmed(typed@);
                if ip.len() == 0 {
                    &&& r is None
                    &&& final(self).deep_view() == (AddDeviceView {
                        message: Some("Device IP is required"@),
                        ..old(self).deep_view()
                    })
                } else {
                    &&& r.deep_view() == Some(ip)
                    &&& final(self).deep_view() == (AddDeviceView {
                        busy: Some(
                            ModalView {
                                title: "Requesting PIN"@,
                                detail: "Asking "@ + ip + " to show a pairing PIN…"@,
                            },
                        ),
                        ..old(self).deep_view()
                    })
                }
            }),
    {
        let ip = trim(typed);
        if is_blank(ip.as_str()) {
            self.message = Some("Device IP is required".to_owned());
            return None;
        }
        self.busy_modal = Some(
            modal("Requesting PIN", cat3("Asking ", ip.as_str(), " to show a pairing PIN…")),
        );
        Some(ip)
    }

    /// Takes over the outcome of beginning a pairing.
    pub fn pairing_begun(&mut self, failure: Option<String>)
        ensures
            final(self).deep_view() == (AddDeviceView {
                message: Some(
                    match failure {
                        None => "The DPT should now show a PIN. Enter it here, then click Pair."@,
                        Some(e) => "Could not start pairing: "@ + e@,
                    },
                ),
                busy: None,
                ..old(self).deep_view()
            }),
    {
        self.message = Some(
            match failure {
                None => "The DPT should now show a PIN. Enter it here, then click Pair.".to_owned(),
                Some(e) => cat2("Could not start pairing: ", e.as_str()),
            },
        );
        self.busy_modal = None;
    }

    /// Asks for a connection to the address that was typed; gives the address.
    pub fn on_connect(&mut self, typed: &str) -> (r: String)
        ensures
            r@ == trimmed(typed@),
            final(self).deep_view() == (AddDeviceView {
                busy: Some(
                    ModalView {
                        title: "Connecting"@,
                        detail: "Connecting to "@ + trimmed(typed@) + "…"@,
                    },
                ),
                ..old(self).deep_view()
            }),
    {
        let ip = trim(typed);
        self.busy_modal = Some(modal("Connecting", cat3("Connecting to ", ip.as_str(), "…")));
        ip
    }

    /// Takes over the outcome of connecting.
    pub fn connected(&mut self, result: Result<DeviceSummary, String>)
        ensures
            final(self).deep_view() == match result {
                Ok(device) => AddDeviceView {
                    connected: Some(device.deep_view()),
                    message: Some("Connected to "@ + device.name@),
                    busy: None,
                },
                Err(e) => AddDeviceView {
                    message: Some("Connect failed: "@ + e@),
                    busy: None,
                    ..old(self).deep_view()
                },
            },
    {
        match result {
            Ok(device) => {
                self.message = Some(cat2("Connected to ", device.name.as_str()));
                self.connected = Some(device);
            },
            Err(e) => {
                self.message = Some(cat2("Connect failed: ", e.as_str()));
            },
        }
        self.busy_modal = None;
    }

    /// Asks for a pairing with the PIN that was typed; gives the PIN.
    pub fn on_pair(&mut self, typed: &str) -> (r: Option<String>)
        ensures
            ({
                let pin = trimmed(typed@);
                if pin.len() == 0 {
                    &&& r is None
                    &&& final(self).deep_view() == (AddDeviceView {
                        message: Some("PIN is required"@),
                        ..old(self).deep_view()
                    })
                } else {
                    &&& r.deep_view() == Some(pin)
                    &&& final(self).deep_view() == (AddDeviceView {
                        busy: Some(
                            ModalView {
                                title: "Pairing Device"@,
                                detail: "Completing the DPT pairing flow…"@,
                            },
                        ),
                        ..old(self).deep_view()
                    })
                }
            }),
    {
        let pin = trim(typed);
        if is_blank(pin.as_str()) {
            self.message = Some("PIN is required".to_owned());
            return None;
        }
        self.busy_modal = Some(
            modal("Pairing Device", "Completing the DPT pairing flow…".to_owned()),
        );
        Some(pin)
    }

    /// Takes over the outcome of a pairing; tells whether the launcher is to look
    /// for the device again.
    pub fn paired(&mut self, result: Result<DeviceSummary, String>) -> (r: bool)
        ensures
            r == (result is Ok),
            final(self).deep_view() == match result {
                Ok(device) => AddDeviceView {
                    connected: Some(device.deep_view()),
                    message: Some("Paired with "@ + device.name@),
                    busy: None,
                },
                Err(e) => AddDeviceView {
                    message: Some("Pair failed: "@ + e@),
                    busy: None,
                    ..old(self).deep_view()
                },
            },
    {
        self.busy_modal = None;
        match result {
            Ok(device) => {
                self.message = Some(cat2("Paired with ", device.name.as_str()));
                self.connected = Some(device);
                true
            },
            Err(e) => {
                self.message = Some(cat2("Pair failed: ", e.as_str()));
                false
            },
        }
    }

    /// Notes that the library is being opened; gives the device that is connected
    /// already, if one is.
    pub fn on_open_library(&mut self) -> (r: Option<DeviceSummary>)
        ensures
            r.deep_view() == old(self).deep_view().connected,
            final(self).deep_view() == (AddDeviceView {
                busy: Some(
                    ModalView {
                        title: "Opening Library"@,
                        detail: "Preparing the device browser…"@,
                    },
                ),
                ..old(self).deep_view()
            }),
    {
        self.busy_modal = Some(
            modal("Opening Library", "Preparing the device browser…".to_owned()),
        );
        match &self.connected {
            Some(device) => Some(device.clone()),
            None => None,
        }
    }

    /// Takes over that the library was opened, or could not be.
    pub fn library_opened(&mut self, failure: Option<String>)
        ensures
            final(self).deep_view() == (AddDeviceView {
                busy: None,
                message: match failure {
                    Some(e) => Some("Open failed: "@ + e@),
                    None => old(self).deep_view().message,
                },
                ..old(self).deep_view()
            }),
    {
        self.busy_modal = None;
        if let Some(e) = failure {
            self.message = Some(cat2("Open failed: ", e.as_str()));
        }
    }

    /// What is said of the device that is connected, if one is.
    pub fn connected_line(&self) -> (r: Option<String>)
        ensures
            r.deep_view() == match self.deep_view().connected {
                Some(device) => Some(
                    device.name + " ("@ + crate::gui::launcher::first_or(device, ""@) + ")"@,
                ),
                None => None,
            },
    {
        match &self.connected {
            Some(device) => {
                let addr = if device.reachable_addrs.len() > 0 {
                    assert(device.deep_view().reachable_addrs[0] == device.reachable_addrs@[0]@);
                    device.reachable_addrs[0].as_str()
                } else {
                    ""
                };
                Some(cat4(device.name.as_str(), " (", addr, ")"))
            },
            None => None,
        }
    }
}

} // verus!
