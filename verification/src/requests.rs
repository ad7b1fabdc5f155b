//! Operations that take one call, and what they read out of its answer.
use crate::bytes::{b64, base64, base64_text};
use crate::domain::WifiConfigInput;
use crate::entries::{network, text_value_or, value_or};
use crate::errors::{outcome, ErrorView, RustProviderError};
use crate::http::{
    is_success, registration_call, registration_request, HttpRequest, Method, RequestBodyView, Sent,
};
use crate::json::{
    empty_object, json_outcome, json_parsed, json_value, no_fields, number_value, parse_value,
    put_text, set_member, JsonView,
};
use crate::numbers::{decimal, number_text};
use crate::provider::RustNativeProvider;
use crate::session::{session_request, ApiCall, ApiCallView, Session};
use crate::text::{cat2, cat3, cat4, cat5, is_blank, trim, trimmed};
use vstd::prelude::*;
use vstd::string::*;
use vstd::utf8::{encode_utf8, encode_utf8_decode_utf8, encode_utf8_valid_utf8};

verus! {

/// A reply of the registration interface as text; `read` and `asked` name what
/// was asked for in the texts of the failures.
pub open spec fn registration_text(read: Seq<char>, asked: Seq<char>, reply: Sent) -> Result<
    Seq<char>,
    ErrorView,
> {
    match reply {
        Err(_) => Err(ErrorView::TransportUnreachable),
        Ok(reply) => match reply.body.as_text() {
            Err(e) => Err(ErrorView::Internal(read + " read failed: "@ + e)),
            Ok(text) => if is_success(reply.code) {
                Ok(text)
            } else {
                Err(
                    ErrorView::Internal(
                        asked + " http error: status="@ + reply.status@ + " body="@ + text,
                    ),
                )
            },
        },
    }
}

/// A reply of the registration interface as a JSON tree.
pub open spec fn registration_json(read: Seq<char>, asked: Seq<char>, reply: Sent) -> Result<
    JsonView,
    ErrorView,
> {
    match registration_text(read, asked, reply) {
        Err(e) => Err(e),
        Ok(text) => match json_parsed(text) {
            Ok(value) => Ok(value),
            Err(e) => Err(ErrorView::Internal(read + " parse failed: "@ + e + "; body="@ + text)),
        },
    }
}

fn read_registration(read: &str, asked: &str, reply: &Sent) -> (r: Result<
    serde_json::Value,
    RustProviderError,
>)
    ensures
        json_outcome(r) == registration_json(read@, asked@, *reply),
{
    let reply = match reply {
        Err(_) => {
            return Err(RustProviderError::TransportUnreachable);
        },
        Ok(reply) => reply,
    };
    let text = match reply.body.text() {
        Err(e) => {
            return Err(RustProviderError::Internal(cat3(read, " read failed: ", e.as_str())));
        },
        Ok(text) => text,
    };
    if !reply.success() {
        return Err(
            RustProviderError::Internal(
                cat5(
                    asked,
                    " http error: status=",
                    reply.status.as_str(),
                    " body=",
                    text.as_str(),
                ),
            ),
        );
    }
    match parse_value(text.as_str()) {
        Ok(value) => Ok(value),
        Err(e) => Err(
            RustProviderError::Internal(
                cat5(read, " parse failed: ", e.as_str(), "; body=", text.as_str()),
            ),
        ),
    }
}

/// The settings of a network as they are sent to the device.
pub open spec fn wifi_message(
    ssid: Seq<char>,
    security: Seq<char>,
    passwd: Seq<char>,
    dhcp: Seq<char>,
    static_address: Seq<char>,
    gateway: Seq<char>,
    network_mask: Seq<char>,
    dns1: Seq<char>,
    dns2: Seq<char>,
    proxy: Seq<char>,
) -> JsonView {
    JsonView::Object(
        no_fields().insert("ssid"@, JsonView::Text(base64(encode_utf8(ssid)))).insert(
            "security"@,
            JsonView::Text(security),
        ).insert("passwd"@, JsonView::Text(passwd)).insert("dhcp"@, JsonView::Text(dhcp)).insert(
            "static_address"@,
            JsonView::Text(static_address),
        ).insert("gateway"@, JsonView::Text(gateway)).insert(
            "network_mask"@,
            JsonView::Text(network_mask),
        ).insert("dns1"@, JsonView::Text(dns1)).insert("dns2"@, JsonView::Text(dns2)).insert(
            "proxy"@,
            JsonView::Text(proxy),
        ),
    )
}

/// The endpoint that registers a network.
pub const WIFI_REGISTER: &'static str = "/system/controls/wifi_accesspoints/register";

/// The call that registers a network with all its settings. A listing that holds
/// the network's name as it is sent shows it as it was given.
pub fn add_wifi_full(config: &WifiConfigInput) -> (r: ApiCall)
    ensures
        r.deep_view() == ApiCallView::PutJson(
            WIFI_REGISTER@,
            wifi_message(
                config.ssid@,
                config.security@,
                config.passwd@,
                config.dhcp@,
                config.static_address@,
                config.gateway@,
                config.network_mask@,
                config.dns1@,
                config.dns2@,
                config.proxy@,
            ),
        ),
        forall|ap: JsonView, known: bool|
            ap.text_at("ssid"@) == Some(base64(encode_utf8(config.ssid@))) ==> (#[trigger] network(
                ap,
                known,
            )).ssid == config.ssid@,
{
    proof {
        encode_utf8_valid_utf8(config.ssid@);
        encode_utf8_decode_utf8(config.ssid@);
    }
    let mut payload = empty_object();
    let ssid = b64(config.ssid.as_str().as_bytes());
    assert(base64_text(ssid@) == Some(config.ssid@));
    put_text(&mut payload, "ssid", ssid.as_str());
    put_text(&mut payload, "security", config.security.as_str());
    put_text(&mut payload, "passwd", config.passwd.as_str());
    put_text(&mut payload, "dhcp", config.dhcp.as_str());
    put_text(&mut payload, "static_address", config.static_address.as_str());
    put_text(&mut payload, "gateway", config.gateway.as_str());
    put_text(&mut payload, "network_mask", config.network_mask.as_str());
    put_text(&mut payload, "dns1", config.dns1.as_str());
    put_text(&mut payload, "dns2", config.dns2.as_str());
    put_text(&mut payload, "proxy", config.proxy.as_str());
    ApiCall::PutJson(WIFI_REGISTER.to_owned(), payload)
}

/// The date and time that the system's clock tool printed, if it printed any,
/// else the start of 1970.
pub open spec fn clock_text(printed: Option<Seq<char>>) -> Seq<char> {
    match printed {
        Some(text) if trimmed(text).len() > 0 => trimmed(text),
        _ => "1970-01-01T00:00:00Z"@,
    }
}

/// The date and time that the system's clock tool printed, if it printed any.
pub fn chrono_like_now_utc(printed: &Option<String>) -> (r: String)
    ensures
        r@ == clock_text(printed.deep_view()),
{
    if let Some(text) = printed {
        let clean = trim(text.as_str());
        if !is_blank(clean.as_str()) {
            return clean;
        }
    }
    "1970-01-01T00:00:00Z".to_owned()
}

/// The object with the one member `value`.
pub open spec fn value_message(value: Seq<char>) -> JsonView {
    JsonView::Object(no_fields().insert("value"@, JsonView::Text(value)))
}

fn value_payload(value: &str) -> (r: serde_json::Value)
    ensures
        json_value(r) == value_message(value@),
{
    let mut payload = empty_object();
    put_text(&mut payload, "value", value);
    payload
}

impl RustNativeProvider {
    /// The request for what a device tells of itself before any pairing.
    pub fn register_info(addr: &str) -> (r: HttpRequest)
        ensures
            r.deep_view() == registration_request(
                Method::Get,
                addr@,
                "register/information"@,
                None,
                0,
            ),
    {
        registration_call(Method::Get, addr, "register/information", 0)
    }

    /// Reads what a device tells of itself before any pairing.
    pub fn read_register_info(reply: &Sent) -> (r: Result<serde_json::Value, RustProviderError>)
        ensures
            json_outcome(r) == registration_json("register info"@, "register information"@, *reply),
    {
        read_registration("register info", "register information", reply)
    }

    /// The request for the version of a device's interface.
    pub fn api_version(addr: &str) -> (r: HttpRequest)
        ensures
            r.deep_view() == registration_request(Method::Get, addr@, "api_version"@, None, 0),
    {
        registration_call(Method::Get, addr, "api_version", 0)
    }

    /// Reads the version of a device's interface.
    pub fn read_api_version(reply: &Sent) -> (r: Result<String, RustProviderError>)
        ensures
            outcome(r) == match registration_json("api version"@, "api version"@, *reply) {
                Err(e) => Err(e),
                Ok(value) => value_or(value, "missing api version"@),
            },
    {
        let value = read_registration("api version", "api version", reply)?;
        text_value_or(&value, "missing api version")
    }

    /// The call for the battery's state.
    pub fn battery_info() -> (r: ApiCall)
        ensures
            r.deep_view() == ApiCallView::GetJson("/system/status/battery"@),
    {
        ApiCall::GetJson("/system/status/battery".to_owned())
    }

    /// The call for the version of a device's firmware.
    pub fn firmware_version() -> (r: ApiCall)
        ensures
            r.deep_view() == ApiCallView::GetJson("/system/status/firmware_version"@),
    {
        ApiCall::GetJson("/system/status/firmware_version".to_owned())
    }

    /// Reads the version of a device's firmware.
    pub fn read_firmware_version(value: &serde_json::Value) -> (r: Result<
        String,
        RustProviderError,
    >)
        ensures
            outcome(r) == value_or(json_value(*value), "missing firmware version"@),
    {
        text_value_or(value, "missing firmware version")
    }

    /// The call for a device's hardware address.
    pub fn mac_address() -> (r: ApiCall)
        ensures
            r.deep_view() == ApiCallView::GetJson("/system/status/mac_address"@),
    {
        ApiCall::GetJson("/system/status/mac_address".to_owned())
    }

    /// Reads a device's hardware address.
    pub fn read_mac_address(value: &serde_json::Value) -> (r: Result<String, RustProviderError>)
        ensures
            outcome(r) == value_or(json_value(*value), "missing mac address"@),
    {
        text_value_or(value, "missing mac address")
    }

    /// The call that registers a network which hands out addresses itself.
    pub fn add_wifi(ssid: &str, security: &str, passwd: &str) -> (r: ApiCall)
        ensures
            r.deep_view() == ApiCallView::PutJson(
                WIFI_REGISTER@,
                wifi_message(
                    ssid@,
                    security@,
                    passwd@,
                    "true"@,
                    ""@,
                    ""@,
                    ""@,
                    ""@,
                    ""@,
                    "false"@,
                ),
            ),
            forall|ap: JsonView, known: bool|
                ap.text_at("ssid"@) == Some(base64(encode_utf8(ssid@))) ==> (#[trigger] network(
                    ap,
                    known,
                )).ssid == ssid@,
    {
        let config = WifiConfigInput {
            ssid: ssid.to_owned(),
            security: security.to_owned(),
            passwd: passwd.to_owned(),
            dhcp: "true".to_owned(),
            static_address: "".to_owned(),
            gateway: "".to_owned(),
            network_mask: "".to_owned(),
            dns1: "".to_owned(),
            dns2: "".to_owned(),
            proxy: "false".to_owned(),
        };
        add_wifi_full(&config)
    }

    /// The call that forgets a network.
    pub fn remove_wifi(ssid: &str, security: &str) -> (r: ApiCall)
        ensures
            r.deep_view() == ApiCallView::Delete(
                "/system/configs/wifi_accesspoints/"@ + ssid@ + "/"@ + security@,
            ),
    {
        ApiCall::Delete(cat4("/system/configs/wifi_accesspoints/", ssid, "/", security))
    }

    /// The call that switches Wi-Fi on or off, and the log line for it.
    pub fn toggle_wifi(enabled: bool) -> (r: (ApiCall, String))
        ensures
            ({
                let value = if enabled {
                    "on"@
                } else {
                    "off"@
                };
                &&& r.0.deep_view() == ApiCallView::PutJson(
                    "/system/configs/wifi"@,
                    value_message(value),
                )
                &&& r.1@ == "Wi-Fi toggled "@ + value
            }),
    {
        let value = if enabled {
            "on"
        } else {
            "off"
        };
        let call = ApiCall::PutJson("/system/configs/wifi".to_owned(), value_payload(value));
        (call, cat2("Wi-Fi toggled ", value))
    }

    /// The call for all settings.
    pub fn get_config() -> (r: ApiCall)
        ensures
            r.deep_view() == ApiCallView::GetJson("/system/configs/"@),
    {
        ApiCall::GetJson("/system/configs/".to_owned())
    }

    /// The call for one setting.
    pub fn get_config_value(key: &str) -> (r: ApiCall)
        ensures
            r.deep_view() == ApiCallView::GetJson("/system/configs/"@ + key@),
    {
        ApiCall::GetJson(cat2("/system/configs/", key))
    }

    /// The call that changes one setting, and the log line for it.
    pub fn set_config_value(key: &str, value: serde_json::Value) -> (r: (ApiCall, String))
        ensures
            r.0.deep_view() == ApiCallView::PutJson("/system/configs/"@ + key@, json_value(value)),
            r.1@ == "Config updated for "@ + key@,
    {
        (
            ApiCall::PutJson(cat2("/system/configs/", key), value),
            cat2("Config updated for ", key),
        )
    }

    /// The call that sets the device's clock to the given date and time.
    pub fn set_datetime_now(now: &str) -> (r: ApiCall)
        ensures
            r.deep_view() == ApiCallView::PutJson(
                "/system/configs/datetime"@,
                value_message(now@),
            ),
    {
        ApiCall::PutJson("/system/configs/datetime".to_owned(), value_payload(now))
    }

    /// The call for the note templates.
    pub fn list_templates() -> (r: ApiCall)
        ensures
            r.deep_view() == ApiCallView::GetJson(crate::programs::TEMPLATES@),
    {
        ApiCall::GetJson(crate::programs::TEMPLATES.to_owned())
    }

    /// The call that opens a document at a page, and the log line for it.
    pub fn display_document(document_id: &str, page: u32) -> (r: (ApiCall, String))
        ensures
            r.0.deep_view() == ApiCallView::PutJson(
                "/viewer/controls/open2"@,
                JsonView::Object(
                    no_fields().insert("document_id"@, JsonView::Text(document_id@)).insert(
                        "page"@,
                        JsonView::Number(Some(page as u64), decimal(page as nat)),
                    ),
                ),
            ),
            r.1@ == "Display requested for document "@ + document_id@ + " page "@ + decimal(
                page as nat,
            ),
    {
        let mut payload = empty_object();
        put_text(&mut payload, "document_id", document_id);
        set_member(&mut payload, "page", number_value(page as u64));
        let message = cat4(
            "Display requested for document ",
            document_id,
            " page ",
            number_text(page as u64).as_str(),
        );
        (ApiCall::PutJson("/viewer/controls/open2".to_owned(), payload), message)
    }

    /// The call for a picture of the screen.
    pub fn take_screenshot() -> (r: ApiCall)
        ensures
            r.deep_view() == ApiCallView::GetBytes("/system/controls/screen_shot2?query=jpeg"@),
    {
        ApiCall::GetBytes("/system/controls/screen_shot2?query=jpeg".to_owned())
    }

    /// The call that looks for networks.
    pub fn scan_wifi_call() -> (r: ApiCall)
        ensures
            r.deep_view() == ApiCallView::PostJson(
                "/system/controls/wifi_accesspoints/scan"@,
                JsonView::Object(no_fields()),
            ),
    {
        ApiCall::PostJson("/system/controls/wifi_accesspoints/scan".to_owned(), empty_object())
    }

    /// The call for the networks that the device knows.
    pub fn list_wifi_call() -> (r: ApiCall)
        ensures
            r.deep_view() == ApiCallView::GetJson("/system/configs/wifi_accesspoints"@),
    {
        ApiCall::GetJson("/system/configs/wifi_accesspoints".to_owned())
    }

    /// The request that asks whether a device is there.
    pub fn ping(session: &Session) -> (r: HttpRequest)
        ensures
            r.deep_view() == session_request(
                session.deep_view(),
                Method::Get,
                "/ping"@,
                RequestBodyView::Empty,
            ),
    {
        ApiCall::GetJson("/ping".to_owned()).request(session)
    }

    /// Whether a device is there, by its reply.
    pub fn read_ping(reply: &Sent) -> (r: Result<bool, RustProviderError>)
        ensures
            outcome(r) == match *reply {
                Err(_) => Err(ErrorView::TransportUnreachable),
                Ok(reply) => Ok(is_success(reply.code)),
            },
    {
        match reply {
            Err(_) => Err(RustProviderError::TransportUnreachable),
            Ok(reply) => Ok(reply.success()),
        }
    }
}

/// A setting is sent as the text that it is to be, and read back as that text.
pub proof fn setting_is_read_back(value: Seq<char>, missing: Seq<char>)
    ensures
        value_message(value).text_at("value"@) == Some(value),
        value_or(value_message(value), missing) == Ok::<Seq<char>, ErrorView>(value),
{
}

proof fn wifi_keys_differ()
    ensures
        "ssid"@ != "security"@,
        "ssid"@ != "passwd"@,
        "ssid"@ != "dhcp"@,
        "ssid"@ != "static_address"@,
        "ssid"@ != "gateway"@,
        "ssid"@ != "network_mask"@,
        "ssid"@ != "dns1"@,
        "ssid"@ != "dns2"@,
        "ssid"@ != "proxy"@,
        "security"@ != "passwd"@,
        "security"@ != "dhcp"@,
        "security"@ != "static_address"@,
        "security"@ != "gateway"@,
        "security"@ != "network_mask"@,
        "security"@ != "dns1"@,
        "security"@ != "dns2"@,
        "security"@ != "proxy"@,
        "passwd"@ != "dhcp"@,
        "passwd"@ != "static_address"@,
        "passwd"@ != "gateway"@,
        "passwd"@ != "network_mask"@,
        "passwd"@ != "dns1"@,
        "passwd"@ != "dns2"@,
        "passwd"@ != "proxy"@,
        "dhcp"@ != "static_address"@,
        "dhcp"@ != "gateway"@,
        "dhcp"@ != "network_mask"@,
        "dhcp"@ != "dns1"@,
        "dhcp"@ != "dns2"@,
        "dhcp"@ != "proxy"@,
        "static_address"@ != "gateway"@,
        "static_address"@ != "network_mask"@,
        "static_address"@ != "dns1"@,
        "static_address"@ != "dns2"@,
        "static_address"@ != "proxy"@,
        "gateway"@ != "network_mask"@,
        "gateway"@ != "dns1"@,
        "gateway"@ != "dns2"@,
        "gateway"@ != "proxy"@,
        "network_mask"@ != "dns1"@,
        "network_mask"@ != "dns2"@,
        "network_mask"@ != "proxy"@,
        "dns1"@ != "dns2"@,
        "dns1"@ != "proxy"@,
        "dns2"@ != "proxy"@,
{
    reveal_strlit("ssid");
    reveal_strlit("security");
    reveal_strlit("passwd");
    reveal_strlit("dhcp");
    reveal_strlit("static_address");
    reveal_strlit("gateway");
    reveal_strlit("network_mask");
    reveal_strlit("dns1");
    reveal_strlit("dns2");
    reveal_strlit("proxy");
    assert("ssid"@.len() == 4 && "security"@.len() == 8 && "passwd"@.len() == 6 && "dhcp"@.len()
        == 4 && "static_address"@.len() == 14 && "gateway"@.len() == 7 && "network_mask"@.len()
        == 12 && "dns1"@.len() == 4 && "dns2"@.len() == 4 && "proxy"@.len() == 5);
    assert("ssid"@[0] == 's' && "dhcp"@[1] == 'h' && "dns1"@[0] == 'd' && "dns1"@[1] == 'n'
        && "dns2"@[0] == 'd' && "dns2"@[1] == 'n' && "dhcp"@[0] == 'd');
    assert("dns1"@[3] == '1' && "dns2"@[3] == '2');
}

/// Every setting of a network is sent under its own name, the network's name as
/// base64 of its UTF-8 bytes.
pub proof fn network_is_sent_setting_by_setting(
    ssid: Seq<char>,
    security: Seq<char>,
    passwd: Seq<char>,
    dhcp: Seq<char>,
    static_address: Seq<char>,
    gateway: Seq<char>,
    network_mask: Seq<char>,
    dns1: Seq<char>,
    dns2: Seq<char>,
    proxy: Seq<char>,
)
    ensures
        ({
            let message = wifi_message(
                ssid,
                security,
                passwd,
                dhcp,
                static_address,
                gateway,
                network_mask,
                dns1,
                dns2,
                proxy,
            );
            &&& message.text_at("ssid"@) == Some(base64(encode_utf8(ssid)))
            &&& message.text_at("security"@) == Some(security)
            &&& message.text_at("passwd"@) == Some(passwd)
            &&& message.text_at("dhcp"@) == Some(dhcp)
            &&& message.text_at("static_address"@) == Some(static_address)
            &&& message.text_at("gateway"@) == Some(gateway)
            &&& message.text_at("network_mask"@) == Some(network_mask)
            &&& message.text_at("dns1"@) == Some(dns1)
            &&& message.text_at("dns2"@) == Some(dns2)
            &&& message.text_at("proxy"@) == Some(proxy)
        }),
{
    wifi_keys_differ();
}

/// The clock is set to what the system printed, white space around it aside.
pub proof fn clock_is_what_was_printed(front: Seq<char>, time: Seq<char>, back: Seq<char>)
    requires
        time.len() > 0,
        !crate::text::is_space(time[0]),
        !crate::text::is_space(time.last()),
        forall|i: int| 0 <= i < front.len() ==> crate::text::is_space(front[i]),
        forall|i: int| 0 <= i < back.len() ==> crate::text::is_space(back[i]),
    ensures
        clock_text(Some(front + time + back)) == time,
{
    crate::text::trimming_takes_white_space_off(front, time, back);
}

} // verus!
