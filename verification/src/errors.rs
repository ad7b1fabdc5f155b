//! Failures of device operations.
use crate::domain::{BridgeError, BridgeErrorCode};
use crate::text::cat2;
use vstd::prelude::*;

verus! {

/// Why a device operation failed.
#[derive(Debug)]
pub enum RustProviderError {
    DeviceNotFound,
    PairingRequired,
    PinInvalid,
    AuthFailed,
    TransportUnreachable,
    NotImplemented(&'static str),
    ConflictDetected,
    UnsupportedOverUsb,
    Internal(String),
}

/// The content of a [`RustProviderError`].
pub enum ErrorView {
    DeviceNotFound,
    PairingRequired,
    PinInvalid,
    AuthFailed,
    TransportUnreachable,
    NotImplemented(Seq<char>),
    ConflictDetected,
    UnsupportedOverUsb,
    Internal(Seq<char>),
}

/// Whether a failure tells what failed, and then why.
pub open spec fn is_told(e: ErrorView, what: Seq<char>) -> bool {
    e matches ErrorView::Internal(message) && exists|why: Seq<char>|
        message == #[trigger] (what + why)
}

impl DeepView for RustProviderError {
    type V = ErrorView;

    open spec fn deep_view(&self) -> ErrorView {
        match self {
            RustProviderError::DeviceNotFound => ErrorView::DeviceNotFound,
            RustProviderError::PairingRequired => ErrorView::PairingRequired,
            RustProviderError::PinInvalid => ErrorView::PinInvalid,
            RustProviderError::AuthFailed => ErrorView::AuthFailed,
            RustProviderError::TransportUnreachable => ErrorView::TransportUnreachable,
            RustProviderError::NotImplemented(op) => ErrorView::NotImplemented(op@),
            RustProviderError::ConflictDetected => ErrorView::ConflictDetected,
            RustProviderError::UnsupportedOverUsb => ErrorView::UnsupportedOverUsb,
            RustProviderError::Internal(message) => ErrorView::Internal(message@),
        }
    }
}

impl Clone for RustProviderError {
    fn clone(&self) -> (r: Self)
        ensures
            r.deep_view() == self.deep_view(),
    {
        match self {
            RustProviderError::DeviceNotFound => RustProviderError::DeviceNotFound,
            RustProviderError::PairingRequired => RustProviderError::PairingRequired,
            RustProviderError::PinInvalid => RustProviderError::PinInvalid,
            RustProviderError::AuthFailed => RustProviderError::AuthFailed,
            RustProviderError::TransportUnreachable => RustProviderError::TransportUnreachable,
            RustProviderError::NotImplemented(op) => RustProviderError::NotImplemented(*op),
            RustProviderError::ConflictDetected => RustProviderError::ConflictDetected,
            RustProviderError::UnsupportedOverUsb => RustProviderError::UnsupportedOverUsb,
            RustProviderError::Internal(message) => RustProviderError::Internal(
                message.as_str().to_owned(),
            ),
        }
    }
}

impl ErrorView {
    /// The text shown for the failure.
    pub open spec fn text(self) -> Seq<char> {
        match self {
            ErrorView::DeviceNotFound => "device not found"@,
            ErrorView::PairingRequired => "pairing required"@,
            ErrorView::PinInvalid => "invalid pairing pin"@,
            ErrorView::AuthFailed => "authentication failed"@,
            ErrorView::TransportUnreachable => "transport unreachable"@,
            ErrorView::NotImplemented(op) => "operation not implemented in rust provider: "@ + op,
            ErrorView::ConflictDetected => "conflict detected"@,
            ErrorView::UnsupportedOverUsb => "unsupported over usb"@,
            ErrorView::Internal(message) => "internal error: "@ + message,
        }
    }

    /// The code under which the failure is told to a caller.
    pub open spec fn code(self) -> BridgeErrorCode {
        match self {
            ErrorView::DeviceNotFound => BridgeErrorCode::DeviceNotFound,
            ErrorView::PairingRequired => BridgeErrorCode::PairingRequired,
            ErrorView::PinInvalid => BridgeErrorCode::PinInvalid,
            ErrorView::AuthFailed => BridgeErrorCode::AuthFailed,
            ErrorView::TransportUnreachable => BridgeErrorCode::TransportUnreachable,
            ErrorView::NotImplemented(_) => BridgeErrorCode::InternalError,
            ErrorView::ConflictDetected => BridgeErrorCode::ConflictDetected,
            ErrorView::UnsupportedOverUsb => BridgeErrorCode::UnsupportedOverUsb,
            ErrorView::Internal(_) => BridgeErrorCode::InternalError,
        }
    }

    /// The message under which the failure is told to a caller.
    pub open spec fn message(self) -> Seq<char> {
        match self {
            ErrorView::NotImplemented(op) => "rust provider method not implemented: "@ + op,
            ErrorView::Internal(message) => message,
            _ => self.text(),
        }
    }
}

impl RustProviderError {
    /// The text shown for the failure.
    pub fn text(&self) -> (r: String)
        ensures
            r@ == self.deep_view().text(),
    {
        match self {
            RustProviderError::DeviceNotFound => "device not found".to_owned(),
            RustProviderError::PairingRequired => "pairing required".to_owned(),
            RustProviderError::PinInvalid => "invalid pairing pin".to_owned(),
            RustProviderError::AuthFailed => "authentication failed".to_owned(),
            RustProviderError::TransportUnreachable => "transport unreachable".to_owned(),
            RustProviderError::NotImplemented(op) => cat2(
                "operation not implemented in rust provider: ",
                op,
            ),
            RustProviderError::ConflictDetected => "conflict detected".to_owned(),
            RustProviderError::UnsupportedOverUsb => "unsupported over usb".to_owned(),
            RustProviderError::Internal(message) => cat2("internal error: ", message.as_str()),
        }
    }
}

/// The failure that callers are told of: its code, its message and no details.
pub fn map_rust_error(err: RustProviderError) -> (r: BridgeError)
    ensures
        r.code == err.deep_view().code(),
        r.message@ == err.deep_view().message(),
        r.details is None,
{
    let (code, message) = match err {
        RustProviderError::DeviceNotFound => (BridgeErrorCode::DeviceNotFound, err.text()),
        RustProviderError::PairingRequired => (BridgeErrorCode::PairingRequired, err.text()),
        RustProviderError::PinInvalid => (BridgeErrorCode::PinInvalid, err.text()),
        RustProviderError::TransportUnreachable => (
            BridgeErrorCode::TransportUnreachable,
            err.text(),
        ),
        RustProviderError::AuthFailed => (BridgeErrorCode::AuthFailed, err.text()),
        RustProviderError::ConflictDetected => (BridgeErrorCode::ConflictDetected, err.text()),
        RustProviderError::UnsupportedOverUsb => (BridgeErrorCode::UnsupportedOverUsb, err.text()),
        RustProviderError::NotImplemented(op) => (
            BridgeErrorCode::InternalError,
            cat2("rust provider method not implemented: ", op),
        ),
        RustProviderError::Internal(message) => (BridgeErrorCode::InternalError, message),
    };
    BridgeError { code, message, details: None }
}

/// What an operation gave: a value, or why it failed.
pub open spec fn outcome<T: DeepView>(r: Result<T, RustProviderError>) -> Result<T::V, ErrorView> {
    match r {
        Ok(v) => Ok(v.deep_view()),
        Err(e) => Err(e.deep_view()),
    }
}

/// An internal failure with the given message.
pub fn internal(message: &str) -> (r: RustProviderError)
    ensures
        r.deep_view() == ErrorView::Internal(message@),
{
    RustProviderError::Internal(message.to_owned())
}

} // verus!
