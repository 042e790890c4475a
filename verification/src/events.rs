//! Plain event and error values exchanged with the biometric daemon's
//! client layer.  The daemon itself is an external collaborator; these
//! types only carry its reported outcomes.
use vstd::prelude::*;

verus! {

/// Events sent during the enrollment process.
#[derive(Clone)]
pub enum EnrollmentEvent {
    /// Show this feedback text.
    SetText(String),
    /// Enrollment finished.
    EnrollCompleted,
}

/// A finger was selected during verification.
#[derive(Debug, Clone, PartialEq, Eq)]
pub struct VerifyFingerSelectedEvent {
    pub finger_name: String,
}

/// A verification status report, with its terminal flag.
#[derive(Debug, Clone, PartialEq, Eq)]
pub struct VerifyStatusEvent {
    pub result: String,
    pub done: bool,
}

/// An enrollment status report, with its terminal flag.
#[derive(Debug, Clone, PartialEq, Eq)]
pub struct EnrollStatusEvent {
    pub result: String,
    pub done: bool,
}

/// Why a device operation failed.
#[derive(Debug)]
pub enum DeviceError {
    /// Could not reach the daemon, with the cause.
    ConnectionFailed(String),
    /// No fingerprint device is present.
    NoDeviceAvailable,
    /// The device could not be claimed, with the cause.
    ClaimFailed(String),
    /// Another device operation failed, with the cause.
    OperationFailed(String),
}

impl DeviceError {
    /// A rendered description of the failure.
    pub fn message(&self) -> (r: String)
        ensures
            (match self {
                DeviceError::ConnectionFailed(m) => r@ == "Connection failed: "@ + m@,
                DeviceError::NoDeviceAvailable => r@ == "No fingerprint devices available"@,
                DeviceError::ClaimFailed(m) => r@ == "Failed to claim device: "@ + m@,
                DeviceError::OperationFailed(m) => r@ == "Operation failed: "@ + m@,
            }),
    {
        let mut out = String::new();
        match self {
            DeviceError::ConnectionFailed(m) => {
                out.append("Connection failed: ");
                out.append(m.as_str());
            },
            DeviceError::NoDeviceAvailable => {
                out.append("No fingerprint devices available");
            },
            DeviceError::ClaimFailed(m) => {
                out.append("Failed to claim device: ");
                out.append(m.as_str());
            },
            DeviceError::OperationFailed(m) => {
                out.append("Operation failed: ");
                out.append(m.as_str());
            },
        }
        out
    }
}

} // verus!
