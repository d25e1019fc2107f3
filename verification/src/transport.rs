//! What the driver asks of the USB transport, and what the transport answers.
//!
//! The driver performs no transfer itself. It hands its caller one
//! [`Request`] at a time; the caller carries it out on the bus and hands back
//! the [`Reply`].

use vstd::prelude::*;

verus! {

/// The interface of the device that carries the lamp commands.
pub const INTERFACE: u8 = 0x00;

/// The address of the interrupt endpoint that takes the lamp commands.
pub const CTRL_ENDPOINT: u8 = 0x02;

/// How long a transfer may take, in seconds.
pub const TIMEOUT_SECS: u64 = 1000;

/// `rusb::Error`, the failure that the USB transport reports. The driver
/// carries such a value from a reply to its own result and never looks
/// inside it.
#[verifier::external_type_specification]
#[verifier::external_body]
pub struct ExTransportFailure(rusb::Error);

/// One call that the transport is to make on the device.
#[derive(Clone, Copy, PartialEq, Eq, Debug)]
pub enum Request {
    /// Open the device.
    Open,
    /// Ask whether a kernel driver is bound to `interface`.
    KernelDriverActive { interface: u8 },
    /// Unbind the kernel driver from `interface`.
    DetachKernelDriver { interface: u8 },
    /// Claim `interface` for this process.
    ClaimInterface { interface: u8 },
    /// Send `payload` to the interrupt endpoint `endpoint`, waiting at most
    /// `timeout_secs` seconds.
    WriteInterrupt { endpoint: u8, payload: [u8; 3], timeout_secs: u64 },
    /// Give `interface` back.
    ReleaseInterface { interface: u8 },
    /// Bind the kernel driver to `interface` again.
    AttachKernelDriver { interface: u8 },
}

/// What the transport answers to a request.
#[derive(Clone, Copy, PartialEq, Eq, Debug)]
pub enum Reply {
    /// The call succeeded and has nothing to tell.
    Done,
    /// The answer to [`Request::KernelDriverActive`].
    KernelDriver(bool),
    /// The transfer succeeded and moved this many bytes.
    Written(usize),
    /// The call failed.
    Failed(rusb::Error),
}

/// Why the device could not be acquired or a lamp could not be set.
#[derive(Clone, Copy, PartialEq, Eq, Debug)]
pub enum DeviceError {
    /// No attached device has the traffic light's vendor and product
    /// identifiers.
    NotFound,
    /// The transport failed; its own error is passed on unchanged.
    Transport(rusb::Error),
}

/// Why the device could not be given back. Nothing can be done about it:
/// the interface and the kernel driver are left in an unknown state.
#[derive(Clone, Copy, PartialEq, Eq, Debug)]
pub enum ReleaseError {
    /// The interface could not be released.
    Interface(rusb::Error),
    /// The kernel driver could not be bound again.
    KernelDriver(rusb::Error),
}

impl Reply {
    /// The result of a call of which only success or failure matters:
    /// `Failed` carries the transport's error over, every other reply is
    /// success.
    pub open spec fn outcome(self) -> Result<(), DeviceError> {
        match self {
            Reply::Failed(failure) => Err(DeviceError::Transport(failure)),
            _ => Ok(()),
        }
    }
}

} // verus!
