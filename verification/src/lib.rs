//! Driver core for a USB traffic light with three lamps.
//!
//! The crate decides what is said to the device and in which order; it never
//! touches the bus itself. A caller owns the USB connection, carries out each
//! [`Request`] on it and hands the transport's [`Reply`] back.
//!
//! * [`command`]: the lamps, their states and the three bytes that set one.
//! * [`transport`]: the requests made of the USB transport and its replies.
//! * [`device`]: finding the device, claiming its interface, setting a lamp
//!   and giving the interface back.
//! * [`lifecycle`]: the phases of a device's life and what each event does
//!   to them.
//! * [`laws`]: what holds of every run from opening the device to releasing
//!   it.

pub mod command;
pub mod device;
pub mod laws;
pub mod lifecycle;
pub mod transport;

pub use command::{encode, Color, State};
pub use device::{
    AcquireStep, Acquisition, Identity, InitializedGlobalDevice, Release, ReleaseStep,
};
pub use lifecycle::{Event, Phase};
pub use transport::{DeviceError, ReleaseError, Reply, Request};
