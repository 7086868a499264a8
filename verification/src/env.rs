//! The vocabulary of a device environment.

use vstd::prelude::*;

verus! {

/// The types by which an environment names its devices and what they can do.
pub trait DevEnv {
    /// One device.
    type Device: Clone;

    /// A kind of device, such as "a flashbulb".
    type DeviceKind;

    /// Something a device can measure, such as "the current temperature".
    type InputCapability;

    /// Something a device can be asked to do, such as "set luminosity".
    type OutputCapability: Clone;
}

/// The environment of a script that has not been bound yet: everything is
/// still a name.
pub struct UncheckedEnv;

impl DevEnv for UncheckedEnv {
    type Device = String;

    type DeviceKind = String;

    type InputCapability = String;

    type OutputCapability = String;
}

} // verus!
