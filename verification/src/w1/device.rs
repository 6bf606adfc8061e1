//! One-wire devices and where the bus shows them.

use vstd::prelude::*;

verus! {

/// The folder under which the one-wire bus shows its devices.
pub const DEVICE_PATH_FOLDER: &'static str = "/sys/bus/w1/devices";

/// The name of the file, in a slave device's folder, that holds what the device reads.
pub const SLAVE_DEVICE_PATH_SUFFIX: &'static str = "w1_slave";

/// The path of the file that holds what the slave device `device` reads.
pub open spec fn slave_device_path(device: Seq<char>) -> Seq<char> {
    DEVICE_PATH_FOLDER@ + "/"@ + device + "/"@ + SLAVE_DEVICE_PATH_SUFFIX@
}

/// A one-wire device.
pub trait Device: Send {
    /// Full device path.
    fn device_path(&self) -> &str;
}

} // verus!
