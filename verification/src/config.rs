//! The settings of the appliance.

use vstd::prelude::*;

verus! {

/// All settings.
#[derive(Debug)]
pub struct Config {
    pub lcd: Lcd,
    pub disk: Disk,
    pub network: Network,
}

/// The display.
#[derive(Debug)]
pub struct Lcd {
    /// Path of the serial device that the display is attached to.
    pub path: String,
    /// Brightness of the screen while it is awake.
    pub screen_backlight: u8,
    /// Brightness of the keypad while the screen is awake.
    pub keypad_backlight: u8,
}

/// What the disk page shows and which arrays are watched.
#[derive(Debug)]
pub struct Disk {
    /// The mount points to show, in this order; all of them if empty.
    pub paths: Vec<String>,
    /// The RAID arrays to watch, by device name.
    pub md_raid: Vec<String>,
}

/// What the network page shows.
#[derive(Debug)]
pub struct Network {
    /// The interfaces to show, in this order; all of them if empty.
    pub interfaces: Vec<String>,
}

} // verus!
