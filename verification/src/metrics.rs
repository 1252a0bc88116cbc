//! Readings of the host, and the text lines made from them.
//!
//! The caller samples the metrics source and hands the readings in.  Sizes
//! are plain integers; load averages and network rates arrive as text,
//! because rounding a fraction to a fixed number of decimals is the
//! caller's part.

use crate::text::{decimal, push_decimal};
use vstd::prelude::*;

verus! {

/// One mounted disk.
pub struct DiskInfo {
    pub mount_point: String,
    /// Size in bytes.
    pub total_space: u64,
    /// Free space in bytes.
    pub available_space: u64,
}

/// One network interface.
pub struct InterfaceInfo {
    pub name: String,
    /// Megabits per second sent over the last refresh period, written with
    /// one decimal.
    pub up: String,
    /// Megabits per second received over the last refresh period, written
    /// with one decimal.
    pub down: String,
}

/// The load averages over one, five and fifteen minutes, each written with
/// two decimals.
pub struct LoadAverage {
    pub one: String,
    pub five: String,
    pub fifteen: String,
}

/// One sample of the host's metrics.
pub struct Metrics {
    pub host_name: Option<String>,
    pub load_average: LoadAverage,
    /// Installed memory in kibibytes.
    pub total_memory: u64,
    /// Memory available to programs in kibibytes.
    pub available_memory: u64,
    pub disks: Vec<DiskInfo>,
    pub networks: Vec<InterfaceInfo>,
}

/// Kibibytes as whole megabytes: times 1024, by 1000, by 1024, each
/// division rounding down.
pub open spec fn mib(kb: nat) -> nat {
    kb * 1024 / 1000 / 1024
}

/// Bytes as whole gibibytes, rounding down.
pub open spec fn gib(bytes: nat) -> nat {
    bytes / 0x4000_0000
}

/// The memory line.  Total and available memory are converted one by one
/// and then subtracted.
pub open spec fn memory_text(total_kb: nat, available_kb: nat) -> Seq<char> {
    "Mem: "@ + decimal((mib(total_kb) - mib(available_kb)) as nat) + "/"@ + decimal(mib(total_kb))
        + " M"@
}

/// The load line.
pub open spec fn load_text(load: LoadAverage) -> Seq<char> {
    "CPU: "@ + load.one@ + " "@ + load.five@ + " "@ + load.fifteen@
}

/// Whole gibibytes in use on a disk, never less than none.
pub open spec fn used_gib(total: nat, available: nat) -> nat {
    if gib(total) >= gib(available) {
        (gib(total) - gib(available)) as nat
    } else {
        0
    }
}

/// The line for one disk.
pub open spec fn disk_text(disk: DiskInfo) -> Seq<char> {
    disk.mount_point@ + " "@ + decimal(
        used_gib(disk.total_space as nat, disk.available_space as nat),
    ) + "/"@ + decimal(gib(disk.total_space as nat)) + " G"@
}

/// The line for one network interface.
pub open spec fn network_text(net: InterfaceInfo) -> Seq<char> {
    net.name@ + " "@ + net.up@ + "/"@ + net.down@ + " M"@
}

/// The mount points of `disks`, in their order.
pub open spec fn mount_points(disks: Seq<DiskInfo>) -> Seq<Seq<char>> {
    Seq::new(disks.len(), |i: int| disks[i].mount_point@)
}

/// The names of `nets`, in their order.
pub open spec fn interface_names(nets: Seq<InterfaceInfo>) -> Seq<Seq<char>> {
    Seq::new(nets.len(), |i: int| nets[i].name@)
}

/// Converts kibibytes to whole megabytes.
pub fn kb_to_mib(x: u64) -> (r: u64)
    ensures
        r == mib(x as nat),
        r == x * 1024 / 1000 / 1024,
{
    let wide: u128 = x as u128;
    (wide * 1024 / 1000 / 1024) as u64
}

/// Converts bytes to whole gibibytes.
pub fn bytes_to_gib(x: u64) -> (r: u64)
    ensures
        r == gib(x as nat),
{
    assert(x >> 30 == x / 0x4000_0000) by (bit_vector);
    x >> 30
}

/// Formats the memory line.
pub fn memory_line(total_kb: u64, available_kb: u64) -> (line: String)
    requires
        available_kb <= total_kb,
    ensures
        line@ == memory_text(total_kb as nat, available_kb as nat),
{
    let total = kb_to_mib(total_kb);
    let unavailable = total - kb_to_mib(available_kb);
    let mut line = String::from_str("Mem: ");
    push_decimal(&mut line, unavailable);
    line.append("/");
    push_decimal(&mut line, total);
    line.append(" M");
    line
}

/// Formats the load line.
pub fn load_line(load: &LoadAverage) -> (line: String)
    ensures
        line@ == load_text(*load),
{
    let mut line = String::from_str("CPU: ");
    line.append(load.one.as_str());
    line.append(" ");
    line.append(load.five.as_str());
    line.append(" ");
    line.append(load.fifteen.as_str());
    line
}

/// Formats the line for one disk.
pub fn disk_line(disk: &DiskInfo) -> (line: String)
    ensures
        line@ == disk_text(*disk),
{
    let total = bytes_to_gib(disk.total_space);
    let available = bytes_to_gib(disk.available_space);
    let unavailable = if total >= available {
        total - available
    } else {
        0
    };
    let mut line = disk.mount_point.clone();
    line.append(" ");
    push_decimal(&mut line, unavailable);
    line.append("/");
    push_decimal(&mut line, total);
    line.append(" G");
    line
}

/// Formats the line for one network interface.
pub fn network_line(net: &InterfaceInfo) -> (line: String)
    ensures
        line@ == network_text(*net),
{
    let mut line = net.name.clone();
    line.append(" ");
    line.append(net.up.as_str());
    line.append("/");
    line.append(net.down.as_str());
    line.append(" M");
    line
}

/// Copies out the mount points of `disks`.
pub fn mount_points_of(disks: &Vec<DiskInfo>) -> (names: Vec<String>)
    ensures
        names.deep_view() == mount_points(disks@),
{
    let mut names: Vec<String> = Vec::new();
    let mut i: usize = 0;
    while i < disks.len()
        invariant
            i <= disks.len(),
            names.len() == i,
            forall|j: int| 0 <= j < i ==> names[j]@ == disks[j].mount_point@,
        decreases disks.len() - i,
    {
        names.push(disks[i].mount_point.clone());
        i += 1;
    }
    assert(names.deep_view() =~= mount_points(disks@));
    names
}

/// Copies out the names of `nets`.
pub fn interface_names_of(nets: &Vec<InterfaceInfo>) -> (names: Vec<String>)
    ensures
        names.deep_view() == interface_names(nets@),
{
    let mut names: Vec<String> = Vec::new();
    let mut i: usize = 0;
    while i < nets.len()
        invariant
            i <= nets.len(),
            names.len() == i,
            forall|j: int| 0 <= j < i ==> names[j]@ == nets[j].name@,
        decreases nets.len() - i,
    {
        names.push(nets[i].name.clone());
        i += 1;
    }
    assert(names.deep_view() =~= interface_names(nets@));
    names
}

} // verus!
