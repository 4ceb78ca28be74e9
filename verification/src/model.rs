//! The records a snapshot is made of.

use vstd::prelude::*;

verus! {

/// One network interface with its byte counters.
#[derive(Debug)]
pub struct NetworkDevice {
    pub name: String,
    pub received_bytes: u64,
    pub transfered_bytes: u64,
}

/// What a [`NetworkDevice`] holds, as plain values.
pub struct NetworkDeviceView {
    pub name: Seq<char>,
    pub received_bytes: u64,
    pub transfered_bytes: u64,
}

impl View for NetworkDevice {
    type V = NetworkDeviceView;

    open spec fn view(&self) -> NetworkDeviceView {
        NetworkDeviceView {
            name: self.name@,
            received_bytes: self.received_bytes,
            transfered_bytes: self.transfered_bytes,
        }
    }
}

impl DeepView for NetworkDevice {
    type V = NetworkDeviceView;

    open spec fn deep_view(&self) -> NetworkDeviceView {
        self@
    }
}

impl NetworkDevice {
    /// An interface without a name that has moved no bytes.
    pub fn new() -> (device: NetworkDevice)
        ensures
            device@ == (NetworkDeviceView {
                name: Seq::empty(),
                received_bytes: 0,
                transfered_bytes: 0,
            }),
    {
        NetworkDevice { name: String::new(), received_bytes: 0, transfered_bytes: 0 }
    }
}

/// A whole block device.
#[derive(Debug)]
pub struct Storage {
    pub name: String,
    pub major: u8,
    pub minor: u8,
    /// Size in bytes.
    pub size: u64,
}

/// What a [`Storage`] holds, as plain values.
pub struct StorageView {
    pub name: Seq<char>,
    pub major: u8,
    pub minor: u8,
    pub size: u64,
}

impl View for Storage {
    type V = StorageView;

    open spec fn view(&self) -> StorageView {
        StorageView { name: self.name@, major: self.major, minor: self.minor, size: self.size }
    }
}

impl DeepView for Storage {
    type V = StorageView;

    open spec fn deep_view(&self) -> StorageView {
        self@
    }
}

impl Storage {
    /// A device without a name, of size zero.
    pub fn new() -> (device: Storage)
        ensures
            device@ == (StorageView { name: Seq::empty(), major: 0, minor: 0, size: 0 }),
    {
        Storage { name: String::new(), major: 0, minor: 0, size: 0 }
    }
}

/// A partition of a block device. File system and mount point are empty
/// while the partition is not mounted.
#[derive(Debug)]
pub struct Partition {
    pub name: String,
    pub major: u8,
    pub minor: u8,
    /// Size in bytes.
    pub size: u64,
    pub filesystem: String,
    pub mountpoint: String,
}

/// What a [`Partition`] holds, as plain values.
pub struct PartitionView {
    pub name: Seq<char>,
    pub major: u8,
    pub minor: u8,
    pub size: u64,
    pub filesystem: Seq<char>,
    pub mountpoint: Seq<char>,
}

impl View for Partition {
    type V = PartitionView;

    open spec fn view(&self) -> PartitionView {
        PartitionView {
            name: self.name@,
            major: self.major,
            minor: self.minor,
            size: self.size,
            filesystem: self.filesystem@,
            mountpoint: self.mountpoint@,
        }
    }
}

impl DeepView for Partition {
    type V = PartitionView;

    open spec fn deep_view(&self) -> PartitionView {
        self@
    }
}

impl Partition {
    /// An unmounted partition without a name, of size zero.
    pub fn new() -> (partition: Partition)
        ensures
            partition@ == (PartitionView {
                name: Seq::empty(),
                major: 0,
                minor: 0,
                size: 0,
                filesystem: Seq::empty(),
                mountpoint: Seq::empty(),
            }),
    {
        Partition {
            name: String::new(),
            major: 0,
            minor: 0,
            size: 0,
            filesystem: String::new(),
            mountpoint: String::new(),
        }
    }
}

} // verus!
