//! The report: each record and the whole snapshot as text.

use vstd::prelude::*;
use crate::model::{
    NetworkDevice, NetworkDeviceView, Partition, PartitionView, Storage, StorageView,
};
use crate::snapshot::PcInfo;
use crate::text::{decimal_digits, decimal_string, same_text};
use crate::utils::{conv_b, conv_p, scaled_text, shown_percent};

verus! {

/// The lines that show one network interface.
pub open spec fn network_device_text(device: NetworkDeviceView) -> Seq<char> {
    "\n│   ├─ "@ + device.name + "\n│   │     DOWN:     "@ + scaled_text(
        device.received_bytes as nat,
    ) + "      "@ + decimal_digits(device.received_bytes as nat) + "\n│   │     UP:       "@
        + scaled_text(device.transfered_bytes as nat) + "      "@ + decimal_digits(
        device.transfered_bytes as nat,
    )
}

/// The lines that show one block device.
pub open spec fn storage_text(device: StorageView) -> Seq<char> {
    "        \n│   ├─ "@ + device.name + "\n│   │     MAJ:MIN:     "@ + decimal_digits(
        device.major as nat,
    ) + ":"@ + decimal_digits(device.minor as nat) + "\n│   │     SIZE:        "@ + scaled_text(
        device.size as nat,
    ) + "    "@ + decimal_digits(device.size as nat)
}

/// The lines that show one partition.
pub open spec fn partition_text(partition: PartitionView) -> Seq<char> {
    "\n    ├── "@ + partition.name + "\n    │     MAJ:MIN:     "@ + decimal_digits(
        partition.major as nat,
    ) + ":"@ + decimal_digits(partition.minor as nat) + "\n    │     SIZE:        "@ + scaled_text(
        partition.size as nat,
    ) + "    "@ + decimal_digits(partition.size as nat) + "\n    │     FILESYSTEM:  "@
        + partition.filesystem + "\n    │     MOUNTPOINT:  "@ + partition.mountpoint
}

/// The texts of `parts`, one after the other.
pub open spec fn joined(parts: Seq<Seq<char>>) -> Seq<char>
    decreases parts.len(),
{
    if parts.len() == 0 {
        Seq::empty()
    } else {
        joined(parts.drop_last()) + parts.last()
    }
}

/// The lines that show a list of network interfaces.
pub open spec fn network_devices_text(devices: Seq<NetworkDeviceView>) -> Seq<char> {
    joined(devices.map_values(|device: NetworkDeviceView| network_device_text(device)))
}

/// The lines that show a list of block devices.
pub open spec fn storages_text(devices: Seq<StorageView>) -> Seq<char> {
    joined(devices.map_values(|device: StorageView| storage_text(device)))
}

/// The lines that show a list of partitions.
pub open spec fn partitions_text(partitions: Seq<PartitionView>) -> Seq<char> {
    joined(partitions.map_values(|partition: PartitionView| partition_text(partition)))
}

/// Whether the name of device `at` is also that of a device before it.
pub open spec fn named_before(devices: Seq<StorageView>, at: int) -> bool {
    exists|k: int| 0 <= k < at && (#[trigger] devices[k]).name == devices[at].name
}

/// The lines that the partitions of device `at` add to the report: those
/// of the list kept under the device's name, and nothing where a device
/// before it has the same name or no list is kept under the name.
pub open spec fn device_partitions_text(
    devices: Seq<StorageView>,
    table: Map<Seq<char>, Seq<PartitionView>>,
    at: int,
) -> Seq<char> {
    if !named_before(devices, at) && table.contains_key(devices[at].name) {
        partitions_text(table[devices[at].name])
    } else {
        Seq::empty()
    }
}

/// The lines that show the partitions of every device: list after list in
/// the order of the devices, the list of each name once.
pub open spec fn partition_table_text(
    devices: Seq<StorageView>,
    table: Map<Seq<char>, Seq<PartitionView>>,
) -> Seq<char> {
    joined(Seq::new(devices.len(), |at: int| device_partitions_text(devices, table, at)))
}

/// The whole report. `uptime` and `cpu_clock` are the texts shown for the
/// uptime and for the mean clock.
pub open spec fn report_text(info: PcInfo, uptime: Seq<char>, cpu_clock: Seq<char>) -> Seq<char> {
    "┌── SYSTEM INFORMATION ──────\n├ HOSTNAME:         "@ + info.hostname@
        + "\n├ KERNEL VERSION:   "@ + info.kernel_version@ + "\n├ UPTIME:           "@ + uptime
        + "\n├ CPU:              "@ + info.cpu@ + "\n├ CPU CLOCK:        "@ + cpu_clock
        + " MHz\n├ MEM:              "@ + scaled_text(info.memory as nat) + "  "@ + decimal_digits(
        info.memory as nat,
    ) + "\n├ MEMFREE:          "@ + scaled_text(info.free_memory as nat) + "  "@ + decimal_digits(
        info.free_memory as nat,
    ) + "  "@ + decimal_digits(shown_percent(info.memory as nat, info.free_memory as nat)) + "%\n├ SWAP:             "@
        + scaled_text(info.swap as nat) + "   "@ + decimal_digits(info.swap as nat)
        + "\n├ SWAPFREE:         "@ + scaled_text(info.free_swap as nat) + "   "@ + decimal_digits(
        info.free_swap as nat,
    ) + "  "@ + decimal_digits(shown_percent(info.swap as nat, info.free_swap as nat))
        + "%\n├ NETWORK DEVICE: "@ + network_devices_text(info.network_dev.deep_view())
        + "\n├ STORAGE: "@ + storages_text(info.storage_dev.deep_view()) + "\n└ PARTITIONS: "@
        + partition_table_text(info.storage_dev.deep_view(), info.partition_table())
}

impl NetworkDevice {
    /// The lines that show this interface.
    pub fn render(&self) -> (text: String)
        ensures
            text@ == network_device_text(self@),
    {
        let mut text = String::from_str("\n│   ├─ ");
        text.append(self.name.as_str());
        text.append("\n│   │     DOWN:     ");
        text.append(conv_b(self.received_bytes).as_str());
        text.append("      ");
        text.append(decimal_string(self.received_bytes).as_str());
        text.append("\n│   │     UP:       ");
        text.append(conv_b(self.transfered_bytes).as_str());
        text.append("      ");
        text.append(decimal_string(self.transfered_bytes).as_str());
        text
    }
}

impl Storage {
    /// The lines that show this device.
    pub fn render(&self) -> (text: String)
        ensures
            text@ == storage_text(self@),
    {
        let mut text = String::from_str("        \n│   ├─ ");
        text.append(self.name.as_str());
        text.append("\n│   │     MAJ:MIN:     ");
        text.append(decimal_string(self.major as u64).as_str());
        text.append(":");
        text.append(decimal_string(self.minor as u64).as_str());
        text.append("\n│   │     SIZE:        ");
        text.append(conv_b(self.size).as_str());
        text.append("    ");
        text.append(decimal_string(self.size).as_str());
        text
    }
}

impl Partition {
    /// The lines that show this partition.
    pub fn render(&self) -> (text: String)
        ensures
            text@ == partition_text(self@),
    {
        let mut text = String::from_str("\n    ├── ");
        text.append(self.name.as_str());
        text.append("\n    │     MAJ:MIN:     ");
        text.append(decimal_string(self.major as u64).as_str());
        text.append(":");
        text.append(decimal_string(self.minor as u64).as_str());
        text.append("\n    │     SIZE:        ");
        text.append(conv_b(self.size).as_str());
        text.append("    ");
        text.append(decimal_string(self.size).as_str());
        text.append("\n    │     FILESYSTEM:  ");
        text.append(self.filesystem.as_str());
        text.append("\n    │     MOUNTPOINT:  ");
        text.append(self.mountpoint.as_str());
        text
    }
}

/// The lines that show `devices`, one interface after the other.
pub fn render_network_devices(devices: &Vec<NetworkDevice>) -> (text: String)
    ensures
        text@ == network_devices_text(devices.deep_view()),
{
    let mut text = String::new();
    let ghost parts = devices.deep_view().map_values(
        |device: NetworkDeviceView| network_device_text(device),
    );
    let mut i: usize = 0;
    while i < devices.len()
        invariant
            i <= devices.len(),
            parts == devices.deep_view().map_values(
                |device: NetworkDeviceView| network_device_text(device),
            ),
            text@ == joined(parts.take(i as int)),
        decreases devices.len() - i,
    {
        proof {
            assert(parts.take(i + 1).drop_last() =~= parts.take(i as int));
        }
        text.append(devices[i].render().as_str());
        i += 1;
    }
    assert(parts.take(i as int) =~= parts);
    text
}

/// The lines that show `devices`, one device after the other.
pub fn render_storages(devices: &Vec<Storage>) -> (text: String)
    ensures
        text@ == storages_text(devices.deep_view()),
{
    let mut text = String::new();
    let ghost parts = devices.deep_view().map_values(|device: StorageView| storage_text(device));
    let mut i: usize = 0;
    while i < devices.len()
        invariant
            i <= devices.len(),
            parts == devices.deep_view().map_values(|device: StorageView| storage_text(device)),
            text@ == joined(parts.take(i as int)),
        decreases devices.len() - i,
    {
        proof {
            assert(parts.take(i + 1).drop_last() =~= parts.take(i as int));
        }
        text.append(devices[i].render().as_str());
        i += 1;
    }
    assert(parts.take(i as int) =~= parts);
    text
}

/// The lines that show `partitions`, one partition after the other.
pub fn render_partitions(partitions: &Vec<Partition>) -> (text: String)
    ensures
        text@ == partitions_text(partitions.deep_view()),
{
    let mut text = String::new();
    let ghost parts = partitions.deep_view().map_values(
        |partition: PartitionView| partition_text(partition),
    );
    let mut i: usize = 0;
    while i < partitions.len()
        invariant
            i <= partitions.len(),
            parts == partitions.deep_view().map_values(
                |partition: PartitionView| partition_text(partition),
            ),
            text@ == joined(parts.take(i as int)),
        decreases partitions.len() - i,
    {
        proof {
            assert(parts.take(i + 1).drop_last() =~= parts.take(i as int));
        }
        text.append(partitions[i].render().as_str());
        i += 1;
    }
    assert(parts.take(i as int) =~= parts);
    text
}

/// Whether the name of device `at` is also that of a device before it.
pub fn is_named_before(devices: &Vec<Storage>, at: usize) -> (found: bool)
    requires
        at < devices.len(),
    ensures
        found == named_before(devices.deep_view(), at as int),
{
    let mut k: usize = 0;
    while k < at
        invariant
            k <= at < devices.len(),
            forall|j: int|
                0 <= j < k ==> (#[trigger] devices.deep_view()[j]).name != devices.deep_view()[at as int].name,
        decreases at - k,
    {
        if same_text(devices[k].name.as_str(), devices[at].name.as_str()) {
            assert(devices.deep_view()[k as int].name == devices.deep_view()[at as int].name);
            return true;
        }
        k += 1;
    }
    false
}

impl PcInfo {
    /// The lines that show the partitions of every device.
    pub fn render_partition_table(&self) -> (text: String)
        ensures
            text@ == partition_table_text(self.storage_dev.deep_view(), self.partition_table()),
    {
        let mut text = String::new();
        let ghost devices = self.storage_dev.deep_view();
        let ghost table = self.partition_table();
        let ghost parts = Seq::new(
            devices.len(),
            |at: int| device_partitions_text(devices, table, at),
        );
        let mut i: usize = 0;
        while i < self.storage_dev.len()
            invariant
                i <= self.storage_dev.len(),
                devices == self.storage_dev.deep_view(),
                table == self.partition_table(),
                parts == Seq::new(
                    devices.len(),
                    |at: int| device_partitions_text(devices, table, at),
                ),
                text@ == joined(parts.take(i as int)),
            decreases self.storage_dev.len() - i,
        {
            proof {
                assert(parts.take(i + 1).drop_last() =~= parts.take(i as int));
            }
            if !is_named_before(&self.storage_dev, i) {
                match self.partitions.get(self.storage_dev[i].name.as_str()) {
                    Some(listed) => {
                        text.append(render_partitions(listed).as_str());
                    },
                    None => {},
                }
            }
            i += 1;
            assert(text@ =~= joined(parts.take(i as int)));
        }
        assert(parts.take(i as int) =~= parts);
        text
    }

    /// The whole report. `uptime` and `cpu_clock` are the texts to show
    /// for the uptime and for the mean clock in megahertz.
    pub fn render(&self, uptime: &str, cpu_clock: &str) -> (text: String)
        ensures
            text@ == report_text(*self, uptime@, cpu_clock@),
    {
        let mut text = String::from_str("┌── SYSTEM INFORMATION ──────\n├ HOSTNAME:         ");
        text.append(self.hostname.as_str());
        text.append("\n├ KERNEL VERSION:   ");
        text.append(self.kernel_version.as_str());
        text.append("\n├ UPTIME:           ");
        text.append(uptime);
        text.append("\n├ CPU:              ");
        text.append(self.cpu.as_str());
        text.append("\n├ CPU CLOCK:        ");
        text.append(cpu_clock);
        text.append(" MHz\n├ MEM:              ");
        text.append(conv_b(self.memory).as_str());
        text.append("  ");
        text.append(decimal_string(self.memory).as_str());
        text.append("\n├ MEMFREE:          ");
        text.append(conv_b(self.free_memory).as_str());
        text.append("  ");
        text.append(decimal_string(self.free_memory).as_str());
        text.append("  ");
        text.append(decimal_string(conv_p(self.memory, self.free_memory)).as_str());
        text.append("%\n├ SWAP:             ");
        text.append(conv_b(self.swap).as_str());
        text.append("   ");
        text.append(decimal_string(self.swap).as_str());
        text.append("\n├ SWAPFREE:         ");
        text.append(conv_b(self.free_swap).as_str());
        text.append("   ");
        text.append(decimal_string(self.free_swap).as_str());
        text.append("  ");
        text.append(decimal_string(conv_p(self.swap, self.free_swap)).as_str());
        text.append("%\n├ NETWORK DEVICE: ");
        text.append(render_network_devices(&self.network_dev).as_str());
        text.append("\n├ STORAGE: ");
        text.append(render_storages(&self.storage_dev).as_str());
        text.append("\n└ PARTITIONS: ");
        text.append(self.render_partition_table().as_str());
        text
    }
}

} // verus!
