//! Parsers for the kernel's text tables.
//!
//! Each parser searches its text with one fixed expression and builds its
//! result from the groups that the search hands back. What is built from
//! given groups is stated exactly, by the functions named `..._from_match`
//! and `..._from_matches`; the parser that takes the text states the same
//! over the outcome of its search. A field that is missing, malformed or
//! too large for its type becomes zero, a missing text becomes empty:
//! no input makes a parser fail.

use vstd::prelude::*;
use vstd::hash_map::StringHashMap;
use crate::model::{
    NetworkDevice, NetworkDeviceView, Partition, PartitionView, Storage, StorageView,
};
use crate::pattern::{all_matches, first_match, group_str, group_text, regex_all, regex_first};
use crate::text::{
    first_token, first_token_of, parse_decimal, parse_u64, parse_u8, same_text, starts_with,
};

verus! {

/// Finds the `MemTotal` figure.
pub const MEM_TOTAL_PATTERN: &'static str = r"MemTotal:\s*(\d*)";

/// Finds the `MemFree` figure.
pub const MEM_FREE_PATTERN: &'static str = r"MemFree:\s*(\d*)";

/// Finds the `SwapTotal` figure.
pub const SWAP_TOTAL_PATTERN: &'static str = r"SwapTotal:\s*(\d*)";

/// Finds the `SwapFree` figure.
pub const SWAP_FREE_PATTERN: &'static str = r"SwapFree:\s*(\d*)";

/// Finds the processor's model name.
pub const CPU_MODEL_PATTERN: &'static str = r"model name\s*: (.*)";

/// Finds the clock reading of each logical core.
pub const CPU_CLOCK_PATTERN: &'static str = r"cpu MHz\s*: (.*)";

/// Finds each interface with its receive and transmit byte counters: the
/// first number after the colon and the ninth.
pub const NETWORK_PATTERN: &'static str =
    r"([\d\w]*):\s*(\d*)\s*\d*\s*\d*\s*\d*\s*\d*\s*\d*\s*\d*\s*\d*\s*(\d*)";

/// Finds each line of the partition table whose name holds no digit. The
/// name is the last word of its line: it is not empty and holds no blank.
pub const STORAGE_PATTERN: &'static str = r"(?m)^\s*(\d*)\s*(\d*)\s*(\d*)\s([^\d\s]+)$";

/// Finds each line of the partition table whose name ends in a digit.
pub const PARTITION_PATTERN: &'static str = r"(?m)^\s*(\d*)\s*(\d*)\s*(\d*)\s(\w*\d+)$";

/// Finds each mounted device node with its mount point and file system.
pub const MOUNT_PATTERN: &'static str = r"/dev/(\w*)\s(\S*)\s(\S*)";

/// Bytes in one block of the kernel's tables.
pub const BLOCK_BYTES: u64 = 1024;

/// The number `text` denotes, if it is a decimal number of at most `max`;
/// zero otherwise.
pub open spec fn number_or_zero(text: Seq<char>, max: nat) -> nat {
    match parse_decimal(text, max) {
        Some(n) => n,
        None => 0,
    }
}

/// A count of 1024-byte blocks in bytes; zero where a `u64` cannot hold
/// the product.
pub open spec fn blocks_to_bytes(blocks: nat) -> nat {
    if blocks * 1024 <= u64::MAX {
        blocks * 1024
    } else {
        0
    }
}

/// The byte count that a field holding a count of blocks stands for.
pub open spec fn size_field(text: Seq<char>) -> nat {
    blocks_to_bytes(number_or_zero(text, u64::MAX as nat))
}

/// Reads a `u64` field; zero where `text` is no such number.
pub fn field_u64(text: &str) -> (n: u64)
    ensures
        n == number_or_zero(text@, u64::MAX as nat),
{
    match parse_u64(text) {
        Some(n) => n,
        None => 0,
    }
}

/// Reads a `u8` field; zero where `text` is no such number.
pub fn field_u8(text: &str) -> (n: u8)
    ensures
        n == number_or_zero(text@, u8::MAX as nat),
{
    match parse_u8(text) {
        Some(n) => n,
        None => 0,
    }
}

/// Reads a field that counts 1024-byte blocks, in bytes.
pub fn field_size(text: &str) -> (bytes: u64)
    ensures
        bytes == size_field(text@),
{
    match field_u64(text).checked_mul(BLOCK_BYTES) {
        Some(bytes) => bytes,
        None => 0,
    }
}

/// The byte count that a match of one of the memory expressions stands
/// for: its first group, read as a count of 1024-byte blocks. No match
/// gives zero.
pub open spec fn memory_field(found: Option<Seq<Option<Seq<char>>>>) -> nat {
    match found {
        Some(groups) => size_field(group_text(groups, 1)),
        None => 0,
    }
}

/// The text of the first group of a match; empty where there is no match.
pub open spec fn text_field(found: Option<Seq<Option<Seq<char>>>>) -> Seq<char> {
    match found {
        Some(groups) => group_text(groups, 1),
        None => Seq::empty(),
    }
}

/// The text of the first group of each match.
pub open spec fn text_fields(found: Seq<Seq<Option<Seq<char>>>>) -> Seq<Seq<char>> {
    found.map_values(|groups: Seq<Option<Seq<char>>>| group_text(groups, 1))
}

/// The interface that one match of the interface expression describes:
/// its name, then the received and the transmitted byte counters.
pub open spec fn network_device_of(groups: Seq<Option<Seq<char>>>) -> NetworkDeviceView {
    NetworkDeviceView {
        name: group_text(groups, 1),
        received_bytes: number_or_zero(group_text(groups, 2), u64::MAX as nat) as u64,
        transfered_bytes: number_or_zero(group_text(groups, 3), u64::MAX as nat) as u64,
    }
}

/// One interface per match, in the order of the matches.
pub open spec fn network_devices_of(found: Seq<Seq<Option<Seq<char>>>>) -> Seq<NetworkDeviceView> {
    found.map_values(|groups: Seq<Option<Seq<char>>>| network_device_of(groups))
}

/// The block device that one match of the device expression describes:
/// major and minor number, size in blocks, name.
pub open spec fn storage_of(groups: Seq<Option<Seq<char>>>) -> StorageView {
    StorageView {
        name: group_text(groups, 4),
        major: number_or_zero(group_text(groups, 1), u8::MAX as nat) as u8,
        minor: number_or_zero(group_text(groups, 2), u8::MAX as nat) as u8,
        size: size_field(group_text(groups, 3)) as u64,
    }
}

/// One block device per match, in the order of the matches.
pub open spec fn storages_of(found: Seq<Seq<Option<Seq<char>>>>) -> Seq<StorageView> {
    found.map_values(|groups: Seq<Option<Seq<char>>>| storage_of(groups))
}

/// The position of the first mount at or after `from` whose device node
/// is called `name`; the number of mounts where there is none.
pub open spec fn mount_index(mounts: Seq<Seq<Option<Seq<char>>>>, name: Seq<char>, from: int) -> int
    decreases mounts.len() - from,
{
    if 0 <= from < mounts.len() {
        if group_text(mounts[from], 1) == name {
            from
        } else {
            mount_index(mounts, name, from + 1)
        }
    } else {
        mounts.len() as int
    }
}

/// The partition that one match of the partition expression describes,
/// with the mount point and file system of the first mount of a device
/// node of its name, or with both empty where no mount names it.
pub open spec fn partition_of(
    groups: Seq<Option<Seq<char>>>,
    mounts: Seq<Seq<Option<Seq<char>>>>,
) -> PartitionView {
    let name = group_text(groups, 4);
    let at = mount_index(mounts, name, 0);
    PartitionView {
        name: name,
        major: number_or_zero(group_text(groups, 1), u8::MAX as nat) as u8,
        minor: number_or_zero(group_text(groups, 2), u8::MAX as nat) as u8,
        size: size_field(group_text(groups, 3)) as u64,
        filesystem: if at < mounts.len() {
            group_text(mounts[at], 3)
        } else {
            Seq::empty()
        },
        mountpoint: if at < mounts.len() {
            group_text(mounts[at], 2)
        } else {
            Seq::empty()
        },
    }
}

/// Whether the partition in a match lies on the device called `device`:
/// its name begins with the device's name.
pub open spec fn belongs_to(device: Seq<char>, groups: Seq<Option<Seq<char>>>) -> bool {
    device.is_prefix_of(group_text(groups, 4))
}

/// The partitions of the device called `device`: those of `candidates`
/// that lie on it, in their order, each with its mount.
pub open spec fn partitions_of(
    device: Seq<char>,
    candidates: Seq<Seq<Option<Seq<char>>>>,
    mounts: Seq<Seq<Option<Seq<char>>>>,
) -> Seq<PartitionView> {
    candidates.filter(|groups: Seq<Option<Seq<char>>>| belongs_to(device, groups)).map_values(
        |groups: Seq<Option<Seq<char>>>| partition_of(groups, mounts),
    )
}

/// The names of `devices`.
pub open spec fn device_names(devices: Seq<StorageView>) -> Set<Seq<char>> {
    Set::new(|name: Seq<char>| exists|i: int| 0 <= i < devices.len() && devices[i].name == name)
}

/// The first mount of a name is the first: it carries the name, and no
/// mount before it does. Where the index is the number of mounts, no mount
/// carries the name.
pub proof fn lemma_mount_index(mounts: Seq<Seq<Option<Seq<char>>>>, name: Seq<char>, from: int)
    requires
        0 <= from <= mounts.len(),
    ensures
        from <= mount_index(mounts, name, from) <= mounts.len(),
        forall|i: int|
            from <= i < mount_index(mounts, name, from) ==> group_text(#[trigger] mounts[i], 1)
                != name,
        mount_index(mounts, name, from) < mounts.len() ==> group_text(
            mounts[mount_index(mounts, name, from)],
            1,
        ) == name,
    decreases mounts.len() - from,
{
    if from < mounts.len() && group_text(mounts[from], 1) != name {
        lemma_mount_index(mounts, name, from + 1);
    }
}

/// A partition takes mount point and file system from the first mount of
/// a device node of its name, wherever in the table that mount stands.
pub proof fn lemma_partition_mounted(
    groups: Seq<Option<Seq<char>>>,
    mounts: Seq<Seq<Option<Seq<char>>>>,
    at: int,
)
    requires
        0 <= at < mounts.len(),
        group_text(mounts[at], 1) == group_text(groups, 4),
        forall|i: int| 0 <= i < at ==> group_text(#[trigger] mounts[i], 1) != group_text(groups, 4),
    ensures
        partition_of(groups, mounts).mountpoint == group_text(mounts[at], 2),
        partition_of(groups, mounts).filesystem == group_text(mounts[at], 3),
{
    lemma_mount_index(mounts, group_text(groups, 4), 0);
}

/// A partition that no mount names has neither mount point nor file
/// system.
pub proof fn lemma_partition_unmounted(
    groups: Seq<Option<Seq<char>>>,
    mounts: Seq<Seq<Option<Seq<char>>>>,
)
    requires
        forall|i: int|
            0 <= i < mounts.len() ==> group_text(#[trigger] mounts[i], 1) != group_text(groups, 4),
    ensures
        partition_of(groups, mounts).mountpoint == Seq::<char>::empty(),
        partition_of(groups, mounts).filesystem == Seq::<char>::empty(),
{
    lemma_mount_index(mounts, group_text(groups, 4), 0);
}

/// Whether `partition` is what some candidate that lies on `device` reads
/// as.
pub open spec fn is_partition_on(
    device: Seq<char>,
    candidates: Seq<Seq<Option<Seq<char>>>>,
    mounts: Seq<Seq<Option<Seq<char>>>>,
    partition: PartitionView,
) -> bool {
    exists|i: int|
        0 <= i < candidates.len() && belongs_to(device, #[trigger] candidates[i]) && partition
            == partition_of(candidates[i], mounts)
}

/// The list of a device's partitions holds exactly the candidates whose
/// name begins with the device's name, however long that name is; so every
/// partition listed for a device lies on it.
pub proof fn lemma_partitions_belong(
    device: Seq<char>,
    candidates: Seq<Seq<Option<Seq<char>>>>,
    mounts: Seq<Seq<Option<Seq<char>>>>,
)
    ensures
        forall|partition: PartitionView| #[trigger]
            partitions_of(device, candidates, mounts).contains(partition) <==> is_partition_on(
                device,
                candidates,
                mounts,
                partition,
            ),
        forall|j: int|
            0 <= j < partitions_of(device, candidates, mounts).len() ==> device.is_prefix_of(
                (#[trigger] partitions_of(device, candidates, mounts)[j]).name,
            ),
{
    let pred = |groups: Seq<Option<Seq<char>>>| belongs_to(device, groups);
    let kept = candidates.filter(pred);
    let listed = partitions_of(device, candidates, mounts);
    broadcast use vstd::seq_lib::group_filter_ensures;
    assert forall|j: int| 0 <= j < listed.len() implies device.is_prefix_of(
        (#[trigger] listed[j]).name,
    ) by {
        assert(pred(kept[j]));
    }
    assert forall|partition: PartitionView| #[trigger]
        listed.contains(partition) implies is_partition_on(
        device,
        candidates,
        mounts,
        partition,
    ) by {
        let j = choose|j: int| 0 <= j < listed.len() && listed[j] == partition;
        assert(pred(kept[j]));
        assert(kept.contains(kept[j]));
        candidates.lemma_filter_contains_rev(pred, kept[j]);
        let i = choose|i: int| 0 <= i < candidates.len() && candidates[i] == kept[j];
        assert(belongs_to(device, candidates[i]));
    }
    assert forall|partition: PartitionView|
        is_partition_on(device, candidates, mounts, partition) implies #[trigger] listed.contains(
        partition,
    ) by {
        let i = choose|i: int|
            0 <= i < candidates.len() && belongs_to(device, #[trigger] candidates[i]) && partition
                == partition_of(candidates[i], mounts);
        assert(pred(candidates[i]));
        assert(kept.contains(candidates[i]));
        let k = choose|k: int| 0 <= k < kept.len() && kept[k] == candidates[i];
        assert(listed[k] == partition);
    }
}

/// The texts that a snapshot is made from.
#[derive(Debug)]
pub enum SystemProperty {
    Hostname,
    OsRelease,
    Uptime,
    MemInfo,
    CpuInfo,
    NetDev,
    Partitions,
    Mounts,
}

/// Where the kernel shows the text behind `prop`.
pub open spec fn property_path(prop: SystemProperty) -> Seq<char> {
    match prop {
        SystemProperty::Hostname => "/proc/sys/kernel/hostname"@,
        SystemProperty::OsRelease => "/proc/sys/kernel/osrelease"@,
        SystemProperty::Uptime => "/proc/uptime"@,
        SystemProperty::MemInfo => "/proc/meminfo"@,
        SystemProperty::CpuInfo => "/proc/cpuinfo"@,
        SystemProperty::NetDev => "/proc/net/dev"@,
        SystemProperty::Partitions => "/proc/partitions"@,
        SystemProperty::Mounts => "/proc/mounts"@,
    }
}

/// The parsers, one per kind of figure.
pub struct Process;

impl Process {
    /// The path of the file that holds `prop`.
    pub fn get(prop: SystemProperty) -> (path: String)
        ensures
            path@ == property_path(prop),
    {
        let path = match prop {
            SystemProperty::Hostname => "/proc/sys/kernel/hostname",
            SystemProperty::OsRelease => "/proc/sys/kernel/osrelease",
            SystemProperty::Uptime => "/proc/uptime",
            SystemProperty::MemInfo => "/proc/meminfo",
            SystemProperty::CpuInfo => "/proc/cpuinfo",
            SystemProperty::NetDev => "/proc/net/dev",
            SystemProperty::Partitions => "/proc/partitions",
            SystemProperty::Mounts => "/proc/mounts",
        };
        String::from_str(path)
    }

    /// The first word of the uptime text: the seconds since boot, as the
    /// kernel writes them. Empty where the text holds no word.
    pub fn uptime(uptime: &str) -> (seconds: String)
        ensures
            seconds@ == first_token(uptime@),
    {
        first_token_of(uptime)
    }

    /// The byte count in the match of a memory expression.
    pub fn memory_from_match(found: &Option<Vec<Option<String>>>) -> (bytes: u64)
        ensures
            bytes == memory_field(found.deep_view()),
    {
        match found {
            Some(groups) => field_size(group_str(groups, 1)),
            None => 0,
        }
    }

    /// Total memory in bytes, from the text of the memory table.
    pub fn memory_total(meminfo: &str) -> (bytes: u64)
        ensures
            bytes == memory_field(regex_first(MEM_TOTAL_PATTERN@, meminfo@)),
    {
        let found = first_match(MEM_TOTAL_PATTERN, meminfo);
        Self::memory_from_match(&found)
    }

    /// Free memory in bytes, from the text of the memory table.
    pub fn memory_free(meminfo: &str) -> (bytes: u64)
        ensures
            bytes == memory_field(regex_first(MEM_FREE_PATTERN@, meminfo@)),
    {
        let found = first_match(MEM_FREE_PATTERN, meminfo);
        Self::memory_from_match(&found)
    }

    /// Total swap space in bytes, from the text of the memory table.
    pub fn swap_total(meminfo: &str) -> (bytes: u64)
        ensures
            bytes == memory_field(regex_first(SWAP_TOTAL_PATTERN@, meminfo@)),
    {
        let found = first_match(SWAP_TOTAL_PATTERN, meminfo);
        Self::memory_from_match(&found)
    }

    /// Free swap space in bytes, from the text of the memory table.
    pub fn swap_free(meminfo: &str) -> (bytes: u64)
        ensures
            bytes == memory_field(regex_first(SWAP_FREE_PATTERN@, meminfo@)),
    {
        let found = first_match(SWAP_FREE_PATTERN, meminfo);
        Self::memory_from_match(&found)
    }

    /// The model name in the match of the model expression.
    pub fn cpu_info_from_match(found: &Option<Vec<Option<String>>>) -> (model: String)
        ensures
            model@ == text_field(found.deep_view()),
    {
        match found {
            Some(groups) => String::from_str(group_str(groups, 1)),
            None => String::new(),
        }
    }

    /// The processor's model name as the first `model name` line of the
    /// processor table gives it; empty where the table has no such line.
    pub fn cpu_info(cpuinfo: &str) -> (model: String)
        ensures
            model@ == text_field(regex_first(CPU_MODEL_PATTERN@, cpuinfo@)),
    {
        let found = first_match(CPU_MODEL_PATTERN, cpuinfo);
        Self::cpu_info_from_match(&found)
    }

    /// The clock readings in the matches of the clock expression.
    pub fn cpu_clock_from_matches(found: &Vec<Vec<Option<String>>>) -> (readings: Vec<String>)
        ensures
            readings.deep_view() == text_fields(found.deep_view()),
    {
        let mut readings: Vec<String> = Vec::new();
        let mut i: usize = 0;
        while i < found.len()
            invariant
                i <= found.len(),
                readings.len() == i,
                forall|j: int|
                    0 <= j < i ==> (#[trigger] readings[j])@ == group_text(
                        found.deep_view()[j],
                        1,
                    ),
            decreases found.len() - i,
        {
            readings.push(String::from_str(group_str(&found[i], 1)));
            i += 1;
        }
        assert(readings.deep_view() =~= text_fields(found.deep_view()));
        readings
    }

    /// The clock reading of each logical core, in megahertz, as the `cpu
    /// MHz` lines of the processor table write them, in the table's order.
    pub fn cpu_clock(cpuinfo: &str) -> (readings: Vec<String>)
        ensures
            readings.deep_view() == text_fields(regex_all(CPU_CLOCK_PATTERN@, cpuinfo@)),
    {
        let found = all_matches(CPU_CLOCK_PATTERN, cpuinfo);
        Self::cpu_clock_from_matches(&found)
    }

    /// The interfaces in the matches of the interface expression.
    pub fn network_from_matches(found: &Vec<Vec<Option<String>>>) -> (devices: Vec<NetworkDevice>)
        ensures
            devices.deep_view() == network_devices_of(found.deep_view()),
    {
        let mut devices: Vec<NetworkDevice> = Vec::new();
        let mut i: usize = 0;
        while i < found.len()
            invariant
                i <= found.len(),
                devices.len() == i,
                forall|j: int|
                    0 <= j < i ==> (#[trigger] devices[j])@ == network_device_of(
                        found.deep_view()[j],
                    ),
            decreases found.len() - i,
        {
            let groups = &found[i];
            let mut interface = NetworkDevice::new();
            let received = field_u64(group_str(groups, 2));
            let transfered = field_u64(group_str(groups, 3));
            interface.name = String::from_str(group_str(groups, 1));
            interface.received_bytes = received;
            interface.transfered_bytes = transfered;
            devices.push(interface);
            i += 1;
        }
        assert(devices.deep_view() =~= network_devices_of(found.deep_view()));
        devices
    }

    /// The network interfaces of the interface table, in the table's
    /// order, each with the bytes it has received and transmitted.
    pub fn network_dev(net_dev: &str) -> (devices: Vec<NetworkDevice>)
        ensures
            devices.deep_view() == network_devices_of(regex_all(NETWORK_PATTERN@, net_dev@)),
    {
        let found = all_matches(NETWORK_PATTERN, net_dev);
        Self::network_from_matches(&found)
    }

    /// The block devices in the matches of the device expression.
    pub fn storage_from_matches(found: &Vec<Vec<Option<String>>>) -> (devices: Vec<Storage>)
        ensures
            devices.deep_view() == storages_of(found.deep_view()),
    {
        let mut devices: Vec<Storage> = Vec::new();
        let mut i: usize = 0;
        while i < found.len()
            invariant
                i <= found.len(),
                devices.len() == i,
                forall|j: int|
                    0 <= j < i ==> (#[trigger] devices[j])@ == storage_of(found.deep_view()[j]),
            decreases found.len() - i,
        {
            let groups = &found[i];
            let mut storage = Storage::new();
            let major = field_u8(group_str(groups, 1));
            let minor = field_u8(group_str(groups, 2));
            let size = field_size(group_str(groups, 3));
            storage.name = String::from_str(group_str(groups, 4));
            storage.major = major;
            storage.minor = minor;
            storage.size = size;
            devices.push(storage);
            i += 1;
        }
        assert(devices.deep_view() =~= storages_of(found.deep_view()));
        devices
    }

    /// The whole block devices of the partition table, in the table's
    /// order: the lines whose name holds no digit.
    pub fn storage_dev(partitions: &str) -> (devices: Vec<Storage>)
        ensures
            devices.deep_view() == storages_of(regex_all(STORAGE_PATTERN@, partitions@)),
    {
        let found = all_matches(STORAGE_PATTERN, partitions);
        Self::storage_from_matches(&found)
    }

    /// The position among `mounts` of the first mount of the device node
    /// called `name`; the number of mounts where there is none.
    pub fn mount_from_matches(mounts: &Vec<Vec<Option<String>>>, name: &str) -> (at: usize)
        ensures
            at == mount_index(mounts.deep_view(), name@, 0),
            at <= mounts.len(),
            at < mounts.len() ==> group_text(mounts.deep_view()[at as int], 1) == name@,
            forall|i: int|
                0 <= i < at ==> group_text(#[trigger] mounts.deep_view()[i], 1) != name@,
    {
        let mut i: usize = 0;
        while i < mounts.len()
            invariant
                i <= mounts.len(),
                mount_index(mounts.deep_view(), name@, 0) == mount_index(
                    mounts.deep_view(),
                    name@,
                    i as int,
                ),
            decreases mounts.len() - i,
        {
            if same_text(group_str(&mounts[i], 1), name) {
                proof {
                    lemma_mount_index(mounts.deep_view(), name@, 0);
                }
                return i;
            }
            i += 1;
        }
        proof {
            lemma_mount_index(mounts.deep_view(), name@, 0);
        }
        i
    }

    /// The partitions of the device called `device` among the matches of
    /// the partition expression, each with its mount from the matches of
    /// the mount expression.
    pub fn partitions_from_matches(
        device: &str,
        candidates: &Vec<Vec<Option<String>>>,
        mounts: &Vec<Vec<Option<String>>>,
    ) -> (partitions: Vec<Partition>)
        ensures
            partitions.deep_view() == partitions_of(
                device@,
                candidates.deep_view(),
                mounts.deep_view(),
            ),
    {
        let mut partitions: Vec<Partition> = Vec::new();
        let ghost pred = |groups: Seq<Option<Seq<char>>>| belongs_to(device@, groups);
        let ghost all = candidates.deep_view();
        let mut i: usize = 0;
        while i < candidates.len()
            invariant
                i <= candidates.len(),
                all == candidates.deep_view(),
                pred == |groups: Seq<Option<Seq<char>>>| belongs_to(device@, groups),
                partitions.len() == all.take(i as int).filter(pred).len(),
                forall|j: int|
                    0 <= j < partitions.len() ==> (#[trigger] partitions[j])@ == partition_of(
                        all.take(i as int).filter(pred)[j],
                        mounts.deep_view(),
                    ),
            decreases candidates.len() - i,
        {
            let groups = &candidates[i];
            let name = group_str(groups, 4);
            proof {
                reveal(Seq::filter);
                assert(all.take(i + 1).drop_last() =~= all.take(i as int));
            }
            if starts_with(name, device) {
                let mut partition = Partition::new();
                let major = field_u8(group_str(groups, 1));
                let minor = field_u8(group_str(groups, 2));
                let size = field_size(group_str(groups, 3));
                let at = Self::mount_from_matches(mounts, name);
                if at < mounts.len() {
                    partition.mountpoint = String::from_str(group_str(&mounts[at], 2));
                    partition.filesystem = String::from_str(group_str(&mounts[at], 3));
                }
                partition.name = String::from_str(name);
                partition.major = major;
                partition.minor = minor;
                partition.size = size;
                partitions.push(partition);
            }
            i += 1;
        }
        assert(all.take(i as int) =~= all);
        assert(partitions.deep_view() =~= partitions_of(device@, all, mounts.deep_view()));
        partitions
    }

    /// The partitions of each of `devices`, keyed by the device's name,
    /// from the matches of the partition and the mount expression.
    pub fn partition_table_from_matches(
        devices: &Vec<Storage>,
        candidates: &Vec<Vec<Option<String>>>,
        mounts: &Vec<Vec<Option<String>>>,
    ) -> (table: StringHashMap<Vec<Partition>>)
        ensures
            table@.dom() == device_names(devices.deep_view()),
            forall|name: Seq<char>| #[trigger]
                table@.contains_key(name) ==> table@[name].deep_view() == partitions_of(
                    name,
                    candidates.deep_view(),
                    mounts.deep_view(),
                ),
    {
        let mut table: StringHashMap<Vec<Partition>> = StringHashMap::new();
        let mut i: usize = 0;
        while i < devices.len()
            invariant
                i <= devices.len(),
                table@.dom() =~= device_names(devices.deep_view().take(i as int)),
                forall|name: Seq<char>| #[trigger]
                    table@.contains_key(name) ==> table@[name].deep_view() == partitions_of(
                        name,
                        candidates.deep_view(),
                        mounts.deep_view(),
                    ),
            decreases devices.len() - i,
        {
            let name = devices[i].name.as_str();
            let partitions = Self::partitions_from_matches(name, candidates, mounts);
            let ghost before = table@.dom();
            table.insert(String::from_str(name), partitions);
            i += 1;
            proof {
                let seen = devices.deep_view().take(i as int);
                let earlier = devices.deep_view().take(i - 1);
                assert forall|n: Seq<char>| table@.dom().contains(n) implies device_names(
                    seen,
                ).contains(n) by {
                    if n == name@ {
                        assert(seen[i - 1].name == n);
                    } else {
                        assert(before.contains(n));
                        let k = choose|k: int| 0 <= k < earlier.len() && earlier[k].name == n;
                        assert(seen[k].name == n);
                    }
                }
                assert forall|n: Seq<char>| device_names(seen).contains(n) implies table@.dom().contains(
                    n,
                ) by {
                    let k = choose|k: int| 0 <= k < seen.len() && seen[k].name == n;
                    if k < i - 1 {
                        assert(earlier[k].name == n);
                        assert(device_names(earlier).contains(n));
                    }
                }
            }
        }
        assert(devices.deep_view().take(i as int) =~= devices.deep_view());
        table
    }

    /// The partitions of each of `devices`, keyed by the device's name:
    /// the lines of the partition table whose name ends in a digit and
    /// begins with the device's name, each with the mount point and file
    /// system that the mount table gives for its device node. A device
    /// without partitions is listed with none.
    pub fn storage_partitions(devices: &Vec<Storage>, partitions: &str, mounts: &str) -> (table:
        StringHashMap<Vec<Partition>>)
        ensures
            table@.dom() == device_names(devices.deep_view()),
            forall|name: Seq<char>| #[trigger]
                table@.contains_key(name) ==> table@[name].deep_view() == partitions_of(
                    name,
                    regex_all(PARTITION_PATTERN@, partitions@),
                    regex_all(MOUNT_PATTERN@, mounts@),
                ),
    {
        let candidates = all_matches(PARTITION_PATTERN, partitions);
        let mounted = all_matches(MOUNT_PATTERN, mounts);
        Self::partition_table_from_matches(devices, &candidates, &mounted)
    }
}

} // verus!