//! The snapshot: every figure, read once from the texts of one moment.

use vstd::prelude::*;
use vstd::hash_map::StringHashMap;
use crate::model::{NetworkDevice, Partition, PartitionView, Storage};
use crate::parse::{
    device_names, lemma_partitions_belong, memory_field, network_devices_of, partitions_of,
    storages_of, text_field, text_fields, Process, CPU_CLOCK_PATTERN, CPU_MODEL_PATTERN,
    MEM_FREE_PATTERN, MEM_TOTAL_PATTERN, MOUNT_PATTERN, NETWORK_PATTERN, PARTITION_PATTERN,
    STORAGE_PATTERN, SWAP_FREE_PATTERN, SWAP_TOTAL_PATTERN,
};
use crate::pattern::{regex_all, regex_first};
use crate::text::first_token;

verus! {

/// The texts a snapshot is made from, one per source. A source that could
/// not be read is handed in as the empty text.
#[derive(Debug)]
pub struct RawText {
    pub hostname: String,
    pub kernel_version: String,
    pub uptime: String,
    pub meminfo: String,
    pub cpuinfo: String,
    pub net_dev: String,
    pub partitions: String,
    pub mounts: String,
}

/// One view of the host.
///
/// Uptime and clock are kept as the kernel wrote them: `uptime` is the
/// seconds since boot, `cpu_clock` the reading of each logical core in
/// megahertz. Sizes are in bytes.
pub struct PcInfo {
    pub hostname: String,
    pub kernel_version: String,
    pub uptime: String,
    pub cpu: String,
    pub cpu_clock: Vec<String>,
    pub memory: u64,
    pub free_memory: u64,
    pub swap: u64,
    pub free_swap: u64,
    pub network_dev: Vec<NetworkDevice>,
    pub storage_dev: Vec<Storage>,
    pub partitions: StringHashMap<Vec<Partition>>,
}

impl PcInfo {
    /// The partition lists by device name, as plain values.
    pub open spec fn partition_table(&self) -> Map<Seq<char>, Seq<PartitionView>> {
        self.partitions@.map_values(|listed: Vec<Partition>| listed.deep_view())
    }

    /// Whether the partition lists fit the devices: there is one list for
    /// each device's name and for no other name, and every partition in a
    /// list lies on the device that the list is kept under.
    pub open spec fn wf(&self) -> bool {
        &&& self.partitions@.dom() == device_names(self.storage_dev.deep_view())
        &&& forall|name: Seq<char>, j: int|
            self.partitions@.contains_key(name) && 0 <= j < self.partitions@[name].len()
                ==> name.is_prefix_of((#[trigger] self.partitions@[name][j]).name@)
    }

    /// Takes the snapshot from the texts in `raw`.
    pub fn new(raw: &RawText) -> (info: PcInfo)
        ensures
            info.wf(),
            info.hostname@ == raw.hostname@,
            info.kernel_version@ == raw.kernel_version@,
            info.uptime@ == first_token(raw.uptime@),
            info.cpu@ == text_field(regex_first(CPU_MODEL_PATTERN@, raw.cpuinfo@)),
            info.cpu_clock.deep_view() == text_fields(regex_all(CPU_CLOCK_PATTERN@, raw.cpuinfo@)),
            info.memory == memory_field(regex_first(MEM_TOTAL_PATTERN@, raw.meminfo@)),
            info.free_memory == memory_field(regex_first(MEM_FREE_PATTERN@, raw.meminfo@)),
            info.swap == memory_field(regex_first(SWAP_TOTAL_PATTERN@, raw.meminfo@)),
            info.free_swap == memory_field(regex_first(SWAP_FREE_PATTERN@, raw.meminfo@)),
            info.network_dev.deep_view() == network_devices_of(
                regex_all(NETWORK_PATTERN@, raw.net_dev@),
            ),
            info.storage_dev.deep_view() == storages_of(
                regex_all(STORAGE_PATTERN@, raw.partitions@),
            ),
            forall|name: Seq<char>| #[trigger]
                info.partitions@.contains_key(name) ==> info.partitions@[name].deep_view()
                    == partitions_of(
                    name,
                    regex_all(PARTITION_PATTERN@, raw.partitions@),
                    regex_all(MOUNT_PATTERN@, raw.mounts@),
                ),
    {
        let storage_dev = Process::storage_dev(raw.partitions.as_str());
        let partitions = Process::storage_partitions(
            &storage_dev,
            raw.partitions.as_str(),
            raw.mounts.as_str(),
        );
        let info = PcInfo {
            hostname: raw.hostname.clone(),
            kernel_version: raw.kernel_version.clone(),
            uptime: Process::uptime(raw.uptime.as_str()),
            cpu: Process::cpu_info(raw.cpuinfo.as_str()),
            cpu_clock: Process::cpu_clock(raw.cpuinfo.as_str()),
            memory: Process::memory_total(raw.meminfo.as_str()),
            free_memory: Process::memory_free(raw.meminfo.as_str()),
            swap: Process::swap_total(raw.meminfo.as_str()),
            free_swap: Process::swap_free(raw.meminfo.as_str()),
            network_dev: Process::network_dev(raw.net_dev.as_str()),
            storage_dev,
            partitions,
        };
        proof {
            let candidates = regex_all(PARTITION_PATTERN@, raw.partitions@);
            let mounts = regex_all(MOUNT_PATTERN@, raw.mounts@);
            assert forall|name: Seq<char>, j: int|
                info.partitions@.contains_key(name) && 0 <= j < info.partitions@[name].len()
                    implies name.is_prefix_of((#[trigger] info.partitions@[name][j]).name@) by {
                lemma_partitions_belong(name, candidates, mounts);
                let listed = partitions_of(name, candidates, mounts);
                assert(info.partitions@[name].deep_view()[j] == listed[j]);
            }
        }
        info
    }
}

} // verus!
