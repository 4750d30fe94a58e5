//! Planning of the experimental compute-shader path for block light.
//!
//! A GPU cannot cheaply keep a breadth-first frontier, so it runs the equivalent fixed-point
//! relaxation: every voxel recomputes `max(luminance, max_neighbour_light - max(opacity, 1))` in
//! parallel, ping-ponging between two device-local buffers. Fifteen waves always converge. A
//! final pass packs the result to one byte per voxel to quarter the readback.
//!
//! This module decides everything that does not need a device: which adapter and queue family to
//! open, which memory to take, how large the buffers are, what is uploaded, and which commands are
//! recorded in which order.

pub mod engine;
pub mod plan;

use vstd::arithmetic::div_mod::{lemma_fundamental_div_mod, lemma_mod_bound};
use vstd::prelude::*;

verus! {

pub const WORKGROUP_SIZE: u64 = 64;

/// `maxComputeWorkGroupCount` floor guaranteed by Vulkan.
pub const MAX_WORKGROUPS_PER_DIM: u64 = 65_535;

/// `VK_QUEUE_COMPUTE_BIT`.
pub const QUEUE_COMPUTE: u32 = 0x2;

/// `VK_MEMORY_PROPERTY_DEVICE_LOCAL_BIT`.
pub const MEMORY_DEVICE_LOCAL: u32 = 0x1;

/// `VK_MEMORY_PROPERTY_HOST_VISIBLE_BIT | VK_MEMORY_PROPERTY_HOST_COHERENT_BIT`.
pub const MEMORY_HOST_VISIBLE: u32 = 0x6;

/// `VK_MEMORY_PROPERTY_HOST_CACHED_BIT`.
pub const MEMORY_HOST_CACHED: u32 = 0x8;

/// `VK_BUFFER_USAGE_TRANSFER_SRC_BIT`.
pub const USAGE_TRANSFER_SRC: u32 = 0x1;

/// `VK_BUFFER_USAGE_TRANSFER_DST_BIT`.
pub const USAGE_TRANSFER_DST: u32 = 0x2;

/// `VK_BUFFER_USAGE_STORAGE_BUFFER_BIT`.
pub const USAGE_STORAGE: u32 = 0x20;

/// Bytes of the dimensions header: three sizes and the voxel count, one word each.
pub const DIMS_BYTES: u64 = 16;

/// Why no plan can be made for a device or a volume.
#[derive(Clone, Copy, PartialEq, Eq, Debug, Structural)]
pub enum GpuLightError {
    /// No physical device matched the requested selector.
    NoDevice,
    /// The physical device exposes no compute queue family.
    NoComputeQueue,
    /// No memory type has these property flags.
    NoMemoryType(u32),
    /// A volume of this many voxels exceeds the device's storage buffer limit.
    VolumeTooLarge(usize),
}

/// How to choose among the available physical devices.
#[derive(Clone, Copy, PartialEq, Eq, Debug, Structural)]
pub enum AdapterSelector {
    /// First integrated GPU.
    Integrated,
    /// First discrete GPU.
    Discrete,
    /// First device of any type.
    Any,
}

/// What kind of processor a physical device is.
#[derive(Clone, Copy, PartialEq, Eq, Debug, Structural)]
pub enum DeviceType {
    Other,
    IntegratedGpu,
    DiscreteGpu,
    VirtualGpu,
    Cpu,
}

/// What the driver reports about one physical device.
pub struct DeviceReport {
    pub name: String,
    pub device_type: DeviceType,
    /// Property flags of each memory type.
    pub memory_types: Vec<u32>,
    /// Capability flags of each queue family.
    pub queue_families: Vec<u32>,
    /// Largest storage buffer in bytes.
    pub max_storage_buffer_range: u32,
}

/// Identifying details of the selected physical device.
#[derive(Debug)]
pub struct DeviceInfo {
    pub name: String,
    pub device_type: DeviceType,
    /// Property flags chosen for the readback buffer. Host-cached or not largely explains readback
    /// cost on integrated devices.
    pub readback_memory: u32,
}

impl Clone for DeviceInfo {
    fn clone(&self) -> (copy: Self)
        ensures
            copy.name@ == self.name@,
            copy.device_type == self.device_type,
            copy.readback_memory == self.readback_memory,
    {
        DeviceInfo {
            name: self.name.clone(),
            device_type: self.device_type,
            readback_memory: self.readback_memory,
        }
    }
}

/// Wall-clock breakdown of one propagation, in nanoseconds.
#[derive(Clone, Copy, Debug)]
pub struct PhaseTimings {
    /// Allocation plus host-to-device upload of props and seed light.
    pub upload: u64,
    /// Submitting and waiting for the relaxation and pack dispatches.
    pub compute: u64,
    /// Device-to-host copy and unpacking back into the volume.
    pub readback: u64,
    /// Sum of the three phases.
    pub total: u64,
}

impl PhaseTimings {
    /// The breakdown of a run with these phases. A sum past the end of the range stays there.
    pub fn of_phases(upload: u64, compute: u64, readback: u64) -> (timings: Self)
        ensures
            timings.upload == upload,
            timings.compute == compute,
            timings.readback == readback,
            timings.total == if upload + compute + readback <= u64::MAX {
                upload + compute + readback
            } else {
                u64::MAX as int
            },
    {
        PhaseTimings {
            upload,
            compute,
            readback,
            total: upload.saturating_add(compute).saturating_add(readback),
        }
    }
}

impl Default for PhaseTimings {
    fn default() -> (timings: Self)
        ensures
            timings.upload == 0,
            timings.compute == 0,
            timings.readback == 0,
            timings.total == 0,
    {
        PhaseTimings { upload: 0, compute: 0, readback: 0, total: 0 }
    }
}

/// Division that rounds up.
pub open spec fn ceil_div(a: int, b: int) -> int {
    (a + b - 1) / b
}

fn div_ceil(a: u64, b: u64) -> (q: u64)
    requires
        b > 0,
    ensures
        q == ceil_div(a as int, b as int),
{
    proof {
        let (x, y) = (a as int, b as int);
        lemma_fundamental_div_mod(x, y);
        lemma_mod_bound(x, y);
        let q = x / y;
        let r = x % y;
        let c = if r > 0 {
            q + 1
        } else {
            q
        };
        assert(x + y - 1 == y * c + (if r > 0 {
            r - 1
        } else {
            y - 1
        })) by (nonlinear_arith)
            requires
                x == y * q + r,
                r >= 0,
                c == (if r > 0 {
                    q + 1
                } else {
                    q
                }),
        ;
        vstd::arithmetic::div_mod::lemma_fundamental_div_mod_converse(
            x + y - 1,
            y,
            c,
            if r > 0 {
                r - 1
            } else {
                y - 1
            },
        );
        assert(q <= x && (r > 0 && y > 1 ==> q + 1 <= x)) by (nonlinear_arith)
            requires
                x == y * q + r,
                r >= 0,
                y >= 1,
                q >= 0,
        ;
    }
    if a % b > 0 {
        a / b + 1
    } else {
        a / b
    }
}

/// Workgroups in X and Y for `items` items: one row as long as it fits
/// `maxComputeWorkGroupCount`, full rows after that. The row count is a 32-bit word.
pub open spec fn dispatch_size(items: int) -> (int, int) {
    let groups = ceil_div(items, WORKGROUP_SIZE as int);
    if groups <= MAX_WORKGROUPS_PER_DIM {
        (groups, 1)
    } else {
        (
            MAX_WORKGROUPS_PER_DIM as int,
            ceil_div(groups, MAX_WORKGROUPS_PER_DIM as int) % 0x1_0000_0000,
        )
    }
}

/// Splits a linear workgroup count across X and Y to fit `maxComputeWorkGroupCount`.
pub fn dispatch_dims(items: u64) -> (dims: (u32, u32))
    ensures
        (dims.0 as int, dims.1 as int) == dispatch_size(items as int),
{
    let groups: u64 = div_ceil(items, WORKGROUP_SIZE);
    if groups <= MAX_WORKGROUPS_PER_DIM {
        (groups as u32, 1)
    } else {
        let rows: u64 = div_ceil(groups, MAX_WORKGROUPS_PER_DIM);
        assert(rows as u32 == rows % 0x1_0000_0000) by (bit_vector);
        (MAX_WORKGROUPS_PER_DIM as u32, rows as u32)
    }
}

/// The dispatch covers every item, and starts less than one row of workgroups too many, as long as
/// the row count fits its word.
pub proof fn law_dispatch_covers(items: int)
    requires
        0 <= items <= WORKGROUP_SIZE * MAX_WORKGROUPS_PER_DIM * 0xffff_ffff,
    ensures
        dispatch_size(items).0 <= MAX_WORKGROUPS_PER_DIM,
        dispatch_size(items).0 * dispatch_size(items).1 * WORKGROUP_SIZE >= items,
        (dispatch_size(items).0 * dispatch_size(items).1 - MAX_WORKGROUPS_PER_DIM) * WORKGROUP_SIZE
            < items,
        items <= WORKGROUP_SIZE * MAX_WORKGROUPS_PER_DIM * MAX_WORKGROUPS_PER_DIM
            ==> dispatch_size(items).1 <= MAX_WORKGROUPS_PER_DIM,
{
    let groups = ceil_div(items, 64);
    if groups > 65_535 {
        let rows = ceil_div(groups, 65_535);
        assert(0 <= rows <= 0xffff_ffff);
        assert(rows % 0x1_0000_0000 == rows);
        assert(dispatch_size(items) == (65_535int, rows));
        assert(dispatch_size(items).0 * dispatch_size(items).1 == 65_535 * rows);
    } else {
        assert(dispatch_size(items).0 * dispatch_size(items).1 == groups);
    }
}

/// Decodes SPIR-V bytes into little-endian words; an incomplete word at the end is left out.
pub fn spv_words(bytes: &[u8]) -> (words: Vec<u32>)
    ensures
        words@.len() == bytes@.len() / 4,
        forall|i: int|
            0 <= i < words@.len() ==> #[trigger] words@[i] == bytes@[4 * i] + 0x100 * bytes@[4 * i
                + 1] + 0x1_0000 * bytes@[4 * i + 2] + 0x100_0000 * bytes@[4 * i + 3],
{
    let len: usize = bytes.len();
    let count: usize = len / 4;
    let mut words: Vec<u32> = Vec::new();
    for i in 0..count
        invariant
            len == bytes@.len(),
            count == len / 4,
            words@.len() == i,
            forall|j: int|
                0 <= j < i ==> #[trigger] words@[j] == bytes@[4 * j] + 0x100 * bytes@[4 * j + 1]
                    + 0x1_0000 * bytes@[4 * j + 2] + 0x100_0000 * bytes@[4 * j + 3],
    {
        let low: u32 = (bytes[4 * i] as u32) + 0x100 * (bytes[4 * i + 1] as u32);
        let high: u32 = (bytes[4 * i + 2] as u32) + 0x100 * (bytes[4 * i + 3] as u32);
        words.push(low + 0x1_0000 * high);
    }
    words
}

/// Division that rounds up gives the least number that, times the divisor, is enough.
pub proof fn law_rounding_up(a: int, b: int)
    requires
        a >= 0,
        b > 0,
    ensures
        ceil_div(a, b) * b >= a,
        (ceil_div(a, b) - 1) * b < a,
{
    let q = ceil_div(a, b);
    lemma_fundamental_div_mod(a + b - 1, b);
    lemma_mod_bound(a + b - 1, b);
    assert(q * b >= a && (q - 1) * b < a) by (nonlinear_arith)
        requires
            a + b - 1 == b * q + (a + b - 1) % b,
            0 <= (a + b - 1) % b < b,
    ;
}

/// Workgroups stand in one row as long as that is allowed, and then no more of them than the items
/// need; past that, rows are full, and no more of them than the items need, as far as their number
/// fits its word.
pub proof fn law_dispatch_takes_few_workgroups(items: int, rows: int)
    requires
        0 <= items,
        rows * (64 * 65_535) >= items,
        (rows - 1) * (64 * 65_535) < items,
    ensures
        items <= 64 * 65_535 ==> {
            &&& dispatch_size(items).1 == 1
            &&& dispatch_size(items).0 * 64 >= items
            &&& (dispatch_size(items).0 - 1) * 64 < items
        },
        items > 64 * 65_535 ==> {
            &&& dispatch_size(items).0 == 65_535
            &&& dispatch_size(items).1 == rows % 0x1_0000_0000
        },
{
    let groups = ceil_div(items, 64);
    law_rounding_up(items, 64);
    if groups > 65_535 {
        law_rounding_up(groups, 65_535);
        let q = ceil_div(groups, 65_535);
        assert(q * 4_194_240 >= items && (q - 1) * 4_194_240 < items);
        assert(q <= rows - 1 ==> q * 4_194_240 <= (rows - 1) * 4_194_240);
        assert(rows <= q - 1 ==> rows * 4_194_240 <= (q - 1) * 4_194_240);
        assert(q == rows);
    }
}

} // verus!
