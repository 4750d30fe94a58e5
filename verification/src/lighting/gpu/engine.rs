//! Choosing a physical device, a queue family and memory types.

use crate::lighting::gpu::{
    AdapterSelector, DeviceInfo, DeviceReport, DeviceType, GpuLightError, MEMORY_HOST_CACHED,
    MEMORY_HOST_VISIBLE, QUEUE_COMPUTE,
};
use vstd::prelude::*;

verus! {

/// A device of type `device_type` is what `selector` asks for.
pub open spec fn selects(selector: AdapterSelector, device_type: DeviceType) -> bool {
    match selector {
        AdapterSelector::Integrated => device_type == DeviceType::IntegratedGpu,
        AdapterSelector::Discrete => device_type == DeviceType::DiscreteGpu,
        AdapterSelector::Any => true,
    }
}

/// All bits of `wanted` are set in `flags`.
pub open spec fn has_flags(flags: u32, wanted: u32) -> bool {
    flags & wanted == wanted
}

/// Memory type `i` may back a resource with these type bits and has all of the wanted flags.
pub open spec fn memory_fits(types: Seq<u32>, type_bits: u32, wanted: u32, i: int) -> bool {
    &&& type_bits & (1u32 << (i as u32)) != 0
    &&& has_flags(types[i], wanted)
}

/// `i` is the first index below `len` with property `p`; `None` if there is none.
pub open spec fn is_first(p: spec_fn(int) -> bool, len: int, found: Option<int>) -> bool {
    match found {
        Some(i) => 0 <= i < len && p(i) && forall|j: int| 0 <= j < i ==> !#[trigger] p(j),
        None => forall|j: int| 0 <= j < len ==> !#[trigger] p(j),
    }
}

/// The first memory type that fits, as the search reports it.
pub open spec fn first_memory(
    types: Seq<u32>,
    type_bits: u32,
    wanted: u32,
    found: Option<u32>,
) -> bool {
    is_first(
        |i: int| memory_fits(types, type_bits, wanted, i),
        types.len() as int,
        match found {
            Some(i) => Some(i as int),
            None => None,
        },
    )
}

/// Some memory type fits.
pub open spec fn memory_exists(types: Seq<u32>, type_bits: u32, wanted: u32) -> bool {
    exists|i: int| 0 <= i < types.len() && #[trigger] memory_fits(types, type_bits, wanted, i)
}

/// Whether `found` is the memory type to take: the first with both the required and the preferred
/// flags, else the first with the required ones, else none.
pub open spec fn chosen_memory(
    types: Seq<u32>,
    type_bits: u32,
    required: u32,
    preferred: u32,
    found: Option<u32>,
) -> bool {
    if memory_exists(types, type_bits, required | preferred) {
        first_memory(types, type_bits, required | preferred, found)
    } else {
        first_memory(types, type_bits, required, found)
    }
}

/// Whether `flags` are those of the chosen memory type for an unrestricted resource, or empty if
/// there is no such type.
pub open spec fn resolved_flags(types: Seq<u32>, required: u32, preferred: u32, flags: u32) -> bool {
    if memory_exists(types, u32::MAX, required) {
        exists|i: u32|
            {
                &&& i < types.len()
                &&& flags == #[trigger] types[i as int]
                &&& chosen_memory(types, u32::MAX, required, preferred, Some(i))
            }
    } else {
        flags == 0
    }
}

fn search_memory_type(types: &[u32], type_bits: u32, wanted: u32) -> (found: Option<u32>)
    requires
        types@.len() <= 32,
    ensures
        first_memory(types@, type_bits, wanted, found),
        found is Some <==> memory_exists(types@, type_bits, wanted),
{
    let count: usize = types.len();
    let ghost p = |i: int| memory_fits(types@, type_bits, wanted, i);
    for i in 0..count
        invariant
            count == types@.len(),
            types@.len() <= 32,
            p == (|i: int| memory_fits(types@, type_bits, wanted, i)),
            forall|j: int| 0 <= j < i ==> !#[trigger] p(j),
    {
        let bit: u32 = 1u32 << (i as u32);
        if type_bits & bit != 0 && types[i] & wanted == wanted {
            assert(p(i as int));
            return Some(i as u32);
        }
        assert(!p(i as int));
    }
    assert forall|i: int| 0 <= i < types@.len() implies !#[trigger] memory_fits(
        types@,
        type_bits,
        wanted,
        i,
    ) by {
        assert(!p(i));
    }
    None
}

/// The memory type to take: the first with both the required and the preferred flags, else the
/// first with the required ones.
pub fn find_memory_type(
    types: &[u32],
    type_bits: u32,
    required: u32,
    preferred: u32,
) -> (found: Option<u32>)
    requires
        types@.len() <= 32,
    ensures
        chosen_memory(types@, type_bits, required, preferred, found),
        found is Some <==> memory_exists(types@, type_bits, required),
{
    match search_memory_type(types, type_bits, required | preferred) {
        Some(i) => {
            proof {
                let p = |j: int| memory_fits(types@, type_bits, required | preferred, j);
                assert(p(i as int));
                let flags = types@[i as int];
                assert(flags & (required | preferred) == (required | preferred) ==> flags & required
                    == required) by (bit_vector);
                assert(memory_fits(types@, type_bits, required, i as int));
            }
            Some(i)
        },
        None => search_memory_type(types, type_bits, required),
    }
}

/// What flags a host-visible allocation would actually get.
pub fn resolve_memory_flags(types: &[u32], required: u32, preferred: u32) -> (flags: u32)
    requires
        types@.len() <= 32,
    ensures
        resolved_flags(types@, required, preferred, flags),
{
    match find_memory_type(types, u32::MAX, required, preferred) {
        Some(i) => {
            let flags: u32 = types[i as usize];
            assert(flags == types@[i as int]);
            flags
        },
        None => 0,
    }
}

/// A device that was chosen, with what later decisions need to know about it.
pub struct GpuLightEngine {
    /// Position of the device among those reported.
    pub physical: usize,
    /// Queue family that runs the shaders.
    pub family: u32,
    /// Property flags of each memory type.
    pub memory_types: Vec<u32>,
    /// Largest storage buffer in bytes.
    pub max_storage_buffer: u32,
    pub info: DeviceInfo,
}

/// The selector accepts device `i`.
pub open spec fn device_matches(
    devices: Seq<DeviceReport>,
    selector: AdapterSelector,
    i: int,
) -> bool {
    selects(selector, devices[i].device_type)
}

/// Queue family `i` can run compute work.
pub open spec fn family_computes(families: Seq<u32>, i: int) -> bool {
    has_flags(families[i], QUEUE_COMPUTE)
}

/// No device before `i` matches, and `i` does.
pub open spec fn first_device(
    devices: Seq<DeviceReport>,
    selector: AdapterSelector,
    i: int,
) -> bool {
    is_first(|j: int| device_matches(devices, selector, j), devices.len() as int, Some(i))
}

/// No family before `i` can run compute work, and `i` can.
pub open spec fn first_compute_family(families: Seq<u32>, i: int) -> bool {
    is_first(|j: int| family_computes(families, j), families.len() as int, Some(i))
}

/// Name and type of every device, in the order in which they are reported.
#[must_use]
pub fn list_devices(devices: &[DeviceReport]) -> (list: Vec<(String, DeviceType)>)
    ensures
        list@.len() == devices@.len(),
        forall|i: int|
            0 <= i < list@.len() ==> (#[trigger] list@[i]).0@ == devices@[i].name@ && list@[i].1
                == devices@[i].device_type,
{
    let mut list: Vec<(String, DeviceType)> = Vec::new();
    for i in 0..devices.len()
        invariant
            list@.len() == i,
            forall|j: int|
                0 <= j < i ==> (#[trigger] list@[j]).0@ == devices@[j].name@ && list@[j].1
                    == devices@[j].device_type,
    {
        list.push((devices[i].name.clone(), devices[i].device_type));
    }
    list
}

/// The first device that the selector accepts.
pub fn select_device(devices: &[DeviceReport], selector: AdapterSelector) -> (found: Option<usize>)
    ensures
        match found {
            Some(i) => first_device(devices@, selector, i as int),
            None => forall|j: int|
                0 <= j < devices@.len() ==> !#[trigger] device_matches(devices@, selector, j),
        },
{
    let count: usize = devices.len();
    let ghost p = |j: int| device_matches(devices@, selector, j);
    for i in 0..count
        invariant
            count == devices@.len(),
            p == (|j: int| device_matches(devices@, selector, j)),
            forall|j: int| 0 <= j < i ==> !#[trigger] p(j),
            forall|j: int| 0 <= j < i ==> !#[trigger] device_matches(devices@, selector, j),
    {
        let wanted = match selector {
            AdapterSelector::Integrated => devices[i].device_type == DeviceType::IntegratedGpu,
            AdapterSelector::Discrete => devices[i].device_type == DeviceType::DiscreteGpu,
            AdapterSelector::Any => true,
        };
        if wanted {
            assert(p(i as int));
            return Some(i);
        }
    }
    None
}

/// The first queue family that can run compute work.
pub fn select_queue_family(families: &[u32]) -> (found: Option<usize>)
    ensures
        match found {
            Some(i) => first_compute_family(families@, i as int),
            None => forall|j: int|
                0 <= j < families@.len() ==> !#[trigger] family_computes(families@, j),
        },
{
    let count: usize = families.len();
    let ghost p = |j: int| family_computes(families@, j);
    for i in 0..count
        invariant
            count == families@.len(),
            p == (|j: int| family_computes(families@, j)),
            forall|j: int| 0 <= j < i ==> !#[trigger] p(j),
            forall|j: int| 0 <= j < i ==> !#[trigger] family_computes(families@, j),
    {
        if families[i] & QUEUE_COMPUTE == QUEUE_COMPUTE {
            assert(p(i as int));
            return Some(i);
        }
    }
    None
}

impl GpuLightEngine {
    /// Opens the first device matching `selector`, on its first compute queue family.
    pub fn new(selector: AdapterSelector, devices: &[DeviceReport]) -> (engine: Result<
        Self,
        GpuLightError,
    >)
        requires
            forall|i: int|
                0 <= i < devices@.len() ==> {
                    &&& (#[trigger] devices@[i]).memory_types@.len() <= 32
                    &&& devices@[i].queue_families@.len() <= u32::MAX
                },
        ensures
            match engine {
                Ok(e) => {
                    let d = devices@[e.physical as int];
                    &&& first_device(devices@, selector, e.physical as int)
                    &&& first_compute_family(d.queue_families@, e.family as int)
                    &&& e.memory_types@ == d.memory_types@
                    &&& e.max_storage_buffer == d.max_storage_buffer_range
                    &&& e.info.name@ == d.name@
                    &&& e.info.device_type == d.device_type
                    &&& resolved_flags(
                        d.memory_types@,
                        MEMORY_HOST_VISIBLE,
                        MEMORY_HOST_CACHED,
                        e.info.readback_memory,
                    )
                },
                Err(GpuLightError::NoDevice) => forall|j: int|
                    0 <= j < devices@.len() ==> !#[trigger] device_matches(devices@, selector, j),
                Err(GpuLightError::NoComputeQueue) => exists|i: int|
                    {
                        &&& #[trigger] first_device(devices@, selector, i)
                        &&& forall|j: int|
                            0 <= j < devices@[i].queue_families@.len() ==> !#[trigger] family_computes(
                                devices@[i].queue_families@,
                                j,
                            )
                    },
                Err(_) => false,
            },
    {
        let physical: usize = match select_device(devices, selector) {
            Some(i) => i,
            None => return Err(GpuLightError::NoDevice),
        };
        proof {
            let p = |j: int| device_matches(devices@, selector, j);
            assert(p(physical as int));
        }
        let device = &devices[physical];
        let family: usize = match select_queue_family(device.queue_families.as_slice()) {
            Some(i) => i,
            None => {
                assert(first_device(devices@, selector, physical as int));
                return Err(GpuLightError::NoComputeQueue);
            },
        };
        // Uncached mappings make host reads roughly 10x slower on integrated devices.
        let readback_memory: u32 = resolve_memory_flags(
            device.memory_types.as_slice(),
            MEMORY_HOST_VISIBLE,
            MEMORY_HOST_CACHED,
        );
        Ok(
            GpuLightEngine {
                physical,
                family: family as u32,
                memory_types: device.memory_types.clone(),
                max_storage_buffer: device.max_storage_buffer_range,
                info: DeviceInfo {
                    name: device.name.clone(),
                    device_type: device.device_type,
                    readback_memory,
                },
            },
        )
    }

    #[must_use]
    pub fn device_info(&self) -> (info: &DeviceInfo)
        ensures
            *info == self.info,
    {
        &self.info
    }

    /// The memory type for a buffer that the driver allows in `type_bits`, with `required` flags
    /// and `preferred` ones too where possible.
    pub fn buffer_memory(&self, type_bits: u32, required: u32, preferred: u32) -> (index: Result<
        u32,
        GpuLightError,
    >)
        requires
            self.memory_types@.len() <= 32,
        ensures
            match index {
                Ok(i) => chosen_memory(self.memory_types@, type_bits, required, preferred, Some(i)),
                Err(e) => e == GpuLightError::NoMemoryType(required) && !memory_exists(
                    self.memory_types@,
                    type_bits,
                    required,
                ),
            },
    {
        match find_memory_type(self.memory_types.as_slice(), type_bits, required, preferred) {
            Some(i) => Ok(i),
            None => Err(GpuLightError::NoMemoryType(required)),
        }
    }
}

/// The device that is opened is of the kind that was asked for, and none before it is.
pub proof fn law_first_device_of_its_kind(
    devices: Seq<DeviceReport>,
    selector: AdapterSelector,
    i: int,
)
    ensures
        ({
            let wanted = |j: int|
                match selector {
                    AdapterSelector::Integrated => devices[j].device_type
                        == DeviceType::IntegratedGpu,
                    AdapterSelector::Discrete => devices[j].device_type == DeviceType::DiscreteGpu,
                    AdapterSelector::Any => true,
                };
            &&& first_device(devices, selector, i) <==> 0 <= i < devices.len() && wanted(i) && (
            forall|j: int| 0 <= j < i ==> !#[trigger] wanted(j))
            &&& device_matches(devices, selector, i) <==> wanted(i)
        }),
{
    let wanted = |j: int|
        match selector {
            AdapterSelector::Integrated => devices[j].device_type == DeviceType::IntegratedGpu,
            AdapterSelector::Discrete => devices[j].device_type == DeviceType::DiscreteGpu,
            AdapterSelector::Any => true,
        };
    let p = |j: int| device_matches(devices, selector, j);
    assert forall|j: int| #[trigger] p(j) == wanted(j) by {}
    assert forall|j: int| #[trigger] wanted(j) == p(j) by {}
}

/// The queue family that is taken can compute, and none before it can.
pub proof fn law_first_family_that_computes(families: Seq<u32>, i: int)
    ensures
        first_compute_family(families, i) <==> 0 <= i < families.len() && families[i] & 2 == 2 && (
        forall|j: int| 0 <= j < i ==> (#[trigger] families[j]) & 2 != 2),
        family_computes(families, i) <==> families[i] & 2 == 2,
{
    let p = |j: int| family_computes(families, j);
    assert forall|j: int| #[trigger] p(j) == (families[j] & 2 == 2) by {}
    if first_compute_family(families, i) {
        assert(p(i));
        assert forall|j: int| 0 <= j < i implies (#[trigger] families[j]) & 2 != 2 by {
            assert(!p(j));
        }
    }
    if 0 <= i < families.len() && families[i] & 2 == 2 && (forall|j: int|
        0 <= j < i ==> (#[trigger] families[j]) & 2 != 2) {
        assert(p(i));
        assert forall|j: int| 0 <= j < i implies !#[trigger] p(j) by {
            assert(families[j] & 2 != 2);
        }
    }
}

/// Memory type `i` is allowed by the type bits and has all of the flags.
pub open spec fn allowed_with(types: Seq<u32>, type_bits: u32, flags: u32, i: int) -> bool {
    0 <= i < types.len() && type_bits & (1u32 << (i as u32)) != 0 && types[i] & flags == flags
}

proof fn lemma_first_memory(types: Seq<u32>, type_bits: u32, wanted: u32, found: Option<u32>)
    requires
        first_memory(types, type_bits, wanted, found),
    ensures
        match found {
            Some(i) => allowed_with(types, type_bits, wanted, i as int) && forall|j: int|
                0 <= j < i ==> !#[trigger] allowed_with(types, type_bits, wanted, j),
            None => forall|j: int|
                0 <= j < types.len() ==> !#[trigger] allowed_with(types, type_bits, wanted, j),
        },
{
    let p = |i: int| memory_fits(types, type_bits, wanted, i);
    match found {
        Some(i) => {
            assert(p(i as int));
            assert forall|j: int| 0 <= j < i implies !#[trigger] allowed_with(
                types,
                type_bits,
                wanted,
                j,
            ) by {
                assert(!p(j));
            }
        },
        None => {
            assert forall|j: int| 0 <= j < types.len() implies !#[trigger] allowed_with(
                types,
                type_bits,
                wanted,
                j,
            ) by {
                assert(!p(j));
            }
        },
    }
}

/// The memory type that is taken is allowed and has the required flags. If it lacks preferred ones,
/// no allowed type has both; and no earlier type would have done as well. If none is taken, no
/// allowed type has the required flags.
pub proof fn law_memory_is_the_first_that_does(
    types: Seq<u32>,
    type_bits: u32,
    required: u32,
    preferred: u32,
    found: Option<u32>,
)
    requires
        chosen_memory(types, type_bits, required, preferred, found),
    ensures
        match found {
            Some(i) => {
                let best = exists|j: int| #[trigger]
                    allowed_with(types, type_bits, required | preferred, j);
                &&& allowed_with(types, type_bits, required, i as int)
                &&& best ==> allowed_with(types, type_bits, preferred, i as int)
                &&& forall|j: int|
                    0 <= j < i && #[trigger] allowed_with(types, type_bits, required, j) ==> best
                        && !allowed_with(types, type_bits, preferred, j)
            },
            None => forall|j: int| !#[trigger] allowed_with(types, type_bits, required, j),
        },
{
    let both = required | preferred;
    assert forall|flags: u32| #[trigger] (flags & both) == both <==> flags & required == required
        && flags & preferred == preferred by {
        assert(flags & (required | preferred) == (required | preferred) <==> flags & required
            == required && flags & preferred == preferred) by (bit_vector);
    }
    if memory_exists(types, type_bits, both) {
        lemma_first_memory(types, type_bits, both, found);
        let k = choose|k: int| 0 <= k < types.len() && #[trigger] memory_fits(types, type_bits, both, k);
        assert(allowed_with(types, type_bits, both, k));
        if let Some(i) = found {
            assert forall|j: int|
                0 <= j < i && #[trigger] allowed_with(types, type_bits, required, j) implies !allowed_with(
            types, type_bits, preferred, j) by {
                assert(!allowed_with(types, type_bits, both, j));
                assert((types[j] & both) == both <==> types[j] & required == required && types[j]
                    & preferred == preferred);
            }
            assert((types[i as int] & both) == both);
        }
    } else {
        lemma_first_memory(types, type_bits, required, found);
        assert forall|j: int| !#[trigger] allowed_with(types, type_bits, both, j) by {
            if allowed_with(types, type_bits, both, j) {
                assert(memory_fits(types, type_bits, both, j));
            }
        }
    }
}

/// What is said of host memory is what the type that is taken has, or nothing if there is none.
pub proof fn law_reported_flags_are_those_taken(
    types: Seq<u32>,
    required: u32,
    preferred: u32,
    flags: u32,
)
    requires
        types.len() <= 32,
        resolved_flags(types, required, preferred, flags),
    ensures
        ({
            let fits = exists|j: int|
                0 <= j < types.len() && (#[trigger] types[j]) & required == required;
            let best = exists|j: int|
                0 <= j < types.len() && (#[trigger] types[j]) & (required | preferred) == (required
                    | preferred);
            &&& !fits ==> flags == 0
            &&& fits ==> flags & required == required && types.contains(flags)
            &&& best ==> flags & preferred == preferred
        }),
{
    assert forall|i: u32| i < 32 implies #[trigger] (u32::MAX & (1u32 << i)) != 0 by {
        assert(i < 32 ==> 0xffff_ffffu32 & (1u32 << i) != 0) by (bit_vector);
    }
    let both = required | preferred;
    if memory_exists(types, u32::MAX, required) {
        let i = choose|i: u32|
            {
                &&& i < types.len()
                &&& flags == #[trigger] types[i as int]
                &&& chosen_memory(types, u32::MAX, required, preferred, Some(i))
            };
        law_memory_is_the_first_that_does(types, u32::MAX, required, preferred, Some(i));
        assert(types[i as int] & required == required);
        if exists|j: int| 0 <= j < types.len() && (#[trigger] types[j]) & both == both {
            let j = choose|j: int| 0 <= j < types.len() && (#[trigger] types[j]) & both == both;
            assert(u32::MAX & (1u32 << (j as u32)) != 0);
            assert(allowed_with(types, u32::MAX, both, j));
        }
    } else {
        assert forall|j: int| 0 <= j < types.len() implies (#[trigger] types[j]) & required
            != required by {
            assert(u32::MAX & (1u32 << (j as u32)) != 0);
            assert(!memory_fits(types, u32::MAX, required, j));
        }
        if exists|j: int| 0 <= j < types.len() && (#[trigger] types[j]) & both == both {
            let j = choose|j: int| 0 <= j < types.len() && (#[trigger] types[j]) & both == both;
            let f = types[j];
            assert(f & (required | preferred) == (required | preferred) ==> f & required
                == required) by (bit_vector);
        }
    }
}

/// Readback memory is visible to the host and coherent, and cached if possible.
pub proof fn law_host_memory()
    ensures
        MEMORY_HOST_VISIBLE == 0x2 + 0x4,
        MEMORY_HOST_CACHED == 0x8,
        QUEUE_COMPUTE == 0x2,
{
}

} // verus!
