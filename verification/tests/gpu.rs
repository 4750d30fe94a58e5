use pumpkin::lighting::gpu::engine::{
    find_memory_type, list_devices, resolve_memory_flags, select_device, select_queue_family,
    GpuLightEngine,
};
use pumpkin::lighting::gpu::plan::{store_readback, BufferRole, GpuCommand, Pipeline};
use pumpkin::lighting::gpu::{
    dispatch_dims, spv_words, AdapterSelector, DeviceReport, DeviceType, GpuLightError,
    PhaseTimings, MEMORY_DEVICE_LOCAL, MEMORY_HOST_CACHED, MEMORY_HOST_VISIBLE, QUEUE_COMPUTE,
};
use pumpkin::lighting::volume::{LightVolume, VoxelProps};

fn report(name: &str, device_type: DeviceType, queue_families: Vec<u32>, range: u32) -> DeviceReport {
    DeviceReport {
        name: name.to_string(),
        device_type,
        memory_types: vec![
            MEMORY_DEVICE_LOCAL,
            MEMORY_HOST_VISIBLE,
            MEMORY_HOST_VISIBLE | MEMORY_HOST_CACHED,
        ],
        queue_families,
        max_storage_buffer_range: range,
    }
}

fn devices() -> Vec<DeviceReport> {
    vec![
        report("soft", DeviceType::Cpu, vec![1, 1 | QUEUE_COMPUTE], 1 << 20),
        report("big", DeviceType::DiscreteGpu, vec![QUEUE_COMPUTE], 1 << 20),
        report("small", DeviceType::IntegratedGpu, vec![1], 1 << 20),
    ]
}

#[test]
fn dispatch_fits_one_row_or_several() {
    assert_eq!(dispatch_dims(0), (0, 1));
    assert_eq!(dispatch_dims(1), (1, 1));
    assert_eq!(dispatch_dims(64), (1, 1));
    assert_eq!(dispatch_dims(65), (2, 1));
    assert_eq!(dispatch_dims(64 * 65_535), (65_535, 1));
    assert_eq!(dispatch_dims(64 * 65_535 + 1), (65_535, 2));
}

#[test]
fn dispatch_covers_all_items() {
    for items in [7u64, 4096, 5_000_000, 123_456_789] {
        let (x, y) = dispatch_dims(items);
        assert!(u64::from(x) * u64::from(y) * 64 >= items);
    }
}

#[test]
fn shader_words_are_little_endian() {
    assert_eq!(spv_words(&[0x03, 0x02, 0x23, 0x07, 1, 0, 0, 0]), vec![0x0723_0203, 1]);
    assert_eq!(spv_words(&[1, 2, 3, 4, 5]), vec![0x0403_0201]);
    assert!(spv_words(&[1, 2, 3]).is_empty());
}

#[test]
fn phases_add_up() {
    let timings = PhaseTimings::of_phases(1, 20, 300);
    assert_eq!((timings.upload, timings.compute, timings.readback), (1, 20, 300));
    assert_eq!(timings.total, 321);
    assert_eq!(PhaseTimings::of_phases(u64::MAX, 1, 0).total, u64::MAX);
    assert_eq!(PhaseTimings::default().total, 0);
}

#[test]
fn devices_are_listed_in_order() {
    let list = list_devices(&devices());
    assert_eq!(list.len(), 3);
    assert_eq!(list[1], ("big".to_string(), DeviceType::DiscreteGpu));
}

#[test]
fn selectors_pick_the_first_match() {
    let all = devices();
    assert_eq!(select_device(&all, AdapterSelector::Any), Some(0));
    assert_eq!(select_device(&all, AdapterSelector::Discrete), Some(1));
    assert_eq!(select_device(&all, AdapterSelector::Integrated), Some(2));
    assert_eq!(select_device(&all[..1], AdapterSelector::Discrete), None);
    assert_eq!(select_queue_family(&all[0].queue_families), Some(1));
    assert_eq!(select_queue_family(&all[2].queue_families), None);
}

#[test]
fn engines_need_a_device_and_a_queue() {
    let all = devices();
    let engine = GpuLightEngine::new(AdapterSelector::Any, &all).ok().unwrap();
    assert_eq!((engine.physical, engine.family), (0, 1));
    assert_eq!(engine.device_info().name, "soft");
    assert_eq!(
        engine.device_info().readback_memory,
        MEMORY_HOST_VISIBLE | MEMORY_HOST_CACHED
    );
    assert_eq!(
        GpuLightEngine::new(AdapterSelector::Integrated, &all).err(),
        Some(GpuLightError::NoComputeQueue)
    );
    assert_eq!(
        GpuLightEngine::new(AdapterSelector::Discrete, &all[..1]).err(),
        Some(GpuLightError::NoDevice)
    );
}

#[test]
fn preferred_memory_comes_first_required_memory_next() {
    let types = [
        MEMORY_DEVICE_LOCAL,
        MEMORY_HOST_VISIBLE,
        MEMORY_HOST_VISIBLE | MEMORY_HOST_CACHED,
    ];
    assert_eq!(
        find_memory_type(&types, u32::MAX, MEMORY_HOST_VISIBLE, MEMORY_HOST_CACHED),
        Some(2)
    );
    assert_eq!(find_memory_type(&types, u32::MAX, MEMORY_HOST_VISIBLE, 0), Some(1));
    assert_eq!(
        find_memory_type(&types, 0b011, MEMORY_HOST_VISIBLE, MEMORY_HOST_CACHED),
        Some(1)
    );
    assert_eq!(find_memory_type(&types, 0b001, MEMORY_HOST_VISIBLE, 0), None);
    assert_eq!(resolve_memory_flags(&types[..1], MEMORY_HOST_VISIBLE, 0), 0);
    assert_eq!(resolve_memory_flags(&types, MEMORY_DEVICE_LOCAL, 0), MEMORY_DEVICE_LOCAL);
}

#[test]
fn buffers_need_a_memory_type() {
    let engine = GpuLightEngine::new(AdapterSelector::Any, &devices()).ok().unwrap();
    assert_eq!(engine.buffer_memory(u32::MAX, MEMORY_DEVICE_LOCAL, 0), Ok(0));
    assert_eq!(
        engine.buffer_memory(0b110, MEMORY_DEVICE_LOCAL, 0),
        Err(GpuLightError::NoMemoryType(MEMORY_DEVICE_LOCAL))
    );
}

#[test]
fn plans_stage_dimensions_properties_and_light() {
    let engine = GpuLightEngine::new(AdapterSelector::Any, &devices()).ok().unwrap();
    let mut props = vec![VoxelProps::default(); 6];
    props[0].luminance = 2;
    props[5].opacity = 1;
    let mut volume = LightVolume::new(3, 2, 1, &props);
    volume.light[1] = 9;
    let plan = engine.propagate(&volume).ok().unwrap();
    assert_eq!(
        plan.staging,
        vec![3, 2, 1, 6, 0x20, 0, 0, 0, 0, 1, 0, 9, 0, 0, 0, 0]
    );
    let sizes: Vec<u64> = plan.buffers.iter().map(|b| b.size).collect();
    assert_eq!(sizes, vec![16, 24, 24, 24, 8, 64, 8]);
    assert_eq!(plan.bindings.len(), 12);
    assert!(plan.bindings[8].buffer == BufferRole::Dims && plan.bindings[8].set == 2);
    assert!(plan.bindings[11].buffer == BufferRole::Packed && plan.bindings[11].slot == 3);
}

#[test]
fn plans_run_fifteen_waves_and_pack() {
    let engine = GpuLightEngine::new(AdapterSelector::Any, &devices()).ok().unwrap();
    let volume = LightVolume::new(1, 1, 1, &[VoxelProps::default()]);
    let plan = engine.propagate(&volume).ok().unwrap();
    let waves = plan.compute.iter().filter(|c| matches!(c, GpuCommand::AwaitShader)).count();
    assert_eq!(waves, 15);
    assert!(matches!(plan.compute[0], GpuCommand::AwaitTransfer));
    let last = plan.compute.len() - 3;
    assert!(matches!(plan.compute[last], GpuCommand::BindPipeline(Pipeline::Pack)));
    assert_eq!(plan.upload.len(), 3);
    assert_eq!(plan.readback.len(), 2);
}

#[test]
fn large_volumes_are_refused() {
    let small = vec![report("tiny", DeviceType::Other, vec![QUEUE_COMPUTE], 31)];
    let engine = GpuLightEngine::new(AdapterSelector::Any, &small).ok().unwrap();
    let volume = LightVolume::new(2, 2, 2, &vec![VoxelProps::default(); 8]);
    assert_eq!(engine.propagate(&volume).err(), Some(GpuLightError::VolumeTooLarge(8)));
}

#[test]
fn readback_is_one_byte_per_voxel() {
    let mut volume = LightVolume::new(5, 1, 1, &vec![VoxelProps::default(); 5]);
    store_readback(&mut volume, &[1, 2, 3, 4, 5, 0, 0, 0]);
    assert_eq!(volume.light, vec![1, 2, 3, 4, 5]);
}

/// One wave of relaxation from one buffer into another.
fn wave(volume: &LightVolume, source: &[u8]) -> Vec<u8> {
    let (sx, sy, sz) = (volume.size_x as i64, volume.size_y as i64, volume.size_z as i64);
    let mut target = Vec::new();
    for y in 0..sy {
        for z in 0..sz {
            for x in 0..sx {
                let at = |x: i64, y: i64, z: i64| ((y * sz + z) * sx + x) as usize;
                let word = volume.props[at(x, y, z)];
                let cost = (word & 15).max(1) as i64;
                let mut level = i64::from(word >> 4 & 15);
                for (dx, dy, dz) in [(0, -1, 0), (0, 1, 0), (0, 0, -1), (0, 0, 1), (-1, 0, 0), (1, 0, 0)] {
                    let (x, y, z) = (x + dx, y + dy, z + dz);
                    if (0..sx).contains(&x) && (0..sy).contains(&y) && (0..sz).contains(&z) {
                        level = level.max(i64::from(source[at(x, y, z)]) - cost);
                    }
                }
                target.push(level as u8);
            }
        }
    }
    target
}

/// A device that has the words of every buffer.
struct Device {
    buffers: Vec<(BufferRole, Vec<u32>)>,
    bindings: Vec<(u32, u32, BufferRole)>,
    pipeline: Option<Pipeline>,
    set: u32,
}

impl Device {
    fn index(&self, role: BufferRole) -> usize {
        self.buffers.iter().position(|(other, _)| *other == role).unwrap()
    }

    fn slot(&self, slot: u32) -> usize {
        let bound = self.bindings.iter().find(|b| b.0 == self.set && b.1 == slot).unwrap();
        self.index(bound.2)
    }

    fn execute(&mut self, command: &GpuCommand) {
        match command {
            GpuCommand::Copy { from, to, from_offset, size } => {
                assert!(from_offset % 4 == 0 && size % 4 == 0);
                let (first, count) = ((from_offset / 4) as usize, (size / 4) as usize);
                let from = self.index(*from);
                let words = self.buffers[from].1[first..first + count].to_vec();
                let to = self.index(*to);
                self.buffers[to].1[..count].copy_from_slice(&words);
            }
            GpuCommand::BindPipeline(bound) => self.pipeline = Some(*bound),
            GpuCommand::BindSet(bound) => self.set = *bound,
            GpuCommand::Dispatch(..) => {
                let dims = self.buffers[self.slot(0)].1.clone();
                let light: Vec<u8> =
                    self.buffers[self.slot(2)].1.iter().map(|word| *word as u8).collect();
                let world = LightVolume {
                    size_x: dims[0],
                    size_y: dims[1],
                    size_z: dims[2],
                    props: self.buffers[self.slot(1)].1.clone(),
                    light: light.clone(),
                };
                let target = self.slot(3);
                let words: Vec<u32> = match self.pipeline.unwrap() {
                    Pipeline::Propagate => {
                        wave(&world, &light).into_iter().map(u32::from).collect()
                    }
                    Pipeline::Pack => light
                        .chunks(4)
                        .map(|four| four.iter().rev().fold(0, |word, level| word << 8 | u32::from(*level)))
                        .collect(),
                };
                assert_eq!(words.len(), self.buffers[target].1.len());
                self.buffers[target].1 = words;
            }
            _ => {}
        }
    }
}

#[test]
fn executed_plans_give_the_reference_light() {
    let engine = GpuLightEngine::new(AdapterSelector::Any, &devices()).ok().unwrap();
    let mut props = vec![VoxelProps::default(); 19 * 3 * 2];
    props[7].luminance = 15;
    props[100].luminance = 9;
    props[30].opacity = 4;
    props[50].opacity = 15;
    let mut volume = LightVolume::new(19, 3, 2, &props);
    let plan = engine.propagate(&volume).ok().unwrap();
    let mut device = Device {
        buffers: plan
            .buffers
            .iter()
            .map(|buffer| (buffer.role, vec![0xdead_beef; (buffer.size / 4) as usize]))
            .collect(),
        bindings: plan.bindings.iter().map(|b| (b.set, b.slot, b.buffer)).collect(),
        pipeline: None,
        set: 9,
    };
    let staging = device.index(BufferRole::Staging);
    assert_eq!(device.buffers[staging].1.len(), plan.staging.len());
    device.buffers[staging].1 = plan.staging.clone();
    for command in &plan.upload {
        device.execute(command);
    }
    let (dims, seeds) = (device.index(BufferRole::Dims), device.index(BufferRole::LightA));
    assert_eq!(device.buffers[dims].1, vec![19, 3, 2, 114]);
    assert_eq!(device.buffers[device.index(BufferRole::Props)].1, volume.props);
    assert_eq!(device.buffers[seeds].1, vec![0; 114]);
    for command in plan.compute.iter().chain(&plan.readback) {
        device.execute(command);
    }
    let readback = device.index(BufferRole::Readback);
    let bytes: Vec<u8> =
        device.buffers[readback].1.iter().flat_map(|word| word.to_le_bytes()).collect();
    assert_eq!(bytes.len(), 116);
    let mut reference = LightVolume::new(19, 3, 2, &props);
    reference.propagate_reference();
    store_readback(&mut volume, &bytes);
    assert_eq!(volume.light, reference.light);
    assert_eq!(volume.props, reference.props);
    assert_eq!((volume.size_x, volume.size_y, volume.size_z), (19, 3, 2));
}

#[test]
fn planned_storage_buffers_fit_the_device() {
    let exact = vec![report("exact", DeviceType::Other, vec![QUEUE_COMPUTE], 64)];
    let engine = GpuLightEngine::new(AdapterSelector::Any, &exact).ok().unwrap();
    let volume = LightVolume::new(16, 1, 1, &vec![VoxelProps::default(); 16]);
    let plan = engine.propagate(&volume).ok().unwrap();
    for buffer in plan.buffers.iter().filter(|buffer| buffer.usage & 0x20 != 0) {
        assert!(buffer.size <= 64);
    }
}
